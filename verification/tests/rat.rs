use rattus::rat::{click_due, digit_direction, Button, ClickAction, Forward, MoveAction, RatConfig, RatState, Speeds};

fn speeds() -> Speeds {
    Speeds {
        click_speed: 50,
        fast_speed: 30,
        medium_speed: 10,
        slow_speed: 2,
        fast_arrow_speed: 100,
        medium_arrow_speed: 500,
        slow_arrow_speed: 900,
        numpad_speed: 7,
    }
}

#[test]
fn config_values_become_speeds() {
    let c = RatConfig {
        click_speed: 50,
        fast_speed: 5000,
        medium_speed: 1000,
        slow_speed: 500,
        fast_arrow_speed: 1,
        medium_arrow_speed: 2,
        slow_arrow_speed: 3,
        numpad_speed: -1,
    };
    let s = c.speeds();
    assert_eq!(s.click_speed, 50);
    assert_eq!(s.fast_speed, 5000);
    assert_eq!(s.medium_speed, 1000);
    assert_eq!(s.slow_speed, 500);
    assert_eq!(s.fast_arrow_speed, 1);
    assert_eq!(s.medium_arrow_speed, 2);
    assert_eq!(s.slow_arrow_speed, 3);
    assert_eq!(s.numpad_speed, u64::MAX);
}

#[test]
fn start_modes() {
    let s = RatState::new();
    assert!(!s.is_fast && !s.is_slow);
    assert!(s.is_numlock_on && s.is_rat_on && s.left_click_toggle);
}

#[test]
fn mouse_moves_by_mode_speed() {
    let sp = speeds();
    let mut s = RatState::new();
    assert_eq!(s.move_action(&sp, 1, -1, false), MoveAction::MoveMouse { dx: 10, dy: -10 });
    s.fast_key(true);
    assert_eq!(s.move_action(&sp, -1, 0, false), MoveAction::MoveMouse { dx: -30, dy: 0 });
    s.slow_key(true);
    assert_eq!(s.move_action(&sp, 0, 1, true), MoveAction::MoveMouse { dx: 0, dy: 10 });
    s.fast_key(false);
    assert_eq!(s.move_action(&sp, 1, 1, true), MoveAction::MoveMouse { dx: 2, dy: 2 });
}

#[test]
fn opposite_directions_move_opposite_ways() {
    let sp = speeds();
    let s = RatState::new();
    let a = s.move_action(&sp, 1, 1, false);
    let b = s.move_action(&sp, -1, -1, false);
    match (a, b) {
        (MoveAction::MoveMouse { dx, dy }, MoveAction::MoveMouse { dx: ex, dy: ey }) => {
            assert_eq!(dx, -ex);
            assert_eq!(dy, -ey);
        }
        _ => panic!("expected pointer moves"),
    }
}

#[test]
fn arrows_when_mouse_off() {
    let sp = speeds();
    let mut s = RatState::new();
    s.rat_key(&sp);
    assert_eq!(
        s.move_action(&sp, 0, -1, false),
        MoveAction::TapArrow { diagonal: false, pause_micros: 500 }
    );
    s.fast_key(true);
    assert_eq!(
        s.move_action(&sp, -1, -1, true),
        MoveAction::TapArrow { diagonal: true, pause_micros: 100 }
    );
    s.slow_key(true);
    assert_eq!(
        s.move_action(&sp, 1, 0, false),
        MoveAction::TapArrow { diagonal: false, pause_micros: 200 }
    );
}

#[test]
fn keypad_passes_through_when_both_off() {
    let sp = speeds();
    let mut s = RatState::new();
    s.rat_key(&sp);
    s.numlock_key();
    assert_eq!(s.move_action(&sp, 1, 0, false), MoveAction::HoldKeypad { pause_micros: 7 });
    assert_eq!(s.fast_key(true), Some(Forward::Press));
    assert_eq!(s.fast_key(false), Some(Forward::Release));
    assert_eq!(s.slow_key(true), Some(Forward::Press));
    assert!(!s.is_fast && !s.is_slow);
}

#[test]
fn can_move_rejects_underflow_and_overflow() {
    let mut sp = speeds();
    sp.fast_speed = 5;
    let mut s = RatState::new();
    s.fast_key(true);
    s.slow_key(true);
    assert!(!s.can_move(&sp, 1, 0));
    sp.fast_speed = 30;
    assert!(s.can_move(&sp, 1, 0));
    let mut big = speeds();
    big.medium_speed = 1 << 30;
    let plain = RatState::new();
    assert!(plain.can_move(&big, 1, 1));
    assert!(!plain.can_move(&big, 2, 0));
    assert!(plain.can_move(&big, -2, 0));
    assert!(!plain.can_move(&big, 0, -3));
    let mut off = RatState::new();
    off.rat_key(&sp);
    off.fast_key(true);
    off.slow_key(true);
    sp.fast_arrow_speed = 600;
    assert!(!off.can_move(&sp, 1, 0));
}

#[test]
fn speed_above_i32_truncates_like_a_cast() {
    let mut sp = speeds();
    sp.medium_speed = (1u64 << 32) + 3;
    let s = RatState::new();
    assert!(s.can_move(&sp, 1, -1));
    assert_eq!(s.move_action(&sp, 1, -1, false), MoveAction::MoveMouse { dx: 3, dy: -3 });
}

#[test]
fn clicks_by_mode() {
    let sp = speeds();
    let mut s = RatState::new();
    s.right_click(&sp);
    assert!(!s.left_click_toggle);
    assert_eq!(
        s.left_click(&sp),
        ClickAction::MouseClick { button: Button::Left, pause_micros: 50 }
    );
    assert!(s.left_click_toggle);
    s.rat_key(&sp);
    assert_eq!(s.left_click(&sp), ClickAction::NoAction);
    s.numlock_key();
    assert_eq!(s.left_click(&sp), ClickAction::KeyClick { pause_micros: 50 });
    assert_eq!(
        s.right_click(&sp),
        ClickAction::MouseClick { button: Button::Right, pause_micros: 50 }
    );
}

#[test]
fn toggle_button_follows_last_click() {
    let sp = speeds();
    let mut s = RatState::new();
    assert_eq!(s.toggle_button(), Button::Left);
    s.right_click(&sp);
    assert_eq!(s.toggle_button(), Button::Right);
    s.left_click(&sp);
    assert_eq!(s.toggle_button(), Button::Left);
}

#[test]
fn mode_keys_undo_themselves() {
    let sp = speeds();
    let s = RatState::new();
    let mut t = s;
    t.numlock_key();
    assert!(!t.is_numlock_on);
    t.numlock_key();
    assert_eq!(t, s);
    assert_eq!(t.rat_key(&sp), 50);
    assert!(!t.is_rat_on);
    t.rat_key(&sp);
    assert_eq!(t, s);
}

#[test]
fn speed_keys_hold_while_down() {
    let mut s = RatState::new();
    assert_eq!(s.fast_key(true), None);
    assert!(s.is_fast);
    assert_eq!(s.fast_key(false), None);
    assert!(!s.is_fast);
    assert_eq!(s.slow_key(true), None);
    assert!(s.is_slow);
    s.slow_key(false);
    assert!(!s.is_slow);
}

#[test]
fn click_due_after_click_speed_millis() {
    assert!(!click_due(50_000_000, 50));
    assert!(click_due(50_000_001, 50));
    assert!(click_due(1, 0));
    assert!(!click_due(0, 0));
    assert!(!click_due(u64::MAX as u128 * 1_000_000, u64::MAX));
}

#[test]
fn clicks_and_speed_keys_keep_the_modes() {
    let sp = speeds();
    let mut s = RatState::new();
    s.left_click(&sp);
    s.right_click(&sp);
    s.fast_key(true);
    s.slow_key(true);
    s.fast_key(false);
    assert!(s.is_rat_on && s.is_numlock_on);
    s.rat_key(&sp);
    s.left_click(&sp);
    s.right_click(&sp);
    s.slow_key(false);
    assert!(!s.is_rat_on && s.is_numlock_on);
}

#[test]
fn numpad_digits_point_as_laid_out() {
    assert_eq!(digit_direction(7), Some((-1, -1)));
    assert_eq!(digit_direction(8), Some((0, -1)));
    assert_eq!(digit_direction(9), Some((1, -1)));
    assert_eq!(digit_direction(4), Some((-1, 0)));
    assert_eq!(digit_direction(6), Some((1, 0)));
    assert_eq!(digit_direction(1), Some((-1, 1)));
    assert_eq!(digit_direction(2), Some((0, 1)));
    assert_eq!(digit_direction(3), Some((1, 1)));
    assert_eq!(digit_direction(5), None);
    assert_eq!(digit_direction(0), None);
    for d in [1u8, 2, 3, 4, 6, 7, 8, 9] {
        let (x, y) = digit_direction(d).unwrap();
        assert_eq!(digit_direction(10 - d), Some((-x, -y)));
    }
}

#[test]
fn faster_modes_move_farther() {
    let sp = speeds();
    let step = |fast: bool, slow: bool| {
        let mut s = RatState::new();
        s.fast_key(fast);
        s.slow_key(slow);
        match s.move_action(&sp, -1, 0, false) {
            MoveAction::MoveMouse { dx, .. } => dx.abs(),
            _ => panic!("expected a pointer move"),
        }
    };
    assert!(step(true, false) > step(false, false));
    assert!(step(false, false) > step(false, true));
}

#[test]
fn numlock_is_ignored_while_mouse_is_on() {
    let sp = speeds();
    let on = RatState::new();
    let mut off = on;
    off.numlock_key();
    assert!(off.is_rat_on && !off.is_numlock_on);
    assert_eq!(on.move_action(&sp, 1, 1, true), off.move_action(&sp, 1, 1, true));
}
