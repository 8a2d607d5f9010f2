//! The decisions of the numpad mouse: how fast to move, what a key does in
//! each mode, and how the modes change.

use vstd::prelude::*;

verus! {

/// The speeds and pauses of the configuration file, as written there.
#[derive(Clone, Copy, Debug)]
pub struct RatConfig {
    pub click_speed: i32,
    pub fast_speed: i32,
    pub medium_speed: i32,
    pub slow_speed: i32,
    pub fast_arrow_speed: i32,
    pub medium_arrow_speed: i32,
    pub slow_arrow_speed: i32,
    pub numpad_speed: i32,
}

/// The speeds and pauses as the key handlers use them.
#[derive(Clone, Copy, Debug, PartialEq, Eq, Structural)]
pub struct Speeds {
    /// Pause of a click, in microseconds, and the least time between two
    /// clicks, in milliseconds.
    pub click_speed: u64,
    /// Pointer steps of one move, per mode.
    pub fast_speed: u64,
    pub medium_speed: u64,
    pub slow_speed: u64,
    /// Pause after an arrow key tap, in microseconds, per mode.
    pub fast_arrow_speed: u64,
    pub medium_arrow_speed: u64,
    pub slow_arrow_speed: u64,
    /// How long a passed-through numpad key is held, in microseconds.
    pub numpad_speed: u64,
}

impl RatConfig {
    /// The configured values taken as unsigned 64-bit numbers, the way
    /// `as u64` takes them: a negative value wraps around.
    pub fn speeds(&self) -> (s: Speeds)
        ensures
            s == (Speeds {
                click_speed: self.click_speed as u64,
                fast_speed: self.fast_speed as u64,
                medium_speed: self.medium_speed as u64,
                slow_speed: self.slow_speed as u64,
                fast_arrow_speed: self.fast_arrow_speed as u64,
                medium_arrow_speed: self.medium_arrow_speed as u64,
                slow_arrow_speed: self.slow_arrow_speed as u64,
                numpad_speed: self.numpad_speed as u64,
            }),
    {
        Speeds {
            click_speed: self.click_speed as u64,
            fast_speed: self.fast_speed as u64,
            medium_speed: self.medium_speed as u64,
            slow_speed: self.slow_speed as u64,
            fast_arrow_speed: self.fast_arrow_speed as u64,
            medium_arrow_speed: self.medium_arrow_speed as u64,
            slow_arrow_speed: self.slow_arrow_speed as u64,
            numpad_speed: self.numpad_speed as u64,
        }
    }
}

/// A mouse button.
#[derive(Clone, Copy, Debug, PartialEq, Eq, Structural)]
pub enum Button {
    Left,
    Right,
}

/// What a direction key makes happen.
#[derive(Clone, Copy, Debug, PartialEq, Eq, Structural)]
pub enum MoveAction {
    /// Move the pointer by this many pixels.
    MoveMouse { dx: i32, dy: i32 },
    /// Tap the key's arrow key (its diagonal arrow key when it has one),
    /// then pause for this many microseconds.
    TapArrow { diagonal: bool, pause_micros: u64 },
    /// Press the key's own numpad key, hold it this many microseconds, release it.
    HoldKeypad { pause_micros: u64 },
}

/// What a click key makes happen.
#[derive(Clone, Copy, Debug, PartialEq, Eq, Structural)]
pub enum ClickAction {
    /// Press the button, hold it this many microseconds, release it.
    MouseClick { button: Button, pause_micros: u64 },
    /// Press the numpad click key itself, hold it this many microseconds, release it.
    KeyClick { pause_micros: u64 },
    /// Nothing.
    NoAction,
}

/// What a mode key passes on to the system when it does not switch a mode.
#[derive(Clone, Copy, Debug, PartialEq, Eq, Structural)]
pub enum Forward {
    Press,
    Release,
}

/// The modes of the numpad mouse.
#[derive(Clone, Copy, Debug, PartialEq, Eq, Structural)]
pub struct RatState {
    /// Fast movement is held on.
    pub is_fast: bool,
    /// Slow movement is held on.
    pub is_slow: bool,
    /// Direction keys drive the arrow keys (when the mouse is off).
    pub is_numlock_on: bool,
    /// Direction keys drive the pointer.
    pub is_rat_on: bool,
    /// The last click was a left click, so the toggle click key presses the left button.
    pub left_click_toggle: bool,
}

/// Whether the time since the last click, in nanoseconds, is more than the
/// least time between two clicks, `click_speed` milliseconds.
pub open spec fn spec_click_due(elapsed_nanos: u128, click_speed: u64) -> bool {
    elapsed_nanos > click_speed * 1_000_000
}

/// Whether a click may fire now: more than `click_speed` milliseconds have
/// passed since the last one.
pub fn click_due(elapsed_nanos: u128, click_speed: u64) -> (b: bool)
    ensures
        b == spec_click_due(elapsed_nanos, click_speed),
{
    elapsed_nanos > (click_speed as u128) * 1_000_000u128
}

proof fn lemma_i32_product_bounds(a: i32, b: i32)
    ensures
        -0x4000_0000_0000_0000 <= (a as int) * (b as int) <= 0x4000_0000_0000_0000,
{
    assert(-0x4000_0000_0000_0000 <= (a as int) * (b as int) <= 0x4000_0000_0000_0000)
        by (nonlinear_arith)
        requires
            -0x8000_0000 <= a < 0x8000_0000,
            -0x8000_0000 <= b < 0x8000_0000,
    ;
}

impl RatState {
    /// The modes at start: mouse on, numlock on, no speed modifier, left clicks.
    pub fn new() -> (s: RatState)
        ensures
            s == (RatState {
                is_fast: false,
                is_slow: false,
                is_numlock_on: true,
                is_rat_on: true,
                left_click_toggle: true,
            }),
    {
        RatState {
            is_fast: false,
            is_slow: false,
            is_numlock_on: true,
            is_rat_on: true,
            left_click_toggle: true,
        }
    }

    /// Whether the numpad keys go through to the system unchanged: the mouse
    /// and numlock are both off.
    pub open spec fn passes_through(self) -> bool {
        !self.is_numlock_on && !self.is_rat_on
    }

    /// Pointer steps of one move in the current mode: both modifiers held give
    /// half the difference of the fast and the medium speed.
    pub open spec fn mouse_speed(self, sp: Speeds) -> int {
        if self.is_fast && self.is_slow {
            (sp.fast_speed - sp.medium_speed) / 2
        } else if self.is_fast {
            sp.fast_speed as int
        } else if self.is_slow {
            sp.slow_speed as int
        } else {
            sp.medium_speed as int
        }
    }

    /// Pause after an arrow key tap in the current mode: both modifiers held
    /// give half the difference of the medium and the fast arrow speed.
    pub open spec fn arrow_speed(self, sp: Speeds) -> int {
        if self.is_fast && self.is_slow {
            (sp.medium_arrow_speed - sp.fast_arrow_speed) / 2
        } else if self.is_fast {
            sp.fast_arrow_speed as int
        } else if self.is_slow {
            sp.slow_arrow_speed as int
        } else {
            sp.medium_arrow_speed as int
        }
    }

    /// Whether a move in direction `(x, y)` stays within the arithmetic of the
    /// handler: the speed difference is not negative, and the offsets fit an `i32`.
    pub open spec fn move_in_range(self, sp: Speeds, x: i32, y: i32) -> bool {
        &&& self.is_rat_on ==> {
            &&& self.mouse_speed(sp) >= 0
            &&& i32::MIN <= x * (self.mouse_speed(sp) as u64 as i32) <= i32::MAX
            &&& i32::MIN <= y * (self.mouse_speed(sp) as u64 as i32) <= i32::MAX
        }
        &&& (!self.is_rat_on && self.is_numlock_on) ==> self.arrow_speed(sp) >= 0
    }

    /// What a direction key does in the current mode.
    pub open spec fn spec_move_action(self, sp: Speeds, x: i32, y: i32, has_diagonal: bool) -> MoveAction {
        if self.is_rat_on {
            let speed = self.mouse_speed(sp) as u64 as i32;
            MoveAction::MoveMouse { dx: (x * speed) as i32, dy: (y * speed) as i32 }
        } else if self.is_numlock_on {
            MoveAction::TapArrow { diagonal: has_diagonal, pause_micros: self.arrow_speed(sp) as u64 }
        } else {
            MoveAction::HoldKeypad { pause_micros: sp.numpad_speed }
        }
    }

    /// Whether `move_action` may be asked for this move.
    pub fn can_move(&self, sp: &Speeds, x: i32, y: i32) -> (b: bool)
        ensures
            b == self.move_in_range(*sp, x, y),
    {
        if self.is_rat_on {
            let fast = self.is_fast;
            let slow = self.is_slow;
            if fast && slow && sp.fast_speed < sp.medium_speed {
                return false;
            }
            let speed = self.mouse_speed_of(sp);
            let s = speed as i32;
            let s_wide = s as i64;
            proof {
                lemma_i32_product_bounds(x, s);
                lemma_i32_product_bounds(y, s);
            }
            let dx = (x as i64) * s_wide;
            let dy = (y as i64) * s_wide;
            dx >= i32::MIN as i64 && dx <= i32::MAX as i64 && dy >= i32::MIN as i64 && dy
                <= i32::MAX as i64
        } else if self.is_numlock_on {
            !(self.is_fast && self.is_slow && sp.medium_arrow_speed < sp.fast_arrow_speed)
        } else {
            true
        }
    }

    fn mouse_speed_of(&self, sp: &Speeds) -> (speed: u64)
        requires
            self.mouse_speed(*sp) >= 0,
        ensures
            speed == self.mouse_speed(*sp),
    {
        if self.is_fast && self.is_slow {
            (sp.fast_speed - sp.medium_speed) / 2
        } else if self.is_fast {
            sp.fast_speed
        } else if self.is_slow {
            sp.slow_speed
        } else {
            sp.medium_speed
        }
    }

    fn arrow_speed_of(&self, sp: &Speeds) -> (speed: u64)
        requires
            self.arrow_speed(*sp) >= 0,
        ensures
            speed == self.arrow_speed(*sp),
    {
        if self.is_fast && self.is_slow {
            (sp.medium_arrow_speed - sp.fast_arrow_speed) / 2
        } else if self.is_fast {
            sp.fast_arrow_speed
        } else if self.is_slow {
            sp.slow_arrow_speed
        } else {
            sp.medium_arrow_speed
        }
    }

    /// What a direction key with direction `(x, y)` does: with the mouse on,
    /// move the pointer `(x, y)` times the speed of the mode; else with numlock
    /// on, tap the arrow key and pause for the arrow speed of the mode; else
    /// pass the numpad key through.
    pub fn move_action(&self, sp: &Speeds, x: i32, y: i32, has_diagonal: bool) -> (a: MoveAction)
        requires
            self.move_in_range(*sp, x, y),
        ensures
            a == self.spec_move_action(*sp, x, y, has_diagonal),
    {
        if self.is_rat_on {
            let speed = self.mouse_speed_of(sp) as i32;
            MoveAction::MoveMouse { dx: x * speed, dy: y * speed }
        } else if self.is_numlock_on {
            MoveAction::TapArrow { diagonal: has_diagonal, pause_micros: self.arrow_speed_of(sp) }
        } else {
            MoveAction::HoldKeypad { pause_micros: sp.numpad_speed }
        }
    }

    /// The modes after the click key fired: a left click with the mouse on
    /// makes the toggle click key press the left button.
    pub open spec fn after_left_click(self) -> RatState {
        if self.is_rat_on {
            RatState { left_click_toggle: true, ..self }
        } else {
            self
        }
    }

    /// What the click key does when a click is due: with the mouse on, a left
    /// click; else with numlock off, the numpad click key goes through; else nothing.
    pub open spec fn spec_left_click(self, sp: Speeds) -> ClickAction {
        if self.is_rat_on {
            ClickAction::MouseClick { button: Button::Left, pause_micros: sp.click_speed }
        } else if !self.is_numlock_on {
            ClickAction::KeyClick { pause_micros: sp.click_speed }
        } else {
            ClickAction::NoAction
        }
    }

    /// The click key fired (a click was due).
    pub fn left_click(&mut self, sp: &Speeds) -> (a: ClickAction)
        ensures
            a == old(self).spec_left_click(*sp),
            *final(self) == old(self).after_left_click(),
    {
        if self.is_rat_on {
            self.left_click_toggle = true;
            ClickAction::MouseClick { button: Button::Left, pause_micros: sp.click_speed }
        } else if !self.is_numlock_on {
            ClickAction::KeyClick { pause_micros: sp.click_speed }
        } else {
            ClickAction::NoAction
        }
    }

    /// The modes after the right click key fired: the toggle click key now
    /// presses the right button.
    pub open spec fn after_right_click(self) -> RatState {
        RatState { left_click_toggle: false, ..self }
    }

    /// The right click key fired (a click was due): a right click, in every mode.
    pub fn right_click(&mut self, sp: &Speeds) -> (a: ClickAction)
        ensures
            a == (ClickAction::MouseClick { button: Button::Right, pause_micros: sp.click_speed }),
            *final(self) == old(self).after_right_click(),
    {
        self.left_click_toggle = false;
        ClickAction::MouseClick { button: Button::Right, pause_micros: sp.click_speed }
    }

    /// The modes after the fast key was seen `pressed` or not: it holds fast
    /// movement while it is down, unless the keys go through.
    pub open spec fn after_fast_key(self, pressed: bool) -> RatState {
        if self.passes_through() {
            self
        } else {
            RatState { is_fast: pressed, ..self }
        }
    }

    /// The modes after the slow key was seen `pressed` or not: it holds slow
    /// movement while it is down, unless the keys go through.
    pub open spec fn after_slow_key(self, pressed: bool) -> RatState {
        if self.passes_through() {
            self
        } else {
            RatState { is_slow: pressed, ..self }
        }
    }

    /// What a mode key passes on: its own press or release when the keys go
    /// through, nothing otherwise.
    pub open spec fn spec_forward(self, pressed: bool) -> Option<Forward> {
        if self.passes_through() {
            Some(if pressed { Forward::Press } else { Forward::Release })
        } else {
            None
        }
    }

    fn forward(&self, pressed: bool) -> (f: Option<Forward>)
        ensures
            f == self.spec_forward(pressed),
    {
        if !self.is_numlock_on && !self.is_rat_on {
            if pressed {
                Some(Forward::Press)
            } else {
                Some(Forward::Release)
            }
        } else {
            None
        }
    }

    /// The fast key (numpad 0) was seen `pressed` or not in this poll.
    pub fn fast_key(&mut self, pressed: bool) -> (f: Option<Forward>)
        ensures
            f == old(self).spec_forward(pressed),
            *final(self) == old(self).after_fast_key(pressed),
    {
        let f = self.forward(pressed);
        if f.is_none() {
            self.is_fast = pressed;
        }
        f
    }

    /// The slow key (numpad enter) was seen `pressed` or not in this poll.
    pub fn slow_key(&mut self, pressed: bool) -> (f: Option<Forward>)
        ensures
            f == old(self).spec_forward(pressed),
            *final(self) == old(self).after_slow_key(pressed),
    {
        let f = self.forward(pressed);
        if f.is_none() {
            self.is_slow = pressed;
        }
        f
    }

    /// The modes after the numlock key: numlock flips.
    pub open spec fn after_numlock_key(self) -> RatState {
        RatState { is_numlock_on: !self.is_numlock_on, ..self }
    }

    /// The numlock key is down.
    pub fn numlock_key(&mut self)
        ensures
            *final(self) == old(self).after_numlock_key(),
    {
        self.is_numlock_on = !self.is_numlock_on;
    }

    /// The modes after the mouse key (numpad divide): the mouse turns on or off.
    pub open spec fn after_rat_key(self) -> RatState {
        RatState { is_rat_on: !self.is_rat_on, ..self }
    }

    /// The mouse key is down: the mouse turns on or off, and the handler then
    /// pauses for the returned number of milliseconds.
    pub fn rat_key(&mut self, sp: &Speeds) -> (pause_millis: u64)
        ensures
            *final(self) == old(self).after_rat_key(),
            pause_millis == sp.click_speed,
    {
        self.is_rat_on = !self.is_rat_on;
        sp.click_speed
    }

    /// The button that the toggle click key (numpad delete) presses down: that
    /// of the last click.
    pub open spec fn spec_toggle_button(self) -> Button {
        if self.left_click_toggle {
            Button::Left
        } else {
            Button::Right
        }
    }

    /// The toggle click key is down: the button to press down.
    pub fn toggle_button(&self) -> (b: Button)
        ensures
            b == self.spec_toggle_button(),
    {
        if self.left_click_toggle {
            Button::Left
        } else {
            Button::Right
        }
    }
}

/// The numlock key and the mouse key each undo themselves: pressed twice,
/// they leave the modes as they were.
pub proof fn lemma_mode_keys_undo(s: RatState)
    ensures
        s.after_numlock_key().after_numlock_key() == s,
        s.after_rat_key().after_rat_key() == s,
{
}

/// The toggle click key presses the button of the last click: the right
/// button after a right click, the left one after a left click with the mouse on.
pub proof fn lemma_toggle_follows_last_click(s: RatState)
    ensures
        s.after_right_click().spec_toggle_button() == Button::Right,
        s.is_rat_on ==> s.after_left_click().spec_toggle_button() == Button::Left,
{
}

/// The speed keys hold their mode only while they are down: unless the keys go
/// through, pressing sets the mode and releasing clears it, whatever it was;
/// when they go through, they change no mode and are passed on.
pub proof fn lemma_speed_keys_hold(s: RatState)
    ensures
        !s.passes_through() ==> s.after_fast_key(true).is_fast && !s.after_fast_key(
            true,
        ).after_fast_key(false).is_fast,
        !s.passes_through() ==> s.after_slow_key(true).is_slow && !s.after_slow_key(
            true,
        ).after_slow_key(false).is_slow,
        s.passes_through() ==> s.after_fast_key(true) == s && s.after_slow_key(true) == s
            && s.spec_forward(true) == Some(Forward::Press) && s.spec_forward(false) == Some(
            Forward::Release,
        ),
{
}

/// Clicks and the speed keys never switch the mouse or numlock on or off:
/// only the two mode keys do.
pub proof fn lemma_only_mode_keys_switch(s: RatState, pressed: bool)
    ensures
        s.after_left_click().is_rat_on == s.is_rat_on,
        s.after_left_click().is_numlock_on == s.is_numlock_on,
        s.after_right_click().is_rat_on == s.is_rat_on,
        s.after_right_click().is_numlock_on == s.is_numlock_on,
        s.after_fast_key(pressed).is_rat_on == s.is_rat_on,
        s.after_fast_key(pressed).is_numlock_on == s.is_numlock_on,
        s.after_slow_key(pressed).is_rat_on == s.is_rat_on,
        s.after_slow_key(pressed).is_numlock_on == s.is_numlock_on,
{
}

/// A direction key moves the pointer exactly when the mouse is on, taps an
/// arrow key exactly when the mouse is off and numlock on, and otherwise
/// passes the numpad key through; with the mouse on, opposite directions give
/// opposite offsets.
pub proof fn lemma_move_by_mode(s: RatState, sp: Speeds, x: i32, y: i32, has_diagonal: bool)
    requires
        s.move_in_range(sp, x, y),
        s.move_in_range(sp, -x as i32, -y as i32),
        x != i32::MIN,
        y != i32::MIN,
    ensures
        s.spec_move_action(sp, x, y, has_diagonal) is MoveMouse <==> s.is_rat_on,
        s.spec_move_action(sp, x, y, has_diagonal) is TapArrow <==> !s.is_rat_on
            && s.is_numlock_on,
        s.spec_move_action(sp, x, y, has_diagonal) is HoldKeypad <==> s.passes_through(),
        s.is_rat_on ==> s.spec_move_action(sp, -x as i32, -y as i32, has_diagonal)->dx == -(
        s.spec_move_action(sp, x, y, has_diagonal)->dx) && s.spec_move_action(
            sp,
            -x as i32,
            -y as i32,
            has_diagonal,
        )->dy == -(s.spec_move_action(sp, x, y, has_diagonal)->dy),
{
    if s.is_rat_on {
        let speed = s.mouse_speed(sp) as u64 as i32;
        assert((-x as i32) * speed == -(x * speed)) by (nonlinear_arith)
            requires
                x != i32::MIN,
        ;
        assert((-y as i32) * speed == -(y * speed)) by (nonlinear_arith)
            requires
                y != i32::MIN,
        ;
    }
}

/// The pointer direction of a numpad digit key, as the numpad is laid out:
/// 7, 8, 9 point up-left, up and up-right; 4 and 6 left and right; 1, 2, 3
/// down-left, down and down-right. Screen coordinates grow rightwards and
/// downwards. The other digits are no direction.
pub open spec fn spec_digit_direction(digit: u8) -> Option<(i32, i32)> {
    if digit == 7 {
        Some((-1i32, -1i32))
    } else if digit == 8 {
        Some((0i32, -1i32))
    } else if digit == 9 {
        Some((1i32, -1i32))
    } else if digit == 4 {
        Some((-1i32, 0i32))
    } else if digit == 6 {
        Some((1i32, 0i32))
    } else if digit == 1 {
        Some((-1i32, 1i32))
    } else if digit == 2 {
        Some((0i32, 1i32))
    } else if digit == 3 {
        Some((1i32, 1i32))
    } else {
        None
    }
}

/// The direction `(x, y)` that a numpad digit key moves in, if it is a
/// direction key.
pub fn digit_direction(digit: u8) -> (d: Option<(i32, i32)>)
    ensures
        d == spec_digit_direction(digit),
{
    match digit {
        7 => Some((-1, -1)),
        8 => Some((0, -1)),
        9 => Some((1, -1)),
        4 => Some((-1, 0)),
        6 => Some((1, 0)),
        1 => Some((-1, 1)),
        2 => Some((0, 1)),
        3 => Some((1, 1)),
        _ => None,
    }
}

/// The direction keys are the digits other than 0 and 5; each moves one step
/// in some direction, and keys opposite across the 5 move in opposite
/// directions; a key moves diagonally exactly when it is a corner of the pad.
pub proof fn lemma_digit_directions(digit: u8)
    ensures
        spec_digit_direction(digit) is Some <==> 1 <= digit <= 9 && digit != 5,
        spec_digit_direction(digit) matches Some((x, y)) ==> {
            &&& -1 <= x <= 1 && -1 <= y <= 1
            &&& (x, y) != (0i32, 0i32)
            &&& spec_digit_direction((10 - digit) as u8) == Some((-x as i32, -y as i32))
            &&& (x != 0 && y != 0 <==> digit == 1 || digit == 3 || digit == 7 || digit == 9)
        },
{
}

/// The signed pointer offset along x of a move action; zero for the others.
pub open spec fn mouse_dx(a: MoveAction) -> int {
    match a {
        MoveAction::MoveMouse { dx, .. } => dx as int,
        _ => 0,
    }
}

/// The absolute value of an integer.
pub open spec fn abs(v: int) -> int {
    if v < 0 {
        -v
    } else {
        v
    }
}

/// The modes with the speed modifiers set to `fast` and `slow`.
pub open spec fn with_speed_keys(s: RatState, fast: bool, slow: bool) -> RatState {
    RatState { is_fast: fast, is_slow: slow, ..s }
}

/// The modes with numlock set to `on`.
pub open spec fn with_numlock(s: RatState, on: bool) -> RatState {
    RatState { is_numlock_on: on, ..s }
}

/// How far along x a direction key moves the pointer with the given modifiers.
pub open spec fn step_length(s: RatState, fast: bool, slow: bool, sp: Speeds, x: i32, y: i32) -> int {
    abs(mouse_dx(with_speed_keys(s, fast, slow).spec_move_action(sp, x, y, false)))
}

/// With the mouse on, the fast mode moves farther per step than no modifier,
/// and no modifier farther than the slow mode, when the configured speeds are
/// so ordered and the fast step fits an `i32`.
pub proof fn lemma_faster_moves_farther(s: RatState, sp: Speeds, x: i32, y: i32)
    requires
        s.is_rat_on,
        x != 0,
        sp.slow_speed < sp.medium_speed < sp.fast_speed,
        sp.fast_speed * abs(x as int) <= i32::MAX,
    ensures
        step_length(s, true, false, sp, x, y) > step_length(s, false, false, sp, x, y),
        step_length(s, false, false, sp, x, y) > step_length(s, false, true, sp, x, y),
{
    let f = sp.fast_speed as int;
    let m = sp.medium_speed as int;
    let w = sp.slow_speed as int;
    let ax = abs(x as int);
    assert(1 <= ax);
    assert(f <= f * ax) by (nonlinear_arith)
        requires
            1 <= ax,
            0 <= f,
    ;
    assert(sp.fast_speed as i32 == f);
    assert(sp.medium_speed as i32 == m);
    assert(sp.slow_speed as i32 == w);
    assert(abs(x * f) == ax * f && abs(x * m) == ax * m && abs(x * w) == ax * w) by (
    nonlinear_arith)
        requires
            ax == abs(x as int),
            0 <= w,
            0 <= m,
            0 <= f,
    ;
    assert(ax * f > ax * m > ax * w) by (nonlinear_arith)
        requires
            1 <= ax,
            w < m < f,
    ;
    assert(ax * f <= i32::MAX) by (nonlinear_arith)
        requires
            f * ax <= i32::MAX,
    ;
}

/// With the mouse on, numlock makes no difference to a direction key: the
/// mouse mode takes precedence over the arrow keys.
pub proof fn lemma_mouse_overrides_numlock(s: RatState, sp: Speeds, x: i32, y: i32, has_diagonal: bool)
    requires
        s.is_rat_on,
    ensures
        with_numlock(s, true).spec_move_action(sp, x, y, has_diagonal) == with_numlock(
            s,
            false,
        ).spec_move_action(sp, x, y, has_diagonal),
{
}

/// With the mouse off and numlock on, a direction key taps its arrow key
/// (its diagonal one when it has one) and then pauses for the arrow speed of
/// the mode: the configured medium, fast or slow arrow speed for no modifier,
/// the fast key or the slow key alone, and half the medium arrow speed less
/// the fast one for both.
pub proof fn lemma_arrow_pause_per_mode(s: RatState, sp: Speeds, x: i32, y: i32, d: bool)
    requires
        !s.is_rat_on,
        s.is_numlock_on,
    ensures
        !s.is_fast && !s.is_slow ==> s.spec_move_action(sp, x, y, d) == (MoveAction::TapArrow {
            diagonal: d,
            pause_micros: sp.medium_arrow_speed,
        }),
        s.is_fast && !s.is_slow ==> s.spec_move_action(sp, x, y, d) == (MoveAction::TapArrow {
            diagonal: d,
            pause_micros: sp.fast_arrow_speed,
        }),
        !s.is_fast && s.is_slow ==> s.spec_move_action(sp, x, y, d) == (MoveAction::TapArrow {
            diagonal: d,
            pause_micros: sp.slow_arrow_speed,
        }),
        s.is_fast && s.is_slow && sp.fast_arrow_speed <= sp.medium_arrow_speed ==> s.spec_move_action(
            sp,
            x,
            y,
            d,
        ) == (MoveAction::TapArrow {
            diagonal: d,
            pause_micros: ((sp.medium_arrow_speed - sp.fast_arrow_speed) / 2) as u64,
        }),
{
}

/// With the mouse on, a direction key moves the pointer by its direction
/// times the speed of the mode, taken as an `i32`: the configured medium,
/// fast or slow speed for no modifier, the fast key or the slow key alone,
/// and half the fast speed less the medium one for both.
pub proof fn lemma_mouse_step_per_mode(s: RatState, sp: Speeds, x: i32, y: i32, d: bool)
    requires
        s.is_rat_on,
    ensures
        !s.is_fast && !s.is_slow ==> s.spec_move_action(sp, x, y, d) == (MoveAction::MoveMouse {
            dx: (x * (sp.medium_speed as i32)) as i32,
            dy: (y * (sp.medium_speed as i32)) as i32,
        }),
        s.is_fast && !s.is_slow ==> s.spec_move_action(sp, x, y, d) == (MoveAction::MoveMouse {
            dx: (x * (sp.fast_speed as i32)) as i32,
            dy: (y * (sp.fast_speed as i32)) as i32,
        }),
        !s.is_fast && s.is_slow ==> s.spec_move_action(sp, x, y, d) == (MoveAction::MoveMouse {
            dx: (x * (sp.slow_speed as i32)) as i32,
            dy: (y * (sp.slow_speed as i32)) as i32,
        }),
        s.is_fast && s.is_slow && sp.medium_speed <= sp.fast_speed ==> s.spec_move_action(
            sp,
            x,
            y,
            d,
        ) == (MoveAction::MoveMouse {
            dx: (x * (((sp.fast_speed - sp.medium_speed) / 2) as u64 as i32)) as i32,
            dy: (y * (((sp.fast_speed - sp.medium_speed) / 2) as u64 as i32)) as i32,
        }),
{
}

/// With the mouse and numlock both off, a direction key passes its numpad key
/// through, held for the configured numpad speed, whatever the modifiers.
pub proof fn lemma_keypad_passes_through(s: RatState, sp: Speeds, x: i32, y: i32, d: bool)
    requires
        !s.is_rat_on,
        !s.is_numlock_on,
    ensures
        s.spec_move_action(sp, x, y, d) == (MoveAction::HoldKeypad { pause_micros: sp.numpad_speed }),
{
}

/// The click key left-clicks whenever the mouse is on, whatever numlock is,
/// holding the button for the click speed, and the toggle click key then
/// presses the left button; with the mouse off it passes the numpad click key
/// through when numlock is off and does nothing when numlock is on, and
/// changes no mode.
pub proof fn lemma_left_click_by_mode(s: RatState, sp: Speeds)
    ensures
        s.is_rat_on ==> s.spec_left_click(sp) == (ClickAction::MouseClick {
            button: Button::Left,
            pause_micros: sp.click_speed,
        }),
        s.is_rat_on ==> s.after_left_click().left_click_toggle,
        !s.is_rat_on && !s.is_numlock_on ==> s.spec_left_click(sp) == (ClickAction::KeyClick {
            pause_micros: sp.click_speed,
        }),
        !s.is_rat_on && s.is_numlock_on ==> s.spec_left_click(sp) == ClickAction::NoAction,
        !s.is_rat_on ==> s.after_left_click() == s,
        s.after_left_click().is_fast == s.is_fast,
        s.after_left_click().is_slow == s.is_slow,
        s.after_left_click().is_numlock_on == s.is_numlock_on,
        s.after_left_click().is_rat_on == s.is_rat_on,
{
}

/// The right click key makes the toggle click key press the right button and
/// changes nothing else; the toggle click key presses the left button exactly
/// when the toggle is set.
pub proof fn lemma_right_click_and_toggle(s: RatState)
    ensures
        !s.after_right_click().left_click_toggle,
        s.after_right_click().is_fast == s.is_fast,
        s.after_right_click().is_slow == s.is_slow,
        s.after_right_click().is_numlock_on == s.is_numlock_on,
        s.after_right_click().is_rat_on == s.is_rat_on,
        s.left_click_toggle ==> s.spec_toggle_button() == Button::Left,
        !s.left_click_toggle ==> s.spec_toggle_button() == Button::Right,
{
}

/// While the mouse or numlock is on, the fast and slow keys pass nothing on
/// to the system: each sets its own mode to whether it is down and changes
/// nothing else. With both off, they change no mode and pass on their own
/// press or release.
pub proof fn lemma_speed_keys_by_mode(s: RatState, pressed: bool)
    ensures
        s.is_rat_on || s.is_numlock_on ==> s.spec_forward(pressed) == None::<Forward>,
        s.is_rat_on || s.is_numlock_on ==> s.after_fast_key(pressed).is_fast == pressed
            && s.after_fast_key(pressed).is_slow == s.is_slow && s.after_fast_key(
            pressed,
        ).is_numlock_on == s.is_numlock_on && s.after_fast_key(pressed).is_rat_on == s.is_rat_on
            && s.after_fast_key(pressed).left_click_toggle == s.left_click_toggle,
        s.is_rat_on || s.is_numlock_on ==> s.after_slow_key(pressed).is_slow == pressed
            && s.after_slow_key(pressed).is_fast == s.is_fast && s.after_slow_key(
            pressed,
        ).is_numlock_on == s.is_numlock_on && s.after_slow_key(pressed).is_rat_on == s.is_rat_on
            && s.after_slow_key(pressed).left_click_toggle == s.left_click_toggle,
        !s.is_rat_on && !s.is_numlock_on ==> s.spec_forward(true) == Some(Forward::Press)
            && s.spec_forward(false) == Some(Forward::Release),
        !s.is_rat_on && !s.is_numlock_on ==> s.after_fast_key(pressed) == s && s.after_slow_key(
            pressed,
        ) == s,
{
}

/// The mouse key always turns the mouse on or off, whatever the other modes,
/// and changes nothing else; likewise the numlock key for numlock.
pub proof fn lemma_mode_keys_flip(s: RatState)
    ensures
        s.after_rat_key().is_rat_on == !s.is_rat_on,
        s.after_rat_key().is_numlock_on == s.is_numlock_on,
        s.after_rat_key().is_fast == s.is_fast,
        s.after_rat_key().is_slow == s.is_slow,
        s.after_rat_key().left_click_toggle == s.left_click_toggle,
        s.after_numlock_key().is_numlock_on == !s.is_numlock_on,
        s.after_numlock_key().is_rat_on == s.is_rat_on,
        s.after_numlock_key().is_fast == s.is_fast,
        s.after_numlock_key().is_slow == s.is_slow,
        s.after_numlock_key().left_click_toggle == s.left_click_toggle,
{
}

/// The direction keys follow the numpad layout: digit `d` sits in column
/// `(d - 1) % 3` from the left and row `(d - 1) / 3` from the bottom, and
/// points from the 5 in the middle towards its own place (screen `y` grows
/// downwards).
pub proof fn lemma_digit_layout(digit: u8)
    requires
        1 <= digit <= 9,
        digit != 5,
    ensures
        spec_digit_direction(digit) == Some(
            (((digit - 1) % 3 - 1) as i32, (1 - (digit - 1) / 3) as i32),
        ),
{
}

/// A click is due exactly once more than `click_speed` milliseconds have
/// passed: not at exactly that many nanoseconds, but one nanosecond later,
/// and from then on.
pub proof fn lemma_click_due_threshold(click_speed: u64, elapsed_nanos: u128, later: u128)
    requires
        elapsed_nanos <= later,
    ensures
        !spec_click_due((click_speed * 1_000_000) as u128, click_speed),
        spec_click_due((click_speed * 1_000_000 + 1) as u128, click_speed),
        spec_click_due(elapsed_nanos, click_speed) ==> spec_click_due(later, click_speed),
{
}

} // verus!
