use rattus::cursor::{key_state_pressed, IterCursor};

#[test]
fn cursor_walks_a_vector() {
    let items = vec![10, 20];
    let mut c = IterCursor::first();
    assert_eq!(c.current, 0);
    assert!(c.has_current(items.len()));
    assert_eq!(c.current_index(items.len()), Some(0));
    assert!(c.move_next(items.len()));
    assert_eq!(c.current_index(items.len()).map(|i| items[i]), Some(20));
    assert!(!c.move_next(items.len()));
    assert_eq!(c.current, 2);
    assert!(!c.has_current(items.len()));
    assert_eq!(c.current_index(items.len()), None);
}

#[test]
fn cursor_on_empty_vector_has_no_current() {
    let c = IterCursor::first();
    assert!(!c.has_current(0));
    assert_eq!(c.current_index(0), None);
}

#[test]
fn key_state_high_bit_means_pressed() {
    assert!(key_state_pressed(i16::MIN));
    assert!(key_state_pressed(-127));
    assert!(!key_state_pressed(0));
    assert!(!key_state_pressed(1));
    assert!(!key_state_pressed(i16::MAX));
}

#[test]
fn exhausted_cursor_stays_exhausted() {
    let mut c = IterCursor::first();
    assert!(c.move_next(1) == false);
    for _ in 0..5 {
        assert!(!c.move_next(1));
        assert!(!c.has_current(1));
        assert_eq!(c.current_index(1), None);
    }
}
