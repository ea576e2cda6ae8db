use nin::engine::{Event, Key, Keys, NinCore, MODE};

fn cursor_mode_core() -> NinCore {
    let mut core = NinCore::new();
    core.pass_key(vec![Key::Space, Key::Control]);
    core
}

#[test]
fn idle_control_and_space_switches_to_cursor_mode() {
    let mut sut = NinCore::new();

    let event = sut.pass_key(vec![Key::Space, Key::Control]);

    assert_eq!(event, Event::ChangedMode(MODE::CURSOR));
}

#[test]
fn idle_unrelated_key_does_nothing() {
    let mut sut = NinCore::new();

    let event = sut.pass_key(vec![Key::J]);

    assert_eq!(event, Event::Nothing);
}

#[test]
fn cursor_j_moves_cursor_down_10() {
    let mut sut = cursor_mode_core();

    let event = sut.pass_key(vec![Key::J]);

    assert_eq!(event, Event::MovedCursor(0, 10));
}

#[test]
fn cursor_control_j_moves_cursor_down_30() {
    let mut sut = cursor_mode_core();

    let event = sut.pass_key(vec![Key::Control, Key::J]);

    assert_eq!(event, Event::MovedCursor(0, 30));
}

#[test]
fn cursor_k_moves_cursor_up_10() {
    let mut sut = cursor_mode_core();

    let event = sut.pass_key(vec![Key::K]);

    assert_eq!(event, Event::MovedCursor(0, -10));
}

#[test]
fn cursor_control_k_moves_cursor_up_30() {
    let mut sut = cursor_mode_core();

    let event = sut.pass_key(vec![Key::Control, Key::K]);

    assert_eq!(event, Event::MovedCursor(0, -30));
}

#[test]
fn cursor_h_moves_cursor_left_10() {
    let mut sut = cursor_mode_core();

    let event = sut.pass_key(vec![Key::H]);

    assert_eq!(event, Event::MovedCursor(-10, 0));
}

#[test]
fn cursor_control_h_moves_cursor_left_30() {
    let mut sut = cursor_mode_core();

    let event = sut.pass_key(vec![Key::Control, Key::H]);

    assert_eq!(event, Event::MovedCursor(-30, 0));
}

#[test]
fn cursor_l_moves_cursor_right_10() {
    let mut sut = cursor_mode_core();

    let event = sut.pass_key(vec![Key::L]);

    assert_eq!(event, Event::MovedCursor(10, 0));
}

#[test]
fn cursor_control_l_moves_cursor_right_30() {
    let mut sut = cursor_mode_core();

    let event = sut.pass_key(vec![Key::Control, Key::L]);

    assert_eq!(event, Event::MovedCursor(30, 0));
}

#[test]
fn cursor_escape_returns_to_idle_mode() {
    let mut sut = cursor_mode_core();

    let event = sut.pass_key(vec![Key::Escape]);

    assert_eq!(event, Event::ChangedMode(MODE::IDLE));
}

#[test]
fn cursor_i_fires_click_event() {
    let mut sut = cursor_mode_core();

    let event = sut.pass_key(vec![Key::I]);

    assert_eq!(event, Event::Clicked);
}

#[test]
fn cursor_unrelated_key_does_nothing() {
    let mut sut = cursor_mode_core();

    let event = sut.pass_key(vec![Key::Space]);

    assert_eq!(event, Event::Nothing);
}

#[test]
fn idle_other_chords_do_nothing() {
    for keys in [
        vec![],
        vec![Key::Escape],
        vec![Key::Control, Key::J],
        vec![Key::Control],
        vec![Key::Space],
        vec![Key::I, Key::Escape],
    ] {
        let mut sut = NinCore::new();
        assert_eq!(sut.pass_key(keys), Event::Nothing);
        assert!(sut.is_idle());
    }
}

#[test]
fn control_space_submission_flips_is_idle() {
    let mut sut = NinCore::new();
    assert!(sut.is_idle());

    let event = sut.pass_key(vec![Key::Control, Key::Space]);

    assert_eq!(event, Event::ChangedMode(MODE::CURSOR));
    assert!(!sut.is_idle());
}

#[test]
fn escape_submission_flips_is_idle_back() {
    let mut sut = cursor_mode_core();
    assert!(!sut.is_idle());

    let event = sut.pass_key(vec![Key::Escape]);

    assert_eq!(event, Event::ChangedMode(MODE::IDLE));
    assert!(sut.is_idle());
}

#[test]
fn canonicalization_is_order_independent() {
    let one_way = Keys::new(vec![Key::Space, Key::Control]).get();
    let other_way = Keys::new(vec![Key::Control, Key::Space]).get();

    assert_eq!(one_way, other_way);
    assert_eq!(one_way, vec![Key::Control, Key::Space]);

    let mut first = NinCore::new();
    let mut second = NinCore::new();
    assert_eq!(
        first.pass_key(vec![Key::Space, Key::Control]),
        Event::ChangedMode(MODE::CURSOR)
    );
    assert_eq!(
        second.pass_key(vec![Key::Control, Key::Space]),
        Event::ChangedMode(MODE::CURSOR)
    );
}

#[test]
fn canonicalization_deduplicates_and_caps_at_two_keys() {
    assert_eq!(Keys::new(vec![Key::J, Key::J]).get(), vec![Key::J]);
    assert_eq!(
        Keys::new(vec![Key::J, Key::Control, Key::K]).get(),
        vec![Key::Control, Key::J]
    );
    assert_eq!(Keys::new(vec![]).get(), Vec::<Key>::new());
}

#[test]
fn repeated_key_still_moves_cursor() {
    let mut sut = cursor_mode_core();

    let event = sut.pass_key(vec![Key::J, Key::J]);

    assert_eq!(event, Event::MovedCursor(0, 10));
}

#[test]
fn noop_submission_leaves_mode_unchanged() {
    let mut idle = NinCore::new();
    idle.pass_key(vec![Key::K]);
    assert!(idle.is_idle());

    let mut cursor = cursor_mode_core();
    cursor.pass_key(vec![Key::Space]);
    assert!(!cursor.is_idle());
    cursor.pass_key(vec![]);
    assert!(!cursor.is_idle());
}

#[test]
fn end_to_end_idle_to_cursor_and_back() {
    let mut sut = NinCore::new();
    assert!(sut.is_idle());

    let entered = sut.pass_key(vec![Key::Control, Key::Space]);
    assert_eq!(entered, Event::ChangedMode(MODE::CURSOR));
    assert!(!sut.is_idle());

    let moved = sut.pass_key(vec![Key::J]);
    assert_eq!(moved, Event::MovedCursor(0, 10));
    assert!(!sut.is_idle());

    let left = sut.pass_key(vec![Key::Escape]);
    assert_eq!(left, Event::ChangedMode(MODE::IDLE));
    assert!(sut.is_idle());
}

#[test]
fn mode_labels() {
    assert_eq!(MODE::IDLE.label(), "Idle".to_string());
    assert_eq!(MODE::CURSOR.label(), "Cursor".to_string());
}
