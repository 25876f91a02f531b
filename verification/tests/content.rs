use nixlock::content::{content_tick, next_tick, role_for, KioskContent, NANOS_PER_SEC};
use nixlock::{Frame, OutputRole};

fn kiosks(names: &[&str]) -> Vec<String> {
    names.iter().map(|s| s.to_string()).collect()
}

#[test]
fn an_unconfigured_output_is_a_session_lock_screen() {
    assert_eq!(role_for(&kiosks(&["DP-3"]), "DP-1"), OutputRole::Session);
    assert_eq!(role_for(&[], "DP-3"), OutputRole::Session);
    assert_eq!(role_for(&kiosks(&["DP-3"]), ""), OutputRole::Session);
}

#[test]
fn an_exactly_named_output_is_the_kiosk() {
    assert_eq!(role_for(&kiosks(&["DP-3"]), "DP-3"), OutputRole::Kiosk);
    assert_eq!(role_for(&kiosks(&["HDMI-A-1", "DP-3"]), "DP-3"), OutputRole::Kiosk);
}

#[test]
fn a_name_that_merely_starts_with_a_kiosk_name_is_not_the_kiosk() {
    assert_eq!(role_for(&kiosks(&["DP-3"]), "DP-30"), OutputRole::Session);
    assert_eq!(role_for(&kiosks(&["DP-3"]), "DP-3 "), OutputRole::Session);
    assert_eq!(role_for(&kiosks(&["DP-30"]), "DP-3"), OutputRole::Session);
}

#[test]
fn matching_is_case_sensitive() {
    assert_eq!(role_for(&kiosks(&["DP-3"]), "dp-3"), OutputRole::Session);
}

#[test]
fn roles_have_names() {
    assert_eq!(OutputRole::Kiosk.label(), "Kiosk");
    assert_eq!(OutputRole::Session.label(), "Session");
}

struct Blank;

impl KioskContent for Blank {
    fn paint(&mut self, frame: &Frame) -> Vec<u8> {
        vec![0; (frame.width * frame.height * 4) as usize]
    }
}

struct Slow;

impl KioskContent for Slow {
    fn paint(&mut self, _frame: &Frame) -> Vec<u8> {
        Vec::new()
    }

    fn tick_interval(&self) -> u128 {
        5 * NANOS_PER_SEC
    }
}

struct Quick;

impl KioskContent for Quick {
    fn paint(&mut self, _frame: &Frame) -> Vec<u8> {
        Vec::new()
    }

    fn tick_interval(&self) -> u128 {
        NANOS_PER_SEC / 4
    }
}

#[test]
fn content_asks_for_a_repaint_every_second_unless_it_says_otherwise() {
    assert_eq!(Blank.tick_interval(), 1_000_000_000);
    assert_eq!(Slow.tick_interval(), 5_000_000_000);
}

#[test]
fn the_next_tick_comes_when_the_more_frequent_content_asks_for_it() {
    assert_eq!(content_tick(&Blank, &Blank), 1_000_000_000);
    assert_eq!(content_tick(&Blank, &Slow), 1_000_000_000);
    assert_eq!(content_tick(&Slow, &Blank), 1_000_000_000);
    assert_eq!(content_tick(&Blank, &Quick), 250_000_000);
    assert_eq!(content_tick(&Slow, &Slow), 5_000_000_000);
    assert_eq!(next_tick(3, 7), 3);
    assert_eq!(next_tick(7, 3), 3);
    assert_eq!(next_tick(0, u128::MAX), 0);
    // Beside the clock's second nothing delays the tick that shows a signal any further.
    for lock in [0, 1, NANOS_PER_SEC, u128::MAX] {
        assert!(next_tick(Blank.tick_interval(), lock) <= NANOS_PER_SEC);
    }
}
