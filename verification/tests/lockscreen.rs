use nixlock::lockscreen::{clock_face, lock_face, screen, LocalTime, Screen, MAX_DOTS};
use nixlock::theme::{AMBER, FAINT, MUTED, RED};
use nixlock::{AuthState, AuthView, Frame, OutputRole};

fn auth(state: AuthState, caps_lock: bool) -> AuthView {
    AuthView { state, caps_lock }
}

#[test]
fn the_field_shows_one_dot_per_character_up_to_the_limit() {
    let dots = |n: usize| {
        lock_face(OutputRole::Session, auth(AuthState::Idle(n), false)).field.unwrap()
    };
    assert_eq!(dots(0), 0);
    assert_eq!(dots(7), 7);
    assert_eq!(dots(MAX_DOTS), 40);
    assert_eq!(dots(MAX_DOTS + 1), 40);
    assert_eq!(dots(usize::MAX), 40);
}

#[test]
fn the_status_tells_the_attempt() {
    let face = lock_face(OutputRole::Session, auth(AuthState::Idle(3), false));
    assert!(face.status.is_none());
    assert!(face.caps_lock.is_none());
    assert_eq!((face.footer.text, face.footer.colour), ("locked", FAINT));

    let face = lock_face(OutputRole::Session, auth(AuthState::Verifying, true));
    assert_eq!(face.field, Some(0));
    let status = face.status.unwrap();
    assert_eq!((status.text, status.colour), ("checking…", MUTED));
    let caps = face.caps_lock.unwrap();
    assert_eq!((caps.text, caps.colour), ("caps lock on", AMBER));

    let status = lock_face(OutputRole::Session, auth(AuthState::Failed, false)).status.unwrap();
    assert_eq!((status.text, status.colour), ("incorrect — try again", RED));
}

#[test]
fn a_kiosk_output_shows_nothing_of_the_attempt() {
    for state in [AuthState::Idle(5), AuthState::Verifying, AuthState::Failed] {
        let face = lock_face(OutputRole::Kiosk, auth(state, true));
        assert!(face.field.is_none());
        assert!(face.status.is_none());
        assert!(face.caps_lock.is_none());
        assert_eq!(face.footer.text, "locked");
    }
}

fn at(year: i32, month: u32, day: u32) -> LocalTime {
    LocalTime { year, month, day, hour: 9, minute: 5, second: 7, nanosecond: 0 }
}

fn date(year: i32, month: u32, day: u32) -> Option<String> {
    clock_face(at(year, month, day)).map(|face| face.date)
}

#[test]
fn the_clock_has_two_digits_each() {
    let face = clock_face(at(2026, 7, 28)).unwrap();
    assert_eq!(face.clock, "09:05:07");
    assert_eq!(face.date, "Tue 28 Jul 2026");

    let night = LocalTime { hour: 23, minute: 59, second: 59, ..at(1999, 12, 31) };
    let face = clock_face(night).unwrap();
    assert_eq!(face.clock, "23:59:59");
    assert_eq!(face.date, "Fri 31 Dec 1999");
}

#[test]
fn a_leap_second_is_the_sixtieth() {
    let leap = LocalTime {
        hour: 23,
        minute: 59,
        second: 59,
        nanosecond: 1_500_000_000,
        ..at(2016, 12, 31)
    };
    assert_eq!(clock_face(leap).unwrap().clock, "23:59:60");
    assert_eq!(clock_face(leap).unwrap().date, "Sat 31 Dec 2016");
    assert!(clock_face(LocalTime { second: 58, ..leap }).is_none());
    assert!(clock_face(LocalTime { nanosecond: 2_000_000_000, ..leap }).is_none());
}

#[test]
fn there_is_no_clock_for_a_time_that_does_not_exist() {
    assert!(clock_face(LocalTime { hour: 24, ..at(2026, 1, 1) }).is_none());
    assert!(clock_face(LocalTime { minute: 60, ..at(2026, 1, 1) }).is_none());
    assert!(clock_face(LocalTime { second: 60, ..at(2026, 1, 1) }).is_none());
    assert_eq!(date(2026, 2, 29), None);
    assert_eq!(date(2026, 13, 1), None);
    assert_eq!(date(2026, 0, 1), None);
    assert_eq!(date(2026, 4, 31), None);
    assert_eq!(date(2026, 1, 0), None);
    assert_eq!(date(1900, 2, 29), None);
}

#[test]
fn dates_follow_the_gregorian_calendar() {
    assert_eq!(date(2024, 2, 29).unwrap(), "Thu 29 Feb 2024");
    assert_eq!(date(2000, 2, 29).unwrap(), "Tue 29 Feb 2000");
    assert_eq!(date(1, 1, 1).unwrap(), "Mon 01 Jan 0001");
    assert_eq!(date(0, 12, 31).unwrap(), "Sun 31 Dec 0000");
    assert_eq!(date(-1, 6, 5).unwrap(), "Sat 05 Jun -0001");
    assert_eq!(date(987, 9, 12).unwrap(), "Wed 12 Sep 0987");
    assert_eq!(date(10000, 1, 1).unwrap(), "Sat 01 Jan +10000");
    assert_eq!(date(262142, 12, 31).unwrap(), "Mon 31 Dec +262142");
    assert_eq!(date(262143, 1, 1), None);
    assert!(date(-262143, 1, 1).is_some());
    assert_eq!(date(-262144, 12, 31), None);
}

/// A weekday computed by counting days from a known Monday.
#[test]
fn weekdays_run_through() {
    let names = ["Mon", "Tue", "Wed", "Thu", "Fri", "Sat", "Sun"];
    let months = [
        "Jan", "Feb", "Mar", "Apr", "May", "Jun", "Jul", "Aug", "Sep", "Oct", "Nov", "Dec",
    ];
    let mut day = 0usize; // The first of January 2001 is a Monday.
    for year in 2001..2010 {
        for month in 1..=12u32 {
            for number in 1..=31u32 {
                if let Some(text) = date(year, month, number) {
                    let expected = format!(
                        "{} {:02} {} {}",
                        names[day % 7],
                        number,
                        months[month as usize - 1],
                        year
                    );
                    assert_eq!(text, expected);
                    day += 1;
                }
            }
        }
    }
    assert_eq!(day, 9 * 365 + 2);
}

/// Everything that is drawn of a screen.
fn shown(role: OutputRole, auth: AuthView) -> String {
    let frame = Frame { role, output_name: "DP-3", width: 2, height: 1, auth };
    let Screen { clock, face } = screen(&frame, at(2026, 7, 28)).unwrap();
    format!(
        "{} {} {:?} {:?} {:?} {}",
        clock.clock,
        clock.date,
        face.field,
        face.status.map(|label| label.text),
        face.caps_lock.map(|label| label.text),
        face.footer.text
    )
}

#[test]
fn a_kiosk_screen_is_the_same_whatever_becomes_of_an_attempt() {
    let kiosk = "09:05:07 Tue 28 Jul 2026 None None None locked";
    for state in [AuthState::Idle(0), AuthState::Idle(5), AuthState::Verifying, AuthState::Failed] {
        for caps_lock in [false, true] {
            assert_eq!(shown(OutputRole::Kiosk, auth(state, caps_lock)), kiosk);
        }
    }
    assert_eq!(
        shown(OutputRole::Session, auth(AuthState::Failed, true)),
        "09:05:07 Tue 28 Jul 2026 Some(0) Some(\"incorrect — try again\") Some(\"caps lock on\") locked"
    );
    let frame = Frame {
        role: OutputRole::Kiosk,
        output_name: "DP-3",
        width: 2,
        height: 1,
        auth: auth(AuthState::Idle(0), false),
    };
    assert!(screen(&frame, at(2026, 2, 30)).is_none());
}
