use nixlock::auth::{AuthOutcome, AuthResult};
use nixlock::locker::{
    Action, Event, Locker, OutputInfo, KEY_BACKSPACE, KEY_ESCAPE, KEY_KP_ENTER, KEY_RETURN,
};
use nixlock::{AuthState, Config, OutputRole};

const SECOND: u128 = 1_000_000_000;

fn config(debug: bool) -> Config {
    Config {
        kiosk_outputs: vec!["DP-3".into()],
        pam_service: "nixlock".into(),
        username: None,
        socket_path: None,
        debug,
    }
}

fn output(name: &str, scale: i32) -> OutputInfo {
    OutputInfo { name: Some(name.into()), scale: Some(scale) }
}

/// What an action does, in one line.
fn line(action: &Action) -> String {
    match action {
        Action::Log(text) => text.clone(),
        Action::CreateSurface(output) => format!("create {output}"),
        Action::Redraw(surface) => format!("redraw {surface}"),
        Action::SetGeometry { width, height, scale } => {
            format!("geometry {width} {height} {scale}")
        }
        Action::Serve(path) => format!("serve {}", String::from_utf8(path.clone()).unwrap()),
        Action::NotifyReady => "notify".into(),
        Action::GetKeyboard => "get keyboard".into(),
        Action::ReleaseKeyboard => "release keyboard".into(),
        Action::Send(attempt) => format!("send {} {}", attempt.id, attempt.password.as_str()),
        Action::Unlock => "unlock".into(),
        Action::FlushUnlock(attempt) => format!("flush {attempt}"),
        Action::Exit(code) => format!("exit {code}"),
    }
}

fn lines(actions: &[Action]) -> Vec<String> {
    actions.iter().map(line).collect()
}

/// A locked session with a kiosk output (surface 1) and a lock screen (surface 0).
fn locked(debug: bool) -> Locker {
    let mut locker = Locker::new(config(debug), None, 1, false);
    locker.handle(Event::LockRequested, 0);
    locker.handle(Event::Locked(vec![output("DP-3", 2), output("eDP-1", 1)]), 0);
    locker
}

fn type_text(locker: &mut Locker, text: &str, now: u128) {
    for c in text.chars() {
        let actions =
            locker.handle(Event::Key { keysym: c as u32, utf8: Some(c.to_string()) }, now);
        assert_eq!(lines(&actions), ["redraw 0"]);
    }
}

fn press(locker: &mut Locker, keysym: u32, now: u128) -> Vec<String> {
    lines(&locker.handle(Event::Key { keysym, utf8: None }, now))
}

fn judged(locker: &mut Locker, id: u64, outcome: AuthOutcome, now: u128) -> Vec<String> {
    lines(&locker.handle(Event::AuthResult(AuthResult { id, outcome }), now))
}

#[test]
fn the_lock_gives_every_output_a_surface_lock_screens_first() {
    let mut locker = Locker::new(config(false), Some(b"/run/user/1000".to_vec()), 1, true);
    assert!(locker.handle(Event::LockRequested, 0).is_empty());
    let actions = locker.handle(
        Event::Locked(vec![
            output("DP-3", 2),
            output("eDP-1", 1),
            OutputInfo { name: None, scale: None },
            output("HDMI-A-1", -4),
        ]),
        0,
    );
    assert_eq!(
        lines(&actions),
        [
            "nixlock: locked; 4 output(s)",
            "create 1",
            "nixlock:   'eDP-1' -> Session",
            "create 2",
            "nixlock:   '' -> Session",
            "create 3",
            "nixlock:   'HDMI-A-1' -> Session",
            "create 0",
            "nixlock:   'DP-3' -> Kiosk",
            "notify",
            "serve /run/user/1000/nixlock.sock",
        ]
    );
    let roles: Vec<OutputRole> = locker.surfaces().iter().map(|entry| entry.role).collect();
    assert_eq!(
        roles,
        [OutputRole::Session, OutputRole::Session, OutputRole::Session, OutputRole::Kiosk]
    );
    let scales: Vec<u32> = locker.surfaces().iter().map(|entry| entry.scale).collect();
    assert_eq!(scales, [1, 1, 1, 2]);

    assert!(locker.handle(Event::ReadyNotified(true), 0).is_empty());
    assert_eq!(
        lines(&locker.handle(Event::ReadyNotified(false), 0)),
        ["nixlock: daemon parent disappeared before lock readiness was reported"]
    );
}

#[test]
fn a_host_without_a_socket_locks_all_the_same() {
    let mut locker = Locker::new(config(false), None, 1, false);
    locker.handle(Event::LockRequested, 0);
    assert_eq!(
        lines(&locker.handle(Event::Locked(Vec::new()), 0)),
        [
            "nixlock: locked; 0 output(s)",
            "nixlock: socket: no XDG_RUNTIME_DIR and no socket_path configured; kiosk socket disabled",
        ]
    );
}

#[test]
fn a_refused_lock_ends_the_process_and_tells_no_parent() {
    let mut locker = Locker::new(config(false), Some(b"/run".to_vec()), 1, true);
    locker.handle(Event::LockRequested, 0);
    assert_eq!(
        lines(&locker.handle(Event::Finished, 0)),
        ["nixlock: lock finished/rejected", "exit 1"]
    );
}

#[test]
fn a_configured_kiosk_reports_its_geometry() {
    let mut locker = locked(false);
    assert_eq!(
        lines(&locker.handle(Event::Configured { surface: 1, width: 3840, height: 2160 }, 0)),
        ["geometry 3840 2160 2", "redraw 1"]
    );
    assert_eq!(
        lines(&locker.handle(Event::Configured { surface: 0, width: 800, height: 600 }, 0)),
        ["redraw 0"]
    );
    assert!(locker
        .handle(Event::Configured { surface: 2, width: 1, height: 1 }, 0)
        .is_empty());
    assert_eq!((locker.surfaces()[0].width, locker.surfaces()[0].height), (800, 600));
}

#[test]
fn an_accepted_password_unlocks_and_ends_the_process() {
    let mut locker = locked(false);
    type_text(&mut locker, "hunter2", 0);
    assert_eq!(locker.auth_view().state, AuthState::Idle(7));
    assert_eq!(press(&mut locker, KEY_RETURN, 0), ["redraw 0", "send 1 hunter2"]);
    assert_eq!(locker.auth_view().state, AuthState::Verifying);
    assert_eq!(judged(&mut locker, 1, AuthOutcome::Unlocked, 5), ["unlock", "flush 1"]);
    assert_eq!(
        lines(&locker.handle(Event::UnlockFlushed { attempt: 1, error: None }, 5)),
        ["exit 0"]
    );
    assert_eq!(
        lines(&locker.handle(
            Event::UnlockFlushed { attempt: 1, error: Some("Broken pipe".into()) },
            5
        )),
        ["nixlock: unlock flush failed: Broken pipe", "exit 0"]
    );
    // The lock is given back once.
    assert_eq!(judged(&mut locker, 2, AuthOutcome::Unlocked, 5), ["flush 2"]);
}

#[test]
fn a_wrong_password_stays_locked_and_is_retryable_after_the_backoff() {
    let mut locker = locked(false);
    let mut now = 0;
    for attempt in 1..=8u64 {
        type_text(&mut locker, "guess", now);
        assert_eq!(
            press(&mut locker, KEY_KP_ENTER, now),
            ["redraw 0".to_string(), format!("send {attempt} guess")]
        );
        let outcome = [AuthOutcome::Wrong, AuthOutcome::MaxTries, AuthOutcome::Error]
            [attempt as usize % 3];
        assert_eq!(judged(&mut locker, attempt, outcome, now), ["redraw 0"]);
        assert_eq!(locker.auth_view().state, AuthState::Failed);
        let backoff = attempt.min(5) as u128 * SECOND;
        assert!(locker.backoff_active(now + backoff - 1));
        assert!(!locker.backoff_active(now + backoff));
        assert!(press(&mut locker, 0x61, now + backoff - 1).is_empty());
        assert!(press(&mut locker, KEY_RETURN, now + backoff - 1).is_empty());
        assert!(press(&mut locker, KEY_ESCAPE, now + backoff - 1).is_empty());
        now += backoff;
    }
    type_text(&mut locker, "right", now);
    assert_eq!(locker.auth_view().state, AuthState::Idle(5));
    press(&mut locker, KEY_RETURN, now);
    assert_eq!(judged(&mut locker, 9, AuthOutcome::Unlocked, now), ["unlock", "flush 9"]);
}

#[test]
fn one_attempt_is_in_flight() {
    let mut locker = locked(false);
    type_text(&mut locker, "abc", 0);
    press(&mut locker, KEY_RETURN, 0);
    assert!(press(&mut locker, KEY_RETURN, 0).is_empty());
    assert!(locker
        .handle(Event::Key { keysym: 0x61, utf8: Some("a".into()) }, 0)
        .is_empty());
    judged(&mut locker, 1, AuthOutcome::Wrong, 0);
    assert_eq!(locker.auth_view().state, AuthState::Failed);
}

#[test]
fn an_undelivered_attempt_counts_as_failed_and_can_be_retried_at_once() {
    let mut locker = locked(false);
    type_text(&mut locker, "abc", 0);
    press(&mut locker, KEY_RETURN, 0);
    assert_eq!(lines(&locker.handle(Event::DeliveryFailed(1), 0)), ["redraw 0"]);
    assert_eq!(locker.auth_view().state, AuthState::Failed);
    assert!(!locker.backoff_active(0));
    type_text(&mut locker, "abc", 0);
    assert_eq!(press(&mut locker, KEY_RETURN, 0), ["redraw 0", "send 2 abc"]);
}

#[test]
fn keys_edit_the_password() {
    let mut locker = locked(false);
    assert!(press(&mut locker, KEY_RETURN, 0).is_empty());
    type_text(&mut locker, "äbc", 0);
    assert_eq!(press(&mut locker, KEY_BACKSPACE, 0), ["redraw 0"]);
    assert_eq!(locker.auth_view().state, AuthState::Idle(2));
    // A control character, an empty text and no text at all are not typed.
    for utf8 in [Some("\u{7f}"), Some("\u{85}"), Some("a\n"), Some("\t"), Some(""), None] {
        let actions =
            locker.handle(Event::Key { keysym: 0xffbe, utf8: utf8.map(String::from) }, 0);
        assert!(actions.is_empty());
    }
    assert_eq!(locker.auth_view().state, AuthState::Idle(2));
    let actions = locker.handle(Event::Key { keysym: 0x61, utf8: Some("\u{a0}é".into()) }, 0);
    assert_eq!(lines(&actions), ["redraw 0"]);
    assert_eq!(press(&mut locker, KEY_RETURN, 0)[1], "send 1 äb\u{a0}é");

    let mut locker = locked(false);
    type_text(&mut locker, "abc", 0);
    assert_eq!(press(&mut locker, KEY_ESCAPE, 0), ["redraw 0"]);
    assert_eq!(locker.auth_view().state, AuthState::Idle(0));
    assert_eq!(press(&mut locker, KEY_BACKSPACE, 0), ["redraw 0"]);
    assert_eq!(locker.auth_view().state, AuthState::Idle(0));
}

#[test]
fn caps_lock_repaints_the_lock_screens_when_it_changes() {
    let mut locker = locked(false);
    assert_eq!(lines(&locker.handle(Event::CapsLock(true), 0)), ["redraw 0"]);
    assert!(locker.auth_view().caps_lock);
    assert!(locker.handle(Event::CapsLock(true), 0).is_empty());
    assert_eq!(lines(&locker.handle(Event::CapsLock(false), 0)), ["redraw 0"]);
}

#[test]
fn one_keyboard_is_held() {
    let mut locker = locked(false);
    assert_eq!(lines(&locker.handle(Event::KeyboardFound, 0)), ["get keyboard"]);
    // It was not to be had: the next one offered is tried.
    assert_eq!(lines(&locker.handle(Event::KeyboardFound, 0)), ["get keyboard"]);
    locker.handle(Event::KeyboardAcquired, 0);
    assert!(locker.handle(Event::KeyboardFound, 0).is_empty());
    assert_eq!(lines(&locker.handle(Event::KeyboardLost, 0)), ["release keyboard"]);
    assert!(locker.handle(Event::KeyboardLost, 0).is_empty());
}

#[test]
fn the_sigusr1_handler_touches_nothing_but_its_own_flag() {
    let mut locker = locked(true);
    type_text(&mut locker, "abc", 0);
    press(&mut locker, KEY_RETURN, 0);
    judged(&mut locker, 1, AuthOutcome::Wrong, 0);
    let before = locker.auth_view();

    let shown = lines(&locker.handle(Event::Tick { sigusr1: true }, SECOND / 2));
    assert_eq!(
        shown,
        [
            "nixlock: SIGUSR1: re-showing the password indicator",
            "nixlock[debug]: instance=1 event=sigusr1 action=repaint",
            "redraw 0",
            "redraw 1",
        ]
    );
    assert_eq!(locker.auth_view(), before);
    assert!(locker.backoff_active(SECOND - 1));
    // The first line is the announcement itself, which speaks of the password indicator.
    for forbidden in ["unlock", "password", "pam", "auth", "failed", "locked_until"] {
        assert!(!shown[1..].iter().any(|text| text.to_lowercase().contains(forbidden)));
    }
    assert_eq!(
        lines(&locker.handle(Event::Tick { sigusr1: false }, SECOND)),
        ["redraw 0", "redraw 1"]
    );
    assert!(!locker.backoff_active(SECOND));
}

#[test]
fn nothing_but_a_verdict_unlocks() {
    let events: Vec<fn() -> Event> = vec![
        || Event::LockRequested,
        || Event::Locked(Vec::new()),
        || Event::Finished,
        || Event::Configured { surface: 0, width: 1, height: 1 },
        || Event::KeyboardFound,
        || Event::KeyboardAcquired,
        || Event::KeyboardLost,
        || Event::Focus { entered: true, place: Some(0) },
        || Event::Key { keysym: KEY_RETURN, utf8: None },
        || Event::CapsLock(true),
        || Event::AuthResult(AuthResult { id: 1, outcome: AuthOutcome::Wrong }),
        || Event::AuthResult(AuthResult { id: 1, outcome: AuthOutcome::MaxTries }),
        || Event::AuthResult(AuthResult { id: 1, outcome: AuthOutcome::Error }),
        || Event::DeliveryFailed(1),
        || Event::UnlockFlushed { attempt: 1, error: None },
        || Event::ReadyNotified(false),
        || Event::Tick { sigusr1: true },
        || Event::FrameArrived,
    ];
    for event in events {
        let mut locker = locked(true);
        type_text(&mut locker, "secret", 0);
        assert!(!locker
            .handle(event(), 10 * SECOND)
            .iter()
            .any(|action| matches!(action, Action::Unlock | Action::FlushUnlock(_))));
    }
}
