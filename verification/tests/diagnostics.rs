use nixlock::auth::{AuthOutcome, AuthResult, AuthStage, PamCode};
use nixlock::diagnostics::Diagnostics;
use nixlock::locker::{Action, Event, Locker, OutputInfo, KEY_RETURN};
use nixlock::{Config, OutputRole};

fn on() -> Diagnostics {
    Diagnostics::new(true, 42)
}

fn event(line: Option<String>) -> String {
    line.unwrap().strip_prefix("nixlock[debug]: instance=42 ").unwrap().to_string()
}

#[test]
fn diagnostics_interface_has_no_credential_bearing_inputs() {
    let config = Config {
        kiosk_outputs: Vec::new(),
        pam_service: "nixlock".into(),
        username: None,
        socket_path: None,
        debug: true,
    };
    let mut locker = Locker::new(config, None, 42, true);
    let mut printed = Vec::new();
    let mut sent = Vec::new();
    let mut now = 0;
    let mut feed = |locker: &mut Locker, event: Event, now: u128| {
        for action in locker.handle(event, now) {
            match action {
                Action::Log(line) => printed.push(line),
                Action::Send(attempt) => sent.push(attempt),
                _ => {}
            }
        }
    };
    feed(&mut locker, Event::LockRequested, now);
    let output = OutputInfo { name: Some("eDP-1".into()), scale: Some(1) };
    feed(&mut locker, Event::Locked(vec![output]), now);
    for (id, outcome) in [(1, AuthOutcome::Wrong), (2, AuthOutcome::Unlocked)] {
        for c in ["qzx", "jvk"] {
            feed(&mut locker, Event::Key { keysym: 0x71, utf8: Some(c.into()) }, now);
        }
        feed(&mut locker, Event::Key { keysym: KEY_RETURN, utf8: None }, now);
        feed(&mut locker, Event::Key { keysym: KEY_RETURN, utf8: None }, now);
        feed(&mut locker, Event::AuthResult(AuthResult { id, outcome }), now);
        feed(&mut locker, Event::Tick { sigusr1: true }, now);
        now += 10_000_000_000;
    }
    feed(&mut locker, Event::UnlockFlushed { attempt: 2, error: None }, now);

    assert_eq!(sent.len(), 2);
    assert!(sent.iter().all(|attempt| attempt.password.as_str() == "qzxjvk"));
    assert!(printed.len() > 10);
    for forbidden in [
        "Zeroizing",
        "PasswordConversation",
        "AuthAttempt",
        "KeyEvent",
        "utf8",
        "qzx",
        "jvk",
    ] {
        assert!(
            !printed.iter().any(|line| line.contains(forbidden)),
            "diagnostics accepts credential-bearing `{forbidden}` data"
        );
    }
}

#[test]
fn nothing_is_printed_while_diagnostics_are_off() {
    let off = Diagnostics::new(false, 42);
    assert_eq!(off.startup(), None);
    assert_eq!(off.keyboard_focus(true, None), None);
    assert_eq!(off.auth_submitted(1), None);
    assert_eq!(
        off.pam_finished(1, AuthOutcome::Wrong, AuthStage::Authenticate, None, 5),
        None
    );
}

#[test]
fn a_line_is_made_of_its_fields() {
    assert_eq!(on().emit("a=b".into()).unwrap(), "nixlock[debug]: instance=42 a=b");
    assert_eq!(on().emit("a=b".into()), Diagnostics::new(true, 42).emit("a=b".into()));
    assert_eq!(Diagnostics::new(false, 42).emit("a=b".into()), None);
}

#[test]
fn every_event_has_its_line() {
    let d = on();
    assert_eq!(
        d.startup().unwrap(),
        "nixlock[debug]: instance=42 event=start"
    );
    assert_eq!(event(d.wayland_connected()), "event=wayland_connected");
    assert_eq!(event(d.lock_requested()), "event=lock_requested");
    assert_eq!(event(d.lock_acquired(3)), "event=lock_acquired outputs=3");
    assert_eq!(event(d.daemon_ready(true)), "event=daemon_ready parent_notification=ok");
    assert_eq!(event(d.daemon_ready(false)), "event=daemon_ready parent_notification=error");
    assert_eq!(
        event(d.surface_configured("DP-\"3", OutputRole::Kiosk, 3840, 2160, 2)),
        "event=surface_configured output=\"DP-\\\"3\" role=Kiosk width=3840 height=2160 scale=2"
    );
    assert_eq!(
        event(d.output_surface_added("DP-1", OutputRole::Session, "hotplug")),
        "event=output_surface_added output=\"DP-1\" role=Session reason=hotplug"
    );
    assert_eq!(
        event(d.output_surface_updated("DP-1", OutputRole::Session, 2)),
        "event=output_surface_updated output=\"DP-1\" role=Session scale=2"
    );
    assert_eq!(
        event(d.output_surface_removed("DP-1", OutputRole::Session)),
        "event=output_surface_removed output=\"DP-1\" role=Session"
    );
    assert_eq!(event(d.keyboard_capability(true)), "event=keyboard_capability state=present");
    assert_eq!(event(d.keyboard_capability(false)), "event=keyboard_capability state=removed");
    assert_eq!(
        event(d.keyboard_focus(true, Some(("eDP-1", OutputRole::Session)))),
        "event=keyboard_focus state=entered output=\"eDP-1\" role=Session"
    );
    assert_eq!(
        event(d.keyboard_focus(false, None)),
        "event=keyboard_focus state=left output=unknown"
    );
    assert_eq!(
        event(d.submit_ignored("empty_input")),
        "event=auth_submit_ignored reason=empty_input"
    );
    assert_eq!(event(d.auth_submitted(7)), "event=auth_submitted attempt=7");
    assert_eq!(
        event(d.auth_delivery_failed(7)),
        "event=auth_delivery_failed attempt=7 reason=worker_unavailable"
    );
    assert_eq!(
        event(d.auth_result_received(u64::MAX, AuthOutcome::MaxTries)),
        "event=auth_result_received attempt=18446744073709551615 outcome=max_tries"
    );
    assert_eq!(
        event(d.auth_failed_ui(7, 3000)),
        "event=auth_failed_ui attempt=7 backoff_ms=3000"
    );
    assert_eq!(event(d.unlock_requested(7)), "event=unlock_requested attempt=7");
    assert_eq!(event(d.unlock_flushed(true)), "event=unlock_flushed status=ok");
    assert_eq!(event(d.unlock_flushed(false)), "event=unlock_flushed status=error");
    assert_eq!(
        event(d.authenticated_exit(7)),
        "event=process_exit reason=authenticated attempt=7"
    );
    assert_eq!(
        event(d.lock_finished()),
        "event=process_exit reason=compositor_finished_or_rejected"
    );
    assert_eq!(event(d.sigusr1()), "event=sigusr1 action=repaint");
    assert_eq!(
        event(d.pam_finished(
            1,
            AuthOutcome::Error,
            AuthStage::Context,
            Some(PamCode::ServiceErr),
            0
        )),
        "event=pam_finished attempt=1 outcome=error stage=context code=SERVICE_ERR elapsed_ms=0"
    );
}
