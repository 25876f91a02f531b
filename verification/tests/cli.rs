use nixlock::cli::{
    config_path, fatal_line, flag, help, load_config, parse_args, version_line, FileConfig, Flag,
    Invocation,
};
use nixlock::config::{banner_line, startup_error, user_name, StartupStep};
use nixlock::{builder, Frame, KioskContent, LockError};

fn parsed(args: &[&str]) -> (Invocation, Vec<String>) {
    let line = parse_args(&args.iter().map(|arg| arg.to_string()).collect());
    (line.invocation, line.complaints)
}

fn lock(daemonize: bool, debug: bool) -> Invocation {
    Invocation::Lock { daemonize, debug }
}

#[test]
fn flags_are_read() {
    assert_eq!(parsed(&["nixlock"]), (lock(false, false), vec![]));
    assert_eq!(parsed(&[]), (lock(false, false), vec![]));
    assert_eq!(parsed(&["nixlock", "-f"]), (lock(true, false), vec![]));
    assert_eq!(parsed(&["nixlock", "--daemonize", "--debug"]), (lock(true, true), vec![]));
    assert_eq!(parsed(&["nixlock", "--debug", "--debug"]), (lock(false, true), vec![]));
    assert_eq!(parsed(&["nixlock", "-h"]), (Invocation::Help, vec![]));
    assert_eq!(parsed(&["nixlock", "-f", "--help", "-v"]), (Invocation::Help, vec![]));
    assert_eq!(parsed(&["nixlock", "-v"]), (Invocation::Version, vec![]));
    assert_eq!(parsed(&["nixlock", "--version", "--help"]), (Invocation::Version, vec![]));
    assert_eq!(flag(&"--debug".to_string()), Some(Flag::Debug));
    assert_eq!(flag(&"--Debug".to_string()), None);
}

#[test]
fn check_auth_wins_wherever_it_stands() {
    assert_eq!(parsed(&["nixlock", "--check-auth"]), (Invocation::CheckAuth, vec![]));
    assert_eq!(
        parsed(&["nixlock", "-h", "what", "--check-auth"]),
        (Invocation::CheckAuth, vec![])
    );
    assert_eq!(parsed(&["--check-auth"]), (Invocation::CheckAuth, vec![]));
}

#[test]
fn unknown_arguments_are_named_and_do_not_keep_the_session_open() {
    assert_eq!(
        parsed(&["nixlock", "-c", "000000", "-f"]),
        (
            lock(true, false),
            vec![
                "nixlock: ignoring unknown arg -c".to_string(),
                "nixlock: ignoring unknown arg 000000".to_string(),
            ]
        )
    );
    // What follows the help is not read any more; the program's own name is no argument.
    assert_eq!(
        parsed(&["-h", "a", "-h", "b"]),
        (Invocation::Help, vec!["nixlock: ignoring unknown arg a".to_string()])
    );
}

#[test]
fn the_printed_texts_name_the_program() {
    assert_eq!(version_line(), "nixlock 0.1.0");
    let lines = [
        "nixlock — a Wayland session locker that keeps kiosk outputs live while locking the rest.",
        "",
        "USAGE: nixlock [-f] [-h] [-v]",
        "-f, --daemonize   swaylock-compatible flag (fork after lock)",
        "-h, --help        this help",
        "-v, --version     print version",
        "",
        "CONFIG: $XDG_CONFIG_HOME/nixlock/config.json",
        "{ kiosk_outputs: [..], pam_service: \"..\", socket_path: \"..\" }",
        "",
        "The default binary shows the clock lock screen on every `Session` output. A `Kiosk`",
        "output shows whatever a client streams over the kiosk display Unix socket (DISPLAY-1) --",
        "socket_path, default $XDG_RUNTIME_DIR/nixlock.sock -- or the same built-in clock until a",
        "frame arrives / after the client disconnects. That socket is DISPLAY-ONLY: it can never",
        "unlock the session (DISPLAY-2); unlock is PAM-only, exactly as on every Session output.",
    ];
    assert_eq!(help(), lines.join("\n"));
    assert_eq!(
        fatal_line(&LockError::NoSessionLockProtocol),
        "nixlock: fatal: compositor lacks ext-session-lock-v1"
    );
}

#[test]
fn errors_have_messages() {
    assert_eq!(
        LockError::NoSessionLockProtocol.message(),
        "compositor lacks ext-session-lock-v1"
    );
    assert_eq!(LockError::Wayland("gone".into()).message(), "wayland: gone");
    assert_eq!(LockError::Daemonize("no fork".into()).message(), "daemonize: no fork");
    let message = |step| startup_error(step, "why".into()).message();
    assert_eq!(message(StartupStep::Connect), "wayland: why");
    assert_eq!(message(StartupStep::RunLoop), "wayland: why");
    assert_eq!(message(StartupStep::Daemonize), "daemonize: why");
    assert_eq!(message(StartupStep::RequestLock), "compositor lacks ext-session-lock-v1");
}

#[test]
fn the_config_file_lies_in_the_config_home() {
    let some = |text: &str| Some(text.to_string());
    assert_eq!(config_path(some("/cfg"), some("/home/m")), "/cfg/nixlock/config.json");
    assert_eq!(config_path(None, some("/home/m")), "/home/m/.config/nixlock/config.json");
    assert_eq!(config_path(None, None), "/.config/nixlock/config.json");
}

fn file() -> FileConfig {
    FileConfig {
        kiosk_outputs: vec!["DP-3".into(), "a\"b".into()],
        pam_service: Some("screen".into()),
        socket_path: Some("/run/ü.sock".into()),
        debug: false,
    }
}

#[test]
fn the_file_is_merged_with_the_environment() {
    let config = load_config(Some(file()), None, false);
    assert_eq!(config.kiosk_outputs, ["DP-3", "a\"b"]);
    assert_eq!(config.pam_service, "screen");
    assert_eq!(config.username, None);
    assert_eq!(config.socket_path.unwrap(), "/run/ü.sock".as_bytes());
    assert!(!config.debug);

    let config = load_config(Some(file()), Some("other".into()), true);
    assert_eq!(config.pam_service, "other");
    assert!(config.debug);

    let quiet = FileConfig { pam_service: None, socket_path: None, debug: true, ..file() };
    let config = load_config(Some(quiet), None, false);
    assert_eq!(config.pam_service, "nixlock");
    assert_eq!(config.socket_path, None);
    assert!(config.debug);
}

#[test]
fn a_missing_file_counts_as_an_empty_one() {
    let config = load_config(None, None, false);
    assert!(config.kiosk_outputs.is_empty());
    assert_eq!(config.pam_service, "nixlock");
    assert_eq!(config.socket_path, None);
    assert!(!config.debug);
    assert_eq!(load_config(None, Some("other".into()), true).pam_service, "other");
}

#[test]
fn the_user_is_the_configured_the_current_or_root() {
    let some = |text: &str| Some(text.to_string());
    assert_eq!(user_name(some("a"), some("b")), "a");
    assert_eq!(user_name(None, some("b")), "b");
    assert_eq!(user_name(None, None), "root");
}

#[test]
fn a_run_starts_with_what_it_was_configured_with() {
    let config = load_config(Some(file()), None, false);
    assert_eq!(
        banner_line(&config, "mara"),
        "nixlock: kiosk_outputs=[\"DP-3\", \"a\\\"b\"] pam=screen user=mara"
    );
    let config = load_config(None, None, false);
    assert_eq!(
        banner_line(&config, "mara"),
        "nixlock: kiosk_outputs=[] pam=nixlock user=mara"
    );
}

struct Plain(u8);

impl KioskContent for Plain {
    fn paint(&mut self, _frame: &Frame) -> Vec<u8> {
        vec![self.0]
    }
}

#[test]
fn the_builder_swaps_the_lock_screen() {
    let built = builder(load_config(Some(file()), None, true));
    assert!(built.session.is_none());
    let built = built.session(Plain(1)).session(Plain(2));
    assert_eq!(built.session.unwrap().0, 2);
    assert_eq!(built.config.pam_service, "screen");
}
