//! The command line and the configuration file.

use vstd::prelude::*;
use vstd::string::*;

use crate::config::{Config, LockError};
use crate::socket::bytes_of;
use crate::text::{same_text, text_of, texts_of};

verus! {

/// The version that `--version` prints.
pub const VERSION: &'static str = "0.1.0";

/// The name of the PAM service where nothing else names one.
pub const DEFAULT_SERVICE: &'static str = "nixlock";

/// What a single argument asks for.
#[derive(Clone, Copy, PartialEq, Eq, Structural, Debug)]
pub enum Flag {
    /// Hand the lock over to a child, and return once the child holds it.
    Daemonize,
    /// Print credential-blind diagnostics.
    Debug,
    /// Print the usage, and do nothing else.
    Help,
    /// Print the version, and do nothing else.
    Version,
}

/// The flag that an argument is, if it is one.
pub open spec fn flag_of(arg: Seq<char>) -> Option<Flag> {
    if arg == "-f"@ || arg == "--daemonize"@ {
        Some(Flag::Daemonize)
    } else if arg == "--debug"@ {
        Some(Flag::Debug)
    } else if arg == "-h"@ || arg == "--help"@ {
        Some(Flag::Help)
    } else if arg == "-v"@ || arg == "--version"@ {
        Some(Flag::Version)
    } else {
        None
    }
}

/// Whether an argument ends the reading of the command line.
pub open spec fn is_final(arg: Seq<char>) -> bool {
    flag_of(arg) == Some(Flag::Help) || flag_of(arg) == Some(Flag::Version)
}

/// What a command line asks for.
#[derive(Clone, Copy, PartialEq, Eq, Structural, Debug)]
pub enum Invocation {
    /// Check once that the PAM service authenticates the current user.
    CheckAuth,
    Help,
    Version,
    /// Lock the session.
    Lock { daemonize: bool, debug: bool },
}

/// A command line that was read: what it asks for, and the complaints on what it holds besides,
/// in order.
pub struct CommandLine {
    pub invocation: Invocation,
    pub complaints: Vec<String>,
}

/// How many arguments stand before the first one that ends the reading.
pub open spec fn read_length(args: Seq<Seq<char>>) -> nat
    decreases args.len(),
{
    if args.len() == 0 || is_final(args[0]) {
        0
    } else {
        1 + read_length(args.skip(1))
    }
}

/// The complaint on an argument that is no flag.
pub open spec fn complaint(arg: Seq<char>) -> Seq<char> {
    "nixlock: ignoring unknown arg "@ + arg
}

/// The complaints on a list of arguments: one for each that is no flag.
pub open spec fn complaints_on(args: Seq<Seq<char>>) -> Seq<Seq<char>>
    decreases args.len(),
{
    if args.len() == 0 {
        seq![]
    } else if flag_of(args.last()) is None {
        complaints_on(args.drop_last()).push(complaint(args.last()))
    } else {
        complaints_on(args.drop_last())
    }
}

/// Whether a flag is given.
pub open spec fn given(args: Seq<Seq<char>>, flag: Flag) -> bool {
    exists|i: int| 0 <= i < args.len() && flag_of(#[trigger] args[i]) == Some(flag)
}

/// The arguments of a command line: what follows the name of the program.
pub open spec fn arguments(args: Seq<Seq<char>>) -> Seq<Seq<char>> {
    if args.len() == 0 {
        args
    } else {
        args.skip(1)
    }
}

/// What a command line asks for. The argument `--check-auth` wins wherever it stands, the name
/// of the program included; of the arguments that end the reading, the first one counts.
pub open spec fn invocation_of(args: Seq<Seq<char>>) -> Invocation {
    let rest = arguments(args);
    if args.contains("--check-auth"@) {
        Invocation::CheckAuth
    } else if read_length(rest) < rest.len() {
        if flag_of(rest[read_length(rest) as int]) == Some(Flag::Help) {
            Invocation::Help
        } else {
            Invocation::Version
        }
    } else {
        Invocation::Lock {
            daemonize: given(rest, Flag::Daemonize),
            debug: given(rest, Flag::Debug),
        }
    }
}

/// What a command line complains about: every argument that is no flag, up to the one that ends
/// the reading.
pub open spec fn complaints_of(args: Seq<Seq<char>>) -> Seq<Seq<char>> {
    let rest = arguments(args);
    if args.contains("--check-auth"@) {
        seq![]
    } else {
        complaints_on(rest.take(read_length(rest) as int))
    }
}

/// Reads one argument.
pub fn flag(arg: &String) -> (flag: Option<Flag>)
    ensures
        flag == flag_of(arg@),
{
    if same_text(arg, "-f") || same_text(arg, "--daemonize") {
        Some(Flag::Daemonize)
    } else if same_text(arg, "--debug") {
        Some(Flag::Debug)
    } else if same_text(arg, "-h") || same_text(arg, "--help") {
        Some(Flag::Help)
    } else if same_text(arg, "-v") || same_text(arg, "--version") {
        Some(Flag::Version)
    } else {
        None
    }
}

fn holds_text(args: &Vec<String>, wanted: &str) -> (found: bool)
    ensures
        found == texts_of(args@).contains(wanted@),
{
    let mut i: usize = 0;
    while i < args.len()
        invariant
            i <= args@.len(),
            forall|j: int| 0 <= j < i ==> (#[trigger] args@[j])@ != wanted@,
        decreases args@.len() - i,
    {
        if same_text(&args[i], wanted) {
            proof {
                assert(texts_of(args@)[i as int] == wanted@);
            }
            return true;
        }
        i += 1;
    }
    false
}

/// The first argument that ends the reading is the one after those that do not.
pub proof fn lemma_read_length(args: Seq<Seq<char>>, n: int)
    requires
        0 <= n <= args.len(),
        forall|i: int| 0 <= i < n ==> !is_final(#[trigger] args[i]),
        n < args.len() ==> is_final(args[n]),
    ensures
        read_length(args) == n,
    decreases args.len(),
{
    if n > 0 {
        assert forall|i: int| 0 <= i < n - 1 implies !is_final(#[trigger] args.skip(1)[i]) by {
            assert(args.skip(1)[i] == args[i + 1]);
        }
        lemma_read_length(args.skip(1), n - 1);
    }
}

/// Reads a command line, the name of the program first.
pub fn parse_args(args: &Vec<String>) -> (line: CommandLine)
    ensures
        line.invocation == invocation_of(texts_of(args@)),
        texts_of(line.complaints@) == complaints_of(texts_of(args@)),
{
    let mut complaints: Vec<String> = Vec::new();
    if holds_text(args, "--check-auth") {
        assert(texts_of(complaints@) == Seq::<Seq<char>>::empty());
        return CommandLine { invocation: Invocation::CheckAuth, complaints };
    }
    let ghost rest = arguments(texts_of(args@));
    let mut daemonize = false;
    let mut debug = false;
    let mut i: usize = 1;
    assert(rest.take(0) == Seq::<Seq<char>>::empty());
    assert(texts_of(complaints@) == Seq::<Seq<char>>::empty());
    while i < args.len()
        invariant
            rest == arguments(texts_of(args@)),
            !texts_of(args@).contains("--check-auth"@),
            1 <= i,
            args@.len() >= 1 ==> i <= args@.len(),
            args@.len() == 0 ==> i == 1,
            forall|j: int| 0 <= j < i - 1 ==> !is_final(#[trigger] rest[j]),
            daemonize == given(rest.take(i - 1), Flag::Daemonize),
            debug == given(rest.take(i - 1), Flag::Debug),
            texts_of(complaints@) == complaints_on(rest.take(i - 1)),
        decreases args@.len() - i,
    {
        let asked = flag(&args[i]);
        let ghost before = rest.take(i - 1);
        proof {
            assert(rest[i - 1] == args@[i as int]@);
            assert(rest.take(i as int).drop_last() == before);
            assert(rest.take(i as int).last() == rest[i - 1]);
        }
        match asked {
            Some(Flag::Help) => {
                proof {
                    lemma_read_length(rest, i - 1);
                }
                return CommandLine { invocation: Invocation::Help, complaints };
            },
            Some(Flag::Version) => {
                proof {
                    lemma_read_length(rest, i - 1);
                }
                return CommandLine { invocation: Invocation::Version, complaints };
            },
            Some(Flag::Daemonize) => daemonize = true,
            Some(Flag::Debug) => debug = true,
            None => {
                let mut text = "nixlock: ignoring unknown arg ".to_owned();
                text.append(args[i].as_str());
                let ghost earlier = complaints@;
                complaints.push(text);
                assert(texts_of(complaints@) == texts_of(earlier).push(complaint(rest[i - 1])));
            },
        }
        proof {
            let after = rest.take(i as int);
            assert forall|f: Flag| #[trigger]
                given(after, f) == (given(before, f) || asked == Some(f)) by {
                if given(before, f) {
                    let k = choose|k: int| 0 <= k < before.len() && flag_of(#[trigger] before[k]) == Some(f);
                    assert(after[k] == before[k]);
                }
                if asked == Some(f) {
                    assert(flag_of(after[i - 1]) == Some(f));
                }
                if given(after, f) {
                    let k = choose|k: int| 0 <= k < after.len() && flag_of(#[trigger] after[k]) == Some(f);
                    if k < i - 1 {
                        assert(before[k] == after[k]);
                    }
                }
            }
            assert(given(after, Flag::Daemonize) == (given(before, Flag::Daemonize) || asked == Some(
                Flag::Daemonize,
            )));
            assert(given(after, Flag::Debug) == (given(before, Flag::Debug) || asked == Some(
                Flag::Debug,
            )));
        }
        i += 1;
    }
    proof {
        assert(rest.take(i - 1) == rest);
        lemma_read_length(rest, rest.len() as int);
    }
    CommandLine { invocation: Invocation::Lock { daemonize, debug }, complaints }
}

/// Nothing on the command line turns a run into an unlocked one: a command line without
/// `--check-auth` that asks for neither help nor the version locks the session, whatever else it
/// holds.
pub proof fn lemma_unknown_arguments_still_lock(args: Seq<Seq<char>>)
    requires
        !args.contains("--check-auth"@),
        forall|i: int| 1 <= i < args.len() ==> !is_final(#[trigger] args[i]),
    ensures
        invocation_of(args) is Lock,
{
    let rest = arguments(args);
    assert forall|i: int| 0 <= i < rest.len() implies !is_final(#[trigger] rest[i]) by {
        assert(rest[i] == args[i + 1]);
    }
    lemma_read_length(rest, rest.len() as int);
}

/// The usage.
pub const USAGE: &'static str = "nixlock — a Wayland session locker that keeps kiosk outputs live while locking the rest.\n\nUSAGE: nixlock [-f] [-h] [-v]\n-f, --daemonize   swaylock-compatible flag (fork after lock)\n-h, --help        this help\n-v, --version     print version\n\nCONFIG: $XDG_CONFIG_HOME/nixlock/config.json\n{ kiosk_outputs: [..], pam_service: \"..\", socket_path: \"..\" }\n\nThe default binary shows the clock lock screen on every `Session` output. A `Kiosk`\noutput shows whatever a client streams over the kiosk display Unix socket (DISPLAY-1) --\nsocket_path, default $XDG_RUNTIME_DIR/nixlock.sock -- or the same built-in clock until a\nframe arrives / after the client disconnects. That socket is DISPLAY-ONLY: it can never\nunlock the session (DISPLAY-2); unlock is PAM-only, exactly as on every Session output.";

/// The text that `--help` prints.
pub fn help() -> (text: String)
    ensures
        text@ == USAGE@,
{
    USAGE.to_owned()
}

/// The text that `--version` prints.
pub fn version_line() -> (text: String)
    ensures
        text@ == "nixlock "@ + VERSION@,
{
    let mut text = "nixlock ".to_owned();
    text.append(VERSION);
    text
}

/// The line that ends a run that failed.
pub fn fatal_line(error: &LockError) -> (text: String)
    ensures
        text@ == "nixlock: fatal: "@ + error.text(),
{
    let mut text = "nixlock: fatal: ".to_owned();
    text.append(error.message().as_str());
    text
}

/// Where the configuration file lies: in the configuration directory, else in `.config` under
/// the home directory, which stands for nothing where it is unset.
pub open spec fn config_file(
    config_home: Option<Seq<char>>,
    home: Option<Seq<char>>,
) -> Seq<char> {
    match config_home {
        Some(dir) => dir + "/nixlock/config.json"@,
        None => match home {
            Some(dir) => dir + "/.config/nixlock/config.json"@,
            None => "/.config/nixlock/config.json"@,
        },
    }
}

/// Resolves the path of the configuration file.
pub fn config_path(config_home: Option<String>, home: Option<String>) -> (path: String)
    ensures
        path@ == config_file(text_of(config_home), text_of(home)),
{
    match config_home {
        Some(dir) => {
            let mut path = dir;
            path.append("/nixlock/config.json");
            path
        },
        None => match home {
            Some(dir) => {
                let mut path = dir;
                path.append("/.config/nixlock/config.json");
                path
            },
            None => "/.config/nixlock/config.json".to_owned(),
        },
    }
}

/// What a configuration file holds.
pub struct FileConfig {
    pub kiosk_outputs: Vec<String>,
    pub pam_service: Option<String>,
    pub socket_path: Option<String>,
    pub debug: bool,
}

/// The PAM service: the one that the environment names, else the one that the file names, else
/// the default one.
pub open spec fn service_of(
    environment: Option<Seq<char>>,
    file: Option<FileConfig>,
) -> Seq<char> {
    match environment {
        Some(service) => service,
        None => match file {
            Some(FileConfig { pam_service: Some(service), .. }) => service@,
            _ => DEFAULT_SERVICE@,
        },
    }
}

/// The configuration of a run. `file` is `None` where there is no file that could be read and
/// understood: it then counts as an empty one, so that a broken file never keeps the session
/// from being locked. The environment's PAM service wins over the file's, and diagnostics are
/// printed where the file or the command line asks for them.
pub fn load_config(
    file: Option<FileConfig>,
    service: Option<String>,
    debug: bool,
) -> (config: Config)
    ensures
        match file {
            Some(given) => config.kiosk_outputs == given.kiosk_outputs,
            None => config.kiosk_outputs@.len() == 0,
        },
        config.pam_service@ == service_of(text_of(service), file),
        config.username is None,
        match file {
            Some(FileConfig { socket_path: Some(path), .. }) => bytes_of(config.socket_path)
                == Some(vstd::utf8::encode_utf8(path@)),
            _ => config.socket_path is None,
        },
        config.debug == (debug || (file is Some && file->0.debug)),
{
    match file {
        Some(given) => {
            let pam_service = match service {
                Some(name) => name,
                None => match given.pam_service {
                    Some(name) => name,
                    None => DEFAULT_SERVICE.to_owned(),
                },
            };
            let socket_path = match given.socket_path {
                Some(path) => Some(path.as_str().as_bytes_vec()),
                None => None,
            };
            Config {
                kiosk_outputs: given.kiosk_outputs,
                pam_service,
                username: None,
                socket_path,
                debug: debug || given.debug,
            }
        },
        None => Config {
            kiosk_outputs: Vec::new(),
            pam_service: match service {
                Some(name) => name,
                None => DEFAULT_SERVICE.to_owned(),
            },
            username: None,
            socket_path: None,
            debug,
        },
    }
}

} // verus!
