//! What the command line, the configuration and the readiness of a child lead to, in terms of the
//! texts and values that go in.

use vstd::prelude::*;
use vstd::string::*;

use crate::cli::{
    arguments, complaints_of, config_file, flag_of, invocation_of, is_final,
    lemma_read_length, read_length, service_of, FileConfig, Flag, Invocation,
};
use crate::config::{banner, user_of, Config, LockError};
use crate::daemon::{step_after, NotReady, PipeRead, WaitStep};
use crate::text::{debug_items, signed, texts_of};

verus! {

/// The flags are exactly these seven words.
pub proof fn lemma_which_words_are_flags(arg: Seq<char>)
    ensures
        flag_of(arg) is Some ==> arg == "-f"@ || arg == "--daemonize"@ || arg == "--debug"@ || arg
            == "-h"@ || arg == "--help"@ || arg == "-v"@ || arg == "--version"@,
        flag_of("-f"@) == Some(Flag::Daemonize),
        flag_of("--daemonize"@) == Some(Flag::Daemonize),
        flag_of("--debug"@) == Some(Flag::Debug),
        flag_of("-h"@) == Some(Flag::Help),
        flag_of("--help"@) == Some(Flag::Help),
        flag_of("-v"@) == Some(Flag::Version),
        flag_of("--version"@) == Some(Flag::Version),
{
    lemma_flag_words();
}

proof fn lemma_flag_words()
    ensures
        "-f"@ != "--debug"@ && "-f"@ != "-h"@ && "-f"@ != "--help"@ && "-f"@ != "-v"@ && "-f"@
            != "--version"@,
        "--daemonize"@ != "--debug"@ && "--daemonize"@ != "-h"@ && "--daemonize"@ != "--help"@
            && "--daemonize"@ != "-v"@ && "--daemonize"@ != "--version"@,
        "--debug"@ != "-h"@ && "--debug"@ != "--help"@ && "--debug"@ != "-v"@ && "--debug"@
            != "--version"@,
        "-h"@ != "-v"@ && "-h"@ != "--version"@ && "--help"@ != "-v"@ && "--help"@ != "--version"@,
{
    reveal_strlit("-f");
    reveal_strlit("--daemonize");
    reveal_strlit("--debug");
    reveal_strlit("-h");
    reveal_strlit("--help");
    reveal_strlit("-v");
    reveal_strlit("--version");
    assert("-f"@[1] != "-h"@[1] && "-f"@[1] != "-v"@[1] && "-h"@[1] != "-v"@[1]);
    assert("--debug"@.len() == 7 && "--help"@.len() == 6 && "--version"@.len() == 9
        && "--daemonize"@.len() == 11);
}

/// Whether an argument asks for the help or for the version.
pub open spec fn only_prints(arg: Seq<char>) -> bool {
    arg == "-h"@ || arg == "--help"@ || arg == "-v"@ || arg == "--version"@
}

/// Whether an argument is one of the words that are read.
pub open spec fn is_known(arg: Seq<char>) -> bool {
    only_prints(arg) || arg == "-f"@ || arg == "--daemonize"@ || arg == "--debug"@
}

/// The word `--check-auth` anywhere on the command line asks for the check, without complaints.
pub proof fn lemma_check_auth_wins(args: Seq<Seq<char>>, i: int)
    requires
        0 <= i < args.len(),
        args[i] == "--check-auth"@,
    ensures
        invocation_of(args) == Invocation::CheckAuth,
        complaints_of(args).len() == 0,
{
    assert(args.contains("--check-auth"@));
}

/// Otherwise the first argument that asks for the help or the version decides.
pub proof fn lemma_the_first_print_decides(args: Seq<Seq<char>>, k: int)
    requires
        1 <= k < args.len(),
        forall|i: int| 0 <= i < args.len() ==> #[trigger] args[i] != "--check-auth"@,
        forall|i: int| 1 <= i < k ==> !only_prints(#[trigger] args[i]),
        only_prints(args[k]),
    ensures
        args[k] == "-h"@ || args[k] == "--help"@ ==> invocation_of(args) == Invocation::Help,
        args[k] == "-v"@ || args[k] == "--version"@ ==> invocation_of(args)
            == Invocation::Version,
{
    lemma_flag_words();
    let rest = arguments(args);
    assert forall|i: int| 0 <= i < k - 1 implies !is_final(#[trigger] rest[i]) by {
        assert(rest[i] == args[i + 1]);
    }
    assert(rest[k - 1] == args[k]);
    lemma_read_length(rest, k - 1);
}

/// Otherwise the session is locked, by a child exactly if some argument is `-f` or `--daemonize`, and
/// with diagnostics exactly if some argument is `--debug`; the program's own name is no argument.
pub proof fn lemma_everything_else_locks(args: Seq<Seq<char>>)
    requires
        forall|i: int| 0 <= i < args.len() ==> #[trigger] args[i] != "--check-auth"@,
        forall|i: int| 1 <= i < args.len() ==> !only_prints(#[trigger] args[i]),
    ensures
        invocation_of(args) is Lock,
        invocation_of(args)->daemonize <==> exists|i: int|
            1 <= i < args.len() && (#[trigger] args[i] == "-f"@ || args[i] == "--daemonize"@),
        invocation_of(args)->debug <==> exists|i: int|
            1 <= i < args.len() && #[trigger] args[i] == "--debug"@,
{
    lemma_flag_words();
    let rest = arguments(args);
    assert forall|i: int| 0 <= i < rest.len() implies !is_final(#[trigger] rest[i]) by {
        assert(rest[i] == args[i + 1]);
    }
    lemma_read_length(rest, rest.len() as int);
    if exists|i: int|
        1 <= i < args.len() && (#[trigger] args[i] == "-f"@ || args[i] == "--daemonize"@) {
        let i = choose|i: int|
            1 <= i < args.len() && (#[trigger] args[i] == "-f"@ || args[i] == "--daemonize"@);
        assert(flag_of(rest[i - 1]) == Some(Flag::Daemonize));
    }
    if exists|i: int| 1 <= i < args.len() && #[trigger] args[i] == "--debug"@ {
        let i = choose|i: int| 1 <= i < args.len() && #[trigger] args[i] == "--debug"@;
        assert(flag_of(rest[i - 1]) == Some(Flag::Debug));
    }
    if invocation_of(args)->daemonize {
        let i = choose|i: int|
            0 <= i < rest.len() && flag_of(#[trigger] rest[i]) == Some(Flag::Daemonize);
        assert(args[i + 1] == rest[i]);
    }
    if invocation_of(args)->debug {
        let i = choose|i: int| 0 <= i < rest.len() && flag_of(#[trigger] rest[i]) == Some(Flag::Debug);
        assert(args[i + 1] == rest[i]);
    }
}

/// One more argument adds one complaint, at the end and with that argument's text, exactly if it is
/// none of the words that are read and comes before any argument that asks for the help or the
/// version. Without arguments there is none.
pub proof fn lemma_each_unknown_argument_is_named(args: Seq<Seq<char>>, arg: Seq<char>)
    requires
        args.len() > 0,
        forall|i: int| 0 <= i < args.len() ==> #[trigger] args[i] != "--check-auth"@,
        arg != "--check-auth"@,
    ensures
        args.len() == 1 ==> complaints_of(args).len() == 0,
        (forall|i: int| 1 <= i < args.len() ==> !only_prints(#[trigger] args[i])) && !is_known(arg)
            ==> complaints_of(args.push(arg)) == complaints_of(args).push(
            "nixlock: ignoring unknown arg "@ + arg,
        ),
        (exists|i: int| 1 <= i < args.len() && only_prints(#[trigger] args[i])) || is_known(arg)
            ==> complaints_of(args.push(arg)) == complaints_of(args),
{
    lemma_flag_words();
    let more = args.push(arg);
    let rest = arguments(args);
    let longer = arguments(more);
    let n = rest.len() as int;
    assert(longer == rest.push(arg));
    assert forall|i: int| 0 <= i < more.len() implies #[trigger] more[i] != "--check-auth"@ by {}
    assert(!more.contains("--check-auth"@));
    lemma_read_stops(rest, arg);
    if args.len() == 1 {
        assert(rest.len() == 0);
        assert(rest.take(0) == Seq::<Seq<char>>::empty());
    }
    if forall|i: int| 1 <= i < args.len() ==> !only_prints(#[trigger] args[i]) {
        assert forall|i: int| 0 <= i < n implies !is_final(#[trigger] rest[i]) by {
            assert(rest[i] == args[i + 1]);
        }
        lemma_read_length(rest, n);
        assert(rest.take(n) == rest);
        if is_final(arg) {
            assert forall|i: int| 0 <= i < n implies !is_final(#[trigger] longer[i]) by {
                assert(longer[i] == rest[i]);
            }
            lemma_read_length(longer, n);
            assert(longer.take(n) == rest);
        } else {
            assert forall|i: int| 0 <= i < n + 1 implies !is_final(#[trigger] longer[i]) by {
                if i < n {
                    assert(longer[i] == rest[i]);
                }
            }
            lemma_read_length(longer, n + 1);
            assert(longer.take(n + 1) == longer);
            assert(longer.drop_last() == rest);
        }
    } else {
        let i = choose|i: int| 1 <= i < args.len() && only_prints(#[trigger] args[i]);
        assert(rest[i - 1] == args[i]);
        assert(is_final(rest[i - 1]));
        lemma_read_length_bound(rest, i - 1);
        let m = read_length(rest) as int;
        assert(longer.take(m) == rest.take(m));
    }
}

/// An argument that ends the reading bounds how much is read.
proof fn lemma_read_length_bound(args: Seq<Seq<char>>, i: int)
    requires
        0 <= i < args.len(),
        is_final(args[i]),
    ensures
        read_length(args) <= i,
    decreases args.len(),
{
    if !is_final(args[0]) {
        assert(args.skip(1)[i - 1] == args[i]);
        lemma_read_length_bound(args.skip(1), i - 1);
    }
}

/// Once the reading has ended, a further argument makes no difference to how much is read.
proof fn lemma_read_stops(args: Seq<Seq<char>>, arg: Seq<char>)
    ensures
        read_length(args) < args.len() ==> read_length(args.push(arg)) == read_length(args),
    decreases args.len(),
{
    if args.len() > 0 && !is_final(args[0]) {
        lemma_read_stops(args.skip(1), arg);
        assert(args.push(arg).skip(1) == args.skip(1).push(arg));
        assert(args.push(arg)[0] == args[0]);
    } else if args.len() > 0 {
        assert(args.push(arg)[0] == args[0]);
    }
}

/// The configuration file lies under the configuration directory where there is one, else under the
/// home directory.
pub proof fn lemma_where_the_configuration_is(
    config_home: Option<Seq<char>>,
    home: Option<Seq<char>>,
)
    ensures
        config_home is Some ==> config_file(config_home, home) == config_home->0
            + "/nixlock/config.json"@,
        config_home is None && home is Some ==> config_file(config_home, home) == home->0
            + "/.config/nixlock/config.json"@,
        config_home is None && home is None ==> config_file(config_home, home)
            == "/.config/nixlock/config.json"@,
{
}

/// The PAM service is the environment's where it names one, else the file's where it names one, else
/// `nixlock`.
pub proof fn lemma_which_service_is_asked(environment: Option<Seq<char>>, file: Option<FileConfig>)
    ensures
        environment is Some ==> service_of(environment, file) == environment->0,
        environment is None && file is Some && file->0.pam_service is Some ==> service_of(
            environment,
            file,
        ) == file->0.pam_service->0@,
        environment is None && (file is None || file->0.pam_service is None) ==> service_of(
            environment,
            file,
        ) == "nixlock"@,
{
}

/// The user is the configured one, else the current one, else `root`.
pub proof fn lemma_which_user_is_authenticated(
    configured: Option<Seq<char>>,
    current: Option<Seq<char>>,
)
    ensures
        configured is Some ==> user_of(configured, current) == configured->0,
        configured is None && current is Some ==> user_of(configured, current) == current->0,
        configured is None && current is None ==> user_of(configured, current) == "root"@,
{
}

/// The messages of a lock that did not come up name the missing protocol or the cause.
pub proof fn lemma_errors_name_their_cause(cause: String)
    ensures
        LockError::NoSessionLockProtocol.text() == "compositor lacks ext-session-lock-v1"@,
        LockError::Wayland(cause).text() == "wayland: "@ + cause@,
        LockError::Daemonize(cause).text() == "daemonize: "@ + cause@,
{
}

/// The first line of a run names the kiosk outputs, the PAM service and the user.
pub proof fn lemma_the_banner_names_the_configuration(config: Config, user: Seq<char>)
    ensures
        banner(config, user) == "nixlock: kiosk_outputs="@ + ("["@ + debug_items(
            texts_of(config.kiosk_outputs@),
        ) + "]"@) + " pam="@ + config.pam_service@ + " user="@ + user,
{
}

/// What a read from the pipe means to the parent: the byte `R` means that the child holds the lock, and
/// nothing else does. Any other byte is not a marker. A closed pipe means that the child is to be
/// reaped, where there is one. A failed read keeps its cause.
pub proof fn lemma_what_a_read_means(read: PipeRead, child: Option<i32>)
    ensures
        step_after(read, child) is Ready <==> (read matches PipeRead::Byte(byte) && byte == 0x52),
        read is Byte && read->Byte_0 != 0x52 ==> step_after(read, child) == WaitStep::Failed(
            NotReady::InvalidMarker,
        ),
        read is Closed && child is Some ==> step_after(read, child) == WaitStep::Reap(child->0),
        read is Closed && child is None ==> step_after(read, child) == WaitStep::Failed(
            NotReady::Closed,
        ),
        read is Broken ==> step_after(read, child) == WaitStep::Failed(
            NotReady::System(read->Broken_0),
        ),
{
}

/// The messages of a child that is not ready.
pub proof fn lemma_a_missing_child_is_explained(status: i32, cause: String)
    ensures
        NotReady::InvalidMarker.text() == "daemon child sent an invalid readiness marker"@,
        NotReady::Closed.text() == "readiness pipe closed before the session lock was acquired"@,
        NotReady::Exited(status).text()
            == "daemon child exited before acquiring the session lock (wait status "@ + signed(
            status as int,
        ) + ")"@,
        NotReady::System(cause).text() == cause@,
{
}

} // verus!
