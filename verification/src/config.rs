//! What a host configures, why a lock may fail to come up, and the builder that swaps the lock
//! screen.

use vstd::prelude::*;
use vstd::string::*;

use crate::content::KioskContent;
use crate::text::{debug_items, quoted_list, text_of, texts_of};

verus! {

/// Per-host configuration, supplied by the caller; no policy is built in.
pub struct Config {
    /// Connector names (such as `DP-3`) that carry live kiosk content. Every other output is a
    /// lock screen.
    pub kiosk_outputs: Vec<String>,
    /// The name of the PAM service. Fail-closed if it is missing.
    pub pam_service: String,
    /// The user to authenticate; `None` stands for the current user.
    pub username: Option<String>,
    /// The path of the kiosk display socket, in bytes; `None` stands for `nixlock.sock` in the
    /// runtime directory.
    pub socket_path: Option<Vec<u8>>,
    /// Whether credential-blind diagnostics are printed.
    pub debug: bool,
}

/// Why the lock did not come up.
#[non_exhaustive]
#[derive(Debug)]
pub enum LockError {
    /// The compositor does not offer `ext-session-lock-v1`. The locker refuses loudly and never
    /// draws something that merely looks like a lock.
    NoSessionLockProtocol,
    /// The connection to the compositor failed.
    Wayland(String),
    /// The parent could not create its child, or the child ended before it held the lock.
    Daemonize(String),
}

impl LockError {
    pub open spec fn text(self) -> Seq<char> {
        match self {
            LockError::NoSessionLockProtocol => "compositor lacks ext-session-lock-v1"@,
            LockError::Wayland(cause) => "wayland: "@ + cause@,
            LockError::Daemonize(cause) => "daemonize: "@ + cause@,
        }
    }

    /// The message for the user.
    pub fn message(&self) -> (text: String)
        ensures
            text@ == self.text(),
    {
        match self {
            LockError::NoSessionLockProtocol => "compositor lacks ext-session-lock-v1".to_owned(),
            LockError::Wayland(cause) => {
                let mut text = "wayland: ".to_owned();
                text.append(cause.as_str());
                text
            },
            LockError::Daemonize(cause) => {
                let mut text = "daemonize: ".to_owned();
                text.append(cause.as_str());
                text
            },
        }
    }
}

/// The steps of coming up that can fail.
#[derive(Clone, Copy, PartialEq, Eq, Structural, Debug)]
pub enum StartupStep {
    /// Forking, and waiting for the child to hold the lock.
    Daemonize,
    /// Connecting to the compositor and binding what it offers.
    Connect,
    /// Requesting the session lock.
    RequestLock,
    /// Setting up and running the event loop.
    RunLoop,
}

/// The error that a failed step of coming up stands for.
pub fn startup_error(step: StartupStep, cause: String) -> (error: LockError)
    ensures
        match step {
            StartupStep::Daemonize => error == LockError::Daemonize(cause),
            StartupStep::Connect => error == LockError::Wayland(cause),
            StartupStep::RequestLock => error == LockError::NoSessionLockProtocol,
            StartupStep::RunLoop => error == LockError::Wayland(cause),
        },
{
    match step {
        StartupStep::Daemonize => LockError::Daemonize(cause),
        StartupStep::Connect => LockError::Wayland(cause),
        StartupStep::RequestLock => LockError::NoSessionLockProtocol,
        StartupStep::RunLoop => LockError::Wayland(cause),
    }
}

/// The user to authenticate: the configured one, else the current one, else `root`.
pub open spec fn user_of(configured: Option<Seq<char>>, current: Option<Seq<char>>) -> Seq<char> {
    match configured {
        Some(user) => user,
        None => match current {
            Some(user) => user,
            None => "root"@,
        },
    }
}

/// Resolves the user to authenticate.
pub fn user_name(configured: Option<String>, current: Option<String>) -> (user: String)
    ensures
        user@ == user_of(text_of(configured), text_of(current)),
{
    match configured {
        Some(user) => user,
        None => match current {
            Some(user) => user,
            None => "root".to_owned(),
        },
    }
}

/// The line that a run starts with: what it was configured with.
pub open spec fn banner(config: Config, user: Seq<char>) -> Seq<char> {
    "nixlock: kiosk_outputs="@ + ("["@ + debug_items(texts_of(config.kiosk_outputs@)) + "]"@)
        + " pam="@ + config.pam_service@ + " user="@ + user
}

/// Renders the line that a run starts with.
pub fn banner_line(config: &Config, user: &str) -> (line: String)
    ensures
        line@ == banner(*config, user@),
{
    let mut line = "nixlock: kiosk_outputs=".to_owned();
    line.append(quoted_list(config.kiosk_outputs.as_slice()).as_str());
    line.append(" pam=");
    line.append(config.pam_service.as_str());
    line.append(" user=");
    line.append(user);
    line
}

/// Full control over a run: the lock screen can be swapped. What a kiosk output falls back to is
/// always the built-in clock.
pub struct Builder<C> {
    pub config: Config,
    /// The lock screen, or `None` for the built-in one.
    pub session: Option<C>,
}

/// Starts a builder with the built-in lock screen.
pub fn builder(config: Config) -> (built: Builder<()>)
    ensures
        built.config == config,
        built.session is None,
{
    Builder { config, session: None }
}

impl<C> Builder<C> {
    /// Chooses the lock screen; the last choice counts.
    pub fn session<D: KioskContent>(self, content: D) -> (built: Builder<D>)
        ensures
            built.config == self.config,
            built.session == Some(content),
    {
        Builder { config: self.config, session: Some(content) }
    }
}

} // verus!
