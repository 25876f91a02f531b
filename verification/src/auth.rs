//! The verdict on one attempt, and what the PAM conversation may say. Fail-closed: only a password
//! that PAM accepted unlocks, every other path stays locked.

use vstd::prelude::*;
use vstd::string::*;

use crate::diagnostics::Diagnostics;
use crate::secret::Secret;
use crate::text::{debug_text, quoted, text_of};

verus! {

/// The verdict on an attempt. It never carries the password.
#[derive(Clone, Copy, PartialEq, Eq, Structural, Debug)]
pub enum AuthOutcome {
    Unlocked,
    Wrong,
    MaxTries,
    Error,
}

impl AuthOutcome {
    pub open spec fn name(self) -> Seq<char> {
        match self {
            AuthOutcome::Unlocked => "unlocked"@,
            AuthOutcome::Wrong => "wrong"@,
            AuthOutcome::MaxTries => "max_tries"@,
            AuthOutcome::Error => "error"@,
        }
    }

    /// The name of the verdict in the diagnostics.
    pub fn label(self) -> (text: &'static str)
        ensures
            text@ == self.name(),
    {
        match self {
            AuthOutcome::Unlocked => "unlocked",
            AuthOutcome::Wrong => "wrong",
            AuthOutcome::MaxTries => "max_tries",
            AuthOutcome::Error => "error",
        }
    }
}

/// How far an attempt came.
#[derive(Clone, Copy, PartialEq, Eq, Structural, Debug)]
pub enum AuthStage {
    Context,
    Authenticate,
}

impl AuthStage {
    pub open spec fn name(self) -> Seq<char> {
        match self {
            AuthStage::Context => "context"@,
            AuthStage::Authenticate => "authenticate"@,
        }
    }

    /// The name of the stage in the diagnostics.
    pub fn label(self) -> (text: &'static str)
        ensures
            text@ == self.name(),
    {
        match self {
            AuthStage::Context => "context",
            AuthStage::Authenticate => "authenticate",
        }
    }
}

/// An error code of PAM.
#[derive(Clone, Copy, PartialEq, Eq, Structural, Debug)]
pub enum PamCode {
    OpenErr,
    SymbolErr,
    ServiceErr,
    SystemErr,
    BufErr,
    PermDenied,
    AuthErr,
    CredInsufficient,
    AuthInfoUnavail,
    UserUnknown,
    MaxTries,
    NewAuthtokReqd,
    AcctExpired,
    SessionErr,
    CredUnavail,
    CredExpired,
    CredErr,
    ConvErr,
    AuthtokErr,
    AuthtokRecoveryErr,
    AuthtokLockBusy,
    AuthtokDisableAging,
    Abort,
    AuthtokExpired,
    ModuleUnknown,
    BadItem,
    ConvAgain,
    Incomplete,
}

impl PamCode {
    /// PAM's symbolic name of the code.
    pub open spec fn name(self) -> Seq<char> {
        match self {
            PamCode::OpenErr => "OPEN_ERR"@,
            PamCode::SymbolErr => "SYMBOL_ERR"@,
            PamCode::ServiceErr => "SERVICE_ERR"@,
            PamCode::SystemErr => "SYSTEM_ERR"@,
            PamCode::BufErr => "BUF_ERR"@,
            PamCode::PermDenied => "PERM_DENIED"@,
            PamCode::AuthErr => "AUTH_ERR"@,
            PamCode::CredInsufficient => "CRED_INSUFFICIENT"@,
            PamCode::AuthInfoUnavail => "AUTHINFO_UNAVAIL"@,
            PamCode::UserUnknown => "USER_UNKNOWN"@,
            PamCode::MaxTries => "MAXTRIES"@,
            PamCode::NewAuthtokReqd => "NEW_AUTHTOK_REQD"@,
            PamCode::AcctExpired => "ACCT_EXPIRED"@,
            PamCode::SessionErr => "SESSION_ERR"@,
            PamCode::CredUnavail => "CRED_UNAVAIL"@,
            PamCode::CredExpired => "CRED_EXPIRED"@,
            PamCode::CredErr => "CRED_ERR"@,
            PamCode::ConvErr => "CONV_ERR"@,
            PamCode::AuthtokErr => "AUTHTOK_ERR"@,
            PamCode::AuthtokRecoveryErr => "AUTHTOK_RECOVERY_ERR"@,
            PamCode::AuthtokLockBusy => "AUTHTOK_LOCK_BUSY"@,
            PamCode::AuthtokDisableAging => "AUTHTOK_DISABLE_AGING"@,
            PamCode::Abort => "ABORT"@,
            PamCode::AuthtokExpired => "AUTHTOK_EXPIRED"@,
            PamCode::ModuleUnknown => "MODULE_UNKNOWN"@,
            PamCode::BadItem => "BAD_ITEM"@,
            PamCode::ConvAgain => "CONV_AGAIN"@,
            PamCode::Incomplete => "INCOMPLETE"@,
        }
    }

    /// PAM's symbolic name of the code.
    pub fn label(self) -> (text: &'static str)
        ensures
            text@ == self.name(),
    {
        match self {
            PamCode::OpenErr => "OPEN_ERR",
            PamCode::SymbolErr => "SYMBOL_ERR",
            PamCode::ServiceErr => "SERVICE_ERR",
            PamCode::SystemErr => "SYSTEM_ERR",
            PamCode::BufErr => "BUF_ERR",
            PamCode::PermDenied => "PERM_DENIED",
            PamCode::AuthErr => "AUTH_ERR",
            PamCode::CredInsufficient => "CRED_INSUFFICIENT",
            PamCode::AuthInfoUnavail => "AUTHINFO_UNAVAIL",
            PamCode::UserUnknown => "USER_UNKNOWN",
            PamCode::MaxTries => "MAXTRIES",
            PamCode::NewAuthtokReqd => "NEW_AUTHTOK_REQD",
            PamCode::AcctExpired => "ACCT_EXPIRED",
            PamCode::SessionErr => "SESSION_ERR",
            PamCode::CredUnavail => "CRED_UNAVAIL",
            PamCode::CredExpired => "CRED_EXPIRED",
            PamCode::CredErr => "CRED_ERR",
            PamCode::ConvErr => "CONV_ERR",
            PamCode::AuthtokErr => "AUTHTOK_ERR",
            PamCode::AuthtokRecoveryErr => "AUTHTOK_RECOVERY_ERR",
            PamCode::AuthtokLockBusy => "AUTHTOK_LOCK_BUSY",
            PamCode::AuthtokDisableAging => "AUTHTOK_DISABLE_AGING",
            PamCode::Abort => "ABORT",
            PamCode::AuthtokExpired => "AUTHTOK_EXPIRED",
            PamCode::ModuleUnknown => "MODULE_UNKNOWN",
            PamCode::BadItem => "BAD_ITEM",
            PamCode::ConvAgain => "CONV_AGAIN",
            PamCode::Incomplete => "INCOMPLETE",
        }
    }
}

/// What PAM answered to one attempt.
#[derive(Clone, Copy, PartialEq, Eq, Structural, Debug)]
pub enum PamReply {
    /// The context could not be set up: the service is missing, or its start failed.
    NoContext(PamCode),
    /// The authentication phase succeeded.
    Accepted,
    /// The authentication phase failed.
    Rejected(PamCode),
}

/// The verdict with what led to it.
#[derive(Clone, Copy, PartialEq, Eq, Structural, Debug)]
pub struct Verdict {
    pub outcome: AuthOutcome,
    pub stage: AuthStage,
    pub code: Option<PamCode>,
}

/// The verdict that an error of the authentication phase stands for: a code that says that the
/// credential is not good is `Wrong`, the end of the tries is `MaxTries`, anything else `Error`.
pub open spec fn outcome_of(code: PamCode) -> AuthOutcome {
    if code == PamCode::MaxTries {
        AuthOutcome::MaxTries
    } else if code == PamCode::AuthErr || code == PamCode::UserUnknown || code
        == PamCode::CredInsufficient || code == PamCode::AuthInfoUnavail {
        AuthOutcome::Wrong
    } else {
        AuthOutcome::Error
    }
}

/// The verdict on what PAM answered.
pub open spec fn verdict_of(reply: PamReply) -> Verdict {
    match reply {
        PamReply::NoContext(code) => Verdict {
            outcome: AuthOutcome::Error,
            stage: AuthStage::Context,
            code: Some(code),
        },
        PamReply::Accepted => Verdict {
            outcome: AuthOutcome::Unlocked,
            stage: AuthStage::Authenticate,
            code: None,
        },
        PamReply::Rejected(code) => Verdict {
            outcome: outcome_of(code),
            stage: AuthStage::Authenticate,
            code: Some(code),
        },
    }
}

/// Judges what PAM answered. Only the authentication phase counts: a screen locker re-opens a
/// session that is already valid, so the account phase is not asked.
pub fn verdict(reply: PamReply) -> (verdict: Verdict)
    ensures
        verdict == verdict_of(reply),
{
    match reply {
        PamReply::NoContext(code) => Verdict {
            outcome: AuthOutcome::Error,
            stage: AuthStage::Context,
            code: Some(code),
        },
        PamReply::Accepted => Verdict {
            outcome: AuthOutcome::Unlocked,
            stage: AuthStage::Authenticate,
            code: None,
        },
        PamReply::Rejected(code) => {
            let outcome = match code {
                PamCode::MaxTries => AuthOutcome::MaxTries,
                PamCode::AuthErr
                | PamCode::UserUnknown
                | PamCode::CredInsufficient
                | PamCode::AuthInfoUnavail => AuthOutcome::Wrong,
                _ => AuthOutcome::Error,
            };
            Verdict { outcome, stage: AuthStage::Authenticate, code: Some(code) }
        },
    }
}

/// Only a success of PAM's authentication phase unlocks. A missing or unknown service is a failure
/// like any other, and is told apart from a wrong password.
pub proof fn lemma_fail_closed(reply: PamReply)
    ensures
        verdict_of(reply).outcome == AuthOutcome::Unlocked <==> reply == PamReply::Accepted,
        reply is NoContext ==> verdict_of(reply).outcome == AuthOutcome::Error,
        reply is NoContext <==> verdict_of(reply).stage == AuthStage::Context,
{
}

/// The name of a code in the diagnostics; `SUCCESS` where there is none.
pub open spec fn code_name(code: Option<PamCode>) -> Seq<char> {
    match code {
        Some(code) => code.name(),
        None => "SUCCESS"@,
    }
}

/// The name of a code in the diagnostics; `SUCCESS` where there is none.
pub fn code_label(code: Option<PamCode>) -> (text: &'static str)
    ensures
        text@ == code_name(code),
{
    match code {
        Some(code) => code.label(),
        None => "SUCCESS",
    }
}

/// The line that reports one check of a PAM service.
pub open spec fn check_line(service: Seq<char>, verdict: Verdict) -> Seq<char> {
    "nixlock[diag]: service="@ + debug_text(service) + " outcome="@ + verdict.outcome.name()
        + " stage="@ + verdict.stage.name() + " code="@ + code_name(verdict.code)
}

/// The line that reports one check of a PAM service: the service, the verdict, the stage and the
/// symbolic code, and nothing of the credential.
pub fn emit_auth_diagnostic(service: &str, verdict: Verdict) -> (line: String)
    ensures
        line@ == check_line(service@, verdict),
{
    let mut line = "nixlock[diag]: service=".to_owned();
    line.append(quoted(service).as_str());
    line.append(" outcome=");
    line.append(verdict.outcome.label());
    line.append(" stage=");
    line.append(verdict.stage.label());
    line.append(" code=");
    line.append(code_label(verdict.code));
    line
}

/// The one-shot check of a PAM service: the same verdict as that of the live lock, as one line.
pub fn diagnose(service: &str, reply: PamReply) -> (line: String)
    ensures
        line@ == check_line(service@, verdict_of(reply)),
{
    emit_auth_diagnostic(service, verdict(reply))
}

/// One attempt on its way to PAM.
pub struct AuthAttempt {
    pub id: u64,
    pub password: Secret,
}

/// The verdict on its way back.
#[derive(Clone, Copy, PartialEq, Eq, Structural, Debug)]
pub struct AuthResult {
    pub id: u64,
    pub outcome: AuthOutcome,
}

/// What PAM asks for in a conversation.
#[derive(Clone, Copy, PartialEq, Eq, Structural, Debug)]
pub enum Prompt {
    /// The normal password prompt: the answer is not echoed.
    EchoOff,
    /// A prompt whose answer would be echoed.
    EchoOn,
    /// A message.
    TextInfo,
    /// An error message.
    ErrorMsg,
    /// A yes-or-no question.
    Radio,
    /// A binary exchange.
    Binary,
}

/// How a prompt is answered.
#[derive(Clone, Copy, PartialEq, Eq, Structural, Debug)]
pub enum Answer {
    /// With the password.
    Password,
    /// Not at all: the message is ignored.
    Nothing,
    /// With a conversation error.
    Refused,
}

/// A prompt for a text is answered with the password, as long as that can be handed to PAM as a
/// C string; messages are ignored; a question that a password check does not ask is refused.
pub open spec fn answer_to(prompt: Prompt, password: Seq<char>) -> Answer {
    match prompt {
        Prompt::EchoOff | Prompt::EchoOn => if password.contains('\0') {
            Answer::Refused
        } else {
            Answer::Password
        },
        Prompt::TextInfo | Prompt::ErrorMsg => Answer::Nothing,
        Prompt::Radio | Prompt::Binary => Answer::Refused,
    }
}

/// Decides how a prompt is answered.
pub fn answer(prompt: Prompt, password: &Secret) -> (answer: Answer)
    ensures
        answer == answer_to(prompt, password@),
{
    match prompt {
        Prompt::EchoOff | Prompt::EchoOn => if password.contains('\0') {
            Answer::Refused
        } else {
            Answer::Password
        },
        Prompt::TextInfo | Prompt::ErrorMsg => Answer::Nothing,
        Prompt::Radio | Prompt::Binary => Answer::Refused,
    }
}

/// The worker that runs the attempts one after the other.
pub struct AuthWorker {
    pub service: String,
    pub user: String,
    pub diagnostics: Diagnostics,
}

/// What the worker does when PAM has answered.
pub struct WorkerStep {
    /// To be logged first.
    pub log: Option<String>,
    /// To be sent to the event loop.
    pub result: AuthResult,
    /// Whether the worker is done: the session is being unlocked, no attempt follows.
    pub done: bool,
}

impl AuthWorker {
    /// An attempt begins: the line to log.
    pub fn started(&self, id: u64) -> (log: Option<String>)
        ensures
            text_of(log) == self.diagnostics.pam_started_line(id, self.service@, self.user@),
    {
        self.diagnostics.pam_started(id, self.service.as_str(), self.user.as_str())
    }

    /// PAM has answered an attempt.
    pub fn finished(&self, id: u64, reply: PamReply, elapsed_ms: u128) -> (step: WorkerStep)
        ensures
            text_of(step.log) == self.diagnostics.pam_finished_line(
                id,
                verdict_of(reply),
                elapsed_ms,
            ),
            step.result == (AuthResult { id, outcome: verdict_of(reply).outcome }),
            step.done == (verdict_of(reply).outcome == AuthOutcome::Unlocked),
    {
        let judged = verdict(reply);
        let log = self.diagnostics.pam_finished(
            id,
            judged.outcome,
            judged.stage,
            judged.code,
            elapsed_ms,
        );
        let done = match judged.outcome {
            AuthOutcome::Unlocked => true,
            _ => false,
        };
        WorkerStep { log, result: AuthResult { id, outcome: judged.outcome }, done }
    }
}

/// Every prompt for a text, echoed or not, is answered with the password, whatever that is and however
/// long it is, as long as it holds no NUL; with one it cannot be a C string and is refused.
/// Messages are ignored, and a question is refused whatever the password is.
pub proof fn lemma_every_usable_password_is_handed_over(password: Seq<char>)
    ensures
        (forall|i: int| 0 <= i < password.len() ==> #[trigger] password[i] != '\0') ==> {
            &&& answer_to(Prompt::EchoOff, password) == Answer::Password
            &&& answer_to(Prompt::EchoOn, password) == Answer::Password
        },
        (exists|i: int| 0 <= i < password.len() && #[trigger] password[i] == '\0') ==> {
            &&& answer_to(Prompt::EchoOff, password) == Answer::Refused
            &&& answer_to(Prompt::EchoOn, password) == Answer::Refused
        },
        answer_to(Prompt::TextInfo, password) == Answer::Nothing,
        answer_to(Prompt::ErrorMsg, password) == Answer::Nothing,
        answer_to(Prompt::Radio, password) == Answer::Refused,
        answer_to(Prompt::Binary, password) == Answer::Refused,
{
    if exists|i: int| 0 <= i < password.len() && #[trigger] password[i] == '\0' {
        assert(password.contains('\0'));
    }
}

/// The judgement on every reply: only an acceptance unlocks. A rejection for the end of the tries is
/// told apart; one that says that the credential, the user or the lookup of either is no good is a
/// wrong password; everything else is an error. What could not even be started is an error of the
/// first stage. The code of a failure is kept.
pub proof fn lemma_replies_are_judged(code: PamCode)
    ensures
        ({
            let accepted = verdict_of(PamReply::Accepted);
            &&& accepted.outcome == AuthOutcome::Unlocked
            &&& accepted.stage == AuthStage::Authenticate
            &&& accepted.code is None
        }),
        ({
            let broken = verdict_of(PamReply::NoContext(code));
            &&& broken.outcome == AuthOutcome::Error
            &&& broken.stage == AuthStage::Context
            &&& broken.code == Some(code)
        }),
        ({
            let rejected = verdict_of(PamReply::Rejected(code));
            &&& rejected.stage == AuthStage::Authenticate
            &&& rejected.code == Some(code)
            &&& rejected.outcome != AuthOutcome::Unlocked
            &&& rejected.outcome == AuthOutcome::MaxTries <==> code is MaxTries
            &&& rejected.outcome == AuthOutcome::Wrong <==> code is AuthErr || code is UserUnknown
                || code is CredInsufficient || code is AuthInfoUnavail
        }),
{
}

} // verus!
