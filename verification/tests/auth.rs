use nixlock::auth::{
    answer, code_label, diagnose, emit_auth_diagnostic, verdict, Answer, AuthOutcome, AuthStage,
    AuthWorker, PamCode, PamReply, Prompt, Verdict,
};
use nixlock::check_auth;
use nixlock::diagnostics::Diagnostics;
use nixlock::secret::Secret;

const CODES: [(PamCode, &str); 28] = [
    (PamCode::OpenErr, "OPEN_ERR"),
    (PamCode::SymbolErr, "SYMBOL_ERR"),
    (PamCode::ServiceErr, "SERVICE_ERR"),
    (PamCode::SystemErr, "SYSTEM_ERR"),
    (PamCode::BufErr, "BUF_ERR"),
    (PamCode::PermDenied, "PERM_DENIED"),
    (PamCode::AuthErr, "AUTH_ERR"),
    (PamCode::CredInsufficient, "CRED_INSUFFICIENT"),
    (PamCode::AuthInfoUnavail, "AUTHINFO_UNAVAIL"),
    (PamCode::UserUnknown, "USER_UNKNOWN"),
    (PamCode::MaxTries, "MAXTRIES"),
    (PamCode::NewAuthtokReqd, "NEW_AUTHTOK_REQD"),
    (PamCode::AcctExpired, "ACCT_EXPIRED"),
    (PamCode::SessionErr, "SESSION_ERR"),
    (PamCode::CredUnavail, "CRED_UNAVAIL"),
    (PamCode::CredExpired, "CRED_EXPIRED"),
    (PamCode::CredErr, "CRED_ERR"),
    (PamCode::ConvErr, "CONV_ERR"),
    (PamCode::AuthtokErr, "AUTHTOK_ERR"),
    (PamCode::AuthtokRecoveryErr, "AUTHTOK_RECOVERY_ERR"),
    (PamCode::AuthtokLockBusy, "AUTHTOK_LOCK_BUSY"),
    (PamCode::AuthtokDisableAging, "AUTHTOK_DISABLE_AGING"),
    (PamCode::Abort, "ABORT"),
    (PamCode::AuthtokExpired, "AUTHTOK_EXPIRED"),
    (PamCode::ModuleUnknown, "MODULE_UNKNOWN"),
    (PamCode::BadItem, "BAD_ITEM"),
    (PamCode::ConvAgain, "CONV_AGAIN"),
    (PamCode::Incomplete, "INCOMPLETE"),
];

fn replies() -> Vec<PamReply> {
    let mut all = vec![PamReply::Accepted];
    for (code, _) in CODES {
        all.push(PamReply::NoContext(code));
        all.push(PamReply::Rejected(code));
    }
    all
}

#[test]
fn auth_outcomes_have_stable_credential_blind_labels() {
    assert_eq!(AuthOutcome::Unlocked.label(), "unlocked");
    assert_eq!(AuthOutcome::Wrong.label(), "wrong");
    assert_eq!(AuthOutcome::MaxTries.label(), "max_tries");
    assert_eq!(AuthOutcome::Error.label(), "error");
}

#[test]
fn check_auth_cannot_log_credential_metadata() {
    // The line is made of the service and the reply alone; no credential reaches it.
    for reply in replies() {
        let line = check_auth("nixlock", reply);
        for forbidden in ["password", ".len(", "pw_len"] {
            assert!(
                !line.contains(forbidden),
                "check-auth can expose credential metadata through `{forbidden}`"
            );
        }
        let judged = verdict(reply);
        assert_eq!(
            line,
            format!(
                "nixlock[diag]: service=\"nixlock\" outcome={} stage={} code={}",
                judged.outcome.label(),
                judged.stage.label(),
                code_label(judged.code)
            )
        );
    }
}

#[test]
fn check_auth_reuses_the_live_authentication_primitive() {
    let worker = AuthWorker {
        service: "nixlock".into(),
        user: "mara".into(),
        diagnostics: Diagnostics::new(false, 1),
    };
    for reply in replies() {
        let live = worker.finished(1, reply, 0).result.outcome;
        assert_eq!(diagnose("nixlock", reply), emit_auth_diagnostic("nixlock", verdict(reply)));
        assert!(diagnose("nixlock", reply).contains(&format!("outcome={} ", live.label())));
    }
}

#[test]
fn every_code_has_its_pam_name() {
    for (code, name) in CODES {
        assert_eq!(code.label(), name);
        assert_eq!(code_label(Some(code)), name);
    }
    assert_eq!(code_label(None), "SUCCESS");
}

#[test]
fn only_an_accepted_reply_unlocks() {
    for reply in replies() {
        let judged = verdict(reply);
        assert_eq!(judged.outcome == AuthOutcome::Unlocked, reply == PamReply::Accepted);
    }
    assert_eq!(
        verdict(PamReply::Accepted),
        Verdict { outcome: AuthOutcome::Unlocked, stage: AuthStage::Authenticate, code: None }
    );
    assert_eq!(
        verdict(PamReply::Rejected(PamCode::AuthErr)),
        Verdict {
            outcome: AuthOutcome::Wrong,
            stage: AuthStage::Authenticate,
            code: Some(PamCode::AuthErr),
        }
    );
    assert_eq!(
        verdict(PamReply::Rejected(PamCode::MaxTries)).outcome,
        AuthOutcome::MaxTries
    );
    assert_eq!(
        verdict(PamReply::NoContext(PamCode::SystemErr)),
        Verdict {
            outcome: AuthOutcome::Error,
            stage: AuthStage::Context,
            code: Some(PamCode::SystemErr),
        }
    );
}

#[test]
fn the_check_names_the_service_in_quotes() {
    assert_eq!(
        check_auth("no \"such\"\tservice", PamReply::NoContext(PamCode::ServiceErr)),
        "nixlock[diag]: service=\"no \\\"such\\\"\\tservice\" outcome=error stage=context code=SERVICE_ERR"
    );
}

#[test]
fn prompts_for_a_text_are_answered_and_questions_are_refused() {
    let password = Secret::from_text("correct horse".into());
    assert_eq!(answer(Prompt::EchoOff, &password), Answer::Password);
    assert_eq!(answer(Prompt::EchoOn, &password), Answer::Password);
    assert_eq!(answer(Prompt::TextInfo, &password), Answer::Nothing);
    assert_eq!(answer(Prompt::ErrorMsg, &password), Answer::Nothing);
    assert_eq!(answer(Prompt::Radio, &password), Answer::Refused);
    assert_eq!(answer(Prompt::Binary, &password), Answer::Refused);

    let unusable = Secret::from_text("a\0b".into());
    assert_eq!(answer(Prompt::EchoOff, &unusable), Answer::Refused);
    assert_eq!(answer(Prompt::EchoOn, &unusable), Answer::Refused);
}

#[test]
fn the_worker_reports_each_attempt_and_stops_after_a_success() {
    let worker = AuthWorker {
        service: "nixlock".into(),
        user: "mara".into(),
        diagnostics: Diagnostics::new(true, 9),
    };
    assert_eq!(
        worker.started(3).unwrap(),
        "nixlock[debug]: instance=9 event=pam_started attempt=3 service=\"nixlock\" user=\"mara\""
    );
    let step = worker.finished(3, PamReply::Rejected(PamCode::AuthErr), 1200);
    assert_eq!(
        step.log.unwrap(),
        "nixlock[debug]: instance=9 event=pam_finished attempt=3 outcome=wrong stage=authenticate code=AUTH_ERR elapsed_ms=1200"
    );
    assert_eq!((step.result.id, step.result.outcome), (3, AuthOutcome::Wrong));
    assert!(!step.done);
    let step = worker.finished(4, PamReply::Accepted, 7);
    assert_eq!(
        step.log.unwrap(),
        "nixlock[debug]: instance=9 event=pam_finished attempt=4 outcome=unlocked stage=authenticate code=SUCCESS elapsed_ms=7"
    );
    assert!(step.done);
}
