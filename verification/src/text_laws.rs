//! What the rendered texts say: numbers can be read back, and every line carries its values.

use vstd::prelude::*;
use vstd::string::*;

use crate::auth::{check_line, AuthOutcome, AuthStage, PamCode, Verdict};
use crate::content::OutputRole;
use crate::diagnostics::Diagnostics;
use crate::secret::without_line_end;
use crate::text::{debug_items, debug_text, dec, signed, text_of, texts_of, two_digits};

verus! {

/// Whether a text is made of decimal digits.
pub open spec fn all_digits(text: Seq<char>) -> bool {
    forall|i: int| 0 <= i < text.len() ==> 0x30 <= (#[trigger] text[i]) as int <= 0x39
}

/// The number that a text of decimal digits stands for.
pub open spec fn value_of(text: Seq<char>) -> int
    decreases text.len(),
{
    if text.len() == 0 {
        0
    } else {
        10 * value_of(text.drop_last()) + (text.last() as int - 0x30)
    }
}

/// A number in decimal is made of digits, has no leading zero but for zero itself, and stands for
/// that number.
pub proof fn lemma_decimal_stands_for_its_number(n: nat)
    ensures
        dec(n).len() > 0,
        all_digits(dec(n)),
        dec(n).len() > 1 ==> dec(n)[0] != '0',
        value_of(dec(n)) == n,
    decreases n,
{
    if n < 10 {
        assert(dec(n).drop_last() == Seq::<char>::empty());
        assert(value_of(Seq::<char>::empty()) == 0);
    } else {
        lemma_decimal_stands_for_its_number(n / 10);
        assert(dec(n).drop_last() == dec(n / 10));
        if dec(n / 10).len() == 1 {
            assert(dec(n / 10).drop_last() == Seq::<char>::empty());
            assert(value_of(Seq::<char>::empty()) == 0);
            assert(value_of(dec(n / 10)) == dec(n / 10)[0] as int - 0x30);
        }
    }
}

/// Different numbers look different.
pub proof fn lemma_decimals_tell_numbers_apart(a: nat, b: nat)
    requires
        dec(a) == dec(b),
    ensures
        a == b,
{
    lemma_decimal_stands_for_its_number(a);
    lemma_decimal_stands_for_its_number(b);
}

/// A signed number is the number without its sign, after a minus exactly when it is negative.
pub proof fn lemma_signed_stands_for_its_number(n: int)
    ensures
        n >= 0 ==> all_digits(signed(n)) && value_of(signed(n)) == n,
        n < 0 ==> signed(n).len() > 1 && signed(n)[0] == '-' && all_digits(signed(n).skip(1))
            && value_of(signed(n).skip(1)) == -n,
{
    reveal_strlit("-");
    if n < 0 {
        lemma_decimal_stands_for_its_number((-n) as nat);
        assert(signed(n).skip(1) == dec((-n) as nat));
    } else {
        lemma_decimal_stands_for_its_number(n as nat);
    }
}

/// With two digits a number below a hundred takes exactly two places: its tens and its ones.
pub proof fn lemma_two_digits(n: nat)
    requires
        n < 100,
    ensures
        two_digits(n).len() == 2,
        two_digits(n)[0] as int == 0x30 + n / 10,
        two_digits(n)[1] as int == 0x30 + n % 10,
{
    reveal_strlit("0");
    reveal_with_fuel(dec, 2);
}

/// A list of texts holds each of them in quotes, with a comma and a space between two.
pub proof fn lemma_lists_join_their_items(list: Seq<Seq<char>>, item: Seq<char>)
    ensures
        debug_items(Seq::<Seq<char>>::empty()).len() == 0,
        debug_items(seq![item]) == debug_text(item),
        list.len() > 0 ==> debug_items(list.push(item)) == debug_items(list) + ", "@ + debug_text(
            item,
        ),
{
    reveal_strlit("");
    assert(list.push(item).drop_last() == list);
}

/// Trimming takes line feeds and carriage returns off the end and nothing else: what is left is the
/// beginning of the text, does not end in one of them, and only they were taken.
pub proof fn lemma_only_line_ends_are_trimmed(text: Seq<char>)
    ensures
        ({
            let left = without_line_end(text);
            &&& left.len() <= text.len()
            &&& left == text.take(left.len() as int)
            &&& left.len() > 0 ==> left.last() != '\n' && left.last() != '\r'
            &&& forall|i: int|
                left.len() <= i < text.len() ==> #[trigger] text[i] == '\n' || text[i] == '\r'
        }),
    decreases text.len(),
{
    if text.len() > 0 && (text.last() == '\n' || text.last() == '\r') {
        let before = text.drop_last();
        lemma_only_line_ends_are_trimmed(before);
        let left = without_line_end(text);
        assert(text.take(left.len() as int) == before.take(left.len() as int));
        assert forall|i: int| left.len() <= i < text.len() implies #[trigger] text[i] == '\n'
            || text[i] == '\r' by {
            if i < before.len() {
                assert(before[i] == text[i]);
            }
        }
    } else {
        assert(text.take(text.len() as int) == text);
    }
}

/// Whether a debug line is printed exactly while diagnostics are on, and is then the one with the
/// process number and these fields.
pub open spec fn is_debug_line(
    line: Option<Seq<char>>,
    diagnostics: Diagnostics,
    fields: Seq<char>,
) -> bool {
    &&& line is Some <==> diagnostics.enabled
    &&& line is Some ==> line->0 == "nixlock[debug]: instance="@ + dec(diagnostics.instance as nat)
        + " "@ + fields
}

/// The name of an outcome in the log.
pub open spec fn outcome_word(outcome: AuthOutcome) -> Seq<char> {
    match outcome {
        AuthOutcome::Unlocked => "unlocked"@,
        AuthOutcome::Wrong => "wrong"@,
        AuthOutcome::MaxTries => "max_tries"@,
        AuthOutcome::Error => "error"@,
    }
}

/// The name of a stage in the log.
pub open spec fn stage_word(stage: AuthStage) -> Seq<char> {
    match stage {
        AuthStage::Context => "context"@,
        AuthStage::Authenticate => "authenticate"@,
    }
}

/// The name of a role in the log.
pub open spec fn role_word(role: OutputRole) -> Seq<char> {
    match role {
        OutputRole::Kiosk => "Kiosk"@,
        OutputRole::Session => "Session"@,
    }
}

/// The debug lines of a run's start and of its outputs carry their values.
pub proof fn lemma_debug_lines_of_outputs(
    d: Diagnostics,
    output: Seq<char>,
    role: OutputRole,
    reason: Seq<char>,
    scale: u32,
)
    ensures
        is_debug_line(d.startup_line(), d, "event=start"@),
        is_debug_line(d.wayland_connected_line(), d, "event=wayland_connected"@),
        is_debug_line(
            d.output_surface_added_line(output, role, reason),
            d,
            "event=output_surface_added output="@ + debug_text(output) + " role="@ + role_word(role)
                + " reason="@ + reason,
        ),
        is_debug_line(
            d.output_surface_updated_line(output, role, scale),
            d,
            "event=output_surface_updated output="@ + debug_text(output) + " role="@ + role_word(
                role,
            ) + " scale="@ + dec(scale as nat),
        ),
        is_debug_line(
            d.output_surface_removed_line(output, role),
            d,
            "event=output_surface_removed output="@ + debug_text(output) + " role="@ + role_word(
                role,
            ),
        ),
{
}

/// The debug lines of an attempt carry its number, what PAM was asked for and what it answered.
pub proof fn lemma_debug_lines_of_attempts(
    d: Diagnostics,
    attempt: u64,
    service: Seq<char>,
    user: Seq<char>,
    verdict: Verdict,
    elapsed_ms: u128,
    reason: Seq<char>,
)
    ensures
        is_debug_line(
            d.pam_started_line(attempt, service, user),
            d,
            "event=pam_started attempt="@ + dec(attempt as nat) + " service="@ + debug_text(service)
                + " user="@ + debug_text(user),
        ),
        is_debug_line(
            d.pam_finished_line(attempt, verdict, elapsed_ms),
            d,
            "event=pam_finished attempt="@ + dec(attempt as nat) + " outcome="@ + outcome_word(
                verdict.outcome,
            ) + " stage="@ + stage_word(verdict.stage) + " code="@ + (match verdict.code {
                Some(code) => code.name(),
                None => "SUCCESS"@,
            }) + " elapsed_ms="@ + dec(elapsed_ms as nat),
        ),
        is_debug_line(
            d.submit_ignored_line(reason),
            d,
            "event=auth_submit_ignored reason="@ + reason,
        ),
{
}

/// The line of a check names the service, the outcome, the stage and the code.
pub proof fn lemma_check_line_names_the_service(service: Seq<char>, verdict: Verdict)
    ensures
        check_line(service, verdict) == "nixlock[diag]: service="@ + debug_text(service)
            + " outcome="@ + outcome_word(verdict.outcome) + " stage="@ + stage_word(verdict.stage)
            + " code="@ + (match verdict.code {
            Some(code) => code.name(),
            None => "SUCCESS"@,
        }),
{
}

/// No two codes of PAM have the same name.
pub proof fn lemma_codes_have_names_of_their_own(one: PamCode, other: PamCode)
    requires
        one.name() == other.name(),
    ensures
        one == other,
{
    reveal_strlit("OPEN_ERR");
    reveal_strlit("SYMBOL_ERR");
    reveal_strlit("SERVICE_ERR");
    reveal_strlit("SYSTEM_ERR");
    reveal_strlit("BUF_ERR");
    reveal_strlit("PERM_DENIED");
    reveal_strlit("AUTH_ERR");
    reveal_strlit("CRED_INSUFFICIENT");
    reveal_strlit("AUTHINFO_UNAVAIL");
    reveal_strlit("USER_UNKNOWN");
    reveal_strlit("MAXTRIES");
    reveal_strlit("NEW_AUTHTOK_REQD");
    reveal_strlit("ACCT_EXPIRED");
    reveal_strlit("SESSION_ERR");
    reveal_strlit("CRED_UNAVAIL");
    reveal_strlit("CRED_EXPIRED");
    reveal_strlit("CRED_ERR");
    reveal_strlit("CONV_ERR");
    reveal_strlit("AUTHTOK_ERR");
    reveal_strlit("AUTHTOK_RECOVERY_ERR");
    reveal_strlit("AUTHTOK_LOCK_BUSY");
    reveal_strlit("AUTHTOK_DISABLE_AGING");
    reveal_strlit("ABORT");
    reveal_strlit("AUTHTOK_EXPIRED");
    reveal_strlit("MODULE_UNKNOWN");
    reveal_strlit("BAD_ITEM");
    reveal_strlit("CONV_AGAIN");
    reveal_strlit("INCOMPLETE");
    let (a, b) = (one.name(), other.name());
    assert(a.len() == b.len() && a[0] == b[0] && a[1] == b[1] && a[4] == b[4]);
    assert(a.len() > 5 ==> a[5] == b[5]);
    assert(a.len() > 6 ==> a[6] == b[6]);
    assert(a.len() > 7 ==> a[7] == b[7]);
    assert(a.len() > 8 ==> a[8] == b[8]);
}

/// What the contracts say of an optional text and of a list of texts is all of their characters.
pub proof fn lemma_texts_are_seen_whole(text: String, list: Seq<String>, i: int)
    ensures
        text_of(Some(text)) == Some(text@),
        text_of(None) is None,
        texts_of(list).len() == list.len(),
        0 <= i < list.len() ==> texts_of(list)[i] == list[i]@,
{
}

} // verus!
