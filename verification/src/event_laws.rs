//! What each event does, in terms of what goes into the locker and what comes out of it: what is
//! remembered afterwards, what is done, and which lines are printed.

use vstd::prelude::*;
use vstd::string::*;

use crate::auth::{AuthOutcome, AuthResult};
use crate::content::{AuthState, OutputRole};
use crate::diagnostics::Diagnostics;
use crate::locker::{
    creations, effects, entry_for, initial_locker, of_role, redraws, surface_order, Action, Effect,
    Entry, EntryView, Event, EventView, LockerView, OutputInfoView,
};
use crate::locker_laws::run;
use crate::text::{debug_text, dec};

verus! {

/// The lines that are printed among some effects, in their order.
pub open spec fn lines(done: Seq<Effect>) -> Seq<Seq<char>>
    decreases done.len(),
{
    if done.len() == 0 {
        Seq::empty()
    } else if done.last() is Log {
        lines(done.drop_last()).push(done.last()->Log_0)
    } else {
        lines(done.drop_last())
    }
}

/// What is done among some effects besides printing, in its order.
pub open spec fn deeds(done: Seq<Effect>) -> Seq<Effect>
    decreases done.len(),
{
    if done.len() == 0 {
        Seq::empty()
    } else if done.last() is Log {
        deeds(done.drop_last())
    } else {
        deeds(done.drop_last()).push(done.last())
    }
}

proof fn lemma_parts(a: Seq<Effect>, b: Seq<Effect>)
    ensures
        lines(a + b) == lines(a) + lines(b),
        deeds(a + b) == deeds(a) + deeds(b),
    decreases b.len(),
{
    if b.len() == 0 {
        assert(a + b == a);
    } else {
        lemma_parts(a, b.drop_last());
        assert((a + b).drop_last() == a + b.drop_last());
        assert((a + b).last() == b.last());
    }
}

proof fn lemma_part(effect: Effect)
    ensures
        lines(seq![effect]) == (if effect is Log {
            seq![effect->Log_0]
        } else {
            Seq::empty()
        }),
        deeds(seq![effect]) == (if effect is Log {
            Seq::empty()
        } else {
            seq![effect]
        }),
{
    assert(seq![effect].drop_last() == Seq::<Effect>::empty());
    assert(lines(Seq::<Effect>::empty()) == Seq::<Seq<char>>::empty());
    assert(deeds(Seq::<Effect>::empty()) == Seq::<Effect>::empty());
}

/// Every deed among some effects is one of them.
proof fn lemma_deeds_are_done(done: Seq<Effect>, k: int)
    requires
        0 <= k < deeds(done).len(),
    ensures
        done.contains(deeds(done)[k]),
    decreases done.len(),
{
    let before = done.drop_last();
    if k < deeds(before).len() {
        lemma_deeds_are_done(before, k);
        let i = choose|i: int| 0 <= i < before.len() && before[i] == deeds(before)[k];
        assert(done[i] == deeds(done)[k]);
    } else {
        assert(done.last() == deeds(done)[k]);
    }
}

/// The debug line with these fields: one while diagnostics are on, none while they are off.
pub open spec fn debug_line(diagnostics: Diagnostics, fields: Seq<char>) -> Seq<Seq<char>> {
    if diagnostics.enabled {
        seq!["nixlock[debug]: instance="@ + dec(diagnostics.instance as nat) + " "@ + fields]
    } else {
        Seq::empty()
    }
}

proof fn lemma_logged(line: Option<Seq<char>>)
    ensures
        lines(crate::locker::logged(line)) == (match line {
            Some(text) => seq![text],
            None => Seq::empty(),
        }),
        deeds(crate::locker::logged(line)) == Seq::<Effect>::empty(),
{
    if let Some(text) = line {
        lemma_part(Effect::Log(text));
    }
}

/// Whether exactly these surfaces are painted, each of them once, in the order of their numbers:
/// the lock screens, or with `kiosks` all of them.
pub open spec fn paints_exactly(done: Seq<Effect>, surfaces: Seq<EntryView>, kiosks: bool) -> bool {
    &&& forall|i: int|
        0 <= i < done.len() ==> #[trigger] done[i] is Redraw && done[i]->Redraw_0 < surfaces.len()
            && (kiosks || surfaces[done[i]->Redraw_0 as int].role == OutputRole::Session)
    &&& forall|s: int|
        0 <= s < surfaces.len() && (kiosks || (#[trigger] surfaces[s]).role == OutputRole::Session)
            ==> done.contains(Effect::Redraw(s as usize))
    &&& forall|i: int, j: int|
        0 <= i < j < done.len() ==> (#[trigger] done[i])->Redraw_0 < (#[trigger] done[j])->Redraw_0
}

proof fn lemma_redraws(surfaces: Seq<EntryView>, n: int, locks_only: bool)
    requires
        0 <= n <= surfaces.len() <= usize::MAX,
    ensures
        ({
            let done = redraws(surfaces, n, locks_only);
            &&& forall|i: int|
                0 <= i < done.len() ==> #[trigger] done[i] is Redraw && done[i]->Redraw_0 < n && (
                !locks_only || surfaces[done[i]->Redraw_0 as int].role == OutputRole::Session)
            &&& forall|s: int|
                0 <= s < n && (!locks_only || (#[trigger] surfaces[s]).role == OutputRole::Session)
                    ==> done.contains(Effect::Redraw(s as usize))
            &&& forall|i: int, j: int|
                0 <= i < j < done.len() ==> (#[trigger] done[i])->Redraw_0 < (
                #[trigger] done[j])->Redraw_0
            &&& deeds(done) == done
            &&& lines(done) == Seq::<Seq<char>>::empty()
        }),
    decreases n,
{
    if n > 0 {
        let done = redraws(surfaces, n, locks_only);
        let before = redraws(surfaces, n - 1, locks_only);
        lemma_redraws(surfaces, n - 1, locks_only);
        if done != before {
            assert(done == before.push(Effect::Redraw((n - 1) as usize)));
            assert(done.drop_last() == before);
        }
        assert forall|s: int|
            0 <= s < n && (!locks_only || (#[trigger] surfaces[s]).role
                == OutputRole::Session) implies done.contains(Effect::Redraw(s as usize)) by {
            if s == n - 1 {
                assert(done.last() == Effect::Redraw(s as usize));
            } else {
                let k = choose|k: int|
                    0 <= k < before.len() && before[k] == Effect::Redraw(s as usize);
                assert(done[k] == Effect::Redraw(s as usize));
            }
        }
    }
}

proof fn lemma_painting(state: LockerView)
    requires
        state.surfaces.len() <= usize::MAX,
    ensures
        paints_exactly(state.redraw_all(), state.surfaces, true),
        paints_exactly(state.redraw_locks(), state.surfaces, false),
        deeds(state.redraw_all()) == state.redraw_all(),
        deeds(state.redraw_locks()) == state.redraw_locks(),
        lines(state.redraw_all()) == Seq::<Seq<char>>::empty(),
        lines(state.redraw_locks()) == Seq::<Seq<char>>::empty(),
{
    lemma_redraws(state.surfaces, state.surfaces.len() as int, false);
    lemma_redraws(state.surfaces, state.surfaces.len() as int, true);
}

/// Whether input is refused: an attempt is in flight, or the backoff has not run out.
pub open spec fn closed_to_input(state: LockerView, now: u128) -> bool {
    state.verifying || (state.locked_until is Some && now < state.locked_until->0)
}

/// Whether a key is one of those that edit or submit instead of typing: return, the keypad's enter,
/// backspace and escape.
pub open spec fn is_editing(keysym: u32) -> bool {
    keysym == 0xff0d || keysym == 0xff8d || keysym == 0xff08 || keysym == 0xff1b
}

/// A key with a text types that text: the password becomes the old one followed by it, whatever
/// the old one is and however long the two are. The failure of the attempt before is no longer
/// shown, nothing else changes, and the lock screens are painted, and nothing is printed.
pub proof fn lemma_a_key_appends_its_text(
    state: LockerView,
    keysym: u32,
    text: Seq<char>,
    now: u128,
)
    requires
        state.surfaces.len() <= usize::MAX,
        !closed_to_input(state, now),
        !is_editing(keysym),
        text.len() > 0,
        forall|i: int|
            0 <= i < text.len() ==> 0x20 <= (#[trigger] text[i]) as u32 && !(0x7f <= text[i] as u32
                <= 0x9f),
    ensures
        ({
            let (next, done) = state.step(EventView::Key { keysym, utf8: Some(text) }, now);
            &&& next.password == state.password + text
            &&& next.password.len() == state.password.len() + text.len()
            &&& next == (LockerView { password: next.password, failed: false, ..state })
            &&& paints_exactly(done, state.surfaces, false)
        }),
{
    lemma_painting(state);
}

/// A key without a text, with an empty one or with a control character in it types nothing.
pub proof fn lemma_a_key_without_text_does_nothing(
    state: LockerView,
    keysym: u32,
    utf8: Option<Seq<char>>,
    now: u128,
)
    requires
        !is_editing(keysym),
        utf8 matches Some(text) ==> text.len() == 0 || exists|i: int|
            0 <= i < text.len() && ((#[trigger] text[i]) as u32 <= 0x1f || 0x7f <= text[i] as u32
                <= 0x9f),
    ensures
        state.step(EventView::Key { keysym, utf8 }, now) == (state, Seq::<Effect>::empty()),
{
    if let Some(text) = utf8 {
        if text.len() > 0 {
            let i = choose|i: int|
                0 <= i < text.len() && ((#[trigger] text[i]) as u32 <= 0x1f || 0x7f <= text[i] as u32
                    <= 0x9f);
            assert(crate::locker::is_control(text[i]));
        }
    }
}

/// While input is refused, no key does anything at all.
pub proof fn lemma_a_key_is_ignored_while_closed(
    state: LockerView,
    keysym: u32,
    utf8: Option<Seq<char>>,
    now: u128,
)
    requires
        closed_to_input(state, now),
    ensures
        state.step(EventView::Key { keysym, utf8 }, now) == (state, Seq::<Effect>::empty()),
{
}

/// Backspace takes exactly the last character, and escape takes all of them; either way the
/// failure before is no longer shown, nothing else changes, and the lock screens are painted.
pub proof fn lemma_editing_keys(state: LockerView, utf8: Option<Seq<char>>, now: u128)
    requires
        state.surfaces.len() <= usize::MAX,
        !closed_to_input(state, now),
    ensures
        ({
            let (next, done) = state.step(EventView::Key { keysym: 0xff08, utf8 }, now);
            &&& state.password.len() > 0 ==> next.password.push(state.password.last())
                == state.password
            &&& state.password.len() == 0 ==> next.password.len() == 0
            &&& next == (LockerView { password: next.password, failed: false, ..state })
            &&& paints_exactly(done, state.surfaces, false)
        }),
        ({
            let (next, done) = state.step(EventView::Key { keysym: 0xff1b, utf8 }, now);
            &&& next.password.len() == 0
            &&& next == (LockerView { password: next.password, failed: false, ..state })
            &&& paints_exactly(done, state.surfaces, false)
        }),
{
    lemma_painting(state);
}

/// Backspace undoes the typing of one character.
pub proof fn lemma_backspace_undoes_a_character(
    state: LockerView,
    keysym: u32,
    c: char,
    now: u128,
)
    requires
        !closed_to_input(state, now),
        !is_editing(keysym),
        0x20 <= c as u32 && !(0x7f <= c as u32 <= 0x9f),
    ensures
        ({
            let typed = state.step(EventView::Key { keysym, utf8: Some(seq![c]) }, now).0;
            typed.step(EventView::Key { keysym: 0xff08, utf8: None }, now).0.password
                == state.password
        }),
{
    let typed = state.step(EventView::Key { keysym, utf8: Some(seq![c]) }, now).0;
    assert(typed.password == state.password + seq![c]);
    assert(typed.password.drop_last() == state.password);
}

/// Return and the keypad's enter submit what was typed: exactly the typed password goes to the
/// worker, under the next number and once; nothing of it stays, the attempt is in flight, the lock
/// screens are painted first, and nothing else changes.
pub proof fn lemma_return_submits_the_password(
    state: LockerView,
    keysym: u32,
    utf8: Option<Seq<char>>,
    now: u128,
)
    requires
        state.surfaces.len() <= usize::MAX,
        !closed_to_input(state, now),
        keysym == 0xff0d || keysym == 0xff8d,
        state.password.len() > 0,
    ensures
        ({
            let (next, done) = state.step(EventView::Key { keysym, utf8 }, now);
            &&& deeds(done).len() > 0
            &&& deeds(done).last() == Effect::Send {
                id: state.next_attempt_id,
                password: state.password,
            }
            &&& paints_exactly(deeds(done).drop_last(), state.surfaces, false)
            &&& lines(done) == debug_line(
                state.diagnostics,
                "event=auth_submitted attempt="@ + dec(state.next_attempt_id as nat),
            )
            &&& next.password.len() == 0
            &&& next.verifying
            &&& state.next_attempt_id < u64::MAX ==> next.next_attempt_id == state.next_attempt_id
                + 1
            &&& state.next_attempt_id == u64::MAX ==> next.next_attempt_id == u64::MAX
            &&& next == (LockerView {
                password: next.password,
                verifying: true,
                failed: false,
                next_attempt_id: next.next_attempt_id,
                ..state
            })
        }),
{
    lemma_painting(state);
    let send = Effect::Send { id: state.next_attempt_id, password: state.password };
    let said = crate::locker::logged(state.diagnostics.auth_submitted_line(state.next_attempt_id));
    lemma_parts(state.redraw_locks() + said, seq![send]);
    lemma_parts(state.redraw_locks(), said);
    lemma_logged(state.diagnostics.auth_submitted_line(state.next_attempt_id));
    lemma_part(send);
    let done = state.step(EventView::Key { keysym, utf8 }, now).1;
    assert(deeds(done) == state.redraw_locks().push(send));
    assert(deeds(done).drop_last() == state.redraw_locks());
}

/// Submitting nothing does nothing but note it.
pub proof fn lemma_an_empty_submission_is_noted(
    state: LockerView,
    keysym: u32,
    utf8: Option<Seq<char>>,
    now: u128,
)
    requires
        !closed_to_input(state, now),
        keysym == 0xff0d || keysym == 0xff8d,
        state.password.len() == 0,
    ensures
        ({
            let (next, done) = state.step(EventView::Key { keysym, utf8 }, now);
            &&& next == state
            &&& deeds(done).len() == 0
            &&& lines(done) == debug_line(
                state.diagnostics,
                "event=auth_submit_ignored reason="@ + "empty_input"@,
            )
        }),
{
    lemma_logged(state.diagnostics.submit_ignored_line("empty_input"@));
}

/// The keys that type the characters of a text, one after the other, all at the same time.
pub open spec fn keys_for(text: Seq<char>, keysyms: Seq<u32>, now: u128) -> Seq<(EventView, u128)> {
    Seq::new(
        text.len(),
        |i: int| (EventView::Key { keysym: keysyms[i], utf8: Some(seq![text[i]]) }, now),
    )
}

/// Whatever is typed one key at a time, however much it is, is what return hands to the worker:
/// every character, in the order of the keys.
pub proof fn lemma_what_is_typed_is_what_is_sent(
    state: LockerView,
    text: Seq<char>,
    keysyms: Seq<u32>,
    now: u128,
)
    requires
        !closed_to_input(state, now),
        keysyms.len() == text.len(),
        forall|i: int| 0 <= i < text.len() ==> !is_editing(#[trigger] keysyms[i]),
        forall|i: int|
            0 <= i < text.len() ==> 0x20 <= (#[trigger] text[i]) as u32 && !(0x7f <= text[i] as u32
                <= 0x9f),
    ensures
        ({
            let typed = run(state, keys_for(text, keysyms, now));
            &&& typed.password == state.password + text
            &&& !closed_to_input(typed, now)
            &&& typed.next_attempt_id == state.next_attempt_id
            &&& typed.password.len() > 0 ==> typed.step(
                EventView::Key { keysym: 0xff0d, utf8: None },
                now,
            ).1.contains(
                Effect::Send { id: state.next_attempt_id, password: state.password + text },
            )
        }),
    decreases text.len(),
{
    let keys = keys_for(text, keysyms, now);
    let typed = run(state, keys);
    if text.len() == 0 {
        assert(state.password + text == state.password);
    } else {
        let n = text.len() - 1;
        lemma_what_is_typed_is_what_is_sent(state, text.take(n), keysyms.take(n), now);
        assert(keys.drop_last() == keys_for(text.take(n), keysyms.take(n), now));
        assert(!is_editing(keysyms[n]));
        assert(0x20 <= text[n] as u32 && !(0x7f <= text[n] as u32 <= 0x9f));
        let before = run(state, keys.drop_last());
        assert(keys.last() == (
            EventView::Key { keysym: keysyms[n], utf8: Some(seq![text[n]]) },
            now,
        ));
        assert(typed.password == before.password + seq![text[n]]);
        assert(text.take(n) + seq![text[n]] == text);
        assert(typed.password == state.password + text);
    }
    if typed.password.len() > 0 {
        let done = typed.step(EventView::Key { keysym: 0xff0d, utf8: None }, now).1;
        assert(done.last() == Effect::Send {
            id: state.next_attempt_id,
            password: state.password + text,
        });
    }
}

/// The caps lock is remembered as it is reported, and the lock screens are painted exactly when it
/// changed.
pub proof fn lemma_caps_lock_is_remembered(state: LockerView, on: bool, now: u128)
    requires
        state.surfaces.len() <= usize::MAX,
    ensures
        ({
            let (next, done) = state.step(EventView::CapsLock(on), now);
            &&& next == (LockerView { caps_lock: on, ..state })
            &&& on == state.caps_lock ==> done.len() == 0
            &&& on != state.caps_lock ==> paints_exactly(done, state.surfaces, false)
        }),
{
    lemma_painting(state);
}

/// What content learns: that an attempt is in flight, else that the last one failed, else how many
/// characters are typed; and the caps lock.
pub proof fn lemma_content_learns_the_shape(state: LockerView)
    requires
        state.password.len() <= usize::MAX,
    ensures
        state.auth_view().caps_lock == state.caps_lock,
        state.verifying ==> state.auth_view().state == AuthState::Verifying,
        !state.verifying && state.failed ==> state.auth_view().state == AuthState::Failed,
        !state.verifying && !state.failed ==> (state.auth_view().state matches AuthState::Idle(n)
            && n == state.password.len()),
{
}

/// An accepted password gives the lock back: the unlock is requested where the lock is held, the
/// request is flushed after it, and nothing else is done. The attempt is over.
pub proof fn lemma_acceptance_unlocks(state: LockerView, id: u64, now: u128)
    ensures
        ({
            let result = AuthResult { id, outcome: AuthOutcome::Unlocked };
            let (next, done) = state.step(EventView::AuthResult(result), now);
            &&& state.lock_held ==> deeds(done) == seq![Effect::Unlock, Effect::FlushUnlock(id)]
            &&& !state.lock_held ==> deeds(done) == seq![Effect::FlushUnlock(id)]
            &&& lines(done) == debug_line(
                state.diagnostics,
                "event=auth_result_received attempt="@ + dec(id as nat) + " outcome="@
                    + "unlocked"@,
            ) + debug_line(
                state.diagnostics,
                "event=unlock_requested attempt="@ + dec(id as nat),
            )
            &&& next == (LockerView { verifying: false, lock_held: false, ..state })
        }),
{
    let heard = crate::locker::logged(
        state.diagnostics.auth_result_received_line(id, AuthOutcome::Unlocked),
    );
    let asked = crate::locker::logged(state.diagnostics.unlock_requested_line(id));
    let unlock = if state.lock_held {
        seq![Effect::Unlock]
    } else {
        Seq::empty()
    };
    lemma_parts(heard + asked + unlock, seq![Effect::FlushUnlock(id)]);
    lemma_parts(heard + asked, unlock);
    lemma_parts(heard, asked);
    lemma_logged(state.diagnostics.auth_result_received_line(id, AuthOutcome::Unlocked));
    lemma_logged(state.diagnostics.unlock_requested_line(id));
    lemma_part(Effect::Unlock);
    lemma_part(Effect::FlushUnlock(id));
    let result = AuthResult { id, outcome: AuthOutcome::Unlocked };
    let done = state.step(EventView::AuthResult(result), now).1;
    assert(deeds(done) == unlock + seq![Effect::FlushUnlock(id)]);
}

/// A rejected password is forgotten and its failure is shown; one more rejection is counted, as far
/// as the count reaches, and input is refused for as many seconds as there were rejections, but
/// for no more than five. The lock screens are painted, and nothing else is done or changes.
pub proof fn lemma_rejection_backs_off(state: LockerView, result: AuthResult, now: u128)
    requires
        state.surfaces.len() <= usize::MAX,
        result.outcome != AuthOutcome::Unlocked,
        now <= u128::MAX - 5_000_000_000,
    ensures
        ({
            let (next, done) = state.step(EventView::AuthResult(result), now);
            let secs: int = if next.fail_count < 5 {
                next.fail_count as int
            } else {
                5
            };
            &&& state.fail_count < u32::MAX ==> next.fail_count == state.fail_count + 1
            &&& state.fail_count == u32::MAX ==> next.fail_count == u32::MAX
            &&& next.locked_until is Some
            &&& next.locked_until->0 == now + secs * 1_000_000_000
            &&& next.password.len() == 0
            &&& next == (LockerView {
                password: next.password,
                failed: true,
                verifying: false,
                fail_count: next.fail_count,
                locked_until: next.locked_until,
                ..state
            })
            &&& paints_exactly(deeds(done), state.surfaces, false)
            &&& lines(done) == debug_line(
                state.diagnostics,
                "event=auth_result_received attempt="@ + dec(result.id as nat) + " outcome="@ + (
                match result.outcome {
                    AuthOutcome::Wrong => "wrong"@,
                    AuthOutcome::MaxTries => "max_tries"@,
                    _ => "error"@,
                }),
            ) + debug_line(
                state.diagnostics,
                "event=auth_failed_ui attempt="@ + dec(result.id as nat) + " backoff_ms="@ + dec(
                    (secs * 1000) as nat,
                ),
            )
        }),
{
    lemma_painting(state);
    let (next, done) = state.step(EventView::AuthResult(result), now);
    let secs: int = if next.fail_count < 5 {
        next.fail_count as int
    } else {
        5
    };
    let first = state.diagnostics.auth_result_received_line(result.id, result.outcome);
    let second = state.diagnostics.auth_failed_ui_line(result.id, (secs * 1000) as u64);
    let heard = crate::locker::logged(first);
    let told = crate::locker::logged(second);
    lemma_parts(heard + told, state.redraw_locks());
    lemma_parts(heard, told);
    lemma_logged(first);
    lemma_logged(second);
    assert(done == heard + told + state.redraw_locks());
    assert(deeds(done) == state.redraw_locks());
}

/// An attempt that did not reach the worker is over and shows as failed; nothing else changes, no
/// backoff starts, and the lock screens are painted.
pub proof fn lemma_undelivered_attempt_fails(state: LockerView, attempt: u64, now: u128)
    requires
        state.surfaces.len() <= usize::MAX,
    ensures
        ({
            let (next, done) = state.step(EventView::DeliveryFailed(attempt), now);
            &&& next == (LockerView { verifying: false, failed: true, ..state })
            &&& paints_exactly(deeds(done), state.surfaces, false)
            &&& lines(done) == debug_line(
                state.diagnostics,
                "event=auth_delivery_failed attempt="@ + dec(attempt as nat)
                    + " reason=worker_unavailable"@,
            )
        }),
{
    lemma_painting(state);
    let line = state.diagnostics.auth_delivery_failed_line(attempt);
    lemma_parts(crate::locker::logged(line), state.redraw_locks());
    lemma_logged(line);
    assert(deeds(state.step(EventView::DeliveryFailed(attempt), now).1) == state.redraw_locks());
}

/// After the flush of the unlock request the process ends with success, whether the flush worked or
/// not; a failed one is reported.
pub proof fn lemma_flushed_unlock_ends_the_process(
    state: LockerView,
    attempt: u64,
    error: Option<Seq<char>>,
    now: u128,
)
    ensures
        ({
            let (next, done) = state.step(EventView::UnlockFlushed { attempt, error }, now);
            &&& next == state
            &&& deeds(done) == seq![Effect::Exit(0)]
            &&& lines(done) == debug_line(
                state.diagnostics,
                "event=unlock_flushed status="@ + (if error is None {
                    "ok"@
                } else {
                    "error"@
                }),
            ) + (match error {
                Some(cause) => seq!["nixlock: unlock flush failed: "@ + cause],
                None => Seq::empty(),
            }) + debug_line(
                state.diagnostics,
                "event=process_exit reason=authenticated attempt="@ + dec(attempt as nat),
            )
        }),
{
    let first = state.diagnostics.unlock_flushed_line(error is None);
    let last = state.diagnostics.authenticated_exit_line(attempt);
    let report = match error {
        Some(cause) => seq![Effect::Log("nixlock: unlock flush failed: "@ + cause)],
        None => Seq::empty(),
    };
    lemma_parts(
        crate::locker::logged(first) + report + crate::locker::logged(last),
        seq![Effect::Exit(0)],
    );
    lemma_parts(crate::locker::logged(first) + report, crate::locker::logged(last));
    lemma_parts(crate::locker::logged(first), report);
    lemma_logged(first);
    lemma_logged(last);
    lemma_part(Effect::Exit(0));
    if let Some(cause) = error {
        lemma_part(Effect::Log("nixlock: unlock flush failed: "@ + cause));
    }
}

/// A lock that is over or refused ends the process with an error, unlocks nothing and changes
/// nothing.
pub proof fn lemma_refused_lock_ends_the_process(state: LockerView, now: u128)
    ensures
        ({
            let (next, done) = state.step(EventView::Finished, now);
            &&& next == state
            &&& deeds(done) == seq![Effect::Exit(1)]
            &&& lines(done) == seq!["nixlock: lock finished/rejected"@] + debug_line(
                state.diagnostics,
                "event=process_exit reason=compositor_finished_or_rejected"@,
            )
        }),
{
    let line = state.diagnostics.lock_finished_line();
    let head = seq![Effect::Log("nixlock: lock finished/rejected"@)];
    lemma_parts(head + crate::locker::logged(line), seq![Effect::Exit(1)]);
    lemma_parts(head, crate::locker::logged(line));
    lemma_part(Effect::Log("nixlock: lock finished/rejected"@));
    lemma_logged(line);
    lemma_part(Effect::Exit(1));
}

/// The request of the lock is remembered, and does nothing else.
pub proof fn lemma_requested_lock_is_remembered(state: LockerView, now: u128)
    ensures
        ({
            let (next, done) = state.step(EventView::LockRequested, now);
            &&& next == (LockerView { lock_held: true, ..state })
            &&& deeds(done).len() == 0
            &&& lines(done) == debug_line(state.diagnostics, "event=lock_requested"@)
        }),
{
    lemma_logged(state.diagnostics.lock_requested_line());
}

/// A surface gets exactly the size that is reported for it, and no other surface changes. It is
/// painted, and a kiosk output's size goes to the socket first, with the scale of that output.
pub proof fn lemma_configured_surface_has_its_size(
    state: LockerView,
    surface: usize,
    width: u32,
    height: u32,
    now: u128,
)
    ensures
        ({
            let (next, done) = state.step(EventView::Configured { surface, width, height }, now);
            let entry = state.surfaces[surface as int];
            &&& surface >= state.surfaces.len() ==> next == state && done.len() == 0
            &&& surface < state.surfaces.len() ==> {
                &&& next == (LockerView { surfaces: next.surfaces, ..state })
                &&& next.surfaces.len() == state.surfaces.len()
                &&& next.surfaces[surface as int].width == width
                &&& next.surfaces[surface as int].height == height
                &&& next.surfaces[surface as int].role == entry.role
                &&& next.surfaces[surface as int].name == entry.name
                &&& next.surfaces[surface as int].scale == entry.scale
                &&& forall|s: int|
                    0 <= s < state.surfaces.len() && s != surface ==> #[trigger] next.surfaces[s]
                        == state.surfaces[s]
                &&& entry.role == OutputRole::Kiosk ==> deeds(done) == seq![
                    Effect::SetGeometry { width, height, scale: entry.scale },
                    Effect::Redraw(surface),
                ]
                &&& entry.role == OutputRole::Session ==> deeds(done) == seq![
                    Effect::Redraw(surface),
                ]
                &&& lines(done) == debug_line(
                    state.diagnostics,
                    "event=surface_configured output="@ + debug_text(entry.name) + " role="@ + (
                    if entry.role == OutputRole::Kiosk {
                        "Kiosk"@
                    } else {
                        "Session"@
                    }) + " width="@ + dec(width as nat) + " height="@ + dec(height as nat)
                        + " scale="@ + dec(entry.scale as nat),
                )
            }
        }),
{
    if surface < state.surfaces.len() {
        let entry = state.surfaces[surface as int];
        let line = state.diagnostics.surface_configured_line(
            entry.name,
            entry.role,
            width,
            height,
            entry.scale,
        );
        let geometry = Effect::SetGeometry { width, height, scale: entry.scale };
        let report = if entry.role == OutputRole::Kiosk {
            seq![geometry]
        } else {
            Seq::empty()
        };
        lemma_parts(crate::locker::logged(line) + report, seq![Effect::Redraw(surface)]);
        lemma_parts(crate::locker::logged(line), report);
        lemma_logged(line);
        lemma_part(geometry);
        lemma_part(Effect::Redraw(surface));
        let done = state.step(EventView::Configured { surface, width, height }, now).1;
        assert(deeds(done) == report + seq![Effect::Redraw(surface)]);
    }
}

/// One keyboard is held: one that is offered is asked for exactly while none is held, one that was
/// taken is held, and one that is gone is released if it was held.
pub proof fn lemma_one_keyboard_is_held(state: LockerView, now: u128)
    ensures
        ({
            let (next, done) = state.step(EventView::KeyboardFound, now);
            &&& next == state
            &&& state.keyboard ==> done.len() == 0
            &&& !state.keyboard ==> deeds(done) == seq![Effect::GetKeyboard] && lines(done)
                == debug_line(
                state.diagnostics,
                "event=keyboard_capability state="@ + "present"@,
            )
        }),
        state.step(EventView::KeyboardAcquired, now) == (
            LockerView { keyboard: true, ..state },
            Seq::<Effect>::empty(),
        ),
        ({
            let (next, done) = state.step(EventView::KeyboardLost, now);
            &&& next == (LockerView { keyboard: false, ..state })
            &&& state.keyboard ==> deeds(done) == seq![Effect::ReleaseKeyboard]
            &&& !state.keyboard ==> deeds(done).len() == 0
            &&& lines(done) == debug_line(
                state.diagnostics,
                "event=keyboard_capability state="@ + "removed"@,
            )
        }),
{
    let found = crate::locker::logged(state.diagnostics.keyboard_capability_line(true));
    let gone = crate::locker::logged(state.diagnostics.keyboard_capability_line(false));
    lemma_parts(found, seq![Effect::GetKeyboard]);
    lemma_parts(gone, seq![Effect::ReleaseKeyboard]);
    lemma_parts(gone, Seq::empty());
    lemma_logged(state.diagnostics.keyboard_capability_line(true));
    lemma_logged(state.diagnostics.keyboard_capability_line(false));
    lemma_part(Effect::GetKeyboard);
    lemma_part(Effect::ReleaseKeyboard);
}

/// The focus changes nothing and does nothing; the debug line names the surface's output and role.
pub proof fn lemma_focus_is_only_noted(
    state: LockerView,
    entered: bool,
    place: Option<usize>,
    now: u128,
)
    ensures
        ({
            let (next, done) = state.step(EventView::Focus { entered, place }, now);
            let verb = if entered {
                "entered"@
            } else {
                "left"@
            };
            &&& next == state
            &&& deeds(done).len() == 0
            &&& place is Some && place->0 < state.surfaces.len() ==> lines(done) == debug_line(
                state.diagnostics,
                "event=keyboard_focus state="@ + verb + " output="@ + (debug_text(
                    state.surfaces[place->0 as int].name,
                ) + " role="@ + (if state.surfaces[place->0 as int].role == OutputRole::Kiosk {
                    "Kiosk"@
                } else {
                    "Session"@
                })),
            )
            &&& place is None || place->0 >= state.surfaces.len() ==> lines(done) == debug_line(
                state.diagnostics,
                "event=keyboard_focus state="@ + verb + " output="@ + "unknown"@,
            )
        }),
{
    let named = match place {
        Some(number) => if number < state.surfaces.len() {
            Some((state.surfaces[number as int].name, state.surfaces[number as int].role))
        } else {
            None
        },
        None => None,
    };
    lemma_logged(state.diagnostics.keyboard_focus_line(entered, named));
}

/// What became of telling the parent is only noted; a parent that is gone is reported.
pub proof fn lemma_told_parent_is_only_noted(state: LockerView, ok: bool, now: u128)
    ensures
        ({
            let (next, done) = state.step(EventView::ReadyNotified(ok), now);
            &&& next == state
            &&& deeds(done).len() == 0
            &&& lines(done) == debug_line(
                state.diagnostics,
                "event=daemon_ready parent_notification="@ + (if ok {
                    "ok"@
                } else {
                    "error"@
                }),
            ) + (if ok {
                Seq::empty()
            } else {
                seq!["nixlock: daemon parent disappeared before lock readiness was reported"@]
            })
        }),
{
    let gone = "nixlock: daemon parent disappeared before lock readiness was reported"@;
    let line = crate::locker::logged(state.diagnostics.daemon_ready_line(ok));
    lemma_parts(line, seq![Effect::Log(gone)]);
    lemma_parts(line, Seq::empty());
    lemma_logged(state.diagnostics.daemon_ready_line(ok));
    lemma_part(Effect::Log(gone));
}

/// A tick forgets exactly a backoff that has run out, paints every surface and notes a signal; a
/// frame that arrives paints every surface and changes nothing.
pub proof fn lemma_tick_and_frame_paint_everything(state: LockerView, sigusr1: bool, now: u128)
    requires
        state.surfaces.len() <= usize::MAX,
    ensures
        ({
            let (next, done) = state.step(EventView::Tick { sigusr1 }, now);
            &&& next == (LockerView { locked_until: next.locked_until, ..state })
            &&& next.locked_until is Some <==> state.locked_until is Some && now
                < state.locked_until->0
            &&& next.locked_until is Some ==> next.locked_until == state.locked_until
            &&& paints_exactly(deeds(done), state.surfaces, true)
            &&& sigusr1 ==> lines(done) == seq![
                "nixlock: SIGUSR1: re-showing the password indicator"@,
            ] + debug_line(state.diagnostics, "event=sigusr1 action=repaint"@)
            &&& !sigusr1 ==> lines(done).len() == 0
        }),
        ({
            let (next, done) = state.step(EventView::FrameArrived, now);
            &&& next == state
            &&& paints_exactly(done, state.surfaces, true)
        }),
{
    lemma_painting(state);
    let head = seq![Effect::Log("nixlock: SIGUSR1: re-showing the password indicator"@)];
    let line = crate::locker::logged(state.diagnostics.sigusr1_line());
    lemma_parts(head + line, state.redraw_all());
    lemma_parts(head, line);
    lemma_parts(Seq::empty(), state.redraw_all());
    lemma_logged(state.diagnostics.sigusr1_line());
    lemma_part(Effect::Log("nixlock: SIGUSR1: re-showing the password indicator"@));
    let done = state.step(EventView::Tick { sigusr1 }, now).1;
    assert(deeds(done) == state.redraw_all());
}

/// A locker starts with nothing typed, no surface, no attempt, no failure, no backoff, no lock and no
/// keyboard, and its first attempt has the number one.
pub proof fn lemma_a_locker_starts_blank(
    kiosk_outputs: Seq<Seq<char>>,
    socket_path: Option<Seq<u8>>,
    diagnostics: Diagnostics,
    daemon: bool,
)
    ensures
        ({
            let state = initial_locker(kiosk_outputs, socket_path, diagnostics, daemon);
            &&& state.surfaces.len() == 0
            &&& state.password.len() == 0
            &&& !state.caps_lock && !state.failed && !state.verifying
            &&& state.fail_count == 0
            &&& state.locked_until is None
            &&& state.next_attempt_id == 1
            &&& !state.lock_held && !state.keyboard
            &&& state.kiosk_outputs == kiosk_outputs
            &&& state.socket_path == socket_path
            &&& state.diagnostics == diagnostics
            &&& state.daemon == daemon
        }),
{
}

/// Whether a surface is what an output gets: its name, or the empty one where it has none; a kiosk
/// exactly when that very name is configured; its scale, or one where that is less or unknown;
/// and no size yet.
pub open spec fn is_surface_of(
    surface: EntryView,
    output: OutputInfoView,
    kiosk_outputs: Seq<Seq<char>>,
) -> bool {
    &&& output.name is Some ==> surface.name == output.name->0
    &&& output.name is None ==> surface.name.len() == 0
    &&& surface.role == OutputRole::Kiosk <==> exists|i: int|
        0 <= i < kiosk_outputs.len() && #[trigger] kiosk_outputs[i] == surface.name
    &&& output.scale is Some && output.scale->0 >= 1 ==> surface.scale == output.scale->0
    &&& output.scale is None || output.scale->0 < 1 ==> surface.scale == 1
    &&& surface.width == 0 && surface.height == 0
}

proof fn lemma_entry(kiosk_outputs: Seq<Seq<char>>, output: OutputInfoView)
    ensures
        is_surface_of(entry_for(kiosk_outputs, output), output, kiosk_outputs),
{
    let entry = entry_for(kiosk_outputs, output);
    if kiosk_outputs.contains(entry.name) {
        let i = choose|i: int| 0 <= i < kiosk_outputs.len() && kiosk_outputs[i] == entry.name;
        assert(kiosk_outputs[i] == entry.name);
    }
}

proof fn lemma_places(
    kiosk_outputs: Seq<Seq<char>>,
    outputs: Seq<OutputInfoView>,
    role: OutputRole,
)
    requires
        outputs.len() <= usize::MAX,
    ensures
        ({
            let places = of_role(kiosk_outputs, outputs, role);
            &&& forall|i: int|
                0 <= i < places.len() ==> (#[trigger] places[i]).0 < outputs.len()
                    && places[i].1.role == role && places[i].1 == entry_for(
                    kiosk_outputs,
                    outputs[places[i].0 as int],
                )
            &&& forall|i: int, j: int|
                0 <= i < j < places.len() ==> (#[trigger] places[i]).0 < (#[trigger] places[j]).0
            &&& forall|o: int|
                0 <= o < outputs.len() && entry_for(kiosk_outputs, #[trigger] outputs[o]).role
                    == role ==> exists|i: int|
                    0 <= i < places.len() && (#[trigger] places[i]).0 == o
        }),
        of_role(kiosk_outputs, outputs, OutputRole::Session).len() + of_role(
            kiosk_outputs,
            outputs,
            OutputRole::Kiosk,
        ).len() == outputs.len(),
    decreases outputs.len(),
{
    if outputs.len() > 0 {
        let n = outputs.len() - 1;
        let before = of_role(kiosk_outputs, outputs.drop_last(), role);
        let places = of_role(kiosk_outputs, outputs, role);
        lemma_places(kiosk_outputs, outputs.drop_last(), role);
        assert forall|o: int|
            0 <= o < outputs.len() && entry_for(kiosk_outputs, #[trigger] outputs[o]).role
                == role implies exists|i: int| 0 <= i < places.len() && (#[trigger] places[i]).0
            == o by {
            if o == n {
                assert(places.last().0 == o);
            } else {
                assert(outputs.drop_last()[o] == outputs[o]);
                let i = choose|i: int| 0 <= i < before.len() && (#[trigger] before[i]).0 == o;
                assert(places[i].0 == o);
            }
        }
    }
}

/// The line that names a surface's output and role.
pub open spec fn surface_line(surface: EntryView) -> Seq<char> {
    "nixlock:   '"@ + surface.name + "' -> "@ + (if surface.role == OutputRole::Kiosk {
        "Kiosk"@
    } else {
        "Session"@
    })
}

proof fn lemma_creations(order: Seq<(usize, EntryView)>)
    ensures
        deeds(creations(order)) == Seq::new(
            order.len(),
            |k: int| Effect::CreateSurface(order[k].0),
        ),
        lines(creations(order)) == Seq::new(order.len(), |k: int| surface_line(order[k].1)),
    decreases order.len(),
{
    if order.len() > 0 {
        let before = order.drop_last();
        let entry = order.last().1;
        let create = Effect::CreateSurface(order.last().0);
        let line = Effect::Log(surface_line(entry));
        lemma_creations(before);
        lemma_parts(creations(before), seq![create, line]);
        lemma_parts(seq![create], seq![line]);
        assert(seq![create] + seq![line] == seq![create, line]);
        lemma_part(create);
        lemma_part(line);
        assert(creations(order) == creations(before) + seq![create, line]);
        assert(deeds(creations(order)) == Seq::new(
            order.len(),
            |k: int| Effect::CreateSurface(order[k].0),
        ));
        assert(lines(creations(order)) == Seq::new(
            order.len(),
            |k: int| surface_line(order[k].1),
        ));
    } else {
        assert(deeds(creations(order)) == Seq::new(
            order.len(),
            |k: int| Effect::CreateSurface(order[k].0),
        ));
        assert(lines(creations(order)) == Seq::new(
            order.len(),
            |k: int| surface_line(order[k].1),
        ));
    }
}

/// The order of the surfaces: each output has one place, the places of lock screens come before those
/// of kiosk outputs, and those of one role keep the outputs' order.
proof fn lemma_order(kiosk_outputs: Seq<Seq<char>>, outputs: Seq<OutputInfoView>)
    requires
        outputs.len() <= usize::MAX,
    ensures
        ({
            let order = surface_order(kiosk_outputs, outputs);
            &&& order.len() == outputs.len()
            &&& forall|k: int|
                #![trigger order[k]]
                0 <= k < order.len() ==> order[k].0 < outputs.len() && is_surface_of(
                    order[k].1,
                    outputs[order[k].0 as int],
                    kiosk_outputs,
                )
            &&& forall|k: int, l: int|
                #![trigger order[k], order[l]]
                0 <= k < l < order.len() ==> {
                    &&& order[k].0 != order[l].0
                    &&& order[k].1.role == OutputRole::Kiosk ==> order[l].1.role
                        == OutputRole::Kiosk
                    &&& order[k].1.role == order[l].1.role ==> order[k].0 < order[l].0
                }
        }),
{
    let order = surface_order(kiosk_outputs, outputs);
    let sessions = of_role(kiosk_outputs, outputs, OutputRole::Session);
    let kiosks = of_role(kiosk_outputs, outputs, OutputRole::Kiosk);
    let m = sessions.len() as int;
    lemma_places(kiosk_outputs, outputs, OutputRole::Session);
    lemma_places(kiosk_outputs, outputs, OutputRole::Kiosk);
    assert forall|k: int| #![trigger order[k]] 0 <= k < order.len() implies order[k].0
        < outputs.len() && order[k].1 == entry_for(kiosk_outputs, outputs[order[k].0 as int])
        && is_surface_of(order[k].1, outputs[order[k].0 as int], kiosk_outputs) by {
        if k < m {
            assert(order[k] == sessions[k]);
        } else {
            assert(order[k] == kiosks[k - m]);
        }
        lemma_entry(kiosk_outputs, outputs[order[k].0 as int]);
    }
    assert forall|k: int, l: int| #![trigger order[k], order[l]] 0 <= k < l < order.len() implies {
        &&& order[k].0 != order[l].0
        &&& order[k].1.role == OutputRole::Kiosk ==> order[l].1.role == OutputRole::Kiosk
        &&& order[k].1.role == order[l].1.role ==> order[k].0 < order[l].0
    } by {
        if l < m {
            assert(order[k] == sessions[k] && order[l] == sessions[l]);
        } else if k >= m {
            assert(order[k] == kiosks[k - m] && order[l] == kiosks[l - m]);
        } else {
            assert(order[k] == sessions[k] && order[l] == kiosks[l - m]);
        }
    }
}

/// Where an output stands in the order.
proof fn lemma_place_of(
    kiosk_outputs: Seq<Seq<char>>,
    outputs: Seq<OutputInfoView>,
    o: int,
) -> (k: int)
    requires
        outputs.len() <= usize::MAX,
        0 <= o < outputs.len(),
    ensures
        0 <= k < outputs.len(),
        surface_order(kiosk_outputs, outputs)[k].0 == o,
{
    let order = surface_order(kiosk_outputs, outputs);
    let sessions = of_role(kiosk_outputs, outputs, OutputRole::Session);
    let kiosks = of_role(kiosk_outputs, outputs, OutputRole::Kiosk);
    lemma_places(kiosk_outputs, outputs, OutputRole::Session);
    lemma_places(kiosk_outputs, outputs, OutputRole::Kiosk);
    if entry_for(kiosk_outputs, outputs[o]).role == OutputRole::Session {
        let i = choose|i: int| 0 <= i < sessions.len() && (#[trigger] sessions[i]).0 == o;
        assert(order[i] == sessions[i]);
        i
    } else {
        let i = choose|i: int| 0 <= i < kiosks.len() && (#[trigger] kiosks[i]).0 == o;
        assert(order[sessions.len() + i] == kiosks[i]);
        sessions.len() + i
    }
}

proof fn lemma_locked_parts(state: LockerView, outputs: Seq<OutputInfoView>, now: u128)
    requires
        outputs.len() <= usize::MAX,
    ensures
        ({
            let (next, done) = state.step(EventView::Locked(outputs), now);
            let order = surface_order(state.kiosk_outputs, outputs);
            &&& deeds(done) == Seq::new(order.len(), |k: int| Effect::CreateSurface(order[k].0)) + (
            if state.daemon {
                seq![Effect::NotifyReady]
            } else {
                Seq::empty()
            }) + (match state.socket_path {
                Some(path) => seq![Effect::Serve(path)],
                None => Seq::empty(),
            })
            &&& lines(done) == seq![
                "nixlock: locked; "@ + dec(outputs.len()) + " output(s)"@,
            ] + debug_line(
                state.diagnostics,
                "event=lock_acquired outputs="@ + dec(outputs.len()),
            ) + Seq::new(order.len(), |k: int| surface_line(order[k].1)) + (
            if state.socket_path is None {
                seq![
                    "nixlock: socket: no XDG_RUNTIME_DIR and no socket_path configured; kiosk socket disabled"@,
                ]
            } else {
                Seq::empty()
            })
        }),
{
    let order = surface_order(state.kiosk_outputs, outputs);
    let first = Effect::Log("nixlock: locked; "@ + dec(outputs.len()) + " output(s)"@);
    let line = state.diagnostics.lock_acquired_line(outputs.len() as usize);
    let notify = if state.daemon {
        seq![Effect::NotifyReady]
    } else {
        Seq::empty()
    };
    let last = match state.socket_path {
        Some(path) => Effect::Serve(path),
        None => Effect::Log(crate::locker::no_socket_line()),
    };
    let said = crate::locker::logged(line);
    lemma_creations(order);
    lemma_parts(seq![first] + said + creations(order) + notify, seq![last]);
    lemma_parts(seq![first] + said + creations(order), notify);
    lemma_parts(seq![first] + said, creations(order));
    lemma_parts(seq![first], said);
    lemma_part(first);
    lemma_logged(line);
    lemma_part(Effect::NotifyReady);
    lemma_part(last);
}

/// No output of the compositor's list is left without a surface.
pub proof fn lemma_no_output_is_left_out(
    state: LockerView,
    outputs: Seq<OutputInfoView>,
    now: u128,
    output: int,
)
    requires
        outputs.len() <= usize::MAX,
        0 <= output < outputs.len(),
    ensures
        state.step(EventView::Locked(outputs), now).1.contains(
            Effect::CreateSurface(output as usize),
        ),
{
    let done = state.step(EventView::Locked(outputs), now).1;
    let k = lemma_place_of(state.kiosk_outputs, outputs, output);
    lemma_order(state.kiosk_outputs, outputs);
    lemma_locked_parts(state, outputs, now);
    assert(deeds(done)[k] == Effect::CreateSurface(output as usize));
    lemma_deeds_are_done(done, k);
}

/// On the confirmation of the lock every output of the compositor's list gets exactly one surface:
/// the first deeds create one for each output, no output twice, and the surface that is created
/// as the `k`-th one is remembered as the `k`-th new one, with that output's name, role and scale.
/// The surfaces from before stay, and nothing else is remembered anew but that no parent waits.
pub proof fn lemma_every_output_gets_its_surface(
    state: LockerView,
    outputs: Seq<OutputInfoView>,
    now: u128,
)
    requires
        outputs.len() <= usize::MAX,
    ensures
        ({
            let (next, done) = state.step(EventView::Locked(outputs), now);
            let old = state.surfaces.len() as int;
            &&& next == (LockerView { surfaces: next.surfaces, daemon: false, ..state })
            &&& next.surfaces.len() == old + outputs.len()
            &&& next.surfaces.take(old) == state.surfaces
            &&& deeds(done).len() >= outputs.len()
            &&& forall|k: int|
                #![trigger deeds(done)[k]]
                0 <= k < outputs.len() ==> deeds(done)[k] is CreateSurface
                    && deeds(done)[k]->CreateSurface_0 < outputs.len() && is_surface_of(
                    next.surfaces[old + k],
                    outputs[deeds(done)[k]->CreateSurface_0 as int],
                    state.kiosk_outputs,
                )
            &&& forall|k: int, l: int|
                #![trigger deeds(done)[k], deeds(done)[l]]
                0 <= k < l < deeds(done).len() ==> deeds(done)[k] != deeds(done)[l]
        }),
{
    let (next, done) = state.step(EventView::Locked(outputs), now);
    let old = state.surfaces.len() as int;
    let order = surface_order(state.kiosk_outputs, outputs);
    lemma_order(state.kiosk_outputs, outputs);
    lemma_locked_parts(state, outputs, now);
    assert(next.surfaces.take(old) == state.surfaces);
    let did = deeds(done);
    assert forall|k: int| 0 <= k < order.len() implies did[k] == Effect::CreateSurface(
        (#[trigger] order[k]).0,
    ) && next.surfaces[old + k] == order[k].1 by {}
    assert forall|k: int| #![trigger did[k]] 0 <= k < outputs.len() implies did[k] is CreateSurface
        && did[k]->CreateSurface_0 < outputs.len() && is_surface_of(
        next.surfaces[old + k],
        outputs[did[k]->CreateSurface_0 as int],
        state.kiosk_outputs,
    ) by {
        assert(order[k].0 < outputs.len());
    }
    assert forall|k: int, l: int| #![trigger did[k], did[l]] 0 <= k < l
        < did.len() implies did[k] != did[l] by {
        if l < order.len() {
            assert(order[k].0 != order[l].0);
        }
    }
}

/// All lock screens get their surfaces before all kiosk outputs, and those of one role get theirs in
/// the compositor's order.
pub proof fn lemma_surfaces_come_in_order(
    state: LockerView,
    outputs: Seq<OutputInfoView>,
    now: u128,
    k: int,
    l: int,
)
    requires
        outputs.len() <= usize::MAX,
        0 <= k < l < outputs.len(),
    ensures
        ({
            let (next, done) = state.step(EventView::Locked(outputs), now);
            let old = state.surfaces.len() as int;
            let one = next.surfaces[old + k];
            let other = next.surfaces[old + l];
            &&& one.role == OutputRole::Kiosk ==> other.role == OutputRole::Kiosk
            &&& one.role == other.role ==> deeds(done)[k]->CreateSurface_0
                < deeds(done)[l]->CreateSurface_0
        }),
{
    let order = surface_order(state.kiosk_outputs, outputs);
    lemma_order(state.kiosk_outputs, outputs);
    lemma_locked_parts(state, outputs, now);
    assert(order[k].0 != order[l].0);
}

/// Once the surfaces are created, a waiting parent is told, once and only if there is one, and then
/// the socket is opened at its path, if it has one; nothing else is done.
pub proof fn lemma_parent_and_socket_come_last(
    state: LockerView,
    outputs: Seq<OutputInfoView>,
    now: u128,
)
    requires
        outputs.len() <= usize::MAX,
    ensures
        ({
            let did = deeds(state.step(EventView::Locked(outputs), now).1);
            let after = did.skip(outputs.len() as int);
            &&& state.daemon && state.socket_path is Some ==> after == seq![
                Effect::NotifyReady,
                Effect::Serve(state.socket_path->0),
            ]
            &&& state.daemon && state.socket_path is None ==> after == seq![Effect::NotifyReady]
            &&& !state.daemon && state.socket_path is Some ==> after == seq![
                Effect::Serve(state.socket_path->0),
            ]
            &&& !state.daemon && state.socket_path is None ==> after.len() == 0
        }),
{
    lemma_order(state.kiosk_outputs, outputs);
    lemma_locked_parts(state, outputs, now);
}

/// The lines of the confirmation: how many outputs there are, then every surface's output and role
/// in the order of the surfaces, then that there is no place for the socket, if there is none.
pub proof fn lemma_the_lock_is_reported(
    state: LockerView,
    outputs: Seq<OutputInfoView>,
    now: u128,
)
    requires
        outputs.len() <= usize::MAX,
    ensures
        ({
            let (next, done) = state.step(EventView::Locked(outputs), now);
            let old = state.surfaces.len() as int;
            lines(done) == seq![
                "nixlock: locked; "@ + dec(outputs.len()) + " output(s)"@,
            ] + debug_line(
                state.diagnostics,
                "event=lock_acquired outputs="@ + dec(outputs.len()),
            ) + Seq::new(outputs.len(), |k: int| surface_line(next.surfaces[old + k])) + (
            if state.socket_path is None {
                seq![
                    "nixlock: socket: no XDG_RUNTIME_DIR and no socket_path configured; kiosk socket disabled"@,
                ]
            } else {
                Seq::empty()
            })
        }),
{
    let next = state.step(EventView::Locked(outputs), now).0;
    let old = state.surfaces.len() as int;
    let order = surface_order(state.kiosk_outputs, outputs);
    lemma_order(state.kiosk_outputs, outputs);
    lemma_locked_parts(state, outputs, now);
    assert(Seq::new(outputs.len(), |k: int| surface_line(next.surfaces[old + k])) == Seq::new(
        order.len(),
        |k: int| surface_line(order[k].1),
    )) by {
        assert forall|k: int| 0 <= k < order.len() implies next.surfaces[old + k]
            == (#[trigger] order[k]).1 by {}
    }
}

/// What the contracts say of an event is everything that it holds: each number, flag and text of it, and
/// of every output its name and its scale.
pub proof fn lemma_events_are_seen_whole(event: Event)
    ensures
        event is LockRequested <==> event@ is LockRequested,
        event is Finished <==> event@ is Finished,
        event is KeyboardFound <==> event@ is KeyboardFound,
        event is KeyboardAcquired <==> event@ is KeyboardAcquired,
        event is KeyboardLost <==> event@ is KeyboardLost,
        event is FrameArrived <==> event@ is FrameArrived,
        event matches Event::Locked(outputs) ==> event@ is Locked && event@->Locked_0.len()
            == outputs@.len() && (forall|i: int|
            #![trigger event@->Locked_0[i]]
            0 <= i < outputs@.len() ==> {
                let (seen, given) = (event@->Locked_0[i], outputs@[i]);
                &&& seen.scale == given.scale
                &&& seen.name is Some <==> given.name is Some
                &&& given.name matches Some(name) ==> seen.name->0 == name@
            }),
        event matches Event::Configured { surface, width, height } ==> event@
            == (EventView::Configured { surface, width, height }),
        event matches Event::Focus { entered, place } ==> event@ == (EventView::Focus {
            entered,
            place,
        }),
        event matches Event::Key { keysym, utf8 } ==> event@ is Key && event@->keysym == keysym && (
        utf8 is Some <==> event@->utf8 is Some) && (utf8 matches Some(text) ==> event@->utf8->0
            == text@),
        event matches Event::CapsLock(on) ==> event@ == EventView::CapsLock(on),
        event matches Event::AuthResult(result) ==> event@ == EventView::AuthResult(result),
        event matches Event::DeliveryFailed(attempt) ==> event@ == EventView::DeliveryFailed(attempt),
        event matches Event::UnlockFlushed { attempt, error } ==> event@ is UnlockFlushed
            && event@->attempt == attempt && (error is Some <==> event@->error is Some) && (
        error matches Some(cause) ==> event@->error->0 == cause@),
        event matches Event::ReadyNotified(ok) ==> event@ == EventView::ReadyNotified(ok),
        event matches Event::Tick { sigusr1 } ==> event@ == (EventView::Tick { sigusr1 }),
{
}

/// What the contracts say of an action is everything that it holds, and of a list of actions it is that
/// of each of them, in their order.
pub proof fn lemma_actions_are_seen_whole(action: Action, actions: Seq<Action>, i: int)
    ensures
        action matches Action::Log(line) ==> action@ == Effect::Log(line@),
        action matches Action::CreateSurface(output) ==> action@ == Effect::CreateSurface(output),
        action matches Action::Redraw(surface) ==> action@ == Effect::Redraw(surface),
        action matches Action::SetGeometry { width, height, scale } ==> action@
            == (Effect::SetGeometry { width, height, scale }),
        action matches Action::Serve(path) ==> action@ == Effect::Serve(path@),
        action is NotifyReady ==> action@ is NotifyReady,
        action is GetKeyboard ==> action@ is GetKeyboard,
        action is ReleaseKeyboard ==> action@ is ReleaseKeyboard,
        action matches Action::Send(attempt) ==> action@ == (Effect::Send {
            id: attempt.id,
            password: attempt.password@,
        }),
        action is Unlock ==> action@ is Unlock,
        action matches Action::FlushUnlock(attempt) ==> action@ == Effect::FlushUnlock(attempt),
        action matches Action::Exit(code) ==> action@ == Effect::Exit(code),
        effects(actions).len() == actions.len(),
        0 <= i < actions.len() ==> effects(actions)[i] == actions[i]@,
{
}

/// What the contracts say of a surface is everything that it holds.
pub proof fn lemma_surfaces_are_seen_whole(entry: Entry)
    ensures
        entry@.role == entry.role,
        entry@.name == entry.name@,
        entry@.width == entry.width,
        entry@.height == entry.height,
        entry@.scale == entry.scale,
{
}

} // verus!
