//! What holds of the locker in every state and on every event.

use vstd::prelude::*;

use crate::auth::{AuthOutcome, AuthResult};
use crate::content::{role_of, tick_delay, AuthState, OutputRole, NANOS_PER_SEC};
use crate::locker::{
    backoff_secs, creations, entry_for, initial_locker, is_typed, logged, next_count, of_role,
    redraws, surface_order, Effect, EntryView, EventView, LockerView, OutputInfoView, KEY_BACKSPACE,
    KEY_ESCAPE, KEY_KP_ENTER, KEY_RETURN, MAX_BACKOFF_SECS, MAX_NOW,
};

verus! {

proof fn lemma_redraws_paint(surfaces: Seq<EntryView>, n: int, locks_only: bool)
    requires
        n <= surfaces.len() <= usize::MAX,
    ensures
        forall|i: int|
            0 <= i < redraws(surfaces, n, locks_only).len() ==> {
                &&& #[trigger] redraws(surfaces, n, locks_only)[i] is Redraw
                &&& redraws(surfaces, n, locks_only)[i]->Redraw_0 < n
                &&& locks_only ==> surfaces[redraws(
                    surfaces,
                    n,
                    locks_only,
                )[i]->Redraw_0 as int].role == OutputRole::Session
            },
    decreases n,
{
    if n > 0 {
        lemma_redraws_paint(surfaces, n - 1, locks_only);
    }
}

proof fn lemma_redraws_display(surfaces: Seq<EntryView>, n: int, locks_only: bool)
    ensures
        forall|i: int|
            0 <= i < redraws(surfaces, n, locks_only).len() ==> #[trigger] redraws(
                surfaces,
                n,
                locks_only,
            )[i] is Redraw,
    decreases n,
{
    if n > 0 {
        lemma_redraws_display(surfaces, n - 1, locks_only);
    }
}

/// Which effects a step may have, for each kind of event.
spec fn allowed(state: LockerView, event: EventView, now: u128, effect: Effect) -> bool {
    match effect {
        Effect::Log(_) => true,
        Effect::Redraw(_) => true,
        Effect::CreateSurface(_) => event is Locked,
        Effect::SetGeometry { .. } => event is Configured,
        Effect::Serve(_) => event is Locked,
        Effect::NotifyReady => event is Locked && state.daemon,
        Effect::GetKeyboard => event is KeyboardFound,
        Effect::ReleaseKeyboard => event is KeyboardLost,
        Effect::Send { id, password } => event is Key && !state.verifying && !state.backoff_active(
            now,
        ) && id == state.next_attempt_id && password == state.password && password.len() > 0,
        Effect::Unlock => event matches EventView::AuthResult(result) && result.outcome
            == AuthOutcome::Unlocked && state.lock_held,
        Effect::FlushUnlock(attempt) => event matches EventView::AuthResult(result)
            && result.outcome == AuthOutcome::Unlocked && result.id == attempt,
        Effect::Exit(code) => (code == 0 && event is UnlockFlushed) || (code == 1
            && event is Finished),
    }
}

spec fn all_allowed(state: LockerView, event: EventView, now: u128, done: Seq<Effect>) -> bool {
    forall|i: int| 0 <= i < done.len() ==> allowed(state, event, now, #[trigger] done[i])
}

proof fn lemma_key_allowed(
    state: LockerView,
    keysym: u32,
    utf8: Option<Seq<char>>,
    now: u128,
)
    ensures
        all_allowed(
            state,
            EventView::Key { keysym, utf8 },
            now,
            state.press_key(keysym, utf8, now).1,
        ),
{
    lemma_redraws_display(state.surfaces, state.surfaces.len() as int, true);
}

proof fn lemma_verdict_allowed(state: LockerView, result: AuthResult, now: u128)
    ensures
        all_allowed(state, EventView::AuthResult(result), now, state.on_auth(result, now).1),
{
    lemma_redraws_display(state.surfaces, state.surfaces.len() as int, true);
}

proof fn lemma_locked_allowed(state: LockerView, outputs: Seq<OutputInfoView>, now: u128)
    ensures
        all_allowed(state, EventView::Locked(outputs), now, state.locked(outputs).1),
{
    lemma_creations_only(surface_order(state.kiosk_outputs, outputs));
}

proof fn lemma_painting_allowed(state: LockerView, event: EventView, now: u128)
    requires
        event is Tick || event is FrameArrived || event is CapsLock || event is DeliveryFailed,
    ensures
        all_allowed(state, event, now, state.step(event, now).1),
{
    lemma_redraws_display(state.surfaces, state.surfaces.len() as int, true);
    lemma_redraws_display(state.surfaces, state.surfaces.len() as int, false);
}

proof fn lemma_ending_allowed(state: LockerView, event: EventView, now: u128)
    requires
        event is Finished || event is UnlockFlushed || event is ReadyNotified,
    ensures
        all_allowed(state, event, now, state.step(event, now).1),
{
}

proof fn lemma_other_allowed(state: LockerView, event: EventView, now: u128)
    requires
        event is LockRequested || event is Configured || event is KeyboardFound
            || event is KeyboardAcquired || event is KeyboardLost || event is Focus,
    ensures
        all_allowed(state, event, now, state.step(event, now).1),
{
}

proof fn lemma_step_allowed(state: LockerView, event: EventView, now: u128)
    ensures
        all_allowed(state, event, now, state.step(event, now).1),
{
    match event {
        EventView::Key { keysym, utf8 } => lemma_key_allowed(state, keysym, utf8, now),
        EventView::AuthResult(result) => lemma_verdict_allowed(state, result, now),
        EventView::Locked(outputs) => lemma_locked_allowed(state, outputs, now),
        EventView::Tick { .. }
        | EventView::FrameArrived
        | EventView::CapsLock(_)
        | EventView::DeliveryFailed(_) => lemma_painting_allowed(state, event, now),
        EventView::Finished | EventView::UnlockFlushed { .. } | EventView::ReadyNotified(_) =>
            lemma_ending_allowed(state, event, now),
        _ => lemma_other_allowed(state, event, now),
    }
}

proof fn lemma_creations_only(order: Seq<(usize, EntryView)>)
    ensures
        forall|i: int|
            0 <= i < creations(order).len() ==> (#[trigger] creations(order)[i] is Log
                || creations(order)[i] is CreateSurface),
    decreases order.len(),
{
    if order.len() > 0 {
        lemma_creations_only(order.drop_last());
    }
}

/// The one gate: the compositor is asked to unlock exactly when the verdict `Unlocked` arrives
/// while the lock is held. No key, no signal, no passing of time, no frame, no failure and no end of
/// the process does it.
pub proof fn lemma_only_an_accepted_password_unlocks(
    state: LockerView,
    event: EventView,
    now: u128,
)
    ensures
        state.step(event, now).1.contains(Effect::Unlock) <==> (event matches EventView::AuthResult(
            result,
        ) && result.outcome == AuthOutcome::Unlocked && state.lock_held),
        state.lock_held && !state.step(event, now).0.lock_held ==> state.step(
            event,
            now,
        ).1.contains(Effect::Unlock),
{
    lemma_step_allowed(state, event, now);
    if let EventView::AuthResult(result) = event {
        if result.outcome == AuthOutcome::Unlocked && state.lock_held {
            let done = state.step(event, now).1;
            assert(done[done.len() - 2] == Effect::Unlock);
        }
    }
}

/// The process ends only after the unlock request was flushed, or with an error when the
/// compositor ended or refused the lock.
pub proof fn lemma_process_ends_only_when_over(state: LockerView, event: EventView, now: u128)
    ensures
        state.step(event, now).1.contains(Effect::Exit(0)) ==> event is UnlockFlushed,
        state.step(event, now).1.contains(Effect::Exit(1)) ==> event is Finished,
{
    lemma_step_allowed(state, event, now);
}

/// A rejected attempt stays locked: the lock is kept, nothing typed survives, the failure shows,
/// and the count of failures and the backoff grow.
pub proof fn lemma_rejected_stays_locked(state: LockerView, result: AuthResult, now: u128)
    requires
        result.outcome != AuthOutcome::Unlocked,
        now <= MAX_NOW,
    ensures
        ({
            let next = state.on_auth(result, now).0;
            &&& next.lock_held == state.lock_held
            &&& next.password.len() == 0
            &&& next.auth_view().state == AuthState::Failed
            &&& state.fail_count < u32::MAX ==> next.fail_count == state.fail_count + 1
            &&& next.locked_until == Some(
                (now + backoff_secs(next.fail_count) * NANOS_PER_SEC) as u128,
            )
            &&& 1 <= backoff_secs(next.fail_count) <= MAX_BACKOFF_SECS
        }),
{
}

/// Nothing can be typed or submitted while the backoff runs.
pub proof fn lemma_backoff_is_kept(
    state: LockerView,
    keysym: u32,
    utf8: Option<Seq<char>>,
    now: u128,
)
    requires
        state.backoff_active(now),
    ensures
        state.press_key(keysym, utf8, now) == (state, Seq::<Effect>::empty()),
{
}

/// A rejected attempt is always retryable: from the moment on at which its backoff has passed,
/// typing and submitting again sends the new password as a new attempt, whatever happened before.
pub proof fn lemma_rejected_is_retryable(
    state: LockerView,
    result: AuthResult,
    then: u128,
    now: u128,
    keysym: u32,
    text: Seq<char>,
)
    requires
        result.outcome != AuthOutcome::Unlocked,
        then + backoff_secs(next_count(state.fail_count)) * NANOS_PER_SEC <= now,
        is_typed(text),
        keysym != KEY_RETURN,
        keysym != KEY_KP_ENTER,
        keysym != KEY_BACKSPACE,
        keysym != KEY_ESCAPE,
    ensures
        ({
            let rejected = state.on_auth(result, then).0;
            let typed = rejected.press_key(keysym, Some(text), now).0;
            let (submitted, done) = typed.press_key(KEY_RETURN, None, now);
            &&& !rejected.backoff_active(now)
            &&& typed.password == text
            &&& done.contains(Effect::Send { id: state.next_attempt_id, password: text })
            &&& submitted.verifying
        }),
{
    let rejected = state.on_auth(result, then).0;
    let typed = rejected.press_key(keysym, Some(text), now).0;
    assert(typed.password == text);
    let done = typed.press_key(KEY_RETURN, None, now).1;
    assert(done[done.len() - 1] == Effect::Send { id: state.next_attempt_id, password: text });
}

/// What is true of a locker at all times: while an attempt is in flight nothing is typed and
/// no failure shows, and there is no backoff without a rejected attempt.
pub open spec fn consistent(state: LockerView) -> bool {
    &&& state.verifying ==> state.password.len() == 0 && !state.failed
    &&& state.locked_until is Some ==> state.fail_count > 0
    &&& state.next_attempt_id >= 1
}

/// The invariant holds at the start.
pub proof fn lemma_starts_consistent(
    kiosk_outputs: Seq<Seq<char>>,
    socket_path: Option<Seq<u8>>,
    diagnostics: crate::diagnostics::Diagnostics,
    daemon: bool,
)
    ensures
        consistent(initial_locker(kiosk_outputs, socket_path, diagnostics, daemon)),
{
}

/// Every event keeps the invariant.
pub proof fn lemma_stays_consistent(state: LockerView, event: EventView, now: u128)
    requires
        consistent(state),
    ensures
        consistent(state.step(event, now).0),
{
}

/// Whether an event resolves an attempt.
pub open spec fn resolves(event: EventView) -> bool {
    event is AuthResult || event is DeliveryFailed
}

/// The state after a run of events with their times.
pub open spec fn run(start: LockerView, events: Seq<(EventView, u128)>) -> LockerView
    decreases events.len(),
{
    if events.len() == 0 {
        start
    } else {
        run(start, events.drop_last()).step(events.last().0, events.last().1).0
    }
}

/// How many of the effects hand an attempt to the worker.
pub open spec fn count_sends(effects: Seq<Effect>) -> nat
    decreases effects.len(),
{
    if effects.len() == 0 {
        0
    } else {
        count_sends(effects.drop_last()) + (if effects.last() is Send {
            1nat
        } else {
            0nat
        })
    }
}

/// How many attempts a run of events handed to the worker.
pub open spec fn attempts_sent(start: LockerView, events: Seq<(EventView, u128)>) -> nat
    decreases events.len(),
{
    if events.len() == 0 {
        0
    } else {
        let before = events.drop_last();
        attempts_sent(start, before) + count_sends(
            run(start, before).step(events.last().0, events.last().1).1,
        )
    }
}

/// How many events of a run resolve an attempt.
pub open spec fn attempts_resolved(events: Seq<(EventView, u128)>) -> nat
    decreases events.len(),
{
    if events.len() == 0 {
        0
    } else {
        attempts_resolved(events.drop_last()) + (if resolves(events.last().0) {
            1nat
        } else {
            0nat
        })
    }
}

proof fn lemma_no_sends(effects: Seq<Effect>)
    requires
        forall|i: int| 0 <= i < effects.len() ==> !(#[trigger] effects[i] is Send),
    ensures
        count_sends(effects) == 0,
    decreases effects.len(),
{
    if effects.len() > 0 {
        lemma_no_sends(effects.drop_last());
    }
}

proof fn lemma_step_sends(state: LockerView, event: EventView, now: u128)
    ensures
        ({
            let (next, done) = state.step(event, now);
            &&& count_sends(done) <= 1
            &&& count_sends(done) == 1 ==> !state.verifying && next.verifying
            &&& state.verifying ==> next.verifying || resolves(event)
            &&& !state.verifying && next.verifying ==> count_sends(done) == 1
        }),
{
    lemma_step_allowed(state, event, now);
    let (next, done) = state.step(event, now);
    if next.verifying && !state.verifying {
        assert(event is Key);
        let earlier = done.drop_last();
        assert(done.last() is Send);
        lemma_redraws_display(state.surfaces, state.surfaces.len() as int, true);
        assert forall|i: int| 0 <= i < earlier.len() implies !(#[trigger] earlier[i] is Send) by {
            assert(earlier[i] == done[i]);
        }
        lemma_no_sends(earlier);
    } else {
        assert forall|i: int| 0 <= i < done.len() implies !(#[trigger] done[i] is Send) by {
            if event is Key && !state.verifying {
                lemma_redraws_display(state.surfaces, state.surfaces.len() as int, true);
            }
        }
        lemma_no_sends(done);
    }
}

/// At most one attempt is in flight at any time: in every run, the attempts sent are at most one
/// more than the attempts resolved.
pub proof fn lemma_one_attempt_in_flight(start: LockerView, events: Seq<(EventView, u128)>)
    requires
        !start.verifying,
    ensures
        attempts_sent(start, events) <= attempts_resolved(events) + 1,
        !run(start, events).verifying ==> attempts_sent(start, events) <= attempts_resolved(events),
    decreases events.len(),
{
    if events.len() > 0 {
        lemma_one_attempt_in_flight(start, events.drop_last());
        lemma_step_sends(
            run(start, events.drop_last()),
            events.last().0,
            events.last().1,
        );
    }
}

/// Whether an event rejects an attempt.
pub open spec fn rejects(event: EventView) -> bool {
    event matches EventView::AuthResult(result) && result.outcome != AuthOutcome::Unlocked
}

/// How many events of a run reject an attempt.
pub open spec fn rejections(events: Seq<(EventView, u128)>) -> nat
    decreases events.len(),
{
    if events.len() == 0 {
        0
    } else {
        rejections(events.drop_last()) + (if rejects(events.last().0) {
            1nat
        } else {
            0nat
        })
    }
}

/// After a run the locker has counted exactly the rejections of the run, as far as the count
/// reaches. So the backoffs of a run last one, two, three and four seconds, and five seconds
/// from the fifth rejection on.
pub proof fn lemma_rejections_are_counted(start: LockerView, events: Seq<(EventView, u128)>)
    requires
        start.fail_count == 0,
    ensures
        run(start, events).fail_count == (if rejections(events) <= u32::MAX {
            rejections(events)
        } else {
            u32::MAX as nat
        }),
        events.len() > 0 && rejects(events.last().0) && events.last().1 <= MAX_NOW ==> run(
            start,
            events,
        ).locked_until == Some(
            (events.last().1 + (if rejections(events) < 5 {
                rejections(events)
            } else {
                5
            }) * NANOS_PER_SEC) as u128,
        ),
    decreases events.len(),
{
    if events.len() > 0 {
        lemma_rejections_are_counted(start, events.drop_last());
    }
}

/// Every surface is among those that a full repaint paints.
proof fn lemma_redraws_reach(surfaces: Seq<EntryView>, n: int, i: int)
    requires
        0 <= i < n,
    ensures
        redraws(surfaces, n, false).contains(Effect::Redraw(i as usize)),
    decreases n,
{
    let all = redraws(surfaces, n, false);
    if i == n - 1 {
        assert(all.last() == Effect::Redraw(i as usize));
    } else {
        lemma_redraws_reach(surfaces, n - 1, i);
        let earlier = redraws(surfaces, n - 1, false);
        let k = choose|k: int| 0 <= k < earlier.len() && earlier[k] == Effect::Redraw(i as usize);
        assert(all[k] == Effect::Redraw(i as usize));
    }
}

/// A tick paints every surface.
proof fn lemma_tick_paints(state: LockerView, surface: int, sigusr1: bool, now: u128)
    requires
        0 <= surface < state.surfaces.len(),
    ensures
        state.tick(sigusr1, now).1.contains(Effect::Redraw(surface as usize)),
{
    lemma_redraws_reach(state.surfaces, state.surfaces.len() as int, surface);
    let painted = state.redraw_all();
    let done = state.tick(sigusr1, now).1;
    let at = choose|at: int|
        0 <= at < painted.len() && painted[at] == Effect::Redraw(surface as usize);
    assert(done[done.len() - painted.len() + at] == painted[at]);
}

/// From any moment on, one of the multiples of a delay comes before the delay has passed.
proof fn lemma_multiple_in_reach(delay: u128, moment: nat) -> (k: nat)
    requires
        delay > 0,
    ensures
        moment < k * delay <= moment + delay,
{
    let step = delay as int;
    vstd::arithmetic::div_mod::lemma_fundamental_div_mod(moment as int, step);
    vstd::arithmetic::div_mod::lemma_div_pos_is_pos(moment as int, step);
    let k: nat = (moment as int / step + 1) as nat;
    assert(k * step == step * (moment as int / step) + step) by (nonlinear_arith)
        requires
            k == moment as int / step + 1,
    ;
    k
}

/// The interval at which the content of an output asks to be repainted.
pub open spec fn interval_of(role: OutputRole, clock: u128, lock: u128) -> u128 {
    match role {
        OutputRole::Kiosk => clock,
        OutputRole::Session => lock,
    }
}

/// Without any input, every output is repainted as often as its content asks for: every tick
/// paints every surface, and from any moment on a tick comes before the interval of the output's
/// content has passed. The ticks come at the multiples of their delay.
pub proof fn lemma_outputs_are_repainted_in_time(
    state: LockerView,
    surface: int,
    sigusr1: bool,
    clock: u128,
    lock: u128,
    moment: nat,
    now: u128,
)
    requires
        0 <= surface < state.surfaces.len(),
        tick_delay(clock, lock) > 0,
    ensures
        state.tick(sigusr1, now).1.contains(Effect::Redraw(surface as usize)),
        exists|k: nat|
            moment < #[trigger] (k * tick_delay(clock, lock)) <= moment + interval_of(
                state.surfaces[surface].role,
                clock,
                lock,
            ),
{
    lemma_tick_paints(state, surface, sigusr1, now);
    let k = lemma_multiple_in_reach(tick_delay(clock, lock), moment);
    assert(moment < k * tick_delay(clock, lock));
}

/// A signal shows within one second, whatever interval the lock screen asks for: the built-in clock
/// asks for a tick every second, so that two ticks are at most that far apart, and the tick that
/// finds the signal notes it and paints every surface.
pub proof fn lemma_signal_shows_within_a_second(
    state: LockerView,
    lock: u128,
    moment: nat,
    now: u128,
)
    ensures
        tick_delay(NANOS_PER_SEC, lock) <= NANOS_PER_SEC,
        lock > 0 ==> exists|k: nat|
            moment < #[trigger] (k * tick_delay(NANOS_PER_SEC, lock)) <= moment + NANOS_PER_SEC,
        state.tick(true, now).1.first() == Effect::Log(
            "nixlock: SIGUSR1: re-showing the password indicator"@,
        ),
        forall|surface: int|
            0 <= surface < state.surfaces.len() ==> #[trigger] state.tick(true, now).1.contains(
                Effect::Redraw(surface as usize),
            ),
{
    assert forall|surface: int| 0 <= surface < state.surfaces.len() implies #[trigger] state.tick(
        true,
        now,
    ).1.contains(Effect::Redraw(surface as usize)) by {
        lemma_tick_paints(state, surface, true, now);
    }
    if lock > 0 {
        let k = lemma_multiple_in_reach(tick_delay(NANOS_PER_SEC, lock), moment);
        assert(moment < k * tick_delay(NANOS_PER_SEC, lock));
    }
}

/// Every attempt has a number of its own, higher than those before it, as long as the numbers
/// last.
pub proof fn lemma_attempt_numbers_grow(state: LockerView, event: EventView, now: u128)
    ensures
        state.step(event, now).0.next_attempt_id >= state.next_attempt_id,
        forall|i: int|
            0 <= i < state.step(event, now).1.len() ==> (#[trigger] state.step(
                event,
                now,
            ).1[i] matches Effect::Send { id, .. } ==> id == state.next_attempt_id && (
            state.next_attempt_id < u64::MAX ==> id < state.step(event, now).0.next_attempt_id)),
{
    lemma_step_allowed(state, event, now);
    lemma_redraws_display(state.surfaces, state.surfaces.len() as int, true);
}

/// The state with another password typed.
pub open spec fn with_password(state: LockerView, password: Seq<char>) -> LockerView {
    LockerView { password, ..state }
}

/// An effect with the password blacked out.
pub open spec fn redacted(effect: Effect) -> Effect {
    match effect {
        Effect::Send { id, .. } => Effect::Send { id, password: Seq::empty() },
        _ => effect,
    }
}

/// No line that is printed and no other effect, but for the attempt itself, depends on what was
/// typed or on how much: on the same event, two lockers that differ only in the typed password do
/// the same, as long as both passwords are empty or neither is.
pub proof fn lemma_effects_are_credential_blind(
    state: LockerView,
    other: Seq<char>,
    event: EventView,
    now: u128,
)
    requires
        (state.password.len() == 0) == (other.len() == 0),
    ensures
        state.step(event, now).1.map_values(|effect: Effect| redacted(effect)) == with_password(
            state,
            other,
        ).step(event, now).1.map_values(|effect: Effect| redacted(effect)),
{
    let twin = with_password(state, other);
    let done = state.step(event, now).1;
    let twin_done = twin.step(event, now).1;
    assert(done.len() == twin_done.len());
    assert forall|i: int| 0 <= i < done.len() implies redacted(#[trigger] done[i]) == redacted(
        twin_done[i],
    ) by {
    }
}

/// Typing prints nothing: a key that does not submit leads to no more than the painting of
/// lock screens. No kiosk output is touched by a key.
pub proof fn lemma_typing_is_silent(
    state: LockerView,
    keysym: u32,
    utf8: Option<Seq<char>>,
    now: u128,
)
    requires
        state.surfaces.len() <= usize::MAX,
        keysym != KEY_RETURN,
        keysym != KEY_KP_ENTER,
    ensures
        forall|i: int|
            0 <= i < state.press_key(keysym, utf8, now).1.len() ==> {
                &&& #[trigger] state.press_key(keysym, utf8, now).1[i] is Redraw
                &&& state.press_key(keysym, utf8, now).1[i]->Redraw_0 < state.surfaces.len()
                &&& state.surfaces[state.press_key(
                    keysym,
                    utf8,
                    now,
                ).1[i]->Redraw_0 as int].role == OutputRole::Session
            },
{
    lemma_redraws_paint(state.surfaces, state.surfaces.len() as int, true);
}

/// Submitting a password takes it out of the locker: the attempt in flight is its only holder.
pub proof fn lemma_submitted_password_is_gone(state: LockerView, now: u128)
    requires
        state.submit(now).0.verifying,
        !state.verifying,
    ensures
        state.submit(now).0.password.len() == 0,
        state.submit(now).1.contains(
            Effect::Send { id: state.next_attempt_id, password: state.password },
        ),
{
    let done = state.submit(now).1;
    assert(done[done.len() - 1] == Effect::Send {
        id: state.next_attempt_id,
        password: state.password,
    });
}

/// A signal touches no authentication state: with it, a tick leads to the same state as
/// without, and to the same repainting after its line is printed. The tick itself changes nothing
/// but a backoff that has run out.
pub proof fn lemma_signal_touches_nothing(state: LockerView, now: u128)
    ensures
        state.tick(true, now).0 == state.tick(false, now).0,
        state.tick(false, now).0 == (LockerView {
            locked_until: state.tick(false, now).0.locked_until,
            ..state
        }),
        state.backoff_active(now) ==> state.tick(true, now).0 == state,
        state.tick(false, now).1 == state.redraw_all(),
        state.tick(true, now).1 == seq![
            Effect::Log("nixlock: SIGUSR1: re-showing the password indicator"@),
        ] + logged(state.diagnostics.sigusr1_line()) + state.redraw_all(),
{
}

/// The socket is display-only: a frame that arrives changes nothing of what the locker remembers,
/// and leads to painting and nothing else.
pub proof fn lemma_frames_reach_no_gate(state: LockerView, now: u128)
    ensures
        state.step(EventView::FrameArrived, now).0 == state,
        forall|i: int|
            0 <= i < state.step(EventView::FrameArrived, now).1.len() ==> (
            #[trigger] state.step(EventView::FrameArrived, now).1[i]) is Redraw,
{
    lemma_redraws_display(state.surfaces, state.surfaces.len() as int, false);
}

/// Forgetting an expired backoff makes no difference to what is accepted, now or later.
pub proof fn lemma_tick_changes_no_gate(state: LockerView, sigusr1: bool, now: u128, later: u128)
    requires
        now <= later,
    ensures
        state.tick(sigusr1, now).0.backoff_active(later) == state.backoff_active(later),
{
}

/// Nothing is painted before the compositor has confirmed the lock: without a surface there is
/// none to paint, and only the confirmation creates surfaces.
pub proof fn lemma_nothing_painted_before_the_lock(state: LockerView, event: EventView, now: u128)
    requires
        state.surfaces.len() == 0,
        !(event is Locked),
    ensures
        state.step(event, now).0.surfaces.len() == 0,
        forall|i: int|
            0 <= i < state.step(event, now).1.len() ==> !(#[trigger] state.step(
                event,
                now,
            ).1[i] is Redraw) && !(state.step(event, now).1[i] is CreateSurface),
{
    lemma_step_allowed(state, event, now);
}

/// Only the confirmation of the lock opens the socket, and only it reports to a waiting parent:
/// a locker that was refused touches neither. A parent is told at most once.
pub proof fn lemma_readiness_follows_the_lock(state: LockerView, event: EventView, now: u128)
    ensures
        forall|path: Seq<u8>| #[trigger]
            state.step(event, now).1.contains(Effect::Serve(path)) ==> event is Locked
                && state.socket_path == Some(path),
        state.step(event, now).1.contains(Effect::NotifyReady) <==> event is Locked && state.daemon,
        event is Locked ==> !state.step(event, now).0.daemon,
        state.step(event, now).0.daemon ==> state.daemon,
{
    lemma_step_allowed(state, event, now);
    let done = state.step(event, now).1;
    if let EventView::Locked(outputs) = event {
        lemma_creations_only(surface_order(state.kiosk_outputs, outputs));
        if state.daemon {
            assert(done[done.len() - 2] == Effect::NotifyReady);
        }
    }
}

proof fn lemma_of_role(
    kiosk_outputs: Seq<Seq<char>>,
    outputs: Seq<OutputInfoView>,
    role: OutputRole,
)
    ensures
        forall|i: int|
            0 <= i < of_role(kiosk_outputs, outputs, role).len() ==> {
                let place = #[trigger] of_role(kiosk_outputs, outputs, role)[i];
                &&& place.1.role == role
                &&& outputs.len() <= usize::MAX ==> place.0 < outputs.len() && place.1
                    == entry_for(kiosk_outputs, outputs[place.0 as int])
            },
        of_role(kiosk_outputs, outputs, OutputRole::Session).len() + of_role(
            kiosk_outputs,
            outputs,
            OutputRole::Kiosk,
        ).len() == outputs.len(),
    decreases outputs.len(),
{
    if outputs.len() > 0 {
        lemma_of_role(kiosk_outputs, outputs.drop_last(), role);
    }
}

/// On the confirmation of the lock every output gets a surface; each surface has the role that its
/// output's name gives it, and all lock screens come before all kiosk outputs, so that the
/// keyboard focus never lands on a kiosk output first.
pub proof fn lemma_lock_screens_come_first(state: LockerView, outputs: Seq<OutputInfoView>)
    requires
        state.surfaces.len() == 0,
        outputs.len() <= usize::MAX,
    ensures
        ({
            let surfaces = state.locked(outputs).0.surfaces;
            &&& surfaces.len() == outputs.len()
            &&& forall|i: int|
                0 <= i < surfaces.len() ==> (#[trigger] surfaces[i]).role == role_of(
                    state.kiosk_outputs,
                    surfaces[i].name,
                )
            &&& forall|i: int, j: int|
                0 <= i < j < surfaces.len() && (#[trigger] surfaces[i]).role == OutputRole::Kiosk
                    ==> (#[trigger] surfaces[j]).role == OutputRole::Kiosk
        }),
{
    let order = surface_order(state.kiosk_outputs, outputs);
    let surfaces = state.locked(outputs).0.surfaces;
    lemma_of_role(state.kiosk_outputs, outputs, OutputRole::Session);
    lemma_of_role(state.kiosk_outputs, outputs, OutputRole::Kiosk);
    assert forall|i: int| 0 <= i < surfaces.len() implies surfaces[i] == #[trigger] order[i].1 by {
    }
    assert forall|i: int| 0 <= i < surfaces.len() implies (#[trigger] surfaces[i]).role == role_of(
        state.kiosk_outputs,
        surfaces[i].name,
    ) by {
        assert(surfaces[i] == order[i].1);
    }
}

/// The kiosk output's geometry reaches the socket on every configuration of its surface, a lock
/// screen's never.
pub proof fn lemma_geometry_is_the_kiosks(
    state: LockerView,
    surface: usize,
    width: u32,
    height: u32,
)
    requires
        surface < state.surfaces.len(),
    ensures
        state.configure(surface, width, height).1.contains(
            Effect::SetGeometry {
                width,
                height,
                scale: state.surfaces[surface as int].scale,
            },
        ) <==> state.surfaces[surface as int].role == OutputRole::Kiosk,
{
    let done = state.configure(surface, width, height).1;
    if state.surfaces[surface as int].role == OutputRole::Kiosk {
        assert(done[done.len() - 2] == Effect::SetGeometry {
            width,
            height,
            scale: state.surfaces[surface as int].scale,
        });
    }
}

} // verus!
