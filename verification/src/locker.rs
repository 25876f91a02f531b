//! The locker: one surface per output, a role for each, the password buffer, and the single gate in
//! front of the unlock request.
//!
//! The program hands in what happened as an [`Event`] and carries out the returned [`Action`]s in
//! their order.

use vstd::prelude::*;
use vstd::string::*;

use crate::auth::{AuthAttempt, AuthOutcome, AuthResult};
use crate::config::Config;
use crate::content::{role_for, role_of, AuthState, AuthView, OutputRole, NANOS_PER_SEC};
use crate::diagnostics::Diagnostics;
use crate::secret::Secret;
use crate::socket::{bytes_of, resolve_path, socket_path};
use crate::text::{dec, dec_text, text_of, texts_of};

verus! {

/// The key symbol of the return key.
pub const KEY_RETURN: u32 = 0xff0d;

/// The key symbol of the keypad's enter key.
pub const KEY_KP_ENTER: u32 = 0xff8d;

/// The key symbol of the backspace key.
pub const KEY_BACKSPACE: u32 = 0xff08;

/// The key symbol of the escape key.
pub const KEY_ESCAPE: u32 = 0xff1b;

/// The longest backoff after a rejected attempt, in seconds.
pub const MAX_BACKOFF_SECS: u32 = 5;

/// The latest reading of the clock, in nanoseconds, to which the longest backoff can be added.
pub const MAX_NOW: u128 = u128::MAX - 5_000_000_000;

/// What the compositor says of an output.
pub struct OutputInfo {
    pub name: Option<String>,
    pub scale: Option<i32>,
}

/// The contents of an output's description.
pub ghost struct OutputInfoView {
    pub name: Option<Seq<char>>,
    pub scale: Option<i32>,
}

impl View for OutputInfo {
    type V = OutputInfoView;

    open spec fn view(&self) -> OutputInfoView {
        OutputInfoView { name: text_of(self.name), scale: self.scale }
    }
}

/// A lock surface of an output.
pub struct Entry {
    pub role: OutputRole,
    pub name: String,
    /// Zero until the compositor has configured the surface.
    pub width: u32,
    pub height: u32,
    pub scale: u32,
}

/// The contents of a surface's description.
#[verifier::ext_equal]
pub ghost struct EntryView {
    pub role: OutputRole,
    pub name: Seq<char>,
    pub width: u32,
    pub height: u32,
    pub scale: u32,
}

impl View for Entry {
    type V = EntryView;

    open spec fn view(&self) -> EntryView {
        EntryView {
            role: self.role,
            name: self.name@,
            width: self.width,
            height: self.height,
            scale: self.scale,
        }
    }
}

/// Something that happened.
pub enum Event {
    /// The lock was requested from the compositor.
    LockRequested,
    /// The compositor confirmed the lock; the outputs it lists.
    Locked(Vec<OutputInfo>),
    /// The lock is over, or was refused.
    Finished,
    /// The surface with this number got a size.
    Configured { surface: usize, width: u32, height: u32 },
    /// A seat offers a keyboard.
    KeyboardFound,
    /// The keyboard was taken.
    KeyboardAcquired,
    /// The keyboard is gone.
    KeyboardLost,
    /// The keyboard focus came to a surface (`entered`), or left it.
    Focus { entered: bool, place: Option<usize> },
    /// A key was pressed, or repeats.
    Key { keysym: u32, utf8: Option<String> },
    /// The state of the caps lock.
    CapsLock(bool),
    /// The verdict on an attempt.
    AuthResult(AuthResult),
    /// The attempt could not be handed to the worker.
    DeliveryFailed(u64),
    /// The unlock request for the attempt was flushed, or could not be.
    UnlockFlushed { attempt: u64, error: Option<String> },
    /// The waiting parent was told, or is gone.
    ReadyNotified(bool),
    /// A second has passed; whether `SIGUSR1` arrived meanwhile.
    Tick { sigusr1: bool },
    /// What the kiosk output is to show has changed.
    FrameArrived,
}

/// The contents of an event.
pub ghost enum EventView {
    LockRequested,
    Locked(Seq<OutputInfoView>),
    Finished,
    Configured { surface: usize, width: u32, height: u32 },
    KeyboardFound,
    KeyboardAcquired,
    KeyboardLost,
    Focus { entered: bool, place: Option<usize> },
    Key { keysym: u32, utf8: Option<Seq<char>> },
    CapsLock(bool),
    AuthResult(AuthResult),
    DeliveryFailed(u64),
    UnlockFlushed { attempt: u64, error: Option<Seq<char>> },
    ReadyNotified(bool),
    Tick { sigusr1: bool },
    FrameArrived,
}

impl View for Event {
    type V = EventView;

    open spec fn view(&self) -> EventView {
        match *self {
            Event::LockRequested => EventView::LockRequested,
            Event::Locked(outputs) => EventView::Locked(
                outputs@.map_values(|output: OutputInfo| output@),
            ),
            Event::Finished => EventView::Finished,
            Event::Configured { surface, width, height } => EventView::Configured {
                surface,
                width,
                height,
            },
            Event::KeyboardFound => EventView::KeyboardFound,
            Event::KeyboardAcquired => EventView::KeyboardAcquired,
            Event::KeyboardLost => EventView::KeyboardLost,
            Event::Focus { entered, place } => EventView::Focus { entered, place },
            Event::Key { keysym, utf8 } => EventView::Key { keysym, utf8: text_of(utf8) },
            Event::CapsLock(on) => EventView::CapsLock(on),
            Event::AuthResult(result) => EventView::AuthResult(result),
            Event::DeliveryFailed(attempt) => EventView::DeliveryFailed(attempt),
            Event::UnlockFlushed { attempt, error } => EventView::UnlockFlushed {
                attempt,
                error: text_of(error),
            },
            Event::ReadyNotified(ok) => EventView::ReadyNotified(ok),
            Event::Tick { sigusr1 } => EventView::Tick { sigusr1 },
            Event::FrameArrived => EventView::FrameArrived,
        }
    }
}

/// Something to do.
pub enum Action {
    /// Print a line.
    Log(String),
    /// Create the lock surface of the output with this number in the compositor's list; it gets
    /// the next surface number.
    CreateSurface(usize),
    /// Paint the surface with this number.
    Redraw(usize),
    /// Tell the socket the kiosk output's geometry.
    SetGeometry { width: u32, height: u32, scale: u32 },
    /// Listen for frames at this path.
    Serve(Vec<u8>),
    /// Tell the waiting parent that the lock is held.
    NotifyReady,
    /// Take the seat's keyboard.
    GetKeyboard,
    /// Release the keyboard.
    ReleaseKeyboard,
    /// Hand an attempt to the worker.
    Send(AuthAttempt),
    /// Ask the compositor to unlock the session.
    Unlock,
    /// Flush the unlock request for this attempt.
    FlushUnlock(u64),
    /// End the process.
    Exit(i32),
}

/// The contents of an action.
pub ghost enum Effect {
    Log(Seq<char>),
    CreateSurface(usize),
    Redraw(usize),
    SetGeometry { width: u32, height: u32, scale: u32 },
    Serve(Seq<u8>),
    NotifyReady,
    GetKeyboard,
    ReleaseKeyboard,
    Send { id: u64, password: Seq<char> },
    Unlock,
    FlushUnlock(u64),
    Exit(i32),
}

impl View for Action {
    type V = Effect;

    open spec fn view(&self) -> Effect {
        match *self {
            Action::Log(line) => Effect::Log(line@),
            Action::CreateSurface(output) => Effect::CreateSurface(output),
            Action::Redraw(surface) => Effect::Redraw(surface),
            Action::SetGeometry { width, height, scale } => Effect::SetGeometry {
                width,
                height,
                scale,
            },
            Action::Serve(path) => Effect::Serve(path@),
            Action::NotifyReady => Effect::NotifyReady,
            Action::GetKeyboard => Effect::GetKeyboard,
            Action::ReleaseKeyboard => Effect::ReleaseKeyboard,
            Action::Send(attempt) => Effect::Send { id: attempt.id, password: attempt.password@ },
            Action::Unlock => Effect::Unlock,
            Action::FlushUnlock(attempt) => Effect::FlushUnlock(attempt),
            Action::Exit(code) => Effect::Exit(code),
        }
    }
}

/// The contents of a list of actions.
pub open spec fn effects(actions: Seq<Action>) -> Seq<Effect> {
    actions.map_values(|action: Action| action@)
}

/// The effect of an optional line: print it.
pub open spec fn logged(line: Option<Seq<char>>) -> Seq<Effect> {
    match line {
        Some(text) => seq![Effect::Log(text)],
        None => Seq::empty(),
    }
}

fn push_action(actions: &mut Vec<Action>, action: Action)
    ensures
        effects(final(actions)@) == effects(old(actions)@) + seq![action@],
{
    actions.push(action);
}

fn push_log(actions: &mut Vec<Action>, line: Option<String>)
    ensures
        effects(final(actions)@) == effects(old(actions)@) + logged(text_of(line)),
{
    match line {
        Some(text) => {
            actions.push(Action::Log(text));
        },
        None => {},
    }
}

/// What a locker remembers.
#[verifier::ext_equal]
pub ghost struct LockerView {
    /// The lock surfaces, by their numbers.
    pub surfaces: Seq<EntryView>,
    pub kiosk_outputs: Seq<Seq<char>>,
    /// Where the socket will be, if there is one.
    pub socket_path: Option<Seq<u8>>,
    /// What was typed so far.
    pub password: Seq<char>,
    pub caps_lock: bool,
    /// The last attempt was rejected.
    pub failed: bool,
    /// An attempt is in flight.
    pub verifying: bool,
    /// How many attempts were rejected.
    pub fail_count: u32,
    /// Until when no input is accepted after a rejected attempt, in nanoseconds.
    pub locked_until: Option<u128>,
    pub next_attempt_id: u64,
    /// The lock is requested and not given back.
    pub lock_held: bool,
    pub keyboard: bool,
    /// A parent process waits to hear that the lock is held.
    pub daemon: bool,
    pub diagnostics: Diagnostics,
}

/// A locker.
pub struct Locker {
    surfaces: Vec<Entry>,
    kiosk_outputs: Vec<String>,
    socket_path: Option<Vec<u8>>,
    password: Secret,
    caps_lock: bool,
    failed: bool,
    verifying: bool,
    fail_count: u32,
    locked_until: Option<u128>,
    next_attempt_id: u64,
    lock_held: bool,
    keyboard: bool,
    daemon: bool,
    diagnostics: Diagnostics,
}

impl View for Locker {
    type V = LockerView;

    closed spec fn view(&self) -> LockerView {
        LockerView {
            surfaces: self.surfaces@.map_values(|entry: Entry| entry@),
            kiosk_outputs: texts_of(self.kiosk_outputs@),
            socket_path: bytes_of(self.socket_path),
            password: self.password@,
            caps_lock: self.caps_lock,
            failed: self.failed,
            verifying: self.verifying,
            fail_count: self.fail_count,
            locked_until: self.locked_until,
            next_attempt_id: self.next_attempt_id,
            lock_held: self.lock_held,
            keyboard: self.keyboard,
            daemon: self.daemon,
            diagnostics: self.diagnostics,
        }
    }
}

/// Whether a character is a control character (Unicode category `Cc`).
pub open spec fn is_control(c: char) -> bool {
    (c as u32) <= 0x1f || 0x7f <= (c as u32) <= 0x9f
}

/// Whether a key's text is to be typed: there is some, and no control character in it.
pub open spec fn is_typed(text: Seq<char>) -> bool {
    text.len() > 0 && forall|i: int| 0 <= i < text.len() ==> !is_control(#[trigger] text[i])
}

/// How many seconds must pass after that many rejected attempts: one more for each, up to the
/// longest.
pub open spec fn backoff_secs(fail_count: u32) -> u32 {
    if fail_count < MAX_BACKOFF_SECS {
        fail_count
    } else {
        MAX_BACKOFF_SECS
    }
}

/// `n` plus one, held at the largest `u64`.
pub open spec fn next_id(n: u64) -> u64 {
    if n < u64::MAX {
        (n + 1) as u64
    } else {
        n
    }
}

/// `n` plus one, held at the largest `u32`.
pub open spec fn next_count(n: u32) -> u32 {
    if n < u32::MAX {
        (n + 1) as u32
    } else {
        n
    }
}

/// The surface that an output gets: its role goes by its name, an output without a name has the
/// empty one, and a scale below one counts as one.
pub open spec fn entry_for(kiosk_outputs: Seq<Seq<char>>, output: OutputInfoView) -> EntryView {
    let name = match output.name {
        Some(name) => name,
        None => Seq::empty(),
    };
    EntryView {
        role: role_of(kiosk_outputs, name),
        name,
        width: 0,
        height: 0,
        scale: match output.scale {
            Some(scale) => if scale > 1 {
                scale as u32
            } else {
                1
            },
            None => 1,
        },
    }
}

/// The outputs of one role among the first ones of a list, in their order, each with its number in
/// the list.
pub open spec fn of_role(
    kiosk_outputs: Seq<Seq<char>>,
    outputs: Seq<OutputInfoView>,
    role: OutputRole,
) -> Seq<(usize, EntryView)>
    decreases outputs.len(),
{
    if outputs.len() == 0 {
        Seq::empty()
    } else {
        let earlier = of_role(kiosk_outputs, outputs.drop_last(), role);
        let entry = entry_for(kiosk_outputs, outputs.last());
        if entry.role == role {
            earlier.push(((outputs.len() - 1) as usize, entry))
        } else {
            earlier
        }
    }
}

/// The order in which the outputs get their surfaces: the lock screens first, so that the
/// keyboard focus lands on one of them and never on a kiosk output.
pub open spec fn surface_order(
    kiosk_outputs: Seq<Seq<char>>,
    outputs: Seq<OutputInfoView>,
) -> Seq<(usize, EntryView)> {
    of_role(kiosk_outputs, outputs, OutputRole::Session) + of_role(
        kiosk_outputs,
        outputs,
        OutputRole::Kiosk,
    )
}

/// What creating surfaces in this order does.
pub open spec fn creations(order: Seq<(usize, EntryView)>) -> Seq<Effect>
    decreases order.len(),
{
    if order.len() == 0 {
        Seq::empty()
    } else {
        let entry = order.last().1;
        creations(order.drop_last()) + seq![
            Effect::CreateSurface(order.last().0),
            Effect::Log("nixlock:   '"@ + entry.name + "' -> "@ + entry.role.name()),
        ]
    }
}

/// Painting the first `n` surfaces, or only the lock screens among them.
pub open spec fn redraws(surfaces: Seq<EntryView>, n: int, locks_only: bool) -> Seq<Effect>
    decreases n,
{
    if n <= 0 {
        Seq::empty()
    } else {
        let earlier = redraws(surfaces, n - 1, locks_only);
        if locks_only && surfaces[n - 1].role == OutputRole::Kiosk {
            earlier
        } else {
            earlier.push(Effect::Redraw((n - 1) as usize))
        }
    }
}

impl LockerView {
    /// What content may learn of the current attempt.
    pub open spec fn auth_view(self) -> AuthView {
        AuthView {
            state: if self.verifying {
                AuthState::Verifying
            } else if self.failed {
                AuthState::Failed
            } else {
                AuthState::Idle(self.password.len() as usize)
            },
            caps_lock: self.caps_lock,
        }
    }

    /// Whether the backoff after a rejected attempt is still running.
    pub open spec fn backoff_active(self, now: u128) -> bool {
        self.locked_until matches Some(until) && now < until
    }

    pub open spec fn redraw_all(self) -> Seq<Effect> {
        redraws(self.surfaces, self.surfaces.len() as int, false)
    }

    pub open spec fn redraw_locks(self) -> Seq<Effect> {
        redraws(self.surfaces, self.surfaces.len() as int, true)
    }

    /// The typed password is submitted: it goes to the worker, unless an attempt is in flight, the
    /// backoff is running, or nothing was typed.
    pub open spec fn submit(self, now: u128) -> (LockerView, Seq<Effect>) {
        if self.verifying {
            (self, logged(self.diagnostics.submit_ignored_line("verification_in_flight"@)))
        } else if self.backoff_active(now) {
            (self, logged(self.diagnostics.submit_ignored_line("backoff_active"@)))
        } else if self.password.len() == 0 {
            (self, logged(self.diagnostics.submit_ignored_line("empty_input"@)))
        } else {
            (
                LockerView {
                    password: Seq::empty(),
                    verifying: true,
                    failed: false,
                    next_attempt_id: next_id(self.next_attempt_id),
                    ..self
                },
                self.redraw_locks() + logged(
                    self.diagnostics.auth_submitted_line(self.next_attempt_id),
                ) + seq![Effect::Send { id: self.next_attempt_id, password: self.password }],
            )
        }
    }

    /// The attempt did not reach the worker.
    pub open spec fn delivery_failed(self, attempt: u64) -> (LockerView, Seq<Effect>) {
        (
            LockerView { verifying: false, failed: true, ..self },
            logged(self.diagnostics.auth_delivery_failed_line(attempt)) + self.redraw_locks(),
        )
    }

    /// A verdict arrived. `Unlocked` gives the lock back; everything else stays locked, forgets what
    /// was typed, and starts the backoff.
    pub open spec fn on_auth(self, result: AuthResult, now: u128) -> (LockerView, Seq<Effect>) {
        let heard = logged(
            self.diagnostics.auth_result_received_line(result.id, result.outcome),
        );
        if result.outcome == AuthOutcome::Unlocked {
            (
                LockerView { verifying: false, lock_held: false, ..self },
                heard + logged(self.diagnostics.unlock_requested_line(result.id)) + (
                if self.lock_held {
                    seq![Effect::Unlock]
                } else {
                    Seq::empty()
                }) + seq![Effect::FlushUnlock(result.id)],
            )
        } else {
            let fail_count = next_count(self.fail_count);
            let secs = backoff_secs(fail_count);
            (
                LockerView {
                    verifying: false,
                    failed: true,
                    password: Seq::empty(),
                    fail_count,
                    locked_until: Some((now + secs * NANOS_PER_SEC) as u128),
                    ..self
                },
                heard + logged(
                    self.diagnostics.auth_failed_ui_line(result.id, (secs * 1000) as u64),
                ) + self.redraw_locks(),
            )
        }
    }

    /// The unlock request was flushed, or could not be: the process ends.
    pub open spec fn unlock_flushed(self, attempt: u64, error: Option<Seq<char>>) -> (
        LockerView,
        Seq<Effect>,
    ) {
        (
            self,
            logged(self.diagnostics.unlock_flushed_line(error is None)) + (match error {
                Some(cause) => seq![Effect::Log("nixlock: unlock flush failed: "@ + cause)],
                None => Seq::empty(),
            }) + logged(self.diagnostics.authenticated_exit_line(attempt)) + seq![Effect::Exit(0)],
        )
    }

    /// A key was pressed. While an attempt is in flight or the backoff runs, nothing happens.
    pub open spec fn press_key(self, keysym: u32, utf8: Option<Seq<char>>, now: u128) -> (
        LockerView,
        Seq<Effect>,
    ) {
        if self.verifying || self.backoff_active(now) {
            (self, Seq::empty())
        } else if keysym == KEY_RETURN || keysym == KEY_KP_ENTER {
            self.submit(now)
        } else if keysym == KEY_BACKSPACE {
            (
                LockerView {
                    password: if self.password.len() == 0 {
                        self.password
                    } else {
                        self.password.drop_last()
                    },
                    failed: false,
                    ..self
                },
                self.redraw_locks(),
            )
        } else if keysym == KEY_ESCAPE {
            (LockerView { password: Seq::empty(), failed: false, ..self }, self.redraw_locks())
        } else if utf8 matches Some(text) && is_typed(text) {
            (
                LockerView { password: self.password + utf8->0, failed: false, ..self },
                self.redraw_locks(),
            )
        } else {
            (self, Seq::empty())
        }
    }

    /// The state of the caps lock is known.
    pub open spec fn update_modifiers(self, caps_lock: bool) -> (LockerView, Seq<Effect>) {
        if caps_lock != self.caps_lock {
            (LockerView { caps_lock, ..self }, self.redraw_locks())
        } else {
            (self, Seq::empty())
        }
    }

    /// The lock was requested.
    pub open spec fn lock_requested(self) -> (LockerView, Seq<Effect>) {
        (LockerView { lock_held: true, ..self }, logged(self.diagnostics.lock_requested_line()))
    }

    /// The compositor confirmed the lock: every output gets a surface, a waiting parent is told,
    /// and the socket opens.
    pub open spec fn locked(self, outputs: Seq<OutputInfoView>) -> (LockerView, Seq<Effect>) {
        let order = surface_order(self.kiosk_outputs, outputs);
        (
            LockerView {
                surfaces: self.surfaces + order.map_values(|place: (usize, EntryView)| place.1),
                daemon: false,
                ..self
            },
            seq![Effect::Log("nixlock: locked; "@ + dec(outputs.len()) + " output(s)"@)] + logged(
                self.diagnostics.lock_acquired_line(outputs.len() as usize),
            ) + creations(order) + (if self.daemon {
                seq![Effect::NotifyReady]
            } else {
                Seq::empty()
            }) + seq![
                match self.socket_path {
                    Some(path) => Effect::Serve(path),
                    None => Effect::Log(no_socket_line()),
                },
            ],
        )
    }

    /// The lock is over, or was refused: the process ends with an error, and nothing is unlocked.
    pub open spec fn finished(self) -> (LockerView, Seq<Effect>) {
        (
            self,
            seq![Effect::Log("nixlock: lock finished/rejected"@)] + logged(
                self.diagnostics.lock_finished_line(),
            ) + seq![Effect::Exit(1)],
        )
    }

    /// A surface got its size; the kiosk output's is what the socket then reports and checks
    /// against.
    pub open spec fn configure(self, surface: usize, width: u32, height: u32) -> (
        LockerView,
        Seq<Effect>,
    ) {
        if surface < self.surfaces.len() {
            let entry = self.surfaces[surface as int];
            (
                LockerView {
                    surfaces: self.surfaces.update(
                        surface as int,
                        EntryView { width, height, ..entry },
                    ),
                    ..self
                },
                logged(
                    self.diagnostics.surface_configured_line(
                        entry.name,
                        entry.role,
                        width,
                        height,
                        entry.scale,
                    ),
                ) + (if entry.role == OutputRole::Kiosk {
                    seq![Effect::SetGeometry { width, height, scale: entry.scale }]
                } else {
                    Seq::empty()
                }) + seq![Effect::Redraw(surface)],
            )
        } else {
            (self, Seq::empty())
        }
    }

    /// A seat offers a keyboard: it is taken, unless there is one already.
    pub open spec fn new_capability(self) -> (LockerView, Seq<Effect>) {
        if self.keyboard {
            (self, Seq::empty())
        } else {
            (
                self,
                logged(self.diagnostics.keyboard_capability_line(true)) + seq![
                    Effect::GetKeyboard,
                ],
            )
        }
    }

    /// The keyboard was taken.
    pub open spec fn keyboard_acquired(self) -> (LockerView, Seq<Effect>) {
        (LockerView { keyboard: true, ..self }, Seq::empty())
    }

    /// The seat's keyboard is gone: the one held is released.
    pub open spec fn remove_capability(self) -> (LockerView, Seq<Effect>) {
        (
            LockerView { keyboard: false, ..self },
            logged(self.diagnostics.keyboard_capability_line(false)) + (if self.keyboard {
                seq![Effect::ReleaseKeyboard]
            } else {
                Seq::empty()
            }),
        )
    }

    /// The keyboard focus moved.
    pub open spec fn focus(self, entered: bool, surface: Option<usize>) -> (
        LockerView,
        Seq<Effect>,
    ) {
        let place = match surface {
            Some(number) => if number < self.surfaces.len() {
                Some(
                    (self.surfaces[number as int].name, self.surfaces[number as int].role),
                )
            } else {
                None
            },
            None => None,
        };
        (self, logged(self.diagnostics.keyboard_focus_line(entered, place)))
    }

    /// The parent was told that the lock is held, or is gone.
    pub open spec fn ready_notified(self, ok: bool) -> (LockerView, Seq<Effect>) {
        (
            self,
            logged(self.diagnostics.daemon_ready_line(ok)) + (if ok {
                Seq::empty()
            } else {
                seq![
                    Effect::Log(
                        "nixlock: daemon parent disappeared before lock readiness was reported"@,
                    ),
                ]
            }),
        )
    }

    /// A second has passed: an expired backoff is forgotten, a `SIGUSR1` is noted, and everything
    /// is painted anew.
    pub open spec fn tick(self, sigusr1: bool, now: u128) -> (LockerView, Seq<Effect>) {
        (
            LockerView {
                locked_until: if self.backoff_active(now) {
                    self.locked_until
                } else {
                    None
                },
                ..self
            },
            (if sigusr1 {
                seq![Effect::Log("nixlock: SIGUSR1: re-showing the password indicator"@)] + logged(
                    self.diagnostics.sigusr1_line(),
                )
            } else {
                Seq::empty()
            }) + self.redraw_all(),
        )
    }

    /// What follows from an event at the time `now`: the next state and what to do.
    pub open spec fn step(self, event: EventView, now: u128) -> (LockerView, Seq<Effect>) {
        match event {
            EventView::LockRequested => self.lock_requested(),
            EventView::Locked(outputs) => self.locked(outputs),
            EventView::Finished => self.finished(),
            EventView::Configured { surface, width, height } => self.configure(
                surface,
                width,
                height,
            ),
            EventView::KeyboardFound => self.new_capability(),
            EventView::KeyboardAcquired => self.keyboard_acquired(),
            EventView::KeyboardLost => self.remove_capability(),
            EventView::Focus { entered, place } => self.focus(entered, place),
            EventView::Key { keysym, utf8 } => self.press_key(keysym, utf8, now),
            EventView::CapsLock(on) => self.update_modifiers(on),
            EventView::AuthResult(result) => self.on_auth(result, now),
            EventView::DeliveryFailed(attempt) => self.delivery_failed(attempt),
            EventView::UnlockFlushed { attempt, error } => self.unlock_flushed(attempt, error),
            EventView::ReadyNotified(ok) => self.ready_notified(ok),
            EventView::Tick { sigusr1 } => self.tick(sigusr1, now),
            EventView::FrameArrived => (self, self.redraw_all()),
        }
    }
}

/// The log line for a host that has no place for the socket.
pub open spec fn no_socket_line() -> Seq<char> {
    "nixlock: socket: no XDG_RUNTIME_DIR and no socket_path configured; kiosk socket disabled"@
}

/// The state in which a locker starts.
pub open spec fn initial_locker(
    kiosk_outputs: Seq<Seq<char>>,
    socket_path: Option<Seq<u8>>,
    diagnostics: Diagnostics,
    daemon: bool,
) -> LockerView {
    LockerView {
        surfaces: Seq::empty(),
        kiosk_outputs,
        socket_path,
        password: Seq::empty(),
        caps_lock: false,
        failed: false,
        verifying: false,
        fail_count: 0,
        locked_until: None,
        next_attempt_id: 1,
        lock_held: false,
        keyboard: false,
        daemon,
        diagnostics,
    }
}

fn control(c: char) -> (found: bool)
    ensures
        found == is_control(c),
{
    let code: u32 = c as u32;
    code <= 0x1f || (0x7f <= code && code <= 0x9f)
}

fn typed(text: &str) -> (yes: bool)
    ensures
        yes == is_typed(text@),
{
    let count: usize = text.unicode_len();
    let mut i: usize = 0;
    while i < count
        invariant
            i <= count,
            count == text@.len(),
            forall|j: int| 0 <= j < i ==> !is_control(#[trigger] text@[j]),
        decreases count - i,
    {
        if control(text.get_char(i)) {
            assert(is_control(text@[i as int]));
            return false;
        }
        i += 1;
    }
    count > 0
}

fn entry_of(kiosk_outputs: &Vec<String>, output: &OutputInfo) -> (entry: Entry)
    ensures
        entry@ == entry_for(texts_of(kiosk_outputs@), output@),
{
    let name = match &output.name {
        Some(name) => name.clone(),
        None => String::new(),
    };
    let scale: u32 = match output.scale {
        Some(scale) => if scale > 1 {
            scale as u32
        } else {
            1
        },
        None => 1,
    };
    let role = role_for(kiosk_outputs.as_slice(), name.as_str());
    Entry { role, name, width: 0, height: 0, scale }
}

impl Locker {
    /// A locker that holds no lock yet. `runtime_dir` is the session's runtime directory,
    /// `instance` the process number for the diagnostics, `daemon` whether a parent waits.
    pub fn new(config: Config, runtime_dir: Option<Vec<u8>>, instance: u32, daemon: bool) -> (locker:
        Locker)
        ensures
            locker@ == initial_locker(
                texts_of(config.kiosk_outputs@),
                socket_path(bytes_of(config.socket_path), bytes_of(runtime_dir)),
                Diagnostics { enabled: config.debug, instance },
                daemon,
            ),
    {
        let locker = Locker {
            surfaces: Vec::new(),
            kiosk_outputs: config.kiosk_outputs,
            socket_path: resolve_path(config.socket_path, runtime_dir),
            password: Secret::new(),
            caps_lock: false,
            failed: false,
            verifying: false,
            fail_count: 0,
            locked_until: None,
            next_attempt_id: 1,
            lock_held: false,
            keyboard: false,
            daemon,
            diagnostics: Diagnostics::new(config.debug, instance),
        };
        assert(locker@.surfaces == Seq::<EntryView>::empty());
        locker
    }

    /// What content may learn of the current attempt.
    pub fn auth_view(&self) -> (view: AuthView)
        ensures
            view == self@.auth_view(),
    {
        let state = if self.verifying {
            AuthState::Verifying
        } else if self.failed {
            AuthState::Failed
        } else {
            AuthState::Idle(self.password.char_count())
        };
        AuthView { state, caps_lock: self.caps_lock }
    }

    /// The lock surfaces, by their numbers.
    pub fn surfaces(&self) -> (surfaces: &Vec<Entry>)
        ensures
            surfaces@.map_values(|entry: Entry| entry@) == self@.surfaces,
    {
        &self.surfaces
    }

    /// The diagnostics of this process.
    pub fn diagnostics(&self) -> (diagnostics: Diagnostics)
        ensures
            diagnostics == self@.diagnostics,
    {
        self.diagnostics
    }

    /// Whether the backoff after a rejected attempt is still running.
    pub fn backoff_active(&self, now: u128) -> (active: bool)
        ensures
            active == self@.backoff_active(now),
    {
        match self.locked_until {
            Some(until) => now < until,
            None => false,
        }
    }

    fn push_redraws(&self, actions: &mut Vec<Action>, locks_only: bool)
        ensures
            effects(final(actions)@) == effects(old(actions)@) + redraws(
                self@.surfaces,
                self@.surfaces.len() as int,
                locks_only,
            ),
    {
        let mut i: usize = 0;
        while i < self.surfaces.len()
            invariant
                i <= self.surfaces@.len(),
                self@.surfaces.len() == self.surfaces@.len(),
                effects(actions@) == effects(old(actions)@) + redraws(
                    self@.surfaces,
                    i as int,
                    locks_only,
                ),
            decreases self.surfaces@.len() - i,
        {
            let paint = match self.surfaces[i].role {
                OutputRole::Session => true,
                OutputRole::Kiosk => !locks_only,
            };
            assert(self@.surfaces[i as int].role == self.surfaces@[i as int].role);
            if paint {
                push_action(actions, Action::Redraw(i));
            }
            i += 1;
        }
    }

    /// Paints every surface.
    pub fn redraw_all(&self) -> (actions: Vec<Action>)
        ensures
            effects(actions@) == self@.redraw_all(),
    {
        let mut actions: Vec<Action> = Vec::new();
        self.push_redraws(&mut actions, false);
        assert(effects(actions@) == self@.redraw_all());
        actions
    }

    /// Paints the lock screens.
    pub fn redraw_locks(&self) -> (actions: Vec<Action>)
        ensures
            effects(actions@) == self@.redraw_locks(),
    {
        let mut actions: Vec<Action> = Vec::new();
        self.push_redraws(&mut actions, true);
        assert(effects(actions@) == self@.redraw_locks());
        actions
    }

    /// Submits what was typed.
    pub fn submit(&mut self, now: u128) -> (actions: Vec<Action>)
        ensures
            (final(self)@, effects(actions@)) == old(self)@.submit(now),
    {
        let mut actions: Vec<Action> = Vec::new();
        if self.verifying {
            push_log(&mut actions, self.diagnostics.submit_ignored("verification_in_flight"));
            return actions;
        }
        if self.backoff_active(now) {
            push_log(&mut actions, self.diagnostics.submit_ignored("backoff_active"));
            return actions;
        }
        if self.password.is_empty() {
            push_log(&mut actions, self.diagnostics.submit_ignored("empty_input"));
            return actions;
        }
        let attempt: u64 = self.next_attempt_id;
        self.next_attempt_id = self.next_attempt_id.saturating_add(1);
        let password = self.password.take();
        self.verifying = true;
        self.failed = false;
        self.push_redraws(&mut actions, true);
        push_log(&mut actions, self.diagnostics.auth_submitted(attempt));
        push_action(&mut actions, Action::Send(AuthAttempt { id: attempt, password }));
        actions
    }

    /// The attempt did not reach the worker.
    pub fn delivery_failed(&mut self, attempt: u64) -> (actions: Vec<Action>)
        ensures
            (final(self)@, effects(actions@)) == old(self)@.delivery_failed(attempt),
    {
        let mut actions: Vec<Action> = Vec::new();
        push_log(&mut actions, self.diagnostics.auth_delivery_failed(attempt));
        self.verifying = false;
        self.failed = true;
        self.push_redraws(&mut actions, true);
        actions
    }

    /// Takes in the verdict on an attempt.
    pub fn on_auth(&mut self, result: AuthResult, now: u128) -> (actions: Vec<Action>)
        requires
            now <= MAX_NOW,
        ensures
            (final(self)@, effects(actions@)) == old(self)@.on_auth(result, now),
    {
        let mut actions: Vec<Action> = Vec::new();
        push_log(&mut actions, self.diagnostics.auth_result_received(result.id, result.outcome));
        self.verifying = false;
        match result.outcome {
            AuthOutcome::Unlocked => {
                push_log(&mut actions, self.diagnostics.unlock_requested(result.id));
                if self.lock_held {
                    self.lock_held = false;
                    push_action(&mut actions, Action::Unlock);
                }
                push_action(&mut actions, Action::FlushUnlock(result.id));
            },
            AuthOutcome::Wrong | AuthOutcome::MaxTries | AuthOutcome::Error => {
                self.failed = true;
                self.password.clear();
                self.fail_count = self.fail_count.saturating_add(1);
                let secs: u32 = if self.fail_count < MAX_BACKOFF_SECS {
                    self.fail_count
                } else {
                    MAX_BACKOFF_SECS
                };
                self.locked_until = Some(now + secs as u128 * NANOS_PER_SEC);
                push_log(
                    &mut actions,
                    self.diagnostics.auth_failed_ui(result.id, secs as u64 * 1000),
                );
                self.push_redraws(&mut actions, true);
            },
        }
        actions
    }

    /// The unlock request was flushed, or could not be.
    pub fn unlock_flushed(&mut self, attempt: u64, error: Option<String>) -> (actions: Vec<Action>)
        ensures
            (final(self)@, effects(actions@)) == old(self)@.unlock_flushed(
                attempt,
                text_of(error),
            ),
    {
        let mut actions: Vec<Action> = Vec::new();
        push_log(&mut actions, self.diagnostics.unlock_flushed(error.is_none()));
        match error {
            Some(cause) => {
                let mut line = "nixlock: unlock flush failed: ".to_owned();
                line.append(cause.as_str());
                push_action(&mut actions, Action::Log(line));
            },
            None => {},
        }
        push_log(&mut actions, self.diagnostics.authenticated_exit(attempt));
        push_action(&mut actions, Action::Exit(0));
        actions
    }

    /// Takes in a key.
    pub fn press_key(&mut self, keysym: u32, utf8: Option<String>, now: u128) -> (actions: Vec<
        Action,
    >)
        ensures
            (final(self)@, effects(actions@)) == old(self)@.press_key(keysym, text_of(utf8), now),
    {
        let mut actions: Vec<Action> = Vec::new();
        if self.verifying || self.backoff_active(now) {
            return actions;
        }
        if keysym == KEY_RETURN || keysym == KEY_KP_ENTER {
            return self.submit(now);
        }
        if keysym == KEY_BACKSPACE {
            self.password.pop();
            self.failed = false;
            self.push_redraws(&mut actions, true);
        } else if keysym == KEY_ESCAPE {
            self.password.clear();
            self.failed = false;
            self.push_redraws(&mut actions, true);
        } else {
            match utf8 {
                Some(text) => {
                    if typed(text.as_str()) {
                        self.password.push_str(text.as_str());
                        self.failed = false;
                        self.push_redraws(&mut actions, true);
                    }
                },
                None => {},
            }
        }
        actions
    }

    /// Takes in the state of the caps lock.
    pub fn update_modifiers(&mut self, caps_lock: bool) -> (actions: Vec<Action>)
        ensures
            (final(self)@, effects(actions@)) == old(self)@.update_modifiers(caps_lock),
    {
        let mut actions: Vec<Action> = Vec::new();
        if caps_lock != self.caps_lock {
            self.caps_lock = caps_lock;
            self.push_redraws(&mut actions, true);
        }
        actions
    }

    /// The lock was requested.
    pub fn lock_requested(&mut self) -> (actions: Vec<Action>)
        ensures
            (final(self)@, effects(actions@)) == old(self)@.lock_requested(),
    {
        let mut actions: Vec<Action> = Vec::new();
        push_log(&mut actions, self.diagnostics.lock_requested());
        self.lock_held = true;
        actions
    }

    /// Gives the outputs of one role their surfaces.
    fn push_surfaces(&mut self, actions: &mut Vec<Action>, outputs: &Vec<OutputInfo>, role: OutputRole)
        ensures
            ({
                let views = outputs@.map_values(|output: OutputInfo| output@);
                let places = of_role(old(self)@.kiosk_outputs, views, role);
                &&& final(self)@ == LockerView {
                    surfaces: old(self)@.surfaces + places.map_values(
                        |place: (usize, EntryView)| place.1,
                    ),
                    ..old(self)@
                }
                &&& effects(final(actions)@) == effects(old(actions)@) + creations(places)
            }),
    {
        let ghost views = outputs@.map_values(|output: OutputInfo| output@);
        let ghost kiosks = self@.kiosk_outputs;
        let mut i: usize = 0;
        while i < outputs.len()
            invariant
                i <= outputs@.len(),
                views == outputs@.map_values(|output: OutputInfo| output@),
                kiosks == old(self)@.kiosk_outputs,
                self@ == (LockerView {
                    surfaces: old(self)@.surfaces + of_role(
                        kiosks,
                        views.take(i as int),
                        role,
                    ).map_values(|place: (usize, EntryView)| place.1),
                    ..old(self)@
                }),
                effects(actions@) == effects(old(actions)@) + creations(
                    of_role(kiosks, views.take(i as int), role),
                ),
            decreases outputs@.len() - i,
        {
            let entry = entry_of(&self.kiosk_outputs, &outputs[i]);
            let ghost earlier = of_role(kiosks, views.take(i as int), role);
            proof {
                assert(views.take(i + 1).drop_last() == views.take(i as int));
                assert(views.take(i + 1).last() == outputs@[i as int]@);
            }
            if entry.role == role {
                let ghost place = (i, entry@);
                proof {
                    assert(of_role(kiosks, views.take(i + 1), role) == earlier.push(place));
                    assert(earlier.push(place).drop_last() == earlier);
                }
                push_action(actions, Action::CreateSurface(i));
                let mut line = "nixlock:   '".to_owned();
                line.append(entry.name.as_str());
                line.append("' -> ");
                line.append(entry.role.label());
                push_action(actions, Action::Log(line));
                let ghost before = self@;
                self.surfaces.push(entry);
                assert(self@.surfaces == before.surfaces.push(entry@));
            }
            i += 1;
        }
        assert(views.take(outputs@.len() as int) == views);
    }

    /// The compositor confirmed the lock and lists these outputs.
    pub fn locked(&mut self, outputs: Vec<OutputInfo>) -> (actions: Vec<Action>)
        ensures
            (final(self)@, effects(actions@)) == old(self)@.locked(
                outputs@.map_values(|output: OutputInfo| output@),
            ),
    {
        let mut actions: Vec<Action> = Vec::new();
        let mut line = "nixlock: locked; ".to_owned();
        line.append(dec_text(outputs.len() as u128).as_str());
        line.append(" output(s)");
        push_action(&mut actions, Action::Log(line));
        push_log(&mut actions, self.diagnostics.lock_acquired(outputs.len()));
        let ghost views = outputs@.map_values(|output: OutputInfo| output@);
        let ghost sessions = of_role(self@.kiosk_outputs, views, OutputRole::Session);
        let ghost kiosks = of_role(self@.kiosk_outputs, views, OutputRole::Kiosk);
        proof {
            lemma_creations_join(sessions, kiosks);
        }
        self.push_surfaces(&mut actions, &outputs, OutputRole::Session);
        self.push_surfaces(&mut actions, &outputs, OutputRole::Kiosk);
        if self.daemon {
            self.daemon = false;
            push_action(&mut actions, Action::NotifyReady);
        }
        match &self.socket_path {
            Some(path) => {
                let path = path.clone();
                assert(path@ == self@.socket_path->0);
                push_action(&mut actions, Action::Serve(path));
            },
            None => {
                push_action(
                    &mut actions,
                    Action::Log(
                        "nixlock: socket: no XDG_RUNTIME_DIR and no socket_path configured; kiosk socket disabled".to_owned(),
                    ),
                );
            },
        }
        actions
    }

    /// The lock is over, or was refused.
    pub fn finished(&mut self) -> (actions: Vec<Action>)
        ensures
            (final(self)@, effects(actions@)) == old(self)@.finished(),
    {
        let mut actions: Vec<Action> = Vec::new();
        push_action(&mut actions, Action::Log("nixlock: lock finished/rejected".to_owned()));
        push_log(&mut actions, self.diagnostics.lock_finished());
        push_action(&mut actions, Action::Exit(1));
        actions
    }

    /// The surface with this number got a size.
    pub fn configure(&mut self, surface: usize, width: u32, height: u32) -> (actions: Vec<Action>)
        ensures
            (final(self)@, effects(actions@)) == old(self)@.configure(surface, width, height),
    {
        let mut actions: Vec<Action> = Vec::new();
        if surface >= self.surfaces.len() {
            return actions;
        }
        let role = self.surfaces[surface].role;
        let scale: u32 = self.surfaces[surface].scale;
        push_log(
            &mut actions,
            self.diagnostics.surface_configured(
                self.surfaces[surface].name.as_str(),
                role,
                width,
                height,
                scale,
            ),
        );
        self.surfaces[surface].width = width;
        self.surfaces[surface].height = height;
        assert(self@.surfaces == old(self)@.surfaces.update(
            surface as int,
            EntryView { width, height, ..old(self)@.surfaces[surface as int] },
        ));
        if role == OutputRole::Kiosk {
            push_action(&mut actions, Action::SetGeometry { width, height, scale });
        }
        push_action(&mut actions, Action::Redraw(surface));
        actions
    }

    /// A seat offers a keyboard.
    pub fn new_capability(&mut self) -> (actions: Vec<Action>)
        ensures
            (final(self)@, effects(actions@)) == old(self)@.new_capability(),
    {
        let mut actions: Vec<Action> = Vec::new();
        if !self.keyboard {
            push_log(&mut actions, self.diagnostics.keyboard_capability(true));
            push_action(&mut actions, Action::GetKeyboard);
        }
        actions
    }

    /// The keyboard was taken.
    pub fn keyboard_acquired(&mut self) -> (actions: Vec<Action>)
        ensures
            (final(self)@, effects(actions@)) == old(self)@.keyboard_acquired(),
    {
        self.keyboard = true;
        Vec::new()
    }

    /// The seat's keyboard is gone.
    pub fn remove_capability(&mut self) -> (actions: Vec<Action>)
        ensures
            (final(self)@, effects(actions@)) == old(self)@.remove_capability(),
    {
        let mut actions: Vec<Action> = Vec::new();
        push_log(&mut actions, self.diagnostics.keyboard_capability(false));
        if self.keyboard {
            self.keyboard = false;
            push_action(&mut actions, Action::ReleaseKeyboard);
        }
        actions
    }

    /// The keyboard focus came to a surface, or left it.
    pub fn focus(&mut self, entered: bool, surface: Option<usize>) -> (actions: Vec<Action>)
        ensures
            (final(self)@, effects(actions@)) == old(self)@.focus(entered, surface),
    {
        let mut actions: Vec<Action> = Vec::new();
        let place: Option<(&str, OutputRole)> = match surface {
            Some(number) => if number < self.surfaces.len() {
                assert(self@.surfaces[number as int] == self.surfaces@[number as int]@);
                Some((self.surfaces[number].name.as_str(), self.surfaces[number].role))
            } else {
                None
            },
            None => None,
        };
        push_log(&mut actions, self.diagnostics.keyboard_focus(entered, place));
        actions
    }

    /// The waiting parent was told that the lock is held, or is gone.
    pub fn ready_notified(&mut self, ok: bool) -> (actions: Vec<Action>)
        ensures
            (final(self)@, effects(actions@)) == old(self)@.ready_notified(ok),
    {
        let mut actions: Vec<Action> = Vec::new();
        push_log(&mut actions, self.diagnostics.daemon_ready(ok));
        if !ok {
            push_action(
                &mut actions,
                Action::Log(
                    "nixlock: daemon parent disappeared before lock readiness was reported".to_owned(),
                ),
            );
        }
        actions
    }

    /// A second has passed.
    pub fn tick(&mut self, sigusr1: bool, now: u128) -> (actions: Vec<Action>)
        ensures
            (final(self)@, effects(actions@)) == old(self)@.tick(sigusr1, now),
    {
        let mut actions: Vec<Action> = Vec::new();
        if !self.backoff_active(now) {
            self.locked_until = None;
        }
        if sigusr1 {
            push_action(
                &mut actions,
                Action::Log("nixlock: SIGUSR1: re-showing the password indicator".to_owned()),
            );
            push_log(&mut actions, self.diagnostics.sigusr1());
        }
        self.push_redraws(&mut actions, false);
        actions
    }

    /// Takes in an event at the time `now`, in nanoseconds of a clock that never goes back, and says
    /// what to do.
    pub fn handle(&mut self, event: Event, now: u128) -> (actions: Vec<Action>)
        requires
            now <= MAX_NOW,
        ensures
            (final(self)@, effects(actions@)) == old(self)@.step(event@, now),
    {
        match event {
            Event::LockRequested => self.lock_requested(),
            Event::Locked(outputs) => self.locked(outputs),
            Event::Finished => self.finished(),
            Event::Configured { surface, width, height } => self.configure(surface, width, height),
            Event::KeyboardFound => self.new_capability(),
            Event::KeyboardAcquired => self.keyboard_acquired(),
            Event::KeyboardLost => self.remove_capability(),
            Event::Focus { entered, place } => self.focus(entered, place),
            Event::Key { keysym, utf8 } => self.press_key(keysym, utf8, now),
            Event::CapsLock(on) => self.update_modifiers(on),
            Event::AuthResult(result) => self.on_auth(result, now),
            Event::DeliveryFailed(attempt) => self.delivery_failed(attempt),
            Event::UnlockFlushed { attempt, error } => self.unlock_flushed(attempt, error),
            Event::ReadyNotified(ok) => self.ready_notified(ok),
            Event::Tick { sigusr1 } => self.tick(sigusr1, now),
            Event::FrameArrived => self.redraw_all(),
        }
    }
}

/// Creating surfaces in one order and then in another is creating them in the joint order.
proof fn lemma_creations_join(first: Seq<(usize, EntryView)>, second: Seq<(usize, EntryView)>)
    ensures
        creations(first + second) == creations(first) + creations(second),
    decreases second.len(),
{
    if second.len() == 0 {
        assert(first + second == first);
    } else {
        lemma_creations_join(first, second.drop_last());
        assert((first + second).drop_last() == first + second.drop_last());
        assert((first + second).last() == second.last());
    }
}

} // verus!
