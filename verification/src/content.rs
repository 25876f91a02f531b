//! The content interface of an output: its role, what it may know of the current attempt, and the
//! trait that paints it.

use vstd::prelude::*;
use vstd::string::*;

use crate::text::texts_of;

verus! {

/// Which surface an output carries. `Kiosk` is a live display with no password affordance,
/// `Session` is the lock screen. Whatever is not named a kiosk output is `Session`: the safe
/// default, so that an unknown monitor shows the lock screen.
#[derive(Clone, Copy, PartialEq, Eq, Structural, Debug)]
pub enum OutputRole {
    Kiosk,
    Session,
}

impl OutputRole {
    /// The role's name.
    pub open spec fn name(self) -> Seq<char> {
        match self {
            OutputRole::Kiosk => "Kiosk"@,
            OutputRole::Session => "Session"@,
        }
    }

    /// The role's name, as it stands in the log.
    pub fn label(self) -> (text: &'static str)
        ensures
            text@ == self.name(),
    {
        match self {
            OutputRole::Kiosk => "Kiosk",
            OutputRole::Session => "Session",
        }
    }
}

/// The role of the output `name`: `Kiosk` exactly when the configured list holds the very same
/// name.
pub open spec fn role_of(kiosk_outputs: Seq<Seq<char>>, name: Seq<char>) -> OutputRole {
    if kiosk_outputs.contains(name) {
        OutputRole::Kiosk
    } else {
        OutputRole::Session
    }
}

/// Decides an output's role from its connector name: whole-string, case-sensitive equality
/// against the configured kiosk list.
pub fn role_for(kiosk_outputs: &[String], name: &str) -> (role: OutputRole)
    ensures
        role == role_of(texts_of(kiosk_outputs@), name@),
{
    let wanted = name.to_owned();
    let mut i: usize = 0;
    while i < kiosk_outputs.len()
        invariant
            i <= kiosk_outputs@.len(),
            wanted@ == name@,
            forall|j: int| 0 <= j < i ==> (#[trigger] kiosk_outputs@[j])@ != name@,
        decreases kiosk_outputs@.len() - i,
    {
        if kiosk_outputs[i] == wanted {
            proof {
                assert(texts_of(kiosk_outputs@)[i as int] == name@);
            }
            return OutputRole::Kiosk;
        }
        i += 1;
    }
    OutputRole::Session
}

/// What the lock screen may show of the current attempt. The password itself is never here, only
/// its shape.
#[derive(Clone, Copy, PartialEq, Eq, Structural, Debug)]
pub enum AuthState {
    /// No attempt in progress; the number of characters typed so far.
    Idle(usize),
    /// An attempt is running; input is inert until it resolves.
    Verifying,
    /// The last attempt was rejected.
    Failed,
}

/// What content learns of the attempt on each frame (meaningful on `Session` outputs only).
#[derive(Clone, Copy, PartialEq, Eq, Structural, Debug)]
pub struct AuthView {
    pub state: AuthState,
    pub caps_lock: bool,
}

/// Everything content needs to paint one output once.
pub struct Frame<'a> {
    pub role: OutputRole,
    pub output_name: &'a str,
    pub width: u32,
    pub height: u32,
    pub auth: AuthView,
}

/// The contents of a request to paint.
pub ghost struct FrameRequest {
    pub role: OutputRole,
    pub output_name: Seq<char>,
    pub width: u32,
    pub height: u32,
    pub auth: AuthView,
}

impl<'a> View for Frame<'a> {
    type V = FrameRequest;

    open spec fn view(&self) -> FrameRequest {
        FrameRequest {
            role: self.role,
            output_name: self.output_name@,
            width: self.width,
            height: self.height,
            auth: self.auth,
        }
    }
}

/// Nanoseconds in one second.
pub const NANOS_PER_SEC: u128 = 1_000_000_000;

/// Pluggable content of an output.
pub trait KioskContent: Send + 'static {
    /// Whether this content may paint `rgba` on that request and then be `after`. What content
    /// paints is its own affair; this relation only lets callers say which request was painted.
    /// Content that says nothing of it may paint anything.
    open spec fn paints(&self, request: FrameRequest, rgba: Seq<u8>, after: &Self) -> bool {
        true
    }

    /// Paints one output: premultiplied RGBA8, exactly `width * height * 4` bytes. A buffer of
    /// another size is never shown; the output then falls back to the lock screen.
    fn paint(&mut self, frame: &Frame) -> (rgba: Vec<u8>)
        ensures
            old(self).paints(frame@, rgba@, final(self)),
    ;

    /// How often to repaint without input, in nanoseconds: an output never waits longer than this
    /// for a repaint.
    fn tick_interval(&self) -> (nanos: u128)
        default_ensures
            nanos == NANOS_PER_SEC,
    {
        NANOS_PER_SEC
    }
}

/// The delay between two ticks: the lesser of the intervals at which the clock of the kiosk
/// outputs and the lock screen ask to be repainted, so that neither waits longer than it asked for.
pub open spec fn tick_delay(clock: u128, lock: u128) -> u128 {
    if clock <= lock {
        clock
    } else {
        lock
    }
}

/// Picks the delay until the next tick from the two intervals.
pub fn next_tick(clock: u128, lock: u128) -> (delay: u128)
    ensures
        delay == tick_delay(clock, lock),
{
    if clock <= lock {
        clock
    } else {
        lock
    }
}

/// Asks the two contents of a run for their intervals, and picks the delay until the next tick.
pub fn content_tick<K: KioskContent, S: KioskContent>(clock: &K, lock: &S) -> (delay: u128)
    ensures
        exists|a: u128, b: u128|
            #![trigger tick_delay(a, b)]
            call_ensures(K::tick_interval, (clock,), a) && call_ensures(
                S::tick_interval,
                (lock,),
                b,
            ) && delay == tick_delay(a, b),
{
    let a: u128 = clock.tick_interval();
    let b: u128 = lock.tick_interval();
    next_tick(a, b)
}

/// With no kiosk output configured, every output is a lock screen.
pub proof fn lemma_no_kiosk_configured(name: Seq<char>)
    ensures
        role_of(Seq::empty(), name) == OutputRole::Session,
{
}

/// An output that is configured is the kiosk, wherever in the list it stands, and an output
/// whose name differs from every configured name is a lock screen.
pub proof fn lemma_role_is_exact_name(kiosk_outputs: Seq<Seq<char>>, name: Seq<char>)
    ensures
        role_of(kiosk_outputs, name) == OutputRole::Kiosk <==> exists|i: int|
            0 <= i < kiosk_outputs.len() && kiosk_outputs[i] == name,
{
}

/// Neither content waits longer for a tick than it asked for, and no tick comes sooner than one of
/// them asked for.
pub proof fn lemma_tick_is_the_lesser_interval(clock: u128, lock: u128)
    ensures
        tick_delay(clock, lock) <= clock,
        tick_delay(clock, lock) <= lock,
        tick_delay(clock, lock) == clock || tick_delay(clock, lock) == lock,
{
}

} // verus!
