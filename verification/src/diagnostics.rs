//! Structured, credential-blind diagnostics of one locker process.
//!
//! There is one named method for each event rather than a general logging interface: lifecycle,
//! display and verdict metadata can be reported, and nothing that bears a credential is accepted
//! anywhere. Each method returns the line to print, or `None` while diagnostics are off.

use vstd::prelude::*;
use vstd::string::*;

use crate::auth::{code_label, code_name, AuthOutcome, AuthStage, PamCode, Verdict};
use crate::content::OutputRole;
use crate::text::{debug_text, dec, dec_text, quoted, text_of};

verus! {

/// Whether diagnostics are on, and the number that tells this process apart in the journal.
#[derive(Clone, Copy, PartialEq, Eq, Structural, Debug)]
pub struct Diagnostics {
    pub enabled: bool,
    pub instance: u32,
}

impl Diagnostics {
    /// The line for an event with these fields; nothing while diagnostics are off.
    pub open spec fn line(self, fields: Seq<char>) -> Option<Seq<char>> {
        if self.enabled {
            Some("nixlock[debug]: instance="@ + dec(self.instance as nat) + " "@ + fields)
        } else {
            None
        }
    }

    pub fn new(enabled: bool, instance: u32) -> (diagnostics: Diagnostics)
        ensures
            diagnostics == (Diagnostics { enabled, instance }),
    {
        Diagnostics { enabled, instance }
    }

    /// Makes the line of an event from its fields.
    pub fn emit(&self, fields: String) -> (line: Option<String>)
        ensures
            text_of(line) == self.line(fields@),
    {
        if self.enabled {
            let mut line = "nixlock[debug]: instance=".to_owned();
            line.append(dec_text(self.instance as u128).as_str());
            line.append(" ");
            line.append(fields.as_str());
            Some(line)
        } else {
            None
        }
    }

    pub open spec fn startup_line(self) -> Option<Seq<char>> {
        self.line("event=start"@)
    }

    /// The process starts.
    pub fn startup(&self) -> (line: Option<String>)
        ensures
            text_of(line) == self.startup_line(),
    {
        self.emit("event=start".to_owned())
    }

    pub open spec fn wayland_connected_line(self) -> Option<Seq<char>> {
        self.line("event=wayland_connected"@)
    }

    /// The compositor is reached.
    pub fn wayland_connected(&self) -> (line: Option<String>)
        ensures
            text_of(line) == self.wayland_connected_line(),
    {
        self.emit("event=wayland_connected".to_owned())
    }

    pub open spec fn lock_requested_line(self) -> Option<Seq<char>> {
        self.line("event=lock_requested"@)
    }

    /// The lock was requested.
    pub fn lock_requested(&self) -> (line: Option<String>)
        ensures
            text_of(line) == self.lock_requested_line(),
    {
        self.emit("event=lock_requested".to_owned())
    }

    pub open spec fn lock_acquired_line(self, outputs: usize) -> Option<Seq<char>> {
        self.line("event=lock_acquired outputs="@
                + dec(outputs as nat))
    }

    /// The compositor confirmed the lock.
    pub fn lock_acquired(&self, outputs: usize) -> (line: Option<String>)
        ensures
            text_of(line) == self.lock_acquired_line(outputs),
    {
        let mut fields = "event=lock_acquired outputs=".to_owned();
        fields.append(dec_text(outputs as u128).as_str());
        self.emit(fields)
    }

    pub open spec fn daemon_ready_line(self, notified: bool) -> Option<Seq<char>> {
        self.line("event=daemon_ready parent_notification="@
                + (if notified {
                "ok"@
            } else {
                "error"@
            }))
    }

    /// The waiting parent was told that the lock is held.
    pub fn daemon_ready(&self, notified: bool) -> (line: Option<String>)
        ensures
            text_of(line) == self.daemon_ready_line(notified),
    {
        let mut fields = "event=daemon_ready parent_notification=".to_owned();
        let state = if notified {
            "ok"
        } else {
            "error"
        };
        fields.append(state);
        self.emit(fields)
    }

    pub open spec fn surface_configured_line(self, output: Seq<char>, role: OutputRole, width: u32, height: u32, scale: u32) -> Option<Seq<char>> {
        self.line("event=surface_configured output="@
                + debug_text(output)
                + " role="@
                + role.name()
                + " width="@
                + dec(width as nat)
                + " height="@
                + dec(height as nat)
                + " scale="@
                + dec(scale as nat))
    }

    /// A surface got its size.
    pub fn surface_configured(&self, output: &str, role: OutputRole, width: u32, height: u32, scale: u32) -> (line: Option<String>)
        ensures
            text_of(line) == self.surface_configured_line(output@, role, width, height, scale),
    {
        let mut fields = "event=surface_configured output=".to_owned();
        fields.append(quoted(output).as_str());
        fields.append(" role=");
        fields.append(role.label());
        fields.append(" width=");
        fields.append(dec_text(width as u128).as_str());
        fields.append(" height=");
        fields.append(dec_text(height as u128).as_str());
        fields.append(" scale=");
        fields.append(dec_text(scale as u128).as_str());
        self.emit(fields)
    }

    pub open spec fn output_surface_added_line(self, output: Seq<char>, role: OutputRole, reason: Seq<char>) -> Option<Seq<char>> {
        self.line("event=output_surface_added output="@
                + debug_text(output)
                + " role="@
                + role.name()
                + " reason="@
                + reason)
    }

    /// An output got a surface.
    pub fn output_surface_added(&self, output: &str, role: OutputRole, reason: &str) -> (line: Option<String>)
        ensures
            text_of(line) == self.output_surface_added_line(output@, role, reason@),
    {
        let mut fields = "event=output_surface_added output=".to_owned();
        fields.append(quoted(output).as_str());
        fields.append(" role=");
        fields.append(role.label());
        fields.append(" reason=");
        fields.append(reason);
        self.emit(fields)
    }

    pub open spec fn output_surface_updated_line(self, output: Seq<char>, role: OutputRole, scale: u32) -> Option<Seq<char>> {
        self.line("event=output_surface_updated output="@
                + debug_text(output)
                + " role="@
                + role.name()
                + " scale="@
                + dec(scale as nat))
    }

    /// An output changed.
    pub fn output_surface_updated(&self, output: &str, role: OutputRole, scale: u32) -> (line: Option<String>)
        ensures
            text_of(line) == self.output_surface_updated_line(output@, role, scale),
    {
        let mut fields = "event=output_surface_updated output=".to_owned();
        fields.append(quoted(output).as_str());
        fields.append(" role=");
        fields.append(role.label());
        fields.append(" scale=");
        fields.append(dec_text(scale as u128).as_str());
        self.emit(fields)
    }

    pub open spec fn output_surface_removed_line(self, output: Seq<char>, role: OutputRole) -> Option<Seq<char>> {
        self.line("event=output_surface_removed output="@
                + debug_text(output)
                + " role="@
                + role.name())
    }

    /// An output is gone.
    pub fn output_surface_removed(&self, output: &str, role: OutputRole) -> (line: Option<String>)
        ensures
            text_of(line) == self.output_surface_removed_line(output@, role),
    {
        let mut fields = "event=output_surface_removed output=".to_owned();
        fields.append(quoted(output).as_str());
        fields.append(" role=");
        fields.append(role.label());
        self.emit(fields)
    }

    pub open spec fn keyboard_capability_line(self, present: bool) -> Option<Seq<char>> {
        self.line("event=keyboard_capability state="@
                + (if present {
                "present"@
            } else {
                "removed"@
            }))
    }

    /// A keyboard appeared or disappeared.
    pub fn keyboard_capability(&self, present: bool) -> (line: Option<String>)
        ensures
            text_of(line) == self.keyboard_capability_line(present),
    {
        let mut fields = "event=keyboard_capability state=".to_owned();
        let state = if present {
            "present"
        } else {
            "removed"
        };
        fields.append(state);
        self.emit(fields)
    }

    pub open spec fn submit_ignored_line(self, reason: Seq<char>) -> Option<Seq<char>> {
        self.line("event=auth_submit_ignored reason="@
                + reason)
    }

    /// A submission was not made into an attempt.
    pub fn submit_ignored(&self, reason: &str) -> (line: Option<String>)
        ensures
            text_of(line) == self.submit_ignored_line(reason@),
    {
        let mut fields = "event=auth_submit_ignored reason=".to_owned();
        fields.append(reason);
        self.emit(fields)
    }

    pub open spec fn auth_submitted_line(self, attempt: u64) -> Option<Seq<char>> {
        self.line("event=auth_submitted attempt="@
                + dec(attempt as nat))
    }

    /// An attempt was handed to the worker.
    pub fn auth_submitted(&self, attempt: u64) -> (line: Option<String>)
        ensures
            text_of(line) == self.auth_submitted_line(attempt),
    {
        let mut fields = "event=auth_submitted attempt=".to_owned();
        fields.append(dec_text(attempt as u128).as_str());
        self.emit(fields)
    }

    pub open spec fn auth_delivery_failed_line(self, attempt: u64) -> Option<Seq<char>> {
        self.line("event=auth_delivery_failed attempt="@
                + dec(attempt as nat)
                + " reason=worker_unavailable"@)
    }

    /// An attempt did not reach the worker.
    pub fn auth_delivery_failed(&self, attempt: u64) -> (line: Option<String>)
        ensures
            text_of(line) == self.auth_delivery_failed_line(attempt),
    {
        let mut fields = "event=auth_delivery_failed attempt=".to_owned();
        fields.append(dec_text(attempt as u128).as_str());
        fields.append(" reason=worker_unavailable");
        self.emit(fields)
    }

    pub open spec fn pam_started_line(self, attempt: u64, service: Seq<char>, user: Seq<char>) -> Option<Seq<char>> {
        self.line("event=pam_started attempt="@
                + dec(attempt as nat)
                + " service="@
                + debug_text(service)
                + " user="@
                + debug_text(user))
    }

    /// PAM is asked.
    pub fn pam_started(&self, attempt: u64, service: &str, user: &str) -> (line: Option<String>)
        ensures
            text_of(line) == self.pam_started_line(attempt, service@, user@),
    {
        let mut fields = "event=pam_started attempt=".to_owned();
        fields.append(dec_text(attempt as u128).as_str());
        fields.append(" service=");
        fields.append(quoted(service).as_str());
        fields.append(" user=");
        fields.append(quoted(user).as_str());
        self.emit(fields)
    }

    pub open spec fn auth_result_received_line(self, attempt: u64, outcome: AuthOutcome) -> Option<Seq<char>> {
        self.line("event=auth_result_received attempt="@
                + dec(attempt as nat)
                + " outcome="@
                + outcome.name())
    }

    /// A verdict reached the event loop.
    pub fn auth_result_received(&self, attempt: u64, outcome: AuthOutcome) -> (line: Option<String>)
        ensures
            text_of(line) == self.auth_result_received_line(attempt, outcome),
    {
        let mut fields = "event=auth_result_received attempt=".to_owned();
        fields.append(dec_text(attempt as u128).as_str());
        fields.append(" outcome=");
        fields.append(outcome.label());
        self.emit(fields)
    }

    pub open spec fn auth_failed_ui_line(self, attempt: u64, backoff_ms: u64) -> Option<Seq<char>> {
        self.line("event=auth_failed_ui attempt="@
                + dec(attempt as nat)
                + " backoff_ms="@
                + dec(backoff_ms as nat))
    }

    /// A failed attempt is shown, and the backoff begins.
    pub fn auth_failed_ui(&self, attempt: u64, backoff_ms: u64) -> (line: Option<String>)
        ensures
            text_of(line) == self.auth_failed_ui_line(attempt, backoff_ms),
    {
        let mut fields = "event=auth_failed_ui attempt=".to_owned();
        fields.append(dec_text(attempt as u128).as_str());
        fields.append(" backoff_ms=");
        fields.append(dec_text(backoff_ms as u128).as_str());
        self.emit(fields)
    }

    pub open spec fn unlock_requested_line(self, attempt: u64) -> Option<Seq<char>> {
        self.line("event=unlock_requested attempt="@
                + dec(attempt as nat))
    }

    /// The unlock is requested from the compositor.
    pub fn unlock_requested(&self, attempt: u64) -> (line: Option<String>)
        ensures
            text_of(line) == self.unlock_requested_line(attempt),
    {
        let mut fields = "event=unlock_requested attempt=".to_owned();
        fields.append(dec_text(attempt as u128).as_str());
        self.emit(fields)
    }

    pub open spec fn unlock_flushed_line(self, ok: bool) -> Option<Seq<char>> {
        self.line("event=unlock_flushed status="@
                + (if ok {
                "ok"@
            } else {
                "error"@
            }))
    }

    /// The unlock request was flushed, or could not be.
    pub fn unlock_flushed(&self, ok: bool) -> (line: Option<String>)
        ensures
            text_of(line) == self.unlock_flushed_line(ok),
    {
        let mut fields = "event=unlock_flushed status=".to_owned();
        let state = if ok {
            "ok"
        } else {
            "error"
        };
        fields.append(state);
        self.emit(fields)
    }

    pub open spec fn authenticated_exit_line(self, attempt: u64) -> Option<Seq<char>> {
        self.line("event=process_exit reason=authenticated attempt="@
                + dec(attempt as nat))
    }

    /// The process ends after an unlock.
    pub fn authenticated_exit(&self, attempt: u64) -> (line: Option<String>)
        ensures
            text_of(line) == self.authenticated_exit_line(attempt),
    {
        let mut fields = "event=process_exit reason=authenticated attempt=".to_owned();
        fields.append(dec_text(attempt as u128).as_str());
        self.emit(fields)
    }

    pub open spec fn lock_finished_line(self) -> Option<Seq<char>> {
        self.line("event=process_exit reason=compositor_finished_or_rejected"@)
    }

    /// The process ends because the lock is over or was refused.
    pub fn lock_finished(&self) -> (line: Option<String>)
        ensures
            text_of(line) == self.lock_finished_line(),
    {
        self.emit("event=process_exit reason=compositor_finished_or_rejected".to_owned())
    }

    pub open spec fn sigusr1_line(self) -> Option<Seq<char>> {
        self.line("event=sigusr1 action=repaint"@)
    }

    /// `SIGUSR1` was seen.
    pub fn sigusr1(&self) -> (line: Option<String>)
        ensures
            text_of(line) == self.sigusr1_line(),
    {
        self.emit("event=sigusr1 action=repaint".to_owned())
    }

    pub open spec fn keyboard_focus_line(
        self,
        entered: bool,
        output: Option<(Seq<char>, OutputRole)>,
    ) -> Option<Seq<char>> {
        let state = if entered {
            "entered"@
        } else {
            "left"@
        };
        let place = match output {
            Some((name, role)) => debug_text(name) + " role="@ + role.name(),
            None => "unknown"@,
        };
        self.line("event=keyboard_focus state="@ + state + " output="@ + place)
    }

    /// The keyboard focus came to an output, or left it.
    pub fn keyboard_focus(&self, entered: bool, output: Option<(&str, OutputRole)>) -> (line:
        Option<String>)
        ensures
            text_of(line) == self.keyboard_focus_line(
                entered,
                match output {
                    Some((name, role)) => Some((name@, role)),
                    None => None,
                },
            ),
    {
        let mut fields = "event=keyboard_focus state=".to_owned();
        let state = if entered {
            "entered"
        } else {
            "left"
        };
        fields.append(state);
        fields.append(" output=");
        match output {
            Some((name, role)) => {
                let mut place = quoted(name);
                place.append(" role=");
                place.append(role.label());
                fields.append(place.as_str());
            },
            None => {
                fields.append("unknown");
            },
        }
        self.emit(fields)
    }

    pub open spec fn pam_finished_line(
        self,
        attempt: u64,
        verdict: Verdict,
        elapsed_ms: u128,
    ) -> Option<Seq<char>> {
        self.line("event=pam_finished attempt="@
                + dec(attempt as nat)
                + " outcome="@
                + verdict.outcome.name()
                + " stage="@
                + verdict.stage.name()
                + " code="@
                + code_name(verdict.code)
                + " elapsed_ms="@
                + dec(elapsed_ms as nat))
    }

    /// PAM has answered: the verdict, the stage, the symbolic code and the time it took.
    pub fn pam_finished(
        &self,
        attempt: u64,
        outcome: AuthOutcome,
        stage: AuthStage,
        code: Option<PamCode>,
        elapsed_ms: u128,
    ) -> (line: Option<String>)
        ensures
            text_of(line) == self.pam_finished_line(
                attempt,
                Verdict { outcome, stage, code },
                elapsed_ms,
            ),
    {
        let mut fields = "event=pam_finished attempt=".to_owned();
        fields.append(dec_text(attempt as u128).as_str());
        fields.append(" outcome=");
        fields.append(outcome.label());
        fields.append(" stage=");
        fields.append(stage.label());
        fields.append(" code=");
        fields.append(code_label(code));
        fields.append(" elapsed_ms=");
        fields.append(dec_text(elapsed_ms).as_str());
        self.emit(fields)
    }
}

/// A line is made of whether diagnostics are on, of the process number and of the event's fields,
/// and of nothing else: nothing is printed while they are off, and exactly one line in one form
/// while they are on.
pub proof fn lemma_line_has_no_other_source(
    one: Diagnostics,
    other: Diagnostics,
    fields: Seq<char>,
)
    ensures
        one.enabled == other.enabled && one.instance == other.instance ==> one.line(fields)
            == other.line(fields),
        !one.enabled ==> one.line(fields) is None,
        one.enabled ==> one.line(fields) == Some(
            "nixlock[debug]: instance="@ + dec(one.instance as nat) + " "@ + fields,
        ),
{
}

} // verus!
