//! Process separation for `-f`.
//!
//! The fork happens before the locker starts a worker thread. The parent then waits on a private
//! pipe until the child has acquired the session lock: a parent that returns with success means
//! that the session is already secured.

use vstd::prelude::*;
use vstd::string::*;

use crate::text::{signed, signed_text};

verus! {

/// The byte that the child writes once it holds the lock.
pub const READY: u8 = 0x52;

/// Which side of a fork a process finds itself on.
#[derive(Clone, Copy, PartialEq, Eq, Structural, Debug)]
pub enum ForkRole {
    /// Waits for the child of that process number.
    Parent(i32),
    /// Locks the session.
    Child,
}

/// The side of the fork that a return value of `fork` stands for; `None` where there was no fork.
pub fn fork_role(returned: i32) -> (role: Option<ForkRole>)
    ensures
        returned < 0 ==> role is None,
        returned == 0 ==> role == Some(ForkRole::Child),
        returned > 0 ==> role == Some(ForkRole::Parent(returned)),
{
    if returned < 0 {
        None
    } else if returned > 0 {
        Some(ForkRole::Parent(returned))
    } else {
        Some(ForkRole::Child)
    }
}

/// What the child writes to the pipe once it holds the lock.
pub fn ready_marker() -> (bytes: Vec<u8>)
    ensures
        bytes@ == seq![READY],
{
    let mut bytes: Vec<u8> = Vec::new();
    bytes.push(READY);
    bytes
}

/// What reading one byte from the pipe gave.
pub enum PipeRead {
    Byte(u8),
    /// The pipe was closed, and no byte came.
    Closed,
    /// Reading failed for another cause.
    Broken(String),
}

/// What the parent does after it has read from the pipe.
pub enum WaitStep {
    /// The child holds the lock.
    Ready,
    /// The child has gone, so reap it to learn how it ended.
    Reap(i32),
    Failed(NotReady),
}

/// Why the parent cannot report that the session is locked.
pub enum NotReady {
    /// The child wrote something that is not the marker.
    InvalidMarker,
    /// The pipe was closed, and there is no child to ask.
    Closed,
    /// The child ended with that wait status before it held the lock.
    Exited(i32),
    /// A system call failed.
    System(String),
}

impl NotReady {
    pub open spec fn text(self) -> Seq<char> {
        match self {
            NotReady::InvalidMarker => "daemon child sent an invalid readiness marker"@,
            NotReady::Closed => "readiness pipe closed before the session lock was acquired"@,
            NotReady::Exited(status) =>
                "daemon child exited before acquiring the session lock (wait status "@ + signed(
                status as int,
            ) + ")"@,
            NotReady::System(cause) => cause@,
        }
    }

    /// The message for the user.
    pub fn message(&self) -> (text: String)
        ensures
            text@ == self.text(),
    {
        match self {
            NotReady::InvalidMarker => "daemon child sent an invalid readiness marker".to_owned(),
            NotReady::Closed =>
                "readiness pipe closed before the session lock was acquired".to_owned(),
            NotReady::Exited(status) => {
                let mut text =
                    "daemon child exited before acquiring the session lock (wait status ".to_owned();
                text.append(signed_text(*status).as_str());
                text.append(")");
                text
            },
            NotReady::System(cause) => cause.clone(),
        }
    }
}

/// What the parent does after it has read `read` from the pipe.
pub open spec fn step_after(read: PipeRead, child: Option<i32>) -> WaitStep {
    match read {
        PipeRead::Byte(byte) => if byte == READY {
            WaitStep::Ready
        } else {
            WaitStep::Failed(NotReady::InvalidMarker)
        },
        PipeRead::Closed => match child {
            Some(child) => WaitStep::Reap(child),
            None => WaitStep::Failed(NotReady::Closed),
        },
        PipeRead::Broken(cause) => WaitStep::Failed(NotReady::System(cause)),
    }
}

/// Decides what a read from the pipe means. Only the marker means that the child holds the lock.
pub fn wait_for_ready(read: PipeRead, child: Option<i32>) -> (step: WaitStep)
    ensures
        step == step_after(read, child),
{
    match read {
        PipeRead::Byte(byte) => if byte == READY {
            WaitStep::Ready
        } else {
            WaitStep::Failed(NotReady::InvalidMarker)
        },
        PipeRead::Closed => match child {
            Some(child) => WaitStep::Reap(child),
            None => WaitStep::Failed(NotReady::Closed),
        },
        PipeRead::Broken(cause) => WaitStep::Failed(NotReady::System(cause)),
    }
}

/// Decides what reaping the child means: its wait status, or why it could not be reaped. Either
/// way the session is not reported as locked.
pub fn after_reaping(reaped: Result<i32, String>) -> (reason: NotReady)
    ensures
        reason == (match reaped {
            Ok(status) => NotReady::Exited(status),
            Err(cause) => NotReady::System(cause),
        }),
{
    match reaped {
        Ok(status) => NotReady::Exited(status),
        Err(cause) => NotReady::System(cause),
    }
}

/// The parent takes what the child writes for readiness, and takes nothing else for it: no other
/// byte, no closed pipe and no failed read.
pub proof fn lemma_ready_exactly_on_the_marker(written: Seq<u8>, read: PipeRead, child: Option<i32>)
    requires
        written == seq![READY],
    ensures
        step_after(PipeRead::Byte(written[0]), child) is Ready,
        step_after(read, child) is Ready <==> read == PipeRead::Byte(READY),
{
}

} // verus!
