use nixlock::daemon::{
    after_reaping, fork_role, ready_marker, wait_for_ready, ForkRole, NotReady, PipeRead, WaitStep,
    READY,
};

/// A pipe that holds these bytes and has no writer left.
fn read_from(bytes: &[u8]) -> PipeRead {
    match bytes.first() {
        Some(byte) => PipeRead::Byte(*byte),
        None => PipeRead::Closed,
    }
}

#[test]
fn readiness_marker_round_trips() {
    let written = ready_marker();
    assert_eq!(written, b"R");
    assert!(matches!(wait_for_ready(read_from(&written), None), WaitStep::Ready));
    assert!(matches!(wait_for_ready(read_from(&written), Some(7)), WaitStep::Ready));
}

#[test]
fn closed_pipe_is_not_ready() {
    match wait_for_ready(read_from(&[]), None) {
        WaitStep::Failed(error) => {
            assert!(matches!(error, NotReady::Closed));
            assert_eq!(
                error.message(),
                "readiness pipe closed before the session lock was acquired"
            );
        }
        _ => panic!("a closed pipe was taken for readiness"),
    }
}

#[test]
fn no_other_byte_is_the_marker() {
    for byte in 0..=255u8 {
        let step = wait_for_ready(PipeRead::Byte(byte), Some(7));
        if byte == READY {
            assert!(matches!(step, WaitStep::Ready));
        } else {
            match step {
                WaitStep::Failed(error) => assert_eq!(
                    error.message(),
                    "daemon child sent an invalid readiness marker"
                ),
                _ => panic!("byte {byte} was taken for the marker"),
            }
        }
    }
}

#[test]
fn a_child_that_is_gone_is_reaped() {
    assert!(matches!(wait_for_ready(PipeRead::Closed, Some(4711)), WaitStep::Reap(4711)));
    assert_eq!(
        after_reaping(Ok(256)).message(),
        "daemon child exited before acquiring the session lock (wait status 256)"
    );
    assert_eq!(
        after_reaping(Ok(-1)).message(),
        "daemon child exited before acquiring the session lock (wait status -1)"
    );
    assert_eq!(
        after_reaping(Ok(i32::MIN)).message(),
        "daemon child exited before acquiring the session lock (wait status -2147483648)"
    );
    assert_eq!(after_reaping(Err("No child processes".into())).message(), "No child processes");
}

#[test]
fn a_failed_read_keeps_its_cause() {
    match wait_for_ready(PipeRead::Broken("Bad file descriptor".into()), Some(7)) {
        WaitStep::Failed(NotReady::System(cause)) => assert_eq!(cause, "Bad file descriptor"),
        _ => panic!("the cause was lost"),
    }
}

#[test]
fn fork_tells_the_two_sides_apart() {
    assert_eq!(fork_role(-1), None);
    assert_eq!(fork_role(0), Some(ForkRole::Child));
    assert_eq!(fork_role(12), Some(ForkRole::Parent(12)));
}
