use oursh::status::{exit_code, Error, WaitStatus, EXIT_PARSE, EXIT_READ, EXIT_RUNTIME};

#[test]
fn exit_code_of_an_exit_is_its_code() {
    assert_eq!(exit_code(Ok(WaitStatus::Exited(1, 0))), 0);
    assert_eq!(exit_code(Ok(WaitStatus::Exited(1, 42))), 42);
    assert_eq!(exit_code(Ok(WaitStatus::Exited(1, -1))), -1);
}

#[test]
fn exit_code_of_a_signal_is_128_and_its_number() {
    assert_eq!(exit_code(Ok(WaitStatus::Signaled(1, 9, false))), 137);
    assert_eq!(exit_code(Ok(WaitStatus::Signaled(1, 15, true))), 143);
    assert_eq!(exit_code(Ok(WaitStatus::Signaled(1, 0, false))), 128);
    assert_eq!(exit_code(Ok(WaitStatus::Signaled(1, 126, false))), 254);
    assert_eq!(exit_code(Ok(WaitStatus::Signaled(1, 127, false))), 255);
    assert_eq!(exit_code(Ok(WaitStatus::Signaled(1, i32::MAX, false))), 255);
    assert_eq!(exit_code(Ok(WaitStatus::Signaled(1, -3, false))), 255);
}

#[test]
fn exit_code_of_any_other_status_is_zero() {
    assert_eq!(exit_code(Ok(WaitStatus::Stopped(1, 19))), 0);
    assert_eq!(exit_code(Ok(WaitStatus::PtraceEvent(1, 5, 2))), 0);
    assert_eq!(exit_code(Ok(WaitStatus::PtraceSyscall(1))), 0);
    assert_eq!(exit_code(Ok(WaitStatus::Continued(1))), 0);
    assert_eq!(exit_code(Ok(WaitStatus::StillAlive)), 0);
}

#[test]
fn exit_code_of_each_error_is_its_own() {
    assert_eq!(exit_code(Err(Error::Read)), 66);
    assert_eq!(exit_code(Err(Error::Parse)), 65);
    assert_eq!(exit_code(Err(Error::Runtime)), 70);
    assert_eq!((EXIT_READ, EXIT_PARSE, EXIT_RUNTIME), (66, 65, 70));
}

#[test]
fn success_and_failure_tell_exits_apart() {
    assert!(WaitStatus::Exited(1, 0).success());
    assert!(!WaitStatus::Exited(1, 0).failure());
    assert!(WaitStatus::Exited(1, 2).failure());
    assert!(!WaitStatus::Exited(1, 2).success());
    assert!(!WaitStatus::Signaled(1, 9, false).success());
    assert!(!WaitStatus::Signaled(1, 9, false).failure());
}
