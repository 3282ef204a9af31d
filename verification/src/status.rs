//! Results of running a command: wait statuses and errors.

use vstd::prelude::*;

verus! {

/// Why a parse unit could not be run to completion.
#[derive(Clone, Copy, Debug, PartialEq, Eq, Structural)]
pub enum Error {
    /// The input stream could not be fully consumed.
    Read,
    /// The source text is not a program.
    Parse,
    /// An operating-system interaction failed while evaluating.
    Runtime,
}

/// The state change reported for a process, as plain integers.
///
/// Each variant carries the process id first; signals are given by number.
#[derive(Clone, Copy, Debug, PartialEq, Eq, Structural)]
pub enum WaitStatus {
    /// The process exited normally with the given code.
    Exited(i32, i32),
    /// The process was killed by a signal; the flag tells of a core dump.
    Signaled(i32, i32, bool),
    /// The process was stopped by a signal.
    Stopped(i32, i32),
    /// A traced process was stopped by an event.
    PtraceEvent(i32, i32, i32),
    /// A traced process was stopped at a system call.
    PtraceSyscall(i32),
    /// A stopped process has resumed.
    Continued(i32),
    /// Nothing to report yet.
    StillAlive,
}

impl WaitStatus {
    /// True exactly for a normal exit with code zero.
    pub open spec fn is_success(self) -> bool {
        self matches WaitStatus::Exited(_, c) && c == 0
    }

    /// True exactly for a normal exit with a code other than zero.
    pub open spec fn is_failure(self) -> bool {
        self matches WaitStatus::Exited(_, c) && c != 0
    }

    /// Whether the process exited normally with a code other than zero.
    pub fn failure(&self) -> (b: bool)
        ensures
            b == self.is_failure(),
    {
        match *self {
            WaitStatus::Exited(_, c) => c != 0,
            _ => false,
        }
    }

    /// Whether the process exited normally with code zero.
    pub fn success(&self) -> (b: bool)
        ensures
            b == self.is_success(),
    {
        match *self {
            WaitStatus::Exited(_, c) => c == 0,
            _ => false,
        }
    }
}

/// How the evaluation of a command ends.
#[derive(Clone, Copy, Debug, PartialEq, Eq)]
pub enum Outcome {
    /// The command returned a status or an error.
    Returned(Result<WaitStatus, Error>),
    /// The command asks the interpreter's process to exit with the code.
    Exit(i32),
}

/// The exit code for an evaluation that could not read its input.
pub const EXIT_READ: i32 = 66;

/// The exit code for an evaluation of a text that is no program.
pub const EXIT_PARSE: i32 = 65;

/// The exit code for an evaluation that failed at run time.
pub const EXIT_RUNTIME: i32 = 70;

/// The exit code of the interpreter's process for the result of its last
/// command: the command's own code where it exited; 128 and the signal's
/// number where a signal ended it, held at 255; zero for any other status;
/// and for each kind of error a code of its own, which no builtin gives.
pub open spec fn exit_code_spec(result: Result<WaitStatus, Error>) -> i32 {
    match result {
        Ok(WaitStatus::Exited(_, code)) => code,
        Ok(WaitStatus::Signaled(_, signal, _)) => if 0 <= signal < 127 {
            (128 + signal) as i32
        } else {
            255
        },
        Ok(_) => 0,
        Err(Error::Read) => EXIT_READ,
        Err(Error::Parse) => EXIT_PARSE,
        Err(Error::Runtime) => EXIT_RUNTIME,
    }
}

/// The exit code of the interpreter's process for the result of its last
/// command.
pub fn exit_code(result: Result<WaitStatus, Error>) -> (code: i32)
    ensures
        code == exit_code_spec(result),
{
    match result {
        Ok(WaitStatus::Exited(_, code)) => code,
        Ok(WaitStatus::Signaled(_, signal, _)) => if 0 <= signal && signal < 127 {
            128 + signal
        } else {
            255
        },
        Ok(_) => 0,
        Err(Error::Read) => EXIT_READ,
        Err(Error::Parse) => EXIT_PARSE,
        Err(Error::Runtime) => EXIT_RUNTIME,
    }
}

/// The process id of the running interpreter.
///
/// Calls `nix::unistd::Pid::this` and hands back the raw number. The id is
/// the operating system's choice, so nothing is claimed of it.
#[verifier::external_body]
pub(crate) fn this_pid() -> i32 {
    nix::unistd::Pid::this().as_raw()
}

} // verus!
