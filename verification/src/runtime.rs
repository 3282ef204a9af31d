//! The evaluation context that lasts for a shell session.

use crate::job::{JobTable, JobTableView, FIRST_JOB_ID};
use crate::status::this_pid;
use vstd::prelude::*;

verus! {

/// The session-wide state that commands are evaluated in.
#[derive(Debug, PartialEq, Eq)]
pub struct Runtime {
    /// The interpreter's own process id, which its own statuses carry.
    pub pid: i32,
    /// Whether a line editor is attached, whose history `exit` saves.
    pub interactive: bool,
    /// Where the line editor's history is kept.
    pub history_path: String,
    /// The jobs spawned in this session.
    pub jobs: JobTable,
}

/// The mathematical value of a [`Runtime`].
pub struct RuntimeView {
    pub pid: i32,
    pub interactive: bool,
    pub history_path: Seq<char>,
    pub jobs: JobTableView,
}

impl View for Runtime {
    type V = RuntimeView;

    open spec fn view(&self) -> RuntimeView {
        RuntimeView {
            pid: self.pid,
            interactive: self.interactive,
            history_path: self.history_path@,
            jobs: self.jobs@,
        }
    }
}

impl RuntimeView {
    /// The same context with another job table.
    pub open spec fn with_jobs(self, jobs: JobTableView) -> RuntimeView {
        RuntimeView { jobs, ..self }
    }
}

impl Runtime {
    /// A context with no jobs, whose first job will get [`FIRST_JOB_ID`],
    /// for the interpreter whose process id is `pid`.
    pub fn with_pid(pid: i32, interactive: bool, history_path: String) -> (rt: Runtime)
        ensures
            rt@.pid == pid,
            rt@.interactive == interactive,
            rt@.history_path == history_path@,
            rt@.jobs.jobs.len() == 0,
            rt@.jobs.next_id == FIRST_JOB_ID,
            rt@.jobs.wf(),
    {
        Runtime { pid, interactive, history_path, jobs: JobTable::new() }
    }

    /// A context with no jobs, whose first job will get [`FIRST_JOB_ID`],
    /// for the running process.
    pub fn new(interactive: bool, history_path: String) -> (rt: Runtime)
        ensures
            rt@.interactive == interactive,
            rt@.history_path == history_path@,
            rt@.jobs.jobs.len() == 0,
            rt@.jobs.next_id == FIRST_JOB_ID,
            rt@.jobs.wf(),
    {
        Runtime::with_pid(this_pid(), interactive, history_path)
    }
}

} // verus!
