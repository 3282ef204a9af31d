//! The table of spawned jobs: registration under increasing ids, lookup by
//! process id, removal, and the listing that `jobs` prints.

use crate::text::{decimal, decimal_i32, decimal_u64, signed_decimal};
use vstd::prelude::*;

verus! {

/// The tracking record of one spawned process group.
#[derive(Debug, PartialEq, Eq)]
pub struct Job {
    /// The id under which the table holds the job.
    pub id: u64,
    /// The process id of the group's leader.
    pub pid: i32,
    /// The text shown for the job.
    pub body: String,
}

/// The mathematical value of a [`Job`].
pub struct JobView {
    pub id: u64,
    pub pid: i32,
    pub body: Seq<char>,
}

impl View for Job {
    type V = JobView;

    open spec fn view(&self) -> JobView {
        JobView { id: self.id, pid: self.pid, body: self.body@ }
    }
}

/// The id given to the first job of a new table.
pub const FIRST_JOB_ID: u64 = 1;

/// The mathematical value of a [`JobTable`]: its jobs in table order, and the
/// id that the next job will get.
pub struct JobTableView {
    pub jobs: Seq<JobView>,
    pub next_id: u64,
}

/// The position of the first job led by `pid`, or the number of jobs if there
/// is none.
pub open spec fn position(jobs: Seq<JobView>, pid: i32) -> int
    decreases jobs.len(),
{
    if jobs.len() == 0 {
        0
    } else if jobs[0].pid == pid {
        0
    } else {
        1 + position(jobs.skip(1), pid)
    }
}

/// The line that `jobs` prints for one job.
pub open spec fn job_line(job: JobView) -> Seq<char> {
    seq!['['] + decimal(job.id as nat) + seq![']', '\t'] + signed_decimal(job.pid as int) + seq![
        '\t',
        '\t',
    ] + job.body + seq!['\n']
}

/// The lines of all jobs, in table order.
pub open spec fn job_lines(jobs: Seq<JobView>) -> Seq<char>
    decreases jobs.len(),
{
    if jobs.len() == 0 {
        Seq::empty()
    } else {
        job_lines(jobs.drop_last()) + job_line(jobs.last())
    }
}

impl JobTableView {
    /// Ids rise along the table, start at [`FIRST_JOB_ID`] and stay below the
    /// next id to be given.
    pub open spec fn wf(self) -> bool {
        &&& self.next_id >= FIRST_JOB_ID
        &&& forall|i: int|
            0 <= i < self.jobs.len() ==> FIRST_JOB_ID <= (#[trigger] self.jobs[i]).id
                < self.next_id
        &&& forall|i: int, j: int|
            0 <= i < j < self.jobs.len() ==> (#[trigger] self.jobs[i]).id < (
            #[trigger] self.jobs[j]).id
    }

    /// Whether a job led by `pid` is in the table.
    pub open spec fn tracks(self, pid: i32) -> bool {
        position(self.jobs, pid) < self.jobs.len()
    }

    /// Whether another id can be given.
    pub open spec fn has_room(self) -> bool {
        self.next_id < u64::MAX
    }

    /// The table after a job led by `pid` was registered; the same table if
    /// no id is left.
    pub open spec fn register(self, pid: i32, body: Seq<char>) -> JobTableView {
        if self.has_room() {
            JobTableView {
                jobs: self.jobs.push(JobView { id: self.next_id, pid, body }),
                next_id: (self.next_id + 1) as u64,
            }
        } else {
            self
        }
    }

    /// The table without the first job led by `pid`.
    pub open spec fn without(self, pid: i32) -> JobTableView {
        if self.tracks(pid) {
            JobTableView { jobs: self.jobs.remove(position(self.jobs, pid)), next_id: self.next_id }
        } else {
            self
        }
    }

    /// The leaders' process ids, in table order.
    pub open spec fn pids(self) -> Seq<i32> {
        Seq::new(self.jobs.len(), |i: int| self.jobs[i].pid)
    }

    /// The text that `jobs` prints.
    pub open spec fn listing(self) -> Seq<char> {
        job_lines(self.jobs)
    }
}

/// The jobs that the interpreter tracks.
#[derive(Debug, PartialEq, Eq)]
pub struct JobTable {
    jobs: Vec<Job>,
    next_id: u64,
}

impl View for JobTable {
    type V = JobTableView;

    closed spec fn view(&self) -> JobTableView {
        JobTableView { jobs: Seq::new(self.jobs@.len(), |i: int| self.jobs@[i]@), next_id: self.next_id }
    }
}

impl JobTable {
    /// An empty table, whose first job will get [`FIRST_JOB_ID`].
    pub fn new() -> (t: JobTable)
        ensures
            t@.jobs.len() == 0,
            t@.next_id == FIRST_JOB_ID,
            t@.wf(),
    {
        JobTable { jobs: Vec::new(), next_id: FIRST_JOB_ID }
    }

    /// The number of jobs.
    pub fn len(&self) -> (n: usize)
        ensures
            n == self@.jobs.len(),
    {
        self.jobs.len()
    }

    /// The job at position `i` of the table.
    pub fn get(&self, i: usize) -> (job: Option<&Job>)
        ensures
            match job {
                Some(j) => i < self@.jobs.len() && j@ == self@.jobs[i as int],
                None => i >= self@.jobs.len(),
            },
    {
        if i < self.jobs.len() {
            Some(&self.jobs[i])
        } else {
            None
        }
    }

    /// Registers a job led by `pid` under a fresh id, which is returned.
    ///
    /// The id is the table's next id, and the next id rises by one. When no
    /// id is left the table stays as it is and `None` is returned.
    pub fn register(&mut self, pid: i32, body: String) -> (id: Option<u64>)
        ensures
            final(self)@ == old(self)@.register(pid, body@),
            id == if old(self)@.has_room() {
                Some(old(self)@.next_id)
            } else {
                None
            },
            old(self)@.wf() ==> final(self)@.wf(),
    {
        if self.next_id == u64::MAX {
            return None;
        }
        let id = self.next_id;
        let ghost before = self@;
        self.jobs.push(Job { id, pid, body });
        self.next_id = id + 1;
        assert(self@.jobs =~= before.jobs.push(JobView { id, pid, body: body@ }));
        Some(id)
    }

    /// The position of the first job led by `pid`, if there is one.
    pub fn find(&self, pid: i32) -> (at: Option<usize>)
        ensures
            match at {
                Some(i) => self@.tracks(pid) && i == position(self@.jobs, pid),
                None => !self@.tracks(pid),
            },
    {
        let n = self.jobs.len();
        let ghost all = self@.jobs;
        let mut i: usize = 0;
        assert(all.skip(0) =~= all);
        while i < n
            invariant
                i <= n,
                n == self.jobs@.len(),
                all == self@.jobs,
                position(all, pid) == i + position(all.skip(i as int), pid),
            decreases n - i,
        {
            let ghost tail = all.skip(i as int);
            assert(tail[0] == all[i as int]);
            assert(tail.skip(1) =~= all.skip(i as int + 1));
            if self.jobs[i].pid == pid {
                return Some(i);
            }
            i = i + 1;
        }
        assert(all.skip(n as int).len() == 0);
        None
    }

    /// Whether a job led by `pid` is in the table.
    pub fn tracks(&self, pid: i32) -> (b: bool)
        ensures
            b == self@.tracks(pid),
    {
        self.find(pid).is_some()
    }

    /// Takes the first job led by `pid` out of the table.
    pub fn remove(&mut self, pid: i32) -> (job: Option<Job>)
        ensures
            final(self)@ == old(self)@.without(pid),
            match job {
                Some(j) => old(self)@.tracks(pid) && j@ == old(self)@.jobs[position(
                    old(self)@.jobs,
                    pid,
                )],
                None => !old(self)@.tracks(pid),
            },
            old(self)@.wf() ==> final(self)@.wf(),
    {
        match self.find(pid) {
            Some(i) => {
                let ghost before = self@;
                let job = self.jobs.remove(i);
                assert(self@.jobs =~= before.jobs.remove(i as int));
                Some(job)
            },
            None => None,
        }
    }

    /// The leaders' process ids, in table order.
    pub fn pids(&self) -> (v: Vec<i32>)
        ensures
            v@ == self@.pids(),
    {
        let mut v: Vec<i32> = Vec::new();
        let n = self.jobs.len();
        let mut i: usize = 0;
        while i < n
            invariant
                i <= n,
                n == self.jobs@.len(),
                v@ == self@.pids().take(i as int),
            decreases n - i,
        {
            v.push(self.jobs[i].pid);
            assert(v@ =~= self@.pids().take(i as int + 1));
            i = i + 1;
        }
        assert(self@.pids().take(n as int) =~= self@.pids());
        v
    }

    /// The text that `jobs` prints: one line per job, in table order, each
    /// made of the id in square brackets, a tab, the leader's process id, two
    /// tabs, the job's text and a line feed.
    pub fn listing(&self) -> (s: String)
        ensures
            s@ == self@.listing(),
    {
        let mut s = String::new();
        let n = self.jobs.len();
        let ghost all = self@.jobs;
        let mut i: usize = 0;
        proof {
            reveal_strlit("[");
            reveal_strlit("]\t");
            reveal_strlit("\t\t");
            reveal_strlit("\n");
        }
        while i < n
            invariant
                i <= n,
                n == self.jobs@.len(),
                all == self@.jobs,
                s@ == job_lines(all.take(i as int)),
                "["@ == seq!['['],
                "]\t"@ == seq![']', '\t'],
                "\t\t"@ == seq!['\t', '\t'],
                "\n"@ == seq!['\n'],
            decreases n - i,
        {
            let ghost before = all.take(i as int);
            let ghost after = all.take(i as int + 1);
            assert(after.drop_last() =~= before);
            assert(after.last() == self.jobs@[i as int]@);
            let job = &self.jobs[i];
            let id = decimal_u64(job.id);
            let pid = decimal_i32(job.pid);
            s.append("[");
            s.append(id.as_str());
            s.append("]\t");
            s.append(pid.as_str());
            s.append("\t\t");
            s.append(job.body.as_str());
            s.append("\n");
            assert(s@ =~= job_lines(before) + job_line(after.last()));
            i = i + 1;
        }
        assert(all.take(n as int) =~= all);
        s
    }
}

/// Job ids rise: a job registered into a well-formed table with room gets
/// the table's next id, which is above every id in the table, and the job
/// after it will get the id above that.
pub proof fn law_job_ids_rise(t: JobTableView, pid: i32, body: Seq<char>)
    requires
        t.wf(),
        t.has_room(),
    ensures
        t.register(pid, body).wf(),
        t.register(pid, body).jobs == t.jobs.push(JobView { id: t.next_id, pid, body }),
        forall|i: int| 0 <= i < t.jobs.len() ==> (#[trigger] t.jobs[i]).id < t.next_id,
        t.register(pid, body).next_id == t.next_id + 1,
{
}

/// The table after the jobs of `entries`, each a leader's process id and a
/// text, were registered one after another.
pub open spec fn registered_all(t: JobTableView, entries: Seq<(i32, Seq<char>)>) -> JobTableView
    decreases entries.len(),
{
    if entries.len() == 0 {
        t
    } else {
        registered_all(t, entries.drop_last()).register(entries.last().0, entries.last().1)
    }
}

/// Ids count up from the table's next id: jobs registered one after another
/// stand behind the jobs that were there, in the order of their
/// registration, under that id, the one after it, and so on. In a table
/// that is new the first of them has [`FIRST_JOB_ID`].
pub proof fn law_ids_count_up(t: JobTableView, entries: Seq<(i32, Seq<char>)>)
    requires
        t.wf(),
        t.next_id + entries.len() <= u64::MAX,
    ensures
        ({
            let r = registered_all(t, entries);
            &&& r.wf()
            &&& r.next_id == t.next_id + entries.len()
            &&& r.jobs.len() == t.jobs.len() + entries.len()
            &&& forall|i: int| 0 <= i < t.jobs.len() ==> r.jobs[i] == t.jobs[i]
            &&& forall|i: int|
                0 <= i < entries.len() ==> #[trigger] r.jobs[t.jobs.len() + i] == (JobView {
                    id: (t.next_id + i) as u64,
                    pid: entries[i].0,
                    body: entries[i].1,
                })
        }),
    decreases entries.len(),
{
    if entries.len() > 0 {
        let init = entries.drop_last();
        law_ids_count_up(t, init);
        let before = registered_all(t, init);
        let r = registered_all(t, entries);
        assert(before.has_room());
        assert forall|i: int| 0 <= i < entries.len() implies #[trigger] r.jobs[t.jobs.len() + i] == (
        JobView { id: (t.next_id + i) as u64, pid: entries[i].0, body: entries[i].1 }) by {
            if i < init.len() {
                assert(r.jobs[t.jobs.len() + i] == before.jobs[t.jobs.len() + i]);
                assert(init[i] == entries[i]);
            }
        }
    }
}

} // verus!
