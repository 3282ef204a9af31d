//! Laws of evaluation.
//!
//! The laws of evaluation are proved of the meaning of commands
//! ([`crate::semantics::eval`]); by
//! [`crate::semantics::theorem_machine_runs_eval`] they hold of what the
//! machine asks of its host.

use crate::ast::CommandView;
use crate::builtin::{
    builtin_spec,
    leave_code,
    exited,
    export_next_spec,
    lookup_spec,
    resume_spec,
    simple_spec,
    Kind,
    NextView,
    PendingView,
};
use crate::effect::{ReplyView, RequestView};
use crate::eval::run_spec;
use crate::job::{job_line, job_lines, JobView, FIRST_JOB_ID};
use crate::parse::{diagnostic_spec, parse_spec};
use crate::runtime::RuntimeView;
use crate::semantics::{
    drive,
    eval,
    eval_list,
    prepend,
    settle,
    theorem_machine_runs_eval,
    End,
};
use crate::status::{Error, WaitStatus};
use crate::text::{law_decimal_round_trip, signed_decimal};
use vstd::prelude::*;

verus! {

/// A list of one command runs as that command does.
pub proof fn law_single_command(
    c: CommandView,
    last: WaitStatus,
    rt: RuntimeView,
    w: Seq<ReplyView>,
)
    ensures
        eval_list(seq![c], last, rt, w) == eval(c, rt, w),
{
    let cs = seq![c];
    let first = eval(cs[0], rt, w);
    assert(cs.skip(1).len() == 0);
    match first.end {
        End::Returned(Ok(status)) => {
            let tail = eval_list(cs.skip(1), status, first.runtime, first.rest);
            assert(prepend(first.trace, tail) =~= first);
        },
        _ => {},
    }
}

/// A list runs as its last command does, in the context and on the answers
/// that the commands before it leave.
///
/// Where the commands before the last all return a status, the list makes
/// their requests, then those of the last command, and ends as the last
/// command ends: its status is the last command's status, whatever the
/// others returned. Where one of them does not return a status, the list ends
/// there.
pub proof fn law_list_runs_last(
    cs: Seq<CommandView>,
    last: WaitStatus,
    rt: RuntimeView,
    w: Seq<ReplyView>,
)
    requires
        cs.len() > 0,
    ensures
        ({
            let before = eval_list(cs.drop_last(), last, rt, w);
            let whole = eval_list(cs, last, rt, w);
            match before.end {
                End::Returned(Ok(_)) => whole == prepend(
                    before.trace,
                    eval(cs.last(), before.runtime, before.rest),
                ),
                _ => whole == before,
            }
        }),
    decreases cs.len(),
{
    let first = eval(cs[0], rt, w);
    if cs.len() == 1 {
        assert(cs =~= seq![cs[0]]);
        law_single_command(cs[0], last, rt, w);
        assert(cs.drop_last().len() == 0);
        assert(prepend(Seq::empty(), first) =~= first);
    } else {
        let init = cs.drop_last();
        assert(init[0] == cs[0]);
        assert(init.skip(1) =~= cs.skip(1).drop_last());
        assert(cs.skip(1).last() == cs.last());
        match first.end {
            End::Returned(Ok(status)) => {
                law_list_runs_last(cs.skip(1), status, first.runtime, first.rest);
                let before = eval_list(init.skip(1), status, first.runtime, first.rest);
                match before.end {
                    End::Returned(Ok(_)) => {
                        let tail = eval(cs.last(), before.runtime, before.rest);
                        assert(prepend(first.trace, prepend(before.trace, tail)) =~= prepend(
                            first.trace + before.trace,
                            tail,
                        ));
                    },
                    _ => {},
                }
            },
            _ => {},
        }
    }
}

/// The status of a compound command is the status of its last child.
///
/// Where a compound command returns a status, its last child returns that
/// status when evaluated after the children before it.
pub proof fn law_compound_status_is_last(
    cs: Seq<CommandView>,
    rt: RuntimeView,
    w: Seq<ReplyView>,
)
    requires
        cs.len() > 0,
        eval(CommandView::Compound(cs), rt, w).end is Returned,
        eval(CommandView::Compound(cs), rt, w).end->Returned_0 is Ok,
    ensures
        ({
            let before = eval_list(cs.drop_last(), WaitStatus::Exited(rt.pid, 0), rt, w);
            &&& before.end is Returned
            &&& before.end->Returned_0 is Ok
            &&& eval(cs.last(), before.runtime, before.rest).end == eval(
                CommandView::Compound(cs),
                rt,
                w,
            ).end
        }),
{
    law_list_runs_last(cs, WaitStatus::Exited(rt.pid, 0), rt, w);
}

/// Negating twice makes the requests of the command itself, and gives
/// success back where the command succeeds.
pub proof fn law_double_negation(c: CommandView, rt: RuntimeView, w: Seq<ReplyView>)
    ensures
        ({
            let inner = eval(c, rt, w);
            let outer = eval(CommandView::Not(Box::new(CommandView::Not(Box::new(c)))), rt, w);
            &&& outer.trace == inner.trace
            &&& outer.rest == inner.rest
            &&& outer.runtime == inner.runtime
            &&& inner.end matches End::Returned(Ok(WaitStatus::Exited(pid, code))) ==> outer.end
                == End::Returned(
                Ok(
                    WaitStatus::Exited(
                        pid,
                        if code == 0 {
                            0i32
                        } else {
                            1i32
                        },
                    ),
                ),
            )
        }),
{
    let once = eval(CommandView::Not(Box::new(c)), rt, w);
    let twice = eval(CommandView::Not(Box::new(CommandView::Not(Box::new(c)))), rt, w);
    assert(once.trace == eval(c, rt, w).trace);
    assert(twice.trace == once.trace);
}

/// `&&` does not evaluate its right side unless the left side succeeds: the
/// whole run is then the left side's, request for request.
pub proof fn law_and_skips_right(
    l: CommandView,
    r: CommandView,
    rt: RuntimeView,
    w: Seq<ReplyView>,
)
    ensures
        ({
            let left = eval(l, rt, w);
            let both = eval(CommandView::And(Box::new(l), Box::new(r)), rt, w);
            &&& !(left.end matches End::Returned(Ok(status)) && status.is_success()) ==> {
                &&& both.trace == left.trace
                &&& both.rest == left.rest
                &&& both.runtime == left.runtime
            }
            &&& (left.end matches End::Returned(Ok(status)) && !status.is_success()) ==> both
                == left
        }),
{
}

/// `||` does not evaluate its right side unless the left side fails: the
/// whole run is then the left side's, request for request.
pub proof fn law_or_skips_right(
    l: CommandView,
    r: CommandView,
    rt: RuntimeView,
    w: Seq<ReplyView>,
)
    ensures
        ({
            let left = eval(l, rt, w);
            let both = eval(CommandView::Or(Box::new(l), Box::new(r)), rt, w);
            &&& !(left.end matches End::Returned(Ok(status)) && status.is_failure()) ==> {
                &&& both.trace == left.trace
                &&& both.rest == left.rest
                &&& both.runtime == left.runtime
            }
            &&& (left.end matches End::Returned(Ok(status)) && !status.is_failure()) ==> both
                == left
        }),
{
}

/// Where the left side of `&&` returns a status that is no success, the
/// host is handed the requests of the left side and no others, and the
/// evaluation ends as the left side ends: nothing of the right side is
/// evaluated.
pub proof fn law_machine_skips_right_of_and(
    l: CommandView,
    r: CommandView,
    rt: RuntimeView,
    w: Seq<ReplyView>,
)
    requires
        eval(l, rt, w).end matches End::Returned(Ok(status)) && !status.is_success(),
    ensures
        drive(run_spec(CommandView::And(Box::new(l), Box::new(r)), rt), rt, w) == drive(
            run_spec(l, rt),
            rt,
            w,
        ),
{
    law_and_skips_right(l, r, rt, w);
    theorem_machine_runs_eval(CommandView::And(Box::new(l), Box::new(r)), rt, w);
    theorem_machine_runs_eval(l, rt, w);
}

/// Where the left side of `||` returns a status that is no failure, the
/// host is handed the requests of the left side and no others, and the
/// evaluation ends as the left side ends: nothing of the right side is
/// evaluated.
pub proof fn law_machine_skips_right_of_or(
    l: CommandView,
    r: CommandView,
    rt: RuntimeView,
    w: Seq<ReplyView>,
)
    requires
        eval(l, rt, w).end matches End::Returned(Ok(status)) && !status.is_failure(),
    ensures
        drive(run_spec(CommandView::Or(Box::new(l), Box::new(r)), rt), rt, w) == drive(
            run_spec(l, rt),
            rt,
            w,
        ),
{
    law_or_skips_right(l, r, rt, w);
    theorem_machine_runs_eval(CommandView::Or(Box::new(l), Box::new(r)), rt, w);
    theorem_machine_runs_eval(l, rt, w);
}

/// The names of the builtins, each with its kind.
pub proof fn law_builtin_names()
    ensures
        lookup_spec(":"@) == Some(Kind::Null),
        lookup_spec("exit"@) == Some(Kind::Exit),
        lookup_spec("cd"@) == Some(Kind::Cd),
        lookup_spec("."@) == Some(Kind::Dot),
        lookup_spec("wait"@) == Some(Kind::Wait),
        lookup_spec("export"@) == Some(Kind::Export),
        lookup_spec("command"@) == Some(Kind::Command),
        lookup_spec("jobs"@) == Some(Kind::Jobs),
{
    reveal_strlit(":");
    reveal_strlit("exit");
    reveal_strlit("cd");
    reveal_strlit(".");
    reveal_strlit("wait");
    reveal_strlit("export");
    reveal_strlit("command");
    reveal_strlit("jobs");
    assert(":"@.len() == 1 && ":"@[0] == ':');
    assert("."@.len() == 1 && "."@[0] == '.');
    assert("cd"@.len() == 2);
    assert("exit"@.len() == 4 && "exit"@[0] == 'e');
    assert("wait"@.len() == 4 && "wait"@[0] == 'w');
    assert("jobs"@.len() == 4 && "jobs"@[0] == 'j');
    assert("export"@.len() == 6);
    assert("command"@.len() == 7);
}

proof fn lemma_export_never_spawns(rest: Seq<Seq<char>>, rt: RuntimeView)
    ensures
        !(export_next_spec(rest, rt) matches NextView::Ask(RequestView::Spawn(_), _)),
    decreases rest.len(),
{
    if rest.len() > 0 {
        lemma_export_never_spawns(rest.skip(1), rt);
    }
}

/// A builtin shadows any external command of its name: a simple command
/// whose name is a builtin's runs the builtin, which never begins by
/// spawning a process.
pub proof fn law_builtin_shadows(argv: Seq<Seq<char>>, rt: RuntimeView)
    requires
        argv.len() > 0,
        lookup_spec(argv[0]) is Some,
    ensures
        simple_spec(argv, rt) == builtin_spec(lookup_spec(argv[0])->Some_0, argv, rt),
        !(simple_spec(argv, rt) matches NextView::Ask(RequestView::Spawn(_), _)),
{
    lemma_export_never_spawns(argv.skip(1), rt);
}

proof fn lemma_resume_never_spawns(pending: PendingView, reply: ReplyView, rt: RuntimeView)
    ensures
        !(resume_spec(pending, reply, rt).0 matches NextView::Ask(RequestView::Spawn(_), _)),
{
    match pending {
        PendingView::Export(rest) => {
            lemma_export_never_spawns(rest, rt);
        },
        _ => {},
    }
}

proof fn lemma_settle_never_spawns(next: NextView, rt: RuntimeView, w: Seq<ReplyView>)
    requires
        !(next matches NextView::Ask(RequestView::Spawn(_), _)),
    ensures
        forall|k: int|
            0 <= k < settle(next, rt, w).trace.len() ==> !(#[trigger] settle(next, rt, w).trace[k]
                is Spawn),
    decreases w.len(),
{
    match next {
        NextView::Ask(request, pending) => {
            if w.len() > 0 {
                let (after, rt2) = resume_spec(pending, w[0], rt);
                lemma_resume_never_spawns(pending, w[0], rt);
                lemma_settle_never_spawns(after, rt2, w.skip(1));
                let tail = settle(after, rt2, w.skip(1));
                assert forall|k: int| 0 <= k < settle(next, rt, w).trace.len() implies !(
                #[trigger] settle(next, rt, w).trace[k] is Spawn) by {
                    if k > 0 {
                        assert(settle(next, rt, w).trace[k] == tail.trace[k - 1]);
                    }
                }
            }
        },
        _ => {},
    }
}

/// The builtin is always chosen: a simple command whose name is a builtin's
/// never has a process spawned, whatever the host answers.
pub proof fn law_builtin_never_spawns(argv: Seq<Seq<char>>, rt: RuntimeView, w: Seq<ReplyView>)
    requires
        argv.len() > 0,
        lookup_spec(argv[0]) is Some,
    ensures
        forall|k: int|
            0 <= k < eval(CommandView::Simple(argv), rt, w).trace.len() ==> !(#[trigger] eval(
                CommandView::Simple(argv),
                rt,
                w,
            ).trace[k] is Spawn),
{
    law_builtin_shadows(argv, rt);
    lemma_settle_never_spawns(simple_spec(argv, rt), rt, w);
}

/// `exit` with a number in decimal notation leaves with that number.
pub proof fn law_exit_with_number(n: i32)
    ensures
        leave_code(seq!["exit"@, signed_decimal(n as int)]) == n,
{
    law_decimal_round_trip(n);
}

/// `exit` with at most one argument ends the evaluation with the exit code:
/// at once where no line editor is attached, and after the history was
/// handed out to be saved where one is.
pub proof fn law_exit(argv: Seq<Seq<char>>, rt: RuntimeView, w: Seq<ReplyView>)
    requires
        1 <= argv.len() <= 2,
        argv[0] == "exit"@,
    ensures
        ({
            let run = eval(CommandView::Simple(argv), rt, w);
            &&& !rt.interactive ==> run.end == End::Exit(leave_code(argv)) && run.trace
                == Seq::<RequestView>::empty()
            &&& rt.interactive ==> run.trace == seq![RequestView::SaveHistory(rt.history_path)]
            &&& rt.interactive && w.len() > 0 ==> run.end == End::Exit(leave_code(argv))
            &&& run.runtime == rt
        }),
{
    law_builtin_names();
    let run = eval(CommandView::Simple(argv), rt, w);
    if rt.interactive && w.len() > 0 {
        let (after, rt2) = resume_spec(PendingView::Leave(leave_code(argv)), w[0], rt);
        assert(settle(after, rt2, w.skip(1)).trace =~= Seq::<RequestView>::empty());
        assert(run.trace =~= seq![RequestView::SaveHistory(rt.history_path)]);
    }
}

/// The status of a pipeline is the status of its right side, whatever the
/// left side came to.
pub proof fn law_pipeline_status_is_right(
    l: CommandView,
    r: CommandView,
    rt: RuntimeView,
    w: Seq<ReplyView>,
    left: Result<WaitStatus, Error>,
    status: WaitStatus,
)
    requires
        w.len() > 0,
        w[0] == ReplyView::Piped(left, Ok(status)),
    ensures
        ({
            let run = eval(CommandView::Pipeline(Box::new(l), Box::new(r)), rt, w);
            &&& run.end == End::Returned(Ok(status))
            &&& run.trace == seq![RequestView::Pipeline(l, r)]
            &&& run.runtime == rt
        }),
{
    let run = eval(CommandView::Pipeline(Box::new(l), Box::new(r)), rt, w);
    let (after, rt2) = resume_spec(PendingView::Pipeline, w[0], rt);
    assert(settle(after, rt2, w.skip(1)).trace =~= Seq::<RequestView>::empty());
    assert(run.trace =~= seq![RequestView::Pipeline(l, r)]);
}

/// `.` on a file whose contents are a program returns what the evaluation
/// of that program returns, a parse error that the evaluation ends in
/// included.
pub proof fn law_dot_returns_the_evaluation(
    path: Seq<char>,
    contents: Seq<char>,
    result: Result<WaitStatus, Error>,
    rt: RuntimeView,
    w: Seq<ReplyView>,
)
    requires
        parse_spec(contents) is Ok,
        w.len() > 1,
        w[0] == ReplyView::Text(contents),
        w[1] == ReplyView::Outcome(result),
    ensures
        ({
            let run = eval(CommandView::Simple(seq!["."@, path]), rt, w);
            &&& run.end == End::Returned(result)
            &&& run.trace == seq![
                RequestView::ReadFile(path),
                RequestView::Evaluate(parse_spec(contents)->Ok_0),
            ]
            &&& run.runtime == rt
        }),
{
    law_builtin_names();
    let run = eval(CommandView::Simple(seq!["."@, path]), rt, w);
    let (read, rt2) = resume_spec(PendingView::DotFile, w[0], rt);
    let (done, rt3) = resume_spec(PendingView::Evaluated, w[1], rt2);
    let rest = w.skip(1);
    assert(rest[0] == w[1]);
    assert(settle(done, rt3, rest.skip(1)).trace =~= Seq::<RequestView>::empty());
    assert(settle(read, rt2, rest).trace =~= seq![
        RequestView::Evaluate(parse_spec(contents)->Ok_0),
    ]);
    assert(run.trace =~= seq![
        RequestView::ReadFile(path),
        RequestView::Evaluate(parse_spec(contents)->Ok_0),
    ]);
}

/// `.` on a file whose contents are no program has the diagnostic printed
/// and returns status 1; nothing is evaluated.
pub proof fn law_dot_refuses_what_is_no_program(
    path: Seq<char>,
    contents: Seq<char>,
    rt: RuntimeView,
    w: Seq<ReplyView>,
)
    requires
        parse_spec(contents) is Err,
        w.len() > 1,
        w[0] == ReplyView::Text(contents),
    ensures
        ({
            let run = eval(CommandView::Simple(seq!["."@, path]), rt, w);
            &&& run.end == End::Returned(Ok(WaitStatus::Exited(rt.pid, 1)))
            &&& run.trace == seq![
                RequestView::ReadFile(path),
                RequestView::Diagnose(diagnostic_spec(parse_spec(contents)->Err_0)),
            ]
            &&& run.runtime == rt
        }),
{
    law_builtin_names();
    let run = eval(CommandView::Simple(seq!["."@, path]), rt, w);
    let (read, rt2) = resume_spec(PendingView::DotFile, w[0], rt);
    let (done, rt3) = resume_spec(PendingView::Status(1), w[1], rt2);
    let rest = w.skip(1);
    assert(rest[0] == w[1]);
    assert(settle(done, rt3, rest.skip(1)).trace =~= Seq::<RequestView>::empty());
    assert(settle(read, rt2, rest).trace =~= seq![
        RequestView::Diagnose(diagnostic_spec(parse_spec(contents)->Err_0)),
    ]);
    assert(run.trace =~= seq![
        RequestView::ReadFile(path),
        RequestView::Diagnose(diagnostic_spec(parse_spec(contents)->Err_0)),
    ]);
}

/// `cd` to a directory that cannot be entered is a runtime error, and
/// nothing is asked of the host after the failed change: `PWD` stays as it
/// is.
pub proof fn law_cd_failure(path: Seq<char>, rt: RuntimeView, w: Seq<ReplyView>)
    requires
        w.len() > 0,
        w[0] != ReplyView::Done,
    ensures
        ({
            let run = eval(CommandView::Simple(seq!["cd"@, path]), rt, w);
            &&& run.end == End::Returned(Err(Error::Runtime))
            &&& run.trace == seq![RequestView::Chdir(path)]
            &&& run.runtime == rt
        }),
{
    law_builtin_names();
    let argv = seq!["cd"@, path];
    let run = eval(CommandView::Simple(argv), rt, w);
    let (after, rt2) = resume_spec(PendingView::CdMoved(path), w[0], rt);
    assert(settle(after, rt2, w.skip(1)).trace =~= Seq::<RequestView>::empty());
    assert(run.trace =~= seq![RequestView::Chdir(path)]);
}

/// `cd` to a directory that can be entered sets `PWD` to it and ends with
/// status 0.
pub proof fn law_cd_success(path: Seq<char>, rt: RuntimeView, w: Seq<ReplyView>)
    requires
        w.len() > 1,
        w[0] == ReplyView::Done,
    ensures
        ({
            let run = eval(CommandView::Simple(seq!["cd"@, path]), rt, w);
            &&& run.end == End::Returned(Ok(WaitStatus::Exited(rt.pid, 0)))
            &&& run.trace == seq![RequestView::Chdir(path), RequestView::SetVar("PWD"@, path)]
            &&& run.runtime == rt
        }),
{
    law_builtin_names();
    let argv = seq!["cd"@, path];
    let run = eval(CommandView::Simple(argv), rt, w);
    let (moved, rt2) = resume_spec(PendingView::CdMoved(path), w[0], rt);
    let (set, rt3) = resume_spec(PendingView::Status(0), w[1], rt2);
    let rest = w.skip(1);
    assert(rest[0] == w[1]);
    assert(settle(set, rt3, rest.skip(1)).trace =~= Seq::<RequestView>::empty());
    assert(settle(moved, rt2, rest).trace =~= seq![RequestView::SetVar("PWD"@, path)]);
    assert(run.trace =~= seq![RequestView::Chdir(path), RequestView::SetVar("PWD"@, path)]);
}

/// A command started in the background ends with status 0 at once, and its
/// job stands last in the table under the next id; in a context without
/// jobs that has given no id yet, that is the first id.
pub proof fn law_background_registers(rt: RuntimeView, pid: i32, body: Seq<char>)
    requires
        rt.jobs.wf(),
        rt.jobs.has_room(),
    ensures
        ({
            let (next, after) = resume_spec(
                PendingView::Background,
                ReplyView::Started(pid, body),
                rt,
            );
            &&& next == exited(rt, 0)
            &&& after.jobs.wf()
            &&& after.jobs.jobs == rt.jobs.jobs.push(JobView { id: rt.jobs.next_id, pid, body })
            &&& rt.jobs.jobs.len() == 0 && rt.jobs.next_id == FIRST_JOB_ID ==> after.jobs.listing()
                == job_line(JobView { id: FIRST_JOB_ID, pid, body })
        }),
{
    let job = JobView { id: rt.jobs.next_id, pid, body };
    let jobs = rt.jobs.jobs.push(job);
    if rt.jobs.jobs.len() == 0 {
        assert(jobs.drop_last() =~= Seq::<JobView>::empty());
        assert(job_lines(jobs.drop_last()) =~= Seq::<char>::empty());
        assert(job_lines(jobs) =~= job_line(job));
    }
}

} // verus!
