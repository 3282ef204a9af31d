//! What a command means: the run that its evaluation makes of a world of
//! answers.
//!
//! A world is the sequence of answers that the host will give, in order. The
//! meaning of a command is defined by recursion over the syntax tree
//! ([`eval`]); the machine of [`crate::eval`] is proved to make exactly that
//! run when the host feeds it the world answer by answer
//! ([`theorem_machine_runs_eval`]).

use crate::ast::{CommandView, InterpreterView};
use crate::builtin::{resume_spec, simple_spec, NextView, PendingView};
use crate::effect::{ReplyView, RequestView};
use crate::eval::{
    bridge_contents,
    enter_list,
    go,
    guarded,
    lift,
    negated,
    resume_machine,
    run_spec,
    start_spec,
    FrameView,
    ModeView,
    StepView,
};
use crate::runtime::RuntimeView;
use crate::status::{Error, Outcome, WaitStatus};
use vstd::prelude::*;

verus! {

/// How a run ends.
pub enum End {
    /// The command returned a status or an error.
    Returned(Result<WaitStatus, Error>),
    /// The interpreter's process exits with the code.
    Exit(i32),
    /// The world held no answer to the last request.
    Stalled,
}

/// A run: the requests made, in order, how it ended, the answers left over
/// and the context left behind.
#[verifier::ext_equal]
pub struct Run {
    pub end: End,
    pub trace: Seq<RequestView>,
    pub rest: Seq<ReplyView>,
    pub runtime: RuntimeView,
}

/// The end that an outcome stands for.
pub open spec fn end_of(outcome: Outcome) -> End {
    match outcome {
        Outcome::Returned(r) => End::Returned(r),
        Outcome::Exit(code) => End::Exit(code),
    }
}

/// The run that makes no request and returns `r`.
pub open spec fn returned(r: Result<WaitStatus, Error>, rt: RuntimeView, w: Seq<ReplyView>) -> Run {
    Run { end: End::Returned(r), trace: Seq::empty(), rest: w, runtime: rt }
}

/// The run that makes no request and ends as the outcome says.
pub open spec fn ended(outcome: Outcome, rt: RuntimeView, w: Seq<ReplyView>) -> Run {
    Run { end: end_of(outcome), trace: Seq::empty(), rest: w, runtime: rt }
}

/// The run that makes one request, to which the world holds no answer.
pub open spec fn stalled(request: RequestView, rt: RuntimeView, w: Seq<ReplyView>) -> Run {
    Run { end: End::Stalled, trace: seq![request], rest: w, runtime: rt }
}

/// The run after the requests of `trace` were made.
pub open spec fn prepend(trace: Seq<RequestView>, run: Run) -> Run {
    Run { trace: trace + run.trace, ..run }
}

/// The run with its result, if it returned one, changed by `f`.
pub open spec fn map_result(
    run: Run,
    f: spec_fn(Result<WaitStatus, Error>) -> Result<WaitStatus, Error>,
) -> Run {
    match run.end {
        End::Returned(r) => Run { end: End::Returned(f(r)), ..run },
        _ => run,
    }
}

/// The run of a command without children from the point `next`: each request
/// takes the world's next answer, until the command has ended.
pub open spec fn settle(next: NextView, rt: RuntimeView, w: Seq<ReplyView>) -> Run
    decreases w.len(),
{
    match next {
        NextView::Done(outcome) => ended(outcome, rt, w),
        NextView::Ask(request, pending) => if w.len() == 0 {
            stalled(request, rt, w)
        } else {
            let (after, rt2) = resume_spec(pending, w[0], rt);
            prepend(seq![request], settle(after, rt2, w.skip(1)))
        },
    }
}

/// The run of a command in the context `rt` on the world `w`.
pub open spec fn eval(c: CommandView, rt: RuntimeView, w: Seq<ReplyView>) -> Run
    decreases c,
{
    match c {
        CommandView::Simple(argv) => settle(simple_spec(argv, rt), rt, w),
        CommandView::Compound(cs) => eval_list(cs, WaitStatus::Exited(rt.pid, 0), rt, w),
        CommandView::Subshell(cs) => eval_list(cs, WaitStatus::Exited(rt.pid, 0), rt, w),
        CommandView::Not(c) => map_result(
            eval(*c, rt, w),
            |r: Result<WaitStatus, Error>| negated(r),
        ),
        CommandView::And(l, r) => {
            let left = eval(*l, rt, w);
            match left.end {
                End::Returned(Ok(status)) => if status.is_success() {
                    prepend(
                        left.trace,
                        map_result(
                            eval(*r, left.runtime, left.rest),
                            |r: Result<WaitStatus, Error>| guarded(r),
                        ),
                    )
                } else {
                    left
                },
                End::Returned(Err(_)) => Run { end: End::Returned(Err(Error::Runtime)), ..left },
                _ => left,
            }
        },
        CommandView::Or(l, r) => {
            let left = eval(*l, rt, w);
            match left.end {
                End::Returned(Ok(status)) => if status.is_failure() {
                    prepend(
                        left.trace,
                        map_result(
                            eval(*r, left.runtime, left.rest),
                            |r: Result<WaitStatus, Error>| guarded(r),
                        ),
                    )
                } else {
                    left
                },
                End::Returned(Err(_)) => Run { end: End::Returned(Err(Error::Runtime)), ..left },
                _ => left,
            }
        },
        CommandView::Pipeline(l, r) => settle(
            NextView::Ask(RequestView::Pipeline(*l, *r), PendingView::Pipeline),
            rt,
            w,
        ),
        CommandView::Background(c) => settle(
            NextView::Ask(RequestView::Background(*c), PendingView::Background),
            rt,
            w,
        ),
        CommandView::Shebang(interpreter, text) => match interpreter {
            InterpreterView::Other(name) => settle(
                NextView::Ask(RequestView::Bridge(bridge_contents(name, text)), PendingView::Bridge),
                rt,
                w,
            ),
            _ => returned(Err(Error::Runtime), rt, w),
        },
    }
}

/// The run of a list of commands, one after another: it returns the status
/// of the last command, or `last` if there is none, and it ends where a
/// command does not return a status.
pub open spec fn eval_list(
    cs: Seq<CommandView>,
    last: WaitStatus,
    rt: RuntimeView,
    w: Seq<ReplyView>,
) -> Run
    decreases cs,
{
    if cs.len() == 0 {
        returned(Ok(last), rt, w)
    } else {
        let first = eval(cs[0], rt, w);
        match first.end {
            End::Returned(Ok(status)) => prepend(
                first.trace,
                eval_list(cs.skip(1), status, first.runtime, first.rest),
            ),
            _ => first,
        }
    }
}

/// The run of a program.
pub open spec fn eval_program(program: Seq<CommandView>, rt: RuntimeView, w: Seq<ReplyView>) -> Run {
    eval(CommandView::Compound(program), rt, w)
}

/// The run that the machine makes from `step` when the host performs each
/// request and resumes the machine with the world's next answer, in the
/// context that the step before left.
pub open spec fn drive(step: StepView, rt: RuntimeView, w: Seq<ReplyView>) -> Run
    decreases w.len(),
{
    match step {
        StepView::Done(outcome) => ended(outcome, rt, w),
        StepView::Ask(request, machine) => if w.len() == 0 {
            stalled(request, rt, w)
        } else {
            let (after, rt2) = resume_machine(machine, w[0], rt);
            prepend(seq![request], drive(after, rt2, w.skip(1)))
        },
    }
}

/// The run that goes on from the end of `run` by handing its result to the
/// frames of `stack`.
pub open spec fn bind(run: Run, stack: Seq<FrameView>) -> Run {
    match run.end {
        End::Returned(r) => prepend(
            run.trace,
            drive(go(ModeView::Unwind(r), stack, run.runtime), run.runtime, run.rest),
        ),
        _ => run,
    }
}

proof fn lemma_prepend_empty(run: Run)
    ensures
        prepend(Seq::empty(), run) == run,
{
    assert(prepend(Seq::empty(), run) =~= run);
}

proof fn lemma_prepend_twice(a: Seq<RequestView>, b: Seq<RequestView>, run: Run)
    ensures
        prepend(a, prepend(b, run)) == prepend(a + b, run),
{
    assert(prepend(a, prepend(b, run)) =~= prepend(a + b, run));
}

proof fn lemma_bind_prepend(trace: Seq<RequestView>, run: Run, stack: Seq<FrameView>)
    ensures
        bind(prepend(trace, run), stack) == prepend(trace, bind(run, stack)),
{
    match run.end {
        End::Returned(r) => {
            let tail = drive(go(ModeView::Unwind(r), stack, run.runtime), run.runtime, run.rest);
            lemma_prepend_twice(trace, run.trace, tail);
        },
        _ => {},
    }
}

/// A stack with `frame` pushed has it on top and the old stack below.
proof fn lemma_top(stack: Seq<FrameView>, frame: FrameView)
    ensures
        stack.push(frame).len() > 0,
        stack.push(frame).last() == frame,
        stack.push(frame).drop_last() == stack,
{
    assert(stack.push(frame).drop_last() =~= stack);
}

/// A command without children, taken up by the machine: the machine's run is
/// the command's own, and then what the frames make of its result.
proof fn lemma_drive_settle(next: NextView, stack: Seq<FrameView>, rt: RuntimeView, w: Seq<ReplyView>)
    ensures
        drive(lift(next, stack, rt), rt, w) == bind(settle(next, rt, w), stack),
    decreases w.len(),
{
    match next {
        NextView::Done(Outcome::Returned(r)) => {
            lemma_prepend_empty(drive(go(ModeView::Unwind(r), stack, rt), rt, w));
        },
        NextView::Done(Outcome::Exit(code)) => {},
        NextView::Ask(request, pending) => {
            if w.len() > 0 {
                let (after, rt2) = resume_spec(pending, w[0], rt);
                lemma_drive_settle(after, stack, rt2, w.skip(1));
                lemma_bind_prepend(seq![request], settle(after, rt2, w.skip(1)), stack);
            }
        },
    }
}

/// The machine's run from entering a command is the command's run, and then
/// what the frames make of its result.
proof fn lemma_drive_eval(c: CommandView, stack: Seq<FrameView>, rt: RuntimeView, w: Seq<ReplyView>)
    ensures
        drive(go(ModeView::Descend(c), stack, rt), rt, w) == bind(eval(c, rt, w), stack),
    decreases c, 0int,
{
    match c {
        CommandView::Simple(argv) => {
            lemma_drive_settle(simple_spec(argv, rt), stack, rt, w);
        },
        CommandView::Compound(cs) => {
            lemma_drive_list(cs, WaitStatus::Exited(rt.pid, 0), stack, rt, w);
        },
        CommandView::Subshell(cs) => {
            lemma_drive_list(cs, WaitStatus::Exited(rt.pid, 0), stack, rt, w);
        },
        CommandView::Not(inner) => {
            let run = eval(*inner, rt, w);
            lemma_drive_eval(*inner, stack.push(FrameView::Negate), rt, w);
            match run.end {
                End::Returned(r) => {
                    lemma_top(stack, FrameView::Negate);
                },
                _ => {},
            }
        },
        CommandView::And(l, r) => {
            let left = eval(*l, rt, w);
            lemma_drive_eval(*l, stack.push(FrameView::AndThen(*r)), rt, w);
            match left.end {
                End::Returned(result) => {
                    lemma_top(stack, FrameView::AndThen(*r));
                    match result {
                        Ok(status) => {
                            if status.is_success() {
                                lemma_drive_guarded(*r, left, stack);
                            }
                        },
                        Err(_) => {},
                    }
                },
                _ => {},
            }
        },
        CommandView::Or(l, r) => {
            let left = eval(*l, rt, w);
            lemma_drive_eval(*l, stack.push(FrameView::OrElse(*r)), rt, w);
            match left.end {
                End::Returned(result) => {
                    lemma_top(stack, FrameView::OrElse(*r));
                    match result {
                        Ok(status) => {
                            if status.is_failure() {
                                lemma_drive_guarded(*r, left, stack);
                            }
                        },
                        Err(_) => {},
                    }
                },
                _ => {},
            }
        },
        CommandView::Pipeline(l, r) => {
            lemma_drive_settle(
                NextView::Ask(RequestView::Pipeline(*l, *r), PendingView::Pipeline),
                stack,
                rt,
                w,
            );
        },
        CommandView::Background(inner) => {
            lemma_drive_settle(
                NextView::Ask(RequestView::Background(*inner), PendingView::Background),
                stack,
                rt,
                w,
            );
        },
        CommandView::Shebang(interpreter, text) => match interpreter {
            InterpreterView::Other(name) => {
                lemma_drive_settle(
                    NextView::Ask(
                        RequestView::Bridge(bridge_contents(name, text)),
                        PendingView::Bridge,
                    ),
                    stack,
                    rt,
                    w,
                );
            },
            _ => {
                lemma_prepend_empty(
                    drive(go(ModeView::Unwind(Err(Error::Runtime)), stack, rt), rt, w),
                );
            },
        },
    }
}

/// The right side of `&&` or `||`, entered under a guard after the left
/// side's run: the machine's run is the right side's, with errors turned
/// into runtime errors, and then what the frames make of it.
proof fn lemma_drive_guarded(c: CommandView, left: Run, stack: Seq<FrameView>)
    ensures
        prepend(
            left.trace,
            drive(
                go(ModeView::Descend(c), stack.push(FrameView::Guard), left.runtime),
                left.runtime,
                left.rest,
            ),
        ) == bind(
            prepend(
                left.trace,
                map_result(
                    eval(c, left.runtime, left.rest),
                    |r: Result<WaitStatus, Error>| guarded(r),
                ),
            ),
            stack,
        ),
    decreases c, 1int,
{
    let right = eval(c, left.runtime, left.rest);
    let mapped = map_result(right, |r: Result<WaitStatus, Error>| guarded(r));
    lemma_drive_eval(c, stack.push(FrameView::Guard), left.runtime, left.rest);
    match right.end {
        End::Returned(r) => {
            lemma_top(stack, FrameView::Guard);
            assert(bind(right, stack.push(FrameView::Guard)) == bind(mapped, stack));
        },
        _ => {
            assert(bind(right, stack.push(FrameView::Guard)) == bind(mapped, stack));
        },
    }
    lemma_bind_prepend(left.trace, mapped, stack);
}

/// The machine's run from entering a list is the list's run, and then what
/// the frames make of its result.
proof fn lemma_drive_list(
    cs: Seq<CommandView>,
    last: WaitStatus,
    stack: Seq<FrameView>,
    rt: RuntimeView,
    w: Seq<ReplyView>,
)
    ensures
        ({
            let (mode, frames) = enter_list(cs, stack, rt);
            cs.len() > 0 || last == WaitStatus::Exited(rt.pid, 0) ==> drive(
                go(mode, frames, rt),
                rt,
                w,
            ) == bind(eval_list(cs, last, rt, w), stack)
        }),
    decreases cs, 2int,
{
    if cs.len() == 0 {
        if last == WaitStatus::Exited(rt.pid, 0) {
            lemma_prepend_empty(drive(go(ModeView::Unwind(Ok(last)), stack, rt), rt, w));
        }
    } else {
        let rest = cs.skip(1);
        let frame = FrameView::Rest(rest);
        let first = eval(cs[0], rt, w);
        lemma_drive_eval(cs[0], stack.push(frame), rt, w);
        match first.end {
            End::Returned(r) => {
                lemma_top(stack, frame);
                match r {
                    Ok(status) => {
                        let tail = eval_list(rest, status, first.runtime, first.rest);
                        if rest.len() > 0 {
                            lemma_drive_list(rest, status, stack, first.runtime, first.rest);
                        } else {
                            lemma_prepend_empty(
                                drive(
                                    go(ModeView::Unwind(Ok(status)), stack, first.runtime),
                                    first.runtime,
                                    first.rest,
                                ),
                            );
                        }
                        assert(drive(
                            go(ModeView::Unwind(r), stack.push(frame), first.runtime),
                            first.runtime,
                            first.rest,
                        ) == bind(tail, stack));
                        lemma_bind_prepend(first.trace, tail, stack);
                    },
                    Err(_) => {},
                }
            },
            _ => {},
        }
    }
}

/// The machine makes the run that the command means.
///
/// Let the host begin the command with [`crate::ast::Command::run`], perform
/// each request and resume the machine with the world's next answer, leaving
/// the context alone in between. The requests it is handed, the way the
/// evaluation ends, the answers left over and the context left behind are
/// then those of [`eval`].
pub proof fn theorem_machine_runs_eval(c: CommandView, rt: RuntimeView, w: Seq<ReplyView>)
    ensures
        drive(run_spec(c, rt), rt, w) == eval(c, rt, w),
{
    lemma_drive_eval(c, Seq::empty(), rt, w);
    let run = eval(c, rt, w);
    match run.end {
        End::Returned(r) => {
            assert(drive(go(ModeView::Unwind(r), Seq::empty(), run.runtime), run.runtime, run.rest)
                == returned(r, run.runtime, run.rest));
            assert(bind(run, Seq::empty()) =~= run);
        },
        _ => {},
    }
}

/// The machine makes the run that the program means, when the host begins
/// it with [`crate::ast::Program::run`].
pub proof fn theorem_machine_runs_program(
    program: Seq<CommandView>,
    rt: RuntimeView,
    w: Seq<ReplyView>,
)
    ensures
        drive(start_spec(program, rt), rt, w) == eval_program(program, rt, w),
{
    theorem_machine_runs_eval(CommandView::Compound(program), rt, w);
}

} // verus!
