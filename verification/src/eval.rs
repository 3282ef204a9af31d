//! The evaluator: a machine that walks the syntax tree and stops whenever the
//! host has something to do.
//!
//! [`Program::run`] and [`Command::run`] begin an evaluation and
//! [`Machine::resume`] goes on with the host's answer. Each runs until the
//! next request, or until the evaluation has ended. What is left to do is
//! kept as a stack of [`Frame`]s.

use crate::ast::{
    view_command,
    view_commands,
    view_words,
    Command,
    CommandView,
    Interpreter,
    InterpreterView,
    Program,
    Word,
};
use crate::builtin::{resume_spec, simple, simple_spec, Next, NextView, Pending, PendingView};
use crate::effect::{Reply, ReplyView, Request, RequestView};
use crate::runtime::{Runtime, RuntimeView};
use crate::status::{Error, Outcome, WaitStatus};
use crate::text::{chars_of, spells, strings};
use vstd::prelude::*;

verus! {

/// What is to be done with the result of the command being evaluated.
#[derive(Debug, PartialEq, Eq)]
pub enum Frame {
    /// Go on with these commands, unless the result is an error. They are
    /// kept last first, so that the next one is taken from the end.
    Rest(Vec<Box<Command>>),
    /// Negate the result.
    Negate,
    /// Evaluate the command if the result is success.
    AndThen(Box<Command>),
    /// Evaluate the command if the result is a failure.
    OrElse(Box<Command>),
    /// Turn any error into a runtime error.
    Guard,
}

/// The mathematical value of a [`Frame`]; the commands of
/// [`FrameView::Rest`] stand in the order in which they will run.
pub enum FrameView {
    Rest(Seq<CommandView>),
    Negate,
    AndThen(CommandView),
    OrElse(CommandView),
    Guard,
}

impl View for Frame {
    type V = FrameView;

    open spec fn view(&self) -> FrameView {
        match self {
            Frame::Rest(rest) => FrameView::Rest(view_commands(*rest).reverse()),
            Frame::Negate => FrameView::Negate,
            Frame::AndThen(c) => FrameView::AndThen(view_command(**c)),
            Frame::OrElse(c) => FrameView::OrElse(view_command(**c)),
            Frame::Guard => FrameView::Guard,
        }
    }
}

/// The views of a stack of frames, bottom first.
pub open spec fn view_frames(stack: Seq<Frame>) -> Seq<FrameView> {
    Seq::new(stack.len(), |i: int| stack[i]@)
}

/// An evaluation that waits for the host's answer.
#[derive(Debug, PartialEq, Eq)]
pub struct Machine {
    stack: Vec<Frame>,
    pending: Pending,
}

/// The mathematical value of a [`Machine`]: the frames, bottom first, and
/// what the command on top of them waits for.
pub struct MachineView {
    pub stack: Seq<FrameView>,
    pub pending: PendingView,
}

impl View for Machine {
    type V = MachineView;

    closed spec fn view(&self) -> MachineView {
        MachineView { stack: view_frames(self.stack@), pending: self.pending@ }
    }
}

/// How far an evaluation got.
#[derive(Debug, PartialEq, Eq)]
pub enum Step {
    /// The host is to perform the request and resume the machine with its
    /// answer.
    Ask(Request, Machine),
    /// The evaluation has ended.
    Done(Outcome),
}

/// The mathematical value of a [`Step`].
pub enum StepView {
    Ask(RequestView, MachineView),
    Done(Outcome),
}

impl View for Step {
    type V = StepView;

    open spec fn view(&self) -> StepView {
        match self {
            Step::Ask(request, machine) => StepView::Ask(request@, machine@),
            Step::Done(outcome) => StepView::Done(*outcome),
        }
    }
}

/// What the machine is doing between two requests: entering a command, or
/// handing a result to the frames.
pub enum ModeView {
    Descend(CommandView),
    Unwind(Result<WaitStatus, Error>),
}

/// The result of `!`: exit code zero becomes one and any other becomes zero;
/// a status that is no exit passes, and an error is a runtime error.
pub open spec fn negated(r: Result<WaitStatus, Error>) -> Result<WaitStatus, Error> {
    match r {
        Ok(WaitStatus::Exited(pid, code)) => Ok(
            WaitStatus::Exited(
                pid,
                if code == 0 {
                    1i32
                } else {
                    0i32
                },
            ),
        ),
        Ok(status) => Ok(status),
        Err(_) => Err(Error::Runtime),
    }
}

/// The result with any error turned into a runtime error.
pub open spec fn guarded(r: Result<WaitStatus, Error>) -> Result<WaitStatus, Error> {
    match r {
        Ok(status) => Ok(status),
        Err(_) => Err(Error::Runtime),
    }
}

/// The interpreter that a short name stands for.
pub open spec fn resolve_alias(name: Seq<char>) -> Seq<char> {
    if name == "ruby"@ {
        "/usr/bin/env ruby"@
    } else if name == "node"@ {
        "/usr/bin/env node"@
    } else if name == "python"@ {
        "/usr/bin/env python"@
    } else if name == "racket"@ {
        "/usr/bin/env racket"@
    } else {
        name
    }
}

/// The file that runs a shebang block: the directive line for the
/// interpreter, then the text as it stands.
pub open spec fn bridge_contents(name: Seq<char>, text: Seq<char>) -> Seq<char> {
    "#!"@ + resolve_alias(name) + "\n"@ + text
}

/// A measure of a command that bounds the machine's moves on it.
pub open spec fn weight(c: CommandView) -> nat
    decreases c,
{
    match c {
        CommandView::Simple(_) => 1,
        CommandView::Compound(cs) => 2 + list_weight(cs),
        CommandView::Not(c) => 2 + weight(*c),
        CommandView::And(l, r) => 3 + weight(*l) + weight(*r),
        CommandView::Or(l, r) => 3 + weight(*l) + weight(*r),
        CommandView::Subshell(cs) => 2 + list_weight(cs),
        CommandView::Pipeline(_, _) => 1,
        CommandView::Background(_) => 1,
        CommandView::Shebang(_, _) => 1,
    }
}

/// The measure of a list of commands.
pub open spec fn list_weight(cs: Seq<CommandView>) -> nat
    decreases cs,
{
    if cs.len() == 0 {
        0
    } else {
        weight(cs[0]) + 1 + list_weight(cs.skip(1))
    }
}

/// The measure of a frame.
pub open spec fn frame_weight(f: FrameView) -> nat {
    match f {
        FrameView::Rest(rest) => 1 + list_weight(rest),
        FrameView::Negate => 1,
        FrameView::AndThen(c) => 2 + weight(c),
        FrameView::OrElse(c) => 2 + weight(c),
        FrameView::Guard => 1,
    }
}

/// The measure of a stack of frames.
pub open spec fn stack_weight(stack: Seq<FrameView>) -> nat
    decreases stack.len(),
{
    if stack.len() == 0 {
        0
    } else {
        frame_weight(stack.last()) + stack_weight(stack.drop_last())
    }
}

/// The measure of a machine between two requests.
pub open spec fn measure(mode: ModeView, stack: Seq<FrameView>) -> nat {
    stack_weight(stack) + match mode {
        ModeView::Descend(c) => weight(c),
        ModeView::Unwind(_) => 0,
    }
}

/// A frame on top of a stack adds its own measure.
proof fn lemma_stack_weight_push(stack: Seq<FrameView>, f: FrameView)
    ensures
        stack_weight(stack.push(f)) == frame_weight(f) + stack_weight(stack),
{
    assert(stack.push(f).drop_last() =~= stack);
}

/// How the machine enters a list of commands: an empty list ends with status
/// 0; else the first command is entered and the others wait in a frame.
pub open spec fn enter_list(cs: Seq<CommandView>, stack: Seq<FrameView>, rt: RuntimeView) -> (
    ModeView,
    Seq<FrameView>,
) {
    if cs.len() == 0 {
        (ModeView::Unwind(Ok(WaitStatus::Exited(rt.pid, 0))), stack)
    } else {
        (ModeView::Descend(cs[0]), stack.push(FrameView::Rest(cs.skip(1))))
    }
}

/// Entering a list keeps the measure at that of the list and the frames.
proof fn lemma_enter_list(cs: Seq<CommandView>, stack: Seq<FrameView>, rt: RuntimeView)
    ensures
        measure(enter_list(cs, stack, rt).0, enter_list(cs, stack, rt).1) == list_weight(cs)
            + stack_weight(stack),
{
    if cs.len() > 0 {
        lemma_stack_weight_push(stack, FrameView::Rest(cs.skip(1)));
    }
}

/// The step that the machine stops at, from the given mode and frames.
pub open spec fn go(mode: ModeView, stack: Seq<FrameView>, rt: RuntimeView) -> StepView
    decreases measure(mode, stack),
    via go_decreases
{
    match mode {
        ModeView::Descend(c) => match c {
            CommandView::Simple(argv) => match simple_spec(argv, rt) {
                NextView::Done(Outcome::Returned(r)) => go(ModeView::Unwind(r), stack, rt),
                NextView::Done(Outcome::Exit(code)) => StepView::Done(Outcome::Exit(code)),
                NextView::Ask(request, pending) => StepView::Ask(
                    request,
                    MachineView { stack, pending },
                ),
            },
            CommandView::Compound(cs) => {
                let (m, s) = enter_list(cs, stack, rt);
                go(m, s, rt)
            },
            CommandView::Subshell(cs) => {
                let (m, s) = enter_list(cs, stack, rt);
                go(m, s, rt)
            },
            CommandView::Not(c) => go(ModeView::Descend(*c), stack.push(FrameView::Negate), rt),
            CommandView::And(l, r) => go(
                ModeView::Descend(*l),
                stack.push(FrameView::AndThen(*r)),
                rt,
            ),
            CommandView::Or(l, r) => go(
                ModeView::Descend(*l),
                stack.push(FrameView::OrElse(*r)),
                rt,
            ),
            CommandView::Pipeline(l, r) => StepView::Ask(
                RequestView::Pipeline(*l, *r),
                MachineView { stack, pending: PendingView::Pipeline },
            ),
            CommandView::Background(c) => StepView::Ask(
                RequestView::Background(*c),
                MachineView { stack, pending: PendingView::Background },
            ),
            CommandView::Shebang(interpreter, text) => match interpreter {
                InterpreterView::Other(name) => StepView::Ask(
                    RequestView::Bridge(bridge_contents(name, text)),
                    MachineView { stack, pending: PendingView::Bridge },
                ),
                _ => go(ModeView::Unwind(Err(Error::Runtime)), stack, rt),
            },
        },
        ModeView::Unwind(r) => if stack.len() == 0 {
            StepView::Done(Outcome::Returned(r))
        } else {
            let below = stack.drop_last();
            match stack.last() {
                FrameView::Rest(rest) => if r is Ok && rest.len() > 0 {
                    go(ModeView::Descend(rest[0]), below.push(FrameView::Rest(rest.skip(1))), rt)
                } else {
                    go(ModeView::Unwind(r), below, rt)
                },
                FrameView::Negate => go(ModeView::Unwind(negated(r)), below, rt),
                FrameView::AndThen(c) => match r {
                    Ok(status) => if status.is_success() {
                        go(ModeView::Descend(c), below.push(FrameView::Guard), rt)
                    } else {
                        go(ModeView::Unwind(r), below, rt)
                    },
                    Err(_) => go(ModeView::Unwind(Err(Error::Runtime)), below, rt),
                },
                FrameView::OrElse(c) => match r {
                    Ok(status) => if status.is_failure() {
                        go(ModeView::Descend(c), below.push(FrameView::Guard), rt)
                    } else {
                        go(ModeView::Unwind(r), below, rt)
                    },
                    Err(_) => go(ModeView::Unwind(Err(Error::Runtime)), below, rt),
                },
                FrameView::Guard => go(ModeView::Unwind(guarded(r)), below, rt),
            }
        },
    }
}

#[via_fn]
proof fn go_decreases(mode: ModeView, stack: Seq<FrameView>, rt: RuntimeView) {
    match mode {
        ModeView::Descend(c) => match c {
            CommandView::Compound(cs) => {
                lemma_enter_list(cs, stack, rt);
            },
            CommandView::Subshell(cs) => {
                lemma_enter_list(cs, stack, rt);
            },
            CommandView::Not(c) => {
                lemma_stack_weight_push(stack, FrameView::Negate);
            },
            CommandView::And(l, r) => {
                lemma_stack_weight_push(stack, FrameView::AndThen(*r));
            },
            CommandView::Or(l, r) => {
                lemma_stack_weight_push(stack, FrameView::OrElse(*r));
            },
            _ => {},
        },
        ModeView::Unwind(r) => {
            if stack.len() > 0 {
                let below = stack.drop_last();
                match stack.last() {
                    FrameView::Rest(rest) => {
                        if rest.len() > 0 {
                            lemma_stack_weight_push(below, FrameView::Rest(rest.skip(1)));
                        }
                    },
                    _ => {
                        lemma_stack_weight_push(below, FrameView::Guard);
                    },
                }
            }
        },
    }
}

/// The step that the evaluation of a command begins with.
pub open spec fn run_spec(c: CommandView, rt: RuntimeView) -> StepView {
    go(ModeView::Descend(c), Seq::empty(), rt)
}

/// The step that the evaluation of a program begins with: a program runs as
/// the compound command of its commands.
pub open spec fn start_spec(program: Seq<CommandView>, rt: RuntimeView) -> StepView {
    run_spec(CommandView::Compound(program), rt)
}

/// The step that the command on top of the frames goes on with.
pub open spec fn lift(next: NextView, stack: Seq<FrameView>, rt: RuntimeView) -> StepView {
    match next {
        NextView::Done(Outcome::Returned(r)) => go(ModeView::Unwind(r), stack, rt),
        NextView::Done(Outcome::Exit(code)) => StepView::Done(Outcome::Exit(code)),
        NextView::Ask(request, pending) => StepView::Ask(request, MachineView { stack, pending }),
    }
}

/// The step that a waiting machine goes on with when the host's answer
/// arrives, and the context it leaves.
pub open spec fn resume_machine(machine: MachineView, reply: ReplyView, rt: RuntimeView) -> (
    StepView,
    RuntimeView,
) {
    let (next, after) = resume_spec(machine.pending, reply, rt);
    (lift(next, machine.stack, after), after)
}

enum Mode {
    Descend(Command),
    Unwind(Result<WaitStatus, Error>),
}

impl View for Mode {
    type V = ModeView;

    closed spec fn view(&self) -> ModeView {
        match self {
            Mode::Descend(c) => ModeView::Descend(view_command(*c)),
            Mode::Unwind(r) => ModeView::Unwind(*r),
        }
    }
}

enum Turn {
    Go(Mode, Vec<Frame>),
    Stop(Step),
}

/// Whether `turn` is one move of the machine from `mode` and `stack`: it
/// either stops at the step that `go` gives, or moves on to a state of
/// smaller measure from which `go` gives the same step.
spec fn is_move(turn: Turn, mode: ModeView, stack: Seq<FrameView>, rt: RuntimeView) -> bool {
    match turn {
        Turn::Stop(step) => step@ == go(mode, stack, rt),
        Turn::Go(m, s) => {
            &&& go(m@, view_frames(s@), rt) == go(mode, stack, rt)
            &&& measure(m@, view_frames(s@)) < measure(mode, stack)
        },
    }
}

fn argv_of(words: Vec<Word>) -> (argv: Vec<String>)
    ensures
        strings(argv@) == view_words(words@),
{
    let mut argv: Vec<String> = Vec::new();
    let n = words.len();
    let mut i: usize = 0;
    while i < n
        invariant
            i <= n,
            n == words@.len(),
            argv@.len() == i,
            strings(argv@) == view_words(words@).take(i as int),
        decreases n - i,
    {
        let ghost before = argv@;
        argv.push(words[i].0.clone());
        assert forall|j: int| 0 <= j <= i implies strings(argv@)[j] == view_words(words@)[j] by {
            if j < i {
                assert(strings(before)[j] == view_words(words@).take(i as int)[j]);
            }
        }
        assert(strings(argv@) =~= view_words(words@).take(i as int + 1));
        i = i + 1;
    }
    assert(view_words(words@).take(n as int) =~= view_words(words@));
    argv
}

fn resolve(name: String) -> (r: String)
    ensures
        r@ == resolve_alias(name@),
{
    let chars = chars_of(name.as_str());
    if spells(&chars, "ruby") {
        String::from_str("/usr/bin/env ruby")
    } else if spells(&chars, "node") {
        String::from_str("/usr/bin/env node")
    } else if spells(&chars, "python") {
        String::from_str("/usr/bin/env python")
    } else if spells(&chars, "racket") {
        String::from_str("/usr/bin/env racket")
    } else {
        name
    }
}

fn bridge(name: String, text: String) -> (r: String)
    ensures
        r@ == bridge_contents(name@, text@),
{
    let mut r = String::from_str("#!");
    let interpreter = resolve(name);
    r.append(interpreter.as_str());
    r.append("\n");
    r.append(text.as_str());
    r
}

fn pushed(stack: Vec<Frame>, frame: Frame) -> (r: Vec<Frame>)
    ensures
        view_frames(r@) == view_frames(stack@).push(frame@),
        stack_weight(view_frames(r@)) == frame_weight(frame@) + stack_weight(view_frames(stack@)),
{
    let mut r = stack;
    r.push(frame);
    assert(view_frames(r@) =~= view_frames(stack@).push(frame@));
    proof {
        lemma_stack_weight_push(view_frames(stack@), frame@);
    }
    r
}

fn reversed(cs: Vec<Box<Command>>) -> (r: Vec<Box<Command>>)
    ensures
        view_commands(r) == view_commands(cs).reverse(),
        r@.len() == cs@.len(),
{
    let ghost all = view_commands(cs);
    let mut left = cs;
    let mut r: Vec<Box<Command>> = Vec::new();
    while left.len() > 0
        invariant
            view_commands(left) == all.take(left@.len() as int),
            left@.len() <= all.len(),
            view_commands(r) == all.skip(left@.len() as int).reverse(),
            r@.len() + left@.len() == all.len(),
            all.len() == cs@.len(),
        decreases left.len(),
    {
        let ghost before = view_commands(r);
        let ghost n = left@.len() as int;
        let ghost kept = view_commands(left);
        match left.pop() {
            Some(c) => {
                assert(view_command(*c) == kept[n - 1]);
                r.push(c);
                assert(view_commands(left) =~= all.take(n - 1));
                assert(view_commands(r) =~= before.push(all[n - 1]));
                assert(view_commands(r) =~= all.skip(n - 1).reverse());
            },
            None => {},
        }
    }
    assert(all.skip(0) =~= all);
    r
}

/// Takes the command that runs next from the end of the list.
fn take_next(rest: Vec<Box<Command>>) -> (r: (Box<Command>, Vec<Box<Command>>))
    requires
        rest@.len() > 0,
    ensures
        view_command(*r.0) == view_commands(rest).reverse()[0],
        view_commands(r.1).reverse() == view_commands(rest).reverse().skip(1),
{
    let ghost all = view_commands(rest);
    let mut rest = rest;
    let first = rest.pop().unwrap();
    assert(view_commands(rest) =~= all.drop_last());
    assert(view_commands(rest).reverse() =~= all.reverse().skip(1));
    (first, rest)
}

fn enter(cs: Vec<Box<Command>>, stack: Vec<Frame>, runtime: &Runtime) -> (t: Turn)
    ensures
        t matches Turn::Go(m, s) && (m@, view_frames(s@)) == enter_list(
            view_commands(cs),
            view_frames(stack@),
            runtime@,
        ),
{
    if cs.len() == 0 {
        Turn::Go(Mode::Unwind(Ok(WaitStatus::Exited(runtime.pid, 0))), stack)
    } else {
        let ghost all = view_commands(cs);
        let (first, rest) = take_next(reversed(cs));
        assert(all.reverse().reverse() =~= all);
        let stack = pushed(stack, Frame::Rest(rest));
        Turn::Go(Mode::Descend(*first), stack)
    }
}

fn turn(mode: Mode, stack: Vec<Frame>, runtime: &mut Runtime) -> (t: Turn)
    ensures
        final(runtime)@ == old(runtime)@,
        is_move(t, mode@, view_frames(stack@), old(runtime)@),
{
    let ghost frames = view_frames(stack@);
    match mode {
        Mode::Descend(command) => match command {
            Command::Simple(words) => {
                let argv = argv_of(words);
                match simple(argv, runtime) {
                    Next::Done(Outcome::Returned(r)) => Turn::Go(Mode::Unwind(r), stack),
                    Next::Done(Outcome::Exit(code)) => Turn::Stop(Step::Done(Outcome::Exit(code))),
                    Next::Ask(request, pending) => Turn::Stop(
                        Step::Ask(request, Machine { stack, pending }),
                    ),
                }
            },
            Command::Compound(cs) => {
                proof {
                    lemma_enter_list(view_commands(cs), frames, runtime@);
                }
                enter(cs, stack, runtime)
            },
            Command::Subshell(program) => {
                let program = *program;
                proof {
                    lemma_enter_list(view_commands(program.0), frames, runtime@);
                }
                enter(program.0, stack, runtime)
            },
            Command::Not(c) => {
                let stack = pushed(stack, Frame::Negate);
                Turn::Go(Mode::Descend(*c), stack)
            },
            Command::And(l, r) => {
                let stack = pushed(stack, Frame::AndThen(r));
                Turn::Go(Mode::Descend(*l), stack)
            },
            Command::Or(l, r) => {
                let stack = pushed(stack, Frame::OrElse(r));
                Turn::Go(Mode::Descend(*l), stack)
            },
            Command::Pipeline(l, r) => Turn::Stop(
                Step::Ask(Request::Pipeline(l, r), Machine { stack, pending: Pending::Pipeline }),
            ),
            Command::Background(c) => Turn::Stop(
                Step::Ask(Request::Background(c), Machine { stack, pending: Pending::Background }),
            ),
            Command::Shebang(interpreter, text) => match interpreter {
                Interpreter::Other(name) => Turn::Stop(
                    Step::Ask(
                        Request::Bridge(bridge(name, text)),
                        Machine { stack, pending: Pending::Bridge },
                    ),
                ),
                _ => Turn::Go(Mode::Unwind(Err(Error::Runtime)), stack),
            },
        },
        Mode::Unwind(r) => {
            let mut stack = stack;
            match stack.pop() {
                None => Turn::Stop(Step::Done(Outcome::Returned(r))),
                Some(frame) => {
                    assert(view_frames(stack@) =~= frames.drop_last());
                    assert(frame@ == frames.last());
                    match frame {
                        Frame::Rest(rest) => {
                            if r.is_ok() && rest.len() > 0 {
                                let (first, rest) = take_next(rest);
                                let stack = pushed(stack, Frame::Rest(rest));
                                Turn::Go(Mode::Descend(*first), stack)
                            } else {
                                Turn::Go(Mode::Unwind(r), stack)
                            }
                        },
                        Frame::Negate => {
                            let negated = match r {
                                Ok(WaitStatus::Exited(pid, code)) => Ok(
                                    WaitStatus::Exited(
                                        pid,
                                        if code == 0 {
                                            1
                                        } else {
                                            0
                                        },
                                    ),
                                ),
                                Ok(status) => Ok(status),
                                Err(_) => Err(Error::Runtime),
                            };
                            Turn::Go(Mode::Unwind(negated), stack)
                        },
                        Frame::AndThen(c) => match r {
                            Ok(status) => if status.success() {
                                let stack = pushed(stack, Frame::Guard);
                                Turn::Go(Mode::Descend(*c), stack)
                            } else {
                                Turn::Go(Mode::Unwind(r), stack)
                            },
                            Err(_) => Turn::Go(Mode::Unwind(Err(Error::Runtime)), stack),
                        },
                        Frame::OrElse(c) => match r {
                            Ok(status) => if status.failure() {
                                let stack = pushed(stack, Frame::Guard);
                                Turn::Go(Mode::Descend(*c), stack)
                            } else {
                                Turn::Go(Mode::Unwind(r), stack)
                            },
                            Err(_) => Turn::Go(Mode::Unwind(Err(Error::Runtime)), stack),
                        },
                        Frame::Guard => {
                            let guarded = match r {
                                Ok(status) => Ok(status),
                                Err(_) => Err(Error::Runtime),
                            };
                            Turn::Go(Mode::Unwind(guarded), stack)
                        },
                    }
                },
            }
        },
    }
}

fn advance(mode: Mode, stack: Vec<Frame>, runtime: &mut Runtime) -> (step: Step)
    ensures
        final(runtime)@ == old(runtime)@,
        step@ == go(mode@, view_frames(stack@), old(runtime)@),
{
    let ghost target = go(mode@, view_frames(stack@), runtime@);
    let mut current = mode;
    let mut frames = stack;
    loop
        invariant
            runtime@ == old(runtime)@,
            target == go(mode@, view_frames(stack@), old(runtime)@),
            go(current@, view_frames(frames@), runtime@) == target,
        decreases measure(current@, view_frames(frames@)),
    {
        match turn(current, frames, runtime) {
            Turn::Stop(step) => {
                return step;
            },
            Turn::Go(m, s) => {
                current = m;
                frames = s;
            },
        }
    }
}

impl Command {
    /// Begins the evaluation of the command and runs it to its first
    /// request, or to its end.
    pub fn run(self, runtime: &mut Runtime) -> (step: Step)
        ensures
            step@ == run_spec(self@, old(runtime)@),
            final(runtime)@ == old(runtime)@,
    {
        let stack: Vec<Frame> = Vec::new();
        assert(view_frames(stack@) =~= Seq::empty());
        advance(Mode::Descend(self), stack, runtime)
    }
}

impl Program {
    /// Begins the evaluation of the program and runs it to its first
    /// request, or to its end.
    pub fn run(self, runtime: &mut Runtime) -> (step: Step)
        ensures
            step@ == start_spec(self@, old(runtime)@),
            final(runtime)@ == old(runtime)@,
    {
        Command::Compound(self.0).run(runtime)
    }
}

impl Machine {
    /// Goes on with the host's answer to the request that the machine stopped
    /// at, and runs to the next request, or to the end.
    pub fn resume(self, reply: Reply, runtime: &mut Runtime) -> (step: Step)
        ensures
            (step@, final(runtime)@) == resume_machine(self@, reply@, old(runtime)@),
            old(runtime)@.jobs.wf() ==> final(runtime)@.jobs.wf(),
    {
        let Machine { stack, pending } = self;
        match pending.resume(reply, runtime) {
            Next::Done(Outcome::Returned(r)) => advance(Mode::Unwind(r), stack, runtime),
            Next::Done(Outcome::Exit(code)) => Step::Done(Outcome::Exit(code)),
            Next::Ask(request, pending) => Step::Ask(request, Machine { stack, pending }),
        }
    }
}

} // verus!
