//! Commands that the interpreter runs itself, without another process.
//!
//! A builtin is found by an exact match on the command's name, before any
//! external command is looked for, so it shadows an executable of the same
//! name. A builtin does no input or output of its own: it says what the host
//! is to do next and what it then waits for ([`Next`], [`Pending`]).

use crate::effect::{Reply, ReplyView, Request, RequestView};
use crate::parse::{diagnostic, diagnostic_spec, parse_program, parse_spec};
use crate::runtime::{Runtime, RuntimeView};
use crate::status::{Error, Outcome, WaitStatus};
use crate::text::{
    chars_of,
    join,
    join_words,
    parse_i32,
    parse_i32_spec,
    spells,
    split_assignment,
    split_assignment_spec,
    strings,
};
use vstd::prelude::*;

verus! {

/// What the interpreter waits for after it has handed out a request.
#[derive(Debug, PartialEq, Eq)]
pub enum Pending {
    /// The status of a foreground command.
    Foreground,
    /// The statuses of the two sides of a pipeline.
    Pipeline,
    /// The process id of a job that was started in the background.
    Background,
    /// The end of a shebang block's run.
    Bridge,
    /// Anything; the process then exits with the code.
    Leave(i32),
    /// Anything; the command then ends with the exit code.
    Status(i32),
    /// Anything; the command then ends with the error.
    Fail(Error),
    /// The value of `HOME`, for `cd` without an argument.
    CdHome,
    /// The change of directory to the path, for `cd`.
    CdMoved(String),
    /// The contents of the file that `.` names.
    DotFile,
    /// The end of the evaluation that `.` or `command` asked for.
    Evaluated,
    /// The end of the wait for the process, for `wait` without an argument;
    /// the list holds the processes still to be waited for.
    WaitAll(Vec<i32>, i32),
    /// The end of the wait for the process, for `wait` with an argument.
    WaitOne(i32),
    /// Anything; `export` then goes on with the assignments in the list.
    Export(Vec<String>),
}

/// The mathematical value of a [`Pending`].
pub enum PendingView {
    Foreground,
    Pipeline,
    Background,
    Bridge,
    Leave(i32),
    Status(i32),
    Fail(Error),
    CdHome,
    CdMoved(Seq<char>),
    DotFile,
    Evaluated,
    WaitAll(Seq<i32>, i32),
    WaitOne(i32),
    Export(Seq<Seq<char>>),
}

impl View for Pending {
    type V = PendingView;

    open spec fn view(&self) -> PendingView {
        match self {
            Pending::Foreground => PendingView::Foreground,
            Pending::Pipeline => PendingView::Pipeline,
            Pending::Background => PendingView::Background,
            Pending::Bridge => PendingView::Bridge,
            Pending::Leave(code) => PendingView::Leave(*code),
            Pending::Status(code) => PendingView::Status(*code),
            Pending::Fail(e) => PendingView::Fail(*e),
            Pending::CdHome => PendingView::CdHome,
            Pending::CdMoved(path) => PendingView::CdMoved(path@),
            Pending::DotFile => PendingView::DotFile,
            Pending::Evaluated => PendingView::Evaluated,
            Pending::WaitAll(rest, current) => PendingView::WaitAll(rest@, *current),
            Pending::WaitOne(pid) => PendingView::WaitOne(*pid),
            Pending::Export(rest) => PendingView::Export(strings(rest@)),
        }
    }
}

/// How a command without children goes on: it has ended, or it asks the host
/// for something and waits.
#[derive(Debug, PartialEq, Eq)]
pub enum Next {
    /// The command has ended.
    Done(Outcome),
    /// The host is to perform the request and answer it.
    Ask(Request, Pending),
}

/// The mathematical value of a [`Next`].
pub enum NextView {
    Done(Outcome),
    Ask(RequestView, PendingView),
}

impl View for Next {
    type V = NextView;

    open spec fn view(&self) -> NextView {
        match self {
            Next::Done(outcome) => NextView::Done(*outcome),
            Next::Ask(request, pending) => NextView::Ask(request@, pending@),
        }
    }
}

/// The command has ended normally with the exit code, as the interpreter's
/// own process reports it.
pub open spec fn exited(rt: RuntimeView, code: i32) -> NextView {
    NextView::Done(Outcome::Returned(Ok(WaitStatus::Exited(rt.pid, code))))
}

/// The command has ended with a runtime error.
pub open spec fn failed() -> NextView {
    NextView::Done(Outcome::Returned(Err(Error::Runtime)))
}

/// Whether the status tells that the process is gone.
pub open spec fn is_gone(status: WaitStatus) -> bool {
    status is Exited || status is Signaled
}

/// The context after the answer to a wait for `pid`: a job whose leader is
/// gone leaves the table.
pub open spec fn reaped(rt: RuntimeView, pid: i32, reply: ReplyView) -> RuntimeView {
    match reply {
        ReplyView::Outcome(Ok(status)) => if is_gone(status) {
            rt.with_jobs(rt.jobs.without(pid))
        } else {
            rt
        },
        _ => rt,
    }
}

/// How `wait` goes on with the processes still to be waited for.
pub open spec fn wait_next_spec(pids: Seq<i32>, rt: RuntimeView) -> NextView {
    if pids.len() == 0 {
        exited(rt, 0)
    } else {
        NextView::Ask(RequestView::Wait(pids[0]), PendingView::WaitAll(pids.skip(1), pids[0]))
    }
}

/// How `export` goes on with the assignments still to be made: the first
/// well-formed one is handed out, malformed ones before it are skipped.
pub open spec fn export_next_spec(rest: Seq<Seq<char>>, rt: RuntimeView) -> NextView
    decreases rest.len(),
{
    if rest.len() == 0 {
        exited(rt, 0)
    } else {
        match split_assignment_spec(rest[0]) {
            Some((key, value)) => NextView::Ask(
                RequestView::SetVar(key, value),
                PendingView::Export(rest.skip(1)),
            ),
            None => export_next_spec(rest.skip(1), rt),
        }
    }
}

/// How a text is evaluated: a text that is a program is handed out to be
/// evaluated, and the result of that is the command's; for a text that is
/// none, the one-line diagnostic is handed out, after which the command goes
/// on as `fault` says.
pub open spec fn evaluate_spec(text: Seq<char>, fault: PendingView) -> NextView {
    match parse_spec(text) {
        Ok(program) => NextView::Ask(RequestView::Evaluate(program), PendingView::Evaluated),
        Err(e) => NextView::Ask(RequestView::Diagnose(diagnostic_spec(e)), fault),
    }
}

/// How a waiting command goes on when the host's answer arrives, and the
/// context it leaves.
pub open spec fn resume_spec(pending: PendingView, reply: ReplyView, rt: RuntimeView) -> (
    NextView,
    RuntimeView,
) {
    match pending {
        PendingView::Foreground => match reply {
            ReplyView::Outcome(Ok(status)) => (
                NextView::Done(Outcome::Returned(Ok(status))),
                rt,
            ),
            _ => (failed(), rt),
        },
        PendingView::Pipeline => match reply {
            ReplyView::Piped(_, Ok(status)) => (
                NextView::Done(Outcome::Returned(Ok(status))),
                rt,
            ),
            _ => (failed(), rt),
        },
        PendingView::Background => match reply {
            ReplyView::Started(pid, body) => if rt.jobs.has_room() {
                (exited(rt, 0), rt.with_jobs(rt.jobs.register(pid, body)))
            } else {
                (failed(), rt)
            },
            _ => (failed(), rt),
        },
        PendingView::Bridge => match reply {
            ReplyView::Done => (exited(rt, 0), rt),
            _ => (failed(), rt),
        },
        PendingView::Leave(code) => (NextView::Done(Outcome::Exit(code)), rt),
        PendingView::Status(code) => (exited(rt, code), rt),
        PendingView::Fail(e) => (NextView::Done(Outcome::Returned(Err(e))), rt),
        PendingView::CdHome => match reply {
            ReplyView::Text(home) => (
                NextView::Ask(RequestView::Chdir(home), PendingView::CdMoved(home)),
                rt,
            ),
            _ => (failed(), rt),
        },
        PendingView::CdMoved(path) => match reply {
            ReplyView::Done => (
                NextView::Ask(RequestView::SetVar("PWD"@, path), PendingView::Status(0)),
                rt,
            ),
            _ => (failed(), rt),
        },
        PendingView::DotFile => match reply {
            ReplyView::Text(contents) => (evaluate_spec(contents, PendingView::Status(1)), rt),
            _ => (exited(rt, 1), rt),
        },
        PendingView::Evaluated => match reply {
            ReplyView::Outcome(result) => (NextView::Done(Outcome::Returned(result)), rt),
            _ => (failed(), rt),
        },
        PendingView::WaitAll(rest, current) => {
            let after = reaped(rt, current, reply);
            (wait_next_spec(rest, after), after)
        },
        PendingView::WaitOne(pid) => match reply {
            ReplyView::Outcome(Ok(status)) => (
                NextView::Done(Outcome::Returned(Ok(status))),
                reaped(rt, pid, reply),
            ),
            _ => (failed(), rt),
        },
        PendingView::Export(rest) => (export_next_spec(rest, rt), rt),
    }
}

fn done_exited(runtime: &Runtime, code: i32) -> (next: Next)
    ensures
        next@ == exited(runtime@, code),
{
    Next::Done(Outcome::Returned(Ok(WaitStatus::Exited(runtime.pid, code))))
}

fn done_failed() -> (next: Next)
    ensures
        next@ == failed(),
{
    Next::Done(Outcome::Returned(Err(Error::Runtime)))
}

fn reap(runtime: &mut Runtime, pid: i32, reply: &Reply)
    ensures
        final(runtime)@ == reaped(old(runtime)@, pid, reply@),
        old(runtime)@.jobs.wf() ==> final(runtime)@.jobs.wf(),
{
    match reply {
        Reply::Outcome(Ok(status)) => {
            let gone = match status {
                WaitStatus::Exited(_, _) => true,
                WaitStatus::Signaled(_, _, _) => true,
                _ => false,
            };
            if gone {
                let _ = runtime.jobs.remove(pid);
            }
        },
        _ => {},
    }
}

fn wait_next(pids: Vec<i32>, runtime: &Runtime) -> (next: Next)
    ensures
        next@ == wait_next_spec(pids@, runtime@),
{
    let mut pids = pids;
    if pids.len() == 0 {
        done_exited(runtime, 0)
    } else {
        let ghost all = pids@;
        let first = pids.remove(0);
        assert(pids@ =~= all.skip(1));
        Next::Ask(Request::Wait(first), Pending::WaitAll(pids, first))
    }
}

fn export_next(rest: Vec<String>, runtime: &Runtime) -> (next: Next)
    ensures
        next@ == export_next_spec(strings(rest@), runtime@),
{
    let ghost all = strings(rest@);
    let mut queue = rest;
    while queue.len() > 0
        invariant
            all == strings(rest@),
            export_next_spec(strings(queue@), runtime@) == export_next_spec(all, runtime@),
        decreases queue.len(),
    {
        let ghost before = strings(queue@);
        let first = queue.remove(0);
        assert(strings(queue@) =~= before.skip(1));
        assert(before[0] == first@);
        match split_assignment(first.as_str()) {
            Some((key, value)) => {
                return Next::Ask(Request::SetVar(key, value), Pending::Export(queue));
            },
            None => {},
        }
    }
    done_exited(runtime, 0)
}

fn evaluate(text: &str, fault: Pending) -> (next: Next)
    ensures
        next@ == evaluate_spec(text@, fault@),
{
    match parse_program(text) {
        Ok(program) => Next::Ask(Request::Evaluate(program), Pending::Evaluated),
        Err(e) => Next::Ask(Request::Diagnose(diagnostic(&e)), fault),
    }
}

impl Pending {
    /// Goes on with the host's answer.
    pub fn resume(self, reply: Reply, runtime: &mut Runtime) -> (next: Next)
        ensures
            (next@, final(runtime)@) == resume_spec(self@, reply@, old(runtime)@),
            old(runtime)@.jobs.wf() ==> final(runtime)@.jobs.wf(),
    {
        match self {
            Pending::Foreground => match reply {
                Reply::Outcome(Ok(status)) => Next::Done(Outcome::Returned(Ok(status))),
                _ => done_failed(),
            },
            Pending::Pipeline => match reply {
                Reply::Piped(_, Ok(status)) => Next::Done(Outcome::Returned(Ok(status))),
                _ => done_failed(),
            },
            Pending::Background => match reply {
                Reply::Started(pid, body) => match runtime.jobs.register(pid, body) {
                    Some(_) => done_exited(runtime, 0),
                    None => done_failed(),
                },
                _ => done_failed(),
            },
            Pending::Bridge => match reply {
                Reply::Done => done_exited(runtime, 0),
                _ => done_failed(),
            },
            Pending::Leave(code) => Next::Done(Outcome::Exit(code)),
            Pending::Status(code) => done_exited(runtime, code),
            Pending::Fail(e) => Next::Done(Outcome::Returned(Err(e))),
            Pending::CdHome => match reply {
                Reply::Text(home) => {
                    let path = home.clone();
                    Next::Ask(Request::Chdir(home), Pending::CdMoved(path))
                },
                _ => done_failed(),
            },
            Pending::CdMoved(path) => match reply {
                Reply::Done => Next::Ask(
                    Request::SetVar(String::from_str("PWD"), path),
                    Pending::Status(0),
                ),
                _ => done_failed(),
            },
            Pending::DotFile => match reply {
                Reply::Text(contents) => evaluate(contents.as_str(), Pending::Status(1)),
                _ => done_exited(runtime, 1),
            },
            Pending::Evaluated => match reply {
                Reply::Outcome(result) => Next::Done(Outcome::Returned(result)),
                _ => done_failed(),
            },
            Pending::WaitAll(rest, current) => {
                reap(runtime, current, &reply);
                wait_next(rest, runtime)
            },
            Pending::WaitOne(pid) => match reply {
                Reply::Outcome(Ok(status)) => {
                    reap(runtime, pid, &reply);
                    Next::Done(Outcome::Returned(Ok(status)))
                },
                _ => done_failed(),
            },
            Pending::Export(rest) => export_next(rest, runtime),
        }
    }
}

/// A command that the interpreter runs itself.
pub trait Builtin: Sized {
    /// Begins the builtin on its argument vector, whose first entry is the
    /// command's own name.
    fn run(self, argv: Vec<String>, runtime: &mut Runtime) -> (next: Next)
        requires
            argv@.len() >= 1,
    ;
}

/// `exit`: leaves the interpreter.
pub struct Exit;

/// The code that `exit` leaves with: zero without an argument, else the
/// argument read as an integer, or 2 where it is none.
pub open spec fn leave_code(argv: Seq<Seq<char>>) -> i32 {
    if argv.len() == 2 {
        match parse_i32_spec(argv[1]) {
            Some(n) => n,
            None => 2,
        }
    } else {
        0
    }
}

impl Exit {
    /// With at most one argument the process exits with [`leave_code`], after
    /// the history was saved if a line editor is attached. With more, a
    /// diagnostic is printed and the command ends with status 1.
    pub open spec fn run_spec(argv: Seq<Seq<char>>, rt: RuntimeView) -> NextView {
        if argv.len() <= 2 {
            if rt.interactive {
                NextView::Ask(
                    RequestView::SaveHistory(rt.history_path),
                    PendingView::Leave(leave_code(argv)),
                )
            } else {
                NextView::Done(Outcome::Exit(leave_code(argv)))
            }
        } else {
            NextView::Ask(RequestView::Diagnose("too many arguments"@), PendingView::Status(1))
        }
    }
}

impl Builtin for Exit {
    fn run(self, argv: Vec<String>, runtime: &mut Runtime) -> (next: Next)
        ensures
            next@ == Exit::run_spec(strings(argv@), old(runtime)@),
            final(runtime)@ == old(runtime)@,
    {
        if argv.len() <= 2 {
            let code = if argv.len() == 2 {
                match parse_i32(argv[1].as_str()) {
                    Some(n) => n,
                    None => 2,
                }
            } else {
                0
            };
            if runtime.interactive {
                Next::Ask(Request::SaveHistory(runtime.history_path.clone()), Pending::Leave(code))
            } else {
                Next::Done(Outcome::Exit(code))
            }
        } else {
            Next::Ask(
                Request::Diagnose(String::from_str("too many arguments")),
                Pending::Status(1),
            )
        }
    }
}

/// `.`: evaluates the commands of a file in the current context.
pub struct Dot;

impl Dot {
    /// With exactly one argument, the file of that name is read. A file
    /// that cannot be read, or whose contents are no program, gives status
    /// 1; else the contents are evaluated, and what that returns is the
    /// command's result. Without the argument, or with more, a diagnostic is
    /// printed and the status is 2.
    pub open spec fn run_spec(argv: Seq<Seq<char>>, rt: RuntimeView) -> NextView {
        if argv.len() == 2 {
            NextView::Ask(RequestView::ReadFile(argv[1]), PendingView::DotFile)
        } else {
            NextView::Ask(
                RequestView::Diagnose("filename argument required"@),
                PendingView::Status(2),
            )
        }
    }
}

impl Builtin for Dot {
    fn run(self, argv: Vec<String>, runtime: &mut Runtime) -> (next: Next)
        ensures
            next@ == Dot::run_spec(strings(argv@), old(runtime)@),
            final(runtime)@ == old(runtime)@,
    {
        if argv.len() == 2 {
            Next::Ask(Request::ReadFile(argv[1].clone()), Pending::DotFile)
        } else {
            Next::Ask(
                Request::Diagnose(String::from_str("filename argument required")),
                Pending::Status(2),
            )
        }
    }
}

/// `wait`: blocks until jobs have changed state.
pub struct Wait;

impl Wait {
    /// Without an argument every job's leader is waited for, in table order,
    /// and the status is 0. With one, the argument is read as a process id
    /// and the job it leads is waited for; a process that is not tracked is a
    /// runtime error.
    pub open spec fn run_spec(argv: Seq<Seq<char>>, rt: RuntimeView) -> NextView {
        if argv.len() == 1 {
            wait_next_spec(rt.jobs.pids(), rt)
        } else {
            match parse_i32_spec(argv[1]) {
                Some(pid) => if rt.jobs.tracks(pid) {
                    NextView::Ask(RequestView::Wait(pid), PendingView::WaitOne(pid))
                } else {
                    failed()
                },
                None => failed(),
            }
        }
    }
}

impl Builtin for Wait {
    fn run(self, argv: Vec<String>, runtime: &mut Runtime) -> (next: Next)
        ensures
            next@ == Wait::run_spec(strings(argv@), old(runtime)@),
            final(runtime)@ == old(runtime)@,
    {
        if argv.len() == 1 {
            wait_next(runtime.jobs.pids(), runtime)
        } else {
            match parse_i32(argv[1].as_str()) {
                Some(pid) => if runtime.jobs.tracks(pid) {
                    Next::Ask(Request::Wait(pid), Pending::WaitOne(pid))
                } else {
                    done_failed()
                },
                None => done_failed(),
            }
        }
    }
}

/// `export`: sets environment variables.
pub struct Export;

impl Export {
    /// Without an argument every variable is printed. Else each argument of
    /// the form `key=value` is set, in order; others are skipped. The status
    /// is 0.
    pub open spec fn run_spec(argv: Seq<Seq<char>>, rt: RuntimeView) -> NextView {
        if argv.len() == 1 {
            NextView::Ask(RequestView::PrintVars, PendingView::Status(0))
        } else {
            export_next_spec(argv.skip(1), rt)
        }
    }
}

impl Builtin for Export {
    fn run(self, argv: Vec<String>, runtime: &mut Runtime) -> (next: Next)
        ensures
            next@ == Export::run_spec(strings(argv@), old(runtime)@),
            final(runtime)@ == old(runtime)@,
    {
        let mut argv = argv;
        if argv.len() == 1 {
            Next::Ask(Request::PrintVars, Pending::Status(0))
        } else {
            let ghost all = strings(argv@);
            let _ = argv.remove(0);
            assert(strings(argv@) =~= all.skip(1));
            export_next(argv, runtime)
        }
    }
}

/// `cd`: changes the working directory.
pub struct Cd;

impl Cd {
    /// Without an argument the directory is the value of `HOME`, which is
    /// asked for first; with one it is the argument. After the change `PWD`
    /// is set to the directory and the status is 0. With more arguments a
    /// diagnostic is printed and the status is 1.
    pub open spec fn run_spec(argv: Seq<Seq<char>>, rt: RuntimeView) -> NextView {
        if argv.len() == 1 {
            NextView::Ask(RequestView::GetVar("HOME"@), PendingView::CdHome)
        } else if argv.len() == 2 {
            NextView::Ask(RequestView::Chdir(argv[1]), PendingView::CdMoved(argv[1]))
        } else {
            NextView::Ask(RequestView::Diagnose("too many arguments"@), PendingView::Status(1))
        }
    }
}

impl Builtin for Cd {
    fn run(self, argv: Vec<String>, runtime: &mut Runtime) -> (next: Next)
        ensures
            next@ == Cd::run_spec(strings(argv@), old(runtime)@),
            final(runtime)@ == old(runtime)@,
    {
        if argv.len() == 1 {
            Next::Ask(Request::GetVar(String::from_str("HOME")), Pending::CdHome)
        } else if argv.len() == 2 {
            Next::Ask(Request::Chdir(argv[1].clone()), Pending::CdMoved(argv[1].clone()))
        } else {
            Next::Ask(
                Request::Diagnose(String::from_str("too many arguments")),
                Pending::Status(1),
            )
        }
    }
}

/// The builtin that does nothing but end with the given exit code; `:` is
/// `Return(0)`.
pub struct Return(pub i32);

impl Return {
    /// The command ends at once with the code.
    pub open spec fn run_spec(self, rt: RuntimeView) -> NextView {
        exited(rt, self.0)
    }
}

impl Builtin for Return {
    fn run(self, argv: Vec<String>, runtime: &mut Runtime) -> (next: Next)
        ensures
            next@ == self.run_spec(old(runtime)@),
            final(runtime)@ == old(runtime)@,
    {
        done_exited(runtime, self.0)
    }
}

/// `command`: evaluates its arguments as a command line.
pub struct Command;

impl Command {
    /// The arguments after the name, joined by single spaces, are parsed
    /// and handed out to be evaluated; the result of that is the command's.
    /// Where they are no program, a diagnostic is printed and the result is
    /// a parse error.
    pub open spec fn run_spec(argv: Seq<Seq<char>>, rt: RuntimeView) -> NextView {
        evaluate_spec(join_words(argv.skip(1)), PendingView::Fail(Error::Parse))
    }
}

impl Builtin for Command {
    fn run(self, argv: Vec<String>, runtime: &mut Runtime) -> (next: Next)
        ensures
            next@ == Command::run_spec(strings(argv@), old(runtime)@),
            final(runtime)@ == old(runtime)@,
    {
        let mut argv = argv;
        let ghost all = strings(argv@);
        let _ = argv.remove(0);
        assert(strings(argv@) =~= all.skip(1));
        proof {
            reveal_strlit(" ");
            assert(" "@ =~= seq![' ']);
        }
        let text = join(&argv, " ");
        evaluate(text.as_str(), Pending::Fail(Error::Parse))
    }
}

/// `jobs`: lists the tracked jobs.
pub struct Jobs;

impl Jobs {
    /// The table's listing is printed and the status is 0.
    pub open spec fn run_spec(argv: Seq<Seq<char>>, rt: RuntimeView) -> NextView {
        NextView::Ask(RequestView::Print(rt.jobs.listing()), PendingView::Status(0))
    }
}

impl Builtin for Jobs {
    fn run(self, argv: Vec<String>, runtime: &mut Runtime) -> (next: Next)
        ensures
            next@ == Jobs::run_spec(strings(argv@), old(runtime)@),
            final(runtime)@ == old(runtime)@,
    {
        Next::Ask(Request::Print(runtime.jobs.listing()), Pending::Status(0))
    }
}

/// The builtins, by kind.
#[derive(Clone, Copy, Debug, PartialEq, Eq, Structural)]
pub enum Kind {
    Null,
    Exit,
    Cd,
    Dot,
    Wait,
    Export,
    Command,
    Jobs,
}

/// The builtin that a command name stands for, by exact match.
pub open spec fn lookup_spec(name: Seq<char>) -> Option<Kind> {
    if name == ":"@ {
        Some(Kind::Null)
    } else if name == "exit"@ {
        Some(Kind::Exit)
    } else if name == "cd"@ {
        Some(Kind::Cd)
    } else if name == "."@ {
        Some(Kind::Dot)
    } else if name == "wait"@ {
        Some(Kind::Wait)
    } else if name == "export"@ {
        Some(Kind::Export)
    } else if name == "command"@ {
        Some(Kind::Command)
    } else if name == "jobs"@ {
        Some(Kind::Jobs)
    } else {
        None
    }
}

/// Looks a command name up in the table of builtins.
pub fn lookup(name: &str) -> (kind: Option<Kind>)
    ensures
        kind == lookup_spec(name@),
{
    let chars = chars_of(name);
    if spells(&chars, ":") {
        Some(Kind::Null)
    } else if spells(&chars, "exit") {
        Some(Kind::Exit)
    } else if spells(&chars, "cd") {
        Some(Kind::Cd)
    } else if spells(&chars, ".") {
        Some(Kind::Dot)
    } else if spells(&chars, "wait") {
        Some(Kind::Wait)
    } else if spells(&chars, "export") {
        Some(Kind::Export)
    } else if spells(&chars, "command") {
        Some(Kind::Command)
    } else if spells(&chars, "jobs") {
        Some(Kind::Jobs)
    } else {
        None
    }
}

/// How the builtin of the given kind begins on `argv`.
pub open spec fn builtin_spec(kind: Kind, argv: Seq<Seq<char>>, rt: RuntimeView) -> NextView {
    match kind {
        Kind::Null => Return(0).run_spec(rt),
        Kind::Exit => Exit::run_spec(argv, rt),
        Kind::Cd => Cd::run_spec(argv, rt),
        Kind::Dot => Dot::run_spec(argv, rt),
        Kind::Wait => Wait::run_spec(argv, rt),
        Kind::Export => Export::run_spec(argv, rt),
        Kind::Command => Command::run_spec(argv, rt),
        Kind::Jobs => Jobs::run_spec(argv, rt),
    }
}

/// How a simple command begins: no words end with status 0 at once; a
/// builtin's name runs the builtin; any other name is spawned in the
/// foreground.
pub open spec fn simple_spec(argv: Seq<Seq<char>>, rt: RuntimeView) -> NextView {
    if argv.len() == 0 {
        exited(rt, 0)
    } else {
        match lookup_spec(argv[0]) {
            Some(kind) => builtin_spec(kind, argv, rt),
            None => NextView::Ask(RequestView::Spawn(argv), PendingView::Foreground),
        }
    }
}

/// Begins a simple command on its argument vector.
pub fn simple(argv: Vec<String>, runtime: &mut Runtime) -> (next: Next)
    ensures
        next@ == simple_spec(strings(argv@), old(runtime)@),
        final(runtime)@ == old(runtime)@,
{
    if argv.len() == 0 {
        return done_exited(runtime, 0);
    }
    match lookup(argv[0].as_str()) {
        Some(Kind::Null) => Return(0).run(argv, runtime),
        Some(Kind::Exit) => Exit.run(argv, runtime),
        Some(Kind::Cd) => Cd.run(argv, runtime),
        Some(Kind::Dot) => Dot.run(argv, runtime),
        Some(Kind::Wait) => Wait.run(argv, runtime),
        Some(Kind::Export) => Export.run(argv, runtime),
        Some(Kind::Command) => Command.run(argv, runtime),
        Some(Kind::Jobs) => Jobs.run(argv, runtime),
        None => Next::Ask(Request::Spawn(argv), Pending::Foreground),
    }
}

} // verus!
