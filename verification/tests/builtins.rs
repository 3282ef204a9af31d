use oursh::builtin::{
    lookup, simple, Builtin, Cd, Command, Dot, Exit, Export, Jobs, Kind, Next, Pending, Return,
    Wait,
};
use oursh::ast::{Command as Node, Program, Word};
use oursh::effect::{Reply, Request};
use oursh::runtime::Runtime;
use oursh::status::{Error, Outcome, WaitStatus};

const SHELL: i32 = 7;

fn argv(words: &[&str]) -> Vec<String> {
    words.iter().map(|w| w.to_string()).collect()
}

fn runtime() -> Runtime {
    Runtime::with_pid(SHELL, false, String::from("/tmp/history"))
}

fn interactive() -> Runtime {
    Runtime::with_pid(SHELL, true, String::from("/home/me/.history"))
}

fn status(code: i32) -> Next {
    Next::Done(Outcome::Returned(Ok(WaitStatus::Exited(SHELL, code))))
}

fn failed() -> Next {
    Next::Done(Outcome::Returned(Err(Error::Runtime)))
}

fn program(commands: &[&[&str]]) -> Program {
    Program(
        commands
            .iter()
            .map(|words| Box::new(Node::Simple(words.iter().map(|w| Word(w.to_string())).collect())))
            .collect(),
    )
}

fn diagnose(text: &str, code: i32) -> Next {
    Next::Ask(Request::Diagnose(String::from(text)), Pending::Status(code))
}

#[test]
fn lookup_knows_the_builtins_by_exact_name() {
    assert_eq!(lookup(":"), Some(Kind::Null));
    assert_eq!(lookup("exit"), Some(Kind::Exit));
    assert_eq!(lookup("cd"), Some(Kind::Cd));
    assert_eq!(lookup("."), Some(Kind::Dot));
    assert_eq!(lookup("wait"), Some(Kind::Wait));
    assert_eq!(lookup("export"), Some(Kind::Export));
    assert_eq!(lookup("command"), Some(Kind::Command));
    assert_eq!(lookup("jobs"), Some(Kind::Jobs));
    assert_eq!(lookup("CD"), None);
    assert_eq!(lookup("cd "), None);
    assert_eq!(lookup("ls"), None);
    assert_eq!(lookup(""), None);
}

#[test]
fn builtin_name_is_never_spawned() {
    for name in [":", "exit", "cd", ".", "wait", "export", "command", "jobs"] {
        let mut rt = runtime();
        let next = simple(argv(&[name, "x", "y", "z"]), &mut rt);
        assert!(!matches!(next, Next::Ask(Request::Spawn(_), _)), "{} was spawned", name);
    }
}

#[test]
fn other_names_are_spawned() {
    let mut rt = runtime();
    assert_eq!(
        simple(argv(&["Cd", "/"]), &mut rt),
        Next::Ask(Request::Spawn(argv(&["Cd", "/"])), Pending::Foreground)
    );
}

#[test]
fn null_builtin_succeeds() {
    let mut rt = runtime();
    assert_eq!(simple(argv(&[":", "anything"]), &mut rt), status(0));
}

#[test]
fn return_ends_with_its_code() {
    let mut rt = runtime();
    assert_eq!(Return(5).run(argv(&["true"]), &mut rt), status(5));
}

#[test]
fn exit_without_argument_exits_with_zero() {
    let mut rt = runtime();
    assert_eq!(Exit.run(argv(&["exit"]), &mut rt), Next::Done(Outcome::Exit(0)));
}

#[test]
fn exit_with_a_number_exits_with_it() {
    let mut rt = runtime();
    assert_eq!(Exit.run(argv(&["exit", "42"]), &mut rt), Next::Done(Outcome::Exit(42)));
    assert_eq!(Exit.run(argv(&["exit", "-1"]), &mut rt), Next::Done(Outcome::Exit(-1)));
}

#[test]
fn exit_with_an_unparsable_argument_exits_with_two() {
    let mut rt = runtime();
    assert_eq!(Exit.run(argv(&["exit", "abc"]), &mut rt), Next::Done(Outcome::Exit(2)));
    assert_eq!(Exit.run(argv(&["exit", ""]), &mut rt), Next::Done(Outcome::Exit(2)));
    assert_eq!(Exit.run(argv(&["exit", "99999999999"]), &mut rt), Next::Done(Outcome::Exit(2)));
}

#[test]
fn exit_with_too_many_arguments_returns_status_one() {
    let mut rt = interactive();
    let next = Exit.run(argv(&["exit", "1", "2"]), &mut rt);
    assert_eq!(next, diagnose("too many arguments", 1));
    match next {
        Next::Ask(_, pending) => assert_eq!(pending.resume(Reply::Done, &mut rt), status(1)),
        _ => unreachable!(),
    }
}

#[test]
fn exit_saves_the_history_of_an_interactive_session_first() {
    let mut rt = interactive();
    let next = Exit.run(argv(&["exit", "3"]), &mut rt);
    assert_eq!(
        next,
        Next::Ask(Request::SaveHistory(String::from("/home/me/.history")), Pending::Leave(3))
    );
    match next {
        Next::Ask(_, pending) => {
            assert_eq!(pending.resume(Reply::Done, &mut rt), Next::Done(Outcome::Exit(3)))
        }
        _ => unreachable!(),
    }
}

#[test]
fn cd_with_a_path_changes_directory_then_sets_pwd() {
    let mut rt = runtime();
    let next = Cd.run(argv(&["cd", "/tmp"]), &mut rt);
    assert_eq!(
        next,
        Next::Ask(Request::Chdir(String::from("/tmp")), Pending::CdMoved(String::from("/tmp")))
    );
    let next = Pending::CdMoved(String::from("/tmp")).resume(Reply::Done, &mut rt);
    assert_eq!(
        next,
        Next::Ask(
            Request::SetVar(String::from("PWD"), String::from("/tmp")),
            Pending::Status(0)
        )
    );
    assert_eq!(Pending::Status(0).resume(Reply::Done, &mut rt), status(0));
}

#[test]
fn cd_that_fails_is_a_runtime_error_and_sets_nothing() {
    let mut rt = runtime();
    let moved = Pending::CdMoved(String::from("/nonexistent-path-xyz"));
    assert_eq!(moved.resume(Reply::Failed, &mut rt), failed());
}

#[test]
fn cd_without_argument_goes_home() {
    let mut rt = runtime();
    let next = Cd.run(argv(&["cd"]), &mut rt);
    assert_eq!(next, Next::Ask(Request::GetVar(String::from("HOME")), Pending::CdHome));
    let next = Pending::CdHome.resume(Reply::Text(String::from("/home/me")), &mut rt);
    assert_eq!(
        next,
        Next::Ask(
            Request::Chdir(String::from("/home/me")),
            Pending::CdMoved(String::from("/home/me"))
        )
    );
}

#[test]
fn cd_without_home_is_a_runtime_error() {
    let mut rt = runtime();
    assert_eq!(Pending::CdHome.resume(Reply::Failed, &mut rt), failed());
}

#[test]
fn cd_with_too_many_arguments_returns_status_one() {
    let mut rt = runtime();
    assert_eq!(Cd.run(argv(&["cd", "a", "b"]), &mut rt), diagnose("too many arguments", 1));
}

#[test]
fn dot_without_a_file_name_returns_status_two() {
    let mut rt = runtime();
    let next = Dot.run(argv(&["."]), &mut rt);
    assert_eq!(next, diagnose("filename argument required", 2));
    assert_eq!(
        Dot.run(argv(&[".", "a", "b"]), &mut rt),
        diagnose("filename argument required", 2)
    );
    assert_eq!(Pending::Status(2).resume(Reply::Done, &mut rt), status(2));
}

#[test]
fn dot_reads_the_file_and_has_its_contents_evaluated() {
    let mut rt = runtime();
    let next = Dot.run(argv(&[".", "setup.sh"]), &mut rt);
    assert_eq!(next, Next::Ask(Request::ReadFile(String::from("setup.sh")), Pending::DotFile));
    let next = Pending::DotFile.resume(Reply::Text(String::from("ls\ncd /\n")), &mut rt);
    assert_eq!(
        next,
        Next::Ask(Request::Evaluate(program(&[&["ls"], &["cd", "/"]])), Pending::Evaluated)
    );
    let done = Reply::Outcome(Ok(WaitStatus::Exited(80, 4)));
    assert_eq!(
        Pending::Evaluated.resume(done, &mut rt),
        Next::Done(Outcome::Returned(Ok(WaitStatus::Exited(80, 4))))
    );
}

#[test]
fn dot_on_an_unreadable_file_returns_status_one() {
    let mut rt = runtime();
    assert_eq!(Pending::DotFile.resume(Reply::Failed, &mut rt), status(1));
}

#[test]
fn dot_on_an_unparsable_file_returns_status_one() {
    let mut rt = runtime();
    let next = Pending::DotFile.resume(Reply::Text(String::from("ls &&")), &mut rt);
    assert_eq!(
        next,
        diagnose("unexpected end of input found at 5, expecting WORD, SHEBANG, !, (, {", 1)
    );
    assert_eq!(Pending::Status(1).resume(Reply::Done, &mut rt), status(1));
}

#[test]
fn dot_hands_on_whatever_the_evaluation_returns() {
    let mut rt = runtime();
    for result in [Ok(WaitStatus::Exited(3, 9)), Err(Error::Parse), Err(Error::Runtime)] {
        assert_eq!(
            Pending::Evaluated.resume(Reply::Outcome(result), &mut rt),
            Next::Done(Outcome::Returned(result))
        );
    }
    assert_eq!(Pending::Evaluated.resume(Reply::Failed, &mut rt), failed());
}

#[test]
fn command_parses_its_arguments_joined_with_spaces() {
    let mut rt = runtime();
    assert_eq!(
        Command.run(argv(&["command", "ls", "-l", "a b"]), &mut rt),
        Next::Ask(Request::Evaluate(program(&[&["ls", "-l", "a", "b"]])), Pending::Evaluated)
    );
    assert_eq!(
        Command.run(argv(&["command", "a;", "b"]), &mut rt),
        Next::Ask(Request::Evaluate(program(&[&["a"], &["b"]])), Pending::Evaluated)
    );
    assert_eq!(
        Command.run(argv(&["command"]), &mut rt),
        Next::Ask(Request::Evaluate(Program(vec![])), Pending::Evaluated)
    );
}

#[test]
fn command_with_arguments_that_are_no_program_is_a_parse_error() {
    let mut rt = runtime();
    let next = Command.run(argv(&["command", ")"]), &mut rt);
    assert_eq!(
        next,
        Next::Ask(
            Request::Diagnose(String::from("extra token ) found at 0")),
            Pending::Fail(Error::Parse)
        )
    );
    assert_eq!(
        Pending::Fail(Error::Parse).resume(Reply::Done, &mut rt),
        Next::Done(Outcome::Returned(Err(Error::Parse)))
    );
}

#[test]
fn pipeline_returns_the_status_of_its_right_side() {
    let mut rt = runtime();
    let right = WaitStatus::Exited(9, 3);
    for left in [Ok(WaitStatus::Exited(8, 0)), Ok(WaitStatus::Exited(8, 1)), Err(Error::Runtime)] {
        assert_eq!(
            Pending::Pipeline.resume(Reply::Piped(left, Ok(right)), &mut rt),
            Next::Done(Outcome::Returned(Ok(right)))
        );
    }
    assert_eq!(
        Pending::Pipeline.resume(Reply::Piped(Ok(right), Err(Error::Runtime)), &mut rt),
        failed()
    );
    assert_eq!(Pending::Pipeline.resume(Reply::Outcome(Ok(right)), &mut rt), failed());
}

#[test]
fn export_sets_each_well_formed_assignment_and_skips_the_others() {
    let mut rt = runtime();
    let next = Export.run(argv(&["export", "A=1", "nonsense", "B=x=y", "=v", "C="]), &mut rt);
    let mut seen = Vec::new();
    let mut next = next;
    loop {
        match next {
            Next::Ask(Request::SetVar(key, value), pending) => {
                seen.push((key, value));
                next = pending.resume(Reply::Done, &mut rt);
            }
            other => {
                assert_eq!(other, status(0));
                break;
            }
        }
    }
    let expected: Vec<(String, String)> = [("A", "1"), ("B", "x=y"), ("", "v"), ("C", "")]
        .iter()
        .map(|(k, v)| (k.to_string(), v.to_string()))
        .collect();
    assert_eq!(seen, expected);
}

#[test]
fn export_with_only_malformed_arguments_succeeds_at_once() {
    let mut rt = runtime();
    assert_eq!(Export.run(argv(&["export", "a", "b"]), &mut rt), status(0));
}

#[test]
fn export_without_arguments_prints_the_variables() {
    let mut rt = runtime();
    assert_eq!(
        Export.run(argv(&["export"]), &mut rt),
        Next::Ask(Request::PrintVars, Pending::Status(0))
    );
}

#[test]
fn jobs_prints_the_listing() {
    let mut rt = runtime();
    assert_eq!(
        Jobs.run(argv(&["jobs"]), &mut rt),
        Next::Ask(Request::Print(String::new()), Pending::Status(0))
    );
    rt.jobs.register(300, String::from("sleep 1"));
    rt.jobs.register(-2, String::from("odd"));
    assert_eq!(
        Jobs.run(argv(&["jobs"]), &mut rt),
        Next::Ask(
            Request::Print(String::from("[1]\t300\t\tsleep 1\n[2]\t-2\t\todd\n")),
            Pending::Status(0)
        )
    );
}

#[test]
fn wait_without_jobs_succeeds_at_once() {
    let mut rt = runtime();
    assert_eq!(Wait.run(argv(&["wait"]), &mut rt), status(0));
}

#[test]
fn wait_without_argument_waits_for_every_job_in_order() {
    let mut rt = runtime();
    rt.jobs.register(300, String::from("a"));
    rt.jobs.register(301, String::from("b"));
    let next = Wait.run(argv(&["wait"]), &mut rt);
    assert_eq!(next, Next::Ask(Request::Wait(300), Pending::WaitAll(vec![301], 300)));
    let gone = Reply::Outcome(Ok(WaitStatus::Exited(300, 0)));
    let next = Pending::WaitAll(vec![301], 300).resume(gone, &mut rt);
    assert_eq!(next, Next::Ask(Request::Wait(301), Pending::WaitAll(vec![], 301)));
    assert_eq!(rt.jobs.pids(), vec![301]);
    let stopped = Reply::Outcome(Ok(WaitStatus::Stopped(301, 19)));
    assert_eq!(Pending::WaitAll(vec![], 301).resume(stopped, &mut rt), status(0));
    assert_eq!(rt.jobs.pids(), vec![301]);
}

#[test]
fn wait_for_a_tracked_process_returns_its_status() {
    let mut rt = runtime();
    rt.jobs.register(300, String::from("a"));
    let next = Wait.run(argv(&["wait", "300"]), &mut rt);
    assert_eq!(next, Next::Ask(Request::Wait(300), Pending::WaitOne(300)));
    let killed = WaitStatus::Signaled(300, 15, false);
    assert_eq!(
        Pending::WaitOne(300).resume(Reply::Outcome(Ok(killed)), &mut rt),
        Next::Done(Outcome::Returned(Ok(killed)))
    );
    assert_eq!(rt.jobs.len(), 0);
}

#[test]
fn wait_for_an_untracked_process_is_a_runtime_error() {
    let mut rt = runtime();
    rt.jobs.register(300, String::from("a"));
    assert_eq!(Wait.run(argv(&["wait", "301"]), &mut rt), failed());
    assert_eq!(Wait.run(argv(&["wait", "abc"]), &mut rt), failed());
}

#[test]
fn wait_that_fails_is_a_runtime_error() {
    let mut rt = runtime();
    rt.jobs.register(300, String::from("a"));
    assert_eq!(Pending::WaitOne(300).resume(Reply::Failed, &mut rt), failed());
    assert_eq!(rt.jobs.len(), 1);
}
