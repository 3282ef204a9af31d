//! What the interpreter asks of its host, and what the host answers.
//!
//! The interpreter does no input or output itself. Whenever evaluation needs
//! the operating system it hands out a [`Request`]; the host performs it and
//! hands back a [`Reply`].

use crate::ast::{view_command, Command, CommandView, Program};
use crate::status::{Error, WaitStatus};
use crate::text::strings;
use vstd::prelude::*;

verus! {

/// An action for the host to perform.
#[derive(Debug, PartialEq, Eq)]
pub enum Request {
    /// Run the external command `argv` in the foreground and wait for it.
    /// Answered by [`Reply::Outcome`].
    Spawn(Vec<String>),
    /// Run both commands at once, the left one's standard output feeding the
    /// right one's standard input, and wait for both. Answered by
    /// [`Reply::Piped`].
    Pipeline(Box<Command>, Box<Command>),
    /// Start evaluating the command without waiting for it. Answered by
    /// [`Reply::Started`].
    Background(Box<Command>),
    /// Write an executable file with the contents, run it and wait, then
    /// take the file away. Answered by [`Reply::Done`].
    Bridge(String),
    /// Change the working directory. Answered by [`Reply::Done`].
    Chdir(String),
    /// Read an environment variable. Answered by [`Reply::Text`].
    GetVar(String),
    /// Set an environment variable to a value.
    SetVar(String, String),
    /// Print every environment variable as `key=value`, one per line.
    PrintVars,
    /// Save the line editor's history at the path.
    SaveHistory(String),
    /// Read a file whole. Answered by [`Reply::Text`].
    ReadFile(String),
    /// Evaluate the program in the current context. Answered by
    /// [`Reply::Outcome`] with what the evaluation returned.
    Evaluate(Program),
    /// Write the text to standard output.
    Print(String),
    /// Write the text, as one line, to standard error.
    Diagnose(String),
    /// Block until the process changes state. Answered by
    /// [`Reply::Outcome`].
    Wait(i32),
}

/// The mathematical value of a [`Request`].
pub enum RequestView {
    Spawn(Seq<Seq<char>>),
    Pipeline(CommandView, CommandView),
    Background(CommandView),
    Bridge(Seq<char>),
    Chdir(Seq<char>),
    GetVar(Seq<char>),
    SetVar(Seq<char>, Seq<char>),
    PrintVars,
    SaveHistory(Seq<char>),
    ReadFile(Seq<char>),
    Evaluate(Seq<CommandView>),
    Print(Seq<char>),
    Diagnose(Seq<char>),
    Wait(i32),
}

impl View for Request {
    type V = RequestView;

    open spec fn view(&self) -> RequestView {
        match self {
            Request::Spawn(argv) => RequestView::Spawn(strings(argv@)),
            Request::Pipeline(l, r) => RequestView::Pipeline(view_command(**l), view_command(**r)),
            Request::Background(c) => RequestView::Background(view_command(**c)),
            Request::Bridge(contents) => RequestView::Bridge(contents@),
            Request::Chdir(path) => RequestView::Chdir(path@),
            Request::GetVar(name) => RequestView::GetVar(name@),
            Request::SetVar(name, value) => RequestView::SetVar(name@, value@),
            Request::PrintVars => RequestView::PrintVars,
            Request::SaveHistory(path) => RequestView::SaveHistory(path@),
            Request::ReadFile(path) => RequestView::ReadFile(path@),
            Request::Evaluate(program) => RequestView::Evaluate(program@),
            Request::Print(text) => RequestView::Print(text@),
            Request::Diagnose(text) => RequestView::Diagnose(text@),
            Request::Wait(pid) => RequestView::Wait(*pid),
        }
    }
}

/// The host's answer to a [`Request`].
#[derive(Debug, PartialEq, Eq)]
pub enum Reply {
    /// The action was performed.
    Done,
    /// The action could not be performed.
    Failed,
    /// How a process, or a nested evaluation, ended.
    Outcome(Result<WaitStatus, Error>),
    /// How the two sides of a pipeline ended: the left one first.
    Piped(Result<WaitStatus, Error>, Result<WaitStatus, Error>),
    /// The text that was asked for.
    Text(String),
    /// A background job was started: its leader's process id and the text to
    /// show for it.
    Started(i32, String),
}

/// The mathematical value of a [`Reply`].
pub enum ReplyView {
    Done,
    Failed,
    Outcome(Result<WaitStatus, Error>),
    Piped(Result<WaitStatus, Error>, Result<WaitStatus, Error>),
    Text(Seq<char>),
    Started(i32, Seq<char>),
}

impl View for Reply {
    type V = ReplyView;

    open spec fn view(&self) -> ReplyView {
        match self {
            Reply::Done => ReplyView::Done,
            Reply::Failed => ReplyView::Failed,
            Reply::Outcome(r) => ReplyView::Outcome(*r),
            Reply::Piped(left, right) => ReplyView::Piped(*left, *right),
            Reply::Text(s) => ReplyView::Text(s@),
            Reply::Started(pid, body) => ReplyView::Started(*pid, body@),
        }
    }
}

} // verus!
