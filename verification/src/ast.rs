//! The syntax tree of the shell language and its mathematical view.

use vstd::prelude::*;

verus! {

/// One token of a simple command's argument list.
#[derive(Clone, Debug, PartialEq, Eq)]
pub struct Word(pub String);

/// Which interpreter a shebang block names.
#[derive(Clone, Debug, PartialEq, Eq)]
pub enum Interpreter {
    /// The shell's own language.
    Primary,
    /// The alternate dialect.
    Alternate,
    /// An external interpreter, by name.
    Other(String),
}

/// A parse unit: commands to run in order.
#[derive(Debug, PartialEq, Eq)]
pub struct Program(pub Vec<Box<Command>>);

/// A node of the syntax tree.
#[derive(Debug, PartialEq, Eq)]
pub enum Command {
    /// A command name followed by its arguments.
    Simple(Vec<Word>),
    /// Commands run one after another.
    Compound(Vec<Box<Command>>),
    /// Logical negation of the child's exit status.
    Not(Box<Command>),
    /// The right side runs only if the left exits with zero.
    And(Box<Command>, Box<Command>),
    /// The right side runs only if the left exits with non-zero.
    Or(Box<Command>, Box<Command>),
    /// A nested program.
    Subshell(Box<Program>),
    /// The left side's output feeds the right side's input.
    Pipeline(Box<Command>, Box<Command>),
    /// The child runs without the caller waiting for it.
    Background(Box<Command>),
    /// A block of text for a named interpreter.
    Shebang(Interpreter, String),
}

/// The mathematical value of an [`Interpreter`].
pub enum InterpreterView {
    Primary,
    Alternate,
    Other(Seq<char>),
}

/// The mathematical value of a [`Command`].
pub enum CommandView {
    Simple(Seq<Seq<char>>),
    Compound(Seq<CommandView>),
    Not(Box<CommandView>),
    And(Box<CommandView>, Box<CommandView>),
    Or(Box<CommandView>, Box<CommandView>),
    Subshell(Seq<CommandView>),
    Pipeline(Box<CommandView>, Box<CommandView>),
    Background(Box<CommandView>),
    Shebang(InterpreterView, Seq<char>),
}

impl View for Word {
    type V = Seq<char>;

    open spec fn view(&self) -> Seq<char> {
        self.0@
    }
}

impl View for Interpreter {
    type V = InterpreterView;

    open spec fn view(&self) -> InterpreterView {
        match self {
            Interpreter::Primary => InterpreterView::Primary,
            Interpreter::Alternate => InterpreterView::Alternate,
            Interpreter::Other(name) => InterpreterView::Other(name@),
        }
    }
}

/// The views of a list of words, in order.
pub open spec fn view_words(words: Seq<Word>) -> Seq<Seq<char>> {
    Seq::new(words.len(), |i: int| words[i]@)
}

/// The views of a list of commands, in order.
pub open spec fn view_commands(cs: Vec<Box<Command>>) -> Seq<CommandView>
    decreases cs, 1int,
{
    Seq::new(
        cs@.len(),
        |i: int|
            if 0 <= i < cs@.len() {
                view_command(*cs@[i])
            } else {
                arbitrary()
            },
    )
}

/// The view of one command, by recursion over the tree.
pub open spec fn view_command(c: Command) -> CommandView
    decreases c, 0int,
{
    match c {
        Command::Simple(words) => CommandView::Simple(view_words(words@)),
        Command::Compound(cs) => CommandView::Compound(view_commands(cs)),
        Command::Not(c) => CommandView::Not(Box::new(view_command(*c))),
        Command::And(l, r) => CommandView::And(
            Box::new(view_command(*l)),
            Box::new(view_command(*r)),
        ),
        Command::Or(l, r) => CommandView::Or(
            Box::new(view_command(*l)),
            Box::new(view_command(*r)),
        ),
        Command::Subshell(p) => CommandView::Subshell(view_commands(p.0)),
        Command::Pipeline(l, r) => CommandView::Pipeline(
            Box::new(view_command(*l)),
            Box::new(view_command(*r)),
        ),
        Command::Background(c) => CommandView::Background(Box::new(view_command(*c))),
        Command::Shebang(i, text) => CommandView::Shebang(i@, text@),
    }
}

impl View for Command {
    type V = CommandView;

    open spec fn view(&self) -> CommandView {
        view_command(*self)
    }
}

impl View for Program {
    type V = Seq<CommandView>;

    open spec fn view(&self) -> Seq<CommandView> {
        view_commands(self.0)
    }
}

} // verus!
