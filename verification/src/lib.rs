//! The core of a command interpreter for the POSIX shell language.
//!
//! Source text is split into tokens ([`lex`]) and parsed into a syntax tree
//! ([`parse`], [`ast`]). The tree is evaluated by a machine ([`eval`]) that
//! does no input or output itself: whenever the operating system is needed
//! it stops and hands its host a request ([`effect`]), and goes on when the
//! host hands back the answer. Commands that the interpreter runs itself
//! are in [`builtin`]; the jobs it tracks are in [`job`], the context of a
//! session in [`runtime`].
//!
//! What a command means is defined over the tree in [`semantics`], and the
//! machine is proved to mean the same. [`laws`] holds what follows for
//! lists, negation, `&&` and `||`, builtins, jobs and parse errors.

pub mod ast;
pub mod builtin;
pub mod effect;
pub mod eval;
pub mod job;
pub mod laws;
pub mod lex;
pub mod parse;
pub mod runtime;
pub mod semantics;
pub mod status;
pub mod text;
