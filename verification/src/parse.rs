//! The parser: from tokens to a program.
//!
//! The grammar, with `linebreak` for any number of line ends:
//!
//! ```text
//! program  := linebreak list end-of-text
//! list     := { and_or ( ';' | '&' | LINEFEED ) linebreak } [ and_or ]
//! and_or   := pipeline { ( '&&' | '||' ) linebreak pipeline }
//! pipeline := [ '!' ] command { '|' linebreak command }
//! command  := WORD { WORD } | SHEBANG
//!           | '{' linebreak list '}' | '(' linebreak list ')'
//! ```
//!
//! `&&`, `||` and `|` group to the left; `!` negates the whole pipeline; an
//! `and_or` followed by `&` runs in the background.

use crate::ast::{
    view_command,
    view_commands,
    view_words,
    Command,
    CommandView,
    Interpreter,
    InterpreterView,
    Program,
    Word,
};
use crate::lex::{
    law_lex_error_is_no_line_end,
    lex,
    lex_spec,
    view_tokens,
    LexError,
    Spanned,
    SpannedView,
    Token,
    TokenView,
};
use crate::status::Error;
use crate::text::{
    decimal,
    decimal_u64,
    join,
    join_by,
    lemma_decimal_one_line,
    lemma_join_one_line,
    lemma_one_line_concat,
    one_line,
    strings,
};
use vstd::prelude::*;
use vstd::utf8::encode_utf8;

verus! {

/// Why a text is no program.
#[derive(Debug, PartialEq, Eq)]
pub enum ParseError {
    /// No token can begin at the place. The lexer of this crate tells of
    /// such a place through [`ParseError::User`], so that
    /// [`parse_program`] never gives this error.
    InvalidToken { location: usize },
    /// The token, or the end of the text where there is none, cannot stand
    /// where it does. The location is the place where the token starts, or
    /// the place of the end of the text; the names are those of the tokens
    /// that could stand there.
    UnrecognizedToken { location: usize, token: Option<Spanned>, expected: Vec<String> },
    /// The token follows a complete program.
    ExtraToken { token: Spanned },
    /// The lexer's error.
    User { error: LexError },
}

/// The mathematical value of a [`ParseError`].
pub enum ParseErrorView {
    InvalidToken { location: int },
    UnrecognizedToken { location: int, token: Option<SpannedView>, expected: Seq<Seq<char>> },
    ExtraToken { token: SpannedView },
    User { error: LexError },
}

impl View for ParseError {
    type V = ParseErrorView;

    open spec fn view(&self) -> ParseErrorView {
        match self {
            ParseError::InvalidToken { location } => ParseErrorView::InvalidToken {
                location: *location as int,
            },
            ParseError::UnrecognizedToken {
                location,
                token,
                expected,
            } => ParseErrorView::UnrecognizedToken {
                location: *location as int,
                token: match token {
                    Some(t) => Some(t@),
                    None => None,
                },
                expected: strings(expected@),
            },
            ParseError::ExtraToken { token } => ParseErrorView::ExtraToken { token: token@ },
            ParseError::User { error } => ParseErrorView::User { error: *error },
        }
    }
}

/// The token at place `i` of the list, if there is one.
pub open spec fn token_at(toks: Seq<SpannedView>, i: int) -> Option<SpannedView> {
    if 0 <= i < toks.len() {
        Some(toks[i])
    } else {
        None
    }
}

/// The place in the text where the token at place `i` of the list starts,
/// or `eot`, the place of the end of the text, if there is no such token.
pub open spec fn place_at(toks: Seq<SpannedView>, eot: int, i: int) -> int {
    match token_at(toks, i) {
        Some(t) => t.start,
        None => eot,
    }
}

/// The number of tokens from place `i` to the end.
pub open spec fn remaining(toks: Seq<SpannedView>, i: int) -> nat {
    if i <= toks.len() {
        (toks.len() - i) as nat
    } else {
        0
    }
}

/// The number of line ends that follow one another from place `i`.
pub open spec fn linebreak(toks: Seq<SpannedView>, i: int) -> nat
    decreases remaining(toks, i),
{
    if 0 <= i < toks.len() && toks[i].token is Linefeed {
        1 + linebreak(toks, i + 1)
    } else {
        0
    }
}

/// The words that follow one another from place `i`, after `acc`.
pub open spec fn words_from(toks: Seq<SpannedView>, i: int, acc: Seq<Seq<char>>) -> Seq<Seq<char>>
    decreases remaining(toks, i),
{
    if 0 <= i < toks.len() && toks[i].token is Word {
        words_from(toks, i + 1, acc.push(toks[i].token->Word_0))
    } else {
        acc
    }
}

/// The names of the tokens that can begin a command, with `!` where a
/// pipeline can begin.
pub open spec fn starters(bang: bool) -> Seq<Seq<char>> {
    if bang {
        seq!["WORD"@, "SHEBANG"@, "!"@, "("@, "{"@]
    } else {
        seq!["WORD"@, "SHEBANG"@, "("@, "{"@]
    }
}

/// The name of the token that closes a group.
pub open spec fn closer(brace: bool) -> Seq<Seq<char>> {
    if brace {
        seq!["}"@]
    } else {
        seq![")"@]
    }
}

/// Whether a pipeline can begin with the token.
pub open spec fn starts_pipeline(token: TokenView) -> bool {
    token is Word || token is Shebang || token is Bang || token is LParen || token is LBrace
}

/// The command at place `i` and the number of its tokens.
pub open spec fn command_spec(toks: Seq<SpannedView>, eot: int, i: int, bang: bool) -> Result<
    (CommandView, nat),
    ParseErrorView,
>
    decreases remaining(toks, i), 1int,
{
    match token_at(toks, i) {
        Some(t) => match t.token {
            TokenView::Word(w) => {
                let words = words_from(toks, i + 1, seq![w]);
                Ok((CommandView::Simple(words), words.len()))
            },
            TokenView::Shebang(name, text) => Ok(
                (CommandView::Shebang(InterpreterView::Other(name), text), 1nat),
            ),
            TokenView::LBrace => group_spec(toks, eot, i, true),
            TokenView::LParen => group_spec(toks, eot, i, false),
            _ => Err(
                ParseErrorView::UnrecognizedToken {
                    location: t.start,
                    token: Some(t),
                    expected: starters(bang),
                },
            ),
        },
        None => Err(
            ParseErrorView::UnrecognizedToken {
                location: eot,
                token: None,
                expected: starters(bang),
            },
        ),
    }
}

/// The group that opens at place `i`, in braces or in parentheses, and the
/// number of its tokens.
pub open spec fn group_spec(toks: Seq<SpannedView>, eot: int, i: int, brace: bool) -> Result<
    (CommandView, nat),
    ParseErrorView,
>
    decreases remaining(toks, i), 0int,
{
    if 0 <= i < toks.len() {
        let inner = i + 1 + linebreak(toks, i + 1);
        match list_spec(toks, eot, inner, Seq::empty()) {
            Err(e) => Err(e),
            Ok((cs, n)) => {
                let close = inner + n;
                let closed = match token_at(toks, close) {
                    Some(t) => if brace {
                        t.token is RBrace
                    } else {
                        t.token is RParen
                    },
                    None => false,
                };
                if closed {
                    Ok(
                        (
                            if brace {
                                CommandView::Compound(cs)
                            } else {
                                CommandView::Subshell(cs)
                            },
                            (close + 1 - i) as nat,
                        ),
                    )
                } else {
                    Err(
                        ParseErrorView::UnrecognizedToken {
                            location: place_at(toks, eot, close),
                            token: token_at(toks, close),
                            expected: closer(brace),
                        },
                    )
                }
            },
        }
    } else {
        Err(
            ParseErrorView::UnrecognizedToken {
                location: eot,
                token: None,
                expected: starters(false),
            },
        )
    }
}

/// The commands piped after `left` from place `i`, and the number of tokens
/// they take.
pub open spec fn pipe_tail_spec(toks: Seq<SpannedView>, eot: int, i: int, left: CommandView) -> Result<
    (CommandView, nat),
    ParseErrorView,
>
    decreases remaining(toks, i), 2int,
{
    if 0 <= i < toks.len() && toks[i].token is Pipe {
        let at = i + 1 + linebreak(toks, i + 1);
        match command_spec(toks, eot, at, false) {
            Err(e) => Err(e),
            Ok((right, n)) => match pipe_tail_spec(
                toks, eot,
                at + n,
                CommandView::Pipeline(Box::new(left), Box::new(right)),
            ) {
                Err(e) => Err(e),
                Ok((c, m)) => Ok((c, (at + n + m - i) as nat)),
            },
        }
    } else {
        Ok((left, 0nat))
    }
}

/// The pipeline at place `i` and the number of its tokens.
pub open spec fn pipeline_spec(toks: Seq<SpannedView>, eot: int, i: int) -> Result<
    (CommandView, nat),
    ParseErrorView,
>
    decreases remaining(toks, i), 3int,
{
    if 0 <= i < toks.len() && toks[i].token is Bang {
        match command_spec(toks, eot, i + 1, false) {
            Err(e) => Err(e),
            Ok((first, n)) => match pipe_tail_spec(toks, eot, i + 1 + n, first) {
                Err(e) => Err(e),
                Ok((c, m)) => Ok((CommandView::Not(Box::new(c)), 1 + n + m)),
            },
        }
    } else {
        match command_spec(toks, eot, i, true) {
            Err(e) => Err(e),
            Ok((first, n)) => match pipe_tail_spec(toks, eot, i + n, first) {
                Err(e) => Err(e),
                Ok((c, m)) => Ok((c, n + m)),
            },
        }
    }
}

/// The pipelines joined to `left` by `&&` and `||` from place `i`, and the
/// number of tokens they take.
pub open spec fn and_or_tail_spec(toks: Seq<SpannedView>, eot: int, i: int, left: CommandView) -> Result<
    (CommandView, nat),
    ParseErrorView,
>
    decreases remaining(toks, i), 4int,
{
    if 0 <= i < toks.len() && (toks[i].token is And || toks[i].token is Or) {
        let at = i + 1 + linebreak(toks, i + 1);
        match pipeline_spec(toks, eot, at) {
            Err(e) => Err(e),
            Ok((right, n)) => {
                let joined = if toks[i].token is And {
                    CommandView::And(Box::new(left), Box::new(right))
                } else {
                    CommandView::Or(Box::new(left), Box::new(right))
                };
                match and_or_tail_spec(toks, eot, at + n, joined) {
                    Err(e) => Err(e),
                    Ok((c, m)) => Ok((c, (at + n + m - i) as nat)),
                }
            },
        }
    } else {
        Ok((left, 0nat))
    }
}

/// The `and_or` at place `i` and the number of its tokens.
pub open spec fn and_or_spec(toks: Seq<SpannedView>, eot: int, i: int) -> Result<
    (CommandView, nat),
    ParseErrorView,
>
    decreases remaining(toks, i), 5int,
{
    match pipeline_spec(toks, eot, i) {
        Err(e) => Err(e),
        Ok((first, n)) => match and_or_tail_spec(toks, eot, i + n, first) {
            Err(e) => Err(e),
            Ok((c, m)) => Ok((c, n + m)),
        },
    }
}

/// The list at place `i`, after the commands `acc`, and the number of its
/// tokens.
pub open spec fn list_spec(toks: Seq<SpannedView>, eot: int, i: int, acc: Seq<CommandView>) -> Result<
    (Seq<CommandView>, nat),
    ParseErrorView,
>
    decreases remaining(toks, i), 6int,
{
    if 0 <= i < toks.len() && starts_pipeline(toks[i].token) {
        match and_or_spec(toks, eot, i) {
            Err(e) => Err(e),
            Ok((c, n)) => {
                let at = i + n;
                match token_at(toks, at) {
                    Some(t) => if t.token is Semi || t.token is Linefeed || t.token is Amper {
                        let item = if t.token is Amper {
                            CommandView::Background(Box::new(c))
                        } else {
                            c
                        };
                        let next = at + 1 + linebreak(toks, at + 1);
                        match list_spec(toks, eot, next, acc.push(item)) {
                            Err(e) => Err(e),
                            Ok((cs, m)) => Ok((cs, (next + m - i) as nat)),
                        }
                    } else {
                        Ok((acc.push(c), n))
                    },
                    None => Ok((acc.push(c), n)),
                }
            },
        }
    } else {
        Ok((acc, 0nat))
    }
}

/// The program that a list of tokens is.
pub open spec fn program_spec(toks: Seq<SpannedView>, eot: int) -> Result<Seq<CommandView>, ParseErrorView> {
    let start = linebreak(toks, 0) as int;
    match list_spec(toks, eot, start, Seq::empty()) {
        Err(e) => Err(e),
        Ok((cs, n)) => match token_at(toks, start + n) {
            None => Ok(cs),
            Some(t) => Err(ParseErrorView::ExtraToken { token: t }),
        },
    }
}

/// The program that a text is.
pub open spec fn parse_spec(text: Seq<char>) -> Result<Seq<CommandView>, ParseErrorView> {
    match lex_spec(text) {
        Err(e) => Err(ParseErrorView::User { error: e }),
        Ok(toks) => program_spec(toks, encode_utf8(text).len() as int),
    }
}

/// Whether the parser's result `r` from place `i` is what the grammar gives.
spec fn agrees(
    r: Result<(Command, usize), ParseError>,
    s: Result<(CommandView, nat), ParseErrorView>,
    i: usize,
    len: usize,
) -> bool {
    match r {
        Ok((c, j)) => i <= j <= len && s == Ok::<(CommandView, nat), ParseErrorView>(
            (view_command(c), (j - i) as nat),
        ),
        Err(e) => s == Err::<(CommandView, nat), ParseErrorView>(e@),
    }
}

/// Whether the parser's list `r` from place `i` is what the grammar gives.
spec fn agrees_list(
    r: Result<(Vec<Box<Command>>, usize), ParseError>,
    s: Result<(Seq<CommandView>, nat), ParseErrorView>,
    i: usize,
    len: usize,
) -> bool {
    match r {
        Ok((cs, j)) => i <= j <= len && s == Ok::<(Seq<CommandView>, nat), ParseErrorView>(
            (view_commands(cs), (j - i) as nat),
        ),
        Err(e) => s == Err::<(Seq<CommandView>, nat), ParseErrorView>(e@),
    }
}

fn skip_linebreak(tokens: &Vec<Spanned>, start: usize) -> (j: usize)
    requires
        start <= tokens.len(),
    ensures
        start <= j <= tokens.len(),
        j == start + linebreak(view_tokens(tokens@), start as int),
{
    let ghost toks = view_tokens(tokens@);
    let mut i = start;
    while i < tokens.len()
        invariant
            start <= i <= tokens.len(),
            toks == view_tokens(tokens@),
            linebreak(toks, start as int) == (i - start) + linebreak(toks, i as int),
        decreases tokens.len() - i,
    {
        match &tokens[i].token {
            Token::Linefeed => {
                i = i + 1;
            },
            _ => {
                return i;
            },
        }
    }
    i
}

fn names(bang: bool) -> (v: Vec<String>)
    ensures
        strings(v@) == starters(bang),
{
    let mut v: Vec<String> = Vec::new();
    v.push(String::from_str("WORD"));
    v.push(String::from_str("SHEBANG"));
    if bang {
        v.push(String::from_str("!"));
    }
    v.push(String::from_str("("));
    v.push(String::from_str("{"));
    assert(strings(v@) =~= starters(bang));
    v
}

fn closing(brace: bool) -> (v: Vec<String>)
    ensures
        strings(v@) == closer(brace),
{
    let mut v: Vec<String> = Vec::new();
    if brace {
        v.push(String::from_str("}"));
    } else {
        v.push(String::from_str(")"));
    }
    assert(strings(v@) =~= closer(brace));
    v
}

fn spanned_at(tokens: &Vec<Spanned>, i: usize) -> (t: Option<Spanned>)
    ensures
        match t {
            Some(s) => token_at(view_tokens(tokens@), i as int) == Some(s@),
            None => token_at(view_tokens(tokens@), i as int) is None,
        },
{
    if i < tokens.len() {
        let t = &tokens[i];
        Some(Spanned { start: t.start, token: t.token.duplicate(), end: t.end })
    } else {
        None
    }
}

fn unexpected(tokens: &Vec<Spanned>, eot: usize, i: usize, expected: Vec<String>) -> (e: ParseError)
    ensures
        e@ == (ParseErrorView::UnrecognizedToken {
            location: place_at(view_tokens(tokens@), eot as int, i as int),
            token: token_at(view_tokens(tokens@), i as int),
            expected: strings(expected@),
        }),
{
    let token = spanned_at(tokens, i);
    let location = match &token {
        Some(t) => t.start,
        None => eot,
    };
    ParseError::UnrecognizedToken { location, token, expected }
}

fn gather_words(tokens: &Vec<Spanned>, start: usize, acc: Vec<Word>) -> (r: (Vec<Word>, usize))
    requires
        start <= tokens.len(),
    ensures
        start <= r.1 <= tokens.len(),
        view_words(r.0@) == words_from(view_tokens(tokens@), start as int, view_words(acc@)),
        r.1 - start == view_words(r.0@).len() - view_words(acc@).len(),
{
    let ghost toks = view_tokens(tokens@);
    let mut words = acc;
    let mut i = start;
    while i < tokens.len()
        invariant
            start <= i <= tokens.len(),
            toks == view_tokens(tokens@),
            words_from(toks, i as int, view_words(words@)) == words_from(
                toks,
                start as int,
                view_words(acc@),
            ),
            i - start == view_words(words@).len() - view_words(acc@).len(),
        decreases tokens.len() - i,
    {
        match &tokens[i].token {
            Token::Word(w) => {
                let ghost before = view_words(words@);
                words.push(Word(w.clone()));
                assert(view_words(words@) =~= before.push(w@));
                i = i + 1;
            },
            _ => {
                return (words, i);
            },
        }
    }
    (words, i)
}

fn parse_command(tokens: &Vec<Spanned>, eot: usize, i: usize, bang: bool) -> (r: Result<
    (Command, usize),
    ParseError,
>)
    requires
        i <= tokens.len(),
    ensures
        agrees(r, command_spec(view_tokens(tokens@), eot as int, i as int, bang), i, tokens.len()),
    decreases tokens.len() - i, 1int,
{
    if i >= tokens.len() {
        return Err(unexpected(tokens, eot, i, names(bang)));
    }
    match &tokens[i].token {
        Token::Word(w) => {
            let mut first: Vec<Word> = Vec::new();
            first.push(Word(w.clone()));
            assert(view_words(first@) =~= seq![w@]);
            let (words, j) = gather_words(tokens, i + 1, first);
            Ok((Command::Simple(words), j))
        },
        Token::Shebang(name, text) => Ok(
            (Command::Shebang(Interpreter::Other(name.clone()), text.clone()), i + 1),
        ),
        Token::LBrace => parse_group(tokens, eot, i, true),
        Token::LParen => parse_group(tokens, eot, i, false),
        _ => Err(unexpected(tokens, eot, i, names(bang))),
    }
}

fn parse_group(tokens: &Vec<Spanned>, eot: usize, i: usize, brace: bool) -> (r: Result<
    (Command, usize),
    ParseError,
>)
    requires
        i < tokens.len(),
    ensures
        agrees(r, group_spec(view_tokens(tokens@), eot as int, i as int, brace), i, tokens.len()),
    decreases tokens.len() - i, 0int,
{
    let inner = skip_linebreak(tokens, i + 1);
    let empty: Vec<Box<Command>> = Vec::new();
    assert(view_commands(empty) =~= Seq::empty());
    match parse_list(tokens, eot, inner, empty) {
        Err(e) => Err(e),
        Ok((cs, close)) => {
            let closed = if close < tokens.len() {
                match &tokens[close].token {
                    Token::RBrace => brace,
                    Token::RParen => !brace,
                    _ => false,
                }
            } else {
                false
            };
            if closed {
                if brace {
                    Ok((Command::Compound(cs), close + 1))
                } else {
                    Ok((Command::Subshell(Box::new(Program(cs))), close + 1))
                }
            } else {
                Err(unexpected(tokens, eot, close, closing(brace)))
            }
        },
    }
}

fn parse_pipe_tail(tokens: &Vec<Spanned>, eot: usize, i: usize, left: Command) -> (r: Result<
    (Command, usize),
    ParseError,
>)
    requires
        i <= tokens.len(),
    ensures
        agrees(
            r,
            pipe_tail_spec(view_tokens(tokens@), eot as int, i as int, view_command(left)),
            i,
            tokens.len(),
        ),
    decreases tokens.len() - i, 2int,
{
    let piped = if i < tokens.len() {
        match &tokens[i].token {
            Token::Pipe => true,
            _ => false,
        }
    } else {
        false
    };
    if !piped {
        return Ok((left, i));
    }
    let at = skip_linebreak(tokens, i + 1);
    match parse_command(tokens, eot, at, false) {
        Err(e) => Err(e),
        Ok((right, j)) => parse_pipe_tail(
            tokens, eot,
            j,
            Command::Pipeline(Box::new(left), Box::new(right)),
        ),
    }
}

fn parse_pipeline(tokens: &Vec<Spanned>, eot: usize, i: usize) -> (r: Result<(Command, usize), ParseError>)
    requires
        i <= tokens.len(),
    ensures
        agrees(r, pipeline_spec(view_tokens(tokens@), eot as int, i as int), i, tokens.len()),
    decreases tokens.len() - i, 3int,
{
    let negated = if i < tokens.len() {
        match &tokens[i].token {
            Token::Bang => true,
            _ => false,
        }
    } else {
        false
    };
    if negated {
        match parse_command(tokens, eot, i + 1, false) {
            Err(e) => Err(e),
            Ok((first, j)) => match parse_pipe_tail(tokens, eot, j, first) {
                Err(e) => Err(e),
                Ok((c, k)) => Ok((Command::Not(Box::new(c)), k)),
            },
        }
    } else {
        match parse_command(tokens, eot, i, true) {
            Err(e) => Err(e),
            Ok((first, j)) => parse_pipe_tail(tokens, eot, j, first),
        }
    }
}

fn parse_and_or_tail(tokens: &Vec<Spanned>, eot: usize, i: usize, left: Command) -> (r: Result<
    (Command, usize),
    ParseError,
>)
    requires
        i <= tokens.len(),
    ensures
        agrees(
            r,
            and_or_tail_spec(view_tokens(tokens@), eot as int, i as int, view_command(left)),
            i,
            tokens.len(),
        ),
    decreases tokens.len() - i, 4int,
{
    let joint: u8 = if i < tokens.len() {
        match &tokens[i].token {
            Token::And => 1,
            Token::Or => 2,
            _ => 0,
        }
    } else {
        0
    };
    if joint == 0 {
        return Ok((left, i));
    }
    let at = skip_linebreak(tokens, i + 1);
    match parse_pipeline(tokens, eot, at) {
        Err(e) => Err(e),
        Ok((right, j)) => {
            let joined = if joint == 1 {
                Command::And(Box::new(left), Box::new(right))
            } else {
                Command::Or(Box::new(left), Box::new(right))
            };
            parse_and_or_tail(tokens, eot, j, joined)
        },
    }
}

#[verifier::rlimit(60)]
fn parse_and_or(tokens: &Vec<Spanned>, eot: usize, i: usize) -> (r: Result<(Command, usize), ParseError>)
    requires
        i <= tokens.len(),
    ensures
        agrees(r, and_or_spec(view_tokens(tokens@), eot as int, i as int), i, tokens.len()),
    decreases tokens.len() - i, 5int,
{
    let ghost toks = view_tokens(tokens@);
    match parse_pipeline(tokens, eot, i) {
        Err(e) => Err(e),
        Ok((first, j)) => {
            assert(pipeline_spec(toks, eot as int, i as int) == Ok::<(CommandView, nat), ParseErrorView>(
                (view_command(first), (j - i) as nat),
            ));
            let ghost left = view_command(first);
            let r = parse_and_or_tail(tokens, eot, j, first);
            assert(agrees(r, and_or_tail_spec(toks, eot as int, i + (j - i) as nat, left), j, tokens.len()));
            r
        },
    }
}

/// The result with the number of tokens raised by `by`.
spec fn shifted(r: Result<(Seq<CommandView>, nat), ParseErrorView>, by: nat) -> Result<
    (Seq<CommandView>, nat),
    ParseErrorView,
> {
    match r {
        Ok((cs, n)) => Ok((cs, n + by)),
        Err(e) => Err(e),
    }
}

fn parse_list(tokens: &Vec<Spanned>, eot: usize, start: usize, acc: Vec<Box<Command>>) -> (r: Result<
    (Vec<Box<Command>>, usize),
    ParseError,
>)
    requires
        start <= tokens.len(),
    ensures
        agrees_list(
            r,
            list_spec(view_tokens(tokens@), eot as int, start as int, view_commands(acc)),
            start,
            tokens.len(),
        ),
    decreases tokens.len() - start, 6int,
{
    let ghost toks = view_tokens(tokens@);
    let ghost target = list_spec(toks, eot as int, start as int, view_commands(acc));
    let mut items = acc;
    let mut i = start;
    loop
        invariant
            start <= i <= tokens.len(),
            toks == view_tokens(tokens@),
            target == list_spec(toks, eot as int, start as int, view_commands(acc)),
            target == shifted(
                list_spec(toks, eot as int, i as int, view_commands(items)),
                (i - start) as nat,
            ),
        decreases tokens.len() - i,
    {
        let begins = if i < tokens.len() {
            match &tokens[i].token {
                Token::Word(_) => true,
                Token::Shebang(_, _) => true,
                Token::Bang => true,
                Token::LParen => true,
                Token::LBrace => true,
                _ => false,
            }
        } else {
            false
        };
        if !begins {
            return Ok((items, i));
        }
        match parse_and_or(tokens, eot, i) {
            Err(e) => {
                return Err(e);
            },
            Ok((c, at)) => {
                let separator: u8 = if at < tokens.len() {
                    match &tokens[at].token {
                        Token::Semi => 1,
                        Token::Linefeed => 1,
                        Token::Amper => 2,
                        _ => 0,
                    }
                } else {
                    0
                };
                let ghost before = view_commands(items);
                let ghost one = view_command(c);
                if separator == 0 {
                    items.push(Box::new(c));
                    assert(view_commands(items) =~= before.push(one));
                    return Ok((items, at));
                }
                if separator == 2 {
                    items.push(Box::new(Command::Background(Box::new(c))));
                    assert(view_commands(items) =~= before.push(
                        CommandView::Background(Box::new(one)),
                    ));
                } else {
                    items.push(Box::new(c));
                    assert(view_commands(items) =~= before.push(one));
                }
                i = skip_linebreak(tokens, at + 1);
            },
        }
    }
}

fn parse_text(text: &str) -> (r: Result<Program, ParseError>)
    ensures
        match r {
            Ok(p) => parse_spec(text@) == Ok::<Seq<CommandView>, ParseErrorView>(p@),
            Err(e) => parse_spec(text@) == Err::<Seq<CommandView>, ParseErrorView>(e@),
        },
{
    match lex(text) {
        Err(e) => Err(ParseError::User { error: e }),
        Ok(tokens) => {
            let eot = text.as_bytes().len();
            let start = skip_linebreak(&tokens, 0);
            let empty: Vec<Box<Command>> = Vec::new();
            assert(view_commands(empty) =~= Seq::empty());
            match parse_list(&tokens, eot, start, empty) {
                Err(e) => Err(e),
                Ok((cs, end)) => {
                    match spanned_at(&tokens, end) {
                        None => Ok(Program(cs)),
                        Some(token) => Err(ParseError::ExtraToken { token }),
                    }
                },
            }
        },
    }
}

/// Parses a text into a program.
///
/// Gives the program that the grammar makes of the text's tokens, or says
/// why there is none: the lexer's error; a token, or the end of the text,
/// that cannot stand where it does, with its place and the names of the
/// tokens that could; or a token that follows a complete program. No text
/// makes the parser fail in any other way, and nothing of a text that is no
/// program is returned. The message for the error is one line.
pub fn parse_program(text: &str) -> (r: Result<Program, ParseError>)
    ensures
        match r {
            Ok(p) => parse_spec(text@) == Ok::<Seq<CommandView>, ParseErrorView>(p@),
            Err(e) => {
                &&& parse_spec(text@) == Err::<Seq<CommandView>, ParseErrorView>(e@)
                &&& !(e@ is InvalidToken)
                &&& one_line(diagnostic_spec(e@))
            },
        },
{
    let r = parse_text(text);
    proof {
        if parse_spec(text@) is Err {
            law_parse_errors(text@);
            law_diagnostic_is_one_line(text@);
        }
    }
    r
}

impl Program {
    /// Parses a text into a program; any fault in the text is
    /// [`Error::Parse`].
    pub fn parse(text: &str) -> (r: Result<Program, Error>)
        ensures
            match r {
                Ok(p) => parse_spec(text@) == Ok::<Seq<CommandView>, ParseErrorView>(p@),
                Err(e) => e == Error::Parse && parse_spec(text@) is Err,
            },
    {
        match parse_program(text) {
            Ok(p) => Ok(p),
            Err(_) => Err(Error::Parse),
        }
    }

    /// The program's commands, in order.
    pub fn commands(&self) -> (cs: &[Box<Command>])
        ensures
            cs@ == self.0@,
    {
        self.0.as_slice()
    }
}

/// The place in the text that the error is about, as a byte offset.
pub open spec fn location_spec(e: ParseErrorView) -> int {
    match e {
        ParseErrorView::InvalidToken { location } => location,
        ParseErrorView::UnrecognizedToken { location, .. } => location,
        ParseErrorView::ExtraToken { token } => token.start,
        ParseErrorView::User { error: LexError::UnrecognizedChar(at, _) } => at as int,
    }
}

impl ParseError {
    /// The place in the text that the error is about, as a byte offset.
    pub fn location(&self) -> (at: usize)
        ensures
            at == location_spec(self@),
    {
        match self {
            ParseError::InvalidToken { location } => *location,
            ParseError::UnrecognizedToken { location, .. } => *location,
            ParseError::ExtraToken { token } => token.start,
            ParseError::User { error } => match error {
                LexError::UnrecognizedChar(at, _) => *at,
            },
        }
    }
}

/// The name by which a diagnostic calls a token.
pub open spec fn token_name(token: TokenView) -> Seq<char> {
    match token {
        TokenView::Word(_) => "WORD"@,
        TokenView::Shebang(_, _) => "SHEBANG"@,
        TokenView::Linefeed => "LINEFEED"@,
        TokenView::Semi => ";"@,
        TokenView::Amper => "&"@,
        TokenView::And => "&&"@,
        TokenView::Pipe => "|"@,
        TokenView::Or => "||"@,
        TokenView::Bang => "!"@,
        TokenView::LParen => "("@,
        TokenView::RParen => ")"@,
        TokenView::LBrace => "{"@,
        TokenView::RBrace => "}"@,
    }
}

/// The line that tells a user of the error: what was found, where, and what
/// could have stood there.
pub open spec fn diagnostic_spec(e: ParseErrorView) -> Seq<char> {
    match e {
        ParseErrorView::InvalidToken { location } => "invalid token found at "@ + decimal(
            location as nat,
        ),
        ParseErrorView::UnrecognizedToken { location, token: Some(t), expected } =>
            "unexpected token "@ + token_name(t.token) + " found at "@ + decimal(location as nat)
                + ", expecting "@ + join_by(expected, ", "@),
        ParseErrorView::UnrecognizedToken { location, token: None, expected } =>
            "unexpected end of input found at "@ + decimal(location as nat) + ", expecting "@
                + join_by(expected, ", "@),
        ParseErrorView::ExtraToken { token } => "extra token "@ + token_name(token.token)
            + " found at "@ + decimal(token.start as nat),
        ParseErrorView::User { error: LexError::UnrecognizedChar(at, c) } =>
            "unexpected character "@ + seq![c] + " found at "@ + decimal(at as nat),
    }
}

fn name_of(token: &Token) -> (s: &'static str)
    ensures
        s@ == token_name(token@),
{
    match token {
        Token::Word(_) => "WORD",
        Token::Shebang(_, _) => "SHEBANG",
        Token::Linefeed => "LINEFEED",
        Token::Semi => ";",
        Token::Amper => "&",
        Token::And => "&&",
        Token::Pipe => "|",
        Token::Or => "||",
        Token::Bang => "!",
        Token::LParen => "(",
        Token::RParen => ")",
        Token::LBrace => "{",
        Token::RBrace => "}",
    }
}

fn place(at: usize) -> (s: String)
    ensures
        s@ == decimal(at as nat),
{
    decimal_u64(at as u64)
}

/// Writes the one-line message for a parse error.
pub fn diagnostic(e: &ParseError) -> (s: String)
    ensures
        s@ == diagnostic_spec(e@),
{
    match e {
        ParseError::InvalidToken { location } => {
            let mut s = String::from_str("invalid token found at ");
            s.append(place(*location).as_str());
            s
        },
        ParseError::UnrecognizedToken { location, token: Some(t), expected } => {
            let mut s = String::from_str("unexpected token ");
            s.append(name_of(&t.token));
            s.append(" found at ");
            s.append(place(*location).as_str());
            s.append(", expecting ");
            s.append(join(expected, ", ").as_str());
            s
        },
        ParseError::UnrecognizedToken { location, token: None, expected } => {
            let mut s = String::from_str("unexpected end of input found at ");
            s.append(place(*location).as_str());
            s.append(", expecting ");
            s.append(join(expected, ", ").as_str());
            s
        },
        ParseError::ExtraToken { token } => {
            let mut s = String::from_str("extra token ");
            s.append(name_of(&token.token));
            s.append(" found at ");
            s.append(place(token.start).as_str());
            s
        },
        ParseError::User { error } => match error {
            LexError::UnrecognizedChar(at, c) => {
                let mut s = String::from_str("unexpected character ");
                s.push(*c);
                s.append(" found at ");
                s.append(place(*at).as_str());
                assert(s@ =~= diagnostic_spec(e@));
                s
            },
        },
    }
}

/// Whether the error tells of a token that cannot stand where it does, at
/// the place where that token starts, or of the end of the text, at `eot`,
/// and names the tokens that can begin a command or close a group.
pub open spec fn well_placed(e: ParseErrorView, eot: int) -> bool {
    e matches ParseErrorView::UnrecognizedToken { location, token, expected } && location
        == match token {
        Some(t) => t.start,
        None => eot,
    } && (expected == starters(true) || expected == starters(false) || expected == closer(true)
        || expected == closer(false))
}

/// What the grammar's errors are, from a command on: a token, or the end of
/// the text, that cannot stand where it does.
proof fn lemma_command_errors(toks: Seq<SpannedView>, eot: int, i: int, bang: bool)
    ensures
        command_spec(toks, eot, i, bang) matches Err(e) ==> well_placed(e, eot),
    decreases remaining(toks, i), 1int,
{
    if 0 <= i < toks.len() {
        lemma_group_errors(toks, eot, i, true);
        lemma_group_errors(toks, eot, i, false);
    }
}

proof fn lemma_group_errors(toks: Seq<SpannedView>, eot: int, i: int, brace: bool)
    ensures
        group_spec(toks, eot, i, brace) matches Err(e) ==> well_placed(e, eot),
    decreases remaining(toks, i), 0int,
{
    if 0 <= i < toks.len() {
        let inner = i + 1 + linebreak(toks, i + 1);
        lemma_list_errors(toks, eot, inner, Seq::empty());
    }
}

proof fn lemma_pipe_tail_errors(toks: Seq<SpannedView>, eot: int, i: int, left: CommandView)
    ensures
        pipe_tail_spec(toks, eot, i, left) matches Err(e) ==> well_placed(e, eot),
    decreases remaining(toks, i), 2int,
{
    if 0 <= i < toks.len() && toks[i].token is Pipe {
        let at = i + 1 + linebreak(toks, i + 1);
        lemma_command_errors(toks, eot, at, false);
        match command_spec(toks, eot, at, false) {
            Ok((right, n)) => {
                lemma_pipe_tail_errors(
                    toks, eot,
                    at + n,
                    CommandView::Pipeline(Box::new(left), Box::new(right)),
                );
            },
            Err(_) => {},
        }
    }
}

proof fn lemma_pipeline_errors(toks: Seq<SpannedView>, eot: int, i: int)
    ensures
        pipeline_spec(toks, eot, i) matches Err(e) ==> well_placed(e, eot),
    decreases remaining(toks, i), 3int,
{
    if 0 <= i < toks.len() && toks[i].token is Bang {
        lemma_command_errors(toks, eot, i + 1, false);
        match command_spec(toks, eot, i + 1, false) {
            Ok((first, n)) => {
                lemma_pipe_tail_errors(toks, eot, i + 1 + n, first);
            },
            Err(_) => {},
        }
    } else {
        lemma_command_errors(toks, eot, i, true);
        match command_spec(toks, eot, i, true) {
            Ok((first, n)) => {
                lemma_pipe_tail_errors(toks, eot, i + n, first);
            },
            Err(_) => {},
        }
    }
}

proof fn lemma_and_or_tail_errors(toks: Seq<SpannedView>, eot: int, i: int, left: CommandView)
    ensures
        and_or_tail_spec(toks, eot, i, left) matches Err(e) ==> well_placed(e, eot),
    decreases remaining(toks, i), 4int,
{
    if 0 <= i < toks.len() && (toks[i].token is And || toks[i].token is Or) {
        let at = i + 1 + linebreak(toks, i + 1);
        lemma_pipeline_errors(toks, eot, at);
        match pipeline_spec(toks, eot, at) {
            Ok((right, n)) => {
                let joined = if toks[i].token is And {
                    CommandView::And(Box::new(left), Box::new(right))
                } else {
                    CommandView::Or(Box::new(left), Box::new(right))
                };
                lemma_and_or_tail_errors(toks, eot, at + n, joined);
            },
            Err(_) => {},
        }
    }
}

proof fn lemma_and_or_errors(toks: Seq<SpannedView>, eot: int, i: int)
    ensures
        and_or_spec(toks, eot, i) matches Err(e) ==> well_placed(e, eot),
    decreases remaining(toks, i), 5int,
{
    lemma_pipeline_errors(toks, eot, i);
    match pipeline_spec(toks, eot, i) {
        Ok((first, n)) => {
            lemma_and_or_tail_errors(toks, eot, i + n, first);
        },
        Err(_) => {},
    }
}

proof fn lemma_list_errors(toks: Seq<SpannedView>, eot: int, i: int, acc: Seq<CommandView>)
    ensures
        list_spec(toks, eot, i, acc) matches Err(e) ==> well_placed(e, eot),
    decreases remaining(toks, i), 6int,
{
    if 0 <= i < toks.len() && starts_pipeline(toks[i].token) {
        lemma_and_or_errors(toks, eot, i);
        match and_or_spec(toks, eot, i) {
            Ok((c, n)) => {
                let at = i + n;
                match token_at(toks, at) {
                    Some(t) => {
                        if t.token is Semi || t.token is Linefeed || t.token is Amper {
                            let item = if t.token is Amper {
                                CommandView::Background(Box::new(c))
                            } else {
                                c
                            };
                            let next = at + 1 + linebreak(toks, at + 1);
                            lemma_list_errors(toks, eot, next, acc.push(item));
                        }
                    },
                    None => {},
                }
            },
            Err(_) => {},
        }
    }
}

/// The faults of a text, by kind: it has the lexer's error exactly when the
/// lexer fails; else a token that cannot stand where it does, or one that
/// follows a complete program. No text has an invalid token. Every fault
/// has its place: where the end of the text is at fault, the place is the
/// length of the text's UTF-8 form.
pub proof fn law_parse_errors(text: Seq<char>)
    ensures
        parse_spec(text) matches Err(e) ==> {
            &&& !(e is InvalidToken)
            &&& e is UnrecognizedToken ==> well_placed(e, encode_utf8(text).len() as int)
            &&& e is User <==> lex_spec(text) is Err
            &&& e matches ParseErrorView::User { error } ==> lex_spec(text) == Err::<
                Seq<SpannedView>,
                LexError,
            >(error)
        },
        lex_spec(text) is Err ==> parse_spec(text) is Err,
{
    match lex_spec(text) {
        Ok(toks) => {
            let start = linebreak(toks, 0) as int;
            let eot = encode_utf8(text).len() as int;
            lemma_list_errors(toks, eot, start, Seq::empty());
            assert(parse_spec(text) == program_spec(toks, eot));
        },
        Err(_) => {},
    }
}

proof fn lemma_names_one_line(token: TokenView)
    ensures
        one_line(token_name(token)),
        forall|i: int| 0 <= i < starters(true).len() ==> one_line(#[trigger] starters(true)[i]),
        forall|i: int| 0 <= i < starters(false).len() ==> one_line(#[trigger] starters(false)[i]),
        forall|i: int| 0 <= i < closer(true).len() ==> one_line(#[trigger] closer(true)[i]),
        forall|i: int| 0 <= i < closer(false).len() ==> one_line(#[trigger] closer(false)[i]),
{
    reveal_strlit("WORD");
    reveal_strlit("SHEBANG");
    reveal_strlit("LINEFEED");
    reveal_strlit(";");
    reveal_strlit("&");
    reveal_strlit("&&");
    reveal_strlit("|");
    reveal_strlit("||");
    reveal_strlit("!");
    reveal_strlit("(");
    reveal_strlit(")");
    reveal_strlit("{");
    reveal_strlit("}");
}

/// The message for a token at fault, or for the end of the text, is one
/// line.
proof fn lemma_unrecognized_one_line(e: ParseErrorView, eot: int)
    requires
        well_placed(e, eot),
    ensures
        one_line(diagnostic_spec(e)),
{
    reveal_strlit("unexpected token ");
    reveal_strlit(" found at ");
    reveal_strlit(", expecting ");
    reveal_strlit("unexpected end of input found at ");
    reveal_strlit(", ");
    match e {
        ParseErrorView::UnrecognizedToken { location, token, expected } => {
            let place = decimal(location as nat);
            let list = join_by(expected, ", "@);
            lemma_decimal_one_line(location as nat);
            match token {
                Some(t) => {
                    lemma_names_one_line(t.token);
                    lemma_join_one_line(expected, ", "@);
                    let a = "unexpected token "@ + token_name(t.token);
                    lemma_one_line_concat("unexpected token "@, token_name(t.token));
                    lemma_one_line_concat(a, " found at "@);
                    lemma_one_line_concat(a + " found at "@, place);
                    lemma_one_line_concat(a + " found at "@ + place, ", expecting "@);
                    lemma_one_line_concat(a + " found at "@ + place + ", expecting "@, list);
                },
                None => {
                    lemma_names_one_line(TokenView::Semi);
                    lemma_join_one_line(expected, ", "@);
                    let a = "unexpected end of input found at "@ + place;
                    lemma_one_line_concat("unexpected end of input found at "@, place);
                    lemma_one_line_concat(a, ", expecting "@);
                    lemma_one_line_concat(a + ", expecting "@, list);
                },
            }
        },
        _ => {},
    }
}

/// The message for any fault of a text is one line.
pub proof fn law_diagnostic_is_one_line(text: Seq<char>)
    requires
        parse_spec(text) is Err,
    ensures
        one_line(diagnostic_spec(parse_spec(text)->Err_0)),
{
    let e = parse_spec(text)->Err_0;
    let eot = encode_utf8(text).len() as int;
    law_parse_errors(text);
    match e {
        ParseErrorView::UnrecognizedToken { .. } => {
            lemma_unrecognized_one_line(e, eot);
        },
        ParseErrorView::ExtraToken { token } => {
            reveal_strlit("extra token ");
            reveal_strlit(" found at ");
            lemma_names_one_line(token.token);
            lemma_decimal_one_line(token.start as nat);
            let a = "extra token "@ + token_name(token.token);
            lemma_one_line_concat("extra token "@, token_name(token.token));
            lemma_one_line_concat(a, " found at "@);
            lemma_one_line_concat(a + " found at "@, decimal(token.start as nat));
        },
        ParseErrorView::User { error: LexError::UnrecognizedChar(at, c) } => {
            reveal_strlit("unexpected character ");
            reveal_strlit(" found at ");
            law_lex_error_is_no_line_end(text);
            lemma_decimal_one_line(at as nat);
            let a = "unexpected character "@ + seq![c];
            lemma_one_line_concat("unexpected character "@, seq![c]);
            lemma_one_line_concat(a, " found at "@);
            lemma_one_line_concat(a + " found at "@, decimal(at as nat));
        },
        ParseErrorView::InvalidToken { .. } => {},
    }
}

} // verus!
