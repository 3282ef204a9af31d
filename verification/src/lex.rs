//! The lexer: from source text to tokens with their places.
//!
//! Places are byte offsets into the text's UTF-8 form. Blanks separate
//! tokens; `#` at the start of a token begins a comment that runs to the end
//! of the line. A word is a run of plain characters and quoted parts; single
//! and double quotes both keep what they enclose as it stands. `!` is an
//! operator where it stands alone, and an ordinary character of a word
//! otherwise. `{#!name;text}` is a shebang block.

use crate::text::chars_of;
use vstd::prelude::*;
use vstd::utf8::{encode_scalar, encode_utf8};

verus! {

/// `String::push` appends the character to the end of the string.
pub assume_specification[ String::push ](s: &mut String, ch: char)
    ensures
        final(s)@ == old(s)@.push(ch),
;

/// A token of the shell language.
#[derive(Debug, PartialEq, Eq)]
pub enum Token {
    /// A word, with its quotes taken off.
    Word(String),
    /// A shebang block: the interpreter's name and the text for it.
    Shebang(String, String),
    /// The end of a line.
    Linefeed,
    /// `;`
    Semi,
    /// `&`
    Amper,
    /// `&&`
    And,
    /// `|`
    Pipe,
    /// `||`
    Or,
    /// `!`
    Bang,
    /// `(`
    LParen,
    /// `)`
    RParen,
    /// `{`
    LBrace,
    /// `}`
    RBrace,
}

/// The mathematical value of a [`Token`].
pub enum TokenView {
    Word(Seq<char>),
    Shebang(Seq<char>, Seq<char>),
    Linefeed,
    Semi,
    Amper,
    And,
    Pipe,
    Or,
    Bang,
    LParen,
    RParen,
    LBrace,
    RBrace,
}

impl View for Token {
    type V = TokenView;

    open spec fn view(&self) -> TokenView {
        match self {
            Token::Word(text) => TokenView::Word(text@),
            Token::Shebang(name, text) => TokenView::Shebang(name@, text@),
            Token::Linefeed => TokenView::Linefeed,
            Token::Semi => TokenView::Semi,
            Token::Amper => TokenView::Amper,
            Token::And => TokenView::And,
            Token::Pipe => TokenView::Pipe,
            Token::Or => TokenView::Or,
            Token::Bang => TokenView::Bang,
            Token::LParen => TokenView::LParen,
            Token::RParen => TokenView::RParen,
            Token::LBrace => TokenView::LBrace,
            Token::RBrace => TokenView::RBrace,
        }
    }
}

impl Token {
    /// A copy of the token.
    pub fn duplicate(&self) -> (t: Token)
        ensures
            t@ == self@,
    {
        match self {
            Token::Word(text) => Token::Word(text.clone()),
            Token::Shebang(name, text) => Token::Shebang(name.clone(), text.clone()),
            Token::Linefeed => Token::Linefeed,
            Token::Semi => Token::Semi,
            Token::Amper => Token::Amper,
            Token::And => Token::And,
            Token::Pipe => Token::Pipe,
            Token::Or => Token::Or,
            Token::Bang => Token::Bang,
            Token::LParen => Token::LParen,
            Token::RParen => Token::RParen,
            Token::LBrace => Token::LBrace,
            Token::RBrace => Token::RBrace,
        }
    }
}

/// A token with the places where it starts and where it ends.
#[derive(Debug, PartialEq, Eq)]
pub struct Spanned {
    pub start: usize,
    pub token: Token,
    pub end: usize,
}

/// The mathematical value of a [`Spanned`].
pub struct SpannedView {
    pub start: int,
    pub token: TokenView,
    pub end: int,
}

impl View for Spanned {
    type V = SpannedView;

    open spec fn view(&self) -> SpannedView {
        SpannedView { start: self.start as int, token: self.token@, end: self.end as int }
    }
}

/// The views of a list of tokens, in order.
pub open spec fn view_tokens(tokens: Seq<Spanned>) -> Seq<SpannedView> {
    Seq::new(tokens.len(), |i: int| tokens[i]@)
}

/// Why a text has no tokens.
#[derive(Clone, Copy, Debug, PartialEq, Eq, Structural)]
pub enum LexError {
    /// The character at the place cannot stand there: one that the language
    /// has no use for, or the opening of a quote or block that is not
    /// closed.
    UnrecognizedChar(usize, char),
}

/// Space, tab and carriage return.
pub open spec fn is_blank(c: char) -> bool {
    c == ' ' || c == '\t' || c == '\r'
}

/// The operator characters that end a word.
pub open spec fn is_operator(c: char) -> bool {
    c == ';' || c == '&' || c == '|' || c == '(' || c == ')' || c == '{' || c == '}'
}

/// The characters that end a word.
pub open spec fn is_delimiter(c: char) -> bool {
    is_blank(c) || c == '\n' || is_operator(c)
}

/// The characters that the language has no use for: control characters
/// other than tab, line feed and carriage return, and `<`, `>` and the
/// backquote.
pub open spec fn is_unrecognized(c: char) -> bool {
    ((c as u32) < 32 && c != '\t' && c != '\n' && c != '\r') || c as u32 == 127 || c == '<' || c
        == '>' || c == '`'
}

/// A quote character.
pub open spec fn is_quote(c: char) -> bool {
    c == '\'' || c == '"'
}

/// The byte offset of the character at place `i` of `s`: the length of the
/// UTF-8 form of the characters before it.
pub open spec fn offset(s: Seq<char>, i: int) -> int {
    encode_utf8(s.take(i)).len() as int
}

/// What the lexer is in the middle of. The places in it are byte offsets.
pub enum LexStateView {
    /// Between tokens.
    Start,
    /// In a comment.
    Comment,
    /// In a word that began at the place, with the text gathered so far.
    Word(int, Seq<char>),
    /// In a quoted part of such a word; the quote was opened at the second
    /// place by the character.
    Quote(int, Seq<char>, int, char),
    /// In the name of a shebang block that began at the place.
    Name(int, Seq<char>),
    /// In the text of a shebang block that began at the place.
    Text(int, Seq<char>, Seq<char>),
}

/// Orders the states that can follow one another without a character being
/// consumed.
pub open spec fn rank(state: LexStateView) -> nat {
    match state {
        LexStateView::Start => 0,
        _ => 1,
    }
}

/// The token of a single operator character.
pub open spec fn operator_token(c: char) -> TokenView {
    if c == ';' {
        TokenView::Semi
    } else if c == '(' {
        TokenView::LParen
    } else if c == ')' {
        TokenView::RParen
    } else if c == '{' {
        TokenView::LBrace
    } else if c == '}' {
        TokenView::RBrace
    } else if c == '&' {
        TokenView::Amper
    } else {
        TokenView::Pipe
    }
}

/// Whether a shebang block opens at place `i`.
pub open spec fn opens_block(s: Seq<char>, i: int) -> bool {
    i + 2 < s.len() && s[i] == '{' && s[i + 1] == '#' && s[i + 2] == '!'
}

/// Whether `!` at place `i` stands alone.
pub open spec fn bang_alone(s: Seq<char>, i: int) -> bool {
    i + 1 >= s.len() || is_delimiter(s[i + 1])
}

/// The tokens of `s` from place `i` on, after the tokens `acc`, when the
/// lexer is in `state`.
pub open spec fn lex_from(
    s: Seq<char>,
    i: int,
    acc: Seq<SpannedView>,
    state: LexStateView,
) -> Result<Seq<SpannedView>, LexError>
    decreases s.len() - i, rank(state),
{
    if i < 0 || i > s.len() {
        Ok(acc)
    } else {
        match state {
            LexStateView::Start => if i >= s.len() {
                Ok(acc)
            } else {
                let c = s[i];
                if is_blank(c) {
                    lex_from(s, i + 1, acc, LexStateView::Start)
                } else if c == '#' {
                    lex_from(s, i + 1, acc, LexStateView::Comment)
                } else if c == '\n' {
                    lex_from(
                        s,
                        i + 1,
                        acc.push(SpannedView {
                            start: offset(s, i),
                            token: TokenView::Linefeed,
                            end: offset(s, i + 1),
                        }),
                        LexStateView::Start,
                    )
                } else if opens_block(s, i) {
                    lex_from(s, i + 3, acc, LexStateView::Name(offset(s, i), Seq::empty()))
                } else if (c == '&' || c == '|') && i + 1 < s.len() && s[i + 1] == c {
                    lex_from(
                        s,
                        i + 2,
                        acc.push(
                            SpannedView {
                                start: offset(s, i),
                                token: if c == '&' {
                                    TokenView::And
                                } else {
                                    TokenView::Or
                                },
                                end: offset(s, i + 2),
                            },
                        ),
                        LexStateView::Start,
                    )
                } else if is_operator(c) {
                    lex_from(
                        s,
                        i + 1,
                        acc.push(SpannedView {
                            start: offset(s, i),
                            token: operator_token(c),
                            end: offset(s, i + 1),
                        }),
                        LexStateView::Start,
                    )
                } else if c == '!' && bang_alone(s, i) {
                    lex_from(
                        s,
                        i + 1,
                        acc.push(SpannedView {
                            start: offset(s, i),
                            token: TokenView::Bang,
                            end: offset(s, i + 1),
                        }),
                        LexStateView::Start,
                    )
                } else if is_quote(c) {
                    lex_from(s, i + 1, acc, LexStateView::Quote(offset(s, i), Seq::empty(), offset(s, i), c))
                } else if is_unrecognized(c) {
                    Err(LexError::UnrecognizedChar(offset(s, i) as usize, c))
                } else {
                    lex_from(s, i + 1, acc, LexStateView::Word(offset(s, i), seq![c]))
                }
            },
            LexStateView::Comment => if i >= s.len() {
                Ok(acc)
            } else if s[i] == '\n' {
                lex_from(s, i, acc, LexStateView::Start)
            } else {
                lex_from(s, i + 1, acc, LexStateView::Comment)
            },
            LexStateView::Word(start, text) => {
                let word = SpannedView { start, token: TokenView::Word(text), end: offset(s, i) };
                if i >= s.len() {
                    Ok(acc.push(word))
                } else {
                    let c = s[i];
                    if is_delimiter(c) {
                        lex_from(s, i, acc.push(word), LexStateView::Start)
                    } else if is_quote(c) {
                        lex_from(s, i + 1, acc, LexStateView::Quote(start, text, offset(s, i), c))
                    } else if is_unrecognized(c) {
                        Err(LexError::UnrecognizedChar(offset(s, i) as usize, c))
                    } else {
                        lex_from(s, i + 1, acc, LexStateView::Word(start, text.push(c)))
                    }
                }
            },
            LexStateView::Quote(start, text, open, quote) => if i >= s.len() {
                Err(LexError::UnrecognizedChar(open as usize, quote))
            } else if s[i] == quote {
                lex_from(s, i + 1, acc, LexStateView::Word(start, text))
            } else {
                lex_from(s, i + 1, acc, LexStateView::Quote(start, text.push(s[i]), open, quote))
            },
            LexStateView::Name(start, name) => if i >= s.len() || s[i] == '\n' || s[i] == '}' {
                Err(LexError::UnrecognizedChar(start as usize, '{'))
            } else if s[i] == ';' {
                lex_from(s, i + 1, acc, LexStateView::Text(start, name, Seq::empty()))
            } else {
                lex_from(s, i + 1, acc, LexStateView::Name(start, name.push(s[i])))
            },
            LexStateView::Text(start, name, text) => if i >= s.len() {
                Err(LexError::UnrecognizedChar(start as usize, '{'))
            } else if s[i] == '}' {
                lex_from(
                    s,
                    i + 1,
                    acc.push(
                        SpannedView {
                            start,
                            token: TokenView::Shebang(name, text),
                            end: offset(s, i + 1),
                        },
                    ),
                    LexStateView::Start,
                )
            } else {
                lex_from(s, i + 1, acc, LexStateView::Text(start, name, text.push(s[i])))
            },
        }
    }
}

/// The tokens of a text, or the first character that cannot stand where it
/// does.
pub open spec fn lex_spec(s: Seq<char>) -> Result<Seq<SpannedView>, LexError> {
    lex_from(s, 0, Seq::empty(), LexStateView::Start)
}

enum LexState {
    Start,
    Comment,
    Word(usize, String),
    Quote(usize, String, usize, char),
    Name(usize, String),
    Text(usize, String, String),
}

impl View for LexState {
    type V = LexStateView;

    closed spec fn view(&self) -> LexStateView {
        match self {
            LexState::Start => LexStateView::Start,
            LexState::Comment => LexStateView::Comment,
            LexState::Word(start, text) => LexStateView::Word(*start as int, text@),
            LexState::Quote(start, text, open, quote) => LexStateView::Quote(
                *start as int,
                text@,
                *open as int,
                *quote,
            ),
            LexState::Name(start, name) => LexStateView::Name(*start as int, name@),
            LexState::Text(start, name, text) => LexStateView::Text(*start as int, name@, text@),
        }
    }
}

/// The number of bytes that the character takes in UTF-8.
pub open spec fn width(c: char) -> int {
    encode_scalar(c as u32).len() as int
}

proof fn lemma_encode_concat(a: Seq<char>, b: Seq<char>)
    ensures
        encode_utf8(a + b) == encode_utf8(a) + encode_utf8(b),
    decreases a.len(),
{
    if a.len() == 0 {
        assert(a + b =~= b);
        assert(encode_utf8(a) + encode_utf8(b) =~= encode_utf8(b));
    } else {
        assert((a + b).drop_first() =~= a.drop_first() + b);
        assert((a + b)[0] == a[0]);
        lemma_encode_concat(a.drop_first(), b);
        assert(encode_utf8(a + b) =~= encode_utf8(a) + encode_utf8(b));
    }
}

/// The place after a character lies further on by the character's width.
proof fn lemma_offset_step(s: Seq<char>, i: int)
    requires
        0 <= i < s.len(),
    ensures
        offset(s, i + 1) == offset(s, i) + width(s[i]),
        1 <= width(s[i]) <= 4,
{
    let one = seq![s[i]];
    assert(s.take(i + 1) =~= s.take(i) + one);
    lemma_encode_concat(s.take(i), one);
    assert(one.drop_first() =~= Seq::<char>::empty());
    assert(encode_utf8(one.drop_first()) =~= Seq::<u8>::empty());
    assert(encode_utf8(one) =~= encode_scalar(s[i] as u32));
}

/// No place lies beyond the end of the text.
proof fn lemma_offset_bound(s: Seq<char>, i: int)
    requires
        0 <= i <= s.len(),
    ensures
        offset(s, i) <= offset(s, s.len() as int),
        offset(s, s.len() as int) == encode_utf8(s).len(),
        offset(s, 0) == 0,
{
    assert(s.take(i) + s.skip(i) =~= s);
    lemma_encode_concat(s.take(i), s.skip(i));
    assert(s.take(s.len() as int) =~= s);
    assert(s.take(0) =~= Seq::<char>::empty());
}

fn wide(c: char) -> (w: usize)
    ensures
        w == width(c),
        1 <= w <= 4,
{
    broadcast use vstd::utf8::char_is_scalar;

    let code = c as u32;
    if code < 0x80 {
        1
    } else if code < 0x800 {
        2
    } else if code < 0x10000 {
        3
    } else {
        4
    }
}

fn past(chars: &Vec<char>, i: usize, at: usize, total: usize) -> (next: usize)
    requires
        i < chars@.len(),
        at == offset(chars@, i as int),
        total == offset(chars@, chars@.len() as int),
    ensures
        next == offset(chars@, i + 1),
        at < next <= total,
{
    proof {
        lemma_offset_step(chars@, i as int);
        lemma_offset_bound(chars@, i + 1);
    }
    at + wide(chars[i])
}

fn blank(c: char) -> (b: bool)
    ensures
        b == is_blank(c),
{
    c == ' ' || c == '\t' || c == '\r'
}

fn operator(c: char) -> (b: bool)
    ensures
        b == is_operator(c),
{
    c == ';' || c == '&' || c == '|' || c == '(' || c == ')' || c == '{' || c == '}'
}

fn delimiter(c: char) -> (b: bool)
    ensures
        b == is_delimiter(c),
{
    blank(c) || c == '\n' || operator(c)
}

fn unrecognized(c: char) -> (b: bool)
    ensures
        b == is_unrecognized(c),
{
    let code = c as u32;
    (code < 32 && c != '\t' && c != '\n' && c != '\r') || code == 127 || c == '<' || c == '>' || c
        == '`'
}

fn quote(c: char) -> (b: bool)
    ensures
        b == is_quote(c),
{
    c == '\'' || c == '"'
}

fn operator_of(c: char) -> (t: Token)
    requires
        is_operator(c),
    ensures
        t@ == operator_token(c),
{
    if c == ';' {
        Token::Semi
    } else if c == '(' {
        Token::LParen
    } else if c == ')' {
        Token::RParen
    } else if c == '{' {
        Token::LBrace
    } else if c == '}' {
        Token::RBrace
    } else if c == '&' {
        Token::Amper
    } else {
        Token::Pipe
    }
}

fn emit(acc: &mut Vec<Spanned>, start: usize, token: Token, end: usize)
    ensures
        view_tokens(final(acc)@) == view_tokens(old(acc)@).push(
            SpannedView { start: start as int, token: token@, end: end as int },
        ),
{
    let ghost before = acc@;
    acc.push(Spanned { start, token, end });
    assert(view_tokens(acc@) =~= view_tokens(before).push(
        SpannedView { start: start as int, token: token@, end: end as int },
    ));
}

/// Splits a text into tokens.
///
/// Gives the tokens in the order of the text, each with its place, or the
/// first character that cannot stand where it does. No text makes the lexer
/// fail in any other way.
pub fn lex(text: &str) -> (r: Result<Vec<Spanned>, LexError>)
    ensures
        match r {
            Ok(tokens) => lex_spec(text@) == Ok::<Seq<SpannedView>, LexError>(
                view_tokens(tokens@),
            ),
            Err(e) => lex_spec(text@) == Err::<Seq<SpannedView>, LexError>(e),
        },
{
    let chars = chars_of(text);
    let n = chars.len();
    let total = text.as_bytes().len();
    let mut acc: Vec<Spanned> = Vec::new();
    let mut state = LexState::Start;
    let mut i: usize = 0;
    let mut at: usize = 0;
    assert(view_tokens(acc@) =~= Seq::empty());
    proof {
        lemma_offset_bound(text@, 0);
    }
    loop
        invariant
            i <= n,
            n == chars@.len(),
            chars@ == text@,
            at == offset(text@, i as int),
            total == offset(text@, n as int),
            lex_from(text@, i as int, view_tokens(acc@), state@) == lex_spec(text@),
        decreases n - i, rank(state@),
    {
        let current = state;
        match current {
            LexState::Start => {
                if i >= n {
                    return Ok(acc);
                }
                let c = chars[i];
                let next = past(&chars, i, at, total);
                if blank(c) {
                    state = LexState::Start;
                    i = i + 1;
                    at = next;
                } else if c == '#' {
                    state = LexState::Comment;
                    i = i + 1;
                    at = next;
                } else if c == '\n' {
                    emit(&mut acc, at, Token::Linefeed, next);
                    state = LexState::Start;
                    i = i + 1;
                    at = next;
                } else if n - i > 2 && c == '{' && chars[i + 1] == '#' && chars[i + 2] == '!' {
                    let second = past(&chars, i + 1, next, total);
                    let third = past(&chars, i + 2, second, total);
                    state = LexState::Name(at, String::new());
                    i = i + 3;
                    at = third;
                } else if (c == '&' || c == '|') && n - i > 1 && chars[i + 1] == c {
                    let second = past(&chars, i + 1, next, total);
                    let token = if c == '&' {
                        Token::And
                    } else {
                        Token::Or
                    };
                    emit(&mut acc, at, token, second);
                    state = LexState::Start;
                    i = i + 2;
                    at = second;
                } else if operator(c) {
                    emit(&mut acc, at, operator_of(c), next);
                    state = LexState::Start;
                    i = i + 1;
                    at = next;
                } else if c == '!' && (n - i <= 1 || delimiter(chars[i + 1])) {
                    emit(&mut acc, at, Token::Bang, next);
                    state = LexState::Start;
                    i = i + 1;
                    at = next;
                } else if quote(c) {
                    state = LexState::Quote(at, String::new(), at, c);
                    i = i + 1;
                    at = next;
                } else if unrecognized(c) {
                    return Err(LexError::UnrecognizedChar(at, c));
                } else {
                    let mut word = String::new();
                    word.push(c);
                    assert(word@ =~= seq![c]);
                    state = LexState::Word(at, word);
                    i = i + 1;
                    at = next;
                }
            },
            LexState::Comment => {
                if i >= n {
                    return Ok(acc);
                }
                if chars[i] == '\n' {
                    state = LexState::Start;
                } else {
                    state = LexState::Comment;
                    at = past(&chars, i, at, total);
                    i = i + 1;
                }
            },
            LexState::Word(start, text_so_far) => {
                if i >= n {
                    emit(&mut acc, start, Token::Word(text_so_far), at);
                    return Ok(acc);
                }
                let c = chars[i];
                if delimiter(c) {
                    emit(&mut acc, start, Token::Word(text_so_far), at);
                    state = LexState::Start;
                } else if quote(c) {
                    state = LexState::Quote(start, text_so_far, at, c);
                    at = past(&chars, i, at, total);
                    i = i + 1;
                } else if unrecognized(c) {
                    return Err(LexError::UnrecognizedChar(at, c));
                } else {
                    let mut word = text_so_far;
                    word.push(c);
                    state = LexState::Word(start, word);
                    at = past(&chars, i, at, total);
                    i = i + 1;
                }
            },
            LexState::Quote(start, text_so_far, open, q) => {
                if i >= n {
                    return Err(LexError::UnrecognizedChar(open, q));
                }
                if chars[i] == q {
                    state = LexState::Word(start, text_so_far);
                } else {
                    let mut word = text_so_far;
                    word.push(chars[i]);
                    state = LexState::Quote(start, word, open, q);
                }
                at = past(&chars, i, at, total);
                i = i + 1;
            },
            LexState::Name(start, name_so_far) => {
                if i >= n || chars[i] == '\n' || chars[i] == '}' {
                    return Err(LexError::UnrecognizedChar(start, '{'));
                }
                if chars[i] == ';' {
                    state = LexState::Text(start, name_so_far, String::new());
                } else {
                    let mut name = name_so_far;
                    name.push(chars[i]);
                    state = LexState::Name(start, name);
                }
                at = past(&chars, i, at, total);
                i = i + 1;
            },
            LexState::Text(start, name, text_so_far) => {
                if i >= n {
                    return Err(LexError::UnrecognizedChar(start, '{'));
                }
                let next = past(&chars, i, at, total);
                if chars[i] == '}' {
                    emit(&mut acc, start, Token::Shebang(name, text_so_far), next);
                    state = LexState::Start;
                } else {
                    let mut block = text_so_far;
                    block.push(chars[i]);
                    state = LexState::Text(start, name, block);
                }
                at = next;
                i = i + 1;
            },
        }
    }
}

/// Whether the lexer can be in the state: a quote is open only by a quote
/// character.
spec fn reachable(state: LexStateView) -> bool {
    state matches LexStateView::Quote(_, _, _, quote) ==> is_quote(quote)
}

proof fn lemma_error_char(s: Seq<char>, i: int, acc: Seq<SpannedView>, state: LexStateView)
    requires
        reachable(state),
    ensures
        lex_from(s, i, acc, state) matches Err(LexError::UnrecognizedChar(_, c)) ==> c != '\n',
    decreases s.len() - i, rank(state),
{
    if 0 <= i <= s.len() {
        match state {
            LexStateView::Start => {
                if i < s.len() {
                    let c = s[i];
                    if is_blank(c) {
                        lemma_error_char(s, i + 1, acc, LexStateView::Start);
                    } else if c == '#' {
                        lemma_error_char(s, i + 1, acc, LexStateView::Comment);
                    } else if c == '\n' {
                        lemma_error_char(
                            s,
                            i + 1,
                            acc.push(
                                SpannedView {
                                    start: offset(s, i),
                                    token: TokenView::Linefeed,
                                    end: offset(s, i + 1),
                                },
                            ),
                            LexStateView::Start,
                        );
                    } else if opens_block(s, i) {
                        lemma_error_char(s, i + 3, acc, LexStateView::Name(offset(s, i), Seq::empty()));
                    } else if (c == '&' || c == '|') && i + 1 < s.len() && s[i + 1] == c {
                        lemma_error_char(
                            s,
                            i + 2,
                            acc.push(
                                SpannedView {
                                    start: offset(s, i),
                                    token: if c == '&' {
                                        TokenView::And
                                    } else {
                                        TokenView::Or
                                    },
                                    end: offset(s, i + 2),
                                },
                            ),
                            LexStateView::Start,
                        );
                    } else if is_operator(c) {
                        lemma_error_char(
                            s,
                            i + 1,
                            acc.push(
                                SpannedView {
                                    start: offset(s, i),
                                    token: operator_token(c),
                                    end: offset(s, i + 1),
                                },
                            ),
                            LexStateView::Start,
                        );
                    } else if c == '!' && bang_alone(s, i) {
                        lemma_error_char(
                            s,
                            i + 1,
                            acc.push(
                                SpannedView {
                                    start: offset(s, i),
                                    token: TokenView::Bang,
                                    end: offset(s, i + 1),
                                },
                            ),
                            LexStateView::Start,
                        );
                    } else if is_quote(c) {
                        lemma_error_char(
                            s,
                            i + 1,
                            acc,
                            LexStateView::Quote(offset(s, i), Seq::empty(), offset(s, i), c),
                        );
                    } else if !is_unrecognized(c) {
                        lemma_error_char(s, i + 1, acc, LexStateView::Word(offset(s, i), seq![c]));
                    }
                }
            },
            LexStateView::Comment => {
                if i < s.len() {
                    if s[i] == '\n' {
                        lemma_error_char(s, i, acc, LexStateView::Start);
                    } else {
                        lemma_error_char(s, i + 1, acc, LexStateView::Comment);
                    }
                }
            },
            LexStateView::Word(start, text) => {
                let word = SpannedView { start, token: TokenView::Word(text), end: offset(s, i) };
                if i < s.len() {
                    let c = s[i];
                    if is_delimiter(c) {
                        lemma_error_char(s, i, acc.push(word), LexStateView::Start);
                    } else if is_quote(c) {
                        lemma_error_char(
                            s,
                            i + 1,
                            acc,
                            LexStateView::Quote(start, text, offset(s, i), c),
                        );
                    } else if !is_unrecognized(c) {
                        lemma_error_char(s, i + 1, acc, LexStateView::Word(start, text.push(c)));
                    }
                }
            },
            LexStateView::Quote(start, text, open, quote) => {
                if i < s.len() {
                    if s[i] == quote {
                        lemma_error_char(s, i + 1, acc, LexStateView::Word(start, text));
                    } else {
                        lemma_error_char(
                            s,
                            i + 1,
                            acc,
                            LexStateView::Quote(start, text.push(s[i]), open, quote),
                        );
                    }
                }
            },
            LexStateView::Name(start, name) => {
                if !(i >= s.len() || s[i] == '\n' || s[i] == '}') {
                    if s[i] == ';' {
                        lemma_error_char(s, i + 1, acc, LexStateView::Text(start, name, Seq::empty()));
                    } else {
                        lemma_error_char(s, i + 1, acc, LexStateView::Name(start, name.push(s[i])));
                    }
                }
            },
            LexStateView::Text(start, name, text) => {
                if i < s.len() {
                    if s[i] == '}' {
                        lemma_error_char(
                            s,
                            i + 1,
                            acc.push(
                                SpannedView {
                                    start,
                                    token: TokenView::Shebang(name, text),
                                    end: offset(s, i + 1),
                                },
                            ),
                            LexStateView::Start,
                        );
                    } else {
                        lemma_error_char(
                            s,
                            i + 1,
                            acc,
                            LexStateView::Text(start, name, text.push(s[i])),
                        );
                    }
                }
            },
        }
    }
}

/// The character that the lexer finds fault with is never a line end.
pub proof fn law_lex_error_is_no_line_end(text: Seq<char>)
    ensures
        lex_spec(text) matches Err(LexError::UnrecognizedChar(_, c)) ==> c != '\n',
{
    lemma_error_char(text, 0, Seq::empty(), LexStateView::Start);
}

} // verus!
