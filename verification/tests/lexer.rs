use oursh::lex::{lex, LexError, Spanned, Token};

fn word(text: &str) -> Token {
    Token::Word(String::from(text))
}

fn tokens(text: &str) -> Vec<Token> {
    lex(text).unwrap().into_iter().map(|s| s.token).collect()
}

fn spanned(start: usize, token: Token, end: usize) -> Spanned {
    Spanned { start, token, end }
}

#[test]
fn empty_text_has_no_tokens() {
    assert_eq!(lex(""), Ok(vec![]));
    assert_eq!(lex("  \t \r "), Ok(vec![]));
}

#[test]
fn words_are_separated_by_blanks() {
    assert_eq!(
        lex("ls  -l\tdir"),
        Ok(vec![
            spanned(0, word("ls"), 2),
            spanned(4, word("-l"), 6),
            spanned(7, word("dir"), 10),
        ])
    );
}

#[test]
fn operators_are_tokens_of_their_own() {
    assert_eq!(
        tokens("a;b&c&&d|e||f(g){h}"),
        vec![
            word("a"),
            Token::Semi,
            word("b"),
            Token::Amper,
            word("c"),
            Token::And,
            word("d"),
            Token::Pipe,
            word("e"),
            Token::Or,
            word("f"),
            Token::LParen,
            word("g"),
            Token::RParen,
            Token::LBrace,
            word("h"),
            Token::RBrace,
        ]
    );
}

#[test]
fn double_operators_span_two_places() {
    assert_eq!(
        lex("&& || & |"),
        Ok(vec![
            spanned(0, Token::And, 2),
            spanned(3, Token::Or, 5),
            spanned(6, Token::Amper, 7),
            spanned(8, Token::Pipe, 9),
        ])
    );
    assert_eq!(tokens("&&&"), vec![Token::And, Token::Amper]);
    assert_eq!(tokens("|||"), vec![Token::Or, Token::Pipe]);
}

#[test]
fn line_ends_are_tokens() {
    assert_eq!(
        lex("a\n\nb"),
        Ok(vec![
            spanned(0, word("a"), 1),
            spanned(1, Token::Linefeed, 2),
            spanned(2, Token::Linefeed, 3),
            spanned(3, word("b"), 4),
        ])
    );
}

#[test]
fn comments_run_to_the_end_of_the_line() {
    assert_eq!(tokens("a # b ; c\nd"), vec![word("a"), Token::Linefeed, word("d")]);
    assert_eq!(tokens("# only a comment"), vec![]);
    assert_eq!(tokens("a#b"), vec![word("a#b")]);
}

#[test]
fn quotes_keep_what_they_enclose() {
    assert_eq!(tokens("'a b'"), vec![word("a b")]);
    assert_eq!(tokens("\"a;b|c\""), vec![word("a;b|c")]);
    assert_eq!(tokens("a'b c'\"d e\"f"), vec![word("ab cd ef")]);
    assert_eq!(tokens("''"), vec![word("")]);
    assert_eq!(tokens("'\"'"), vec![word("\"")]);
    assert_eq!(tokens("\"it's\""), vec![word("it's")]);
    assert_eq!(tokens("'two\nlines'"), vec![word("two\nlines")]);
    assert_eq!(lex("'a b' c"), Ok(vec![spanned(0, word("a b"), 5), spanned(6, word("c"), 7)]));
}

#[test]
fn unterminated_quote_is_reported_at_its_opening() {
    assert_eq!(lex("echo 'abc"), Err(LexError::UnrecognizedChar(5, '\'')));
    assert_eq!(lex("echo ab\"c d"), Err(LexError::UnrecognizedChar(7, '"')));
    assert_eq!(lex("\""), Err(LexError::UnrecognizedChar(0, '"')));
}

#[test]
fn characters_without_use_are_reported_where_they_stand() {
    assert_eq!(lex("ls > out"), Err(LexError::UnrecognizedChar(3, '>')));
    assert_eq!(lex("cat <in"), Err(LexError::UnrecognizedChar(4, '<')));
    assert_eq!(lex("a`b`"), Err(LexError::UnrecognizedChar(1, '`')));
    assert_eq!(lex("a\u{0}b"), Err(LexError::UnrecognizedChar(1, '\u{0}')));
    assert_eq!(lex("\u{7f}"), Err(LexError::UnrecognizedChar(0, '\u{7f}')));
    assert_eq!(lex("ok\n\u{1b}"), Err(LexError::UnrecognizedChar(3, '\u{1b}')));
}

#[test]
fn first_fault_is_the_one_reported() {
    assert_eq!(lex("a < b 'c"), Err(LexError::UnrecognizedChar(2, '<')));
    assert_eq!(lex("a 'b < c"), Err(LexError::UnrecognizedChar(2, '\'')));
}

#[test]
fn places_are_byte_offsets() {
    // 'é' takes two bytes, '日' three, '🦀' four.
    assert_eq!(
        lex("é 日本 🦀;x"),
        Ok(vec![
            spanned(0, word("é"), 2),
            spanned(3, word("日本"), 9),
            spanned(10, word("🦀"), 14),
            spanned(14, Token::Semi, 15),
            spanned(15, word("x"), 16),
        ])
    );
    assert_eq!(lex("日本 >"), Err(LexError::UnrecognizedChar(7, '>')));
    assert_eq!(lex("é'"), Err(LexError::UnrecognizedChar(2, '\'')));
}

#[test]
fn bang_is_an_operator_only_where_it_stands_alone() {
    assert_eq!(tokens("! a"), vec![Token::Bang, word("a")]);
    assert_eq!(tokens("!"), vec![Token::Bang]);
    assert_eq!(tokens("!\na"), vec![Token::Bang, Token::Linefeed, word("a")]);
    assert_eq!(tokens("!(a)"), vec![Token::Bang, Token::LParen, word("a"), Token::RParen]);
    assert_eq!(tokens("!a"), vec![word("!a")]);
    assert_eq!(tokens("a!"), vec![word("a!")]);
    assert_eq!(tokens("a ! b"), vec![word("a"), Token::Bang, word("b")]);
    assert_eq!(tokens("!!"), vec![word("!!")]);
}

#[test]
fn shebang_block_is_one_token() {
    assert_eq!(
        lex("{#!ruby; puts 1}"),
        Ok(vec![spanned(
            0,
            Token::Shebang(String::from("ruby"), String::from(" puts 1")),
            16
        )])
    );
    assert_eq!(
        tokens("a; {#!/usr/bin/env node;\nlet x = (1);\n} ; b"),
        vec![
            word("a"),
            Token::Semi,
            Token::Shebang(String::from("/usr/bin/env node"), String::from("\nlet x = (1);\n")),
            Token::Semi,
            word("b"),
        ]
    );
    assert_eq!(tokens("{#!;}"), vec![Token::Shebang(String::new(), String::new())]);
}

#[test]
fn shebang_block_that_is_not_closed_is_reported_at_its_opening() {
    assert_eq!(lex("a {#!ruby; puts 1"), Err(LexError::UnrecognizedChar(2, '{')));
    assert_eq!(lex("{#!ruby"), Err(LexError::UnrecognizedChar(0, '{')));
    assert_eq!(lex("{#!ruby\n;x}"), Err(LexError::UnrecognizedChar(0, '{')));
    assert_eq!(lex("{#!ruby}"), Err(LexError::UnrecognizedChar(0, '{')));
}

#[test]
fn brace_followed_by_a_comment_is_no_block() {
    assert_eq!(tokens("{# note\nls\n}"), vec![
        Token::LBrace,
        Token::Linefeed,
        word("ls"),
        Token::Linefeed,
        Token::RBrace,
    ]);
}

#[test]
fn duplicate_copies_a_token() {
    for token in [word("a b"), Token::Shebang(String::from("n"), String::from("t")), Token::Or] {
        assert_eq!(token.duplicate(), token);
    }
}
