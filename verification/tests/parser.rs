use oursh::ast::{Command, Interpreter, Program, Word};
use oursh::lex::{LexError, Spanned, Token};
use oursh::parse::{diagnostic, parse_program, ParseError};
use oursh::status::Error;

fn simple(words: &[&str]) -> Box<Command> {
    Box::new(Command::Simple(words.iter().map(|w| Word(w.to_string())).collect()))
}

fn parsed(text: &str) -> Vec<Box<Command>> {
    parse_program(text).unwrap().0
}

fn names(list: &[&str]) -> Vec<String> {
    list.iter().map(|n| n.to_string()).collect()
}

fn unexpected(token: (usize, Token, usize), expected: &[&str]) -> ParseError {
    let (start, token, end) = token;
    ParseError::UnrecognizedToken {
        location: start,
        token: Some(Spanned { start, token, end }),
        expected: names(expected),
    }
}

fn at_end(location: usize, expected: &[&str]) -> ParseError {
    ParseError::UnrecognizedToken { location, token: None, expected: names(expected) }
}

fn extra(start: usize, token: Token, end: usize) -> ParseError {
    ParseError::ExtraToken { token: Spanned { start, token, end } }
}

#[test]
fn empty_text_is_the_empty_program() {
    assert_eq!(parse_program(""), Ok(Program(vec![])));
    assert_eq!(parse_program("\n\n  # nothing\n"), Ok(Program(vec![])));
}

#[test]
fn simple_command_holds_its_words() {
    assert_eq!(parsed("ls"), vec![simple(&["ls"])]);
    assert_eq!(parsed("ls -l 'my dir'"), vec![simple(&["ls", "-l", "my dir"])]);
    assert_eq!(parsed("exit 42"), vec![simple(&["exit", "42"])]);
}

#[test]
fn separators_make_a_list() {
    let expected = vec![simple(&["a"]), simple(&["b"]), simple(&["c"])];
    assert_eq!(parsed("a; b; c"), expected);
    assert_eq!(parsed("a; b; c;"), expected);
    assert_eq!(parsed("a\nb\nc\n"), expected);
    assert_eq!(parsed("\n\na ;\n\n b\n\n\nc"), expected);
}

#[test]
fn ampersand_puts_the_command_before_it_in_the_background() {
    assert_eq!(parsed("a &"), vec![Box::new(Command::Background(simple(&["a"])))]);
    assert_eq!(
        parsed("a & b"),
        vec![Box::new(Command::Background(simple(&["a"]))), simple(&["b"])]
    );
    assert_eq!(
        parsed("a && b &"),
        vec![Box::new(Command::Background(Box::new(Command::And(
            simple(&["a"]),
            simple(&["b"])
        ))))]
    );
}

#[test]
fn and_and_or_group_to_the_left() {
    assert_eq!(
        parsed("a && b || c"),
        vec![Box::new(Command::Or(
            Box::new(Command::And(simple(&["a"]), simple(&["b"]))),
            simple(&["c"])
        ))]
    );
    assert_eq!(
        parsed("a || b && c"),
        vec![Box::new(Command::And(
            Box::new(Command::Or(simple(&["a"]), simple(&["b"]))),
            simple(&["c"])
        ))]
    );
}

#[test]
fn pipe_binds_tighter_than_and() {
    assert_eq!(
        parsed("a | b && c | d | e"),
        vec![Box::new(Command::And(
            Box::new(Command::Pipeline(simple(&["a"]), simple(&["b"]))),
            Box::new(Command::Pipeline(
                Box::new(Command::Pipeline(simple(&["c"]), simple(&["d"]))),
                simple(&["e"])
            ))
        ))]
    );
}

#[test]
fn bang_negates_the_whole_pipeline() {
    assert_eq!(parsed("! a"), vec![Box::new(Command::Not(simple(&["a"])))]);
    assert_eq!(
        parsed("! a | b"),
        vec![Box::new(Command::Not(Box::new(Command::Pipeline(
            simple(&["a"]),
            simple(&["b"])
        ))))]
    );
    assert_eq!(
        parsed("! a && ! b"),
        vec![Box::new(Command::And(
            Box::new(Command::Not(simple(&["a"]))),
            Box::new(Command::Not(simple(&["b"])))
        ))]
    );
}

#[test]
fn braces_make_a_compound_and_parentheses_a_subshell() {
    assert_eq!(
        parsed("{ a; b }"),
        vec![Box::new(Command::Compound(vec![simple(&["a"]), simple(&["b"])]))]
    );
    assert_eq!(
        parsed("(a; b)"),
        vec![Box::new(Command::Subshell(Box::new(Program(vec![
            simple(&["a"]),
            simple(&["b"])
        ]))))]
    );
    assert_eq!(parsed("{ }"), vec![Box::new(Command::Compound(vec![]))]);
    assert_eq!(
        parsed("{\n a\n (b)\n}\n"),
        vec![Box::new(Command::Compound(vec![
            simple(&["a"]),
            Box::new(Command::Subshell(Box::new(Program(vec![simple(&["b"])]))))
        ]))]
    );
}

#[test]
fn groups_take_part_in_pipelines_and_lists() {
    assert_eq!(
        parsed("{ a; b } | (c) && d"),
        vec![Box::new(Command::And(
            Box::new(Command::Pipeline(
                Box::new(Command::Compound(vec![simple(&["a"]), simple(&["b"])])),
                Box::new(Command::Subshell(Box::new(Program(vec![simple(&["c"])]))))
            )),
            simple(&["d"])
        ))]
    );
}

#[test]
fn line_ends_may_follow_an_operator() {
    assert_eq!(
        parsed("a &&\n\n b |\n c"),
        vec![Box::new(Command::And(
            simple(&["a"]),
            Box::new(Command::Pipeline(simple(&["b"]), simple(&["c"])))
        ))]
    );
}

#[test]
fn shebang_block_names_its_interpreter() {
    assert_eq!(
        parsed("{#!ruby; puts 1}"),
        vec![Box::new(Command::Shebang(
            Interpreter::Other(String::from("ruby")),
            String::from(" puts 1")
        ))]
    );
}

#[test]
fn stray_operator_at_the_start_is_an_extra_token() {
    assert_eq!(parse_program("&& ls"), Err(extra(0, Token::And, 2)));
    assert_eq!(parse_program(";"), Err(extra(0, Token::Semi, 1)));
    assert_eq!(parse_program("| a"), Err(extra(0, Token::Pipe, 1)));
    assert_eq!(parse_program("a ; ; b"), Err(extra(4, Token::Semi, 5)));
    assert_eq!(parse_program("a )"), Err(extra(2, Token::RParen, 3)));
    assert_eq!(parse_program("}"), Err(extra(0, Token::RBrace, 1)));
}

#[test]
fn operator_without_its_right_side_is_not_recognized() {
    let pipeline = ["WORD", "SHEBANG", "!", "(", "{"];
    let command = ["WORD", "SHEBANG", "(", "{"];
    assert_eq!(parse_program("ls &&"), Err(at_end(5, &pipeline)));
    assert_eq!(parse_program("ls ||\n"), Err(at_end(6, &pipeline)));
    assert_eq!(parse_program("ls |"), Err(at_end(4, &command)));
    assert_eq!(parse_program("!"), Err(at_end(1, &command)));
    assert_eq!(parse_program("日本 |  # é"), Err(at_end(14, &command)));
    assert_eq!(
        parse_program("a && ; b"),
        Err(unexpected((5, Token::Semi, 6), &pipeline))
    );
    assert_eq!(
        parse_program("a | ! b"),
        Err(unexpected((4, Token::Bang, 5), &command))
    );
    assert_eq!(
        parse_program("! ! a"),
        Err(unexpected((2, Token::Bang, 3), &command))
    );
}

#[test]
fn group_that_is_not_closed_is_not_recognized() {
    assert_eq!(parse_program("( ls"), Err(at_end(4, &[")"])));
    assert_eq!(parse_program("{ ls ; "), Err(at_end(7, &["}"])));
    assert_eq!(
        parse_program("( ls }"),
        Err(unexpected((5, Token::RBrace, 6), &[")"]))
    );
    assert_eq!(
        parse_program("{ a ; ; }"),
        Err(unexpected((6, Token::Semi, 7), &["}"]))
    );
}

#[test]
fn lexer_fault_is_handed_on() {
    assert_eq!(
        parse_program("echo 'abc"),
        Err(ParseError::User { error: LexError::UnrecognizedChar(5, '\'') })
    );
    assert_eq!(
        parse_program("ls > out"),
        Err(ParseError::User { error: LexError::UnrecognizedChar(3, '>') })
    );
}

#[test]
fn program_parse_reports_every_fault_as_a_parse_error() {
    for text in ["echo 'abc", "echo \"abc", "&& ls", "ls &&", "( ls", "ls )", "a | | b", "<", "{#!x"] {
        assert_eq!(Program::parse(text), Err(Error::Parse), "{:?}", text);
    }
    assert_eq!(Program::parse("ls -l"), Ok(Program(vec![simple(&["ls", "-l"])])));
}

#[test]
fn commands_gives_the_program_in_order() {
    let program = Program::parse("a; b").unwrap();
    assert_eq!(program.commands(), &[simple(&["a"]), simple(&["b"])][..]);
    assert!(Program::parse("").unwrap().commands().is_empty());
}

#[test]
fn diagnostic_is_one_line_with_place_and_expected_tokens() {
    let message = |text: &str| diagnostic(&parse_program(text).unwrap_err());
    assert_eq!(
        message("a && ; b"),
        "unexpected token ; found at 5, expecting WORD, SHEBANG, !, (, {"
    );
    assert_eq!(
        message("ls |"),
        "unexpected end of input found at 4, expecting WORD, SHEBANG, (, {"
    );
    assert_eq!(message("( ls"), "unexpected end of input found at 4, expecting )");
    assert_eq!(message("é &&\n"), "unexpected end of input found at 6, expecting WORD, SHEBANG, !, (, {");
    assert_eq!(message("a\n)"), "extra token ) found at 2");
    assert_eq!(message("a ;\n;"), "extra token ; found at 4");
    assert_eq!(message("echo 'abc"), "unexpected character ' found at 5");
    assert_eq!(message("日本 > x"), "unexpected character > found at 7");
    assert_eq!(
        diagnostic(&ParseError::InvalidToken { location: 12 }),
        "invalid token found at 12"
    );
    assert_eq!(
        diagnostic(&unexpected((3, Token::Word(String::from("two\nlines")), 14), &["}"])),
        "unexpected token WORD found at 3, expecting }"
    );
    assert_eq!(
        diagnostic(&extra(0, Token::Linefeed, 1)),
        "extra token LINEFEED found at 0"
    );
}

#[test]
fn every_error_has_its_place_in_the_text() {
    let place = |text: &str| parse_program(text).unwrap_err().location();
    assert_eq!(place("a && ; b"), 5);
    assert_eq!(place("ls |"), 4);
    assert_eq!(place("!"), 1);
    assert_eq!(place("( ls"), 4);
    assert_eq!(place("日本 &&"), 9);
    assert_eq!(place("a\n)"), 2);
    assert_eq!(place("echo 'abc"), 5);
    assert_eq!(place("日本 > x"), 7);
    assert_eq!(ParseError::InvalidToken { location: 12 }.location(), 12);
}
