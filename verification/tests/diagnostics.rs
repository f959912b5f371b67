use call_lang::diagnostic::{
    decimal_string, describe_lex_error, describe_parse_error, describe_runtime_error, render_diagnostic,
    report, spaces_string, Category,
};
use call_lang::interpreter::RuntimeErrorKind;
use call_lang::lexer::LexErrorKind;
use call_lang::pipeline::{run_source, Error};
use call_lang::tokens::Location;

fn error_of(source: &str) -> Error {
    run_source("main.txt".to_string(), source.to_string()).error.unwrap()
}

fn parse_message_of(source: &str) -> String {
    let Error::Parser(error) = error_of(source) else { panic!("no parse error") };
    describe_parse_error(&error)
}

#[test]
fn decimal_digits_of_numbers() {
    assert_eq!(decimal_string(0), "0");
    assert_eq!(decimal_string(7), "7");
    assert_eq!(decimal_string(10), "10");
    assert_eq!(decimal_string(12345), "12345");
    assert_eq!(decimal_string(9876543210), "9876543210");
    assert_eq!(decimal_string(usize::MAX), usize::MAX.to_string());
}

#[test]
fn spaces_in_a_row() {
    assert_eq!(spaces_string(0), "");
    assert_eq!(spaces_string(3), "   ");
}

#[test]
fn lexical_messages() {
    assert_eq!(describe_lex_error(LexErrorKind::UnendedString), "Unended string.");
    assert_eq!(
        describe_lex_error(LexErrorKind::UnexpectedChar('$')),
        "Unexpected character '$' found (character code 36)"
    );
    assert_eq!(
        describe_lex_error(LexErrorKind::UnexpectedChar('\u{20ac}')),
        "Unexpected character '\u{20ac}' found (character code 172)"
    );
}

#[test]
fn parse_messages() {
    assert_eq!(
        parse_message_of("print 1"),
        "Expected token OParen after 'print', but found '1' (Number)"
    );
    assert_eq!(
        parse_message_of("print(1, add(2, 3))"),
        "Expected one of tokens [String, Number] after '', but found 'add' (Ident)"
    );
    assert_eq!(
        parse_message_of("print(\"a\" foo(2))"),
        "Expected one of tokens [String, Number, Comma, CParen] after 'a', but found 'foo' (Ident)"
    );
    assert_eq!(parse_message_of("print(1"), "Expected one of tokens [String, Number, Comma, CParen] after '1', but found '' (Eof)");
    assert_eq!(parse_message_of("print(("), "Unexpected token '' (OParen)");
    let too_deep = "f(".repeat(130) + &")".repeat(130);
    assert_eq!(parse_message_of(&too_deep), "Recursion limit exceeded at 'f'");
}

#[test]
fn runtime_messages() {
    assert_eq!(
        describe_runtime_error(&RuntimeErrorKind::UndefinedFunction("foo".to_string())),
        "Undefined function 'foo'"
    );
    assert_eq!(
        describe_runtime_error(&RuntimeErrorKind::AddArity(3)),
        "Function `add` requires only 2 (two) arguments, but got 3.\n\n[Syntax]\nadd(Number, Number)"
    );
    assert_eq!(
        describe_runtime_error(&RuntimeErrorKind::ExpectedNumber),
        "Expected type NodeKind::Number"
    );
    assert_eq!(describe_runtime_error(&RuntimeErrorKind::NotACall), "Unimplemented NodeKind");
}

#[test]
fn diagnostic_block_of_a_lexical_error() {
    let text = report(&error_of("print(1)\n  $"));
    assert_eq!(
        text,
        "[Lexical Error]\n\
         Unexpected character '$' found (character code 36)\n\
         \n\
         [Where?]\n\
         In file 'main.txt' at line 2, column 3\n\
         \n\
         [Code]\n   |\n 2 |   $\n   |   ^\n"
    );
}

#[test]
fn diagnostic_block_of_a_parse_error() {
    let text = report(&error_of("print 1"));
    assert_eq!(
        text,
        "[Parser Error]\n\
         Expected token OParen after 'print', but found '1' (Number)\n\
         \n\
         [Where?]\n\
         In file 'main.txt' at line 1, column 1\n\
         \n\
         [Code]\n   |\n 1 | print 1\n   | ^\n"
    );
}

#[test]
fn diagnostic_block_of_a_runtime_error() {
    let text = report(&error_of("print(\"a\")\nfoo(1)"));
    assert_eq!(
        text,
        "[Parser Error]\n\
         Undefined function 'foo'\n\
         \n\
         [Where?]\n\
         In file 'main.txt' at line 2, column 1\n\
         \n\
         [Code]\n   |\n 2 | foo(1)\n   | ^\n"
    );
}

#[test]
fn margin_is_as_wide_as_the_line_number() {
    let location = Location {
        file_name: "a.txt".to_string(),
        column: 4,
        line_number: 120,
        line: "add(?)".to_string(),
    };
    assert_eq!(
        render_diagnostic(Category::Lexical, "Bad.", &location),
        "[Lexical Error]\nBad.\n\n[Where?]\nIn file 'a.txt' at line 120, column 4\n\n[Code]\n     |\n 120 | add(?)\n     |    ^\n"
    );
}

#[test]
fn caret_stands_under_the_first_column_where_the_column_is_zero() {
    let location =
        Location { file_name: "a.txt".to_string(), column: 0, line_number: 1, line: "x".to_string() };
    assert_eq!(
        render_diagnostic(Category::Parser, "Bad.", &location),
        "[Parser Error]\nBad.\n\n[Where?]\nIn file 'a.txt' at line 1, column 0\n\n[Code]\n   |\n 1 | x\n   | ^\n"
    );
}
