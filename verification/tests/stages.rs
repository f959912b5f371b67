use call_lang::ast::{Node, NodeKind, Number};
use call_lang::interpreter::{Interpreter, Output, RuntimeErrorKind};
use call_lang::lexer::{LexErrorKind, Lexer};
use call_lang::parser::{ParseErrorKind, Parser, MAX_NESTING};
use call_lang::pipeline::{run_source, Error, Run};
use call_lang::tokens::{Location, Token, TokenKind};

fn lex(source: &str) -> Vec<Token> {
    let mut lexer = Lexer::new("main.txt".to_string(), source.to_string());
    assert!(lexer.lex().is_ok());
    lexer.output_tokens
}

fn parse(source: &str) -> Vec<Node> {
    let mut parser = Parser::new(lex(source));
    assert!(parser.parse().is_ok());
    parser.output_nodes
}

fn parse_error(source: &str) -> (ParseErrorKind, Location) {
    let mut parser = Parser::new(lex(source));
    let error = parser.parse().unwrap_err();
    assert!(parser.output_nodes.is_empty());
    (error.kind, error.location)
}

fn run_it(source: &str) -> Run {
    run_source("main.txt".to_string(), source.to_string())
}

fn value_of(number: &Number) -> f32 {
    match number {
        Number::Literal(digits) => digits.parse().unwrap(),
        Number::Sum(a, b) => value_of(a) + value_of(b),
    }
}

fn render(output: &[Output]) -> String {
    let mut text = String::new();
    for piece in output {
        match piece {
            Output::Text(s) => text.push_str(s),
            Output::Number(n) => text.push_str(&format!("{}", value_of(n))),
            Output::Newline => text.push('\n'),
        }
    }
    text
}

fn kinds(tokens: &[Token]) -> Vec<TokenKind> {
    tokens.iter().map(|t| t.kind).collect()
}

fn values(tokens: &[Token]) -> Vec<String> {
    tokens.iter().map(|t| t.value.clone()).collect()
}

#[test]
fn lexes_a_call_with_three_arguments() {
    let tokens = lex("print(\"a\", 1, \"b\")");
    assert_eq!(
        kinds(&tokens),
        vec![
            TokenKind::Ident,
            TokenKind::OParen,
            TokenKind::String,
            TokenKind::Comma,
            TokenKind::Number,
            TokenKind::Comma,
            TokenKind::String,
            TokenKind::CParen,
            TokenKind::Eof,
        ]
    );
    assert_eq!(values(&tokens), vec!["print", "", "a", "", "1", "", "b", "", ""]);
    let columns: Vec<usize> = tokens.iter().map(|t| t.location.column).collect();
    assert_eq!(columns, vec![1, 6, 7, 10, 12, 13, 15, 18, 19]);
    for token in &tokens {
        assert_eq!(token.location.line_number, 1);
        assert_eq!(token.location.file_name, "main.txt");
        assert_eq!(token.location.line, "print(\"a\", 1, \"b\")");
    }
}

#[test]
fn empty_text_is_one_end_of_input_token() {
    let tokens = lex("");
    assert_eq!(kinds(&tokens), vec![TokenKind::Eof]);
    assert_eq!(tokens[0].value, "");
    assert_eq!(tokens[0].location.line_number, 1);
    assert_eq!(tokens[0].location.column, 1);
    assert_eq!(tokens[0].location.line, "");
}

#[test]
fn identifier_goes_on_over_digits_and_number_stops_at_letter() {
    let tokens = lex("ab12 34cd");
    assert_eq!(
        kinds(&tokens),
        vec![TokenKind::Ident, TokenKind::Number, TokenKind::Ident, TokenKind::Eof]
    );
    assert_eq!(values(&tokens), vec!["ab12", "34", "cd", ""]);
    assert_eq!(tokens[2].location.column, 8);
}

#[test]
fn characters_beyond_ascii_are_classified_by_unicode() {
    let tokens = lex("\u{e9}t\u{e9}\u{a0}\u{663}\u{664}");
    assert_eq!(kinds(&tokens), vec![TokenKind::Ident, TokenKind::Number, TokenKind::Eof]);
    assert_eq!(values(&tokens), vec!["\u{e9}t\u{e9}", "\u{663}\u{664}", ""]);
    assert_eq!(tokens[1].location.column, 5);
    assert_eq!(tokens[2].location.column, 7);
}

#[test]
fn locations_count_lines_and_columns_from_one() {
    let tokens = lex("print(1)\n  println(\n22)\n");
    let places: Vec<(usize, usize)> =
        tokens.iter().map(|t| (t.location.line_number, t.location.column)).collect();
    assert_eq!(
        places,
        vec![(1, 1), (1, 6), (1, 7), (1, 8), (2, 3), (2, 10), (3, 1), (3, 3), (4, 1)]
    );
    assert_eq!(tokens[4].location.line, "  println(");
    assert_eq!(tokens[6].location.line, "22)");
    assert_eq!(tokens[8].location.line, "");
}

#[test]
fn line_text_leaves_out_carriage_return_before_line_feed() {
    let tokens = lex("print(1)\r\nprint(2)\r");
    assert_eq!(tokens[0].location.line, "print(1)");
    assert_eq!(tokens[4].location.line, "print(2)\r");
    assert_eq!(tokens[4].location.line_number, 2);
    assert_eq!(tokens[4].location.column, 1);
}

#[test]
fn string_may_hold_line_feeds_and_the_lines_still_count() {
    let tokens = lex("print(\"a\nb\")\nadd");
    assert_eq!(tokens[2].kind, TokenKind::String);
    assert_eq!(tokens[2].value, "a\nb");
    assert_eq!(tokens[3].location.line_number, 2);
    assert_eq!(tokens[3].location.column, 3);
    assert_eq!(tokens[4].location.line_number, 3);
    assert_eq!(tokens[4].location.column, 1);
    assert_eq!(tokens[4].location.line, "add");
}

#[test]
fn unterminated_string_is_a_lexical_error() {
    let mut lexer = Lexer::new("main.txt".to_string(), "print(\"abc".to_string());
    let error = lexer.lex().unwrap_err();
    assert_eq!(error.kind, LexErrorKind::UnendedString);
    assert_eq!(error.location.line_number, 1);
    assert_eq!(error.location.column, 10);
    assert_eq!(error.location.line, "print(\"abc");
    assert!(lexer.output_tokens.is_empty());
}

#[test]
fn unterminated_string_at_the_last_character() {
    let mut lexer = Lexer::new("main.txt".to_string(), "\"".to_string());
    let error = lexer.lex().unwrap_err();
    assert_eq!(error.kind, LexErrorKind::UnendedString);
    assert_eq!(error.location.column, 1);
}

#[test]
fn unterminated_string_that_ends_in_a_line_feed() {
    let mut lexer = Lexer::new("main.txt".to_string(), "print(\n\"ab\n".to_string());
    let error = lexer.lex().unwrap_err();
    assert_eq!(error.kind, LexErrorKind::UnendedString);
    assert_eq!(error.location.line_number, 2);
    assert_eq!(error.location.column, 4);
    assert_eq!(error.location.line, "\"ab");
}

#[test]
fn unexpected_character_is_located_exactly() {
    let mut lexer = Lexer::new("main.txt".to_string(), "print(1)\n  $".to_string());
    let error = lexer.lex().unwrap_err();
    assert_eq!(error.kind, LexErrorKind::UnexpectedChar('$'));
    assert_eq!(error.location.file_name, "main.txt");
    assert_eq!(error.location.line_number, 2);
    assert_eq!(error.location.column, 3);
    assert_eq!(error.location.line, "  $");
    assert!(lexer.output_tokens.is_empty());
}

#[test]
fn parses_nested_calls() {
    let nodes = parse("println(add(add(1, 2), 3))");
    assert_eq!(nodes.len(), 1);
    assert_eq!(nodes[0].location.column, 1);
    let NodeKind::Func(name, args) = &nodes[0].kind else { panic!("no call") };
    assert_eq!(name, "println");
    assert_eq!(args.len(), 1);
    assert_eq!(args[0].location.column, 9);
    let NodeKind::Func(name, args) = &args[0].kind else { panic!("no call") };
    assert_eq!(name, "add");
    assert_eq!(args.len(), 2);
    assert!(matches!(&args[1].kind, NodeKind::Number(Number::Literal(d)) if d == "3"));
    let NodeKind::Func(name, args) = &args[0].kind else { panic!("no call") };
    assert_eq!(name, "add");
    assert_eq!(args.len(), 2);
    assert!(matches!(&args[0].kind, NodeKind::Number(Number::Literal(d)) if d == "1"));
    assert!(matches!(&args[1].kind, NodeKind::Number(Number::Literal(d)) if d == "2"));
    assert_eq!(args[1].location.column, 20);
}

#[test]
fn parses_several_statements_and_a_call_without_arguments() {
    let nodes = parse("print()\nprint(\"x\")");
    assert_eq!(nodes.len(), 2);
    assert!(matches!(&nodes[0].kind, NodeKind::Func(n, a) if n == "print" && a.is_empty()));
    let NodeKind::Func(_, args) = &nodes[1].kind else { panic!("no call") };
    assert!(matches!(&args[0].kind, NodeKind::String(s) if s == "x"));
    assert_eq!(nodes[1].location.line_number, 2);
}

#[test]
fn arguments_need_no_comma_between_them() {
    let nodes = parse("print(\"a\" 1)");
    let NodeKind::Func(_, args) = &nodes[0].kind else { panic!("no call") };
    assert_eq!(args.len(), 2);
}

#[test]
fn stray_token_between_statements_is_passed_over() {
    let nodes = parse("print(1) ) , 7 \"s\" print(2)");
    assert_eq!(nodes.len(), 2);
    let nodes = parse("print(1))");
    assert_eq!(nodes.len(), 1);
}

#[test]
fn parser_stops_at_the_first_end_of_input_token() {
    let mut tokens = lex("print(1)");
    tokens.extend(lex("print(2)"));
    let mut parser = Parser::new(tokens);
    assert!(parser.parse().is_ok());
    assert_eq!(parser.output_nodes.len(), 1);
}

#[test]
fn name_without_parenthesis_is_a_parse_error() {
    let (kind, location) = parse_error("print");
    assert_eq!(kind, ParseErrorKind::ExpectedOpenParen(TokenKind::Eof));
    assert_eq!(location.column, 1);
    let (kind, _) = parse_error("print 1");
    assert_eq!(kind, ParseErrorKind::ExpectedOpenParen(TokenKind::Number));
}

#[test]
fn comma_must_be_followed_by_a_literal() {
    let (kind, location) = parse_error("print(1,)");
    assert_eq!(kind, ParseErrorKind::ExpectedLiteral(TokenKind::CParen));
    assert_eq!(location.column, 8);
    let (kind, _) = parse_error("print(1, add(2, 3))");
    assert_eq!(kind, ParseErrorKind::ExpectedLiteral(TokenKind::Ident));
}

#[test]
fn argument_must_be_followed_by_literal_comma_or_parenthesis() {
    let (kind, location) = parse_error("print(1 foo(2))");
    assert_eq!(kind, ParseErrorKind::ExpectedArgumentEnd(TokenKind::Ident));
    assert_eq!(location.column, 7);
    let (kind, location) = parse_error("print(add(1, 2) (");
    assert_eq!(kind, ParseErrorKind::ExpectedArgumentEnd(TokenKind::OParen));
    assert_eq!(location.column, 15);
    let (kind, _) = parse_error("print(1");
    assert_eq!(kind, ParseErrorKind::ExpectedArgumentEnd(TokenKind::Eof));
}

#[test]
fn token_that_starts_no_argument_is_a_parse_error() {
    let (kind, location) = parse_error("print((");
    assert_eq!(kind, ParseErrorKind::UnexpectedToken(TokenKind::OParen));
    assert_eq!(location.column, 7);
    let (kind, location) = parse_error("print(");
    assert_eq!(kind, ParseErrorKind::UnexpectedToken(TokenKind::Eof));
    assert_eq!(location.column, 7);
}

#[test]
fn tokens_without_end_of_input_are_parsed_as_if_it_were_there() {
    let mut tokens = lex("print(");
    tokens.pop();
    let mut parser = Parser::new(tokens);
    let error = parser.parse().unwrap_err();
    assert_eq!(error.kind, ParseErrorKind::UnexpectedToken(TokenKind::Eof));
    assert_eq!(error.location.column, 6);
    let mut parser = Parser::new(Vec::new());
    assert!(parser.parse().is_ok());
    assert!(parser.output_nodes.is_empty());
}

#[test]
fn nesting_is_limited() {
    let deepest = "f(".repeat(MAX_NESTING + 1) + &")".repeat(MAX_NESTING + 1);
    assert_eq!(parse(&deepest).len(), 1);
    let too_deep = "f(".repeat(MAX_NESTING + 2) + &")".repeat(MAX_NESTING + 2);
    let (kind, location) = parse_error(&too_deep);
    assert_eq!(kind, ParseErrorKind::NestingTooDeep);
    assert_eq!(location.column, 2 * (MAX_NESTING + 1) + 1);
}

#[test]
fn print_writes_its_arguments_without_separators() {
    let run = run_it("print(\"a\", 1, \"b\")");
    assert!(run.error.is_none());
    assert_eq!(run.output.len(), 3);
    assert!(matches!(&run.output[0], Output::Text(s) if s == "a"));
    assert!(matches!(&run.output[1], Output::Number(Number::Literal(d)) if d == "1"));
    assert!(matches!(&run.output[2], Output::Text(s) if s == "b"));
    assert_eq!(render(&run.output), "a1b");
}

#[test]
fn println_follows_each_argument_with_a_line_feed() {
    let run = run_it("println(\"a\", 1, \"b\")");
    assert!(run.error.is_none());
    assert_eq!(run.output.len(), 6);
    assert!(matches!(&run.output[1], Output::Newline));
    assert_eq!(render(&run.output), "a\n1\nb\n");
}

#[test]
fn nested_sums_are_written_as_one_number() {
    let run = run_it("println(add(add(1, 2), 3))");
    assert!(run.error.is_none());
    assert_eq!(run.output.len(), 2);
    let Output::Number(Number::Sum(left, right)) = &run.output[0] else { panic!("no sum") };
    assert!(matches!(&**right, Number::Literal(d) if d == "3"));
    let Number::Sum(a, b) = &**left else { panic!("no sum") };
    assert!(matches!(&**a, Number::Literal(d) if d == "1"));
    assert!(matches!(&**b, Number::Literal(d) if d == "2"));
    assert_eq!(render(&run.output), "6\n");
}

#[test]
fn number_literal_is_written_as_it_was_read() {
    let run = run_it("println(12345)");
    assert!(run.error.is_none());
    assert_eq!(render(&run.output), "12345\n");
    let run = run_source("main.txt".to_string(), "println(007)".to_string());
    assert!(matches!(&run.output[0], Output::Number(Number::Literal(d)) if d == "007"));
    assert_eq!(render(&run.output), "7\n");
}

#[test]
fn sum_is_the_same_in_either_order() {
    let one = run_it("println(add(16777216, 3))");
    let other = run_it("println(add(3, 16777216))");
    assert_eq!(render(&one.output), render(&other.output));
    assert_eq!(render(&one.output), "16777220\n");
}

#[test]
fn statement_value_is_dropped() {
    let run = run_it("add(1, 2) print(\"x\")");
    assert!(run.error.is_none());
    assert_eq!(render(&run.output), "x");
}

#[test]
fn add_needs_two_arguments() {
    for (source, count) in [("add()", 0), ("add(1)", 1), ("add(1, 2, 3)", 3)] {
        let run = run_it(source);
        let Some(Error::Runtime(error)) = run.error else { panic!("no runtime error") };
        assert!(matches!(error.kind, RuntimeErrorKind::AddArity(n) if n == count));
        assert_eq!(error.location.column, 1);
        assert!(run.output.is_empty());
    }
}

#[test]
fn add_takes_no_text() {
    for source in ["add(\"1\", 2)", "add(1, \"2\")", "add(\"1\", \"2\")"] {
        let run = run_it(source);
        let Some(Error::Runtime(error)) = run.error else { panic!("no runtime error") };
        assert!(matches!(error.kind, RuntimeErrorKind::ExpectedNumber));
    }
}

#[test]
fn unknown_function_is_a_runtime_error_that_names_it() {
    let run = run_it("foo(1)");
    let Some(Error::Runtime(error)) = run.error else { panic!("no runtime error") };
    assert!(matches!(&error.kind, RuntimeErrorKind::UndefinedFunction(name) if name == "foo"));
    assert_eq!(error.location.line, "foo(1)");
}

#[test]
fn error_is_placed_at_its_statement_and_earlier_output_stays() {
    let run = run_it("print(\"a\")\n  println(add(foo(1), 2))\nprint(\"b\")");
    assert_eq!(render(&run.output), "a");
    let Some(Error::Runtime(error)) = run.error else { panic!("no runtime error") };
    assert!(matches!(&error.kind, RuntimeErrorKind::UndefinedFunction(name) if name == "foo"));
    assert_eq!(error.location.line_number, 2);
    assert_eq!(error.location.column, 3);
}

#[test]
fn nested_call_that_gives_nothing_adds_no_argument() {
    let run = run_it("print(print(\"a\"), \"b\")");
    assert!(run.error.is_none());
    assert_eq!(render(&run.output), "ab");
    let run = run_it("add(print(\"a\"), 1)");
    assert_eq!(render(&run.output), "a");
    let Some(Error::Runtime(error)) = run.error else { panic!("no runtime error") };
    assert!(matches!(error.kind, RuntimeErrorKind::AddArity(1)));
}

#[test]
fn statement_that_is_no_call_is_a_runtime_error() {
    let location = lex("")[0].location.clone();
    let literal = Node { kind: NodeKind::String("x".to_string()), location };
    let mut interpreter = Interpreter::new(vec![literal]);
    let error = interpreter.interpret().unwrap_err();
    assert!(matches!(error.kind, RuntimeErrorKind::NotACall));
    assert!(interpreter.output.is_empty());
}

#[test]
fn lexical_and_parse_errors_stop_the_run_before_anything_is_written() {
    let run = run_it("print(\"a\") $");
    assert!(run.output.is_empty());
    assert!(matches!(run.error, Some(Error::Lexical(_))));
    let run = run_it("print(\"a\") print(");
    assert!(run.output.is_empty());
    assert!(matches!(run.error, Some(Error::Parser(_))));
}

#[test]
fn running_twice_gives_the_same() {
    let source = "println(add(1, 2), \"x\") foo(3)";
    let one = run_it(source);
    let other = run_it(source);
    assert_eq!(format!("{:?}", one), format!("{:?}", other));
}

#[test]
fn copy_of_a_tree_is_the_same_tree() {
    let nodes = parse("println(add(add(1, 2), 3) \"x\")");
    let copy = nodes[0].clone();
    assert_eq!(format!("{:?}", copy), format!("{:?}", nodes[0]));
    let kind = nodes[0].kind.clone();
    assert_eq!(format!("{:?}", kind), format!("{:?}", nodes[0].kind));
    let NodeKind::Func(_, args) = &kind else { panic!("no call") };
    assert_eq!(args.len(), 2);
    let sum = Number::Sum(
        Box::new(Number::Literal("1".to_string())),
        Box::new(Number::Literal("2".to_string())),
    );
    assert_eq!(format!("{:?}", sum.clone()), format!("{:?}", sum));
    assert_eq!(value_of(&sum.duplicate()), 3.0);
}

#[test]
fn stages_end_behind_their_input_after_an_error() {
    let mut parser = Parser::new(lex("print( print(1)"));
    assert!(parser.parse().is_err());
    assert!(parser.parse().is_ok());
    assert!(parser.output_nodes.is_empty());
    let mut interpreter = Interpreter::new(parse("print(1) foo(2) print(3)"));
    assert!(interpreter.interpret().is_err());
    assert_eq!(render(&interpreter.output), "1");
    assert!(interpreter.interpret().is_ok());
    assert_eq!(render(&interpreter.output), "1");
}

#[test]
fn lexing_again_adds_one_more_end_of_input_token() {
    let mut lexer = Lexer::new("main.txt".to_string(), "print(1)".to_string());
    assert!(lexer.lex().is_ok());
    assert_eq!(lexer.output_tokens.len(), 5);
    assert!(lexer.lex().is_ok());
    assert_eq!(lexer.output_tokens.len(), 6);
    assert_eq!(lexer.output_tokens[5].kind, TokenKind::Eof);
}

#[test]
fn file_name_changes_nothing_but_the_places() {
    let source = "println(add(1, 2), \"x\")\nfoo(3)";
    let one = run_source("a.txt".to_string(), source.to_string());
    let other = run_source("b.txt".to_string(), source.to_string());
    assert_eq!(format!("{:?}", one.output), format!("{:?}", other.output));
    let (Some(Error::Runtime(e1)), Some(Error::Runtime(e2))) = (one.error, other.error) else {
        panic!("no runtime error")
    };
    assert_eq!(format!("{:?}", e1.kind), format!("{:?}", e2.kind));
    assert_eq!(e1.location.file_name, "a.txt");
    assert_eq!(e2.location.file_name, "b.txt");
    assert_eq!(e1.location.line_number, e2.location.line_number);
}
