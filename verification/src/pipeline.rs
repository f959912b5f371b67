//! The three stages in a row: lexing, parsing, interpreting.

use vstd::prelude::*;
use crate::ast::{NodeKindView, NodeView, NumberView};
use crate::interpreter::{Interpreter, Output, OutputView, ProgramOutcome, RuntimeError, RuntimeErrorKindView, RuntimeErrorView, ValueView, apply_builtin, eval_args, eval_node, lemma_calls_run, lemma_names_differ, output_views, run_first, run_program, written};
use crate::lexer::{LexError, LexErrorView, Lexer, lex_text};
use crate::parser::{ParseError, ParseErrorView, Parser, lemma_program_is_calls, literal_node, parse_args, parse_call, parse_program};
use crate::tokens::{TokenKind, TokenView};

verus! {

/// What stopped a program: an error of one of the three stages.
#[derive(Debug)]
pub enum Error {
    Lexical(LexError),
    Parser(ParseError),
    Runtime(RuntimeError),
}

/// What an `Error` holds, as mathematical values.
pub enum ErrorView {
    Lexical(LexErrorView),
    Parser(ParseErrorView),
    Runtime(RuntimeErrorView),
}

impl View for Error {
    type V = ErrorView;

    open spec fn view(&self) -> ErrorView {
        match self {
            Error::Lexical(e) => ErrorView::Lexical(e@),
            Error::Parser(e) => ErrorView::Parser(e@),
            Error::Runtime(e) => ErrorView::Runtime(e@),
        }
    }
}

/// What a program wrote, and the error that stopped it, if any.
#[derive(Debug)]
pub struct Run {
    pub output: Vec<Output>,
    pub error: Option<Error>,
}

/// What a `Run` holds, as mathematical values.
pub struct RunView {
    pub output: Seq<OutputView>,
    pub error: Option<ErrorView>,
}

impl View for Run {
    type V = RunView;

    open spec fn view(&self) -> RunView {
        RunView {
            output: output_views(self.output@),
            error: match self.error {
                Some(e) => Some(e@),
                None => None,
            },
        }
    }
}

/// What the program with the text `src` writes, and the error that stops it:
/// the text is lexed, the tokens are parsed, and the calls are run, each
/// stage on all of what the one before it gave. A text that does not lex or
/// parse writes nothing.
pub open spec fn run_text(file: Seq<char>, src: Seq<char>) -> RunView {
    match lex_text(file, src) {
        Err(e) => RunView { output: Seq::empty(), error: Some(ErrorView::Lexical(e)) },
        Ok(tokens) => match parse_program(tokens, 0) {
            Err(e) => RunView { output: Seq::empty(), error: Some(ErrorView::Parser(e)) },
            Ok(nodes) => {
                let outcome = run_program(nodes);
                RunView {
                    output: outcome.output,
                    error: match outcome.error {
                        Some(e) => Some(ErrorView::Runtime(e)),
                        None => None,
                    },
                }
            },
        },
    }
}

/// The tokens of `println` called on one number parse to one call, and
/// running it writes that number, as the digits it was read from, and then a
/// line feed.
pub proof fn lemma_println_number(tokens: Seq<TokenView>)
    requires
        tokens.len() == 5,
        tokens[0].kind == TokenKind::Ident,
        tokens[0].value == "println"@,
        tokens[1].kind == TokenKind::OParen,
        tokens[2].kind == TokenKind::Number,
        tokens[3].kind == TokenKind::CParen,
        tokens[4].kind == TokenKind::Eof,
    ensures
        parse_program(tokens, 0) is Ok,
        run_program(parse_program(tokens, 0)->Ok_0) == (ProgramOutcome {
            output: seq![
                OutputView::Number(NumberView::Literal(tokens[2].value)),
                OutputView::Newline,
            ],
            error: None,
        }),
{
    let literal = literal_node(tokens[2]);
    let args = seq![literal];
    let call = NodeView {
        kind: NodeKindView::Func(tokens[0].value, args),
        location: tokens[0].location,
    };
    let value = ValueView::Number(NumberView::Literal(tokens[2].value));
    let values = seq![value];
    assert(parse_args(tokens, 3, 0) == Ok::<(Seq<NodeView>, nat), ParseErrorView>(
        (Seq::empty(), 0),
    ));
    assert(args + Seq::<NodeView>::empty() =~= args);
    assert(parse_args(tokens, 2, 0) == Ok::<(Seq<NodeView>, nat), ParseErrorView>((args, 1)));
    assert(parse_call(tokens, 0, 0) == Ok::<(NodeView, nat), ParseErrorView>((call, 3)));
    assert(parse_program(tokens, 4) == Ok::<Seq<NodeView>, ParseErrorView>(Seq::empty()));
    assert(seq![call] + Seq::<NodeView>::empty() =~= seq![call]);
    assert(parse_program(tokens, 0) == Ok::<Seq<NodeView>, ParseErrorView>(seq![call]));
    lemma_names_differ();
    assert(eval_args(args, 0).values == Ok::<Seq<ValueView>, RuntimeErrorKindView>(Seq::empty()));
    assert(eval_node(args[0]).result == Ok::<Option<ValueView>, RuntimeErrorKindView>(Some(value)));
    assert(Seq::<ValueView>::empty().push(value) =~= values);
    assert(eval_args(args, 1).values == Ok::<Seq<ValueView>, RuntimeErrorKindView>(values));
    assert(eval_args(args, 1).output =~= Seq::<OutputView>::empty());
    assert(written(values, 0, true) =~= Seq::<OutputView>::empty());
    let shown = seq![OutputView::Number(NumberView::Literal(tokens[2].value)), OutputView::Newline];
    assert(written(values, 1, true) =~= shown);
    assert(apply_builtin("println"@, values).output == shown);
    assert(eval_node(call).output =~= shown);
    assert(eval_node(call).result is Ok);
    assert(run_first(seq![call], 0).output =~= Seq::<OutputView>::empty());
    assert(run_first(seq![call], 1).output =~= shown);
}

/// A program that was parsed is made of calls, so running it never fails
/// for want of a call.
pub proof fn lemma_parsed_program_runs_calls(tokens: Seq<TokenView>)
    ensures
        parse_program(tokens, 0) matches Ok(nodes) ==> (run_program(nodes).error matches Some(e)
            ==> !(e.kind is NotACall)),
{
    lemma_program_is_calls(tokens, 0);
    match parse_program(tokens, 0) {
        Ok(nodes) => {
            lemma_calls_run(nodes, nodes.len());
        },
        Err(_) => {},
    }
}

/// Runs the program with the text `source_code`. What it gives depends on
/// the file name and the text alone.
pub fn run_source(file_name: String, source_code: String) -> (run: Run)
    requires
        source_code@.len() < usize::MAX,
    ensures
        run@ == run_text(file_name@, source_code@),
{
    let mut lexer = Lexer::new(file_name, source_code);
    if let Err(e) = lexer.lex() {
        let run = Run { output: Vec::new(), error: Some(Error::Lexical(e)) };
        assert(run@.output =~= Seq::<OutputView>::empty());
        return run;
    }
    assert(lexer.tokens() =~= lex_text(file_name@, source_code@)->Ok_0);
    let mut parser = Parser::new(lexer.into_tokens());
    if let Err(e) = parser.parse() {
        let run = Run { output: Vec::new(), error: Some(Error::Parser(e)) };
        assert(run@.output =~= Seq::<OutputView>::empty());
        return run;
    }
    let ghost nodes = parser.nodes();
    assert(nodes =~= parse_program(parser.tokens(), 0)->Ok_0);
    let mut interpreter = Interpreter::new(parser.into_nodes());
    let result = interpreter.interpret();
    assert(interpreter.nodes().skip(0) =~= nodes);
    assert(interpreter.written_so_far() =~= run_program(nodes).output);
    let output = interpreter.into_output();
    match result {
        Ok(()) => Run { output, error: None },
        Err(e) => Run { output, error: Some(Error::Runtime(e)) },
    }
}

} // verus!
