//! Diagnostics: the message of each error, and the block of text that shows
//! an error with its place in the source.

use vstd::prelude::*;
use vstd::string::StringExecFns;
use crate::interpreter::{RuntimeErrorKind, RuntimeErrorKindView};
use crate::lexer::{LexErrorKind};
use crate::parser::{ParseError, ParseErrorKind, ParseErrorView};
use crate::pipeline::{Error, ErrorView};
use crate::tokens::{Location, LocationView, TokenKind};

verus! {

/// The heading under which an error is shown.
#[derive(Debug, Clone, Copy, PartialEq, Eq, Structural)]
pub enum Category {
    Lexical,
    Parser,
}

/// The character of the decimal digit `d`.
pub open spec fn digit_char(d: nat) -> char {
    if d == 0 {
        '0'
    } else if d == 1 {
        '1'
    } else if d == 2 {
        '2'
    } else if d == 3 {
        '3'
    } else if d == 4 {
        '4'
    } else if d == 5 {
        '5'
    } else if d == 6 {
        '6'
    } else if d == 7 {
        '7'
    } else if d == 8 {
        '8'
    } else {
        '9'
    }
}

/// The decimal digits of `n`, without leading zeros.
pub open spec fn decimal(n: nat) -> Seq<char>
    decreases n,
{
    if n < 10 {
        seq![digit_char(n)]
    } else {
        decimal(n / 10).push(digit_char(n % 10))
    }
}

/// `n` spaces.
pub open spec fn spaces(n: nat) -> Seq<char> {
    Seq::new(n, |i: int| ' ')
}

/// The name of a token kind.
pub open spec fn kind_name(kind: TokenKind) -> Seq<char> {
    match kind {
        TokenKind::Ident => "Ident"@,
        TokenKind::OParen => "OParen"@,
        TokenKind::CParen => "CParen"@,
        TokenKind::Number => "Number"@,
        TokenKind::String => "String"@,
        TokenKind::Comma => "Comma"@,
        TokenKind::Eof => "Eof"@,
    }
}

/// The heading of a category.
pub open spec fn heading(category: Category) -> Seq<char> {
    match category {
        Category::Lexical => "[Lexical Error]"@,
        Category::Parser => "[Parser Error]"@,
    }
}

/// The message of a lexical error. The code of a character is given as its
/// number in Unicode, reduced to its lowest eight bits.
pub open spec fn lex_message(kind: LexErrorKind) -> Seq<char> {
    match kind {
        LexErrorKind::UnendedString => "Unended string."@,
        LexErrorKind::UnexpectedChar(c) => "Unexpected character '"@.push(c)
            + "' found (character code "@ + decimal((c as u32 % 256) as nat) + ")"@,
    }
}

/// What a parse error says was expected, or that the token is unexpected.
pub open spec fn parse_message_start(kind: ParseErrorKind) -> Seq<char> {
    match kind {
        ParseErrorKind::ExpectedOpenParen(_) => "Expected token OParen after '"@,
        ParseErrorKind::ExpectedLiteral(_) => "Expected one of tokens [String, Number] after '"@,
        ParseErrorKind::ExpectedArgumentEnd(_) =>
            "Expected one of tokens [String, Number, Comma, CParen] after '"@,
        ParseErrorKind::UnexpectedToken(_) => "Unexpected token '"@,
        ParseErrorKind::NestingTooDeep => "Recursion limit exceeded at '"@,
    }
}

/// The message of a parse error.
pub open spec fn parse_message(error: ParseErrorView) -> Seq<char> {
    let start = parse_message_start(error.kind) + error.after;
    match error.kind {
        ParseErrorKind::ExpectedOpenParen(found)
        | ParseErrorKind::ExpectedLiteral(found)
        | ParseErrorKind::ExpectedArgumentEnd(found) => start + "', but found '"@ + error.found
            + "' ("@ + kind_name(found) + ")"@,
        ParseErrorKind::UnexpectedToken(kind) => start + "' ("@ + kind_name(kind) + ")"@,
        ParseErrorKind::NestingTooDeep => start + "'"@,
    }
}

/// The message of a runtime error.
pub open spec fn runtime_message(kind: RuntimeErrorKindView) -> Seq<char> {
    match kind {
        RuntimeErrorKindView::UndefinedFunction(name) => "Undefined function '"@ + name + "'"@,
        RuntimeErrorKindView::AddArity(n) =>
            "Function `add` requires only 2 (two) arguments, but got "@ + decimal(n)
            + ".\n\n[Syntax]\nadd(Number, Number)"@,
        RuntimeErrorKindView::ExpectedNumber => "Expected type NodeKind::Number"@,
        RuntimeErrorKindView::NotACall => "Unimplemented NodeKind"@,
    }
}

/// The block of text that shows an error: the heading of its category and
/// the message; the file, line and column; and the source line, with a caret
/// under the column (under the first column where the column is 0). The
/// margin is as wide as the line number. Every line ends in a line feed.
pub open spec fn diagnostic_text(category: Category, message: Seq<char>, location: LocationView)
    -> Seq<char> {
    let number = decimal(location.line_number);
    let margin = spaces(number.len());
    let indent = spaces(
        if location.column > 0 {
            (location.column - 1) as nat
        } else {
            0
        },
    );
    heading(category) + "\n"@ + message + "\n\n[Where?]\nIn file '"@ + location.file_name
        + "' at line "@ + number + ", column "@ + decimal(location.column) + "\n\n[Code]\n "@
        + margin + " |\n "@ + number + " | "@ + location.line + "\n "@ + margin + " | "@ + indent
        + "^\n"@
}

/// The block of text that shows `error`. A runtime error is shown under the
/// heading of the parser.
pub open spec fn report_text(error: ErrorView) -> Seq<char> {
    match error {
        ErrorView::Lexical(e) => diagnostic_text(
            Category::Lexical,
            lex_message(e.kind),
            e.location,
        ),
        ErrorView::Parser(e) => diagnostic_text(Category::Parser, parse_message(e), e.location),
        ErrorView::Runtime(e) => diagnostic_text(
            Category::Parser,
            runtime_message(e.kind),
            e.location,
        ),
    }
}

/// The character of the decimal digit `d`.
fn digit(d: usize) -> (c: char)
    requires
        d < 10,
    ensures
        c == digit_char(d as nat),
{
    if d == 0 {
        '0'
    } else if d == 1 {
        '1'
    } else if d == 2 {
        '2'
    } else if d == 3 {
        '3'
    } else if d == 4 {
        '4'
    } else if d == 5 {
        '5'
    } else if d == 6 {
        '6'
    } else if d == 7 {
        '7'
    } else if d == 8 {
        '8'
    } else {
        '9'
    }
}

/// The decimal digits of `n`, without leading zeros.
pub fn decimal_string(n: usize) -> (out: String)
    ensures
        out@ == decimal(n as nat),
    decreases n,
{
    if n < 10 {
        let mut out = String::new();
        out.push(digit(n));
        assert(out@ =~= seq![digit_char(n as nat)]);
        out
    } else {
        let mut out = decimal_string(n / 10);
        out.push(digit(n % 10));
        out
    }
}

/// A string of `n` spaces.
pub fn spaces_string(n: usize) -> (out: String)
    ensures
        out@ == spaces(n as nat),
{
    let mut out = String::new();
    let mut i: usize = 0;
    assert(out@ =~= spaces(0));
    while i < n
        invariant
            i <= n,
            out@ == spaces(i as nat),
        decreases n - i,
    {
        out.push(' ');
        i = i + 1;
        assert(out@ =~= spaces(i as nat));
    }
    out
}

/// The name of a token kind.
fn kind_name_of(kind: TokenKind) -> (name: &'static str)
    ensures
        name@ == kind_name(kind),
{
    match kind {
        TokenKind::Ident => "Ident",
        TokenKind::OParen => "OParen",
        TokenKind::CParen => "CParen",
        TokenKind::Number => "Number",
        TokenKind::String => "String",
        TokenKind::Comma => "Comma",
        TokenKind::Eof => "Eof",
    }
}

/// The message of a lexical error.
pub fn describe_lex_error(kind: LexErrorKind) -> (out: String)
    ensures
        out@ == lex_message(kind),
{
    match kind {
        LexErrorKind::UnendedString => String::from_str("Unended string."),
        LexErrorKind::UnexpectedChar(c) => {
            let mut out = String::from_str("Unexpected character '");
            out.push(c);
            out.append("' found (character code ");
            let code: u32 = c as u32 % 256;
            out.append(decimal_string(code as usize).as_str());
            out.append(")");
            out
        },
    }
}

/// The message of a parse error.
pub fn describe_parse_error(error: &ParseError) -> (out: String)
    ensures
        out@ == parse_message(error@),
{
    let mut out = match error.kind {
        ParseErrorKind::ExpectedOpenParen(_) => String::from_str("Expected token OParen after '"),
        ParseErrorKind::ExpectedLiteral(_) => String::from_str(
            "Expected one of tokens [String, Number] after '",
        ),
        ParseErrorKind::ExpectedArgumentEnd(_) => String::from_str(
            "Expected one of tokens [String, Number, Comma, CParen] after '",
        ),
        ParseErrorKind::UnexpectedToken(_) => String::from_str("Unexpected token '"),
        ParseErrorKind::NestingTooDeep => String::from_str("Recursion limit exceeded at '"),
    };
    out.append(error.after.as_str());
    match error.kind {
        ParseErrorKind::ExpectedOpenParen(found)
        | ParseErrorKind::ExpectedLiteral(found)
        | ParseErrorKind::ExpectedArgumentEnd(found) => {
            out.append("', but found '");
            out.append(error.found.as_str());
            out.append("' (");
            out.append(kind_name_of(found));
            out.append(")");
        },
        ParseErrorKind::UnexpectedToken(kind) => {
            out.append("' (");
            out.append(kind_name_of(kind));
            out.append(")");
        },
        ParseErrorKind::NestingTooDeep => {
            out.append("'");
        },
    }
    out
}

/// The message of a runtime error.
pub fn describe_runtime_error(kind: &RuntimeErrorKind) -> (out: String)
    ensures
        out@ == runtime_message(kind@),
{
    match kind {
        RuntimeErrorKind::UndefinedFunction(name) => {
            let mut out = String::from_str("Undefined function '");
            out.append(name.as_str());
            out.append("'");
            out
        },
        RuntimeErrorKind::AddArity(n) => {
            let mut out = String::from_str(
                "Function `add` requires only 2 (two) arguments, but got ",
            );
            out.append(decimal_string(*n).as_str());
            out.append(".\n\n[Syntax]\nadd(Number, Number)");
            out
        },
        RuntimeErrorKind::ExpectedNumber => String::from_str("Expected type NodeKind::Number"),
        RuntimeErrorKind::NotACall => String::from_str("Unimplemented NodeKind"),
    }
}

/// The block of text that shows an error of `category` with `message` at
/// `location`.
pub fn render_diagnostic(category: Category, message: &str, location: &Location) -> (out: String)
    ensures
        out@ == diagnostic_text(category, message@, location@),
{
    let number = decimal_string(location.line_number);
    let margin = spaces_string(number.as_str().unicode_len());
    let indent = spaces_string(
        if location.column > 0 {
            location.column - 1
        } else {
            0
        },
    );
    let mut out = match category {
        Category::Lexical => String::from_str("[Lexical Error]"),
        Category::Parser => String::from_str("[Parser Error]"),
    };
    out.append("\n");
    out.append(message);
    out.append("\n\n[Where?]\nIn file '");
    out.append(location.file_name.as_str());
    out.append("' at line ");
    out.append(number.as_str());
    out.append(", column ");
    out.append(decimal_string(location.column).as_str());
    out.append("\n\n[Code]\n ");
    out.append(margin.as_str());
    out.append(" |\n ");
    out.append(number.as_str());
    out.append(" | ");
    out.append(location.line.as_str());
    out.append("\n ");
    out.append(margin.as_str());
    out.append(" | ");
    out.append(indent.as_str());
    out.append("^\n");
    out
}

/// The block of text that shows `error`.
pub fn report(error: &Error) -> (out: String)
    ensures
        out@ == report_text(error@),
{
    match error {
        Error::Lexical(e) => render_diagnostic(
            Category::Lexical,
            describe_lex_error(e.kind).as_str(),
            &e.location,
        ),
        Error::Parser(e) => render_diagnostic(
            Category::Parser,
            describe_parse_error(e).as_str(),
            &e.location,
        ),
        Error::Runtime(e) => render_diagnostic(
            Category::Parser,
            describe_runtime_error(&e.kind).as_str(),
            &e.location,
        ),
    }
}

} // verus!
