//! Source positions and tokens.

use vstd::prelude::*;

verus! {

/// The class of a lexeme.
#[derive(Debug, Clone, Copy, PartialEq, Eq, Structural)]
pub enum TokenKind {
    Ident,
    OParen,
    CParen,
    Number,
    String,
    Comma,
    Eof,
}

/// A position in a source text, with the text of the line it lies on.
#[derive(Debug, Clone, PartialEq, Eq)]
pub struct Location {
    pub file_name: String,
    pub column: usize,
    pub line_number: usize,
    pub line: String,
}

/// What a `Location` holds, as mathematical values.
pub struct LocationView {
    pub file_name: Seq<char>,
    pub column: nat,
    pub line_number: nat,
    pub line: Seq<char>,
}

impl View for Location {
    type V = LocationView;

    open spec fn view(&self) -> LocationView {
        LocationView {
            file_name: self.file_name@,
            column: self.column as nat,
            line_number: self.line_number as nat,
            line: self.line@,
        }
    }
}

impl Location {
    /// A copy of this location.
    pub fn duplicate(&self) -> (out: Location)
        ensures
            out@ == self@,
    {
        Location {
            file_name: self.file_name.clone(),
            column: self.column,
            line_number: self.line_number,
            line: self.line.clone(),
        }
    }
}

/// A classified lexeme with its raw text and the place where it starts.
#[derive(Debug, Clone)]
pub struct Token {
    pub kind: TokenKind,
    pub value: String,
    pub location: Location,
}

/// What a `Token` holds, as mathematical values.
pub struct TokenView {
    pub kind: TokenKind,
    pub value: Seq<char>,
    pub location: LocationView,
}

impl View for Token {
    type V = TokenView;

    open spec fn view(&self) -> TokenView {
        TokenView { kind: self.kind, value: self.value@, location: self.location@ }
    }
}

/// The views of a sequence of tokens, in order.
pub open spec fn token_views(tokens: Seq<Token>) -> Seq<TokenView> {
    Seq::new(tokens.len(), |i: int| tokens[i]@)
}

} // verus!
