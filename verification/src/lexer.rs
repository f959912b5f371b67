//! The lexer: from source text to tokens.

use vstd::prelude::*;
use crate::text::{unicode_alphabetic, unicode_numeric, unicode_whitespace, to_chars, slice_to_string};
use crate::tokens::{Location, LocationView, Token, TokenKind, TokenView, token_views};

verus! {

/// The number of line feeds among the first `pos` characters of `src`.
pub open spec fn newline_count(src: Seq<char>, pos: int) -> nat
    decreases pos,
{
    if pos <= 0 || pos > src.len() {
        0
    } else {
        newline_count(src, pos - 1) + if src[pos - 1] == '\n' { 1nat } else { 0nat }
    }
}

/// The index at which the line that holds position `pos` starts.
pub open spec fn line_start_at(src: Seq<char>, pos: int) -> int
    decreases pos,
{
    if pos <= 0 || pos > src.len() {
        0
    } else if src[pos - 1] == '\n' {
        pos
    } else {
        line_start_at(src, pos - 1)
    }
}

/// The index of the first line feed at or after `i`, or the length of `src`.
pub open spec fn line_end_from(src: Seq<char>, i: int) -> int
    decreases src.len() - i,
{
    if i < 0 || i >= src.len() {
        src.len() as int
    } else if src[i] == '\n' {
        i
    } else {
        line_end_from(src, i + 1)
    }
}

/// The text of the line that holds position `pos`, without its line ending
/// (a line feed, or a carriage return and a line feed).
pub open spec fn line_text_at(src: Seq<char>, pos: int) -> Seq<char> {
    let start = line_start_at(src, pos);
    let end = line_end_from(src, start);
    if start < end < src.len() && src[end - 1] == '\r' {
        src.subrange(start, end - 1)
    } else {
        src.subrange(start, end)
    }
}

/// The location of position `pos` of `src`: lines and columns count from 1.
pub open spec fn location_at(file: Seq<char>, src: Seq<char>, pos: int) -> LocationView {
    LocationView {
        file_name: file,
        column: (pos - line_start_at(src, pos) + 1) as nat,
        line_number: newline_count(src, pos) + 1,
        line: line_text_at(src, pos),
    }
}

/// The classes of characters that a lexeme of several characters is made of.
#[derive(Debug, Clone, Copy, PartialEq, Eq, Structural)]
pub enum CharClass {
    /// What an identifier continues with.
    Alphanumeric,
    /// What a number is made of.
    Numeric,
    /// What stands between two double quotes.
    StringBody,
}

/// Whether `c` belongs to `class`.
pub open spec fn in_class(c: char, class: CharClass) -> bool {
    match class {
        CharClass::Alphanumeric => unicode_alphabetic(c) || unicode_numeric(c),
        CharClass::Numeric => unicode_numeric(c),
        CharClass::StringBody => c != '"',
    }
}

/// How many characters of `class` stand in a row from position `i` on.
pub open spec fn run_length(src: Seq<char>, i: int, class: CharClass) -> nat
    decreases src.len() - i,
{
    if 0 <= i < src.len() && in_class(src[i], class) {
        1 + run_length(src, i + 1, class)
    } else {
        0
    }
}

/// Why a text could not be lexed.
#[derive(Debug, Clone, Copy, PartialEq, Eq, Structural)]
pub enum LexErrorKind {
    /// A string was opened and the text ended before it was closed.
    UnendedString,
    /// A character that starts no lexeme.
    UnexpectedChar(char),
}

/// A lexical error and the place it was found at.
#[derive(Debug, Clone)]
pub struct LexError {
    pub kind: LexErrorKind,
    pub location: Location,
}

/// What a `LexError` holds, as mathematical values.
pub struct LexErrorView {
    pub kind: LexErrorKind,
    pub location: LocationView,
}

impl View for LexError {
    type V = LexErrorView;

    open spec fn view(&self) -> LexErrorView {
        LexErrorView { kind: self.kind, location: self.location@ }
    }
}

/// The tokens `first` followed by those of `rest`, or the error of `rest`.
pub open spec fn tokens_then(first: Seq<TokenView>, rest: Result<Seq<TokenView>, LexErrorView>)
    -> Result<Seq<TokenView>, LexErrorView> {
    match rest {
        Ok(more) => Ok(first + more),
        Err(e) => Err(e),
    }
}

/// The token of kind `kind` and text `value` that starts at position `pos`.
pub open spec fn token_at(
    file: Seq<char>,
    src: Seq<char>,
    pos: int,
    kind: TokenKind,
    value: Seq<char>,
) -> TokenView {
    TokenView { kind, value, location: location_at(file, src, pos) }
}

/// The tokens of `src` from position `pos` on, closed by one end-of-input
/// token, or the first lexical error.
///
/// At each position the rules apply in this order: white space is skipped;
/// an alphabetic character starts an identifier, which goes on as long as
/// alphanumeric characters follow; a numeric character starts a number, which
/// goes on as long as numeric characters follow; a double quote starts a
/// string, which ends before the next double quote; `(`, `)` and `,` stand for
/// themselves; anything else is an error.
pub open spec fn lex_from(file: Seq<char>, src: Seq<char>, pos: int) -> Result<
    Seq<TokenView>,
    LexErrorView,
>
    decreases src.len() - pos,
    via lex_from_decreases
{
    if pos < 0 || pos >= src.len() {
        Ok(seq![token_at(file, src, src.len() as int, TokenKind::Eof, Seq::empty())])
    } else {
        let c = src[pos];
        if c == '\n' || unicode_whitespace(c) {
            lex_from(file, src, pos + 1)
        } else if unicode_alphabetic(c) {
            let end = pos + 1 + run_length(src, pos + 1, CharClass::Alphanumeric);
            tokens_then(
                seq![token_at(file, src, pos, TokenKind::Ident, src.subrange(pos, end))],
                lex_from(file, src, end),
            )
        } else if unicode_numeric(c) {
            let end = pos + 1 + run_length(src, pos + 1, CharClass::Numeric);
            tokens_then(
                seq![token_at(file, src, pos, TokenKind::Number, src.subrange(pos, end))],
                lex_from(file, src, end),
            )
        } else if c == '"' {
            let close = pos + 1 + run_length(src, pos + 1, CharClass::StringBody);
            if close >= src.len() {
                Err(
                    LexErrorView {
                        kind: LexErrorKind::UnendedString,
                        location: location_at(file, src, src.len() - 1),
                    },
                )
            } else {
                tokens_then(
                    seq![token_at(file, src, pos, TokenKind::String, src.subrange(pos + 1, close))],
                    lex_from(file, src, close + 1),
                )
            }
        } else if c == '(' {
            tokens_then(
                seq![token_at(file, src, pos, TokenKind::OParen, Seq::empty())],
                lex_from(file, src, pos + 1),
            )
        } else if c == ')' {
            tokens_then(
                seq![token_at(file, src, pos, TokenKind::CParen, Seq::empty())],
                lex_from(file, src, pos + 1),
            )
        } else if c == ',' {
            tokens_then(
                seq![token_at(file, src, pos, TokenKind::Comma, Seq::empty())],
                lex_from(file, src, pos + 1),
            )
        } else {
            Err(
                LexErrorView {
                    kind: LexErrorKind::UnexpectedChar(c),
                    location: location_at(file, src, pos),
                },
            )
        }
    }
}

#[via_fn]
proof fn lex_from_decreases(file: Seq<char>, src: Seq<char>, pos: int) {
    if 0 <= pos < src.len() {
        lemma_run_length_bounds(src, pos + 1, CharClass::Alphanumeric);
        lemma_run_length_bounds(src, pos + 1, CharClass::Numeric);
        lemma_run_length_bounds(src, pos + 1, CharClass::StringBody);
    }
}

/// The tokens of the whole of `src`, or the first lexical error.
pub open spec fn lex_text(file: Seq<char>, src: Seq<char>) -> Result<Seq<TokenView>, LexErrorView> {
    lex_from(file, src, 0)
}

/// A line starts at or before each position that lies on it.
pub proof fn lemma_line_start_bounds(src: Seq<char>, pos: int)
    requires
        0 <= pos <= src.len(),
    ensures
        0 <= line_start_at(src, pos) <= pos,
        newline_count(src, pos) <= pos,
    decreases pos,
{
    if pos > 0 {
        lemma_line_start_bounds(src, pos - 1);
    }
}

/// Lines and columns count from 1, and they are those of the position: the
/// column leads back to the start of the line, which is the start of the text
/// or stands right behind a line feed; no line feed stands between that start
/// and the position; and the line number is one more than the number of line
/// feeds before the position.
pub proof fn lemma_location_exact(file: Seq<char>, src: Seq<char>, pos: int)
    requires
        0 <= pos <= src.len(),
    ensures
        ({
            let location = location_at(file, src, pos);
            let start = pos - (location.column - 1);
            &&& location.file_name == file
            &&& location.line_number >= 1
            &&& location.column >= 1
            &&& 0 <= start <= pos
            &&& start == 0 || src[start - 1] == '\n'
            &&& forall|k: int| start <= k < pos ==> src[k] != '\n'
            &&& location.line_number == 1 + src.take(pos).filter(|c: char| c == '\n').len()
        }),
    decreases pos,
{
    let is_newline = |c: char| c == '\n';
    if pos > 0 {
        lemma_location_exact(file, src, pos - 1);
        lemma_line_start_bounds(src, pos - 1);
        assert(src.take(pos - 1) == src.take(pos).drop_last());
        assert(src.take(pos).last() == src[pos - 1]);
        reveal(Seq::filter);
    } else {
        assert(src.take(0) =~= Seq::<char>::empty());
        reveal(Seq::filter);
    }
}

/// Whether `location` is the location of a position of `src` from `from` on.
pub open spec fn placed_from(location: LocationView, file: Seq<char>, src: Seq<char>, from: int)
    -> bool {
    exists|at: int| from <= at <= src.len() && location == #[trigger] location_at(file, src, at)
}

/// Whether `tokens` are some tokens that are no end of input, each at a
/// position of `src` from `from` on, followed by one end-of-input token at
/// the end of `src`.
pub open spec fn closed_by_eof(tokens: Seq<TokenView>, file: Seq<char>, src: Seq<char>, from: int)
    -> bool {
    &&& tokens.len() > 0
    &&& tokens.last() == token_at(file, src, src.len() as int, TokenKind::Eof, Seq::empty())
    &&& forall|i: int|
        0 <= i < tokens.len() - 1 ==> (#[trigger] tokens[i]).kind != TokenKind::Eof && placed_from(
            tokens[i].location,
            file,
            src,
            from,
        )
}

/// What lexing gives is well placed. Tokens are closed by exactly one
/// end-of-input token, and each lies at a position of the text. An error for
/// an unexpected character lies at a position where that character stands; an
/// error for an unended string lies at the last character of the text.
pub proof fn lemma_lex_places(file: Seq<char>, src: Seq<char>, pos: int)
    requires
        0 <= pos <= src.len(),
    ensures
        match lex_from(file, src, pos) {
            Ok(tokens) => closed_by_eof(tokens, file, src, pos),
            Err(e) => match e.kind {
                LexErrorKind::UnexpectedChar(c) => exists|at: int|
                    pos <= at < src.len() && src[at] == c && e.location == #[trigger] location_at(
                        file,
                        src,
                        at,
                    ),
                LexErrorKind::UnendedString => src.len() > 0 && e.location == location_at(
                    file,
                    src,
                    src.len() - 1,
                ),
            },
        },
    decreases src.len() - pos,
{
    if pos < src.len() {
        let c = src[pos];
        let here = location_at(file, src, pos);
        if c == '\n' || unicode_whitespace(c) {
            lemma_lex_places(file, src, pos + 1);
            lemma_placed_earlier(lex_from(file, src, pos + 1), file, src, pos + 1, pos);
        } else if unicode_alphabetic(c) || unicode_numeric(c) {
            let class = if unicode_alphabetic(c) {
                CharClass::Alphanumeric
            } else {
                CharClass::Numeric
            };
            let kind = if unicode_alphabetic(c) {
                TokenKind::Ident
            } else {
                TokenKind::Number
            };
            let end = pos + 1 + run_length(src, pos + 1, class);
            lemma_run_length_bounds(src, pos + 1, class);
            lemma_lex_places(file, src, end);
            lemma_placed_earlier(lex_from(file, src, end), file, src, end, pos);
            lemma_token_in_front(
                token_at(file, src, pos, kind, src.subrange(pos, end)),
                lex_from(file, src, end),
                file,
                src,
                pos,
            );
        } else if c == '"' {
            let close = pos + 1 + run_length(src, pos + 1, CharClass::StringBody);
            lemma_run_length_bounds(src, pos + 1, CharClass::StringBody);
            if close < src.len() {
                lemma_lex_places(file, src, close + 1);
                lemma_placed_earlier(lex_from(file, src, close + 1), file, src, close + 1, pos);
                lemma_token_in_front(
                    token_at(file, src, pos, TokenKind::String, src.subrange(pos + 1, close)),
                    lex_from(file, src, close + 1),
                    file,
                    src,
                    pos,
                );
            }
        } else if c == '(' || c == ')' || c == ',' {
            let kind = if c == '(' {
                TokenKind::OParen
            } else if c == ')' {
                TokenKind::CParen
            } else {
                TokenKind::Comma
            };
            lemma_lex_places(file, src, pos + 1);
            lemma_placed_earlier(lex_from(file, src, pos + 1), file, src, pos + 1, pos);
            lemma_token_in_front(
                token_at(file, src, pos, kind, Seq::empty()),
                lex_from(file, src, pos + 1),
                file,
                src,
                pos,
            );
        } else {
            assert(src[pos] == c && here == location_at(file, src, pos));
        }
    }
}

/// Tokens that lie from one position on lie from every earlier position on.
proof fn lemma_placed_earlier(
    rest: Result<Seq<TokenView>, LexErrorView>,
    file: Seq<char>,
    src: Seq<char>,
    from: int,
    earlier: int,
)
    requires
        earlier <= from,
        rest is Ok ==> closed_by_eof(rest->Ok_0, file, src, from),
    ensures
        rest is Ok ==> closed_by_eof(rest->Ok_0, file, src, earlier),
{
    if rest is Ok {
        let tokens = rest->Ok_0;
        assert forall|i: int| 0 <= i < tokens.len() - 1 implies (#[trigger] tokens[i]).kind
            != TokenKind::Eof && placed_from(tokens[i].location, file, src, earlier) by {
            assert(placed_from(tokens[i].location, file, src, from));
            let at = choose|at: int|
                from <= at <= src.len() && tokens[i].location == #[trigger] location_at(
                    file,
                    src,
                    at,
                );
            assert(tokens[i].location == location_at(file, src, at));
        }
    }
}

/// A token that is no end of input, put in front of well-placed tokens,
/// gives well-placed tokens.
proof fn lemma_token_in_front(
    first: TokenView,
    rest: Result<Seq<TokenView>, LexErrorView>,
    file: Seq<char>,
    src: Seq<char>,
    pos: int,
)
    requires
        0 <= pos <= src.len(),
        first.kind != TokenKind::Eof,
        first.location == location_at(file, src, pos),
        rest is Ok ==> closed_by_eof(rest->Ok_0, file, src, pos),
    ensures
        tokens_then(seq![first], rest) is Ok ==> closed_by_eof(
            tokens_then(seq![first], rest)->Ok_0,
            file,
            src,
            pos,
        ),
{
    if rest is Ok {
        let more = rest->Ok_0;
        let tokens = seq![first] + more;
        assert(tokens.last() == more.last());
        assert forall|i: int| 0 <= i < tokens.len() - 1 implies (#[trigger] tokens[i]).kind
            != TokenKind::Eof && placed_from(tokens[i].location, file, src, pos) by {
            if i == 0 {
                assert(tokens[0] == first);
                assert(first.location == location_at(file, src, pos));
            } else {
                assert(tokens[i] == more[i - 1]);
            }
        }
    }
}

/// A run does not go beyond the end of the text.
pub proof fn lemma_run_length_bounds(src: Seq<char>, i: int, class: CharClass)
    requires
        0 <= i <= src.len(),
    ensures
        i + run_length(src, i, class) <= src.len(),
    decreases src.len() - i,
{
    if i < src.len() && in_class(src[i], class) {
        lemma_run_length_bounds(src, i + 1, class);
    }
}

/// Putting tokens in front twice is putting their concatenation in front.
pub proof fn lemma_tokens_then_twice(
    a: Seq<TokenView>,
    b: Seq<TokenView>,
    rest: Result<Seq<TokenView>, LexErrorView>,
)
    ensures
        tokens_then(a, tokens_then(b, rest)) == tokens_then(a + b, rest),
{
    match rest {
        Ok(more) => {
            assert(a + (b + more) =~= (a + b) + more);
        },
        Err(_) => {},
    }
}

/// Whether `c` belongs to `class`.
pub fn char_in_class(c: char, class: CharClass) -> (b: bool)
    ensures
        b == in_class(c, class),
{
    match class {
        CharClass::Alphanumeric => c.is_alphanumeric(),
        CharClass::Numeric => c.is_numeric(),
        CharClass::StringBody => c != '"',
    }
}

/// A lexer over one source text.
#[derive(Debug, Clone)]
pub struct Lexer {
    /// The tokens found so far.
    pub output_tokens: Vec<Token>,
    source_code_chars: Vec<char>,
    current_char_index: usize,
    line_number: usize,
    line_start: usize,
    file_name: String,
}

impl Lexer {
    /// The text that is lexed.
    pub closed spec fn source(&self) -> Seq<char> {
        self.source_code_chars@
    }

    /// The name of the file that the text came from.
    pub closed spec fn file(&self) -> Seq<char> {
        self.file_name@
    }

    /// The tokens found so far, as mathematical values.
    pub closed spec fn tokens(&self) -> Seq<TokenView> {
        token_views(self.output_tokens@)
    }

    /// The position of the next character to look at.
    pub closed spec fn position(&self) -> int {
        self.current_char_index as int
    }

    /// The position lies within the text, and the line and the line's start
    /// that the lexer keeps are those of the position.
    pub closed spec fn wf(&self) -> bool {
        &&& self.source_code_chars@.len() < usize::MAX
        &&& self.current_char_index <= self.source_code_chars@.len()
        &&& self.line_number == newline_count(self.source_code_chars@, self.current_char_index as int) + 1
        &&& self.line_start == line_start_at(self.source_code_chars@, self.current_char_index as int)
    }

    /// A lexer at the start of `source_code`, with no token found yet.
    pub fn new(file_name: String, source_code: String) -> (lexer: Lexer)
        requires
            source_code@.len() < usize::MAX,
        ensures
            lexer.wf(),
            lexer.file() == file_name@,
            lexer.source() == source_code@,
            lexer.position() == 0,
            lexer.tokens().len() == 0,
    {
        Lexer {
            output_tokens: Vec::new(),
            source_code_chars: to_chars(source_code.as_str()),
            current_char_index: 0,
            line_number: 1,
            line_start: 0,
            file_name,
        }
    }

    /// Gives up the lexer for the tokens it has found.
    pub fn into_tokens(self) -> (tokens: Vec<Token>)
        ensures
            token_views(tokens@) == self.tokens(),
    {
        self.output_tokens
    }

    /// Whether every character has been looked at.
    pub fn is_eof(&self) -> (b: bool)
        requires
            self.wf(),
        ensures
            b == (self.position() == self.source().len()),
    {
        self.current_char_index == self.source_code_chars.len()
    }

    /// Steps over the current character.
    pub fn next(&mut self)
        requires
            old(self).wf(),
            old(self).position() < old(self).source().len(),
        ensures
            final(self).wf(),
            final(self).position() == old(self).position() + 1,
            final(self).source() == old(self).source(),
            final(self).file() == old(self).file(),
            final(self).tokens() == old(self).tokens(),
    {
        proof {
            lemma_line_start_bounds(self.source_code_chars@, self.current_char_index as int);
        }
        if self.source_code_chars[self.current_char_index] == '\n' {
            self.line_number = self.line_number + 1;
            self.line_start = self.current_char_index + 1;
        }
        self.current_char_index = self.current_char_index + 1;
    }

    /// Steps back to the character before the current one.
    pub fn go_back(&mut self)
        requires
            old(self).wf(),
            old(self).position() > 0,
        ensures
            final(self).wf(),
            final(self).position() == old(self).position() - 1,
            final(self).source() == old(self).source(),
            final(self).file() == old(self).file(),
            final(self).tokens() == old(self).tokens(),
    {
        self.current_char_index = self.current_char_index - 1;
        if self.source_code_chars[self.current_char_index] == '\n' {
            self.line_number = self.line_number - 1;
            let mut start: usize = self.current_char_index;
            while start > 0 && self.source_code_chars[start - 1] != '\n'
                invariant
                    start <= self.current_char_index < self.source_code_chars@.len(),
                    line_start_at(self.source_code_chars@, self.current_char_index as int)
                        == line_start_at(self.source_code_chars@, start as int),
                decreases start,
            {
                start = start - 1;
            }
            self.line_start = start;
        }
    }

    /// The character at the current position.
    pub fn current_char(&self) -> (c: char)
        requires
            self.wf(),
            self.position() < self.source().len(),
        ensures
            c == self.source()[self.position()],
    {
        self.source_code_chars[self.current_char_index]
    }

    /// The number of the line that the current position lies on, from 1.
    pub fn current_line_number(&self) -> (n: usize)
        requires
            self.wf(),
        ensures
            n == newline_count(self.source(), self.position()) + 1,
    {
        self.line_number
    }

    /// The column of the current position within its line, from 1.
    pub fn current_column(&self) -> (n: usize)
        requires
            self.wf(),
        ensures
            n == self.position() - line_start_at(self.source(), self.position()) + 1,
    {
        proof {
            lemma_line_start_bounds(self.source_code_chars@, self.current_char_index as int);
        }
        self.current_char_index - self.line_start + 1
    }

    /// The text of the line that the current position lies on.
    pub fn current_line(&self) -> (line: String)
        requires
            self.wf(),
        ensures
            line@ == line_text_at(self.source(), self.position()),
    {
        proof {
            lemma_line_start_bounds(self.source_code_chars@, self.current_char_index as int);
        }
        let len = self.source_code_chars.len();
        let mut end: usize = self.line_start;
        while end < len && self.source_code_chars[end] != '\n'
            invariant
                len == self.source_code_chars@.len(),
                self.line_start <= end <= len,
                line_end_from(self.source_code_chars@, self.line_start as int) == line_end_from(
                    self.source_code_chars@,
                    end as int,
                ),
            decreases len - end,
        {
            end = end + 1;
        }
        if self.line_start < end && end < len && self.source_code_chars[end - 1] == '\r' {
            slice_to_string(&self.source_code_chars, self.line_start, end - 1)
        } else {
            slice_to_string(&self.source_code_chars, self.line_start, end)
        }
    }

    /// The location of the current position.
    pub fn current_location(&self) -> (location: Location)
        requires
            self.wf(),
        ensures
            location@ == location_at(self.file(), self.source(), self.position()),
    {
        Location {
            file_name: self.file_name.clone(),
            column: self.current_column(),
            line_number: self.current_line_number(),
            line: self.current_line(),
        }
    }

    /// Steps over the characters of `class` that stand in a row from the
    /// current position on.
    fn skip_run(&mut self, class: CharClass)
        requires
            old(self).wf(),
        ensures
            final(self).wf(),
            final(self).position() == old(self).position() + run_length(
                old(self).source(),
                old(self).position(),
                class,
            ),
            final(self).source() == old(self).source(),
            final(self).file() == old(self).file(),
            final(self).tokens() == old(self).tokens(),
    {
        while !self.is_eof() && char_in_class(self.current_char(), class)
            invariant
                self.wf(),
                self.source() == old(self).source(),
                self.file() == old(self).file(),
                self.tokens() == old(self).tokens(),
                old(self).position() <= self.position(),
                old(self).position() + run_length(old(self).source(), old(self).position(), class)
                    == self.position() + run_length(self.source(), self.position(), class),
            decreases self.source().len() - self.position(),
        {
            self.next();
        }
    }

    /// Adds a token that starts at `location` to the tokens found.
    fn emit(&mut self, kind: TokenKind, value: String, location: Location)
        requires
            old(self).wf(),
        ensures
            final(self).wf(),
            final(self).position() == old(self).position(),
            final(self).source() == old(self).source(),
            final(self).file() == old(self).file(),
            final(self).tokens() == old(self).tokens().push(
                TokenView { kind, value: value@, location: location@ },
            ),
    {
        self.output_tokens.push(Token { kind, value, location });
        assert(token_views(self.output_tokens@) =~= token_views(old(self).output_tokens@).push(
            TokenView { kind, value: value@, location: location@ },
        ));
    }

    /// Lexes the rest of the text. On success the tokens of the rest, closed
    /// by one end-of-input token, are added to `output_tokens`, and the lexer
    /// ends behind the last character. On an error `output_tokens` is left
    /// empty, and the lexer stays at the place of the error.
    pub fn lex(&mut self) -> (result: Result<(), LexError>)
        requires
            old(self).wf(),
        ensures
            final(self).wf(),
            final(self).source() == old(self).source(),
            final(self).file() == old(self).file(),
            match lex_from(old(self).file(), old(self).source(), old(self).position()) {
                Ok(tokens) => {
                    &&& result is Ok
                    &&& final(self).position() == old(self).source().len()
                    &&& final(self).tokens() == old(self).tokens() + tokens
                },
                Err(e) => {
                    &&& result is Err
                    &&& result->Err_0@ == e
                    &&& final(self).tokens().len() == 0
                    &&& e.location == location_at(
                        old(self).file(),
                        old(self).source(),
                        final(self).position(),
                    )
                },
            },
    {
        let ghost file = self.file();
        let ghost src = self.source();
        let ghost goal = tokens_then(
            token_views(self.output_tokens@),
            lex_from(file, src, self.position()),
        );
        while !self.is_eof()
            invariant
                self.wf(),
                self.source() == src,
                self.file() == file,
                old(self).source() == src,
                old(self).file() == file,
                goal == tokens_then(
                    old(self).tokens(),
                    lex_from(file, src, old(self).position()),
                ),
                goal == tokens_then(
                    token_views(self.output_tokens@),
                    lex_from(file, src, self.position()),
                ),
            decreases src.len() - self.position(),
        {
            let c = self.current_char();
            let ghost pos = self.position();
            let ghost before = token_views(self.output_tokens@);
            if c == '\n' || c.is_whitespace() {
                self.next();
            } else if c.is_alphabetic() {
                let location = self.current_location();
                let start = self.current_char_index;
                self.next();
                self.skip_run(CharClass::Alphanumeric);
                proof {
                    lemma_run_length_bounds(src, pos + 1, CharClass::Alphanumeric);
                }
                let value = slice_to_string(&self.source_code_chars, start, self.current_char_index);
                self.emit(TokenKind::Ident, value, location);
                proof {
                    lemma_tokens_then_twice(
                        before,
                        seq![token_at(file, src, pos, TokenKind::Ident, value@)],
                        lex_from(file, src, self.position()),
                    );
                    assert(before.push(token_at(file, src, pos, TokenKind::Ident, value@))
                        =~= before + seq![token_at(file, src, pos, TokenKind::Ident, value@)]);
                }
            } else if c.is_numeric() {
                let location = self.current_location();
                let start = self.current_char_index;
                self.next();
                self.skip_run(CharClass::Numeric);
                proof {
                    lemma_run_length_bounds(src, pos + 1, CharClass::Numeric);
                }
                let value = slice_to_string(&self.source_code_chars, start, self.current_char_index);
                self.emit(TokenKind::Number, value, location);
                proof {
                    lemma_tokens_then_twice(
                        before,
                        seq![token_at(file, src, pos, TokenKind::Number, value@)],
                        lex_from(file, src, self.position()),
                    );
                    assert(before.push(token_at(file, src, pos, TokenKind::Number, value@))
                        =~= before + seq![token_at(file, src, pos, TokenKind::Number, value@)]);
                }
            } else if c == '"' {
                let location = self.current_location();
                let start = self.current_char_index;
                self.next();
                self.skip_run(CharClass::StringBody);
                proof {
                    lemma_run_length_bounds(src, pos + 1, CharClass::StringBody);
                }
                if self.is_eof() {
                    self.go_back();
                    let location = self.current_location();
                    self.output_tokens = Vec::new();
                    return Err(LexError { kind: LexErrorKind::UnendedString, location });
                }
                let value = slice_to_string(
                    &self.source_code_chars,
                    start + 1,
                    self.current_char_index,
                );
                self.emit(TokenKind::String, value, location);
                self.next();
                proof {
                    lemma_tokens_then_twice(
                        before,
                        seq![token_at(file, src, pos, TokenKind::String, value@)],
                        lex_from(file, src, self.position()),
                    );
                    assert(before.push(token_at(file, src, pos, TokenKind::String, value@))
                        =~= before + seq![token_at(file, src, pos, TokenKind::String, value@)]);
                }
            } else if c == '(' || c == ')' || c == ',' {
                let kind = if c == '(' {
                    TokenKind::OParen
                } else if c == ')' {
                    TokenKind::CParen
                } else {
                    TokenKind::Comma
                };
                let location = self.current_location();
                self.emit(kind, String::new(), location);
                self.next();
                proof {
                    lemma_tokens_then_twice(
                        before,
                        seq![token_at(file, src, pos, kind, Seq::empty())],
                        lex_from(file, src, self.position()),
                    );
                    assert(before.push(token_at(file, src, pos, kind, Seq::empty())) =~= before
                        + seq![token_at(file, src, pos, kind, Seq::empty())]);
                }
            } else {
                let location = self.current_location();
                self.output_tokens = Vec::new();
                return Err(LexError { kind: LexErrorKind::UnexpectedChar(c), location });
            }
        }
        let ghost before = token_views(self.output_tokens@);
        let location = self.current_location();
        self.emit(TokenKind::Eof, String::new(), location);
        proof {
            assert(before.push(token_at(file, src, src.len() as int, TokenKind::Eof, Seq::empty()))
                =~= before + seq![
                token_at(file, src, src.len() as int, TokenKind::Eof, Seq::empty()),
            ]);
        }
        Ok(())
    }
}

} // verus!
