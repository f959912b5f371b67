//! The parser: from tokens to the calls of a program.

use vstd::prelude::*;
use crate::ast::{Node, NodeKind, NodeKindView, NodeView, Number, NumberView, node_views, lemma_call_view};
use crate::tokens::{Location, LocationView, Token, TokenKind, TokenView, token_views};

verus! {

/// How deep calls may be nested in one another: a call at the top of the
/// program has depth 0, and a deeper one than this is refused.
pub const MAX_NESTING: usize = 128;

/// Why a token sequence could not be parsed.
#[derive(Debug, Clone, Copy, PartialEq, Eq, Structural)]
pub enum ParseErrorKind {
    /// A name was not followed by `(`; holds the kind that was found.
    ExpectedOpenParen(TokenKind),
    /// A comma was not followed by a string or a number; holds the kind found.
    ExpectedLiteral(TokenKind),
    /// An argument was not followed by a string, a number, a comma or `)`;
    /// holds the kind found.
    ExpectedArgumentEnd(TokenKind),
    /// A token that cannot stand in an argument list; holds its kind.
    UnexpectedToken(TokenKind),
    /// Calls are nested deeper than `MAX_NESTING`.
    NestingTooDeep,
}

/// A parse error, the place and the text of the token at which it was
/// found, and the text of the token that follows that one.
#[derive(Debug, Clone)]
pub struct ParseError {
    pub kind: ParseErrorKind,
    pub location: Location,
    pub after: String,
    pub found: String,
}

/// What a `ParseError` holds, as mathematical values.
pub struct ParseErrorView {
    pub kind: ParseErrorKind,
    pub location: LocationView,
    pub after: Seq<char>,
    pub found: Seq<char>,
}

impl View for ParseError {
    type V = ParseErrorView;

    open spec fn view(&self) -> ParseErrorView {
        ParseErrorView {
            kind: self.kind,
            location: self.location@,
            after: self.after@,
            found: self.found@,
        }
    }
}

/// The kind of the token at index `i`; past the last token, end of input.
pub open spec fn kind_at(tokens: Seq<TokenView>, i: int) -> TokenKind {
    if 0 <= i < tokens.len() {
        tokens[i].kind
    } else {
        TokenKind::Eof
    }
}

/// The error `kind` found at index `i`: its place and text are those of the
/// token there, or of the last token where the sequence has ended; the text
/// found is that of the token behind index `i`, and empty where there is none.
pub open spec fn error_at(tokens: Seq<TokenView>, i: int, kind: ParseErrorKind) -> ParseErrorView {
    let at = if i < tokens.len() {
        i
    } else {
        tokens.len() - 1
    };
    ParseErrorView {
        kind,
        location: tokens[at].location,
        after: tokens[at].value,
        found: if i + 1 < tokens.len() {
            tokens[i + 1].value
        } else {
            Seq::empty()
        },
    }
}

/// Whether a token of this kind is a literal.
pub open spec fn starts_literal(kind: TokenKind) -> bool {
    kind == TokenKind::String || kind == TokenKind::Number
}

/// Whether a token of this kind may follow an argument.
pub open spec fn may_follow_argument(kind: TokenKind) -> bool {
    kind == TokenKind::String || kind == TokenKind::Number || kind == TokenKind::Comma || kind
        == TokenKind::CParen
}

/// The literal that a string or number token denotes.
pub open spec fn literal_node(token: TokenView) -> NodeView {
    NodeView {
        kind: if token.kind == TokenKind::String {
            NodeKindView::String(token.value)
        } else {
            NodeKindView::Number(NumberView::Literal(token.value))
        },
        location: token.location,
    }
}

/// The arguments `first`, read from `used` tokens, followed by those of `rest`.
pub open spec fn args_then(
    first: Seq<NodeView>,
    used: nat,
    rest: Result<(Seq<NodeView>, nat), ParseErrorView>,
) -> Result<(Seq<NodeView>, nat), ParseErrorView> {
    match rest {
        Ok((more, n)) => Ok((first + more, used + n)),
        Err(e) => Err(e),
    }
}

/// The call whose name is the token at index `i`, with the distance from the
/// name to the call's closing parenthesis; or the first error.
pub open spec fn parse_call(tokens: Seq<TokenView>, i: int, depth: nat) -> Result<
    (NodeView, nat),
    ParseErrorView,
>
    decreases tokens.len() - i, 0nat,
{
    if depth > MAX_NESTING {
        Err(error_at(tokens, i, ParseErrorKind::NestingTooDeep))
    } else if kind_at(tokens, i + 1) != TokenKind::OParen {
        Err(error_at(tokens, i, ParseErrorKind::ExpectedOpenParen(kind_at(tokens, i + 1))))
    } else {
        match parse_args(tokens, i + 2, depth) {
            Err(e) => Err(e),
            Ok((args, used)) => Ok(
                (
                    NodeView {
                        kind: NodeKindView::Func(tokens[i].value, args),
                        location: tokens[i].location,
                    },
                    2 + used,
                ),
            ),
        }
    }
}

/// The arguments that stand from index `j` up to the closing parenthesis of
/// the call around them, with the number of tokens before that parenthesis;
/// or the first error.
///
/// A string or a number is an argument. A name starts a nested call, which is
/// an argument. Each argument must be followed by a string, a number, a comma
/// or the closing parenthesis. A comma adds nothing and must be followed by a
/// string or a number.
pub open spec fn parse_args(tokens: Seq<TokenView>, j: int, depth: nat) -> Result<
    (Seq<NodeView>, nat),
    ParseErrorView,
>
    decreases tokens.len() - j, 1nat,
{
    match kind_at(tokens, j) {
        TokenKind::String | TokenKind::Number => {
            if !may_follow_argument(kind_at(tokens, j + 1)) {
                Err(
                    error_at(
                        tokens,
                        j,
                        ParseErrorKind::ExpectedArgumentEnd(kind_at(tokens, j + 1)),
                    ),
                )
            } else {
                args_then(seq![literal_node(tokens[j])], 1, parse_args(tokens, j + 1, depth))
            }
        },
        TokenKind::Ident => {
            match parse_call(tokens, j, depth + 1) {
                Err(e) => Err(e),
                Ok((node, close)) => {
                    if !may_follow_argument(kind_at(tokens, j + close + 1)) {
                        Err(
                            error_at(
                                tokens,
                                j + close,
                                ParseErrorKind::ExpectedArgumentEnd(
                                    kind_at(tokens, j + close + 1),
                                ),
                            ),
                        )
                    } else {
                        args_then(
                            seq![node],
                            close + 1,
                            parse_args(tokens, j + close + 1, depth),
                        )
                    }
                },
            }
        },
        TokenKind::Comma => {
            if !starts_literal(kind_at(tokens, j + 1)) {
                Err(error_at(tokens, j, ParseErrorKind::ExpectedLiteral(kind_at(tokens, j + 1))))
            } else {
                args_then(Seq::empty(), 1, parse_args(tokens, j + 1, depth))
            }
        },
        TokenKind::CParen => Ok((Seq::empty(), 0)),
        TokenKind::OParen | TokenKind::Eof => Err(
            error_at(tokens, j, ParseErrorKind::UnexpectedToken(kind_at(tokens, j))),
        ),
    }
}

/// The nodes `first` followed by those of `rest`, or the error of `rest`.
pub open spec fn nodes_then(first: Seq<NodeView>, rest: Result<Seq<NodeView>, ParseErrorView>)
    -> Result<Seq<NodeView>, ParseErrorView> {
    match rest {
        Ok(more) => Ok(first + more),
        Err(e) => Err(e),
    }
}

/// The calls of the program that the tokens from index `i` on denote, or the
/// first error. A name starts a call; the end-of-input token ends the
/// program; a token of any other kind between two calls is passed over.
pub open spec fn parse_program(tokens: Seq<TokenView>, i: int) -> Result<
    Seq<NodeView>,
    ParseErrorView,
>
    decreases tokens.len() - i,
    via parse_program_decreases
{
    if i < 0 || i >= tokens.len() {
        Ok(Seq::empty())
    } else {
        match tokens[i].kind {
            TokenKind::Ident => match parse_call(tokens, i, 0) {
                Err(e) => Err(e),
                Ok((node, close)) => nodes_then(seq![node], parse_program(tokens, i + close + 1)),
            },
            TokenKind::Eof => Ok(Seq::empty()),
            _ => parse_program(tokens, i + 1),
        }
    }
}

#[via_fn]
proof fn parse_program_decreases(tokens: Seq<TokenView>, i: int) {
    if 0 <= i < tokens.len() {
        lemma_parse_call_closes(tokens, i, 0);
    }
}

/// A call that parses ends at a closing parenthesis within the tokens.
pub proof fn lemma_parse_call_closes(tokens: Seq<TokenView>, i: int, depth: nat)
    requires
        0 <= i,
    ensures
        parse_call(tokens, i, depth) matches Ok((_, close)) ==> i + close < tokens.len() && kind_at(
            tokens,
            i + close,
        ) == TokenKind::CParen,
    decreases tokens.len() - i, 0nat,
{
    if depth <= MAX_NESTING && kind_at(tokens, i + 1) == TokenKind::OParen {
        lemma_parse_args_closes(tokens, i + 2, depth);
    }
}

/// An argument list that parses ends at a closing parenthesis within the tokens.
pub proof fn lemma_parse_args_closes(tokens: Seq<TokenView>, j: int, depth: nat)
    requires
        0 <= j,
    ensures
        parse_args(tokens, j, depth) matches Ok((_, used)) ==> j + used < tokens.len() && kind_at(
            tokens,
            j + used,
        ) == TokenKind::CParen,
    decreases tokens.len() - j, 1nat,
{
    match kind_at(tokens, j) {
        TokenKind::String | TokenKind::Number => {
            if may_follow_argument(kind_at(tokens, j + 1)) {
                lemma_parse_args_closes(tokens, j + 1, depth);
            }
        },
        TokenKind::Ident => {
            lemma_parse_call_closes(tokens, j, depth + 1);
            match parse_call(tokens, j, depth + 1) {
                Err(e) => {},
                Ok((node, close)) => {
                    if may_follow_argument(kind_at(tokens, j + close + 1)) {
                        lemma_parse_args_closes(tokens, j + close + 1, depth);
                    }
                },
            }
        },
        TokenKind::Comma => {
            if starts_literal(kind_at(tokens, j + 1)) {
                lemma_parse_args_closes(tokens, j + 1, depth);
            }
        },
        _ => {},
    }
}

/// A parsed program is made of calls only.
pub proof fn lemma_program_is_calls(tokens: Seq<TokenView>, i: int)
    requires
        0 <= i,
    ensures
        parse_program(tokens, i) matches Ok(nodes) ==> forall|k: int|
            0 <= k < nodes.len() ==> (#[trigger] nodes[k]).kind is Func,
    decreases tokens.len() - i,
{
    if i < tokens.len() {
        match tokens[i].kind {
            TokenKind::Ident => {
                match parse_call(tokens, i, 0) {
                    Err(_) => {},
                    Ok((node, close)) => {
                        lemma_parse_call_closes(tokens, i, 0);
                        lemma_program_is_calls(tokens, i + close + 1);
                        match parse_program(tokens, i + close + 1) {
                            Ok(more) => {
                                let nodes = seq![node] + more;
                                assert forall|k: int| 0 <= k < nodes.len() implies (
                                #[trigger] nodes[k]).kind is Func by {
                                    if k > 0 {
                                        assert(nodes[k] == more[k - 1]);
                                    }
                                }
                            },
                            Err(_) => {},
                        }
                    },
                }
            },
            TokenKind::Eof => {},
            _ => {
                lemma_program_is_calls(tokens, i + 1);
            },
        }
    }
}

/// Putting arguments in front twice is putting their concatenation in front.
pub proof fn lemma_args_then_twice(
    a: Seq<NodeView>,
    n: nat,
    b: Seq<NodeView>,
    m: nat,
    rest: Result<(Seq<NodeView>, nat), ParseErrorView>,
)
    ensures
        args_then(a, n, args_then(b, m, rest)) == args_then(a + b, n + m, rest),
{
    match rest {
        Ok((more, k)) => {
            assert(a + (b + more) =~= (a + b) + more);
        },
        Err(_) => {},
    }
}

/// Putting nodes in front twice is putting their concatenation in front.
pub proof fn lemma_nodes_then_twice(
    a: Seq<NodeView>,
    b: Seq<NodeView>,
    rest: Result<Seq<NodeView>, ParseErrorView>,
)
    ensures
        nodes_then(a, nodes_then(b, rest)) == nodes_then(a + b, rest),
{
    match rest {
        Ok(more) => {
            assert(a + (b + more) =~= (a + b) + more);
        },
        Err(_) => {},
    }
}

/// A parser over one token sequence.
#[derive(Debug)]
pub struct Parser {
    /// The calls parsed so far.
    pub output_nodes: Vec<Node>,
    input_tokens: Vec<Token>,
    current_token_index: usize,
}

impl Parser {
    /// The tokens that are parsed, as mathematical values.
    pub closed spec fn tokens(&self) -> Seq<TokenView> {
        token_views(self.input_tokens@)
    }

    /// The index of the next token to look at.
    pub closed spec fn position(&self) -> int {
        self.current_token_index as int
    }

    /// The calls parsed so far, as mathematical values.
    pub closed spec fn nodes(&self) -> Seq<NodeView> {
        node_views(self.output_nodes@)
    }

    /// The position lies within the tokens or just behind them.
    pub closed spec fn wf(&self) -> bool {
        self.current_token_index <= self.input_tokens@.len()
    }

    /// A parser at the first of `input_tokens`, with no call parsed yet.
    pub fn new(input_tokens: Vec<Token>) -> (parser: Parser)
        ensures
            parser.wf(),
            parser.tokens() == token_views(input_tokens@),
            parser.position() == 0,
            parser.nodes().len() == 0,
    {
        Parser { output_nodes: Vec::new(), input_tokens, current_token_index: 0 }
    }

    /// Gives up the parser for the calls it has parsed.
    pub fn into_nodes(self) -> (nodes: Vec<Node>)
        ensures
            node_views(nodes@) == self.nodes(),
    {
        self.output_nodes
    }

    /// The kind of the token at the current position.
    fn current_token(&self) -> (kind: TokenKind)
        requires
            self.wf(),
        ensures
            kind == kind_at(self.tokens(), self.position()),
    {
        if self.current_token_index < self.input_tokens.len() {
            self.input_tokens[self.current_token_index].kind
        } else {
            TokenKind::Eof
        }
    }

    /// The kind of the token after the current position.
    fn peek(&self) -> (kind: TokenKind)
        requires
            self.wf(),
        ensures
            kind == kind_at(self.tokens(), self.position() + 1),
    {
        if self.current_token_index < self.input_tokens.len() && self.current_token_index + 1
            < self.input_tokens.len() {
            self.input_tokens[self.current_token_index + 1].kind
        } else {
            TokenKind::Eof
        }
    }

    /// Steps to the next token.
    fn next(&mut self)
        requires
            old(self).wf(),
            old(self).position() < old(self).tokens().len(),
        ensures
            final(self).wf(),
            final(self).position() == old(self).position() + 1,
            final(self).input_tokens == old(self).input_tokens,
            final(self).output_nodes == old(self).output_nodes,
    {
        let len = self.input_tokens.len();
        assert(self.tokens().len() == len);
        self.current_token_index = self.current_token_index + 1;
    }

    /// The error `kind`, found at the current position.
    fn error_here(&self, kind: ParseErrorKind) -> (error: ParseError)
        requires
            self.wf(),
            self.tokens().len() > 0,
        ensures
            error@ == error_at(self.tokens(), self.position(), kind),
    {
        let at = if self.current_token_index < self.input_tokens.len() {
            self.current_token_index
        } else {
            self.input_tokens.len() - 1
        };
        let found = if self.current_token_index < self.input_tokens.len()
            && self.current_token_index + 1 < self.input_tokens.len() {
            self.input_tokens[self.current_token_index + 1].value.clone()
        } else {
            String::new()
        };
        ParseError {
            kind,
            location: self.input_tokens[at].location.duplicate(),
            after: self.input_tokens[at].value.clone(),
            found,
        }
    }

    /// Checks that a token of kind `expected_kind` follows the current one.
    fn expect(&self, expected_kind: TokenKind) -> (found: Result<(), TokenKind>)
        requires
            self.wf(),
        ensures
            kind_at(self.tokens(), self.position() + 1) == expected_kind ==> found is Ok,
            kind_at(self.tokens(), self.position() + 1) != expected_kind ==> found == Err::<
                (),
                TokenKind,
            >(kind_at(self.tokens(), self.position() + 1)),
    {
        let next_kind = self.peek();
        if next_kind == expected_kind {
            Ok(())
        } else {
            Err(next_kind)
        }
    }

    /// Checks that a token of one of `expected_kinds` follows the current one.
    fn expect_one_of(&self, expected_kinds: &[TokenKind]) -> (found: Result<(), TokenKind>)
        requires
            self.wf(),
        ensures
            expected_kinds@.contains(kind_at(self.tokens(), self.position() + 1)) ==> found is Ok,
            !expected_kinds@.contains(kind_at(self.tokens(), self.position() + 1)) ==> found
                == Err::<(), TokenKind>(kind_at(self.tokens(), self.position() + 1)),
    {
        let next_kind = self.peek();
        let mut i: usize = 0;
        while i < expected_kinds.len()
            invariant
                i <= expected_kinds@.len(),
                next_kind == kind_at(self.tokens(), self.position() + 1),
                forall|k: int| 0 <= k < i ==> expected_kinds@[k] != next_kind,
            decreases expected_kinds@.len() - i,
        {
            if expected_kinds[i] == next_kind {
                assert(expected_kinds@[i as int] == next_kind);
                assert(expected_kinds@.contains(next_kind));
                return Ok(());
            }
            i = i + 1;
        }
        Err(next_kind)
    }

    /// Parses the call whose name is the current token, and stops at its
    /// closing parenthesis.
    fn eat_func(&mut self, depth: usize) -> (result: Result<Node, ParseError>)
        requires
            old(self).wf(),
            old(self).position() < old(self).tokens().len(),
            depth <= MAX_NESTING + 1,
        ensures
            final(self).wf(),
            final(self).input_tokens == old(self).input_tokens,
            final(self).output_nodes == old(self).output_nodes,
            match parse_call(old(self).tokens(), old(self).position(), depth as nat) {
                Ok((node, close)) => {
                    &&& result is Ok
                    &&& result->Ok_0@ == node
                    &&& final(self).position() == old(self).position() + close
                    &&& final(self).position() < old(self).tokens().len()
                },
                Err(e) => result is Err && result->Err_0@ == e,
            },
        decreases old(self).tokens().len() - old(self).position(),
    {
        let ghost tokens = self.tokens();
        let ghost start = self.position();
        if depth > MAX_NESTING {
            return Err(self.error_here(ParseErrorKind::NestingTooDeep));
        }
        if let Err(found) = self.expect(TokenKind::OParen) {
            return Err(self.error_here(ParseErrorKind::ExpectedOpenParen(found)));
        }
        let name = self.input_tokens[self.current_token_index].value.clone();
        let location = self.input_tokens[self.current_token_index].location.duplicate();
        self.next();
        self.next();
        let mut args: Vec<Node> = Vec::new();
        assert(node_views(args@) =~= Seq::<NodeView>::empty());
        assert(parse_args(tokens, start + 2, depth as nat) == args_then(
            Seq::empty(),
            0,
            parse_args(tokens, start + 2, depth as nat),
        )) by {
            match parse_args(tokens, start + 2, depth as nat) {
                Ok((more, n)) => {
                    assert(Seq::<NodeView>::empty() + more =~= more);
                },
                Err(_) => {},
            }
        }
        loop
            invariant
                self.wf(),
                self.tokens() == tokens,
                self.input_tokens == old(self).input_tokens,
                self.output_nodes == old(self).output_nodes,
                depth <= MAX_NESTING,
                0 <= start,
                old(self).tokens() == tokens,
                old(self).position() == start,
                kind_at(tokens, start + 1) == TokenKind::OParen,
                start + 2 <= self.position() <= tokens.len(),
                parse_args(tokens, start + 2, depth as nat) == args_then(
                    node_views(args@),
                    (self.position() - (start + 2)) as nat,
                    parse_args(tokens, self.position(), depth as nat),
                ),
            ensures
                self.wf(),
                self.input_tokens == old(self).input_tokens,
                self.output_nodes == old(self).output_nodes,
                self.position() < tokens.len(),
                parse_args(tokens, start + 2, depth as nat) == Ok::<
                    (Seq<NodeView>, nat),
                    ParseErrorView,
                >((node_views(args@), (self.position() - (start + 2)) as nat)),
            decreases tokens.len() - self.position(),
        {
            let ghost here = self.position();
            let ghost before = node_views(args@);
            let ghost used = (here - (start + 2)) as nat;
            let kind = self.current_token();
            match kind {
                TokenKind::String | TokenKind::Number => {
                    if let Err(found) = self.expect_one_of(
                        &[
                            TokenKind::String,
                            TokenKind::Number,
                            TokenKind::Comma,
                            TokenKind::CParen,
                        ],
                    ) {
                        return Err(self.error_here(ParseErrorKind::ExpectedArgumentEnd(found)));
                    }
                    let token = &self.input_tokens[self.current_token_index];
                    let node = if kind == TokenKind::String {
                        Node {
                            kind: NodeKind::String(token.value.clone()),
                            location: token.location.duplicate(),
                        }
                    } else {
                        Node {
                            kind: NodeKind::Number(Number::Literal(token.value.clone())),
                            location: token.location.duplicate(),
                        }
                    };
                    assert(node@ == literal_node(tokens[here]));
                    args.push(node);
                    self.next();
                    proof {
                        assert(node_views(args@) =~= before + seq![literal_node(tokens[here])]);
                        lemma_args_then_twice(
                            before,
                            used,
                            seq![literal_node(tokens[here])],
                            1,
                            parse_args(tokens, here + 1, depth as nat),
                        );
                    }
                },
                TokenKind::Ident => {
                    match self.eat_func(depth + 1) {
                        Err(e) => {
                            return Err(e);
                        },
                        Ok(node) => {
                            let ghost close = (self.position() - here) as nat;
                            if let Err(found) = self.expect_one_of(
                                &[
                                    TokenKind::String,
                                    TokenKind::Number,
                                    TokenKind::Comma,
                                    TokenKind::CParen,
                                ],
                            ) {
                                return Err(
                                    self.error_here(ParseErrorKind::ExpectedArgumentEnd(found)),
                                );
                            }
                            let ghost view = node@;
                            args.push(node);
                            self.next();
                            proof {
                                assert(node_views(args@) =~= before + seq![view]);
                                lemma_args_then_twice(
                                    before,
                                    used,
                                    seq![view],
                                    close + 1,
                                    parse_args(tokens, here + close + 1, depth as nat),
                                );
                            }
                        },
                    }
                },
                TokenKind::Comma => {
                    if let Err(found) = self.expect_one_of(&[TokenKind::String, TokenKind::Number]) {
                        return Err(self.error_here(ParseErrorKind::ExpectedLiteral(found)));
                    }
                    self.next();
                    proof {
                        assert(before + Seq::<NodeView>::empty() =~= before);
                        lemma_args_then_twice(
                            before,
                            used,
                            Seq::empty(),
                            1,
                            parse_args(tokens, here + 1, depth as nat),
                        );
                    }
                },
                TokenKind::CParen => {
                    assert(before + Seq::<NodeView>::empty() =~= before);
                    break ;
                },
                TokenKind::OParen | TokenKind::Eof => {
                    return Err(self.error_here(ParseErrorKind::UnexpectedToken(kind)));
                },
            }
        }
        let node = Node { kind: NodeKind::Func(name, args), location };
        proof {
            lemma_call_view(node);
        }
        Ok(node)
    }

    /// Parses the rest of the tokens. On success the calls of the rest are
    /// added to `output_nodes`, in order. On an error `output_nodes` is left
    /// empty. Either way the parser ends behind the last token.
    pub fn parse(&mut self) -> (result: Result<(), ParseError>)
        requires
            old(self).wf(),
        ensures
            final(self).wf(),
            final(self).tokens() == old(self).tokens(),
            final(self).position() == old(self).tokens().len(),
            match parse_program(old(self).tokens(), old(self).position()) {
                Ok(nodes) => {
                    &&& result is Ok
                    &&& final(self).nodes() == old(self).nodes() + nodes
                },
                Err(e) => {
                    &&& result is Err
                    &&& result->Err_0@ == e
                    &&& final(self).nodes().len() == 0
                },
            },
    {
        let ghost tokens = self.tokens();
        let ghost goal = nodes_then(self.nodes(), parse_program(tokens, self.position()));
        let len = self.input_tokens.len();
        loop
            invariant
                self.wf(),
                self.tokens() == tokens,
                old(self).tokens() == tokens,
                len == tokens.len(),
                goal == nodes_then(old(self).nodes(), parse_program(tokens, old(self).position())),
                goal == nodes_then(self.nodes(), parse_program(tokens, self.position())),
            ensures
                self.wf(),
                self.tokens() == tokens,
                goal == Ok::<Seq<NodeView>, ParseErrorView>(self.nodes()),
            decreases tokens.len() - self.position(),
        {
            if self.current_token_index >= len {
                assert(self.nodes() + Seq::<NodeView>::empty() =~= self.nodes());
                break ;
            }
            let ghost here = self.position();
            let ghost before = self.nodes();
            match self.current_token() {
                TokenKind::Ident => {
                    match self.eat_func(0) {
                        Err(e) => {
                            self.output_nodes = Vec::new();
                            self.current_token_index = len;
                            assert(self.nodes() =~= Seq::<NodeView>::empty());
                            return Err(e);
                        },
                        Ok(node) => {
                            let ghost view = node@;
                            let ghost close = (self.position() - here) as nat;
                            self.output_nodes.push(node);
                            self.next();
                            proof {
                                assert(self.nodes() =~= before + seq![view]);
                                lemma_nodes_then_twice(
                                    before,
                                    seq![view],
                                    parse_program(tokens, here + close + 1),
                                );
                            }
                        },
                    }
                },
                TokenKind::Eof => {
                    assert(self.nodes() + Seq::<NodeView>::empty() =~= self.nodes());
                    break ;
                },
                _ => {
                    self.next();
                },
            }
        }
        self.current_token_index = len;
        Ok(())
    }
}

} // verus!
