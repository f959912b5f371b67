//! What a program writes depends on its text alone: not on the name of its
//! file, and not on where its calls stand in the text.

use vstd::prelude::*;
use crate::ast::{NodeKindView, NodeView};
use crate::interpreter::{eval_args, eval_node, run_first, run_program};
use crate::lexer::{CharClass, LexErrorView, lemma_run_length_bounds, lex_from, lex_text, run_length, token_at, tokens_then};
use crate::parser::{ParseErrorView, args_then, kind_at, lemma_parse_call_closes, literal_node, may_follow_argument, nodes_then, parse_args, parse_call, parse_program, starts_literal, MAX_NESTING};
use crate::pipeline::{ErrorView, run_text};
use crate::text::{unicode_alphabetic, unicode_numeric, unicode_whitespace};
use crate::tokens::{TokenKind, TokenView};

verus! {

/// Whether two token sequences hold the same lexemes: the same kinds and
/// texts in the same order, wherever they stand.
pub open spec fn same_lexemes(a: Seq<TokenView>, b: Seq<TokenView>) -> bool {
    &&& a.len() == b.len()
    &&& forall|i: int|
        0 <= i < a.len() ==> (#[trigger] a[i]).kind == b[i].kind && a[i].value == b[i].value
}

/// Whether two results of lexing hold the same lexemes, or errors of the
/// same kind.
pub open spec fn lexed_alike(
    r1: Result<Seq<TokenView>, LexErrorView>,
    r2: Result<Seq<TokenView>, LexErrorView>,
) -> bool {
    match (r1, r2) {
        (Ok(a), Ok(b)) => same_lexemes(a, b),
        (Err(e1), Err(e2)) => e1.kind == e2.kind,
        _ => false,
    }
}

/// Whether two nodes are the same tree, wherever its nodes stand.
pub open spec fn alike(n1: NodeView, n2: NodeView) -> bool
    decreases n1, 0nat,
{
    match n1.kind {
        NodeKindView::Func(name, args) => n2.kind is Func && n2.kind->Func_0 == name
            && n2.kind->Func_1.len() == args.len() && alike_first(
            args,
            n2.kind->Func_1,
            args.len(),
        ),
        NodeKindView::Number(n) => n2.kind == NodeKindView::Number(n),
        NodeKindView::String(s) => n2.kind == NodeKindView::String(s),
    }
}

/// Whether the first `n` of `x` and of `y` are the same trees, one by one.
pub open spec fn alike_first(x: Seq<NodeView>, y: Seq<NodeView>, n: nat) -> bool
    decreases x, n,
{
    if n == 0 || n > x.len() {
        true
    } else {
        alike_first(x, y, (n - 1) as nat) && alike(x[n - 1], y[n - 1])
    }
}

/// Whether `x` and `y` are as long as one another and the same trees, one by
/// one.
pub open spec fn each_alike(x: Seq<NodeView>, y: Seq<NodeView>) -> bool {
    &&& x.len() == y.len()
    &&& forall|i: int| 0 <= i < x.len() ==> alike(#[trigger] x[i], y[i])
}

/// The first `n` are alike where each of them is.
pub proof fn lemma_alike_each(x: Seq<NodeView>, y: Seq<NodeView>, n: nat)
    requires
        n <= x.len(),
    ensures
        alike_first(x, y, n) <==> forall|i: int| 0 <= i < n ==> alike(#[trigger] x[i], y[i]),
    decreases n,
{
    if n > 0 {
        lemma_alike_each(x, y, (n - 1) as nat);
    }
}

/// Lexing a text under two file names gives the same lexemes, or errors of
/// the same kind.
pub proof fn lemma_lex_any_file(f1: Seq<char>, f2: Seq<char>, src: Seq<char>, pos: int)
    requires
        0 <= pos <= src.len(),
    ensures
        lexed_alike(lex_from(f1, src, pos), lex_from(f2, src, pos)),
    decreases src.len() - pos,
{
    if pos < src.len() {
        let c = src[pos];
        if c == '\n' || unicode_whitespace(c) {
            lemma_lex_any_file(f1, f2, src, pos + 1);
        } else if unicode_alphabetic(c) || unicode_numeric(c) {
            let class = if unicode_alphabetic(c) {
                CharClass::Alphanumeric
            } else {
                CharClass::Numeric
            };
            let kind = if unicode_alphabetic(c) {
                TokenKind::Ident
            } else {
                TokenKind::Number
            };
            let end = pos + 1 + run_length(src, pos + 1, class);
            lemma_run_length_bounds(src, pos + 1, class);
            lemma_lex_any_file(f1, f2, src, end);
            lemma_lexeme_in_front(
                token_at(f1, src, pos, kind, src.subrange(pos, end)),
                token_at(f2, src, pos, kind, src.subrange(pos, end)),
                lex_from(f1, src, end),
                lex_from(f2, src, end),
            );
        } else if c == '"' {
            let close = pos + 1 + run_length(src, pos + 1, CharClass::StringBody);
            lemma_run_length_bounds(src, pos + 1, CharClass::StringBody);
            if close < src.len() {
                lemma_lex_any_file(f1, f2, src, close + 1);
                lemma_lexeme_in_front(
                    token_at(f1, src, pos, TokenKind::String, src.subrange(pos + 1, close)),
                    token_at(f2, src, pos, TokenKind::String, src.subrange(pos + 1, close)),
                    lex_from(f1, src, close + 1),
                    lex_from(f2, src, close + 1),
                );
            }
        } else if c == '(' || c == ')' || c == ',' {
            let kind = if c == '(' {
                TokenKind::OParen
            } else if c == ')' {
                TokenKind::CParen
            } else {
                TokenKind::Comma
            };
            lemma_lex_any_file(f1, f2, src, pos + 1);
            lemma_lexeme_in_front(
                token_at(f1, src, pos, kind, Seq::empty()),
                token_at(f2, src, pos, kind, Seq::empty()),
                lex_from(f1, src, pos + 1),
                lex_from(f2, src, pos + 1),
            );
        }
    }
}

/// The same lexeme in front of the same lexemes gives the same lexemes.
proof fn lemma_lexeme_in_front(
    t1: TokenView,
    t2: TokenView,
    r1: Result<Seq<TokenView>, LexErrorView>,
    r2: Result<Seq<TokenView>, LexErrorView>,
)
    requires
        t1.kind == t2.kind,
        t1.value == t2.value,
        lexed_alike(r1, r2),
    ensures
        lexed_alike(tokens_then(seq![t1], r1), tokens_then(seq![t2], r2)),
{
    if r1 is Ok {
        let a = seq![t1] + r1->Ok_0;
        let b = seq![t2] + r2->Ok_0;
        assert forall|i: int| 0 <= i < a.len() implies (#[trigger] a[i]).kind == b[i].kind
            && a[i].value == b[i].value by {
            if i > 0 {
                assert(a[i] == r1->Ok_0[i - 1]);
                assert(b[i] == r2->Ok_0[i - 1]);
            }
        }
    }
}

/// Whether two results of parsing a call are the same tree of the same
/// extent, or errors of the same kind.
pub open spec fn call_alike(
    r1: Result<(NodeView, nat), ParseErrorView>,
    r2: Result<(NodeView, nat), ParseErrorView>,
) -> bool {
    match (r1, r2) {
        (Ok((n1, c1)), Ok((n2, c2))) => c1 == c2 && alike(n1, n2),
        (Err(e1), Err(e2)) => e1.kind == e2.kind,
        _ => false,
    }
}

/// Whether two results of parsing arguments are the same trees of the same
/// extent, or errors of the same kind.
pub open spec fn args_alike(
    r1: Result<(Seq<NodeView>, nat), ParseErrorView>,
    r2: Result<(Seq<NodeView>, nat), ParseErrorView>,
) -> bool {
    match (r1, r2) {
        (Ok((x, c1)), Ok((y, c2))) => c1 == c2 && each_alike(x, y),
        (Err(e1), Err(e2)) => e1.kind == e2.kind,
        _ => false,
    }
}

/// Whether two results of parsing a program are the same trees, or errors of
/// the same kind.
pub open spec fn program_alike(
    r1: Result<Seq<NodeView>, ParseErrorView>,
    r2: Result<Seq<NodeView>, ParseErrorView>,
) -> bool {
    match (r1, r2) {
        (Ok(x), Ok(y)) => each_alike(x, y),
        (Err(e1), Err(e2)) => e1.kind == e2.kind,
        _ => false,
    }
}

/// The same lexemes have the same kinds at each index.
proof fn lemma_same_kinds(a: Seq<TokenView>, b: Seq<TokenView>, i: int)
    requires
        same_lexemes(a, b),
    ensures
        kind_at(a, i) == kind_at(b, i),
        0 <= i < a.len() ==> a[i].value == b[i].value && alike(
            literal_node(a[i]),
            literal_node(b[i]),
        ),
{
    if 0 <= i < a.len() {
        assert(a[i].kind == b[i].kind);
    }
}

/// The same trees in front of the same trees give the same trees.
proof fn lemma_args_in_front(
    x1: Seq<NodeView>,
    x2: Seq<NodeView>,
    used: nat,
    r1: Result<(Seq<NodeView>, nat), ParseErrorView>,
    r2: Result<(Seq<NodeView>, nat), ParseErrorView>,
)
    requires
        each_alike(x1, x2),
        args_alike(r1, r2),
    ensures
        args_alike(args_then(x1, used, r1), args_then(x2, used, r2)),
{
    if r1 is Ok {
        let y1 = r1->Ok_0.0;
        let y2 = r2->Ok_0.0;
        let z1 = x1 + y1;
        let z2 = x2 + y2;
        assert forall|i: int| 0 <= i < z1.len() implies alike(#[trigger] z1[i], z2[i]) by {
            if i < x1.len() {
                assert(z1[i] == x1[i] && z2[i] == x2[i]);
            } else {
                assert(z1[i] == y1[i - x1.len()] && z2[i] == y2[i - x1.len()]);
            }
        }
    }
}

/// Parsing a call from the same lexemes gives the same tree.
pub proof fn lemma_parse_call_alike(a: Seq<TokenView>, b: Seq<TokenView>, i: int, depth: nat)
    requires
        same_lexemes(a, b),
        0 <= i,
    ensures
        call_alike(parse_call(a, i, depth), parse_call(b, i, depth)),
    decreases a.len() - i, 0nat,
{
    lemma_same_kinds(a, b, i);
    lemma_same_kinds(a, b, i + 1);
    if depth <= MAX_NESTING && kind_at(a, i + 1) == TokenKind::OParen {
        lemma_parse_args_alike(a, b, i + 2, depth);
        match (parse_args(a, i + 2, depth), parse_args(b, i + 2, depth)) {
            (Ok((x, _)), Ok((y, _))) => {
                lemma_alike_each(x, y, x.len());
            },
            _ => {},
        }
    }
}

/// Parsing arguments from the same lexemes gives the same trees.
pub proof fn lemma_parse_args_alike(a: Seq<TokenView>, b: Seq<TokenView>, j: int, depth: nat)
    requires
        same_lexemes(a, b),
        0 <= j,
    ensures
        args_alike(parse_args(a, j, depth), parse_args(b, j, depth)),
    decreases a.len() - j, 1nat,
{
    lemma_same_kinds(a, b, j);
    lemma_same_kinds(a, b, j + 1);
    match kind_at(a, j) {
        TokenKind::String | TokenKind::Number => {
            if may_follow_argument(kind_at(a, j + 1)) {
                lemma_parse_args_alike(a, b, j + 1, depth);
                lemma_args_in_front(
                    seq![literal_node(a[j])],
                    seq![literal_node(b[j])],
                    1,
                    parse_args(a, j + 1, depth),
                    parse_args(b, j + 1, depth),
                );
            }
        },
        TokenKind::Ident => {
            lemma_parse_call_alike(a, b, j, depth + 1);
            match (parse_call(a, j, depth + 1), parse_call(b, j, depth + 1)) {
                (Ok((n1, close)), Ok((n2, _))) => {
                    lemma_same_kinds(a, b, j + close + 1);
                    if may_follow_argument(kind_at(a, j + close + 1)) {
                        lemma_parse_args_alike(a, b, j + close + 1, depth);
                        lemma_args_in_front(
                            seq![n1],
                            seq![n2],
                            close + 1,
                            parse_args(a, j + close + 1, depth),
                            parse_args(b, j + close + 1, depth),
                        );
                    }
                },
                _ => {},
            }
        },
        TokenKind::Comma => {
            if starts_literal(kind_at(a, j + 1)) {
                lemma_parse_args_alike(a, b, j + 1, depth);
                lemma_args_in_front(
                    Seq::empty(),
                    Seq::empty(),
                    1,
                    parse_args(a, j + 1, depth),
                    parse_args(b, j + 1, depth),
                );
            }
        },
        _ => {},
    }
}

/// Parsing a program from the same lexemes gives the same trees.
pub proof fn lemma_parse_program_alike(a: Seq<TokenView>, b: Seq<TokenView>, i: int)
    requires
        same_lexemes(a, b),
        0 <= i,
    ensures
        program_alike(parse_program(a, i), parse_program(b, i)),
    decreases a.len() - i,
{
    if i < a.len() {
        lemma_same_kinds(a, b, i);
        match a[i].kind {
            TokenKind::Ident => {
                lemma_parse_call_alike(a, b, i, 0);
                match (parse_call(a, i, 0), parse_call(b, i, 0)) {
                    (Ok((n1, close)), Ok((n2, _))) => {
                        lemma_parse_call_closes(a, i, 0);
                        lemma_parse_program_alike(a, b, i + close + 1);
                        let r1 = parse_program(a, i + close + 1);
                        let r2 = parse_program(b, i + close + 1);
                        if r1 is Ok {
                            let z1 = seq![n1] + r1->Ok_0;
                            let z2 = seq![n2] + r2->Ok_0;
                            assert forall|k: int| 0 <= k < z1.len() implies alike(
                                #[trigger] z1[k],
                                z2[k],
                            ) by {
                                if k > 0 {
                                    assert(z1[k] == r1->Ok_0[k - 1] && z2[k] == r2->Ok_0[k - 1]);
                                }
                            }
                        }
                    },
                    _ => {},
                }
            },
            TokenKind::Eof => {},
            _ => {
                lemma_parse_program_alike(a, b, i + 1);
            },
        }
    }
}

/// The same tree writes and gives the same, wherever its nodes stand.
pub proof fn lemma_eval_alike(n1: NodeView, n2: NodeView)
    requires
        alike(n1, n2),
    ensures
        eval_node(n1) == eval_node(n2),
    decreases n1, 0nat,
{
    match n1.kind {
        NodeKindView::Func(name, x) => {
            lemma_eval_args_alike(x, n2.kind->Func_1, x.len());
        },
        _ => {},
    }
}

/// The same trees as arguments write and give the same.
pub proof fn lemma_eval_args_alike(x: Seq<NodeView>, y: Seq<NodeView>, n: nat)
    requires
        x.len() == y.len(),
        n <= x.len(),
        alike_first(x, y, n),
    ensures
        eval_args(x, n) == eval_args(y, n),
    decreases x, n,
{
    if n > 0 {
        lemma_eval_args_alike(x, y, (n - 1) as nat);
        lemma_eval_alike(x[n - 1], y[n - 1]);
    }
}

/// The same trees as statements write the same, and stop with an error of
/// the same kind or not at all.
pub proof fn lemma_run_alike(x: Seq<NodeView>, y: Seq<NodeView>, n: nat)
    requires
        each_alike(x, y),
        n <= x.len(),
    ensures
        run_first(x, n).output == run_first(y, n).output,
        match (run_first(x, n).error, run_first(y, n).error) {
            (Some(e1), Some(e2)) => e1.kind == e2.kind,
            (None, None) => true,
            _ => false,
        },
    decreases n,
{
    if n > 0 {
        lemma_run_alike(x, y, (n - 1) as nat);
        assert(alike(x[n - 1], y[n - 1]));
        lemma_eval_alike(x[n - 1], y[n - 1]);
    }
}

/// Whether two runs stopped for the same reason: not at all, or with an
/// error of the same stage and kind.
pub open spec fn same_failure(e1: Option<ErrorView>, e2: Option<ErrorView>) -> bool {
    match (e1, e2) {
        (None, None) => true,
        (Some(ErrorView::Lexical(a)), Some(ErrorView::Lexical(b))) => a.kind == b.kind,
        (Some(ErrorView::Parser(a)), Some(ErrorView::Parser(b))) => a.kind == b.kind,
        (Some(ErrorView::Runtime(a)), Some(ErrorView::Runtime(b))) => a.kind == b.kind,
        _ => false,
    }
}

/// What a program writes, and whether and why it stops, depends on its text
/// alone, not on the name of its file.
pub proof fn lemma_file_name_is_no_input(f1: Seq<char>, f2: Seq<char>, src: Seq<char>)
    ensures
        run_text(f1, src).output == run_text(f2, src).output,
        same_failure(run_text(f1, src).error, run_text(f2, src).error),
{
    lemma_lex_any_file(f1, f2, src, 0);
    match (lex_text(f1, src), lex_text(f2, src)) {
        (Ok(a), Ok(b)) => {
            lemma_parse_program_alike(a, b, 0);
            match (parse_program(a, 0), parse_program(b, 0)) {
                (Ok(x), Ok(y)) => {
                    lemma_run_alike(x, y, x.len());
                },
                _ => {},
            }
        },
        _ => {},
    }
}

} // verus!
