//! The syntax tree: calls, numbers and strings.

use vstd::prelude::*;
use crate::tokens::{Location, LocationView};

verus! {

/// A number of the language, kept exactly: either the digits of a literal,
/// or the sum of two numbers. Its numeric value is the 32-bit float that the
/// digits denote, and for a sum the float sum of the two values.
#[derive(Debug)]
pub enum Number {
    Literal(String),
    Sum(Box<Number>, Box<Number>),
}

/// What a `Number` holds, as mathematical values.
pub enum NumberView {
    Literal(Seq<char>),
    Sum(Box<NumberView>, Box<NumberView>),
}

impl View for Number {
    type V = NumberView;

    open spec fn view(&self) -> NumberView
        decreases self,
    {
        match self {
            Number::Literal(digits) => NumberView::Literal(digits@),
            Number::Sum(a, b) => NumberView::Sum(Box::new((**a).view()), Box::new((**b).view())),
        }
    }
}

impl Number {
    /// A copy of this number.
    pub fn duplicate(&self) -> (out: Number)
        ensures
            out@ == self@,
        decreases self,
    {
        match self {
            Number::Literal(digits) => Number::Literal(digits.clone()),
            Number::Sum(a, b) => Number::Sum(Box::new(a.duplicate()), Box::new(b.duplicate())),
        }
    }
}

/// A node of the syntax tree, with the place it was read at.
#[derive(Debug)]
pub struct Node {
    pub kind: NodeKind,
    pub location: Location,
}

/// What a node is: a call with its name and arguments, or a literal.
#[derive(Debug)]
pub enum NodeKind {
    Func(String, Vec<Node>),
    Number(Number),
    String(String),
}

/// What a `Node` holds, as mathematical values.
pub struct NodeView {
    pub kind: NodeKindView,
    pub location: LocationView,
}

/// What a `NodeKind` holds, as mathematical values.
pub enum NodeKindView {
    Func(Seq<char>, Seq<NodeView>),
    Number(NumberView),
    String(Seq<char>),
}

/// The view of a node's kind: every text and argument by its view.
pub open spec fn kind_view(kind: NodeKind) -> NodeKindView
    decreases kind, 0nat,
{
    match kind {
        NodeKind::Func(name, args) => NodeKindView::Func(name@, first_views(args@, args@.len())),
        NodeKind::Number(n) => NodeKindView::Number(n@),
        NodeKind::String(s) => NodeKindView::String(s@),
    }
}

/// The view of a node: its kind and its location by their views.
pub open spec fn node_view(node: Node) -> NodeView
    decreases node, 0nat,
{
    NodeView { kind: kind_view(node.kind), location: node.location@ }
}

/// The views of the first `n` of `nodes`, in order.
pub open spec fn first_views(nodes: Seq<Node>, n: nat) -> Seq<NodeView>
    decreases nodes, n,
{
    if n == 0 || n > nodes.len() {
        Seq::empty()
    } else {
        first_views(nodes, (n - 1) as nat).push(node_view(nodes[n - 1]))
    }
}

impl View for Node {
    type V = NodeView;

    open spec fn view(&self) -> NodeView {
        node_view(*self)
    }
}

impl View for NodeKind {
    type V = NodeKindView;

    open spec fn view(&self) -> NodeKindView {
        kind_view(*self)
    }
}

/// The views of a sequence of nodes, in order.
pub open spec fn node_views(nodes: Seq<Node>) -> Seq<NodeView> {
    Seq::new(nodes.len(), |i: int| nodes[i]@)
}

/// The first `n` views are the views of the first `n` nodes.
pub proof fn lemma_first_views(nodes: Seq<Node>, n: nat)
    requires
        n <= nodes.len(),
    ensures
        first_views(nodes, n) == node_views(nodes.take(n as int)),
    decreases n,
{
    if n > 0 {
        lemma_first_views(nodes, (n - 1) as nat);
        assert(nodes.take(n - 1) == nodes.take(n as int).drop_last());
    }
    assert(first_views(nodes, n) =~= node_views(nodes.take(n as int)));
}

/// The view of a call is made of the views of its arguments.
pub proof fn lemma_call_view(node: Node)
    requires
        node.kind is Func,
    ensures
        node@.kind == NodeKindView::Func(node.kind->Func_0@, node_views(node.kind->Func_1@)),
        node@.kind == node.kind@,
        node@.location == node.location@,
{
    let args = node.kind->Func_1@;
    lemma_first_views(args, args.len());
    assert(args.take(args.len() as int) == args);
}

impl NodeKind {
    /// A copy of this kind of node.
    pub fn duplicate(&self) -> (out: NodeKind)
        ensures
            out@ == self@,
        decreases self,
    {
        match self {
            NodeKind::Func(name, args) => {
                let mut copies: Vec<Node> = Vec::new();
                let mut i: usize = 0;
                while i < args.len()
                    invariant
                        i <= args@.len(),
                        *self == NodeKind::Func(*name, *args),
                        copies@.len() == i,
                        forall|k: int| 0 <= k < i ==> copies@[k]@ == args@[k]@,
                    decreases args@.len() - i,
                {
                    assert(decreases_to!(*self => self->Func_1));
                    copies.push(args[i].duplicate());
                    i = i + 1;
                }
                let out = NodeKind::Func(name.clone(), copies);
                proof {
                    lemma_first_views(args@, args@.len());
                    lemma_first_views(copies@, copies@.len());
                    assert(args@.take(args@.len() as int) == args@);
                    assert(copies@.take(copies@.len() as int) == copies@);
                    assert(node_views(copies@) =~= node_views(args@));
                }
                out
            },
            NodeKind::Number(n) => NodeKind::Number(n.duplicate()),
            NodeKind::String(s) => NodeKind::String(s.clone()),
        }
    }
}

impl Node {
    /// A copy of this node.
    pub fn duplicate(&self) -> (out: Node)
        ensures
            out@ == self@,
        decreases self,
    {
        Node { kind: self.kind.duplicate(), location: self.location.duplicate() }
    }
}

impl Clone for NodeKind {
    fn clone(&self) -> (out: NodeKind)
        ensures
            out@ == self@,
    {
        self.duplicate()
    }
}

impl Clone for Node {
    fn clone(&self) -> (out: Node)
        ensures
            out@ == self@,
    {
        self.duplicate()
    }
}

impl Clone for Number {
    fn clone(&self) -> (out: Number)
        ensures
            out@ == self@,
    {
        self.duplicate()
    }
}

} // verus!
