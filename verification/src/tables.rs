//! What analysis records about a program, by source range and by syntax node.
use std::collections::HashMap;

use vstd::prelude::*;

use crate::source::Span;

verus! {

broadcast use vstd::std_specs::hash::group_hash_axioms;

/// The kinds of syntax node that carry a recorded type.
#[derive(Clone, Copy, Debug, PartialEq, Eq, Structural)]
pub enum SyntaxKind {
    Literal,
    InterpExpr,
    PathExpr,
    BinExpr,
    RangeExpr,
    UnaryExpr,
    ParenExpr,
    BlockExpr,
    IfExpr,
    WhileExpr,
    ForExpr,
    LoopExpr,
    BreakExpr,
    ContinueExpr,
    ReturnExpr,
    CallExpr,
    MethodCallExpr,
    TupleExpr,
    ListExpr,
    ReadExpr,
    ParseExpr,
    RecordLitExpr,
    FieldExpr,
    TupleIndexExpr,
    IndexExpr,
    MatchExpr,
    ClosureExpr,
    ErrorNode,
}

impl SyntaxKind {
    pub open spec fn spec_code(self) -> u8 {
        match self {
            SyntaxKind::Literal => 0,
            SyntaxKind::InterpExpr => 1,
            SyntaxKind::PathExpr => 2,
            SyntaxKind::BinExpr => 3,
            SyntaxKind::RangeExpr => 4,
            SyntaxKind::UnaryExpr => 5,
            SyntaxKind::ParenExpr => 6,
            SyntaxKind::BlockExpr => 7,
            SyntaxKind::IfExpr => 8,
            SyntaxKind::WhileExpr => 9,
            SyntaxKind::ForExpr => 10,
            SyntaxKind::LoopExpr => 11,
            SyntaxKind::BreakExpr => 12,
            SyntaxKind::ContinueExpr => 13,
            SyntaxKind::ReturnExpr => 14,
            SyntaxKind::CallExpr => 15,
            SyntaxKind::MethodCallExpr => 16,
            SyntaxKind::TupleExpr => 17,
            SyntaxKind::ListExpr => 18,
            SyntaxKind::ReadExpr => 19,
            SyntaxKind::ParseExpr => 20,
            SyntaxKind::RecordLitExpr => 21,
            SyntaxKind::FieldExpr => 22,
            SyntaxKind::TupleIndexExpr => 23,
            SyntaxKind::IndexExpr => 24,
            SyntaxKind::MatchExpr => 25,
            SyntaxKind::ClosureExpr => 26,
            SyntaxKind::ErrorNode => 27,
        }
    }

    /// The kind's name, as reports write it.
    pub open spec fn spec_name(self) -> Seq<char> {
        match self {
            SyntaxKind::Literal => "LITERAL"@,
            SyntaxKind::InterpExpr => "INTERP_EXPR"@,
            SyntaxKind::PathExpr => "PATH_EXPR"@,
            SyntaxKind::BinExpr => "BIN_EXPR"@,
            SyntaxKind::RangeExpr => "RANGE_EXPR"@,
            SyntaxKind::UnaryExpr => "UNARY_EXPR"@,
            SyntaxKind::ParenExpr => "PAREN_EXPR"@,
            SyntaxKind::BlockExpr => "BLOCK_EXPR"@,
            SyntaxKind::IfExpr => "IF_EXPR"@,
            SyntaxKind::WhileExpr => "WHILE_EXPR"@,
            SyntaxKind::ForExpr => "FOR_EXPR"@,
            SyntaxKind::LoopExpr => "LOOP_EXPR"@,
            SyntaxKind::BreakExpr => "BREAK_EXPR"@,
            SyntaxKind::ContinueExpr => "CONTINUE_EXPR"@,
            SyntaxKind::ReturnExpr => "RETURN_EXPR"@,
            SyntaxKind::CallExpr => "CALL_EXPR"@,
            SyntaxKind::MethodCallExpr => "METHOD_CALL_EXPR"@,
            SyntaxKind::TupleExpr => "TUPLE_EXPR"@,
            SyntaxKind::ListExpr => "LIST_EXPR"@,
            SyntaxKind::ReadExpr => "READ_EXPR"@,
            SyntaxKind::ParseExpr => "PARSE_EXPR"@,
            SyntaxKind::RecordLitExpr => "RECORD_LIT_EXPR"@,
            SyntaxKind::FieldExpr => "FIELD_EXPR"@,
            SyntaxKind::TupleIndexExpr => "TUPLE_INDEX_EXPR"@,
            SyntaxKind::IndexExpr => "INDEX_EXPR"@,
            SyntaxKind::MatchExpr => "MATCH_EXPR"@,
            SyntaxKind::ClosureExpr => "CLOSURE_EXPR"@,
            SyntaxKind::ErrorNode => "ERROR"@,
        }
    }

    pub fn code(self) -> (r: u8)
        ensures
            r == self.spec_code(),
    {
        match self {
            SyntaxKind::Literal => 0,
            SyntaxKind::InterpExpr => 1,
            SyntaxKind::PathExpr => 2,
            SyntaxKind::BinExpr => 3,
            SyntaxKind::RangeExpr => 4,
            SyntaxKind::UnaryExpr => 5,
            SyntaxKind::ParenExpr => 6,
            SyntaxKind::BlockExpr => 7,
            SyntaxKind::IfExpr => 8,
            SyntaxKind::WhileExpr => 9,
            SyntaxKind::ForExpr => 10,
            SyntaxKind::LoopExpr => 11,
            SyntaxKind::BreakExpr => 12,
            SyntaxKind::ContinueExpr => 13,
            SyntaxKind::ReturnExpr => 14,
            SyntaxKind::CallExpr => 15,
            SyntaxKind::MethodCallExpr => 16,
            SyntaxKind::TupleExpr => 17,
            SyntaxKind::ListExpr => 18,
            SyntaxKind::ReadExpr => 19,
            SyntaxKind::ParseExpr => 20,
            SyntaxKind::RecordLitExpr => 21,
            SyntaxKind::FieldExpr => 22,
            SyntaxKind::TupleIndexExpr => 23,
            SyntaxKind::IndexExpr => 24,
            SyntaxKind::MatchExpr => 25,
            SyntaxKind::ClosureExpr => 26,
            SyntaxKind::ErrorNode => 27,
        }
    }

    pub fn name(self) -> (r: &'static str)
        ensures
            r@ == self.spec_name(),
    {
        match self {
            SyntaxKind::Literal => "LITERAL",
            SyntaxKind::InterpExpr => "INTERP_EXPR",
            SyntaxKind::PathExpr => "PATH_EXPR",
            SyntaxKind::BinExpr => "BIN_EXPR",
            SyntaxKind::RangeExpr => "RANGE_EXPR",
            SyntaxKind::UnaryExpr => "UNARY_EXPR",
            SyntaxKind::ParenExpr => "PAREN_EXPR",
            SyntaxKind::BlockExpr => "BLOCK_EXPR",
            SyntaxKind::IfExpr => "IF_EXPR",
            SyntaxKind::WhileExpr => "WHILE_EXPR",
            SyntaxKind::ForExpr => "FOR_EXPR",
            SyntaxKind::LoopExpr => "LOOP_EXPR",
            SyntaxKind::BreakExpr => "BREAK_EXPR",
            SyntaxKind::ContinueExpr => "CONTINUE_EXPR",
            SyntaxKind::ReturnExpr => "RETURN_EXPR",
            SyntaxKind::CallExpr => "CALL_EXPR",
            SyntaxKind::MethodCallExpr => "METHOD_CALL_EXPR",
            SyntaxKind::TupleExpr => "TUPLE_EXPR",
            SyntaxKind::ListExpr => "LIST_EXPR",
            SyntaxKind::ReadExpr => "READ_EXPR",
            SyntaxKind::ParseExpr => "PARSE_EXPR",
            SyntaxKind::RecordLitExpr => "RECORD_LIT_EXPR",
            SyntaxKind::FieldExpr => "FIELD_EXPR",
            SyntaxKind::TupleIndexExpr => "TUPLE_INDEX_EXPR",
            SyntaxKind::IndexExpr => "INDEX_EXPR",
            SyntaxKind::MatchExpr => "MATCH_EXPR",
            SyntaxKind::ClosureExpr => "CLOSURE_EXPR",
            SyntaxKind::ErrorNode => "ERROR",
        }
    }
}

/// The identity of one syntax node.
///
/// A path node and the name token inside it cover the same text, so a range
/// alone does not tell a node from the token it holds. The kind does.
#[derive(Clone, Copy, Debug, PartialEq, Eq, Structural)]
pub struct NodeKey(pub Span, pub SyntaxKind);

impl NodeKey {
    /// The key of the node of kind `kind` that covers `range`.
    pub fn of(range: Span, kind: SyntaxKind) -> (r: NodeKey)
        ensures
            r == NodeKey(range, kind),
    {
        NodeKey(range, kind)
    }

    /// The node's source range.
    pub fn range(self) -> (r: Span)
        ensures
            r == self.0,
    {
        self.0
    }

    /// The node's syntax kind.
    pub fn kind(self) -> (r: SyntaxKind)
        ensures
            r == self.1,
    {
        self.1
    }
}

/// The number a range is filed under.
pub open spec fn span_number(s: Span) -> u64 {
    (s.start * 0x1_0000_0000 + s.end) as u64
}

/// The number a node is filed under.
pub open spec fn node_number(k: NodeKey) -> u128 {
    (span_number(k.0) * 256 + k.1.spec_code()) as u128
}

proof fn lemma_span_number(a: Span, b: Span)
    ensures
        span_number(a) == span_number(b) ==> a == b,
        span_number(a) == a.start * 0x1_0000_0000 + a.end,
{
}

proof fn lemma_node_number(a: NodeKey, b: NodeKey)
    ensures
        node_number(a) == node_number(b) ==> a == b,
        node_number(a) == span_number(a.0) * 256 + a.1.spec_code(),
{
    lemma_span_number(a.0, b.0);
    if node_number(a) == node_number(b) {
        assert(a.1.spec_code() == b.1.spec_code());
    }
}

fn number_of(s: Span) -> (r: u64)
    ensures
        r == span_number(s),
{
    s.start as u64 * 0x1_0000_0000u64 + s.end as u64
}

/// A map from source ranges.
#[derive(Debug)]
pub struct SpanMap<V> {
    entries: HashMap<u64, V>,
}

impl<V> View for SpanMap<V> {
    type V = Map<Span, V>;

    closed spec fn view(&self) -> Map<Span, V> {
        Map::new(
            |s: Span| self.entries@.dom().contains(span_number(s)),
            |s: Span| self.entries@[span_number(s)],
        )
    }
}

/// What `m` holds at `k`.
pub open spec fn at<K, V>(m: Map<K, V>, k: K) -> Option<V> {
    if m.dom().contains(k) {
        Some(m[k])
    } else {
        None
    }
}

impl<V> SpanMap<V> {
    pub fn new() -> (r: SpanMap<V>)
        ensures
            r@ == Map::<Span, V>::empty(),
    {
        let r = SpanMap { entries: HashMap::new() };
        assert(r@ =~= Map::empty());
        r
    }

    /// Files `v` under `k`, in place of anything filed there before.
    pub fn insert(&mut self, k: Span, v: V)
        ensures
            final(self)@ == old(self)@.insert(k, v),
    {
        self.entries.insert(number_of(k), v);
        proof {
            assert forall|s: Span| span_number(s) == span_number(k) implies s == k by {
                lemma_span_number(s, k);
            }
        }
        assert(self@ =~= old(self)@.insert(k, v));
    }

    /// What is filed under `k`.
    pub fn get(&self, k: Span) -> (r: Option<&V>)
        ensures
            match at(self@, k) {
                Some(v) => r matches Some(x) && *x == v,
                None => r is None,
            },
    {
        self.entries.get(&number_of(k))
    }
}

/// A map from syntax nodes.
#[derive(Debug)]
pub struct NodeMap<V> {
    entries: HashMap<u128, V>,
}

impl<V> View for NodeMap<V> {
    type V = Map<NodeKey, V>;

    closed spec fn view(&self) -> Map<NodeKey, V> {
        Map::new(
            |k: NodeKey| self.entries@.dom().contains(node_number(k)),
            |k: NodeKey| self.entries@[node_number(k)],
        )
    }
}

impl<V> NodeMap<V> {
    pub fn new() -> (r: NodeMap<V>)
        ensures
            r@ == Map::<NodeKey, V>::empty(),
    {
        let r = NodeMap { entries: HashMap::new() };
        assert(r@ =~= Map::empty());
        r
    }

    /// Files `v` under `k`, in place of anything filed there before.
    pub fn insert(&mut self, k: NodeKey, v: V)
        ensures
            final(self)@ == old(self)@.insert(k, v),
    {
        let n: u128 = number_of(k.0) as u128 * 256u128 + k.1.code() as u128;
        proof {
            lemma_node_number(k, k);
        }
        self.entries.insert(n, v);
        proof {
            assert forall|s: NodeKey| node_number(s) == node_number(k) implies s == k by {
                lemma_node_number(s, k);
            }
        }
        assert(self@ =~= old(self)@.insert(k, v));
    }

    /// What is filed under `k`.
    pub fn get(&self, k: NodeKey) -> (r: Option<&V>)
        ensures
            match at(self@, k) {
                Some(v) => r matches Some(x) && *x == v,
                None => r is None,
            },
    {
        let n: u128 = number_of(k.0) as u128 * 256u128 + k.1.code() as u128;
        proof {
            lemma_node_number(k, k);
        }
        self.entries.get(&n)
    }
}

/// A name token and the expression node around it have one range and two keys:
/// nodes that differ in kind are never filed under one another.
pub proof fn law_node_keys_keep_kinds_apart(range: Span, a: SyntaxKind, b: SyntaxKind)
    requires
        a != b,
    ensures
        NodeKey(range, a) != NodeKey(range, b),
        node_number(NodeKey(range, a)) != node_number(NodeKey(range, b)),
{
    lemma_node_number(NodeKey(range, a), NodeKey(range, b));
}

} // verus!
