//! The tagged token tree over which parsing and rewriting operate.
//!
//! A fragment of host-language syntax is modelled as a sequence of nodes:
//! identifiers, literals, delimited groups of further nodes, and single
//! punctuation characters. This is the only shape of input the engine sees.

use vstd::prelude::*;

verus! {

/// The delimiter kind of a group node.
#[derive(Clone, Copy, Debug, PartialEq, Eq, Structural)]
pub enum Delim {
    Paren,
    Bracket,
    Brace,
}

/// The kind of a literal token.
///
/// `Other` stands for every literal kind the composition grammar does not
/// accept as a parameter value (characters, byte strings, and so on).
#[derive(Clone, Copy, Debug, PartialEq, Eq, Structural)]
pub enum LitKind {
    Str,
    Int,
    Float,
    Bool,
    Other,
}

/// A literal token, carried as its canonical text.
///
/// For `Str` the text is the literal's character content (unescaped, without
/// quotes); for `Int`, `Float` and `Other` it is the literal's textual form;
/// for `Bool` it is `true` or `false`.
#[derive(Debug, PartialEq, Eq)]
pub struct Lit {
    pub kind: LitKind,
    pub text: String,
}

/// One node of the tagged token tree.
#[derive(Debug, PartialEq, Eq)]
pub enum TokenNode {
    Ident(String),
    Lit(Lit),
    Group(Delim, Vec<TokenNode>),
    Punct(char),
}

/// The mathematical model of a token node.
pub enum TokenNodeV {
    Ident(Seq<char>),
    Lit(LitKind, Seq<char>),
    Group(Delim, Seq<TokenNodeV>),
    Punct(char),
}

/// The model of a single node.
pub open spec fn view_node(n: TokenNode) -> TokenNodeV
    decreases n,
{
    match n {
        TokenNode::Ident(s) => TokenNodeV::Ident(s@),
        TokenNode::Lit(l) => TokenNodeV::Lit(l.kind, l.text@),
        TokenNode::Group(d, ts) => TokenNodeV::Group(d, view_nodes(ts@)),
        TokenNode::Punct(c) => TokenNodeV::Punct(c),
    }
}

/// The model of a sequence of nodes.
pub open spec fn view_nodes(s: Seq<TokenNode>) -> Seq<TokenNodeV>
    decreases s,
{
    if s.len() == 0 {
        Seq::empty()
    } else {
        seq![view_node(s[0])] + view_nodes(s.drop_first())
    }
}

impl View for TokenNode {
    type V = TokenNodeV;

    open spec fn view(&self) -> TokenNodeV {
        view_node(*self)
    }
}

pub broadcast proof fn lemma_view_nodes_index(s: Seq<TokenNode>)
    ensures
        (#[trigger] view_nodes(s)).len() == s.len(),
        forall|i: int| 0 <= i < s.len() ==> view_nodes(s)[i] == view_node(s[i]),
    decreases s,
{
    if s.len() > 0 {
        lemma_view_nodes_index(s.drop_first());
        assert forall|i: int| 0 <= i < s.len() implies view_nodes(s)[i] == view_node(s[i]) by {
            if i > 0 {
                assert(s.drop_first()[i - 1] == s[i]);
            }
        }
    }
}

pub broadcast proof fn lemma_view_nodes_push(s: Seq<TokenNode>, n: TokenNode)
    ensures
        #[trigger] view_nodes(s.push(n)) == view_nodes(s).push(view_node(n)),
    decreases s,
{
    lemma_view_nodes_index(s);
    lemma_view_nodes_index(s.push(n));
    assert(view_nodes(s.push(n)) =~= view_nodes(s).push(view_node(n)));
}

pub broadcast proof fn lemma_view_nodes_add(a: Seq<TokenNode>, b: Seq<TokenNode>)
    ensures
        #[trigger] view_nodes(a + b) == view_nodes(a) + view_nodes(b),
    decreases a,
{
    lemma_view_nodes_index(a);
    lemma_view_nodes_index(b);
    lemma_view_nodes_index(a + b);
    assert(view_nodes(a + b) =~= view_nodes(a) + view_nodes(b));
}

pub proof fn lemma_view_nodes_cons(x: TokenNode, s: Seq<TokenNode>)
    ensures
        view_nodes(seq![x] + s) == seq![view_node(x)] + view_nodes(s),
{
    assert((seq![x] + s)[0] == x);
    assert((seq![x] + s).drop_first() =~= s);
}

/// A copy of a node with the same model.
pub fn clone_node(n: &TokenNode) -> (r: TokenNode)
    ensures
        r@ == n@,
    decreases *n,
{
    match n {
        TokenNode::Ident(s) => TokenNode::Ident(s.clone()),
        TokenNode::Lit(l) => TokenNode::Lit(Lit { kind: l.kind, text: l.text.clone() }),
        TokenNode::Group(d, ts) => TokenNode::Group(*d, clone_nodes(ts)),
        TokenNode::Punct(c) => TokenNode::Punct(*c),
    }
}

/// A copy of a node sequence with the same model.
pub fn clone_nodes(v: &Vec<TokenNode>) -> (r: Vec<TokenNode>)
    ensures
        view_nodes(r@) == view_nodes(v@),
        r@.len() == v@.len(),
    decreases *v,
{
    broadcast use lemma_view_nodes_index;

    let mut out: Vec<TokenNode> = Vec::new();
    let n = v.len();
    let mut i: usize = 0;
    while i < n
        invariant
            i <= n,
            n == v@.len(),
            out@.len() == i,
            forall|j: int| 0 <= j < i ==> out@[j]@ == v@[j]@,
        decreases n - i,
    {
        let c = clone_node(&v[i]);
        out.push(c);
        i += 1;
    }
    proof {
        assert(view_nodes(out@) =~= view_nodes(v@));
    }
    out
}

/// The size of a node: the number of nodes in it, groups counted with
/// their contents. Termination measures of the parser and rewriter rest
/// on it.
pub open spec fn node_size(n: TokenNodeV) -> nat
    decreases n,
{
    match n {
        TokenNodeV::Group(_, ts) => 1 + nodes_size(ts),
        _ => 1,
    }
}

/// The total size of a sequence of nodes.
pub open spec fn nodes_size(s: Seq<TokenNodeV>) -> nat
    decreases s,
{
    if s.len() == 0 {
        0
    } else {
        node_size(s[0]) + nodes_size(s.drop_first())
    }
}

pub proof fn lemma_node_size_pos(n: TokenNodeV)
    ensures
        node_size(n) >= 1,
{
}

/// Dropping a nonempty prefix strictly shrinks the size.
pub proof fn lemma_nodes_size_skip(s: Seq<TokenNodeV>, k: int)
    requires
        0 <= k <= s.len(),
    ensures
        nodes_size(s.skip(k)) <= nodes_size(s),
        k >= 1 ==> nodes_size(s.skip(k)) < nodes_size(s),
    decreases k,
{
    if k == 0 {
        assert(s.skip(0) =~= s);
    } else {
        lemma_nodes_size_skip(s.drop_first(), k - 1);
        assert(s.drop_first().skip(k - 1) =~= s.skip(k));
        lemma_node_size_pos(s[0]);
    }
}

/// A node of the sequence is no larger than the whole sequence.
pub proof fn lemma_nodes_size_index(s: Seq<TokenNodeV>, i: int)
    requires
        0 <= i < s.len(),
    ensures
        node_size(s[i]) <= nodes_size(s),
    decreases i,
{
    if i == 0 {
    } else {
        lemma_nodes_size_index(s.drop_first(), i - 1);
        assert(s.drop_first()[i - 1] == s[i]);
        lemma_node_size_pos(s[0]);
    }
}

} // verus!
