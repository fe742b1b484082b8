//! The two-tier scope of a composition block.
//!
//! `let` bindings are block-private locals; `const` bindings are appended
//! to the export list, whose order is preserved for deterministic
//! emission.

use vstd::prelude::*;

use crate::params::{entries_map, lemma_entries_map_last_match, lemma_entries_map_no_match};
use crate::parser::{view_attrs, Attr};
use crate::text::str_eq;
use crate::token_tree::{
    clone_nodes, lemma_view_nodes_push, view_nodes, Delim, Lit, LitKind, TokenNode, TokenNodeV,
};

verus! {

broadcast use lemma_view_nodes_push;

/// An exported `const` binding: its attributes, its name, and its
/// resolved value.
#[derive(Debug, PartialEq, Eq)]
pub struct Export {
    pub attrs: Vec<Attr>,
    pub name: String,
    pub value: String,
}

/// The model of an export.
pub struct ExportV {
    pub attrs: Seq<Seq<TokenNodeV>>,
    pub name: Seq<char>,
    pub value: Seq<char>,
}

impl View for Export {
    type V = ExportV;

    open spec fn view(&self) -> ExportV {
        ExportV { attrs: view_attrs(self.attrs@), name: self.name@, value: self.value@ }
    }
}

/// The models of a sequence of exports.
pub open spec fn exports_view(s: Seq<Export>) -> Seq<ExportV> {
    Seq::new(s.len(), |i: int| s[i]@)
}

/// The tokens that declare one export:
/// `attrs* const name : & str = "value" ;`.
pub open spec fn spec_export_tokens(e: ExportV) -> Seq<TokenNodeV> {
    spec_attrs_tokens(e.attrs) + seq![
        TokenNodeV::Ident("const"@),
        TokenNodeV::Ident(e.name),
        TokenNodeV::Punct(':'),
        TokenNodeV::Punct('&'),
        TokenNodeV::Ident("str"@),
        TokenNodeV::Punct('='),
        TokenNodeV::Lit(LitKind::Str, e.value),
        TokenNodeV::Punct(';'),
    ]
}

/// The tokens of a sequence of attributes, each `#` and a bracket group.
pub open spec fn spec_attrs_tokens(attrs: Seq<Seq<TokenNodeV>>) -> Seq<TokenNodeV>
    decreases attrs,
{
    if attrs.len() == 0 {
        Seq::empty()
    } else {
        seq![TokenNodeV::Punct('#'), TokenNodeV::Group(Delim::Bracket, attrs[0])]
            + spec_attrs_tokens(attrs.drop_first())
    }
}

/// The token stream that declares all exports, in order.
pub open spec fn spec_output_tokens(exports: Seq<ExportV>) -> Seq<TokenNodeV>
    decreases exports,
{
    if exports.len() == 0 {
        Seq::empty()
    } else {
        spec_export_tokens(exports[0]) + spec_output_tokens(exports.drop_first())
    }
}

/// The tokens that declare one export, as executable code.
fn export_tokens(e: &Export) -> (r: Vec<TokenNode>)
    ensures
        view_nodes(r@) == spec_export_tokens(e@),
{
    let mut out: Vec<TokenNode> = Vec::new();
    let n = e.attrs.len();
    let mut i: usize = 0;
    while i < n
        invariant
            i <= n,
            n == e.attrs@.len(),
            view_nodes(out@) == spec_attrs_tokens(view_attrs(e.attrs@).take(i as int)),
        decreases n - i,
    {
        let ghost prefix = view_attrs(e.attrs@).take(i as int);
        out.push(TokenNode::Punct('#'));
        out.push(TokenNode::Group(Delim::Bracket, clone_nodes(&e.attrs[i].tokens)));
        i += 1;
        proof {
            let prefix2 = view_attrs(e.attrs@).take(i as int);
            assert(prefix2.drop_last() =~= prefix);
            lemma_attrs_tokens_push(prefix, e.attrs@[i - 1]@);
            assert(prefix.push(e.attrs@[i - 1]@) =~= prefix2);
        }
    }
    proof {
        assert(view_attrs(e.attrs@).take(n as int) =~= view_attrs(e.attrs@));
    }
    out.push(TokenNode::Ident("const".to_owned()));
    out.push(TokenNode::Ident(e.name.clone()));
    out.push(TokenNode::Punct(':'));
    out.push(TokenNode::Punct('&'));
    out.push(TokenNode::Ident("str".to_owned()));
    out.push(TokenNode::Punct('='));
    out.push(TokenNode::Lit(Lit { kind: LitKind::Str, text: e.value.clone() }));
    out.push(TokenNode::Punct(';'));
    proof {
        assert(view_nodes(out@) =~= spec_export_tokens(e@));
    }
    out
}

/// Appending one attribute extends its token rendering at the end.
proof fn lemma_attrs_tokens_push(attrs: Seq<Seq<TokenNodeV>>, a: Seq<TokenNodeV>)
    ensures
        spec_attrs_tokens(attrs.push(a)) == spec_attrs_tokens(attrs) + seq![
            TokenNodeV::Punct('#'),
            TokenNodeV::Group(Delim::Bracket, a),
        ],
    decreases attrs,
{
    if attrs.len() == 0 {
        reveal_with_fuel(spec_attrs_tokens, 3);
        assert(attrs.push(a).drop_first() =~= Seq::<Seq<TokenNodeV>>::empty());
        assert(spec_attrs_tokens(attrs.push(a)) =~= spec_attrs_tokens(attrs) + seq![
            TokenNodeV::Punct('#'),
            TokenNodeV::Group(Delim::Bracket, a),
        ]);
    } else {
        let pair = seq![TokenNodeV::Punct('#'), TokenNodeV::Group(Delim::Bracket, a)];
        let head = seq![TokenNodeV::Punct('#'), TokenNodeV::Group(Delim::Bracket, attrs[0])];
        assert(attrs.push(a).drop_first() =~= attrs.drop_first().push(a));
        lemma_attrs_tokens_push(attrs.drop_first(), a);
        assert(attrs.push(a)[0] == attrs[0]);
        assert(spec_attrs_tokens(attrs.push(a)) == head + spec_attrs_tokens(
            attrs.drop_first().push(a),
        ));
        assert(spec_attrs_tokens(attrs.drop_first().push(a)) == spec_attrs_tokens(
            attrs.drop_first(),
        ) + pair);
        assert(spec_attrs_tokens(attrs) == head + spec_attrs_tokens(attrs.drop_first()));
        assert(head + (spec_attrs_tokens(attrs.drop_first()) + pair) =~= (head + spec_attrs_tokens(
            attrs.drop_first(),
        )) + pair);
    }
}

/// Appending one export extends the output tokens at the end.
pub proof fn lemma_output_tokens_push(exports: Seq<ExportV>, e: ExportV)
    ensures
        spec_output_tokens(exports.push(e)) == spec_output_tokens(exports) + spec_export_tokens(e),
    decreases exports,
{
    if exports.len() == 0 {
        reveal_with_fuel(spec_output_tokens, 3);
        assert(exports.push(e).drop_first() =~= Seq::<ExportV>::empty());
        assert(spec_output_tokens(exports.push(e)) =~= spec_output_tokens(exports)
            + spec_export_tokens(e));
    } else {
        let head = spec_export_tokens(exports[0]);
        let tail = spec_export_tokens(e);
        assert(exports.push(e).drop_first() =~= exports.drop_first().push(e));
        lemma_output_tokens_push(exports.drop_first(), e);
        assert(exports.push(e)[0] == exports[0]);
        assert(spec_output_tokens(exports.push(e)) == head + spec_output_tokens(
            exports.drop_first().push(e),
        ));
        assert(spec_output_tokens(exports.drop_first().push(e)) == spec_output_tokens(
            exports.drop_first(),
        ) + tail);
        assert(spec_output_tokens(exports) == head + spec_output_tokens(exports.drop_first()));
        assert(head + (spec_output_tokens(exports.drop_first()) + tail) =~= (head
            + spec_output_tokens(exports.drop_first())) + tail);
    }
}

/// The token stream declaring the given exports, as executable code.
pub fn output_tokens(exports: &Vec<Export>) -> (r: Vec<TokenNode>)
    ensures
        view_nodes(r@) == spec_output_tokens(exports_view(exports@)),
{
    let mut out: Vec<TokenNode> = Vec::new();
    let n = exports.len();
    let mut i: usize = 0;
    while i < n
        invariant
            i <= n,
            n == exports@.len(),
            view_nodes(out@) == spec_output_tokens(exports_view(exports@).take(i as int)),
        decreases n - i,
    {
        let ghost prefix = exports_view(exports@).take(i as int);
        let mut chunk = export_tokens(&exports[i]);
        let ghost out0 = out@;
        let ghost chunk0 = chunk@;
        out.append(&mut chunk);
        i += 1;
        proof {
            assert(out@ =~= out0 + chunk0);
            crate::token_tree::lemma_view_nodes_add(out0, chunk0);
            lemma_output_tokens_push(prefix, exports_view(exports@)[i - 1]);
            assert(prefix.push(exports_view(exports@)[i - 1]) =~= exports_view(exports@).take(
                i as int,
            ));
        }
    }
    proof {
        assert(exports_view(exports@).take(n as int) =~= exports_view(exports@));
    }
    out
}

/// The scope of one composition block: private `let` locals and the
/// ordered `const` exports.
pub struct Scope {
    locals: Vec<(String, String)>,
    exports: Vec<Export>,
}

impl Scope {
    /// The mapping of the block's `let` bindings.
    pub closed spec fn locals_map(&self) -> Map<Seq<char>, Seq<char>> {
        entries_map(self.locals@)
    }

    /// The block's exports, in order of appearance.
    pub closed spec fn exports_seq(&self) -> Seq<ExportV> {
        exports_view(self.exports@)
    }

    /// An empty scope.
    pub fn new() -> (r: Scope)
        ensures
            r.locals_map() == Map::<Seq<char>, Seq<char>>::empty(),
            r.exports_seq() == Seq::<ExportV>::empty(),
    {
        let r = Scope { locals: Vec::new(), exports: Vec::new() };
        proof {
            assert(r.exports_seq() =~= Seq::<ExportV>::empty());
        }
        r
    }

    /// Binds a local name, overwriting any earlier binding of it.
    pub fn add_local(&mut self, name: String, value: String)
        ensures
            final(self).locals_map() == old(self).locals_map().insert(name@, value@),
            final(self).exports_seq() == old(self).exports_seq(),
    {
        self.locals.push((name, value));
        proof {
            assert(self.locals@.drop_last() =~= old(self).locals@);
        }
    }

    /// The value of a local binding, if any.
    pub fn get_local(&self, name: &str) -> (r: Option<&String>)
        ensures
            match r {
                Some(v) => self.locals_map().contains_key(name@) && v@ == self.locals_map()[name@],
                None => !self.locals_map().contains_key(name@),
            },
    {
        let n = self.locals.len();
        let mut i: usize = n;
        while i > 0
            invariant
                i <= n,
                n == self.locals@.len(),
                forall|j: int| i <= j < n ==> self.locals@[j].0@ != name@,
            decreases i,
        {
            i = i - 1;
            if str_eq(self.locals[i].0.as_str(), name) {
                proof {
                    lemma_entries_map_last_match(self.locals@, i as int, name@);
                }
                return Some(&self.locals[i].1);
            }
        }
        proof {
            lemma_entries_map_no_match(self.locals@, name@);
        }
        None
    }

    /// Appends an exported binding.
    pub fn add_export(&mut self, attrs: Vec<Attr>, name: String, value: String)
        ensures
            final(self).exports_seq() == old(self).exports_seq().push(
                ExportV { attrs: view_attrs(attrs@), name: name@, value: value@ },
            ),
            final(self).locals_map() == old(self).locals_map(),
    {
        let e = Export { attrs, name, value };
        let ghost ev = e@;
        self.exports.push(e);
        proof {
            assert(self.exports_seq() =~= old(self).exports_seq().push(ev));
        }
    }

    /// The token stream declaring all exports of this scope, in order.
    pub fn generate_output(&self) -> (r: Vec<TokenNode>)
        ensures
            view_nodes(r@) == spec_output_tokens(self.exports_seq()),
    {
        output_tokens(&self.exports)
    }

    /// The exports of this scope, in order.
    pub fn into_exports(self) -> (r: Vec<Export>)
        ensures
            exports_view(r@) == self.exports_seq(),
    {
        self.exports
    }
}

} // verus!
