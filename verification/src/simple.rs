//! The plain-substitution rendering engine.
//!
//! A pattern is scanned left to right. Each delimited placeholder `{name}`
//! whose name the parameter mapping binds is replaced by its value; every
//! other character passes through. Afterwards the result is scanned for
//! placeholder-shaped text whose name the mapping does not supply; if any
//! is found, rendering fails and reports those names in order of
//! occurrence.

use vstd::prelude::*;
use vstd::string::StrSliceExecFns;
use vstd::string::StringExecFns;

use crate::errors::{EngineErrorKind, EngineErrorKindV};
use crate::params::ParamMap;
use crate::text::strs_view;

verus! {

/// The position of the first `}` at or after `i`, if any.
pub open spec fn find_close(p: Seq<char>, i: int) -> Option<int>
    decreases p.len() - i,
{
    if i < 0 || i >= p.len() {
        None
    } else if p[i] == '}' {
        Some(i)
    } else {
        find_close(p, i + 1)
    }
}

pub proof fn lemma_find_close(p: Seq<char>, i: int)
    requires
        i >= 0,
    ensures
        match find_close(p, i) {
            Some(j) => i <= j < p.len() && p[j] == '}' && forall|k: int|
                i <= k < j ==> p[k] != '}',
            None => forall|k: int| i <= k < p.len() ==> p[k] != '}',
        },
    decreases p.len() - i,
{
    if i >= p.len() {
    } else if p[i] == '}' {
    } else {
        lemma_find_close(p, i + 1);
    }
}

/// The pattern from position `i` on, with every placeholder whose name the
/// mapping binds replaced by its value.
pub open spec fn subst_from(p: Seq<char>, m: Map<Seq<char>, Seq<char>>, i: int) -> Seq<char>
    decreases p.len() - i,
    via subst_from_decreases
{
    if i < 0 || i >= p.len() {
        Seq::empty()
    } else if p[i] == '{' {
        match find_close(p, i + 1) {
            None => p.subrange(i, p.len() as int),
            Some(j) => {
                let name = p.subrange(i + 1, j);
                if m.contains_key(name) {
                    m[name] + subst_from(p, m, j + 1)
                } else {
                    seq!['{'] + subst_from(p, m, i + 1)
                }
            },
        }
    } else {
        seq![p[i]] + subst_from(p, m, i + 1)
    }
}

#[via_fn]
proof fn subst_from_decreases(p: Seq<char>, m: Map<Seq<char>, Seq<char>>, i: int) {
    if 0 <= i < p.len() {
        lemma_find_close(p, i + 1);
    }
}

/// The names of the placeholders from position `i` on whose nonempty names
/// `keys` does not contain, in order of occurrence.
pub open spec fn unsub_from(p: Seq<char>, keys: Set<Seq<char>>, i: int) -> Seq<Seq<char>>
    decreases p.len() - i,
    via unsub_from_decreases
{
    if i < 0 || i >= p.len() {
        Seq::empty()
    } else if p[i] == '{' {
        match find_close(p, i + 1) {
            None => Seq::empty(),
            Some(j) => {
                let name = p.subrange(i + 1, j);
                let rest = unsub_from(p, keys, j + 1);
                if name.len() > 0 && !keys.contains(name) {
                    seq![name] + rest
                } else {
                    rest
                }
            },
        }
    } else {
        unsub_from(p, keys, i + 1)
    }
}

#[via_fn]
proof fn unsub_from_decreases(p: Seq<char>, keys: Set<Seq<char>>, i: int) {
    if 0 <= i < p.len() {
        lemma_find_close(p, i + 1);
    }
}

/// What rendering a pattern with the plain-substitution engine yields:
/// the substituted text, or the list of unsatisfied placeholder names.
pub open spec fn spec_simple_render(p: Seq<char>, m: Map<Seq<char>, Seq<char>>) -> Result<
    Seq<char>,
    Seq<Seq<char>>,
> {
    let r = subst_from(p, m, 0);
    let bad = unsub_from(r, m.dom(), 0);
    if bad.len() == 0 {
        Ok(r)
    } else {
        Err(bad)
    }
}

/// Whether `s` contains no brace at all, and in particular no delimited
/// placeholder.
pub open spec fn brace_free(s: Seq<char>) -> bool {
    forall|i: int| 0 <= i < s.len() ==> s[i] != '{' && s[i] != '}'
}

/// Whether, from position `i` on, the pattern is made only of plain
/// characters and of placeholders `{name}` with a nonempty, brace-free
/// name that the mapping binds.
pub open spec fn covered(p: Seq<char>, m: Map<Seq<char>, Seq<char>>, i: int) -> bool
    decreases p.len() - i,
    via covered_decreases
{
    if i < 0 || i >= p.len() {
        true
    } else if p[i] == '{' {
        match find_close(p, i + 1) {
            None => false,
            Some(j) => {
                let name = p.subrange(i + 1, j);
                name.len() > 0 && brace_free(name) && m.contains_key(name) && covered(p, m, j + 1)
            },
        }
    } else if p[i] == '}' {
        false
    } else {
        covered(p, m, i + 1)
    }
}

#[via_fn]
proof fn covered_decreases(p: Seq<char>, m: Map<Seq<char>, Seq<char>>, i: int) {
    if 0 <= i < p.len() {
        lemma_find_close(p, i + 1);
    }
}

proof fn lemma_subst_covered_brace_free(p: Seq<char>, m: Map<Seq<char>, Seq<char>>, i: int)
    requires
        i >= 0,
        covered(p, m, i),
        forall|k: Seq<char>| m.dom().contains(k) ==> brace_free(#[trigger] m[k]),
    ensures
        brace_free(subst_from(p, m, i)),
    decreases p.len() - i,
{
    if i >= p.len() {
    } else if p[i] == '{' {
        lemma_find_close(p, i + 1);
        match find_close(p, i + 1) {
            None => {},
            Some(j) => {
                let name = p.subrange(i + 1, j);
                lemma_subst_covered_brace_free(p, m, j + 1);
                assert forall|t: int|
                    0 <= t < subst_from(p, m, i).len() implies subst_from(p, m, i)[t] != '{'
                    && subst_from(p, m, i)[t] != '}' by {
                    if t < m[name].len() {
                        assert(subst_from(p, m, i)[t] == m[name][t]);
                    } else {
                        let tail = subst_from(p, m, j + 1);
                        assert(subst_from(p, m, i)[t] == tail[t - m[name].len()]);
                    }
                }
            },
        }
    } else {
        lemma_subst_covered_brace_free(p, m, i + 1);
        assert forall|t: int|
            0 <= t < subst_from(p, m, i).len() implies subst_from(p, m, i)[t] != '{'
            && subst_from(p, m, i)[t] != '}' by {
            if t > 0 {
                assert(subst_from(p, m, i)[t] == subst_from(p, m, i + 1)[t - 1]);
            }
        }
    }
}

proof fn lemma_unsub_brace_free(p: Seq<char>, keys: Set<Seq<char>>, i: int)
    requires
        i >= 0,
        brace_free(p),
    ensures
        unsub_from(p, keys, i) == Seq::<Seq<char>>::empty(),
    decreases p.len() - i,
{
    if i < p.len() {
        lemma_unsub_brace_free(p, keys, i + 1);
    }
}

/// For every pattern whose placeholders the mapping covers (and whose
/// values introduce no brace), plain-substitution rendering succeeds,
/// reproduces the pattern with every `{name}` replaced by its bound value,
/// and leaves no delimited placeholder in the result.
pub proof fn lemma_render_covering(p: Seq<char>, m: Map<Seq<char>, Seq<char>>)
    requires
        covered(p, m, 0),
        forall|k: Seq<char>| m.dom().contains(k) ==> brace_free(#[trigger] m[k]),
    ensures
        spec_simple_render(p, m) == Ok::<Seq<char>, Seq<Seq<char>>>(subst_from(p, m, 0)),
        brace_free(subst_from(p, m, 0)),
{
    lemma_subst_covered_brace_free(p, m, 0);
    lemma_unsub_brace_free(subst_from(p, m, 0), m.dom(), 0);
}

/// The position of the first `}` at or after `start`, as executable code.
fn find_close_exec(p: &str, start: usize) -> (r: Option<usize>)
    requires
        start <= p@.len(),
    ensures
        match r {
            Some(j) => find_close(p@, start as int) == Some(j as int) && start <= j < p@.len(),
            None => find_close(p@, start as int) is None,
        },
{
    let n = p.unicode_len();
    let mut i: usize = start;
    while i < n
        invariant
            start <= i <= n,
            n == p@.len(),
            find_close(p@, start as int) == find_close(p@, i as int),
        decreases n - i,
    {
        if p.get_char(i) == '}' {
            return Some(i);
        }
        i += 1;
    }
    None
}

/// Renders `template` with the plain-substitution engine.
///
/// Every `{name}` whose name `params` binds is replaced by the bound value;
/// the result must contain no placeholder with a nonempty name outside
/// `params`, else rendering fails with those names.
pub fn process(template: &str, params: &ParamMap) -> (r: Result<String, EngineErrorKind>)
    ensures
        match r {
            Ok(s) => spec_simple_render(template@, params@) == Ok::<Seq<char>, Seq<Seq<char>>>(s@),
            Err(e) => {
                &&& spec_simple_render(template@, params@) matches Err(bad)
                &&& e@ == EngineErrorKindV::UnsubstitutedVariables(
                    spec_simple_render(template@, params@)->Err_0,
                )
            },
        },
{
    let n = template.unicode_len();
    let mut out = String::new();
    let mut i: usize = 0;
    while i < n
        invariant
            i <= n,
            n == template@.len(),
            out@ + subst_from(template@, params@, i as int) == subst_from(
                template@,
                params@,
                0,
            ),
        decreases n - i,
    {
        let c = template.get_char(i);
        if c == '{' {
            match find_close_exec(template, i + 1) {
                None => {
                    let rest = template.substring_char(i, n);
                    out.append(rest);
                    i = n;
                },
                Some(j) => {
                    let name = template.substring_char(i + 1, j);
                    match params.get(name) {
                        Some(v) => {
                            out.append(v.as_str());
                            i = j + 1;
                        },
                        None => {
                            out.append("{");
                            proof {
                                reveal_strlit("{");
                                assert("{"@ =~= seq!['{']);
                            }
                            i = i + 1;
                        },
                    }
                },
            }
        } else {
            let piece = template.substring_char(i, i + 1);
            proof {
                assert(piece@ =~= seq![template@[i as int]]);
            }
            out.append(piece);
            i = i + 1;
        }
    }
    // The substituted text is complete; scan it for unsatisfied placeholders.
    let rendered = out;
    let rn = rendered.as_str().unicode_len();
    let mut bad: Vec<String> = Vec::new();
    let mut k: usize = 0;
    while k < rn
        invariant
            k <= rn,
            rn == rendered@.len(),
            strs_view(bad@) + unsub_from(rendered@, params@.dom(), k as int) == unsub_from(
                rendered@,
                params@.dom(),
                0,
            ),
        decreases rn - k,
    {
        let c = rendered.as_str().get_char(k);
        if c == '{' {
            match find_close_exec(rendered.as_str(), k + 1) {
                None => {
                    k = rn;
                },
                Some(j) => {
                    let name = rendered.as_str().substring_char(k + 1, j);
                    if j > k + 1 && !params.contains_key(name) {
                        let owned = name.to_owned();
                        proof {
                            crate::text::lemma_strs_view_push(bad@, owned);
                        }
                        bad.push(owned);
                    }
                    k = j + 1;
                },
            }
        } else {
            k = k + 1;
        }
    }
    if bad.len() == 0 {
        proof {
            assert(strs_view(bad@) =~= Seq::<Seq<char>>::empty());
        }
        Ok(rendered)
    } else {
        Err(EngineErrorKind::UnsubstitutedVariables(bad))
    }
}

} // verus!
