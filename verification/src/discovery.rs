//! The pure part of template-file discovery.
//!
//! Matching glob patterns against the file system happens outside the
//! library; what comes back is a list of path strings, pattern by
//! pattern. Discovery keeps each path once, at its first occurrence.

use vstd::prelude::*;

use crate::text::{lemma_name_set_push, name_set, names_contains, strs_view};

verus! {

/// The list with every repeated element removed, keeping first
/// occurrences in order; `seen` holds the elements already emitted.
pub open spec fn spec_dedup(s: Seq<Seq<char>>, seen: Set<Seq<char>>) -> Seq<Seq<char>>
    decreases s,
{
    if s.len() == 0 {
        Seq::empty()
    } else if seen.contains(s[0]) {
        spec_dedup(s.drop_first(), seen)
    } else {
        seq![s[0]] + spec_dedup(s.drop_first(), seen.insert(s[0]))
    }
}

/// Removes repeated paths, keeping the first occurrence of each in
/// order.
pub fn dedup_paths(paths: &Vec<String>) -> (r: Vec<String>)
    ensures
        strs_view(r@) == spec_dedup(strs_view(paths@), Set::empty()),
{
    let ghost full = strs_view(paths@);
    let mut out: Vec<String> = Vec::new();
    let n = paths.len();
    let mut i: usize = 0;
    proof {
        assert(full.skip(0) =~= full);
        assert(strs_view(out@) =~= Seq::<Seq<char>>::empty());
        assert(name_set(out@) =~= Set::<Seq<char>>::empty());
    }
    while i < n
        invariant
            i <= n,
            n == paths@.len(),
            full == strs_view(paths@),
            spec_dedup(full, Set::empty()) == strs_view(out@) + spec_dedup(
                full.skip(i as int),
                name_set(out@),
            ),
        decreases n - i,
    {
        let ghost rem = full.skip(i as int);
        proof {
            assert(rem[0] == full[i as int]);
            assert(full[i as int] == paths@[i as int]@);
            assert(rem.drop_first() =~= full.skip(i as int + 1));
        }
        if !names_contains(&out, paths[i].as_str()) {
            let ghost out0 = out@;
            let owned = paths[i].clone();
            proof {
                lemma_name_set_push(out0, owned);
                crate::text::lemma_strs_view_push(out0, owned);
            }
            out.push(owned);
            proof {
                assert(strs_view(out0) + (seq![rem[0]] + spec_dedup(
                    full.skip(i as int + 1),
                    name_set(out@),
                )) =~= strs_view(out@) + spec_dedup(full.skip(i as int + 1), name_set(out@)));
            }
        }
        i += 1;
    }
    proof {
        assert(full.skip(n as int) =~= Seq::<Seq<char>>::empty());
        assert(strs_view(out@) + Seq::<Seq<char>>::empty() =~= strs_view(out@));
    }
    out
}

} // verus!
