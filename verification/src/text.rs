//! Character-level string helpers.

use vstd::prelude::*;
use vstd::string::StrSliceExecFns;

verus! {

/// The models of a sequence of strings.
pub open spec fn strs_view(s: Seq<String>) -> Seq<Seq<char>> {
    Seq::new(s.len(), |i: int| s[i]@)
}

pub proof fn lemma_strs_view_push(s: Seq<String>, x: String)
    ensures
        strs_view(s.push(x)) == strs_view(s).push(x@),
{
    assert(strs_view(s.push(x)) =~= strs_view(s).push(x@));
}

/// The set of character sequences a list of strings holds.
pub open spec fn name_set(s: Seq<String>) -> Set<Seq<char>> {
    Set::new(|x: Seq<char>| exists|j: int| 0 <= j < s.len() && s[j]@ == x)
}

/// Appending a string to the list inserts its characters into the set.
pub proof fn lemma_name_set_push(s: Seq<String>, x: String)
    ensures
        name_set(s.push(x)) == name_set(s).insert(x@),
{
    let a = name_set(s.push(x));
    let b = name_set(s).insert(x@);
    assert forall|y: Seq<char>| a.contains(y) implies b.contains(y) by {
        let j = choose|j: int| 0 <= j < s.push(x).len() && s.push(x)[j]@ == y;
        if j < s.len() {
            assert(s[j]@ == y);
            assert(name_set(s).contains(y));
        } else {
            assert(s.push(x)[j] == x);
        }
    }
    assert forall|y: Seq<char>| b.contains(y) implies a.contains(y) by {
        if y == x@ {
            assert(s.push(x)[s.len() as int]@ == y);
        } else {
            let j = choose|j: int| 0 <= j < s.len() && s[j]@ == y;
            assert(s.push(x)[j]@ == y);
        }
    }
    assert(a =~= b);
}

/// Whether `n` is among the strings of the list.
pub fn names_contains(v: &Vec<String>, n: &str) -> (r: bool)
    ensures
        r == name_set(v@).contains(n@),
{
    let len = v.len();
    let mut i: usize = 0;
    while i < len
        invariant
            i <= len,
            len == v@.len(),
            forall|j: int| 0 <= j < i ==> v@[j]@ != n@,
        decreases len - i,
    {
        if str_eq(v[i].as_str(), n) {
            return true;
        }
        i += 1;
    }
    false
}

/// Whether two string slices hold the same characters.
pub fn str_eq(a: &str, b: &str) -> (r: bool)
    ensures
        r == (a@ == b@),
{
    let alen = a.unicode_len();
    let blen = b.unicode_len();
    if alen != blen {
        return false;
    }
    let mut i: usize = 0;
    while i < alen
        invariant
            i <= alen,
            alen == a@.len(),
            alen == b@.len(),
            forall|j: int| 0 <= j < i ==> a@[j] == b@[j],
        decreases alen - i,
    {
        if a.get_char(i) != b.get_char(i) {
            return false;
        }
        i += 1;
    }
    proof {
        assert(a@ =~= b@);
    }
    true
}

} // verus!
