//! Comparing text character by character.

use vstd::prelude::*;

verus! {

/// `t` holds `w` somewhere.
pub open spec fn seq_contains(t: Seq<char>, w: Seq<char>) -> bool {
    exists|i: int| 0 <= i && i + w.len() <= t.len() && #[trigger] t.subrange(i, i + w.len()) == w
}

pub(crate) fn chars_of(s: &str) -> (r: Vec<char>)
    ensures
        r@ == s@,
{
    let mut v: Vec<char> = Vec::new();
    for c in it: s.chars()
        invariant
            it.seq() == s@,
            v@ == it.seq().subrange(0, it.index() as int),
    {
        v.push(c);
    }
    v
}

/// Whether `t` from position `at` on starts with `w`.
pub(crate) fn matches_at(t: &Vec<char>, w: &Vec<char>, at: usize) -> (r: bool)
    requires
        at + w.len() <= t.len(),
    ensures
        r == (t@.subrange(at as int, at + w.len()) == w@),
{
    let mut k: usize = 0;
    while k < w.len()
        invariant
            at + w.len() <= t.len(),
            k <= w.len(),
            forall|j: int| 0 <= j < k ==> t@[at + j] == w@[j],
        decreases w.len() - k,
    {
        if t[at + k] != w[k] {
            assert(t@.subrange(at as int, at + w.len())[k as int] != w@[k as int]);
            return false;
        }
        k = k + 1;
    }
    assert(t@.subrange(at as int, at + w.len()) =~= w@);
    true
}

pub(crate) fn same_chars(t: &Vec<char>, w: &Vec<char>) -> (r: bool)
    ensures
        r == (t@ == w@),
{
    if t.len() != w.len() {
        return false;
    }
    let r = matches_at(t, w, 0);
    assert(t@.subrange(0, w.len() as int) =~= t@);
    r
}

pub(crate) fn contains_chars(t: &Vec<char>, w: &Vec<char>) -> (r: bool)
    ensures
        r == seq_contains(t@, w@),
{
    if w.len() > t.len() {
        return false;
    }
    let last = t.len() - w.len();
    let mut i: usize = 0;
    while i <= last
        invariant
            w.len() <= t.len(),
            last == t.len() - w.len(),
            i <= last + 1,
            forall|j: int| 0 <= j < i ==> #[trigger] t@.subrange(j, j + w.len()) != w@,
        decreases last + 1 - i,
    {
        if matches_at(t, w, i) {
            return true;
        }
        if i == last {
            return false;
        }
        i = i + 1;
    }
    false
}

} // verus!
