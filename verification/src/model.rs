//! The mathematical model shared by the string types: predicates over
//! sequences of 16-bit code units, and the laws the public operations obey.

use vstd::prelude::*;

verus! {

/// A sequence of code units is nul-free when no element is zero.
pub open spec fn nul_free(s: Seq<u16>) -> bool {
    forall|i: int| 0 <= i < s.len() ==> s[i] != 0
}

/// A sequence contains the code unit `x` somewhere.
pub open spec fn has_value(s: Seq<u16>, x: u16) -> bool {
    exists|i: int| 0 <= i < s.len() && s[i] == x
}

/// The index of the first occurrence of `x` in `s`; meaningful only when
/// `has_value(s, x)` holds.
pub open spec fn first_index(s: Seq<u16>, x: u16) -> int
    decreases s.len(),
{
    if s.len() == 0 {
        0
    } else if s[0] == x {
        0
    } else {
        1 + first_index(s.skip(1), x)
    }
}

/// A stored region is well formed when it consists of a nul-free run of code
/// units followed by exactly one trailing nul.
pub open spec fn wf_units(s: Seq<u16>) -> bool {
    &&& s.len() >= 1
    &&& s.last() == 0
    &&& nul_free(s.take(s.len() - 1))
}

/// `p` is a prefix of `s`.
pub open spec fn is_prefix(p: Seq<u16>, s: Seq<u16>) -> bool {
    p.len() <= s.len() && p == s.take(p.len() as int)
}

/// When `s` contains `x`, `first_index(s, x)` is an index of `x` and no
/// earlier element equals `x`.
pub proof fn lemma_first_index(s: Seq<u16>, x: u16)
    requires
        has_value(s, x),
    ensures
        0 <= first_index(s, x) < s.len(),
        s[first_index(s, x)] == x,
        forall|j: int| 0 <= j < first_index(s, x) ==> s[j] != x,
    decreases s.len(),
{
    if s.len() > 0 && s[0] != x {
        assert(has_value(s.skip(1), x)) by {
            let i = choose|i: int| 0 <= i < s.len() && s[i] == x;
            assert(s.skip(1)[i - 1] == x);
        }
        lemma_first_index(s.skip(1), x);
        assert forall|j: int| 0 <= j < first_index(s, x) implies s[j] != x by {
            if j > 0 {
                assert(s[j] == s.skip(1)[j - 1]);
            }
        }
    }
}

/// Law: a nul-free sequence survives the owned round trip unchanged.
/// Building a buffer from it appends exactly one trailing nul, the result is
/// well formed, and dropping that nul returns the original sequence.
pub proof fn lemma_from_vec_round_trip(s: Seq<u16>)
    requires
        nul_free(s),
    ensures
        wf_units(s.push(0u16)),
        s.push(0u16).take(s.push(0u16).len() - 1) == s,
{
    assert(s.push(0u16).take(s.push(0u16).len() - 1) =~= s);
}

/// Law: truncating a sequence immediately after its first nul yields a well
/// formed buffer whose payload length is exactly the position of that nul;
/// everything after the first nul is discarded.
pub proof fn lemma_truncate_at_first_nul(s: Seq<u16>)
    requires
        has_value(s, 0),
    ensures
        wf_units(s.take(first_index(s, 0) + 1)),
        s.take(first_index(s, 0) + 1).len() - 1 == first_index(s, 0),
{
    lemma_first_index(s, 0);
    let i = first_index(s, 0);
    let t = s.take(i + 1);
    assert(t.last() == s[i]);
    assert forall|j: int| 0 <= j < t.len() - 1 implies #[trigger] t.take(t.len() - 1)[j] != 0 by {
        assert(t.take(t.len() - 1)[j] == s[j]);
    }
}

/// When no element of `s` before `i` equals `x` and `s[i] == x`, then `i` is
/// the first occurrence of `x`.
pub proof fn lemma_first_index_unique(s: Seq<u16>, x: u16, i: int)
    requires
        0 <= i < s.len(),
        s[i] == x,
        forall|j: int| 0 <= j < i ==> s[j] != x,
    ensures
        first_index(s, x) == i,
    decreases s.len(),
{
    if s[0] != x {
        lemma_first_index_unique(s.skip(1), x, i - 1);
    }
}

} // verus!
