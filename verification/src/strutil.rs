//! Small verified string utilities shared by the scanner, renderer and writer.

use vstd::prelude::*;
use vstd::string::StrSliceExecFns;

verus! {

/// True iff `suffix` is a suffix of `s`.
pub open spec fn is_suffix_of(suffix: Seq<char>, s: Seq<char>) -> bool {
    suffix.len() <= s.len() && s.skip(s.len() - suffix.len()) == suffix
}

/// Character-wise string equality, decided without any trusted call.
pub fn str_eq(a: &str, b: &str) -> (r: bool)
    ensures
        r <==> a@ == b@,
{
    let la = a.unicode_len();
    let lb = b.unicode_len();
    if la != lb {
        return false;
    }
    let mut i: usize = 0;
    while i < la
        invariant
            la == a@.len(),
            la == b@.len(),
            0 <= i <= la,
            forall|j: int| 0 <= j < i ==> a@[j] == b@[j],
        decreases la - i,
    {
        if a.get_char(i) != b.get_char(i) {
            return false;
        }
        i = i + 1;
    }
    proof {
        assert(a@ =~= b@);
    }
    true
}

/// True iff `s` ends with `suffix`, decided character by character.
pub fn ends_with(s: &str, suffix: &str) -> (r: bool)
    ensures
        r <==> is_suffix_of(suffix@, s@),
{
    let ls = s.unicode_len();
    let lsuf = suffix.unicode_len();
    if lsuf > ls {
        return false;
    }
    let start = ls - lsuf;
    let mut i: usize = 0;
    while i < lsuf
        invariant
            ls == s@.len(),
            lsuf == suffix@.len(),
            lsuf <= ls,
            start == ls - lsuf,
            0 <= i <= lsuf,
            forall|j: int| 0 <= j < i ==> s@[start + j] == suffix@[j],
        decreases lsuf - i,
    {
        if s.get_char(start + i) != suffix.get_char(i) {
            proof {
                assert(s@.skip(s@.len() - suffix@.len())[i as int] == s@[start + i]);
            }
            return false;
        }
        i = i + 1;
    }
    proof {
        assert(s@.skip(s@.len() - suffix@.len()) =~= suffix@);
    }
    true
}

} // verus!
