//! Substring containment over character sequences.
//!
//! The presence poller decides that a device was observed by checking
//! whether its identifier occurs verbatim inside the raw probe output.

use vstd::prelude::*;

verus! {

/// The needle `n` occurs in the haystack `h` starting at character `i`.
pub open spec fn occurs_at(h: Seq<char>, n: Seq<char>, i: int) -> bool {
    0 <= i && i + n.len() <= h.len() && h.subrange(i, i + n.len() as int) == n
}

/// The needle `n` occurs somewhere in the haystack `h`.
/// An empty needle occurs in every haystack.
pub open spec fn contains_seq(h: Seq<char>, n: Seq<char>) -> bool {
    exists|i: int| occurs_at(h, n, i)
}

/// Substring containment, decided character by character.
pub fn contains_sub(h: &str, n: &str) -> (r: bool)
    ensures
        r == contains_seq(h@, n@),
{
    let h_len: usize = h.unicode_len();
    let n_len: usize = n.unicode_len();
    if n_len > h_len {
        assert(!contains_seq(h@, n@)) by {
            assert(forall|i: int| !occurs_at(h@, n@, i));
        }
        return false;
    }
    let mut i: usize = 0;
    while i <= h_len - n_len
        invariant
            n_len <= h_len,
            h_len == h@.len(),
            n_len == n@.len(),
            i <= h_len - n_len + 1,
            forall|ii: int| 0 <= ii < i ==> !occurs_at(h@, n@, ii),
        decreases h_len - n_len - i + 1,
    {
        let mut j: usize = 0;
        let mut mismatch: bool = false;
        while j < n_len && !mismatch
            invariant
                n_len <= h_len,
                h_len == h@.len(),
                n_len == n@.len(),
                i + n_len <= h_len,
                j <= n_len,
                mismatch ==> j < n_len && h@[i + j] != n@[j as int],
                !mismatch ==> forall|jj: int| 0 <= jj < j ==> h@[i + jj] == n@[jj],
            decreases n_len - j + (if mismatch { 0int } else { 1int }),
        {
            if h.get_char(i + j) != n.get_char(j) {
                mismatch = true;
            } else {
                j += 1;
            }
        }
        if !mismatch {
            assert(occurs_at(h@, n@, i as int)) by {
                assert(h@.subrange(i as int, i + n@.len() as int) =~= n@);
            }
            return true;
        }
        assert(!occurs_at(h@, n@, i as int)) by {
            if occurs_at(h@, n@, i as int) {
                assert(h@.subrange(i as int, i + n@.len() as int)[j as int] == n@[j as int]);
            }
        }
        i += 1;
    }
    assert(forall|ii: int| !occurs_at(h@, n@, ii));
    false
}

} // verus!
