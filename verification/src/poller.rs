//! The presence poller's decision logic.
//!
//! The embedding periodically obtains raw probe output listing the
//! identifiers currently reachable on the local network (an
//! address-resolution table dump). A registered device counts as observed
//! when its identifier occurs verbatim inside that output; every observed
//! device is then marked seen at the current time. The poller never removes
//! entries; it only extends freshness.

use vstd::prelude::*;

use crate::registry::{mentions, refreshed_record, Registry};
use crate::text::{contains_seq, contains_sub};

verus! {

/// The identifiers with a current record that occur in the probe output.
pub fn observed_identifiers(reg: &Registry, probe_output: &str) -> (r: Vec<String>)
    requires
        reg.wf(),
    ensures
        forall|i: int|
            0 <= i < r@.len() ==> reg@.contains_key(#[trigger] r@[i]@) && contains_seq(
                probe_output@,
                r@[i]@,
            ),
        forall|k: Seq<char>|
            reg@.contains_key(k) && contains_seq(probe_output@, k) ==> mentions(r@, k),
    {
    let keys = reg.keys();
    let n: usize = keys.len();
    let mut r: Vec<String> = Vec::new();
    let mut i: usize = 0;
    while i < n
        invariant
            reg.wf(),
            n == keys@.len(),
            i <= n,
            forall|j: int| 0 <= j < keys@.len() ==> reg@.contains_key(#[trigger] keys@[j]@),
            forall|k: Seq<char>| reg@.contains_key(k) ==> mentions(keys@, k),
            forall|j: int|
                0 <= j < r@.len() ==> reg@.contains_key(#[trigger] r@[j]@) && contains_seq(
                    probe_output@,
                    r@[j]@,
                ),
            forall|ii: int|
                0 <= ii < i && contains_seq(probe_output@, keys@[ii]@) ==> mentions(
                    r@,
                    #[trigger] keys@[ii]@,
                ),
        decreases n - i,
    {
        let ghost r0 = r@;
        let hit = contains_sub(probe_output, keys[i].as_str());
        if hit {
            let key = keys[i].clone();
            r.push(key);
        }
        proof {
            assert forall|ii: int|
                0 <= ii < i + 1 && contains_seq(probe_output@, keys@[ii]@) implies mentions(
                r@,
                #[trigger] keys@[ii]@,
            ) by {
                if ii == i {
                    assert(r@[r@.len() - 1]@ == keys@[ii]@);
                } else {
                    let j = choose|j: int| 0 <= j < r0.len() && r0[j]@ == keys@[ii]@;
                    assert(r@[j]@ == keys@[ii]@);
                }
            }
        }
        i += 1;
    }
    proof {
        assert forall|k: Seq<char>|
            reg@.contains_key(k) && contains_seq(probe_output@, k) implies mentions(r@, k) by {
            assert(mentions(keys@, k));
            let j = choose|j: int| 0 <= j < keys@.len() && keys@[j]@ == k;
            assert(mentions(r@, keys@[j]@));
        }
    }
    r
}

/// One polling step: mark every registered identifier that occurs in the
/// probe output as seen at `now`. Nothing is added or removed, no name or
/// claim time changes, and `last_seen` never regresses.
pub fn refresh_from_probe(reg: &mut Registry, probe_output: &str, now: u64)
    requires
        old(reg).wf(),
    ensures
        final(reg).wf(),
        forall|k: Seq<char>| final(reg)@.contains_key(k) == old(reg)@.contains_key(k),
        forall|k: Seq<char>|
            old(reg)@.contains_key(k) ==> final(reg)@[k] == refreshed_record(
                old(reg)@[k],
                contains_seq(probe_output@, k),
                now,
            ),
{
    let ids = observed_identifiers(reg, probe_output);
    let ghost m0 = reg@;
    reg.refresh_seen(&ids, now);
    proof {
        assert forall|k: Seq<char>| m0.contains_key(k) implies reg@[k] == refreshed_record(
            m0[k],
            contains_seq(probe_output@, k),
            now,
        ) by {
            if mentions(ids@, k) {
                let j = choose|j: int| 0 <= j < ids@.len() && ids@[j]@ == k;
                assert(contains_seq(probe_output@, ids@[j]@));
            }
            if contains_seq(probe_output@, k) {
                assert(mentions(ids@, k));
            }
        }
    }
}

} // verus!
