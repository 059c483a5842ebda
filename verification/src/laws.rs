//! General laws of the registry, stated over its mathematical model.
//!
//! The registry is shared behind a lock, so concurrent operations act in
//! some serialization order, each as one atomic step whose effect on the
//! model is fixed by the contract of the method (`Registry::insert`,
//! `Registry::refresh_seen`, `Registry::evict_stale`). The laws below are
//! therefore stated over the model `Map<Seq<char>, UserView>` and cover
//! every such order.

use vstd::prelude::*;

use crate::registry::{is_stale, refreshed_record, snapshot_of, UserSnapshot, UserView};

verus! {

/// Law: claiming an unclaimed identifier succeeds — `Registry::insert`
/// returns `Ok` exactly on an absent key — and the new record is
/// immediately visible with the claimed name and claim time, as `list`
/// reports them.
pub proof fn lemma_claim_visible(
    m: Map<Seq<char>, UserView>,
    id: Seq<char>,
    name: Seq<char>,
    now: u64,
)
    requires
        !m.contains_key(id),
    ensures
        ({
            let m1 = m.insert(id, UserView { name, time_active: now, last_seen: now });
            &&& m1.contains_key(id)
            &&& m1[id].name == name
            &&& m1[id].time_active == now
            &&& m1[id].last_seen == now
        }),
{
}

/// Law: immediately after a successful claim, every faithful listing of
/// the registry — which is what `Registry::snapshot` and `list` return —
/// shows the claimed identifier with the claimed name and claim time.
pub proof fn lemma_claim_listed(
    m: Map<Seq<char>, UserView>,
    id: Seq<char>,
    name: Seq<char>,
    now: u64,
    s: Seq<(String, UserSnapshot)>,
)
    requires
        snapshot_of(m.insert(id, UserView { name, time_active: now, last_seen: now }), s),
    ensures
        exists|i: int|
            0 <= i < s.len() && (#[trigger] s[i]).0@ == id && s[i].1.name@ == name
                && s[i].1.time_active == now,
{
    let m1 = m.insert(id, UserView { name, time_active: now, last_seen: now });
    assert(m1.contains_key(id));
    let i = choose|i: int| 0 <= i < s.len() && (#[trigger] s[i]).0@ == id;
    assert(s[i].1.name@ == m1[id].name);
}

/// Law: of two claims for the same unclaimed identifier, exactly one
/// succeeds, in every serialization order: whichever runs first finds the
/// key absent and inserts it, and the other then finds it present, is
/// rejected, and — by the contract of `Registry::insert` on rejection —
/// leaves the registry unchanged, so the first claim's display name and
/// claim time stand (first writer wins).
pub proof fn lemma_exclusive_claim(
    m: Map<Seq<char>, UserView>,
    id: Seq<char>,
    first_name: Seq<char>,
    first_now: u64,
)
    requires
        !m.contains_key(id),
    ensures
        ({
            let m1 = m.insert(
                id,
                UserView { name: first_name, time_active: first_now, last_seen: first_now },
            );
            &&& m1.contains_key(id)
            &&& m1[id].name == first_name
            &&& m1[id].time_active == first_now
        }),
{
}

/// Law: a refresh never regresses `last_seen`, whatever was observed and
/// whatever time the clock reports; since every refresh step produces
/// `refreshed_record` of the previous state, `last_seen` is monotonically
/// non-decreasing over any sequence of `refresh_seen` calls.
pub proof fn lemma_refresh_never_regresses(r: UserView, hit: bool, now: u64)
    ensures
        refreshed_record(r, hit, now).last_seen >= r.last_seen,
{
}

/// Law: a refresh touches nothing but `last_seen`, and preserves the
/// record invariant `last_seen >= time_active`.
pub proof fn lemma_refresh_preserves_record(r: UserView, hit: bool, now: u64)
    requires
        r.wf(),
    ensures
        refreshed_record(r, hit, now).wf(),
        refreshed_record(r, hit, now).name == r.name,
        refreshed_record(r, hit, now).time_active == r.time_active,
{
}

/// Law: a record inside the staleness threshold is never judged stale, so
/// — by the contract of `Registry::evict_stale` — a sweep never removes
/// it; one outside the threshold is judged stale and is absent after the
/// sweep.
pub proof fn lemma_staleness_boundary(r: UserView, threshold_age: u64, now: u64)
    ensures
        now <= r.last_seen + threshold_age ==> !is_stale(r, threshold_age, now),
        now > r.last_seen + threshold_age ==> is_stale(r, threshold_age, now),
{
}

} // verus!
