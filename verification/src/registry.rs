//! The device registry: a mapping from device identifier to claim record.
//!
//! Keys are unique: a claim is inserted only when no record exists for the
//! identifier, so the first claim wins and is never overwritten. Every
//! record satisfies `last_seen >= time_active`, and `last_seen` never
//! regresses.
//!
//! The registry itself is a plain value with `&mut` methods; the embedding
//! is expected to share one instance behind a read-write lock, so that each
//! method call is a single atomic step with respect to concurrent callers.
//! In particular `evict_stale` judges staleness and removes the entry under
//! one exclusive borrow, so a refresh can never land between the staleness
//! check and the removal.

use vstd::prelude::*;

verus! {

/// One claimed device: its display name, the time the claim was made
/// (`time_active`) and the time it was last observed on the network
/// (`last_seen`). Times are plain `u64` time-units supplied by the caller.
pub struct ActiveUser {
    pub name: String,
    pub time_active: u64,
    pub last_seen: u64,
}

/// Mathematical image of one claim record.
pub ghost struct UserView {
    pub name: Seq<char>,
    pub time_active: u64,
    pub last_seen: u64,
}

impl View for ActiveUser {
    type V = UserView;

    open spec fn view(&self) -> UserView {
        UserView { name: self.name@, time_active: self.time_active, last_seen: self.last_seen }
    }
}

impl UserView {
    /// A record never claims to have been seen before it was created.
    pub open spec fn wf(self) -> bool {
        self.last_seen >= self.time_active
    }
}

/// A record is stale when, judged at time `now`, it was last seen more
/// than `threshold_age` time-units ago. A record whose `last_seen` lies in
/// the future (the clock moved backwards) is never judged stale.
pub open spec fn is_stale(r: UserView, threshold_age: u64, now: u64) -> bool {
    now >= r.last_seen && now - r.last_seen > threshold_age
}

/// The identifier `k` is among the views of the strings in `ids`.
pub open spec fn mentions(ids: Seq<String>, k: Seq<char>) -> bool {
    exists|i: int| 0 <= i < ids.len() && ids[i]@ == k
}

/// How one record changes when the poller reports on it at time `now`:
/// if the device was observed (`hit`) and `now` is later than the stored
/// `last_seen`, the record is marked seen at `now`; otherwise it is left
/// exactly as it was. Time never regresses.
pub open spec fn refreshed_record(r: UserView, hit: bool, now: u64) -> UserView {
    if hit && now > r.last_seen {
        UserView { name: r.name, time_active: r.time_active, last_seen: now }
    } else {
        r
    }
}

/// What `Registry::snapshot` exposes of one record: the display name and
/// the time the claim was made. `last_seen` is internal bookkeeping and is
/// not part of the snapshot.
pub struct UserSnapshot {
    pub name: String,
    pub time_active: u64,
}

/// What a faithful snapshot sequence of the map `m` looks like: every
/// listed pair carries the display name and claim time of a current
/// record, every current identifier is listed, and no identifier is
/// listed twice.
pub open spec fn snapshot_of(m: Map<Seq<char>, UserView>, s: Seq<(String, UserSnapshot)>) -> bool {
    &&& forall|i: int|
        0 <= i < s.len() ==> {
            &&& m.contains_key((#[trigger] s[i]).0@)
            &&& s[i].1.name@ == m[s[i].0@].name
            &&& s[i].1.time_active == m[s[i].0@].time_active
        }
    &&& forall|k: Seq<char>|
        m.contains_key(k) ==> exists|i: int| 0 <= i < s.len() && (#[trigger] s[i]).0@ == k
    &&& forall|i: int, j: int| 0 <= i < j < s.len() ==> s[i].0@ != s[j].0@
}

/// Rejection of a claim for an identifier that already has a record.
#[derive(Debug, PartialEq, Eq, Structural)]
pub struct AlreadyClaimed;

/// The shared registry of claimed devices.
pub struct Registry {
    entries: Vec<(String, ActiveUser)>,
}

/// The map described by a sequence of key/record pairs; a later pair with
/// the same key would win, but well-formed registries keep keys distinct.
spec fn entries_map(s: Seq<(String, ActiveUser)>) -> Map<Seq<char>, UserView>
    decreases s.len(),
{
    if s.len() == 0 {
        Map::empty()
    } else {
        entries_map(s.drop_last()).insert(s.last().0@, s.last().1@)
    }
}

spec fn distinct_keys(s: Seq<(String, ActiveUser)>) -> bool {
    forall|i: int, j: int| 0 <= i < j < s.len() ==> s[i].0@ != s[j].0@
}

proof fn lemma_contains_of_index(s: Seq<(String, ActiveUser)>, i: int)
    requires
        0 <= i < s.len(),
    ensures
        entries_map(s).contains_key(s[i].0@),
    decreases s.len(),
{
    if i < s.len() - 1 {
        lemma_contains_of_index(s.drop_last(), i);
    }
}

proof fn lemma_index_of_contains(s: Seq<(String, ActiveUser)>, k: Seq<char>)
    requires
        entries_map(s).contains_key(k),
    ensures
        exists|i: int| 0 <= i < s.len() && s[i].0@ == k,
    decreases s.len(),
{
    if s.len() > 0 {
        if s.last().0@ == k {
            assert(s[s.len() - 1].0@ == k);
        } else {
            lemma_index_of_contains(s.drop_last(), k);
            let i = choose|i: int| 0 <= i < s.drop_last().len() && s.drop_last()[i].0@ == k;
            assert(s[i].0@ == k);
        }
    }
}

proof fn lemma_index_value(s: Seq<(String, ActiveUser)>, i: int)
    requires
        distinct_keys(s),
        0 <= i < s.len(),
    ensures
        entries_map(s).contains_key(s[i].0@),
        entries_map(s)[s[i].0@] == s[i].1@,
    decreases s.len(),
{
    lemma_contains_of_index(s, i);
    if i < s.len() - 1 {
        assert(distinct_keys(s.drop_last()));
        lemma_index_value(s.drop_last(), i);
        assert(s[i].0@ != s.last().0@);
    }
}

/// Whether `key` occurs (by character content) among `ids`.
fn contains_string(ids: &Vec<String>, key: &String) -> (r: bool)
    ensures
        r == mentions(ids@, key@),
{
    let n: usize = ids.len();
    let mut i: usize = 0;
    while i < n
        invariant
            n == ids@.len(),
            i <= n,
            forall|ii: int| 0 <= ii < i ==> (#[trigger] ids@[ii])@ != key@,
        decreases n - i,
    {
        if ids[i] == *key {
            return true;
        }
        i += 1;
    }
    false
}

impl View for Registry {
    type V = Map<Seq<char>, UserView>;

    closed spec fn view(&self) -> Map<Seq<char>, UserView> {
        entries_map(self.entries@)
    }
}

impl Registry {
    /// Internal invariant: keys are unique and every record is well formed.
    pub closed spec fn wf(&self) -> bool {
        &&& distinct_keys(self.entries@)
        &&& forall|i: int|
            0 <= i < self.entries@.len() ==> (#[trigger] self.entries@[i].1@).wf()
    }

    /// The registry starts empty.
    pub fn new() -> (r: Registry)
        ensures
            r.wf(),
            r@ == Map::<Seq<char>, UserView>::empty(),
    {
        Registry { entries: Vec::new() }
    }

    /// Whether a claim record exists for this identifier.
    pub fn has_claim(&self, identifier: &String) -> (r: bool)
        ensures
            r == self@.contains_key(identifier@),
    {
        let n: usize = self.entries.len();
        let mut i: usize = 0;
        while i < n
            invariant
                n == self.entries@.len(),
                i <= n,
                forall|ii: int| 0 <= ii < i ==> self.entries@[ii].0@ != identifier@,
            decreases n - i,
        {
            if self.entries[i].0 == *identifier {
                proof {
                    lemma_contains_of_index(self.entries@, i as int);
                }
                return true;
            }
            i += 1;
        }
        proof {
            if self@.contains_key(identifier@) {
                lemma_index_of_contains(self.entries@, identifier@);
            }
        }
        false
    }

    /// Insert a new claim if and only if the identifier is unclaimed.
    /// On success the record is created with `time_active = last_seen = now`;
    /// on `AlreadyClaimed` nothing is mutated, so the first claim's
    /// `name` and `time_active` are never overwritten.
    pub fn insert(&mut self, identifier: String, display_name: String, now: u64) -> (r: Result<
        (),
        AlreadyClaimed,
    >)
        requires
            old(self).wf(),
        ensures
            final(self).wf(),
            r is Ok <==> !old(self)@.contains_key(identifier@),
            r is Ok ==> final(self)@ == old(self)@.insert(
                identifier@,
                UserView { name: display_name@, time_active: now, last_seen: now },
            ),
            r is Err ==> final(self)@ == old(self)@,
    {
        if self.has_claim(&identifier) {
            return Err(AlreadyClaimed);
        }
        let ghost s0 = self.entries@;
        let record = ActiveUser { name: display_name, time_active: now, last_seen: now };
        proof {
            assert forall|i: int| 0 <= i < s0.len() implies s0[i].0@ != identifier@ by {
                lemma_contains_of_index(s0, i);
            }
        }
        self.entries.push((identifier, record));
        proof {
            assert(self.entries@.drop_last() =~= s0);
        }
        Ok(())
    }

    /// The identifiers that currently have a record, each exactly once.
    pub fn keys(&self) -> (r: Vec<String>)
        requires
            self.wf(),
        ensures
            forall|i: int| 0 <= i < r@.len() ==> self@.contains_key(#[trigger] r@[i]@),
            forall|k: Seq<char>| self@.contains_key(k) ==> mentions(r@, k),
            forall|i: int, j: int| 0 <= i < j < r@.len() ==> r@[i]@ != r@[j]@,
    {
        let n: usize = self.entries.len();
        let mut r: Vec<String> = Vec::new();
        let mut t: usize = 0;
        while t < n
            invariant
                n == self.entries@.len(),
                t <= n,
                r@.len() == t,
                forall|i: int| 0 <= i < t ==> (#[trigger] r@[i])@ == self.entries@[i].0@,
            decreases n - t,
        {
            let key = self.entries[t].0.clone();
            r.push(key);
            t += 1;
        }
        proof {
            assert forall|i: int| 0 <= i < r@.len() implies self@.contains_key(r@[i]@) by {
                lemma_contains_of_index(self.entries@, i);
            }
            assert forall|k: Seq<char>| self@.contains_key(k) implies mentions(r@, k) by {
                lemma_index_of_contains(self.entries@, k);
                let i = choose|i: int| 0 <= i < self.entries@.len() && self.entries@[i].0@ == k;
                assert(r@[i]@ == k);
            }
        }
        r
    }

    /// A consistent point-in-time copy of all current records, exposing
    /// for each identifier its display name and claim time. Each current
    /// identifier appears exactly once, and nothing else appears.
    pub fn snapshot(&self) -> (r: Vec<(String, UserSnapshot)>)
        requires
            self.wf(),
        ensures
            snapshot_of(self@, r@),
    {
        let n: usize = self.entries.len();
        let mut r: Vec<(String, UserSnapshot)> = Vec::new();
        let mut t: usize = 0;
        while t < n
            invariant
                self.wf(),
                n == self.entries@.len(),
                t <= n,
                r@.len() == t,
                forall|i: int|
                    0 <= i < t ==> {
                        &&& (#[trigger] r@[i]).0@ == self.entries@[i].0@
                        &&& r@[i].1.name@ == self.entries@[i].1.name@
                        &&& r@[i].1.time_active == self.entries@[i].1.time_active
                    },
            decreases n - t,
        {
            let key = self.entries[t].0.clone();
            let snap = UserSnapshot {
                name: self.entries[t].1.name.clone(),
                time_active: self.entries[t].1.time_active,
            };
            r.push((key, snap));
            t += 1;
        }
        proof {
            assert forall|i: int|
                0 <= i < r@.len() implies {
                &&& self@.contains_key((#[trigger] r@[i]).0@)
                &&& r@[i].1.name@ == self@[r@[i].0@].name
                &&& r@[i].1.time_active == self@[r@[i].0@].time_active
            } by {
                lemma_index_value(self.entries@, i);
            }
            assert forall|k: Seq<char>| self@.contains_key(k) implies exists|i: int|
                0 <= i < r@.len() && (#[trigger] r@[i]).0@ == k by {
                lemma_index_of_contains(self.entries@, k);
                let i = choose|i: int| 0 <= i < self.entries@.len() && self.entries@[i].0@ == k;
                assert(r@[i].0@ == k);
            }
        }
        r
    }

    /// The stored `last_seen` of this identifier's record, if any.
    pub fn last_seen_of(&self, identifier: &String) -> (r: Option<u64>)
        requires
            self.wf(),
        ensures
            self@.contains_key(identifier@) ==> r == Some(self@[identifier@].last_seen),
            !self@.contains_key(identifier@) ==> r is None,
    {
        let n: usize = self.entries.len();
        let mut i: usize = 0;
        while i < n
            invariant
                self.wf(),
                n == self.entries@.len(),
                i <= n,
                forall|ii: int| 0 <= ii < i ==> self.entries@[ii].0@ != identifier@,
            decreases n - i,
        {
            if self.entries[i].0 == *identifier {
                proof {
                    lemma_index_value(self.entries@, i as int);
                }
                return Some(self.entries[i].1.last_seen);
            }
            i += 1;
        }
        proof {
            if self@.contains_key(identifier@) {
                lemma_index_of_contains(self.entries@, identifier@);
            }
        }
        None
    }

    /// For every identifier in `identifiers` that currently has a record,
    /// mark it as seen at `now`, unless `now` is not later than the stored
    /// `last_seen` (time never regresses). Identifiers without a record are
    /// ignored. No name, claim time, or key is touched.
    pub fn refresh_seen(&mut self, identifiers: &Vec<String>, now: u64)
        requires
            old(self).wf(),
        ensures
            final(self).wf(),
            forall|k: Seq<char>| final(self)@.contains_key(k) == old(self)@.contains_key(k),
            forall|k: Seq<char>|
                old(self)@.contains_key(k) ==> final(self)@[k] == refreshed_record(
                    old(self)@[k],
                    mentions(identifiers@, k),
                    now,
                ),
    {
        let ghost s0 = self.entries@;
        let n: usize = self.entries.len();
        let mut updated: Vec<(String, ActiveUser)> = Vec::new();
        let mut t: usize = 0;
        while t < n
            invariant
                old(self).wf(),
                self.entries@ == s0,
                n == s0.len(),
                t <= n,
                updated@.len() == t,
                forall|i: int|
                    0 <= i < t ==> {
                        &&& (#[trigger] updated@[i]).0@ == s0[i].0@
                        &&& updated@[i].1@ == refreshed_record(
                            s0[i].1@,
                            mentions(identifiers@, s0[i].0@),
                            now,
                        )
                    },
            decreases n - t,
        {
            let hit = contains_string(identifiers, &self.entries[t].0);
            let stored = self.entries[t].1.last_seen;
            let new_last_seen: u64 = if hit && now > stored {
                now
            } else {
                stored
            };
            let key = self.entries[t].0.clone();
            let record = ActiveUser {
                name: self.entries[t].1.name.clone(),
                time_active: self.entries[t].1.time_active,
                last_seen: new_last_seen,
            };
            updated.push((key, record));
            t += 1;
        }
        self.entries = updated;
        proof {
            let s1 = self.entries@;
            assert(distinct_keys(s1));
            assert forall|k: Seq<char>| self@.contains_key(k) == entries_map(s0).contains_key(k) by {
                if self@.contains_key(k) {
                    lemma_index_of_contains(s1, k);
                    let i = choose|i: int| 0 <= i < s1.len() && s1[i].0@ == k;
                    lemma_contains_of_index(s0, i);
                }
                if entries_map(s0).contains_key(k) {
                    lemma_index_of_contains(s0, k);
                    let i = choose|i: int| 0 <= i < s0.len() && s0[i].0@ == k;
                    lemma_contains_of_index(s1, i);
                }
            }
            assert forall|k: Seq<char>| entries_map(s0).contains_key(k) implies self@[k]
                == refreshed_record(entries_map(s0)[k], mentions(identifiers@, k), now) by {
                lemma_index_of_contains(s0, k);
                let i = choose|i: int| 0 <= i < s0.len() && s0[i].0@ == k;
                lemma_index_value(s0, i);
                lemma_index_value(s1, i);
            }
            assert(self.wf());
        }
    }

    /// Remove every record that is stale at time `now` with respect to
    /// `threshold_age`, and return the identifiers removed, each exactly
    /// once. Records within the threshold are kept untouched. The staleness
    /// judgement and the removal happen under the same exclusive borrow, so
    /// no refresh can land in between.
    pub fn evict_stale(&mut self, threshold_age: u64, now: u64) -> (removed: Vec<String>)
        requires
            old(self).wf(),
        ensures
            final(self).wf(),
            forall|k: Seq<char>|
                final(self)@.contains_key(k) == (old(self)@.contains_key(k) && !is_stale(
                    old(self)@[k],
                    threshold_age,
                    now,
                )),
            forall|k: Seq<char>|
                final(self)@.contains_key(k) ==> final(self)@[k] == old(self)@[k],
            forall|i: int|
                0 <= i < removed@.len() ==> old(self)@.contains_key(#[trigger] removed@[i]@)
                    && is_stale(old(self)@[removed@[i]@], threshold_age, now),
            forall|k: Seq<char>|
                old(self)@.contains_key(k) && is_stale(old(self)@[k], threshold_age, now)
                    ==> mentions(removed@, k),
            forall|i: int, j: int| 0 <= i < j < removed@.len() ==> removed@[i]@ != removed@[j]@,
    {
        let ghost s0 = self.entries@;
        let n: usize = self.entries.len();
        let mut kept: Vec<(String, ActiveUser)> = Vec::new();
        let mut removed: Vec<String> = Vec::new();
        let ghost mut kept_src: Seq<int> = Seq::empty();
        let ghost mut removed_src: Seq<int> = Seq::empty();
        let mut t: usize = 0;
        while t < n
            invariant
                old(self).wf(),
                self.entries@ == s0,
                n == s0.len(),
                t <= n,
                kept_src.len() == kept@.len(),
                removed_src.len() == removed@.len(),
                forall|i: int|
                    0 <= i < kept_src.len() ==> {
                        &&& 0 <= #[trigger] kept_src[i] < t
                        &&& kept@[i].0@ == s0[kept_src[i]].0@
                        &&& kept@[i].1@ == s0[kept_src[i]].1@
                        &&& !is_stale(s0[kept_src[i]].1@, threshold_age, now)
                    },
                forall|i: int|
                    0 <= i < removed_src.len() ==> {
                        &&& 0 <= #[trigger] removed_src[i] < t
                        &&& removed@[i]@ == s0[removed_src[i]].0@
                        &&& is_stale(s0[removed_src[i]].1@, threshold_age, now)
                    },
                forall|i: int, j: int| 0 <= i < j < kept_src.len() ==> kept_src[i] < kept_src[j],
                forall|i: int, j: int|
                    0 <= i < j < removed_src.len() ==> removed_src[i] < removed_src[j],
                forall|t2: int|
                    0 <= t2 < t && !is_stale(s0[t2].1@, threshold_age, now) ==> exists|i: int|
                        0 <= i < kept_src.len() && #[trigger] kept_src[i] == t2,
                forall|t2: int|
                    0 <= t2 < t && is_stale(s0[t2].1@, threshold_age, now) ==> exists|i: int|
                        0 <= i < removed_src.len() && #[trigger] removed_src[i] == t2,
            decreases n - t,
        {
            let ghost kept_src0 = kept_src;
            let ghost removed_src0 = removed_src;
            let last_seen = self.entries[t].1.last_seen;
            let stale = now >= last_seen && now - last_seen > threshold_age;
            if stale {
                removed.push(self.entries[t].0.clone());
                proof {
                    removed_src = removed_src.push(t as int);
                }
            } else {
                let key = self.entries[t].0.clone();
                let record = ActiveUser {
                    name: self.entries[t].1.name.clone(),
                    time_active: self.entries[t].1.time_active,
                    last_seen: self.entries[t].1.last_seen,
                };
                kept.push((key, record));
                proof {
                    kept_src = kept_src.push(t as int);
                }
            }
            proof {
                assert forall|t2: int|
                    0 <= t2 < t + 1 && !is_stale(s0[t2].1@, threshold_age, now) implies exists|
                    i: int,
                |
                    0 <= i < kept_src.len() && #[trigger] kept_src[i] == t2 by {
                    if t2 == t {
                        assert(kept_src[kept_src.len() - 1] == t2);
                    } else {
                        let i = choose|i: int|
                            0 <= i < kept_src0.len() && #[trigger] kept_src0[i] == t2;
                        assert(kept_src[i] == t2);
                    }
                }
                assert forall|t2: int|
                    0 <= t2 < t + 1 && is_stale(s0[t2].1@, threshold_age, now) implies exists|
                    i: int,
                |
                    0 <= i < removed_src.len() && #[trigger] removed_src[i] == t2 by {
                    if t2 == t {
                        assert(removed_src[removed_src.len() - 1] == t2);
                    } else {
                        let i = choose|i: int|
                            0 <= i < removed_src0.len() && #[trigger] removed_src0[i] == t2;
                        assert(removed_src[i] == t2);
                    }
                }
            }
            t += 1;
        }
        self.entries = kept;
        proof {
            let s1 = self.entries@;
            assert forall|i: int, j: int| 0 <= i < j < s1.len() implies s1[i].0@ != s1[j].0@ by {
                assert(kept_src[i] < kept_src[j]);
            }
            assert forall|k: Seq<char>|
                self@.contains_key(k) implies (entries_map(s0).contains_key(k) && !is_stale(
                entries_map(s0)[k],
                threshold_age,
                now,
            )) && self@[k] == entries_map(s0)[k] by {
                lemma_index_of_contains(s1, k);
                let i = choose|i: int| 0 <= i < s1.len() && s1[i].0@ == k;
                lemma_index_value(s1, i);
                lemma_index_value(s0, kept_src[i]);
            }
            assert forall|i: int|
                0 <= i < removed@.len() implies entries_map(s0).contains_key(removed@[i]@)
                && is_stale(entries_map(s0)[removed@[i]@], threshold_age, now) by {
                lemma_index_value(s0, removed_src[i]);
            }
            assert forall|k: Seq<char>|
                entries_map(s0).contains_key(k) && is_stale(
                    entries_map(s0)[k],
                    threshold_age,
                    now,
                ) implies mentions(removed@, k) by {
                lemma_index_of_contains(s0, k);
                let t2 = choose|t2: int| 0 <= t2 < s0.len() && s0[t2].0@ == k;
                lemma_index_value(s0, t2);
                let i = choose|i: int| 0 <= i < removed_src.len() && removed_src[i] == t2;
                assert(removed@[i]@ == k);
            }
            assert forall|i: int, j: int|
                0 <= i < j < removed@.len() implies removed@[i]@ != removed@[j]@ by {
                assert(removed_src[i] < removed_src[j]);
            }
            assert forall|i: int| 0 <= i < s1.len() implies (#[trigger] s1[i].1@).wf() by {
                assert(s0[kept_src[i]].1@.wf());
            }
            assert(self.wf());
            assert(entries_map(s0) == old(self)@);
            assert forall|k: Seq<char>|
                self@.contains_key(k) == (old(self)@.contains_key(k) && !is_stale(
                    old(self)@[k],
                    threshold_age,
                    now,
                )) by {
                if self@.contains_key(k) {
                    lemma_index_of_contains(s1, k);
                    let i = choose|i: int| 0 <= i < s1.len() && s1[i].0@ == k;
                    lemma_index_value(s1, i);
                    lemma_index_value(s0, kept_src[i]);
                }
                if entries_map(s0).contains_key(k) && !is_stale(
                    entries_map(s0)[k],
                    threshold_age,
                    now,
                ) {
                    lemma_index_of_contains(s0, k);
                    let t2 = choose|t2: int| 0 <= t2 < s0.len() && s0[t2].0@ == k;
                    lemma_index_value(s0, t2);
                    let i = choose|i: int| 0 <= i < kept_src.len() && kept_src[i] == t2;
                    lemma_contains_of_index(s1, i);
                }
            }
        }
        removed
    }
}

} // verus!
