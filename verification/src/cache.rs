use vstd::prelude::*;

verus! {

/// Number of seconds a cached reference stays fresh: 72 hours.
pub const CACHE_TTL_SECONDS: u64 = 259200;

/// An entry is a hit for a query at time `now` when its key is present and
/// its age has not passed the TTL.
pub open spec fn fresh_at(m: Map<Seq<char>, u64>, key: Seq<char>, now: u64) -> bool {
    m.dom().contains(key) && now <= m[key] + CACHE_TTL_SECONDS
}

/// An entry is stale for a query at time `now` when its key is present but
/// its age has passed the TTL; such an entry is removed by the query.
pub open spec fn stale_at(m: Map<Seq<char>, u64>, key: Seq<char>, now: u64) -> bool {
    m.dom().contains(key) && now > m[key] + CACHE_TTL_SECONDS
}

/// No two entries of the sequence share a key.
pub open spec fn unique_keys(s: Seq<(String, u64)>) -> bool {
    forall|i: int, j: int| 0 <= i < j < s.len() ==> s[i].0@ != s[j].0@
}

/// The map that a sequence of (key, time) entries denotes.
pub open spec fn entries_map(s: Seq<(String, u64)>) -> Map<Seq<char>, u64>
    decreases s.len(),
{
    if s.len() == 0 {
        Map::empty()
    } else {
        entries_map(s.drop_last()).insert(s.last().0@, s.last().1)
    }
}

/// Some entry of the sequence carries this key.
pub open spec fn has_key(s: Seq<(String, u64)>, key: Seq<char>) -> bool {
    exists|i: int| 0 <= i < s.len() && s[i].0@ == key
}

proof fn lemma_entries_map_dom(s: Seq<(String, u64)>)
    ensures
        forall|k: Seq<char>| #[trigger] entries_map(s).dom().contains(k) <==> has_key(s, k),
    decreases s.len(),
{
    if s.len() > 0 {
        let dl = s.drop_last();
        lemma_entries_map_dom(dl);
        assert(entries_map(s) == entries_map(dl).insert(s.last().0@, s.last().1));
        assert forall|k: Seq<char>| #[trigger] entries_map(s).dom().contains(k) implies has_key(
            s,
            k,
        ) by {
            if k == s.last().0@ {
                assert(s[s.len() - 1].0@ == k);
            } else {
                assert(entries_map(dl).dom().contains(k));
                assert(has_key(dl, k));
                let i = choose|i: int| 0 <= i < dl.len() && dl[i].0@ == k;
                assert(dl[i] == s[i]);
                assert(s[i].0@ == k);
            }
        }
        assert forall|k: Seq<char>| has_key(s, k) implies #[trigger] entries_map(
            s,
        ).dom().contains(k) by {
            let i = choose|i: int| 0 <= i < s.len() && s[i].0@ == k;
            if i < s.len() - 1 {
                assert(dl[i] == s[i]);
                assert(has_key(dl, k));
                assert(entries_map(dl).dom().contains(k));
            }
        }
    }
}

proof fn lemma_unique_drop_last(s: Seq<(String, u64)>)
    requires
        unique_keys(s),
        s.len() > 0,
    ensures
        unique_keys(s.drop_last()),
{
    assert forall|i: int, j: int| 0 <= i < j < s.drop_last().len() implies s.drop_last()[i].0@
        != s.drop_last()[j].0@ by {
        assert(s[i].0@ != s[j].0@);
    }
}

proof fn lemma_entries_map_at(s: Seq<(String, u64)>, i: int)
    requires
        unique_keys(s),
        0 <= i < s.len(),
    ensures
        entries_map(s).dom().contains(s[i].0@),
        entries_map(s)[s[i].0@] == s[i].1,
    decreases s.len(),
{
    lemma_entries_map_dom(s);
    if i == s.len() - 1 {
    } else {
        lemma_unique_drop_last(s);
        assert(s[i].0@ != s.last().0@);
        assert(s.drop_last()[i] == s[i]);
        lemma_entries_map_at(s.drop_last(), i);
    }
}

proof fn lemma_unique_remove(s: Seq<(String, u64)>, i: int)
    requires
        unique_keys(s),
        0 <= i < s.len(),
    ensures
        unique_keys(s.remove(i)),
{
    assert forall|a: int, b: int| 0 <= a < b < s.remove(i).len() implies s.remove(i)[a].0@
        != s.remove(i)[b].0@ by {
        let a0 = if a < i { a } else { a + 1 };
        let b0 = if b < i { b } else { b + 1 };
        assert(s.remove(i)[a] == s[a0]);
        assert(s.remove(i)[b] == s[b0]);
        assert(s[a0].0@ != s[b0].0@);
    }
}

proof fn lemma_entries_map_remove(s: Seq<(String, u64)>, i: int)
    requires
        unique_keys(s),
        0 <= i < s.len(),
    ensures
        unique_keys(s.remove(i)),
        entries_map(s.remove(i)) =~= entries_map(s).remove(s[i].0@),
{
    lemma_unique_remove(s, i);
    lemma_entries_map_dom(s);
    lemma_entries_map_dom(s.remove(i));
    let k = s[i].0@;
    let t = s.remove(i);
    assert forall|kk: Seq<char>| #[trigger] entries_map(t).dom().contains(kk) implies entries_map(
        s,
    ).remove(k).dom().contains(kk) && entries_map(t)[kk] == entries_map(s).remove(k)[kk] by {
        let a = choose|a: int| 0 <= a < t.len() && t[a].0@ == kk;
        let a0 = if a < i { a } else { a + 1 };
        assert(t[a] == s[a0]);
        assert(s[a0].0@ == kk);
        assert(kk != k);
        lemma_entries_map_at(t, a);
        lemma_entries_map_at(s, a0);
    }
    assert forall|kk: Seq<char>| #[trigger] entries_map(s).remove(k).dom().contains(
        kk,
    ) implies entries_map(t).dom().contains(kk) by {
        let a0 = choose|a0: int| 0 <= a0 < s.len() && s[a0].0@ == kk;
        assert(a0 != i);
        let a = if a0 < i { a0 } else { a0 - 1 };
        assert(t[a] == s[a0]);
        assert(has_key(t, kk));
    }
}

proof fn lemma_entries_map_push(s: Seq<(String, u64)>, key: String, time: u64)
    ensures
        entries_map(s.push((key, time))) =~= entries_map(s).insert(key@, time),
{
    assert(s.push((key, time)).drop_last() =~= s);
    assert(s.push((key, time)).last() == (key, time));
}

/// In-memory map from submission reference number to insertion time
/// (seconds). Entries are evicted lazily: only a membership query that
/// finds an entry older than the TTL removes it; there is no capacity
/// bound and no background sweep.
pub struct ReferenceCache {
    entries: Vec<(String, u64)>,
}

impl ReferenceCache {
    /// The abstract contents: reference number to insertion time.
    pub closed spec fn view(&self) -> Map<Seq<char>, u64> {
        entries_map(self.entries@)
    }

    /// Internal well-formedness: entry keys are unique.
    pub closed spec fn wf(&self) -> bool {
        unique_keys(self.entries@)
    }

    pub fn new() -> (r: ReferenceCache)
        ensures
            r.wf(),
            r@ == Map::<Seq<char>, u64>::empty(),
    {
        ReferenceCache { entries: Vec::new() }
    }

    /// Record `reference` as seen at time `now`, overwriting any earlier
    /// entry for the same reference.
    #[verifier::loop_isolation(false)]
    pub fn insert(&mut self, reference: String, now: u64)
        requires
            old(self).wf(),
        ensures
            final(self).wf(),
            final(self)@ == old(self)@.insert(reference@, now),
    {
        let ghost s0 = self.entries@;
        let mut i: usize = 0;
        let n = self.entries.len();
        while i < n
            invariant
                n == self.entries.len(),
                i <= n,
                self.entries@ == s0,
                unique_keys(s0),
                forall|j: int| 0 <= j < i ==> s0[j].0@ != reference@,
            decreases n - i,
        {
            if self.entries[i].0 == reference {
                let ghost k = s0[i as int].0@;
                self.entries.remove(i);
                proof {
                    lemma_entries_map_remove(s0, i as int);
                }
                self.entries.push((reference, now));
                proof {
                    lemma_entries_map_push(s0.remove(i as int), reference, now);
                    assert(entries_map(s0).remove(k).insert(reference@, now) =~= entries_map(
                        s0,
                    ).insert(reference@, now));
                    assert forall|a: int, b: int|
                        0 <= a < b < self.entries@.len() implies self.entries@[a].0@
                        != self.entries@[b].0@ by {
                        lemma_unique_remove(s0, i as int);
                        if b < self.entries@.len() - 1 {
                            assert(self.entries@[a] == s0.remove(i as int)[a]);
                            assert(self.entries@[b] == s0.remove(i as int)[b]);
                        } else {
                            assert(self.entries@[a] == s0.remove(i as int)[a]);
                            lemma_entries_map_dom(s0.remove(i as int));
                            assert(self.entries@[b].0@ == reference@);
                            assert(s0.remove(i as int)[a].0@ != reference@) by {
                                let a0 = if a < i as int {
                                    a
                                } else {
                                    a + 1
                                };
                                assert(s0.remove(i as int)[a] == s0[a0]);
                                if a0 < i as int {
                                    assert(s0[a0].0@ != s0[i as int].0@);
                                } else {
                                    assert(s0[i as int].0@ != s0[a0].0@);
                                }
                                assert(s0[i as int].0@ == reference@);
                            }
                        }
                    }
                }
                return ;
            }
            i = i + 1;
        }
        self.entries.push((reference, now));
        proof {
            lemma_entries_map_push(s0, reference, now);
            lemma_entries_map_dom(s0);
            assert forall|a: int, b: int| 0 <= a < b < self.entries@.len() implies self.entries@[a].0@
                != self.entries@[b].0@ by {
                if b < self.entries@.len() - 1 {
                    assert(self.entries@[a] == s0[a]);
                    assert(self.entries@[b] == s0[b]);
                } else {
                    assert(self.entries@[a] == s0[a]);
                    assert(self.entries@[b].0@ == reference@);
                    assert(s0[a].0@ != reference@);
                }
            }
        }
    }

    /// Membership query at time `now`. A fresh entry answers `true` and is
    /// left untouched; a stale entry is removed and answers `false`; an
    /// absent key answers `false`.
    #[verifier::loop_isolation(false)]
    pub fn contains(&mut self, reference: &String, now: u64) -> (r: bool)
        requires
            old(self).wf(),
        ensures
            final(self).wf(),
            r == fresh_at(old(self)@, reference@, now),
            final(self)@ == if stale_at(old(self)@, reference@, now) {
                old(self)@.remove(reference@)
            } else {
                old(self)@
            },
    {
        let ghost s0 = self.entries@;
        proof {
            lemma_entries_map_dom(s0);
        }
        let mut i: usize = 0;
        let n = self.entries.len();
        while i < n
            invariant
                n == self.entries.len(),
                i <= n,
                self.entries@ == s0,
                unique_keys(s0),
                forall|j: int| 0 <= j < i ==> s0[j].0@ != reference@,
            decreases n - i,
        {
            if self.entries[i].0 == *reference {
                proof {
                    lemma_entries_map_at(s0, i as int);
                }
                let inserted_at = self.entries[i].1;
                if now > inserted_at && now - inserted_at > CACHE_TTL_SECONDS {
                    self.entries.remove(i);
                    proof {
                        lemma_entries_map_remove(s0, i as int);
                    }
                    return false;
                } else {
                    return true;
                }
            }
            i = i + 1;
        }
        proof {
            assert(!has_key(s0, reference@));
        }
        false
    }
}

/// Law: after `reference` is inserted at time `t`, a membership query at
/// time `now` reports it present exactly when its age has not passed the
/// TTL; and once such a query has found it stale and removed it, the key
/// is absent, so a subsequent insert starts a fresh entry.
pub proof fn lemma_insert_then_query(m: Map<Seq<char>, u64>, key: Seq<char>, t: u64, now: u64)
    ensures
        fresh_at(m.insert(key, t), key, now) <==> now <= t + CACHE_TTL_SECONDS,
        stale_at(m.insert(key, t), key, now) ==> !m.insert(key, t).remove(key).dom().contains(key),
{
}

} // verus!
