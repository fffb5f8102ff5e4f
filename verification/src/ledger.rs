//! The dedup/cooldown ledger: a map from path to the time its processing
//! last started.
//!
//! A path seen again within the cooldown window is suppressed; entries
//! older than the retention window are pruned so the ledger cannot grow
//! without bound.  Time is a caller-supplied monotonic reading in
//! milliseconds.

use vstd::prelude::*;

verus! {

/// Milliseconds a processed path stays suppressed.
pub const COOLDOWN_MS: u64 = 5000;

/// Milliseconds an entry stays in the ledger before it is forgotten.
/// Strictly longer than the cooldown, so a path is deduplicated first and
/// forgotten later.
pub const RETENTION_MS: u64 = 30000;

/// Character-wise string equality, for ledger key lookups.
fn str_eq(a: &str, b: &str) -> (r: bool)
    ensures
        r == (a@ == b@),
{
    let an = a.unicode_len();
    let bn = b.unicode_len();
    if an != bn {
        return false;
    }
    let mut i: usize = 0;
    while i < an
        invariant
            an == a@.len(),
            bn == b@.len(),
            an == bn,
            i <= an,
            forall|j: int| 0 <= j < i ==> a@[j] == b@[j],
        decreases an - i,
    {
        if a.get_char(i) != b.get_char(i) {
            return false;
        }
        i = i + 1;
    }
    proof {
        assert(a@ =~= b@);
    }
    true
}

/// The map a sequence of ledger entries denotes, later entries winning.
spec fn entries_map(s: Seq<(String, u64)>) -> Map<Seq<char>, u64>
    decreases s.len(),
{
    if s.len() == 0 {
        Map::empty()
    } else {
        entries_map(s.drop_last()).insert(s.last().0@, s.last().1)
    }
}

/// No two entries share a key.
spec fn unique_keys(s: Seq<(String, u64)>) -> bool {
    forall|a: int, b: int| 0 <= a < b < s.len() ==> s[a].0@ != s[b].0@
}

proof fn lemma_entries_map_contains(s: Seq<(String, u64)>, k: Seq<char>)
    ensures
        entries_map(s).contains_key(k) <==> exists|i: int| 0 <= i < s.len() && s[i].0@ == k,
    decreases s.len(),
{
    if s.len() > 0 {
        lemma_entries_map_contains(s.drop_last(), k);
        if s.last().0@ == k {
            assert(s[s.len() - 1].0@ == k);
        } else {
            if entries_map(s).contains_key(k) {
                let i = choose|i: int| 0 <= i < s.drop_last().len() && s.drop_last()[i].0@ == k;
                assert(s[i].0@ == k);
            }
            if exists|i: int| 0 <= i < s.len() && s[i].0@ == k {
                let i = choose|i: int| 0 <= i < s.len() && s[i].0@ == k;
                assert(s.drop_last()[i].0@ == k);
            }
        }
    }
}

proof fn lemma_entries_map_value(s: Seq<(String, u64)>, i: int)
    requires
        unique_keys(s),
        0 <= i < s.len(),
    ensures
        entries_map(s).contains_key(s[i].0@),
        entries_map(s)[s[i].0@] == s[i].1,
    decreases s.len(),
{
    if i < s.len() - 1 {
        assert(unique_keys(s.drop_last())) by {
            assert(forall|a: int, b: int|
                0 <= a < b < s.drop_last().len() ==> s.drop_last()[a].0@ == s[a].0@
                    && s.drop_last()[b].0@ == s[b].0@);
        }
        lemma_entries_map_value(s.drop_last(), i);
        assert(s.drop_last()[i].0@ == s[i].0@);
        assert(s[i].0@ != s.last().0@);
    }
}

proof fn lemma_entries_map_push(s: Seq<(String, u64)>, e: (String, u64))
    ensures
        entries_map(s.push(e)) == entries_map(s).insert(e.0@, e.1),
{
    assert(s.push(e).drop_last() =~= s);
    assert(s.push(e).last() == e);
}

/// A key held by some entry before position `i` is never the key at `i`.
proof fn lemma_unique_prefix_absent(s: Seq<(String, u64)>, i: int)
    requires
        unique_keys(s),
        0 <= i < s.len(),
    ensures
        !entries_map(s.subrange(0, i)).contains_key(s[i].0@),
{
    lemma_entries_map_contains(s.subrange(0, i), s[i].0@);
    if entries_map(s.subrange(0, i)).contains_key(s[i].0@) {
        let j = choose|j: int| 0 <= j < i && s.subrange(0, i)[j].0@ == s[i].0@;
        assert(s[j].0@ == s[i].0@);
    }
}

/// What pruning leaves of `m` at time `now`: the entries younger than the
/// retention window, unchanged.
pub open spec fn retained(m: Map<Seq<char>, u64>, now: u64) -> Map<Seq<char>, u64> {
    Map::new(|k: Seq<char>| m.contains_key(k) && m[k] + RETENTION_MS > now, |k: Seq<char>| m[k])
}

/// In-memory record of recently processed paths and when each was last
/// taken up.
pub struct Ledger {
    entries: Vec<(String, u64)>,
}

impl View for Ledger {
    type V = Map<Seq<char>, u64>;

    closed spec fn view(&self) -> Map<Seq<char>, u64> {
        entries_map(self.entries@)
    }
}

impl Ledger {
    /// Internal consistency: entry keys are pairwise distinct.
    pub closed spec fn inv(&self) -> bool {
        unique_keys(self.entries@)
    }

    /// Whether a path last recorded at `t` may be processed again at
    /// `now`: only once the cooldown has fully elapsed.
    pub open spec fn should_process_spec(m: Map<Seq<char>, u64>, p: Seq<char>, now: u64) -> bool {
        !m.contains_key(p) || m[p] + COOLDOWN_MS <= now
    }

    /// An empty ledger: every path may be processed.
    pub fn new() -> (r: Ledger)
        ensures
            r.inv(),
            r@ == Map::<Seq<char>, u64>::empty(),
    {
        Ledger { entries: Vec::new() }
    }

    /// True iff `path` has no entry, or its entry is at least the cooldown
    /// window old at `now`.  Reads only; records nothing.
    pub fn should_process(&self, path: &str, now: u64) -> (r: bool)
        requires
            self.inv(),
        ensures
            r == Ledger::should_process_spec(self@, path@, now),
    {
        let n = self.entries.len();
        let mut i: usize = 0;
        while i < n
            invariant
                self.inv(),
                n == self.entries@.len(),
                i <= n,
                forall|j: int| 0 <= j < i ==> self.entries@[j].0@ != path@,
            decreases n - i,
        {
            if str_eq(self.entries[i].0.as_str(), path) {
                let t = self.entries[i].1;
                proof {
                    lemma_entries_map_value(self.entries@, i as int);
                }
                return t <= now && now - t >= COOLDOWN_MS;
            }
            i = i + 1;
        }
        proof {
            lemma_entries_map_contains(self.entries@, path@);
        }
        true
    }

    /// Inserts or overwrites the entry for `path` with the time `now`.
    pub fn record_processed(&mut self, path: &str, now: u64)
        requires
            old(self).inv(),
        ensures
            final(self).inv(),
            final(self)@ == old(self)@.insert(path@, now),
    {
        let ghost full = self.entries@;
        let mut kept: Vec<(String, u64)> = Vec::new();
        let n = self.entries.len();
        let mut i: usize = 0;
        proof {
            assert(full.subrange(0, 0) =~= Seq::<(String, u64)>::empty());
        }
        while i < n
            invariant
                unique_keys(full),
                full == self.entries@,
                n == full.len(),
                i <= n,
                unique_keys(kept@),
                entries_map(kept@) == entries_map(full.subrange(0, i as int)).remove(path@),
            decreases n - i,
        {
            let ghost prefix = full.subrange(0, i as int);
            let ghost prefix_next = full.subrange(0, i as int + 1);
            let e_name = self.entries[i].0.clone();
            let e_time = self.entries[i].1;
            proof {
                assert(prefix_next =~= prefix.push((e_name, e_time)));
                lemma_entries_map_push(prefix, (e_name, e_time));
                lemma_unique_prefix_absent(full, i as int);
                lemma_entries_map_contains(prefix, e_name@);
                lemma_entries_map_contains(kept@, e_name@);
            }
            if !str_eq(e_name.as_str(), path) {
                proof {
                    lemma_entries_map_push(kept@, (e_name, e_time));
                    assert(entries_map(kept@.push((e_name, e_time)))
                        =~= entries_map(prefix_next).remove(path@));
                }
                kept.push((e_name, e_time));
            } else {
                proof {
                    assert(entries_map(kept@) =~= entries_map(prefix_next).remove(path@));
                }
            }
            i = i + 1;
        }
        let new_entry = String::from_str(path);
        proof {
            assert(full.subrange(0, n as int) =~= full);
            lemma_entries_map_contains(kept@, path@);
            lemma_entries_map_push(kept@, (new_entry, now));
            assert(entries_map(kept@.push((new_entry, now)))
                =~= entries_map(full).insert(path@, now));
        }
        kept.push((new_entry, now));
        self.entries = kept;
    }

    /// Removes every entry whose time is at least the retention window
    /// before `now`; younger entries stay untouched.
    pub fn prune(&mut self, now: u64)
        requires
            old(self).inv(),
        ensures
            final(self).inv(),
            final(self)@ == retained(old(self)@, now),
    {
        let ghost full = self.entries@;
        let mut kept: Vec<(String, u64)> = Vec::new();
        let n = self.entries.len();
        let mut i: usize = 0;
        proof {
            assert(full.subrange(0, 0) =~= Seq::<(String, u64)>::empty());
            assert(entries_map(kept@) =~= retained(entries_map(full.subrange(0, 0)), now));
        }
        while i < n
            invariant
                unique_keys(full),
                full == self.entries@,
                n == full.len(),
                i <= n,
                unique_keys(kept@),
                entries_map(kept@) == retained(entries_map(full.subrange(0, i as int)), now),
            decreases n - i,
        {
            let ghost prefix = full.subrange(0, i as int);
            let ghost prefix_next = full.subrange(0, i as int + 1);
            let e_name = self.entries[i].0.clone();
            let e_time = self.entries[i].1;
            proof {
                assert(prefix_next =~= prefix.push((e_name, e_time)));
                lemma_entries_map_push(prefix, (e_name, e_time));
                lemma_unique_prefix_absent(full, i as int);
                lemma_entries_map_contains(prefix, e_name@);
                lemma_entries_map_contains(kept@, e_name@);
            }
            let fresh = now <= e_time || now - e_time < RETENTION_MS;
            if fresh {
                proof {
                    lemma_entries_map_push(kept@, (e_name, e_time));
                    assert(entries_map(kept@.push((e_name, e_time)))
                        =~= retained(entries_map(prefix_next), now));
                }
                kept.push((e_name, e_time));
            } else {
                proof {
                    assert(entries_map(kept@) =~= retained(entries_map(prefix_next), now));
                }
            }
            i = i + 1;
        }
        proof {
            assert(full.subrange(0, n as int) =~= full);
        }
        self.entries = kept;
    }
}

/// The cooldown is strictly shorter than the retention window: a path is
/// deduplicated first and forgotten only later, so suppression never
/// depends on an entry that pruning could already have taken.
pub proof fn lemma_cooldown_shorter_than_retention()
    ensures
        COOLDOWN_MS < RETENTION_MS,
{
}

/// A path recorded at `t` is suppressed at any `now` within the cooldown
/// window of `t`.
pub proof fn lemma_cooldown_suppresses(m: Map<Seq<char>, u64>, p: Seq<char>, t: u64, now: u64)
    requires
        now < t + COOLDOWN_MS,
    ensures
        !Ledger::should_process_spec(m.insert(p, t), p, now),
{
}

/// Once the cooldown window of a recording at `t` has elapsed, the path
/// may be processed again.
pub proof fn lemma_cooldown_elapsed(m: Map<Seq<char>, u64>, p: Seq<char>, t: u64, now: u64)
    requires
        now >= t + COOLDOWN_MS,
    ensures
        Ledger::should_process_spec(m.insert(p, t), p, now),
{
}

/// Pruning removes exactly the entries older than the retention window
/// and leaves the younger ones with their times intact.
pub proof fn lemma_prune_selective(m: Map<Seq<char>, u64>, p: Seq<char>, now: u64)
    requires
        m.contains_key(p),
    ensures
        m[p] + RETENTION_MS <= now ==> !retained(m, now).contains_key(p),
        m[p] + RETENTION_MS > now ==> retained(m, now).contains_key(p) && retained(m, now)[p]
            == m[p],
{
}

}
