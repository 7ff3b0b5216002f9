//! The process-identity cache: a mapping from bus sender identity to
//! process id with a sliding time-to-live. One worker owns the storage
//! and serves queries over a request channel; on a miss the worker asks
//! the bus daemon once and records the outcome, ownership-change
//! signals evict or refresh entries, and a periodic sweep drops entries
//! whose expiry has passed. Time is a logical `u64` clock supplied by
//! the caller.

use vstd::prelude::*;

use crate::text::str_eq;

verus! {

/// One cached resolution: the process id the daemon reported (or a
/// definitive "no pid"), and when the entry expires.
#[derive(Clone, Copy)]
pub struct CacheEntry {
    /// The cached process id; absence is a valid cached result.
    pub pid: Option<u32>,
    /// The instant the entry expires, refreshed on every hit.
    pub expires_at: u64,
}

/// The map a sequence of key-entry pairs stands for; a later pair with
/// the same key overrides an earlier one.
pub open spec fn entries_map(s: Seq<(String, CacheEntry)>) -> Map<Seq<char>, CacheEntry>
    decreases s.len(),
{
    if s.len() == 0 {
        Map::empty()
    } else {
        entries_map(s.drop_last()).insert(s.last().0@, s.last().1)
    }
}

/// Storing a resolution: the entry for `c` is replaced or created with
/// the given pid and expiry.
pub open spec fn spec_store(
    m: Map<Seq<char>, CacheEntry>,
    c: Seq<char>,
    pid: Option<u32>,
    expires_at: u64,
) -> Map<Seq<char>, CacheEntry> {
    m.insert(c, CacheEntry { pid, expires_at })
}

/// What a query sees: the cached pid when an entry exists (however old
/// it is; only the sweep enforces expiry), nothing otherwise.
pub open spec fn spec_lookup(m: Map<Seq<char>, CacheEntry>, c: Seq<char>) -> Option<Option<u32>> {
    if m.contains_key(c) {
        Some(m[c].pid)
    } else {
        None
    }
}

/// The sweep: keep exactly the entries whose expiry is still ahead of
/// `now`.
pub open spec fn spec_sweep(m: Map<Seq<char>, CacheEntry>, now: u64) -> Map<Seq<char>, CacheEntry> {
    Map::new(|k: Seq<char>| m.contains_key(k) && m[k].expires_at > now, |k: Seq<char>| m[k])
}

/// The entries with a live expiry, in order.
spec fn filter_live(s: Seq<(String, CacheEntry)>, now: u64) -> Seq<(String, CacheEntry)>
    decreases s.len(),
{
    if s.len() == 0 {
        s
    } else {
        let prefix = filter_live(s.drop_last(), now);
        if s.last().1.expires_at > now {
            prefix.push(s.last())
        } else {
            prefix
        }
    }
}

/// Whether the keys of `s` are pairwise distinct.
spec fn distinct_keys(s: Seq<(String, CacheEntry)>) -> bool {
    forall|i: int, j: int| 0 <= i < j < s.len() ==> (#[trigger] s[i].0@) != (#[trigger] s[j].0@)
}

/// The single-writer storage behind the cache worker.
pub struct CacheStorage {
    entries: Vec<(String, CacheEntry)>,
    ttl: u64,
}

impl View for CacheStorage {
    type V = Map<Seq<char>, CacheEntry>;

    closed spec fn view(&self) -> Map<Seq<char>, CacheEntry> {
        entries_map(self.entries@)
    }
}

proof fn lemma_map_contains(s: Seq<(String, CacheEntry)>, k: Seq<char>)
    ensures
        entries_map(s).contains_key(k) <==> exists|i: int|
            0 <= i < s.len() && (#[trigger] s[i].0@) == k,
    decreases s.len(),
{
    if s.len() > 0 {
        lemma_map_contains(s.drop_last(), k);
        assert(s.last() == s[s.len() - 1]);
        if entries_map(s).contains_key(k) {
            if s.last().0@ != k {
                let i = choose|i: int| 0 <= i < s.drop_last().len() && (#[trigger] s.drop_last()[i].0@) == k;
                assert(s[i].0@ == k);
            }
        }
        if exists|i: int| 0 <= i < s.len() && (#[trigger] s[i].0@) == k {
            let i = choose|i: int| 0 <= i < s.len() && (#[trigger] s[i].0@) == k;
            if i < s.len() - 1 {
                assert(s.drop_last()[i].0@ == k);
            }
        }
    }
}

proof fn lemma_map_at(s: Seq<(String, CacheEntry)>, i: int)
    requires
        distinct_keys(s),
        0 <= i < s.len(),
    ensures
        entries_map(s).contains_key(s[i].0@),
        entries_map(s)[s[i].0@] == s[i].1,
    decreases s.len(),
{
    assert(s.last() == s[s.len() - 1]);
    if i < s.len() - 1 {
        assert(forall|a: int, b: int|
            0 <= a < b < s.drop_last().len() ==> (#[trigger] s.drop_last()[a].0@) != (
            #[trigger] s.drop_last()[b].0@));
        assert(s.drop_last()[i] == s[i]);
        lemma_map_at(s.drop_last(), i);
        assert(s[i].0@ != s[s.len() - 1].0@);
    }
}

proof fn lemma_map_update(s: Seq<(String, CacheEntry)>, i: int, e: (String, CacheEntry))
    requires
        distinct_keys(s),
        0 <= i < s.len(),
        e.0@ == s[i].0@,
    ensures
        entries_map(s.update(i, e)) == entries_map(s).insert(e.0@, e.1),
        distinct_keys(s.update(i, e)),
    decreases s.len(),
{
    assert(s.last() == s[s.len() - 1]);
    assert(forall|a: int|
        0 <= a < s.update(i, e).len() ==> (#[trigger] s.update(i, e)[a].0@) == s[a].0@);
    if i == s.len() - 1 {
        assert(s.update(i, e).drop_last() =~= s.drop_last());
        assert(s.update(i, e).last() == e);
        assert(entries_map(s.update(i, e)) =~= entries_map(s).insert(e.0@, e.1));
    } else {
        assert(forall|a: int, b: int|
            0 <= a < b < s.drop_last().len() ==> (#[trigger] s.drop_last()[a].0@) != (
            #[trigger] s.drop_last()[b].0@));
        assert(s.drop_last()[i] == s[i]);
        lemma_map_update(s.drop_last(), i, e);
        assert(s.update(i, e).drop_last() =~= s.drop_last().update(i, e));
        assert(s.update(i, e).last() == s.last());
        assert(entries_map(s.update(i, e)) =~= entries_map(s).insert(e.0@, e.1)) by {
            assert(entries_map(s.update(i, e)) == entries_map(s.drop_last().update(i, e)).insert(
                s.last().0@,
                s.last().1,
            ));
            assert(s[i].0@ != s[s.len() - 1].0@);
        }
    }
}

proof fn lemma_map_remove(s: Seq<(String, CacheEntry)>, i: int)
    requires
        distinct_keys(s),
        0 <= i < s.len(),
    ensures
        entries_map(s.remove(i)) == entries_map(s).remove(s[i].0@),
        distinct_keys(s.remove(i)),
    decreases s.len(),
{
    assert(s.last() == s[s.len() - 1]);
    if i == s.len() - 1 {
        assert(s.remove(i) =~= s.drop_last());
        lemma_map_contains(s.drop_last(), s[i].0@);
        assert(!entries_map(s.drop_last()).contains_key(s[i].0@)) by {
            if exists|a: int| 0 <= a < s.drop_last().len() && (#[trigger] s.drop_last()[a].0@)
                == s[i].0@ {
                let a = choose|a: int|
                    0 <= a < s.drop_last().len() && (#[trigger] s.drop_last()[a].0@) == s[i].0@;
                assert(s[a].0@ == s[i].0@);
            }
        }
        assert(entries_map(s.remove(i)) =~= entries_map(s).remove(s[i].0@));
    } else {
        assert(forall|a: int, b: int|
            0 <= a < b < s.drop_last().len() ==> (#[trigger] s.drop_last()[a].0@) != (
            #[trigger] s.drop_last()[b].0@));
        assert(s.drop_last()[i] == s[i]);
        lemma_map_remove(s.drop_last(), i);
        assert(s.remove(i).drop_last() =~= s.drop_last().remove(i));
        assert(s.remove(i).last() == s.last());
        assert(entries_map(s.remove(i)) =~= entries_map(s).remove(s[i].0@)) by {
            assert(entries_map(s.remove(i)) == entries_map(s.drop_last().remove(i)).insert(
                s.last().0@,
                s.last().1,
            ));
            assert(s[i].0@ != s[s.len() - 1].0@);
        }
        assert(forall|a: int|
            0 <= a < s.remove(i).len() ==> (#[trigger] s.remove(i)[a].0@) == (if a < i {
                s[a].0@
            } else {
                s[a + 1].0@
            }));
    }
}

proof fn lemma_filter_live(s: Seq<(String, CacheEntry)>, now: u64)
    requires
        distinct_keys(s),
    ensures
        distinct_keys(filter_live(s, now)),
        entries_map(filter_live(s, now)) == spec_sweep(entries_map(s), now),
        forall|i: int|
            0 <= i < filter_live(s, now).len() ==> exists|j: int|
                0 <= j < s.len() && (#[trigger] filter_live(s, now)[i]) == s[j],
    decreases s.len(),
{
    if s.len() == 0 {
        assert(entries_map(filter_live(s, now)) =~= spec_sweep(entries_map(s), now));
    } else {
        assert(s.last() == s[s.len() - 1]);
        assert(forall|a: int, b: int|
            0 <= a < b < s.drop_last().len() ==> (#[trigger] s.drop_last()[a].0@) != (
            #[trigger] s.drop_last()[b].0@));
        lemma_filter_live(s.drop_last(), now);
        let prefix = filter_live(s.drop_last(), now);
        let pm = entries_map(s.drop_last());
        assert(!pm.contains_key(s.last().0@)) by {
            lemma_map_contains(s.drop_last(), s.last().0@);
            if exists|a: int| 0 <= a < s.drop_last().len() && (#[trigger] s.drop_last()[a].0@)
                == s.last().0@ {
                let a = choose|a: int|
                    0 <= a < s.drop_last().len() && (#[trigger] s.drop_last()[a].0@) == s.last().0@;
                assert(s[a].0@ == s[s.len() - 1].0@);
            }
        }
        assert forall|i: int| 0 <= i < filter_live(s, now).len() implies exists|j: int|
            0 <= j < s.len() && (#[trigger] filter_live(s, now)[i]) == s[j] by {
            if i < prefix.len() {
                let j = choose|j: int|
                    0 <= j < s.drop_last().len() && (#[trigger] prefix[i]) == s.drop_last()[j];
                assert(filter_live(s, now)[i] == s[j]);
            } else {
                assert(filter_live(s, now)[i] == s[s.len() - 1]);
            }
        }
        if s.last().1.expires_at > now {
            assert(!entries_map(prefix).contains_key(s.last().0@)) by {
                lemma_map_contains(prefix, s.last().0@);
                if exists|a: int| 0 <= a < prefix.len() && (#[trigger] prefix[a].0@)
                    == s.last().0@ {
                    let a = choose|a: int|
                        0 <= a < prefix.len() && (#[trigger] prefix[a].0@) == s.last().0@;
                    let j = choose|j: int|
                        0 <= j < s.drop_last().len() && (#[trigger] prefix[a]) == s.drop_last()[j];
                    assert(s[j].0@ == s[s.len() - 1].0@);
                }
            }
            assert(distinct_keys(filter_live(s, now))) by {
                assert(forall|a: int|
                    0 <= a < prefix.len() ==> (#[trigger] prefix.push(s.last())[a]) == prefix[a]);
                assert forall|a: int, b: int|
                    0 <= a < b < filter_live(s, now).len() implies (#[trigger] filter_live(
                    s,
                    now,
                )[a].0@) != (#[trigger] filter_live(s, now)[b].0@) by {
                    if b == filter_live(s, now).len() - 1 {
                        let j = choose|j: int|
                            0 <= j < s.drop_last().len() && (#[trigger] prefix[a]) == s.drop_last()[j];
                        assert(s[j].0@ != s[s.len() - 1].0@);
                    }
                }
            }
            assert(filter_live(s, now) == prefix.push(s.last()));
            assert(prefix.push(s.last()).drop_last() =~= prefix);
            assert(prefix.push(s.last()).last() == s.last());
            assert(entries_map(filter_live(s, now)) == entries_map(prefix).insert(
                s.last().0@,
                s.last().1,
            ));
            assert(entries_map(filter_live(s, now)) =~= spec_sweep(entries_map(s), now));
        } else {
            assert(entries_map(filter_live(s, now)) =~= spec_sweep(entries_map(s), now));
        }
    }
}

impl CacheStorage {
    /// Pairwise-distinct sender identities; every method keeps it.
    pub closed spec fn inv(&self) -> bool {
        distinct_keys(self.entries@)
    }

    /// The time-to-live this storage was created with.
    pub closed spec fn ttl(&self) -> u64 {
        self.ttl
    }

    /// An empty storage with the given time-to-live.
    pub fn new(ttl: u64) -> (s: Self)
        ensures
            s.inv(),
            s@ == Map::<Seq<char>, CacheEntry>::empty(),
            s.ttl() == ttl,
    {
        let s = CacheStorage { entries: Vec::new(), ttl };
        proof {
            assert(s@ =~= Map::<Seq<char>, CacheEntry>::empty());
        }
        s
    }

    /// The index of the entry for `connection`, if one exists.
    fn find_key(&self, connection: &str) -> (r: Option<usize>)
        ensures
            match r {
                Some(i) => i < self.entries@.len() && self.entries@[i as int].0@ == connection@,
                None => forall|i: int|
                    0 <= i < self.entries@.len() ==> (#[trigger] self.entries@[i].0@)
                        != connection@,
            },
    {
        let n = self.entries.len();
        let mut i: usize = 0;
        while i < n
            invariant
                i <= n,
                n == self.entries@.len(),
                forall|j: int| 0 <= j < i ==> (#[trigger] self.entries@[j].0@) != connection@,
            decreases n - i,
        {
            if str_eq(self.entries[i].0.as_str(), connection) {
                return Some(i);
            }
            i = i + 1;
        }
        None
    }

    /// A cache hit returns the cached pid, valid or not yet swept, and
    /// extends the entry's expiry (sliding time-to-live); a miss leaves
    /// the storage unchanged.
    pub fn retrieve(&mut self, connection: &str, now: u64) -> (r: Option<Option<u32>>)
        requires
            old(self).inv(),
            now + old(self).ttl() <= u64::MAX,
        ensures
            final(self).inv(),
            final(self).ttl() == old(self).ttl(),
            match r {
                Some(p) => spec_lookup(old(self)@, connection@) == Some(p) && final(self)@ == spec_store(
                    old(self)@,
                    connection@,
                    p,
                    (now + old(self).ttl()) as u64,
                ),
                None => spec_lookup(old(self)@, connection@) is None && final(self)@ == old(
                    self,
                )@,
            },
    {
        match self.find_key(connection) {
            Some(i) => {
                let pid = self.entries[i].1.pid;
                let key = self.entries[i].0.clone();
                let entry = CacheEntry { pid, expires_at: now + self.ttl };
                proof {
                    lemma_map_at(self.entries@, i as int);
                    lemma_map_update(self.entries@, i as int, (key, entry));
                }
                self.entries[i] = (key, entry);
                Some(pid)
            },
            None => {
                proof {
                    lemma_map_contains(self.entries@, connection@);
                }
                None
            },
        }
    }

    /// Record a resolution for `connection` with a fresh expiry,
    /// replacing any earlier entry.
    pub fn store(&mut self, connection: &str, pid: Option<u32>, now: u64)
        requires
            old(self).inv(),
            now + old(self).ttl() <= u64::MAX,
        ensures
            final(self).inv(),
            final(self).ttl() == old(self).ttl(),
            final(self)@ == spec_store(
                old(self)@,
                connection@,
                pid,
                (now + old(self).ttl()) as u64,
            ),
    {
        let entry = CacheEntry { pid, expires_at: now + self.ttl };
        match self.find_key(connection) {
            Some(i) => {
                let key = self.entries[i].0.clone();
                proof {
                    lemma_map_update(self.entries@, i as int, (key, entry));
                }
                self.entries[i] = (key, entry);
            },
            None => {
                let key = connection.to_owned();
                proof {
                    let s = self.entries@;
                    assert(s.push((key, entry)).drop_last() =~= s);
                    assert forall|a: int, b: int|
                        0 <= a < b < s.push((key, entry)).len() implies (#[trigger] s.push(
                        (key, entry),
                    )[a].0@) != (#[trigger] s.push((key, entry))[b].0@) by {
                        if b == s.len() {
                            assert(s.push((key, entry))[a] == s[a]);
                        }
                    }
                }
                self.entries.push((key, entry));
            },
        }
    }

    /// Drop the entry for `connection`, if one exists.
    pub fn evict(&mut self, connection: &str)
        requires
            old(self).inv(),
        ensures
            final(self).inv(),
            final(self).ttl() == old(self).ttl(),
            final(self)@ == old(self)@.remove(connection@),
    {
        match self.find_key(connection) {
            Some(i) => {
                proof {
                    lemma_map_remove(self.entries@, i as int);
                }
                self.entries.remove(i);
            },
            None => {
                proof {
                    lemma_map_contains(self.entries@, connection@);
                    assert(self@ =~= self@.remove(connection@));
                }
            },
        }
    }

    /// The periodic sweep: remove exactly the entries whose expiry has
    /// passed and was not refreshed since.
    pub fn remove_expired(&mut self, current_time: u64)
        requires
            old(self).inv(),
        ensures
            final(self).inv(),
            final(self).ttl() == old(self).ttl(),
            final(self)@ == spec_sweep(old(self)@, current_time),
    {
        let n = self.entries.len();
        let mut kept: Vec<(String, CacheEntry)> = Vec::new();
        let mut i: usize = 0;
        while i < n
            invariant
                i <= n,
                n == self.entries@.len(),
                kept@ == filter_live(self.entries@.take(i as int), current_time),
            decreases n - i,
        {
            proof {
                assert(self.entries@.take(i + 1 as int).drop_last() =~= self.entries@.take(
                    i as int,
                ));
                assert(self.entries@.take(i + 1 as int).last() == self.entries@[i as int]);
            }
            if self.entries[i].1.expires_at > current_time {
                let pair = (self.entries[i].0.clone(), self.entries[i].1);
                proof {
                    assert(pair == self.entries@[i as int]);
                }
                kept.push(pair);
            }
            i = i + 1;
        }
        proof {
            assert(self.entries@.take(n as int) =~= self.entries@);
            lemma_filter_live(self.entries@, current_time);
        }
        self.entries = kept;
    }
}

/// What the worker decides for one query before any daemon call.
pub enum CacheLookup {
    /// The cache answered; the value may itself be "no pid".
    Hit(Option<u32>),
    /// No entry: the worker must ask the bus daemon once.
    Miss,
}

/// The first step of serving a query: answer from the cache when an
/// entry exists (refreshing its expiry), otherwise demand a daemon
/// lookup.
pub fn query_cached(storage: &mut CacheStorage, connection: &str, now: u64) -> (r: CacheLookup)
    requires
        old(storage).inv(),
        now + old(storage).ttl() <= u64::MAX,
    ensures
        final(storage).inv(),
        final(storage).ttl() == old(storage).ttl(),
        match r {
            CacheLookup::Hit(p) => spec_lookup(old(storage)@, connection@) == Some(p)
                && final(storage)@ == spec_store(
                old(storage)@,
                connection@,
                p,
                (now + old(storage).ttl()) as u64,
            ),
            CacheLookup::Miss => spec_lookup(old(storage)@, connection@) is None && final(storage)@
                == old(storage)@,
        },
{
    match storage.retrieve(connection, now) {
        Some(p) => CacheLookup::Hit(p),
        None => CacheLookup::Miss,
    }
}

/// The second step after a miss: a successful daemon lookup is cached
/// and returned; a failed one caches nothing and yields no attribution.
pub fn complete_lookup(
    storage: &mut CacheStorage,
    connection: &str,
    resolved: Option<u32>,
    now: u64,
) -> (r: Option<u32>)
    requires
        old(storage).inv(),
        now + old(storage).ttl() <= u64::MAX,
    ensures
        final(storage).inv(),
        final(storage).ttl() == old(storage).ttl(),
        r == resolved,
        match resolved {
            Some(p) => final(storage)@ == spec_store(
                old(storage)@,
                connection@,
                Some(p),
                (now + old(storage).ttl()) as u64,
            ),
            None => final(storage)@ == old(storage)@,
        },
{
    match resolved {
        Some(p) => {
            storage.store(connection, Some(p), now);
            Some(p)
        },
        None => None,
    }
}

/// What the worker does with one bus ownership-change signal.
pub enum OwnershipDecision {
    /// A name gained an owner: resolve that owner's pid and cache it.
    ResolveNewOwner(String),
    /// A name lost its owner: evict that identity's entry at once.
    EvictOldOwner(String),
    /// Neither owner named: nothing to do.
    Ignore,
}

/// Decide what an ownership-change signal means for the cache: a new
/// owner is resolved and cached proactively; a released name is evicted
/// immediately.
pub fn decide_ownership_change(
    old_owner: &Option<String>,
    new_owner: &Option<String>,
) -> (r: OwnershipDecision)
    ensures
        match r {
            OwnershipDecision::ResolveNewOwner(n) => new_owner matches Some(s) && n == s,
            OwnershipDecision::EvictOldOwner(o) => new_owner is None && (old_owner matches Some(s)
                && o == s),
            OwnershipDecision::Ignore => new_owner is None && old_owner is None,
        },
{
    match new_owner {
        Some(n) => OwnershipDecision::ResolveNewOwner(n.clone()),
        None => match old_owner {
            Some(o) => OwnershipDecision::EvictOldOwner(o.clone()),
            None => OwnershipDecision::Ignore,
        },
    }
}

// ---------------------------------------------------------------------
// Laws of the cache.
// ---------------------------------------------------------------------

/// Cache-hit law: while the storage holds an entry for a sender — not
/// yet swept or evicted — serving a query is a hit, a miss being
/// impossible: it returns exactly the cached value (a cached "no pid"
/// included), refreshes that entry's expiry to `now + ttl`, and
/// neither adds nor removes an entry; no daemon lookup is demanded.
pub proof fn lemma_query_hit_refreshes(
    m: Map<Seq<char>, CacheEntry>,
    c: Seq<char>,
    now: u64,
    ttl: u64,
)
    requires
        m.contains_key(c),
        now + ttl <= u64::MAX,
    ensures
        spec_lookup(m, c) == Some(m[c].pid),
        spec_store(m, c, m[c].pid, (now + ttl) as u64).dom() == m.dom(),
        spec_store(m, c, m[c].pid, (now + ttl) as u64)[c] == (CacheEntry {
            pid: m[c].pid,
            expires_at: (now + ttl) as u64,
        }),
        forall|k: Seq<char>|
            m.contains_key(k) && k != c ==> spec_store(m, c, m[c].pid, (now + ttl) as u64)[k]
                == m[k],
{
    assert(spec_store(m, c, m[c].pid, (now + ttl) as u64).dom() =~= m.dom());
}

/// Repeat-query law: once a resolution is stored for a sender, a query
/// for the same sender hits the cache and returns the identical cached
/// value — no second daemon lookup happens — as long as neither the
/// sweep nor an eviction removed the entry in between.
pub proof fn lemma_repeat_query_hits(
    m: Map<Seq<char>, CacheEntry>,
    c: Seq<char>,
    pid: Option<u32>,
    expires_at: u64,
)
    ensures
        spec_lookup(spec_store(m, c, pid, expires_at), c) == Some(pid),
{
}

/// Sweep-purge law: an entry whose time-to-live elapsed with no refresh
/// is removed by the sweep.
pub proof fn lemma_sweep_purges(
    m: Map<Seq<char>, CacheEntry>,
    c: Seq<char>,
    pid: Option<u32>,
    expires_at: u64,
    now: u64,
)
    requires
        now >= expires_at,
    ensures
        !spec_sweep(spec_store(m, c, pid, expires_at), now).contains_key(c),
        spec_lookup(spec_sweep(spec_store(m, c, pid, expires_at), now), c) is None,
{
}

/// Sweep-keep law: the sweep keeps exactly the entries whose expiry is
/// still ahead, with their values unchanged.
pub proof fn lemma_sweep_keeps(m: Map<Seq<char>, CacheEntry>, c: Seq<char>, now: u64)
    requires
        m.contains_key(c),
        m[c].expires_at > now,
    ensures
        spec_sweep(m, now).contains_key(c),
        spec_sweep(m, now)[c] == m[c],
{
}

/// Eviction law: an ownership-loss eviction invalidates the entry at
/// once, whatever its expiry was: the next query misses and must
/// perform a fresh daemon lookup.
pub proof fn lemma_evict_invalidates(m: Map<Seq<char>, CacheEntry>, c: Seq<char>)
    ensures
        spec_lookup(m.remove(c), c) is None,
{
}

} // verus!
