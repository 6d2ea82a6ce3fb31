//! A TTL cache for enrichment lookups. Keys are strings namespaced by the
//! caller (`"mb:recording:Bowie|Heroes|3"`), values are caller-serialised
//! text, and every entry remembers the Unix second it was written. Reading
//! and writing the cache file is the caller's business; this module decides
//! what is fresh and what a snapshot for the file holds, dropping expired
//! entries so the file tracks live entries only.

use vstd::prelude::*;
use crate::clock::now_unix;
use crate::text::str_eq;
use crate::track::opt_view;

verus! {

/// One day.
pub const DEFAULT_TTL_SECS: u64 = 86_400;

/// A cached value and when it was written.
#[derive(Debug)]
pub struct CacheEntry {
    pub inserted_at_unix: u64,
    pub value: String,
}

/// Entries keyed by string, each key at most once, with a cache-wide
/// time-to-live in seconds.
#[derive(Debug)]
pub struct TtlCache {
    entries: Vec<(String, CacheEntry)>,
    ttl_secs: u64,
}

/// An entry as `(key, written at, value)`.
pub type EntryView = (Seq<char>, u64, Seq<char>);

/// The views of a list of entries.
pub open spec fn entry_views(s: Seq<(String, CacheEntry)>) -> Seq<EntryView> {
    s.map_values(|e: (String, CacheEntry)| (e.0@, e.1.inserted_at_unix, e.1.value@))
}

/// No key occurs twice.
pub open spec fn keys_distinct(s: Seq<EntryView>) -> bool {
    forall|i: int, j: int| 0 <= i < j < s.len() ==> (#[trigger] s[i]).0 != (#[trigger] s[j]).0
}

/// What the entries hold for a key: `(written at, value)`.
pub open spec fn lookup(s: Seq<EntryView>, key: Seq<char>) -> Option<(u64, Seq<char>)>
    decreases s.len(),
{
    if s.len() == 0 {
        None
    } else if s.last().0 == key {
        Some((s.last().1, s.last().2))
    } else {
        lookup(s.drop_last(), key)
    }
}

/// An entry written at `at` is fresh at `now` for `max_age` seconds (never
/// longer than the TTL).
pub open spec fn is_fresh(at: u64, now: u64, max_age: u64, ttl: u64) -> bool {
    let limit = if max_age < ttl {
        max_age
    } else {
        ttl
    };
    let age = if now >= at {
        now - at
    } else {
        0
    };
    age <= limit
}

/// The oldest write time a snapshot at `now` keeps.
pub open spec fn cutoff(now: u64, ttl: u64) -> u64 {
    if now >= ttl {
        (now - ttl) as u64
    } else {
        0
    }
}

proof fn lemma_lookup_some(s: Seq<EntryView>, key: Seq<char>)
    ensures
        lookup(s, key) is Some <==> exists|i: int| 0 <= i < s.len() && (#[trigger] s[i]).0 == key,
        keys_distinct(s) ==> forall|i: int|
            0 <= i < s.len() && (#[trigger] s[i]).0 == key ==> lookup(s, key) == Some(
                (s[i].1, s[i].2),
            ),
    decreases s.len(),
{
    if s.len() > 0 {
        let p = s.drop_last();
        lemma_lookup_some(p, key);
        assert forall|i: int| 0 <= i < p.len() implies #[trigger] p[i] == s[i] by {}
        if lookup(s, key) is Some && s.last().0 != key {
            let i = choose|i: int| 0 <= i < p.len() && (#[trigger] p[i]).0 == key;
            assert(s[i].0 == key);
        }
        if exists|i: int| 0 <= i < s.len() && (#[trigger] s[i]).0 == key {
            let i = choose|i: int| 0 <= i < s.len() && (#[trigger] s[i]).0 == key;
            if i < s.len() - 1 {
                assert(p[i].0 == key);
            }
        }
        if keys_distinct(s) {
            assert(keys_distinct(p));
            assert forall|i: int| 0 <= i < s.len() && (#[trigger] s[i]).0 == key implies lookup(
                s,
                key,
            ) == Some((s[i].1, s[i].2)) by {
                if i < s.len() - 1 {
                    assert(s[i].0 != s[s.len() - 1].0);
                    assert(p[i] == s[i]);
                }
            }
        }
    }
}

/// What a read at `now` gives back of what the cache holds for a key: the
/// value while it is fresh, nothing otherwise.
pub open spec fn fresh_read(held: Option<(u64, Seq<char>)>, now: u64, max_age: u64, ttl: u64) -> Option<
    Seq<char>,
> {
    match held {
        Some(e) => if is_fresh(e.0, now, max_age, ttl) {
            Some(e.1)
        } else {
            None
        },
        None => None,
    }
}

/// An entry written at `at` stays fresh whatever the clock reads: its
/// allowed age reaches the end of the clock's range.
pub open spec fn fresh_at_any_time(at: u64, max_age: u64, ttl: u64) -> bool {
    at + (if max_age < ttl { max_age } else { ttl }) >= u64::MAX
}

proof fn lemma_fresh_at_any_time(at: u64, now: u64, max_age: u64, ttl: u64)
    requires
        fresh_at_any_time(at, max_age, ttl),
    ensures
        is_fresh(at, now, max_age, ttl),
{
}

impl TtlCache {
    /// The entries as mathematical values.
    pub closed spec fn entries_view(&self) -> Seq<EntryView> {
        entry_views(self.entries@)
    }

    /// The cache-wide time-to-live in seconds.
    pub closed spec fn ttl(&self) -> u64 {
        self.ttl_secs
    }

    /// Each key occurs once.
    pub open spec fn wf(&self) -> bool {
        keys_distinct(self.entries_view())
    }

    /// What the cache holds for a key: `(written at, value)`.
    pub open spec fn holds(&self, key: Seq<char>) -> Option<(u64, Seq<char>)> {
        lookup(self.entries_view(), key)
    }

    /// An empty cache whose entries live one day.
    pub fn new() -> (r: TtlCache)
        ensures
            r.wf(),
            r.ttl() == DEFAULT_TTL_SECS,
            forall|k: Seq<char>| r.holds(k) is None,
    {
        TtlCache::with_ttl(DEFAULT_TTL_SECS)
    }

    /// An empty cache whose entries live `ttl_secs` seconds.
    pub fn with_ttl(ttl_secs: u64) -> (r: TtlCache)
        ensures
            r.wf(),
            r.ttl() == ttl_secs,
            forall|k: Seq<char>| r.holds(k) is None,
    {
        let r = TtlCache { entries: Vec::new(), ttl_secs };
        assert(r.entries_view() =~= Seq::<EntryView>::empty());
        r
    }

    /// A cache whose entries live `ttl_secs` seconds, holding what a cache
    /// file listed: each key with its write time and value. Where a key is
    /// listed twice, the later listing wins.
    pub fn from_entries(entries: Vec<(String, CacheEntry)>, ttl_secs: u64) -> (r: TtlCache)
        ensures
            r.wf(),
            r.ttl() == ttl_secs,
            forall|k: Seq<char>| #[trigger] r.holds(k) == lookup(entry_views(entries@), k),
    {
        let ghost ev = entry_views(entries@);
        let mut c = TtlCache::with_ttl(ttl_secs);
        let mut i: usize = 0;
        assert(ev.take(0) =~= Seq::<EntryView>::empty());
        while i < entries.len()
            invariant
                i <= entries@.len(),
                ev == entry_views(entries@),
                c.wf(),
                c.ttl() == ttl_secs,
                forall|k: Seq<char>| #[trigger] c.holds(k) == lookup(ev.take(i as int), k),
            decreases entries@.len() - i,
        {
            let ghost t = ev.take(i + 1);
            assert(t.drop_last() =~= ev.take(i as int));
            assert(t.last() == ev[i as int]);
            let key = entries[i].0.clone();
            let value = entries[i].1.value.clone();
            c.put_at(key, value, entries[i].1.inserted_at_unix);
            i = i + 1;
        }
        assert(ev.take(entries@.len() as int) =~= ev);
        c
    }

    /// The cache-wide time-to-live in seconds.
    pub fn ttl_secs(&self) -> (r: u64)
        ensures
            r == self.ttl(),
    {
        self.ttl_secs
    }

    fn position_of(&self, key: &str) -> (r: Option<usize>)
        requires
            self.wf(),
        ensures
            match r {
                Some(i) => i < self.entries_view().len() && self.entries_view()[i as int].0 == key@,
                None => forall|i: int|
                    0 <= i < self.entries_view().len() ==> (#[trigger] self.entries_view()[i]).0
                        != key@,
            },
    {
        let mut i: usize = 0;
        while i < self.entries.len()
            invariant
                i <= self.entries@.len(),
                forall|j: int| 0 <= j < i ==> (#[trigger] self.entries_view()[j]).0 != key@,
            decreases self.entries@.len() - i,
        {
            if str_eq(self.entries[i].0.as_str(), key) {
                return Some(i);
            }
            i = i + 1;
        }
        None
    }

    /// The value for `key` if it was written at most `max_age_secs` (never
    /// more than the TTL) before `now`.
    pub fn get_fresher_than_at(&self, key: &str, max_age_secs: u64, now: u64) -> (r: Option<String>)
        requires
            self.wf(),
        ensures
            r is Some <==> (self.holds(key@) matches Some(e) && is_fresh(
                e.0,
                now,
                max_age_secs,
                self.ttl(),
            )),
            r matches Some(v) ==> self.holds(key@) matches Some(e) && v@ == e.1,
            opt_view(r) == fresh_read(self.holds(key@), now, max_age_secs, self.ttl()),
    {
        proof {
            lemma_lookup_some(self.entries_view(), key@);
        }
        match self.position_of(key) {
            None => None,
            Some(i) => {
                let entry = &self.entries[i].1;
                let max_secs = if max_age_secs < self.ttl_secs {
                    max_age_secs
                } else {
                    self.ttl_secs
                };
                if now.saturating_sub(entry.inserted_at_unix) > max_secs {
                    None
                } else {
                    Some(entry.value.clone())
                }
            },
        }
    }

    /// The value for `key` if it is younger than the TTL now.
    pub fn get(&self, key: &str) -> (r: Option<String>)
        requires
            self.wf(),
        ensures
            r matches Some(v) ==> self.holds(key@) matches Some(e) && v@ == e.1,
            self.holds(key@) is None ==> r is None,
            self.holds(key@) matches Some(e) && fresh_at_any_time(e.0, self.ttl(), self.ttl()) ==> r is Some,
            exists|now: u64| opt_view(r) == #[trigger] fresh_read(self.holds(key@), now, self.ttl(), self.ttl()),
    {
        self.get_fresher_than(key, self.ttl_secs)
    }

    /// The value for `key` if it is younger than `max_age_secs` (never more
    /// than the TTL) now.
    pub fn get_fresher_than(&self, key: &str, max_age_secs: u64) -> (r: Option<String>)
        requires
            self.wf(),
        ensures
            r matches Some(v) ==> self.holds(key@) matches Some(e) && v@ == e.1,
            self.holds(key@) is None ==> r is None,
            self.holds(key@) matches Some(e) && fresh_at_any_time(e.0, max_age_secs, self.ttl()) ==> r is Some,
            exists|now: u64| opt_view(r) == #[trigger] fresh_read(self.holds(key@), now, max_age_secs, self.ttl()),
    {
        let now = now_unix();
        proof {
            if self.holds(key@) is Some {
                let e = self.holds(key@)->0;
                if fresh_at_any_time(e.0, max_age_secs, self.ttl()) {
                    lemma_fresh_at_any_time(e.0, now, max_age_secs, self.ttl());
                }
            }
        }
        self.get_fresher_than_at(key, max_age_secs, now)
    }

    /// Write `value` under `key` as of `now`, replacing what the key held.
    pub fn put_at(&mut self, key: String, value: String, now: u64)
        requires
            old(self).wf(),
        ensures
            final(self).wf(),
            final(self).ttl() == old(self).ttl(),
            final(self).holds(key@) == Some((now, value@)),
            forall|k: Seq<char>| k != key@ ==> final(self).holds(k) == old(self).holds(k),
    {
        let ghost old_view = self.entries_view();
        let ghost kv = key@;
        let ghost vv = value@;
        proof {
            assert forall|k: Seq<char>| true implies #[trigger] lookup(old_view, k) == lookup(old_view, k) by {
                lemma_lookup_some(old_view, k);
            }
        }
        match self.position_of(key.as_str()) {
            Some(i) => {
                self.entries.set(i, (key, CacheEntry { inserted_at_unix: now, value }));
                let ghost nv = self.entries_view();
                assert(nv =~= old_view.update(i as int, (kv, now, vv)));
                assert(keys_distinct(nv));
                proof {
                    assert forall|k: Seq<char>| #[trigger] lookup(nv, k) == if k == kv {
                        Some((now, vv))
                    } else {
                        lookup(old_view, k)
                    } by {
                        lemma_lookup_some(nv, k);
                        lemma_lookup_some(old_view, k);
                        if k != kv {
                            if lookup(old_view, k) is Some {
                                let j = choose|j: int| 0 <= j < old_view.len() && (#[trigger] old_view[j]).0 == k;
                                assert(nv[j] == old_view[j]);
                            }
                            if lookup(nv, k) is Some {
                                let j = choose|j: int| 0 <= j < nv.len() && (#[trigger] nv[j]).0 == k;
                                assert(nv[j] == old_view[j]);
                            }
                        } else {
                            assert(nv[i as int].0 == k);
                        }
                    }
                }
            },
            None => {
                self.entries.push((key, CacheEntry { inserted_at_unix: now, value }));
                let ghost nv = self.entries_view();
                assert(nv =~= old_view.push((kv, now, vv)));
                assert(nv.drop_last() =~= old_view);
                assert(keys_distinct(nv));
            },
        }
    }

    /// Write `value` under `key` as of the current Unix second.
    pub fn put(&mut self, key: String, value: String)
        requires
            old(self).wf(),
        ensures
            final(self).wf(),
            final(self).ttl() == old(self).ttl(),
            final(self).holds(key@) matches Some(e) && e.1 == value@,
            forall|k: Seq<char>| k != key@ ==> final(self).holds(k) == old(self).holds(k),
    {
        let now = now_unix();
        self.put_at(key, value, now);
    }

    /// Forget every entry.
    pub fn clear(&mut self)
        ensures
            final(self).wf(),
            final(self).ttl() == old(self).ttl(),
            forall|k: Seq<char>| final(self).holds(k) is None,
    {
        self.entries.clear();
        assert(self.entries_view() =~= Seq::<EntryView>::empty());
    }

    /// What the cache file should hold at `now`: every entry written at or
    /// after `now - ttl`, with its key, write time and value; expired ones
    /// are dropped.
    pub fn flush_snapshot(&self, now: u64) -> (r: Vec<(String, CacheEntry)>)
        requires
            self.wf(),
        ensures
            keys_distinct(entry_views(r@)),
            forall|k: Seq<char>| #[trigger] lookup(entry_views(r@), k) == match self.holds(k) {
                Some(e) => if e.0 >= cutoff(now, self.ttl()) {
                    Some(e)
                } else {
                    None
                },
                None => None,
            },
    {
        let ghost sv = self.entries_view();
        let limit = now.saturating_sub(self.ttl_secs);
        let mut out: Vec<(String, CacheEntry)> = Vec::new();
        let mut i: usize = 0;
        while i < self.entries.len()
            invariant
                i <= self.entries@.len(),
                sv == self.entries_view(),
                keys_distinct(sv),
                limit == cutoff(now, self.ttl()),
                keys_distinct(entry_views(out@)),
                forall|k: Seq<char>| #[trigger] lookup(entry_views(out@), k) == match lookup(
                    sv.take(i as int),
                    k,
                ) {
                    Some(e) => if e.0 >= limit {
                        Some(e)
                    } else {
                        None
                    },
                    None => None,
                },
                forall|j: int|
                    0 <= j < entry_views(out@).len() ==> exists|m: int|
                        0 <= m < i && (#[trigger] entry_views(out@)[j]).0 == sv[m].0,
            decreases self.entries@.len() - i,
        {
            let ghost ov = entry_views(out@);
            let ghost p = sv.take(i as int);
            let ghost q = sv.take(i + 1);
            assert(q.drop_last() =~= p);
            assert(q.last() == sv[i as int]);
            let e = &self.entries[i];
            if e.1.inserted_at_unix >= limit {
                out.push((e.0.clone(), CacheEntry { inserted_at_unix: e.1.inserted_at_unix, value: e.1.value.clone() }));
                let ghost nv = entry_views(out@);
                assert(nv =~= ov.push(sv[i as int]));
                assert(nv.drop_last() =~= ov);
                assert forall|a: int, b: int| 0 <= a < b < nv.len() implies (#[trigger] nv[a]).0 != (#[trigger] nv[b]).0 by {
                    if b == nv.len() - 1 {
                        let m = choose|m: int| 0 <= m < i && (#[trigger] ov[a]).0 == sv[m].0;
                        assert(sv[m].0 != sv[i as int].0);
                    } else {
                        assert(nv[a] == ov[a]);
                        assert(nv[b] == ov[b]);
                    }
                }
                assert forall|j: int| 0 <= j < nv.len() implies exists|m: int|
                    0 <= m < i + 1 && (#[trigger] nv[j]).0 == sv[m].0 by {
                    if j < nv.len() - 1 {
                        assert(nv[j] == ov[j]);
                        let m = choose|m: int| 0 <= m < i && (#[trigger] ov[j]).0 == sv[m].0;
                        assert(nv[j].0 == sv[m].0);
                    } else {
                        assert(nv[j].0 == sv[i as int].0);
                    }
                }
            }
            proof {
                let nv = entry_views(out@);
                let kept = sv[i as int].1 >= limit;
                if kept {
                    assert(nv =~= ov.push(sv[i as int]));
                } else {
                    assert(nv =~= ov);
                }
                assert forall|k: Seq<char>| #[trigger] lookup(nv, k) == match lookup(q, k) {
                    Some(e) => if e.0 >= limit {
                        Some(e)
                    } else {
                        None
                    },
                    None => None,
                } by {
                    assert(lookup(ov, k) == match lookup(p, k) {
                        Some(e) => if e.0 >= limit {
                            Some(e)
                        } else {
                            None
                        },
                        None => None,
                    });
                    if kept {
                        assert(nv.drop_last() =~= ov);
                        assert(nv.last() == sv[i as int]);
                    }
                    if k == sv[i as int].0 {
                        lemma_lookup_some(p, k);
                        assert forall|m: int| 0 <= m < p.len() implies (#[trigger] p[m]).0 != k by {
                            assert(p[m] == sv[m]);
                        }
                        assert(lookup(p, k) is None);
                        assert(lookup(q, k) == Some((sv[i as int].1, sv[i as int].2)));
                    } else {
                        assert(lookup(q, k) == lookup(p, k));
                    }
                }
            }
            i = i + 1;
        }
        assert(sv.take(self.entries@.len() as int) =~= sv);
        out
    }
}

/// A value read back right after it was written is fresh; it stays fresh
/// exactly while its age is within the requested maximum and the TTL.
pub proof fn law_written_value_is_fresh_until_it_expires(at: u64, now: u64, max_age: u64, ttl: u64)
    ensures
        is_fresh(at, at, max_age, ttl),
        now >= at ==> (is_fresh(at, now, max_age, ttl) <==> now - at <= max_age && now - at <= ttl),
{
}

/// A cache-file snapshot at `now` keeps an entry written before `now`
/// exactly when a read at `now` with the full TTL would still see it.
pub proof fn law_snapshot_keeps_what_is_fresh(at: u64, now: u64, ttl: u64)
    requires
        at <= now,
    ensures
        at >= cutoff(now, ttl) <==> is_fresh(at, now, ttl, ttl),
{
}

} // verus!
