//! The Spotify "Liked Songs" library: when the cached list is refreshed,
//! the back-off between refresh attempts, the "Recently liked" row, and the
//! album-type split the artist pages use.

use vstd::prelude::*;
use crate::track::{Track, TrackView, track_views};

verus! {

/// A cached list younger than this many seconds is not refreshed.
pub const REFRESH_AFTER_SECS: u64 = 21600;

/// A failed or running refresh is not retried for this many seconds.
pub const RETRY_AFTER_SECS: u64 = 900;

/// The cache file layout version this build reads and writes.
pub const CACHE_VERSION: u32 = 2;

/// How many tracks the "Recently liked" row shows.
pub const RECENTLY_LIKED_ROW: usize = 8;

/// Whether a cache file of this layout version can be used.
pub fn cache_version_ok(version: u32) -> (r: bool)
    ensures
        r == (version == CACHE_VERSION),
{
    version == CACHE_VERSION
}

/// The back-off between refresh attempts: the Unix second of the last
/// attempt that went ahead, `0` when the last refresh succeeded.
#[derive(Debug)]
pub struct RefreshGuard {
    pub last_attempt: u64,
}

/// Whether an attempt at `now` may go ahead after one at `last`.
pub open spec fn refresh_allowed_spec(last: u64, now: u64) -> bool {
    !(last != 0 && (if now >= last { now - last } else { 0 }) < RETRY_AFTER_SECS)
}

impl RefreshGuard {
    /// No attempt made yet.
    pub fn new() -> (r: RefreshGuard)
        ensures
            r.last_attempt == 0,
    {
        RefreshGuard { last_attempt: 0 }
    }

    /// Whether a refresh may start at `now`; when it may, `now` is recorded
    /// as the last attempt.
    pub fn allowed(&mut self, now: u64) -> (r: bool)
        ensures
            r == refresh_allowed_spec(old(self).last_attempt, now),
            final(self).last_attempt == if r { now } else { old(self).last_attempt },
    {
        let last = self.last_attempt;
        if last != 0 && now.saturating_sub(last) < RETRY_AFTER_SECS {
            return false;
        }
        self.last_attempt = now;
        true
    }

    /// A refresh succeeded: the next one need not wait.
    pub fn succeeded(&mut self)
        ensures
            final(self).last_attempt == 0,
    {
        self.last_attempt = 0;
    }
}

/// What to do about the liked list at start-up.
#[derive(Clone, Copy, Debug, PartialEq, Eq, Structural)]
pub enum LikedRefreshPlan {
    /// Keep what is shown.
    Keep,
    /// Nothing cached and Spotify is not connected: ask the user to connect.
    AskToConnect,
    /// Walk the liked list again; show the spinner when nothing is cached.
    Fetch { show_spinner: bool },
}

/// Whether a cache fetched at `fetched_at` is still fresh at `now`.
pub open spec fn cache_fresh_spec(fetched_at: Option<u64>, now: u64) -> bool {
    match fetched_at {
        Some(f) => (if now >= f { now - f } else { 0 }) < REFRESH_AFTER_SECS,
        None => false,
    }
}

/// The start-up decision, given how many tracks are cached, when the cache
/// was fetched (if there is one), whether Spotify is connected, and whether
/// the back-off lets an attempt start now.
pub open spec fn liked_refresh_spec(
    cached_len: nat,
    fetched_at: Option<u64>,
    connected: bool,
    now: u64,
    last_attempt: u64,
) -> LikedRefreshPlan {
    let has_cache = cached_len > 0;
    if !connected {
        if has_cache { LikedRefreshPlan::Keep } else { LikedRefreshPlan::AskToConnect }
    } else if cache_fresh_spec(fetched_at, now) {
        LikedRefreshPlan::Keep
    } else if has_cache && !refresh_allowed_spec(last_attempt, now) {
        LikedRefreshPlan::Keep
    } else {
        LikedRefreshPlan::Fetch { show_spinner: !has_cache }
    }
}

/// Decide whether to refresh the liked list; the back-off is consulted
/// (and, when it lets the attempt go ahead, advanced) only when a non-empty
/// cache would otherwise be refreshed.
pub fn plan_liked_refresh(
    cached_len: usize,
    fetched_at: Option<u64>,
    connected: bool,
    now: u64,
    guard: &mut RefreshGuard,
) -> (r: LikedRefreshPlan)
    ensures
        r == liked_refresh_spec(cached_len as nat, fetched_at, connected, now, old(guard).last_attempt),
        final(guard).last_attempt == if connected && !cache_fresh_spec(fetched_at, now) && cached_len > 0
            && refresh_allowed_spec(old(guard).last_attempt, now) {
            now
        } else {
            old(guard).last_attempt
        },
{
    let has_cache = cached_len > 0;
    let cache_fresh = match fetched_at {
        Some(f) => now.saturating_sub(f) < REFRESH_AFTER_SECS,
        None => false,
    };
    if !connected {
        return if has_cache { LikedRefreshPlan::Keep } else { LikedRefreshPlan::AskToConnect };
    }
    if cache_fresh {
        return LikedRefreshPlan::Keep;
    }
    if has_cache && !guard.allowed(now) {
        return LikedRefreshPlan::Keep;
    }
    LikedRefreshPlan::Fetch { show_spinner: !has_cache }
}

/// What a finished walk of the liked list shows: on success the guard is
/// cleared and nothing is shown; a failure is shown only when nothing was
/// cached (a failed background refresh keeps the cached list quietly).
pub fn finish_liked_refresh(guard: &mut RefreshGuard, had_cache: bool, outcome: Result<(), String>) -> (r: Option<String>)
    ensures
        outcome is Ok ==> r is None && final(guard).last_attempt == 0,
        outcome matches Err(e) ==> final(guard).last_attempt == old(guard).last_attempt && if had_cache {
            r is None
        } else {
            r matches Some(m) && m@ == e@
        },
{
    match outcome {
        Ok(()) => {
            guard.succeeded();
            None
        },
        Err(e) => if had_cache {
            None
        } else {
            Some(e)
        },
    }
}

/// `a` was liked more recently than `b`: both dated and `a` later, or only
/// `a` dated.
pub open spec fn liked_later(a: TrackView, b: TrackView) -> bool {
    match (a.added_at_ms, b.added_at_ms) {
        (Some(x), Some(y)) => x > y,
        (Some(_), None) => true,
        _ => false,
    }
}

/// The first index at or after `i` whose track `x` was liked later than.
pub open spec fn liked_insert_from(s: Seq<TrackView>, x: TrackView, i: int) -> int
    decreases s.len() - i,
{
    if i < 0 || i >= s.len() {
        s.len() as int
    } else if liked_later(x, s[i]) {
        i
    } else {
        liked_insert_from(s, x, i + 1)
    }
}

/// The stable sort newest-liked first, undated last.
pub open spec fn by_liked_at(s: Seq<TrackView>) -> Seq<TrackView>
    decreases s.len(),
{
    if s.len() == 0 {
        Seq::empty()
    } else {
        let t = by_liked_at(s.drop_last());
        t.insert(liked_insert_from(t, s.last(), 0), s.last())
    }
}

/// The "Recently liked" row: the liked list sorted newest first (undated
/// last, ties in list order), cut to the row's length.
pub open spec fn recently_liked_spec(s: Seq<TrackView>) -> Seq<TrackView> {
    let sorted = by_liked_at(s);
    if sorted.len() > RECENTLY_LIKED_ROW as int {
        sorted.take(RECENTLY_LIKED_ROW as int)
    } else {
        sorted
    }
}

proof fn lemma_by_liked_at_len(s: Seq<TrackView>)
    ensures
        by_liked_at(s).len() == s.len(),
    decreases s.len(),
{
    if s.len() > 0 {
        lemma_by_liked_at_len(s.drop_last());
        lemma_liked_insert_from_bound(by_liked_at(s.drop_last()), s.last(), 0);
    }
}

proof fn lemma_liked_insert_from_bound(s: Seq<TrackView>, x: TrackView, i: int)
    requires
        0 <= i,
    ensures
        i <= liked_insert_from(s, x, i) <= s.len() || liked_insert_from(s, x, i) == s.len(),
        0 <= liked_insert_from(s, x, i) <= s.len(),
    decreases s.len() - i,
{
    if i < s.len() && !liked_later(x, s[i]) {
        lemma_liked_insert_from_bound(s, x, i + 1);
    }
}

fn liked_insert_index(v: &Vec<Track>, x: &Track) -> (r: usize)
    ensures
        r == liked_insert_from(track_views(v@), x@, 0),
        r <= v@.len(),
{
    let ghost s = track_views(v@);
    let mut i: usize = 0;
    while i < v.len()
        invariant
            i <= v@.len(),
            s == track_views(v@),
            liked_insert_from(s, x@, 0) == liked_insert_from(s, x@, i as int),
        decreases v@.len() - i,
    {
        let later = match (x.added_at_ms, v[i].added_at_ms) {
            (Some(a), Some(b)) => a > b,
            (Some(_), None) => true,
            _ => false,
        };
        assert(s[i as int] == v@[i as int]@);
        if later {
            return i;
        }
        i = i + 1;
    }
    i
}

/// The "Recently liked" row of the liked list.
pub fn recently_liked(liked: &Vec<Track>) -> (r: Vec<Track>)
    ensures
        track_views(r@) == recently_liked_spec(track_views(liked@)),
{
    let ghost s = track_views(liked@);
    let mut out: Vec<Track> = Vec::new();
    let mut i: usize = 0;
    while i < liked.len()
        invariant
            i <= liked@.len(),
            s == track_views(liked@),
            track_views(out@) == by_liked_at(s.take(i as int)),
        decreases liked@.len() - i,
    {
        let ghost q = s.take(i + 1);
        assert(q.drop_last() =~= s.take(i as int));
        assert(q.last() == liked@[i as int]@);
        let p = liked_insert_index(&out, &liked[i]);
        let ghost before = track_views(out@);
        out.insert(p, liked[i].duplicate());
        assert(track_views(out@) =~= before.insert(p as int, liked@[i as int]@));
        i = i + 1;
    }
    assert(s.take(liked@.len() as int) =~= s);
    proof {
        lemma_by_liked_at_len(s);
    }
    if out.len() > RECENTLY_LIKED_ROW {
        out.truncate(RECENTLY_LIKED_ROW);
        assert(track_views(out@) =~= by_liked_at(s).take(RECENTLY_LIKED_ROW as int));
    }
    out
}

/// How a release is typed by its provider.
#[derive(Clone, Copy, Debug, PartialEq, Eq, Structural)]
pub enum AlbumType {
    Album,
    Single,
    Ep,
    Compilation,
    Unknown,
}

/// Whether a release belongs with the long-plays: albums and compilations
/// do, singles and EPs do not, and an untyped release does when it has at
/// least six tracks (an unknown count counts as none).
pub fn is_long_play(album_type: AlbumType, total_tracks: Option<u32>) -> (r: bool)
    ensures
        r == match album_type {
            AlbumType::Album | AlbumType::Compilation => true,
            AlbumType::Single | AlbumType::Ep => false,
            AlbumType::Unknown => match total_tracks {
                Some(n) => n >= 6,
                None => false,
            },
        },
{
    match album_type {
        AlbumType::Album | AlbumType::Compilation => true,
        AlbumType::Single | AlbumType::Ep => false,
        AlbumType::Unknown => match total_tracks {
            Some(n) => n >= 6,
            None => false,
        },
    }
}

/// Refresh attempts are spaced: once one went ahead at `first`, none goes
/// ahead again until the back-off has passed, unless a success cleared it.
pub proof fn law_refresh_attempts_are_spaced(first: u64, now: u64)
    requires
        first != 0,
        first <= now,
        now < first + RETRY_AFTER_SECS,
    ensures
        !refresh_allowed_spec(first, now),
        refresh_allowed_spec(0, now),
{
}

/// Once the back-off has passed, an attempt goes ahead again.
pub proof fn law_refresh_resumes_after_backoff(last: u64, now: u64)
    requires
        now >= last + RETRY_AFTER_SECS,
    ensures
        refresh_allowed_spec(last, now),
{
}

} // verus!
