//! Related-track rows built from recommendation seeds: the feed fetched for
//! one seed, cleaned and cut to size, and the "Made for you" row that blends
//! the feeds of many seeds round-robin so no single seed floods it.

use vstd::prelude::*;
use vstd::hash_set::StringHashSet;
use vstd::hash_map::StringHashMap;
use crate::discovery::{DiscoveryResult, result_views};
use crate::normalize::{canonical_title, canonical_title_spec, normalise_text};
use crate::recommend::{
    RecommendationSeed, artist_key_of, count_of, dedupe_canonical, dedupe_canonical_spec,
    dedupe_tracks, dedupe_tracks_spec, filter_seed_variants, is_soundcloud_track,
    is_soundcloud_track_spec, lemma_track_count_push, passes_seed_hygiene, track_artist_count,
    track_key, track_key_spec,
};
use crate::text::{contains_string, string_views};
use crate::track::{Track, TrackView, copy_tracks, opt_view, track_views};

verus! {

/// At most this many seeds feed the "Made for you" row.
pub const MADE_FOR_YOU_SEEDS: usize = 10;

/// Related tracks kept per seed for the "Made for you" row.
pub const PER_SEED_RELATED: usize = 4;

/// At most this many tracks of one artist in a shelf row.
pub const SHELF_ARTIST_CAP: usize = 2;

/// SoundCloud's related-tracks endpoint returns at most this many.
pub const SC_RELATED_MAX: usize = 50;

/// The first `n` of `s`, or all of it when shorter.
pub open spec fn first_n<A>(s: Seq<A>, n: nat) -> Seq<A> {
    if s.len() <= n {
        s
    } else {
        s.take(n as int)
    }
}

/// A list of tracks cut to at most `n`.
fn truncated(mut v: Vec<Track>, n: usize) -> (r: Vec<Track>)
    ensures
        track_views(r@) == first_n(track_views(v@), n as nat),
{
    let ghost before = track_views(v@);
    v.truncate(n);
    assert(before.len() <= n ==> track_views(v@) =~= before);
    assert(before.len() > n ==> track_views(v@) =~= before.take(n as int));
    v
}

/// The seeds whose feeds are fetched for the "Made for you" row.
pub fn seeds_to_fetch(seeds: &Vec<RecommendationSeed>) -> (r: Vec<RecommendationSeed>)
    ensures
        r@.len() == first_n(seeds@, MADE_FOR_YOU_SEEDS as nat).len(),
        forall|i: int| 0 <= i < r@.len() ==> (#[trigger] r@[i])@ == seeds@[i]@,
{
    let mut out: Vec<RecommendationSeed> = Vec::new();
    let mut i: usize = 0;
    while i < seeds.len() && i < MADE_FOR_YOU_SEEDS
        invariant
            i <= seeds@.len(),
            i <= MADE_FOR_YOU_SEEDS,
            out@.len() == i,
            forall|j: int| 0 <= j < i ==> (#[trigger] out@[j])@ == seeds@[j]@,
        decreases seeds@.len() - i,
    {
        out.push(seeds[i].duplicate());
        i = i + 1;
    }
    out
}

/// The SoundCloud track a seed can take its related feed from directly.
pub fn seed_sc_uri(seed: &RecommendationSeed) -> (r: Option<String>)
    ensures
        opt_view(r) == match seed@.track_uri {
            Some(u) => if is_soundcloud_track_spec(u) {
                Some(u)
            } else {
                None
            },
            None => None,
        },
{
    match &seed.track_uri {
        Some(u) => if is_soundcloud_track(u.as_str()) {
            Some(u.clone())
        } else {
            None
        },
        None => None,
    }
}

/// How many related tracks to ask SoundCloud for when `limit` are wanted:
/// twice as many, since cleaning eats into the feed, within the endpoint's
/// cap.
pub fn related_fetch_count(limit: usize) -> (r: u32)
    requires
        limit <= usize::MAX / 2,
    ensures
        r == if 2 * limit < SC_RELATED_MAX { 2 * limit } else { SC_RELATED_MAX as int },
{
    let want = limit * 2;
    if want < SC_RELATED_MAX {
        want as u32
    } else {
        SC_RELATED_MAX as u32
    }
}

/// A seed's SoundCloud related feed as a row: reuploads and variants of the
/// seed dropped, deduplicated by URI and artist|title and then by canonical
/// title, at most `limit` tracks.
pub fn sc_related_row(tracks: Vec<Track>, seed: &RecommendationSeed, limit: usize) -> (r: Vec<Track>)
    ensures
        track_views(r@) == first_n(
            dedupe_canonical_spec(
                dedupe_tracks_spec(
                    track_views(tracks@).filter(|t: TrackView| passes_seed_hygiene(t, seed@.title)),
                ),
            ),
            limit as nat,
        ),
{
    let cleaned = dedupe_canonical(dedupe_tracks(filter_seed_variants(tracks, seed)));
    truncated(cleaned, limit)
}

/// The tracks to play of discovery results, in order.
pub open spec fn play_targets(s: Seq<crate::discovery::DiscoveryResultView>, results: Seq<DiscoveryResult>) -> Seq<TrackView>
    decreases results.len(),
{
    if results.len() == 0 {
        Seq::empty()
    } else {
        let p = play_targets(s, results.drop_last());
        match results.last().play_target_spec() {
            Some(t) => p.push(t),
            None => p,
        }
    }
}

/// A seed's row from the discovery engine when it has no SoundCloud track:
/// the playable results, the first `2 * limit` of them deduplicated by URI
/// and artist|title, at most `limit` tracks.
pub fn discovery_related_row(results: Vec<DiscoveryResult>, limit: usize) -> (r: Vec<Track>)
    requires
        limit <= usize::MAX / 2,
    ensures
        track_views(r@) == first_n(
            dedupe_tracks_spec(first_n(play_targets(result_views(results@), results@), 2 * limit as nat)),
            limit as nat,
        ),
{
    let ghost all = play_targets(result_views(results@), results@);
    let mut targets: Vec<Track> = Vec::new();
    let mut i: usize = 0;
    while i < results.len()
        invariant
            i <= results@.len(),
            all == play_targets(result_views(results@), results@),
            track_views(targets@) == play_targets(result_views(results@), results@.take(i as int)),
        decreases results@.len() - i,
    {
        assert(results@.take(i + 1).drop_last() =~= results@.take(i as int));
        assert(results@.take(i + 1).last() == results@[i as int]);
        match results[i].play_target() {
            Some(t) => {
                let ghost before = track_views(targets@);
                targets.push(t);
                assert(track_views(targets@) =~= before.push(t@));
            },
            None => {},
        }
        i = i + 1;
    }
    assert(results@.take(results@.len() as int) =~= results@);
    let head = truncated(targets, limit * 2);
    truncated(dedupe_tracks(head), limit)
}

/// The "new from artists" row: the uploads gathered, deduplicated by URI and
/// artist|title, at most `limit` tracks.
pub fn uploads_row(uploads: Vec<Track>, limit: usize) -> (r: Vec<Track>)
    ensures
        track_views(r@) == first_n(dedupe_tracks_spec(track_views(uploads@)), limit as nat),
{
    truncated(dedupe_tracks(uploads), limit)
}

/// Whether enough uploads were gathered to stop asking further artists:
/// twice the row's length.
pub fn uploads_enough(gathered: usize, limit: usize) -> (r: bool)
    ensures
        r == (gathered as int >= 2 * limit),
{
    gathered as u128 >= 2 * (limit as u128)
}

/// Element `r` of every feed that has one, in feed order.
pub open spec fn round(pools: Seq<Seq<TrackView>>, r: int) -> Seq<TrackView>
    decreases pools.len(),
{
    if pools.len() == 0 {
        Seq::empty()
    } else {
        round(pools.drop_last(), r) + if 0 <= r < pools.last().len() {
            seq![pools.last()[r]]
        } else {
            Seq::empty()
        }
    }
}

/// The first `n` rounds, one after another.
pub open spec fn rounds(pools: Seq<Seq<TrackView>>, n: nat) -> Seq<TrackView>
    decreases n,
{
    if n == 0 {
        Seq::empty()
    } else {
        rounds(pools, (n - 1) as nat) + round(pools, n - 1)
    }
}

/// The length of the longest feed.
pub open spec fn longest(pools: Seq<Seq<TrackView>>) -> nat
    decreases pools.len(),
{
    if pools.len() == 0 {
        0
    } else {
        let m = longest(pools.drop_last());
        if pools.last().len() > m {
            pools.last().len()
        } else {
            m
        }
    }
}

/// The feeds blended round-robin: first element of each, then the second
/// of each, and so on, skipping feeds that ran out.
pub open spec fn round_robin(pools: Seq<Seq<TrackView>>) -> Seq<TrackView> {
    rounds(pools, longest(pools))
}

/// What the row builder has seen and kept so far.
pub ghost struct AggState {
    pub out: Seq<TrackView>,
    pub spare: Seq<TrackView>,
    pub uris: Set<Seq<char>>,
    pub keys: Set<Seq<char>>,
    pub canons: Set<Seq<char>>,
}

/// Nothing seen yet.
pub open spec fn agg_init() -> AggState {
    AggState {
        out: Seq::empty(),
        spare: Seq::empty(),
        uris: Set::empty(),
        keys: Set::empty(),
        canons: Set::empty(),
    }
}

/// The builder stops once a kept track brought the row to its limit.
pub open spec fn agg_done(st: AggState, limit: nat) -> bool {
    st.out.len() >= limit && st.out.len() >= 1
}

/// One track of the blend: a repeated URI, or an artist|title key already
/// seen, is skipped; so is a repeated non-empty canonical title (the same
/// song by another uploader, never even as backfill); an excluded key, or an
/// artist already at the cap, goes to the spare list; the rest is kept.
pub open spec fn agg_step(st: AggState, t: TrackView, excl: Seq<Seq<char>>) -> AggState {
    let key = track_key_spec(t);
    if st.uris.contains(t.uri) {
        st
    } else if st.keys.contains(key) {
        AggState { uris: st.uris.insert(t.uri), ..st }
    } else {
        let st1 = AggState { uris: st.uris.insert(t.uri), keys: st.keys.insert(key), ..st };
        let canon = canonical_title_spec(t.title);
        if canon.len() > 0 && st1.canons.contains(canon) {
            st1
        } else {
            let st2 = if canon.len() > 0 {
                AggState { canons: st1.canons.insert(canon), ..st1 }
            } else {
                st1
            };
            if excl.contains(key) {
                AggState { spare: st2.spare.push(t), ..st2 }
            } else if track_artist_count(st2.out, artist_key_of(t)) >= SHELF_ARTIST_CAP {
                AggState { spare: st2.spare.push(t), ..st2 }
            } else {
                AggState { out: st2.out.push(t), ..st2 }
            }
        }
    }
}

/// The builder run over the blend, track by track, until it is done.
pub open spec fn agg_fold(s: Seq<TrackView>, excl: Seq<Seq<char>>, limit: nat) -> AggState
    decreases s.len(),
{
    if s.len() == 0 {
        agg_init()
    } else {
        let p = agg_fold(s.drop_last(), excl, limit);
        if agg_done(p, limit) {
            p
        } else {
            agg_step(p, s.last(), excl)
        }
    }
}

/// The row: what was kept, padded with the spare tracks up to the limit.
pub open spec fn aggregate_row(pools: Seq<Seq<TrackView>>, excl: Seq<Seq<char>>, limit: nat) -> Seq<TrackView> {
    let st = agg_fold(round_robin(pools), excl, limit);
    if st.out.len() >= limit {
        st.out
    } else {
        st.out + first_n(st.spare, (limit - st.out.len()) as nat)
    }
}

/// The feeds that were fetched, in order.
pub open spec fn ok_feeds(results: Seq<Result<Vec<Track>, String>>) -> Seq<Seq<TrackView>>
    decreases results.len(),
{
    if results.len() == 0 {
        Seq::empty()
    } else {
        let p = ok_feeds(results.drop_last());
        match results.last() {
            Ok(v) => p.push(track_views(v@)),
            Err(_) => p,
        }
    }
}

/// The last fetch error, if any.
pub open spec fn last_error(results: Seq<Result<Vec<Track>, String>>) -> Option<Seq<char>>
    decreases results.len(),
{
    if results.len() == 0 {
        None
    } else {
        match results.last() {
            Err(e) => Some(e@),
            Ok(_) => last_error(results.drop_last()),
        }
    }
}

/// Once the builder is done, further tracks change nothing.
proof fn lemma_done_stays(s: Seq<TrackView>, excl: Seq<Seq<char>>, limit: nat, i: int, j: int)
    requires
        0 <= i <= j <= s.len(),
        agg_done(agg_fold(s.take(i), excl, limit), limit),
    ensures
        agg_fold(s.take(j), excl, limit) == agg_fold(s.take(i), excl, limit),
    decreases j - i,
{
    if j > i {
        lemma_done_stays(s, excl, limit, i, j - 1);
        assert(s.take(j).drop_last() =~= s.take(j - 1));
    }
}

/// Blend fetched feeds round-robin into the "Made for you" row.
fn blend(pools: &Vec<Vec<Track>>) -> (r: Vec<Track>)
    ensures
        track_views(r@) == round_robin(pools@.map_values(|v: Vec<Track>| track_views(v@))),
{
    let ghost ps = pools@.map_values(|v: Vec<Track>| track_views(v@));
    let mut longest_len: usize = 0;
    let mut j: usize = 0;
    while j < pools.len()
        invariant
            j <= pools@.len(),
            ps == pools@.map_values(|v: Vec<Track>| track_views(v@)),
            longest_len == longest(ps.take(j as int)),
        decreases pools@.len() - j,
    {
        assert(ps.take(j + 1).drop_last() =~= ps.take(j as int));
        assert(ps.take(j + 1).last() == track_views(pools@[j as int]@));
        if pools[j].len() > longest_len {
            longest_len = pools[j].len();
        }
        j = j + 1;
    }
    assert(ps.take(pools@.len() as int) =~= ps);
    let mut out: Vec<Track> = Vec::new();
    let mut r: usize = 0;
    while r < longest_len
        invariant
            r <= longest_len,
            longest_len == longest(ps),
            ps == pools@.map_values(|v: Vec<Track>| track_views(v@)),
            track_views(out@) == rounds(ps, r as nat),
        decreases longest_len - r,
    {
        let ghost base = track_views(out@);
        let mut k: usize = 0;
        while k < pools.len()
            invariant
                k <= pools@.len(),
                r < longest_len,
                ps == pools@.map_values(|v: Vec<Track>| track_views(v@)),
                base == rounds(ps, r as nat),
                track_views(out@) == base + round(ps.take(k as int), r as int),
            decreases pools@.len() - k,
        {
            let ghost before = track_views(out@);
            assert(ps.take(k + 1).drop_last() =~= ps.take(k as int));
            assert(ps.take(k + 1).last() == track_views(pools@[k as int]@));
            if r < pools[k].len() {
                out.push(pools[k][r].duplicate());
                assert(track_views(out@) =~= before.push(pools@[k as int]@[r as int]@));
                assert(track_views(out@) =~= base + round(ps.take(k + 1), r as int));
            } else {
                assert(track_views(out@) =~= base + round(ps.take(k + 1), r as int));
            }
            k = k + 1;
        }
        assert(ps.take(pools@.len() as int) =~= ps);
        r = r + 1;
    }
    out
}

/// The "Made for you" row from the feeds fetched for its seeds: an error
/// when no feed could be fetched (the last fetch error, or "no seeds to
/// aggregate" when there were no seeds); else the feeds blended
/// round-robin, deduplicated, with excluded tracks and tracks past the
/// per-artist cap set aside, kept until the row is full, and padded with
/// the set-aside tracks when it is short.
pub fn aggregate_related(
    results: Vec<Result<Vec<Track>, String>>,
    exclude_keys: &Vec<String>,
    limit: usize,
) -> (r: Result<Vec<Track>, String>)
    ensures
        ok_feeds(results@).len() == 0 ==> (r matches Err(e) && e@ == match last_error(results@) {
            Some(m) => m,
            None => "no seeds to aggregate"@,
        }),
        ok_feeds(results@).len() > 0 ==> (r matches Ok(v) && track_views(v@) == aggregate_row(
            ok_feeds(results@),
            string_views(exclude_keys@),
            limit as nat,
        )),
{
    let ghost rs = results@;
    let mut pools: Vec<Vec<Track>> = Vec::new();
    let mut last_err: Option<String> = None;
    let mut i: usize = 0;
    let n = results.len();
    while i < n
        invariant
            i <= n,
            n == rs.len(),
            rs == results@,
            pools@.map_values(|v: Vec<Track>| track_views(v@)) == ok_feeds(rs.take(i as int)),
            opt_view(last_err) == last_error(rs.take(i as int)),
        decreases n - i,
    {
        assert(rs.take(i + 1).drop_last() =~= rs.take(i as int));
        assert(rs.take(i + 1).last() == rs[i as int]);
        match &results[i] {
            Ok(v) => {
                let ghost before = pools@.map_values(|v: Vec<Track>| track_views(v@));
                pools.push(copy_tracks(v));
                assert(pools@.map_values(|v: Vec<Track>| track_views(v@)) =~= before.push(
                    track_views(pools@[pools@.len() - 1]@),
                ));
            },
            Err(e) => {
                last_err = Some(e.clone());
            },
        }
        i = i + 1;
    }
    assert(rs.take(n as int) =~= rs);
    if pools.len() == 0 {
        proof {
            reveal_strlit("no seeds to aggregate");
        }
        return Err(match last_err {
            Some(e) => e,
            None => String::from_str("no seeds to aggregate"),
        });
    }
    let feed = blend(&pools);
    let ghost s = track_views(feed@);
    let ghost excl = string_views(exclude_keys@);
    let mut seen_uri = StringHashSet::new();
    let mut seen_key = StringHashSet::new();
    let mut seen_canon = StringHashSet::new();
    let mut counts: StringHashMap<usize> = StringHashMap::new();
    let mut out: Vec<Track> = Vec::new();
    let mut spare: Vec<Track> = Vec::new();
    let mut k: usize = 0;
    while k < feed.len() && !(out.len() >= limit && out.len() >= 1)
        invariant
            k <= feed@.len(),
            s == track_views(feed@),
            excl == string_views(exclude_keys@),
            ({
                let st = agg_fold(s.take(k as int), excl, limit as nat);
                &&& track_views(out@) == st.out
                &&& track_views(spare@) == st.spare
                &&& seen_uri@ == st.uris
                &&& seen_key@ == st.keys
                &&& seen_canon@ == st.canons
            }),
            forall|a: Seq<char>| count_of(counts@, a) == #[trigger] track_artist_count(track_views(out@), a),
        decreases feed@.len() - k,
    {
        let t = &feed[k];
        let ghost q = s.take(k + 1);
        assert(q.drop_last() =~= s.take(k as int));
        assert(q.last() == t@);
        let ghost ob = track_views(out@);
        let ghost sb = track_views(spare@);
        let key = track_key(t);
        if seen_uri.insert(t.uri.clone()) {
            if seen_key.insert(key.clone()) {
                let canon = canonical_title(t.title.as_str());
                let fresh_canon = if canon.as_str().is_empty() {
                    true
                } else {
                    seen_canon.insert(canon)
                };
                if fresh_canon {
                    let excluded = contains_string(exclude_keys, key.as_str());
                    let artist = t.first_artist_name();
                    let akey = normalise_text(artist.as_str());
                    let c: usize = match counts.get(akey.as_str()) {
                        Some(v) => *v,
                        None => 0,
                    };
                    assert(c == track_artist_count(ob, akey@));
                    if excluded || c >= SHELF_ARTIST_CAP {
                        spare.push(t.duplicate());
                        assert(track_views(spare@) =~= sb.push(t@));
                    } else {
                        let ghost kv = akey@;
                        let ghost old_counts = counts@;
                        counts.insert(akey, c + 1);
                        out.push(t.duplicate());
                        assert(track_views(out@) =~= ob.push(t@));
                        assert forall|a: Seq<char>| count_of(counts@, a) == #[trigger] track_artist_count(
                            track_views(out@),
                            a,
                        ) by {
                            lemma_track_count_push(ob, t@, a);
                            if a != kv {
                                assert(count_of(counts@, a) == count_of(old_counts, a));
                            }
                        }
                    }
                }
            }
        }
        k = k + 1;
    }
    proof {
        if k < feed@.len() {
            lemma_done_stays(s, excl, limit as nat, k as int, s.len() as int);
        }
        assert(s.take(s.len() as int) =~= s);
    }
    let ghost kept = track_views(out@);
    let ghost sp = track_views(spare@);
    let mut j: usize = 0;
    while j < spare.len() && out.len() < limit
        invariant
            j <= spare@.len(),
            sp == track_views(spare@),
            kept.len() + j <= limit || j == 0,
            track_views(out@) == kept + sp.take(j as int),
        decreases spare@.len() - j,
    {
        let ghost before = track_views(out@);
        out.push(spare[j].duplicate());
        assert(track_views(out@) =~= before.push(spare@[j as int]@));
        assert(sp.take(j + 1) =~= sp.take(j as int).push(spare@[j as int]@));
        assert(kept + sp.take(j + 1) =~= (kept + sp.take(j as int)).push(spare@[j as int]@));
        j = j + 1;
    }
    proof {
        if kept.len() < limit {
            if j < sp.len() {
                assert(j == limit - kept.len());
            } else {
                assert(sp.take(j as int) =~= sp);
            }
        } else {
            assert(j == 0);
            assert(sp.take(0) =~= Seq::<TrackView>::empty());
            assert(track_views(out@) =~= kept);
        }
    }
    Ok(out)
}


/// The builder keeps at most the limit (one when the limit is zero).
proof fn lemma_fold_out_bounded(s: Seq<TrackView>, excl: Seq<Seq<char>>, limit: nat)
    ensures
        agg_fold(s, excl, limit).out.len() <= if limit >= 1 { limit } else { 1 },
    decreases s.len(),
{
    if s.len() > 0 {
        lemma_fold_out_bounded(s.drop_last(), excl, limit);
    }
}

/// Every track the builder kept or set aside was seen, and none twice.
proof fn lemma_fold_distinct(s: Seq<TrackView>, excl: Seq<Seq<char>>, limit: nat)
    ensures
        ({
            let st = agg_fold(s, excl, limit);
            let all = st.out + st.spare;
            &&& forall|i: int| 0 <= i < all.len() ==> st.uris.contains(#[trigger] all[i].uri)
            &&& forall|i: int, j: int| 0 <= i < j < all.len() ==> (#[trigger] all[i]).uri != (#[trigger] all[j]).uri
        }),
    decreases s.len(),
{
    if s.len() > 0 {
        lemma_fold_distinct(s.drop_last(), excl, limit);
        let p = agg_fold(s.drop_last(), excl, limit);
        let pa = p.out + p.spare;
        let st = agg_fold(s, excl, limit);
        let all = st.out + st.spare;
        let t = s.last();
        if !agg_done(p, limit) && !p.uris.contains(t.uri) && !p.keys.contains(track_key_spec(t)) {
            if st.out.len() > p.out.len() {
                assert forall|i: int| 0 <= i < all.len() implies #[trigger] all[i] == if i < p.out.len() {
                    pa[i]
                } else if i == p.out.len() {
                    t
                } else {
                    pa[i - 1]
                } by {}
            } else if st.spare.len() > p.spare.len() {
                assert forall|i: int| 0 <= i < all.len() implies #[trigger] all[i] == if i < pa.len() {
                    pa[i]
                } else {
                    t
                } by {}
            }
        }
    }
}

/// The "Made for you" row never runs past its limit, and never holds the
/// same track (by URI) twice.
pub proof fn law_made_for_you_row_is_bounded_and_distinct(
    pools: Seq<Seq<TrackView>>,
    excl: Seq<Seq<char>>,
    limit: nat,
)
    requires
        limit >= 1,
    ensures
        aggregate_row(pools, excl, limit).len() <= limit,
        forall|i: int, j: int|
            0 <= i < j < aggregate_row(pools, excl, limit).len() ==> (#[trigger] aggregate_row(pools, excl, limit)[i]).uri
                != (#[trigger] aggregate_row(pools, excl, limit)[j]).uri,
{
    let s = round_robin(pools);
    lemma_fold_out_bounded(s, excl, limit);
    lemma_fold_distinct(s, excl, limit);
    let st = agg_fold(s, excl, limit);
    let all = st.out + st.spare;
    let row = aggregate_row(pools, excl, limit);
    if st.out.len() < limit {
        let extra = first_n(st.spare, (limit - st.out.len()) as nat);
        assert forall|i: int| 0 <= i < row.len() implies #[trigger] row[i] == all[i] by {}
    } else {
        assert forall|i: int| 0 <= i < row.len() implies #[trigger] row[i] == all[i] by {}
    }
}

} // verus!
