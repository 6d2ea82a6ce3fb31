//! The ranking stage of a discovery run: SoundCloud's related feed is the
//! core, ListenBrainz and Last.fm neighbours support it. Candidates are
//! cleaned (no re-uploads or variants of the seed, one per dedupe key),
//! support hits are merged into the core candidates they agree with, and
//! the rest only fill a thin core. Scores are kept in thousandths.

use vstd::prelude::*;
use vstd::hash_set::StringHashSet;
use crate::discovery::{
    DiscoveryResult, DiscoveryResultView, SimilarToSeed, is_best_match, is_low_quality_variant,
    is_low_quality_variant_spec, is_seed_reupload, is_seed_reupload_spec, pick_best_match,
    result_views,
};
use crate::enrichment::{EnrichmentError, LastFmSimilar, LastFmSimilarView, similar_views};
use crate::normalize::{canonical_title, canonical_title_spec, dedupe_key, dedupe_key_spec};
use crate::text::{concat, str_eq, string_views};
use crate::track::{ProviderId, Track, TrackView, copy_opt_string, opt_view, track_views};
use crate::discovery::{copy_opt_track, opt_track_view};

verus! {

broadcast use vstd::string::group_string_axioms;

/// Below this many core candidates, support candidates fill the list.
pub const SC_CORE_MIN: usize = 12;

/// At most this many candidates are resolved, and results returned.
pub const MAX_DISCOVERY_RESULTS: usize = 30;

/// A candidate before provider resolution.
#[derive(Debug)]
pub struct Candidate {
    pub mbid: Option<String>,
    pub title: String,
    pub artist: String,
    /// In thousandths, `0..=1000`, after source-specific weighting.
    pub score_milli: u32,
    pub sources: Vec<String>,
    /// The exact SoundCloud related-track hit, when this came from there.
    pub soundcloud_track: Option<Track>,
    /// Position in its source's own ranking.
    pub source_rank: usize,
}

/// A candidate as mathematical values.
pub ghost struct CandidateView {
    pub mbid: Option<Seq<char>>,
    pub title: Seq<char>,
    pub artist: Seq<char>,
    pub score_milli: u32,
    pub sources: Seq<Seq<char>>,
    pub soundcloud_track: Option<TrackView>,
    pub source_rank: usize,
}

impl View for Candidate {
    type V = CandidateView;

    open spec fn view(&self) -> CandidateView {
        CandidateView {
            mbid: opt_view(self.mbid),
            title: self.title@,
            artist: self.artist@,
            score_milli: self.score_milli,
            sources: string_views(self.sources@),
            soundcloud_track: opt_track_view(self.soundcloud_track),
            source_rank: self.source_rank,
        }
    }
}

/// The views of a list of candidates.
pub open spec fn candidate_views(s: Seq<Candidate>) -> Seq<CandidateView> {
    s.map_values(|c: Candidate| c@)
}

/// The identity candidates are deduplicated on.
pub open spec fn cand_key(c: CandidateView) -> Seq<char> {
    dedupe_key_spec(c.artist, c.title)
}

/// Some candidate of the list has this key.
pub open spec fn has_key(s: Seq<CandidateView>, k: Seq<char>) -> bool {
    exists|j: int| 0 <= j < s.len() && cand_key(#[trigger] s[j]) == k
}

/// The cleaned list: candidates that are neither a re-upload of the seed
/// nor a low-quality variant of it, first of each key, in order.
pub open spec fn clean_spec(s: Seq<CandidateView>, seed_title: Seq<char>, seed_artist: Seq<char>) -> Seq<CandidateView>
    decreases s.len(),
{
    if s.len() == 0 {
        Seq::empty()
    } else {
        let p = clean_spec(s.drop_last(), seed_title, seed_artist);
        let c = s.last();
        if is_seed_reupload_spec(c.title, c.artist, seed_title, seed_artist)
            || is_low_quality_variant_spec(c.title, seed_title) || has_key(p, cand_key(c)) {
            p
        } else {
            p.push(c)
        }
    }
}

/// `a` followed by the sources of `b` it does not have yet, in order.
pub open spec fn union_sources(a: Seq<Seq<char>>, b: Seq<Seq<char>>) -> Seq<Seq<char>>
    decreases b.len(),
{
    if b.len() == 0 {
        a
    } else {
        let p = union_sources(a, b.drop_last());
        if p.contains(b.last()) {
            p
        } else {
            p.push(b.last())
        }
    }
}

/// `m` when present, else `fallback`.
pub open spec fn or_mbid(m: Option<Seq<char>>, fallback: Option<Seq<char>>) -> Option<Seq<char>> {
    if m is Some {
        m
    } else {
        fallback
    }
}

/// A support hit merged into a SoundCloud core candidate: the core keeps
/// its title, artist, rank and track; its score gains 50 (at most 1000);
/// a missing MBID is taken; the sources are united.
pub open spec fn merge_into_sc_spec(e: CandidateView, inc: CandidateView) -> CandidateView {
    CandidateView {
        score_milli: if e.score_milli + 50 > 1000 {
            1000
        } else {
            (e.score_milli + 50) as u32
        },
        mbid: or_mbid(e.mbid, inc.mbid),
        sources: union_sources(e.sources, inc.sources),
        ..e
    }
}

/// Two support hits merged: a core candidate takes it as above; otherwise
/// the better-scored one's title, artist, rank and track win, the score
/// gains 50 (capped at 680, support never outranks a strong core hit), a
/// missing MBID is taken and the sources are united.
pub open spec fn merge_candidate_spec(e: CandidateView, inc: CandidateView) -> CandidateView {
    if e.soundcloud_track is Some {
        merge_into_sc_spec(e, inc)
    } else {
        let w = if inc.score_milli > e.score_milli {
            CandidateView {
                score_milli: inc.score_milli,
                title: inc.title,
                artist: inc.artist,
                source_rank: inc.source_rank,
                soundcloud_track: inc.soundcloud_track,
                ..e
            }
        } else {
            e
        };
        CandidateView {
            score_milli: if w.score_milli + 50 > 680 {
                680
            } else {
                (w.score_milli + 50) as u32
            },
            mbid: or_mbid(w.mbid, inc.mbid),
            sources: union_sources(w.sources, inc.sources),
            ..w
        }
    }
}

/// The first index at or after `i` with this key.
pub open spec fn key_from(s: Seq<CandidateView>, k: Seq<char>, i: int) -> Option<int>
    decreases s.len() - i,
{
    if i < 0 || i >= s.len() {
        None
    } else if cand_key(s[i]) == k {
        Some(i)
    } else {
        key_from(s, k, i + 1)
    }
}

/// The first index with this key.
pub open spec fn key_index(s: Seq<CandidateView>, k: Seq<char>) -> Option<int> {
    key_from(s, k, 0)
}

/// Support candidates bucketed by key in first-seen order, each bucket the
/// merge of every candidate with its key.
pub open spec fn buckets(s: Seq<CandidateView>) -> Seq<CandidateView>
    decreases s.len(),
{
    if s.len() == 0 {
        Seq::empty()
    } else {
        let b = buckets(s.drop_last());
        let c = s.last();
        match key_index(b, cand_key(c)) {
            Some(i) => b.update(i, merge_candidate_spec(b[i], c)),
            None => b.push(c),
        }
    }
}

/// The support list: cleaned ListenBrainz candidates then cleaned Last.fm
/// ones, bucketed by key.
pub open spec fn support_spec(
    lb: Seq<CandidateView>,
    lastfm: Seq<CandidateView>,
    seed_title: Seq<char>,
    seed_artist: Seq<char>,
) -> Seq<CandidateView> {
    buckets(clean_spec(lb, seed_title, seed_artist) + clean_spec(lastfm, seed_title, seed_artist))
}

/// Core candidates, each merged with (and taking out of the support list)
/// the support bucket of its key; what support is left.
pub open spec fn absorb(core: Seq<CandidateView>, support: Seq<CandidateView>) -> (Seq<CandidateView>, Seq<CandidateView>)
    decreases core.len(),
{
    if core.len() == 0 {
        (Seq::empty(), support)
    } else {
        let prev = absorb(core.drop_last(), support);
        let c = core.last();
        match key_index(prev.1, cand_key(c)) {
            Some(i) => (prev.0.push(merge_into_sc_spec(c, prev.1[i])), prev.1.remove(i)),
            None => (prev.0.push(c), prev.1),
        }
    }
}

/// `a` ranks strictly before `b`: a higher score, or an equal score and an
/// earlier source rank.
pub open spec fn ranks_before(a: CandidateView, b: CandidateView) -> bool {
    a.score_milli > b.score_milli || (a.score_milli == b.score_milli && a.source_rank < b.source_rank)
}

/// The first index at or after `i` that `x` ranks strictly before.
pub open spec fn insert_from(s: Seq<CandidateView>, x: CandidateView, i: int) -> int
    decreases s.len() - i,
{
    if i < 0 || i >= s.len() {
        s.len() as int
    } else if ranks_before(x, s[i]) {
        i
    } else {
        insert_from(s, x, i + 1)
    }
}

/// The stable sort by rank: each candidate, in order, goes in front of the
/// first already-sorted one it ranks strictly before.
pub open spec fn rank_sorted(s: Seq<CandidateView>) -> Seq<CandidateView>
    decreases s.len(),
{
    if s.len() == 0 {
        Seq::empty()
    } else {
        let t = rank_sorted(s.drop_last());
        t.insert(insert_from(t, s.last(), 0), s.last())
    }
}

/// Fill a thin candidate list from the fallback, in order, skipping keys
/// already present, up to the result limit.
pub open spec fn fill(c: Seq<CandidateView>, fb: Seq<CandidateView>) -> Seq<CandidateView>
    decreases fb.len(),
{
    if fb.len() == 0 {
        c
    } else {
        let p = fill(c, fb.drop_last());
        let x = fb.last();
        if p.len() >= MAX_DISCOVERY_RESULTS || has_key(p, cand_key(x)) {
            p
        } else {
            p.push(x)
        }
    }
}

/// Why a discovery run found nothing.
#[derive(Debug)]
pub enum DiscoveryError {
    SeedUnresolved,
    EmptyNeighbourhood,
    Enrichment(EnrichmentError),
    Provider(String),
}

/// The candidates a run resolves: the cleaned core merged with its
/// support, ranked; when fewer than the core minimum, the remaining
/// support, ranked, fills in; at most the result limit; none at all is an
/// empty neighbourhood.
pub open spec fn plan_spec(
    sc: Seq<CandidateView>,
    lb: Seq<CandidateView>,
    lastfm: Seq<CandidateView>,
    seed_title: Seq<char>,
    seed_artist: Seq<char>,
) -> Seq<CandidateView> {
    let core = clean_spec(sc, seed_title, seed_artist);
    let split = absorb(core, support_spec(lb, lastfm, seed_title, seed_artist));
    let ranked = rank_sorted(split.0);
    let all = if ranked.len() < SC_CORE_MIN {
        fill(ranked, rank_sorted(split.1))
    } else {
        ranked
    };
    if all.len() <= MAX_DISCOVERY_RESULTS {
        all
    } else {
        all.take(MAX_DISCOVERY_RESULTS as int)
    }
}

impl Candidate {
    /// A field-for-field copy.
    pub fn duplicate(&self) -> (r: Candidate)
        ensures
            r@ == self@,
    {
        Candidate {
            mbid: copy_opt_string(&self.mbid),
            title: self.title.clone(),
            artist: self.artist.clone(),
            score_milli: self.score_milli,
            sources: copy_strings(&self.sources),
            soundcloud_track: copy_opt_track(&self.soundcloud_track),
            source_rank: self.source_rank,
        }
    }
}

/// A copy of a list of strings.
pub fn copy_strings(v: &Vec<String>) -> (r: Vec<String>)
    ensures
        string_views(r@) == string_views(v@),
{
    let mut r: Vec<String> = Vec::new();
    let mut i: usize = 0;
    while i < v.len()
        invariant
            i <= v@.len(),
            string_views(r@) == string_views(v@).take(i as int),
        decreases v@.len() - i,
    {
        let ghost before = string_views(r@);
        r.push(v[i].clone());
        assert(string_views(r@) =~= before.push(v@[i as int]@));
        assert(string_views(v@).take(i + 1) =~= string_views(v@).take(i as int).push(v@[i as int]@));
        i = i + 1;
    }
    assert(string_views(v@).take(v@.len() as int) =~= string_views(v@));
    r
}

fn contains_str(v: &Vec<String>, s: &str) -> (r: bool)
    ensures
        r == string_views(v@).contains(s@),
{
    crate::text::contains_string(v, s)
}

/// Add the sources of `b` that `a` does not have yet.
fn unite_sources(a: &mut Vec<String>, b: &Vec<String>)
    ensures
        string_views(final(a)@) == union_sources(string_views(old(a)@), string_views(b@)),
{
    let ghost a0 = string_views(a@);
    let ghost bv = string_views(b@);
    let mut i: usize = 0;
    while i < b.len()
        invariant
            i <= b@.len(),
            bv == string_views(b@),
            string_views(a@) == union_sources(a0, bv.take(i as int)),
        decreases b@.len() - i,
    {
        assert(bv.take(i + 1).drop_last() =~= bv.take(i as int));
        assert(bv.take(i + 1).last() == b@[i as int]@);
        if !contains_str(a, b[i].as_str()) {
            let ghost before = string_views(a@);
            a.push(b[i].clone());
            assert(string_views(a@) =~= before.push(b@[i as int]@));
        }
        i = i + 1;
    }
    assert(bv.take(b@.len() as int) =~= bv);
}

/// Merge a support hit into a SoundCloud core candidate.
pub fn merge_support_into_sc(existing: &mut Candidate, incoming: &Candidate)
    ensures
        final(existing)@ == merge_into_sc_spec(old(existing)@, incoming@),
{
    existing.score_milli = if existing.score_milli > 950 {
        1000
    } else {
        existing.score_milli + 50
    };
    if existing.mbid.is_none() {
        existing.mbid = copy_opt_string(&incoming.mbid);
    }
    unite_sources(&mut existing.sources, &incoming.sources);
}

/// Merge two candidates with the same key (see [`merge_candidate_spec`]).
pub fn merge_candidate(existing: &mut Candidate, incoming: &Candidate)
    ensures
        final(existing)@ == merge_candidate_spec(old(existing)@, incoming@),
{
    if existing.soundcloud_track.is_some() {
        merge_support_into_sc(existing, incoming);
        return;
    }
    if incoming.score_milli > existing.score_milli {
        existing.score_milli = incoming.score_milli;
        existing.title = incoming.title.clone();
        existing.artist = incoming.artist.clone();
        existing.source_rank = incoming.source_rank;
        existing.soundcloud_track = copy_opt_track(&incoming.soundcloud_track);
    }
    existing.score_milli = if existing.score_milli > 630 {
        680
    } else {
        existing.score_milli + 50
    };
    if existing.mbid.is_none() {
        existing.mbid = copy_opt_string(&incoming.mbid);
    }
    unite_sources(&mut existing.sources, &incoming.sources);
}

fn candidate_key(c: &Candidate) -> (r: String)
    ensures
        r@ == cand_key(c@),
{
    dedupe_key(c.artist.as_str(), c.title.as_str())
}

/// Drop re-uploads and low-quality variants of the seed, and repeats by
/// dedupe key.
pub fn clean_candidates(candidates: Vec<Candidate>, seed: &SimilarToSeed) -> (r: Vec<Candidate>)
    ensures
        candidate_views(r@) == clean_spec(candidate_views(candidates@), seed.title@, seed.artist@),
{
    let ghost s = candidate_views(candidates@);
    let mut seen = StringHashSet::new();
    let mut out: Vec<Candidate> = Vec::new();
    let mut i: usize = 0;
    while i < candidates.len()
        invariant
            i <= candidates@.len(),
            s == candidate_views(candidates@),
            candidate_views(out@) == clean_spec(s.take(i as int), seed.title@, seed.artist@),
            forall|k: Seq<char>| #[trigger] seen@.contains(k) <==> has_key(candidate_views(out@), k),
        decreases candidates@.len() - i,
    {
        let c = &candidates[i];
        let ghost q = s.take(i + 1);
        assert(q.drop_last() =~= s.take(i as int));
        assert(q.last() == c@);
        if !is_seed_reupload(c.title.as_str(), c.artist.as_str(), seed) && !is_low_quality_variant(
            c.title.as_str(),
            seed,
        ) {
            let key = candidate_key(c);
            let ghost kv = key@;
            let fresh = seen.insert(key);
            if fresh {
                let ghost before = candidate_views(out@);
                out.push(c.duplicate());
                assert(candidate_views(out@) =~= before.push(c@));
                assert forall|k: Seq<char>| #[trigger] seen@.contains(k) <==> has_key(
                    candidate_views(out@),
                    k,
                ) by {
                    let now = candidate_views(out@);
                    if has_key(now, k) {
                        let j = choose|j: int| 0 <= j < now.len() && cand_key(#[trigger] now[j]) == k;
                        if j < before.len() {
                            assert(now[j] == before[j]);
                        }
                    }
                    if has_key(before, k) {
                        let j = choose|j: int| 0 <= j < before.len() && cand_key(#[trigger] before[j]) == k;
                        assert(now[j] == before[j]);
                    }
                    if k == kv {
                        assert(now[before.len() as int] == c@);
                    }
                }
            }
        }
        i = i + 1;
    }
    assert(s.take(candidates@.len() as int) =~= s);
    out
}

/// The index of the first candidate with this key.
fn find_key(v: &Vec<Candidate>, k: &str) -> (r: Option<usize>)
    ensures
        r matches Some(i) ==> key_index(candidate_views(v@), k@) == Some(i as int) && i < v@.len(),
        r is None ==> key_index(candidate_views(v@), k@) is None,
{
    let ghost s = candidate_views(v@);
    let mut i: usize = 0;
    while i < v.len()
        invariant
            i <= v@.len(),
            s == candidate_views(v@),
            key_index(s, k@) == key_from(s, k@, i as int),
        decreases v@.len() - i,
    {
        let key = candidate_key(&v[i]);
        if str_eq(key.as_str(), k) {
            return Some(i);
        }
        i = i + 1;
    }
    None
}

/// Merge `c` into the bucket of its key, or open a new bucket.
fn add_to_buckets(b: &mut Vec<Candidate>, c: &Candidate)
    ensures
        candidate_views(final(b)@) == match key_index(candidate_views(old(b)@), cand_key(c@)) {
            Some(i) => candidate_views(old(b)@).update(i, merge_candidate_spec(candidate_views(old(b)@)[i], c@)),
            None => candidate_views(old(b)@).push(c@),
        },
{
    let key = candidate_key(c);
    let ghost before = candidate_views(b@);
    match find_key(b, key.as_str()) {
        Some(i) => {
            let mut e = b[i].duplicate();
            merge_candidate(&mut e, c);
            b.set(i, e);
            assert(candidate_views(b@) =~= before.update(i as int, merge_candidate_spec(before[i as int], c@)));
        },
        None => {
            b.push(c.duplicate());
            assert(candidate_views(b@) =~= before.push(c@));
        },
    }
}

/// Cleaned ListenBrainz and Last.fm candidates, bucketed by key.
pub fn support_candidates(lb: Vec<Candidate>, lastfm: Vec<Candidate>, seed: &SimilarToSeed) -> (r: Vec<Candidate>)
    ensures
        candidate_views(r@) == support_spec(
            candidate_views(lb@),
            candidate_views(lastfm@),
            seed.title@,
            seed.artist@,
        ),
{
    let a = clean_candidates(lb, seed);
    let b = clean_candidates(lastfm, seed);
    let ghost all = candidate_views(a@) + candidate_views(b@);
    let mut out: Vec<Candidate> = Vec::new();
    let mut i: usize = 0;
    while i < a.len()
        invariant
            i <= a@.len(),
            all == candidate_views(a@) + candidate_views(b@),
            candidate_views(out@) == buckets(all.take(i as int)),
        decreases a@.len() - i,
    {
        assert(all.take(i + 1).drop_last() =~= all.take(i as int));
        assert(all.take(i + 1).last() == a@[i as int]@);
        add_to_buckets(&mut out, &a[i]);
        i = i + 1;
    }
    let mut j: usize = 0;
    while j < b.len()
        invariant
            j <= b@.len(),
            all == candidate_views(a@) + candidate_views(b@),
            candidate_views(out@) == buckets(all.take(a@.len() + j)),
        decreases b@.len() - j,
    {
        assert(all.take(a@.len() + j + 1).drop_last() =~= all.take(a@.len() + j));
        assert(all.take(a@.len() + j + 1).last() == b@[j as int]@);
        add_to_buckets(&mut out, &b[j]);
        j = j + 1;
    }
    assert(all.take((a@.len() + b@.len()) as int) =~= all);
    out
}

/// Where `x` goes in a rank-sorted list.
fn insert_index(v: &Vec<Candidate>, x: &Candidate) -> (r: usize)
    ensures
        r == insert_from(candidate_views(v@), x@, 0),
        r <= v@.len(),
{
    let ghost s = candidate_views(v@);
    let mut i: usize = 0;
    while i < v.len()
        invariant
            i <= v@.len(),
            s == candidate_views(v@),
            insert_from(s, x@, 0) == insert_from(s, x@, i as int),
        decreases v@.len() - i,
    {
        let e = &v[i];
        if x.score_milli > e.score_milli || (x.score_milli == e.score_milli && x.source_rank < e.source_rank) {
            return i;
        }
        i = i + 1;
    }
    i
}

/// Sort by score, highest first, then by source rank, keeping the input
/// order of equal candidates.
pub fn sort_candidates(candidates: Vec<Candidate>) -> (r: Vec<Candidate>)
    ensures
        candidate_views(r@) == rank_sorted(candidate_views(candidates@)),
{
    let ghost s = candidate_views(candidates@);
    let mut out: Vec<Candidate> = Vec::new();
    let mut i: usize = 0;
    while i < candidates.len()
        invariant
            i <= candidates@.len(),
            s == candidate_views(candidates@),
            candidate_views(out@) == rank_sorted(s.take(i as int)),
        decreases candidates@.len() - i,
    {
        let ghost q = s.take(i + 1);
        assert(q.drop_last() =~= s.take(i as int));
        assert(q.last() == candidates@[i as int]@);
        let p = insert_index(&out, &candidates[i]);
        let ghost before = candidate_views(out@);
        out.insert(p, candidates[i].duplicate());
        assert(candidate_views(out@) =~= before.insert(p as int, candidates@[i as int]@));
        i = i + 1;
    }
    assert(s.take(candidates@.len() as int) =~= s);
    out
}

/// The score of the related track at `i` of `n`: SoundCloud's own order
/// dominates, decaying linearly from 1000 to 620.
pub open spec fn sc_score(i: int, n: int) -> int {
    1000 - (380 * i) / (if n < 1 { 1 } else { n })
}

/// The candidate for the SoundCloud related track `t` at `i` of `n`.
pub open spec fn sc_candidate(t: TrackView, i: int, n: int) -> CandidateView {
    CandidateView {
        mbid: None,
        title: t.title,
        artist: t.first_artist(),
        score_milli: sc_score(i, n) as u32,
        sources: seq!["SoundCloud"@],
        soundcloud_track: Some(t),
        source_rank: i as usize,
    }
}

/// The candidate for the Last.fm neighbour `s` at `i`: its match weighted
/// to at most 600.
pub open spec fn lastfm_candidate(s: LastFmSimilarView, i: int) -> CandidateView {
    CandidateView {
        mbid: None,
        title: s.title,
        artist: s.artist,
        score_milli: (if s.score_milli <= 1000 { s.score_milli * 3 / 5 } else { 600 }) as u32,
        sources: seq!["Last.fm"@],
        soundcloud_track: None,
        source_rank: i as usize,
    }
}

/// The core candidates from SoundCloud's related feed, in its order.
pub fn sc_candidates_from(related: Vec<Track>) -> (r: Vec<Candidate>)
    ensures
        candidate_views(r@) == Seq::new(
            related@.len(),
            |i: int| sc_candidate(related@[i]@, i, related@.len() as int),
        ),
{
    let n = related.len();
    let len: usize = if n < 1 { 1 } else { n };
    let mut out: Vec<Candidate> = Vec::new();
    let mut i: usize = 0;
    while i < n
        invariant
            i <= n,
            n == related@.len(),
            len == (if n < 1 { 1 } else { n }),
            out@.len() == i,
            forall|j: int| 0 <= j < i ==> (#[trigger] out@[j])@ == sc_candidate(related@[j]@, j, n as int),
        decreases n - i,
    {
        let t = &related[i];
        let wide: u128 = (380 * (i as u128)) / (len as u128);
        assert(wide <= 380) by (nonlinear_arith)
            requires
                wide as int == (380 * i as int) / (len as int),
                i < len,
                len >= 1,
        ;
        let drop: u32 = wide as u32;
        let mut sources: Vec<String> = Vec::new();
        sources.push(String::from_str("SoundCloud"));
        let c = Candidate {
            mbid: None,
            title: t.title.clone(),
            artist: t.first_artist_name(),
            score_milli: 1000 - drop,
            sources,
            soundcloud_track: Some(t.duplicate()),
            source_rank: i,
        };
        proof {
            reveal_strlit("SoundCloud");
            assert(c@.sources =~= seq!["SoundCloud"@]);
        }
        out.push(c);
        i = i + 1;
    }
    assert(candidate_views(out@) =~= Seq::new(n as nat, |i: int| sc_candidate(related@[i]@, i, n as int)));
    out
}

/// The support candidates from Last.fm's neighbours, in its order.
pub fn lastfm_candidates_from(similar: Vec<LastFmSimilar>) -> (r: Vec<Candidate>)
    ensures
        candidate_views(r@) == Seq::new(
            similar@.len(),
            |i: int| lastfm_candidate(similar@[i]@, i),
        ),
{
    let n = similar.len();
    let mut out: Vec<Candidate> = Vec::new();
    let mut i: usize = 0;
    while i < n
        invariant
            i <= n,
            n == similar@.len(),
            out@.len() == i,
            forall|j: int| 0 <= j < i ==> (#[trigger] out@[j])@ == lastfm_candidate(similar@[j]@, j),
        decreases n - i,
    {
        let s = &similar[i];
        let score: u32 = if s.score_milli <= 1000 { s.score_milli * 3 / 5 } else { 600 };
        let mut sources: Vec<String> = Vec::new();
        sources.push(String::from_str("Last.fm"));
        let c = Candidate {
            mbid: None,
            title: s.title.clone(),
            artist: s.artist.clone(),
            score_milli: score,
            sources,
            soundcloud_track: None,
            source_rank: i,
        };
        proof {
            reveal_strlit("Last.fm");
            assert(c@.sources =~= seq!["Last.fm"@]);
        }
        out.push(c);
        i = i + 1;
    }
    assert(candidate_views(out@) =~= Seq::new(n as nat, |i: int| lastfm_candidate(similar@[i]@, i)));
    out
}

/// The candidates a discovery run resolves, ranked; an empty neighbourhood
/// when there are none.
pub fn plan_candidates(
    sc: Vec<Candidate>,
    lb: Vec<Candidate>,
    lastfm: Vec<Candidate>,
    seed: &SimilarToSeed,
) -> (r: Result<Vec<Candidate>, DiscoveryError>)
    ensures
        ({
            let plan = plan_spec(
                candidate_views(sc@),
                candidate_views(lb@),
                candidate_views(lastfm@),
                seed.title@,
                seed.artist@,
            );
            match r {
                Ok(v) => plan.len() > 0 && candidate_views(v@) == plan,
                Err(e) => plan.len() == 0 && e is EmptyNeighbourhood,
            }
        }),
{
    let core = clean_candidates(sc, seed);
    let mut support = support_candidates(lb, lastfm, seed);
    let ghost core_v = candidate_views(core@);
    let ghost sup0 = candidate_views(support@);
    let mut merged: Vec<Candidate> = Vec::new();
    let mut i: usize = 0;
    while i < core.len()
        invariant
            i <= core@.len(),
            core_v == candidate_views(core@),
            (candidate_views(merged@), candidate_views(support@)) == absorb(core_v.take(i as int), sup0),
        decreases core@.len() - i,
    {
        let ghost q = core_v.take(i + 1);
        assert(q.drop_last() =~= core_v.take(i as int));
        assert(q.last() == core@[i as int]@);
        let c = &core[i];
        let key = candidate_key(c);
        let ghost before = candidate_views(merged@);
        let ghost sup_before = candidate_views(support@);
        match find_key(&support, key.as_str()) {
            Some(j) => {
                let s = support.remove(j);
                let mut e = c.duplicate();
                merge_support_into_sc(&mut e, &s);
                merged.push(e);
                assert(candidate_views(merged@) =~= before.push(merge_into_sc_spec(c@, sup_before[j as int])));
                assert(candidate_views(support@) =~= sup_before.remove(j as int));
            },
            None => {
                merged.push(c.duplicate());
                assert(candidate_views(merged@) =~= before.push(c@));
            },
        }
        i = i + 1;
    }
    assert(core_v.take(core@.len() as int) =~= core_v);
    let mut cands = sort_candidates(merged);
    if cands.len() < SC_CORE_MIN {
        let fallback = sort_candidates(support);
        let ghost fb = candidate_views(fallback@);
        let ghost base = candidate_views(cands@);
        let mut k: usize = 0;
        while k < fallback.len()
            invariant
                k <= fallback@.len(),
                fb == candidate_views(fallback@),
                candidate_views(cands@) == fill(base, fb.take(k as int)),
            decreases fallback@.len() - k,
        {
            assert(fb.take(k + 1).drop_last() =~= fb.take(k as int));
            assert(fb.take(k + 1).last() == fallback@[k as int]@);
            if cands.len() < MAX_DISCOVERY_RESULTS {
                let key = candidate_key(&fallback[k]);
                if find_key(&cands, key.as_str()).is_none() {
                    let ghost before = candidate_views(cands@);
                    proof {
                        assert forall|j: int| 0 <= j < before.len() implies cand_key(#[trigger] before[j]) != key@ by {
                            lemma_key_from_none(before, key@, 0, j);
                        }
                    }
                    cands.push(fallback[k].duplicate());
                    assert(candidate_views(cands@) =~= before.push(fallback@[k as int]@));
                } else {
                    proof {
                        let before = candidate_views(cands@);
                        lemma_key_from_some(before, key@, 0);
                    }
                }
            }
            k = k + 1;
        }
        assert(fb.take(fallback@.len() as int) =~= fb);
    }
    let ghost all = candidate_views(cands@);
    cands.truncate(MAX_DISCOVERY_RESULTS);
    assert(all.len() <= MAX_DISCOVERY_RESULTS ==> candidate_views(cands@) =~= all);
    assert(all.len() > MAX_DISCOVERY_RESULTS ==> candidate_views(cands@) =~= all.take(MAX_DISCOVERY_RESULTS as int));
    if cands.len() == 0 {
        return Err(DiscoveryError::EmptyNeighbourhood);
    }
    Ok(cands)
}

proof fn lemma_key_from_none(s: Seq<CandidateView>, k: Seq<char>, i: int, j: int)
    requires
        0 <= i <= j < s.len(),
        key_from(s, k, i) is None,
    ensures
        cand_key(s[j]) != k,
    decreases j - i,
{
    if i < j {
        lemma_key_from_none(s, k, i + 1, j);
    }
}

proof fn lemma_key_from_some(s: Seq<CandidateView>, k: Seq<char>, i: int)
    requires
        0 <= i,
        key_from(s, k, i) is Some,
    ensures
        has_key(s, k),
    decreases s.len() - i,
{
    if i < s.len() && cand_key(s[i]) != k {
        lemma_key_from_some(s, k, i + 1);
    }
}

/// `a` ranks strictly before `b` by score alone.
pub open spec fn scores_above(a: DiscoveryResultView, b: DiscoveryResultView) -> bool {
    a.score_milli > b.score_milli
}

/// The first index at or after `i` whose score `x` beats.
pub open spec fn score_insert_from(s: Seq<DiscoveryResultView>, x: DiscoveryResultView, i: int) -> int
    decreases s.len() - i,
{
    if i < 0 || i >= s.len() {
        s.len() as int
    } else if scores_above(x, s[i]) {
        i
    } else {
        score_insert_from(s, x, i + 1)
    }
}

/// The stable sort by score, highest first.
pub open spec fn score_sorted(s: Seq<DiscoveryResultView>) -> Seq<DiscoveryResultView>
    decreases s.len(),
{
    if s.len() == 0 {
        Seq::empty()
    } else {
        let t = score_sorted(s.drop_last());
        t.insert(score_insert_from(t, s.last(), 0), s.last())
    }
}

/// Some result of the list has this canonical title.
pub open spec fn has_canon(s: Seq<DiscoveryResultView>, c: Seq<char>) -> bool {
    exists|j: int| 0 <= j < s.len() && canonical_title_spec((#[trigger] s[j]).title) == c
}

/// The first result of each canonical title, in order.
pub open spec fn first_per_title(s: Seq<DiscoveryResultView>) -> Seq<DiscoveryResultView>
    decreases s.len(),
{
    if s.len() == 0 {
        Seq::empty()
    } else {
        let p = first_per_title(s.drop_last());
        if has_canon(p, canonical_title_spec(s.last().title)) {
            p
        } else {
            p.push(s.last())
        }
    }
}

/// The results a run returns: sorted by score, the first of each canonical
/// title, at most the result limit.
pub open spec fn finish_spec(s: Seq<DiscoveryResultView>) -> Seq<DiscoveryResultView> {
    let d = first_per_title(score_sorted(s));
    if d.len() <= MAX_DISCOVERY_RESULTS {
        d
    } else {
        d.take(MAX_DISCOVERY_RESULTS as int)
    }
}

fn score_insert_index(v: &Vec<DiscoveryResult>, x: &DiscoveryResult) -> (r: usize)
    ensures
        r == score_insert_from(result_views(v@), x@, 0),
        r <= v@.len(),
{
    let ghost s = result_views(v@);
    let mut i: usize = 0;
    while i < v.len()
        invariant
            i <= v@.len(),
            s == result_views(v@),
            score_insert_from(s, x@, 0) == score_insert_from(s, x@, i as int),
        decreases v@.len() - i,
    {
        if x.score_milli > v[i].score_milli {
            return i;
        }
        i = i + 1;
    }
    i
}

/// Order resolved results, drop repeats of a song and cap the list; an
/// empty list is an empty neighbourhood.
pub fn finish_results(results: Vec<DiscoveryResult>) -> (r: Result<Vec<DiscoveryResult>, DiscoveryError>)
    ensures
        match r {
            Ok(v) => finish_spec(result_views(results@)).len() > 0 && result_views(v@) == finish_spec(
                result_views(results@),
            ),
            Err(e) => finish_spec(result_views(results@)).len() == 0 && e is EmptyNeighbourhood,
        },
{
    let ghost s = result_views(results@);
    let mut sorted: Vec<DiscoveryResult> = Vec::new();
    let mut i: usize = 0;
    while i < results.len()
        invariant
            i <= results@.len(),
            s == result_views(results@),
            result_views(sorted@) == score_sorted(s.take(i as int)),
        decreases results@.len() - i,
    {
        let ghost q = s.take(i + 1);
        assert(q.drop_last() =~= s.take(i as int));
        assert(q.last() == results@[i as int]@);
        let p = score_insert_index(&sorted, &results[i]);
        let ghost before = result_views(sorted@);
        sorted.insert(p, results[i].duplicate());
        assert(result_views(sorted@) =~= before.insert(p as int, results@[i as int]@));
        i = i + 1;
    }
    assert(s.take(results@.len() as int) =~= s);
    let ghost ss = result_views(sorted@);
    let mut seen = StringHashSet::new();
    let mut out: Vec<DiscoveryResult> = Vec::new();
    let mut j: usize = 0;
    while j < sorted.len()
        invariant
            j <= sorted@.len(),
            ss == result_views(sorted@),
            result_views(out@) == first_per_title(ss.take(j as int)),
            forall|c: Seq<char>| #[trigger] seen@.contains(c) <==> has_canon(result_views(out@), c),
        decreases sorted@.len() - j,
    {
        let ghost q = ss.take(j + 1);
        assert(q.drop_last() =~= ss.take(j as int));
        assert(q.last() == sorted@[j as int]@);
        let canon = canonical_title(sorted[j].title.as_str());
        let ghost cv = canon@;
        let fresh = seen.insert(canon);
        if fresh {
            let ghost before = result_views(out@);
            out.push(sorted[j].duplicate());
            assert(result_views(out@) =~= before.push(sorted@[j as int]@));
            assert forall|c: Seq<char>| #[trigger] seen@.contains(c) <==> has_canon(result_views(out@), c) by {
                let now = result_views(out@);
                if has_canon(now, c) {
                    let m = choose|m: int| 0 <= m < now.len() && canonical_title_spec((#[trigger] now[m]).title) == c;
                    if m < before.len() {
                        assert(now[m] == before[m]);
                    }
                }
                if has_canon(before, c) {
                    let m = choose|m: int| 0 <= m < before.len() && canonical_title_spec((#[trigger] before[m]).title) == c;
                    assert(now[m] == before[m]);
                }
                if c == cv {
                    assert(now[before.len() as int] == sorted@[j as int]@);
                }
            }
        }
        j = j + 1;
    }
    assert(ss.take(sorted@.len() as int) =~= ss);
    let ghost all = result_views(out@);
    out.truncate(MAX_DISCOVERY_RESULTS);
    assert(all.len() <= MAX_DISCOVERY_RESULTS ==> result_views(out@) =~= all);
    assert(all.len() > MAX_DISCOVERY_RESULTS ==> result_views(out@) =~= all.take(MAX_DISCOVERY_RESULTS as int));
    if out.len() == 0 {
        return Err(DiscoveryError::EmptyNeighbourhood);
    }
    Ok(out)
}

/// Sources joined by " + ".
pub open spec fn joined_sources(a: Seq<Seq<char>>) -> Seq<char>
    decreases a.len(),
{
    if a.len() == 0 {
        Seq::empty()
    } else if a.len() == 1 {
        a[0]
    } else {
        joined_sources(a.drop_last()) + " + "@ + a.last()
    }
}

/// A score in thousandths shown with two decimals, halves rounded up.
pub open spec fn score_text(milli: u32) -> Seq<char> {
    let h = (milli as nat + 5) / 10;
    crate::config::decimal(h / 100) + "."@ + crate::config::decimal((h % 100) / 10)
        + crate::config::decimal(h % 10)
}

/// Why a result was picked: its sources and its score.
pub open spec fn rationale_spec(c: CandidateView) -> Seq<char> {
    joined_sources(c.sources) + " · score "@ + score_text(c.score_milli)
}

fn join_sources(v: &Vec<String>) -> (r: String)
    ensures
        r@ == joined_sources(string_views(v@)),
{
    let ghost a = string_views(v@);
    let mut out = String::new();
    let mut i: usize = 0;
    while i < v.len()
        invariant
            i <= v@.len(),
            a == string_views(v@),
            out@ == joined_sources(a.take(i as int)),
        decreases v@.len() - i,
    {
        let ghost q = a.take(i + 1);
        assert(q.drop_last() =~= a.take(i as int));
        assert(q.last() == v@[i as int]@);
        if i == 0 {
            out = concat(out.as_str(), v[i].as_str());
            assert(out@ =~= q[0]);
        } else {
            let sep = concat(out.as_str(), " + ");
            out = concat(sep.as_str(), v[i].as_str());
        }
        i = i + 1;
    }
    assert(a.take(v@.len() as int) =~= a);
    out
}

/// "<sources> · score <s.ss>".
pub fn rationale(c: &Candidate) -> (r: String)
    ensures
        r@ == rationale_spec(c@),
{
    let h: u64 = (c.score_milli as u64 + 5) / 10;
    let whole = crate::config::to_decimal(h / 100);
    let tens = crate::config::to_decimal((h % 100) / 10);
    let ones = crate::config::to_decimal(h % 10);
    let srcs = join_sources(&c.sources);
    let a = concat(srcs.as_str(), " · score ");
    let b = concat(a.as_str(), whole.as_str());
    let d = concat(b.as_str(), ".");
    let e = concat(d.as_str(), tens.as_str());
    concat(e.as_str(), ones.as_str())
}

/// The first hit at or after `i` that really is the wanted track.
pub open spec fn first_best_from(hits: Seq<TrackView>, artist: Seq<char>, title: Seq<char>, i: int) -> Option<TrackView>
    decreases hits.len() - i,
{
    if i < 0 || i >= hits.len() {
        None
    } else if is_best_match(hits[i], artist, title) {
        Some(hits[i])
    } else {
        first_best_from(hits, artist, title, i + 1)
    }
}

/// The first hit that really is the wanted track.
pub open spec fn first_best(hits: Seq<TrackView>, artist: Seq<char>, title: Seq<char>) -> Option<TrackView> {
    first_best_from(hits, artist, title, 0)
}

proof fn lemma_first_best(hits: Seq<TrackView>, artist: Seq<char>, title: Seq<char>, k: int, i: int)
    requires
        0 <= k <= i <= hits.len(),
        forall|j: int| 0 <= j < i ==> !is_best_match(#[trigger] hits[j], artist, title),
        i < hits.len() ==> is_best_match(hits[i], artist, title),
    ensures
        first_best_from(hits, artist, title, k) == if i < hits.len() { Some(hits[i]) } else { None },
    decreases i - k,
{
    if k < i {
        lemma_first_best(hits, artist, title, k + 1, i);
    }
}

/// What a candidate is searched for on a provider: "artist title".
pub fn candidate_query(c: &Candidate) -> (r: String)
    ensures
        r@ == c@.artist + " "@ + c@.title,
{
    let a = concat(c.artist.as_str(), " ");
    concat(a.as_str(), c.title.as_str())
}

/// Whether a provider is searched for a candidate: every provider, except
/// SoundCloud when the candidate already came with its SoundCloud track.
pub fn searches_for_candidate(c: &Candidate, provider: ProviderId) -> (r: bool)
    ensures
        r == !(c@.soundcloud_track is Some && provider == ProviderId::SoundCloud),
{
    !(c.soundcloud_track.is_some() && provider == ProviderId::SoundCloud)
}

/// Where a candidate plays, as the provider searches come back.
#[derive(Debug)]
pub struct Resolved {
    pub spotify: Option<Track>,
    pub soundcloud: Option<Track>,
}

impl Resolved {
    /// Before any search: the candidate's own SoundCloud track, if any.
    pub fn start(c: &Candidate) -> (r: Resolved)
        ensures
            r.spotify is None,
            opt_track_view(r.soundcloud) == c@.soundcloud_track,
    {
        Resolved { spotify: None, soundcloud: copy_opt_track(&c.soundcloud_track) }
    }

    /// A provider's hits came back: its first hit that really is the
    /// candidate becomes that provider's track; other providers are not
    /// played from here.
    pub fn record(&mut self, c: &Candidate, provider: ProviderId, hits: &Vec<Track>)
        ensures
            ({
                let best = first_best(track_views(hits@), c@.artist, c@.title);
                &&& opt_track_view(final(self).spotify) == if provider == ProviderId::Spotify && best is Some {
                    best
                } else {
                    opt_track_view(old(self).spotify)
                }
                &&& opt_track_view(final(self).soundcloud) == if provider == ProviderId::SoundCloud && best is Some {
                    best
                } else {
                    opt_track_view(old(self).soundcloud)
                }
            }),
    {
        let top = pick_best_match(hits, c.artist.as_str(), c.title.as_str());
        proof {
            let hv = track_views(hits@);
            if top is Some {
                let tv = top->0@;
                let i = choose|i: int|
                    0 <= i < hits@.len() && hits@[i]@ == tv && is_best_match(hits@[i]@, c@.artist, c@.title)
                        && forall|j: int| 0 <= j < i ==> !is_best_match(#[trigger] hits@[j]@, c@.artist, c@.title);
                lemma_first_best(hv, c@.artist, c@.title, 0, i);
            } else {
                lemma_first_best(hv, c@.artist, c@.title, 0, hv.len() as int);
            }
        }
        match top {
            Some(t) => match provider {
                ProviderId::Spotify => {
                    self.spotify = Some(t);
                },
                ProviderId::SoundCloud => {
                    self.soundcloud = Some(t);
                },
                _ => {},
            },
            None => {},
        }
    }
}

/// A result for a resolved candidate: none when neither provider has it;
/// the SoundCloud cover, else the Spotify one; the candidate's MBID, title,
/// artist and score; why it was picked.
pub fn result_from(c: &Candidate, spotify: Option<Track>, soundcloud: Option<Track>) -> (r: Option<DiscoveryResult>)
    ensures
        (spotify is None && soundcloud is None) <==> r is None,
        r matches Some(d) ==> {
            &&& d@.mbid == c@.mbid
            &&& d@.title == c@.title
            &&& d@.artist == c@.artist
            &&& d@.score_milli == c@.score_milli
            &&& d@.spotify == opt_track_view(spotify)
            &&& d@.soundcloud == opt_track_view(soundcloud)
            &&& d@.cover_url == match soundcloud {
                Some(t) if t@.cover_url is Some => t@.cover_url,
                _ => match spotify {
                    Some(t) => t@.cover_url,
                    None => None,
                },
            }
            &&& d@.rationale == rationale_spec(c@)
        },
{
    if spotify.is_none() && soundcloud.is_none() {
        return None;
    }
    let sc_cover = match &soundcloud {
        Some(t) => copy_opt_string(&t.cover_url),
        None => None,
    };
    let cover_url = if sc_cover.is_some() {
        sc_cover
    } else {
        match &spotify {
            Some(t) => copy_opt_string(&t.cover_url),
            None => None,
        }
    };
    Some(
        DiscoveryResult {
            mbid: copy_opt_string(&c.mbid),
            title: c.title.clone(),
            artist: c.artist.clone(),
            cover_url,
            spotify,
            soundcloud,
            score_milli: c.score_milli,
            rationale: rationale(c),
        },
    )
}

impl DiscoveryError {
    /// The text the error reads as.
    pub open spec fn message_spec(&self) -> Seq<char> {
        match self {
            DiscoveryError::SeedUnresolved => "seed track could not be resolved on any provider"@,
            DiscoveryError::EmptyNeighbourhood => "no neighbours found for this track (yet)"@,
            DiscoveryError::Enrichment(e) => "enrichment: "@ + e.message_spec(),
            DiscoveryError::Provider(m) => "provider: "@ + m@,
        }
    }

    /// The text the error reads as.
    pub fn message(&self) -> (r: String)
        ensures
            r@ == self.message_spec(),
            self is SeedUnresolved ==> r@ == "seed track could not be resolved on any provider"@,
            self is EmptyNeighbourhood ==> r@ == "no neighbours found for this track (yet)"@,
            self matches DiscoveryError::Enrichment(e) ==> r@ == "enrichment: "@ + e.message_spec(),
            self matches DiscoveryError::Provider(m) ==> r@ == "provider: "@ + m@,
    {
        match self {
            DiscoveryError::SeedUnresolved => "seed track could not be resolved on any provider".to_string(),
            DiscoveryError::EmptyNeighbourhood => "no neighbours found for this track (yet)".to_string(),
            DiscoveryError::Enrichment(e) => concat("enrichment: ", e.message().as_str()),
            DiscoveryError::Provider(m) => concat("provider: ", m.as_str()),
        }
    }
}

/// What the SoundCloud search for a seed is asked: "artist title", or the
/// title alone when the seed names no artist; nothing when that is blank.
pub fn sc_search_text(seed: &SimilarToSeed) -> (r: Option<String>)
    ensures
        ({
            let q = if seed.artist@.len() == 0 {
                seed.title@
            } else {
                seed.artist@ + " "@ + seed.title@
            };
            match r {
                Some(t) => t@ == q && crate::text::trim(q).len() > 0,
                None => crate::text::trim(q).len() == 0,
            }
        }),
{
    let q = if seed.artist.as_str().is_empty() {
        seed.title.clone()
    } else {
        let a = concat(seed.artist.as_str(), " ");
        concat(a.as_str(), seed.title.as_str())
    };
    if crate::text::trim_str(q.as_str()).as_str().is_empty() {
        None
    } else {
        Some(q)
    }
}

/// Support never overwrites a SoundCloud core candidate: its title,
/// artist, rank and track stay, and the score only rises (to at most 1000).
pub proof fn law_support_keeps_core_identity(e: CandidateView, inc: CandidateView)
    requires
        e.soundcloud_track is Some,
        e.score_milli <= 1000,
    ensures
        merge_candidate_spec(e, inc).title == e.title,
        merge_candidate_spec(e, inc).artist == e.artist,
        merge_candidate_spec(e, inc).source_rank == e.source_rank,
        merge_candidate_spec(e, inc).soundcloud_track == e.soundcloud_track,
        e.score_milli <= merge_candidate_spec(e, inc).score_milli <= 1000,
{
}

/// Two support hits with the same key merge into the better-scored one: its
/// title, artist and rank win (the earlier hit on a tie), and the score is
/// the higher of the two plus 50, capped at 680; the sources of both are
/// kept.
pub proof fn law_support_merge_keeps_the_better_hit(e: CandidateView, inc: CandidateView)
    requires
        e.soundcloud_track is None,
    ensures
        ({
            let r = merge_candidate_spec(e, inc);
            let best: int = if inc.score_milli > e.score_milli {
                inc.score_milli as int
            } else {
                e.score_milli as int
            };
            &&& r.score_milli >= e.score_milli || r.score_milli == 680
            &&& r.score_milli >= inc.score_milli || r.score_milli == 680
            &&& r.score_milli == if best + 50 > 680 { 680 } else { best + 50 }
            &&& inc.score_milli > e.score_milli ==> r.title == inc.title && r.artist == inc.artist
                && r.source_rank == inc.source_rank
            &&& inc.score_milli <= e.score_milli ==> r.title == e.title && r.artist == e.artist
                && r.source_rank == e.source_rank
        }),
{
}

/// Merging two support hits never lifts the score past 680.
pub proof fn law_support_merge_caps_score(e: CandidateView, inc: CandidateView)
    requires
        e.soundcloud_track is None,
    ensures
        merge_candidate_spec(e, inc).score_milli <= 680,
{
}

/// A run resolves at most the result limit of candidates.
pub proof fn law_plan_is_bounded(
    sc: Seq<CandidateView>,
    lb: Seq<CandidateView>,
    lastfm: Seq<CandidateView>,
    seed_title: Seq<char>,
    seed_artist: Seq<char>,
)
    ensures
        plan_spec(sc, lb, lastfm, seed_title, seed_artist).len() <= MAX_DISCOVERY_RESULTS,
        finish_spec(Seq::empty()).len() == 0,
{
    assert(score_sorted(Seq::<DiscoveryResultView>::empty()) =~= Seq::<DiscoveryResultView>::empty());
    assert(first_per_title(Seq::<DiscoveryResultView>::empty()) =~= Seq::<DiscoveryResultView>::empty());
}


proof fn lemma_first_per_title_distinct(s: Seq<DiscoveryResultView>)
    ensures
        forall|i: int, j: int|
            0 <= i < j < first_per_title(s).len() ==> canonical_title_spec((#[trigger] first_per_title(s)[i]).title)
                != canonical_title_spec((#[trigger] first_per_title(s)[j]).title),
    decreases s.len(),
{
    if s.len() > 0 {
        lemma_first_per_title_distinct(s.drop_last());
        let p = first_per_title(s.drop_last());
        let c = canonical_title_spec(s.last().title);
        if !has_canon(p, c) {
            let r = p.push(s.last());
            assert forall|i: int, j: int| 0 <= i < j < r.len() implies canonical_title_spec((#[trigger] r[i]).title)
                != canonical_title_spec((#[trigger] r[j]).title) by {
                if j == p.len() {
                    assert(r[i] == p[i]);
                    if canonical_title_spec(p[i].title) == c {
                        assert(has_canon(p, c));
                    }
                } else {
                    assert(r[i] == p[i]);
                    assert(r[j] == p[j]);
                }
            }
        }
    }
}

/// Scores never rise along the list.
pub open spec fn score_descending(s: Seq<DiscoveryResultView>) -> bool {
    forall|i: int, j: int| 0 <= i < j < s.len() ==> (#[trigger] s[i]).score_milli >= (#[trigger] s[j]).score_milli
}

proof fn lemma_score_insert_from(t: Seq<DiscoveryResultView>, x: DiscoveryResultView, i: int)
    requires
        0 <= i <= t.len(),
    ensures
        i <= score_insert_from(t, x, i) <= t.len(),
        forall|k: int| i <= k < score_insert_from(t, x, i) ==> (#[trigger] t[k]).score_milli >= x.score_milli,
        score_insert_from(t, x, i) < t.len() ==> x.score_milli > t[score_insert_from(t, x, i)].score_milli,
    decreases t.len() - i,
{
    if i < t.len() && !scores_above(x, t[i]) {
        lemma_score_insert_from(t, x, i + 1);
    }
}

proof fn lemma_score_sorted_descending(s: Seq<DiscoveryResultView>)
    ensures
        score_descending(score_sorted(s)),
        score_sorted(s).len() == s.len(),
    decreases s.len(),
{
    if s.len() > 0 {
        let t = score_sorted(s.drop_last());
        let x = s.last();
        lemma_score_sorted_descending(s.drop_last());
        lemma_score_insert_from(t, x, 0);
        let p = score_insert_from(t, x, 0);
        let r = t.insert(p, x);
        assert forall|i: int, j: int| 0 <= i < j < r.len() implies (#[trigger] r[i]).score_milli >= (#[trigger] r[j]).score_milli by {
            if j < p {
                assert(r[i] == t[i] && r[j] == t[j]);
            } else if j == p {
                assert(r[i] == t[i]);
            } else if i < p {
                assert(r[i] == t[i] && r[j] == t[j - 1]);
            } else if i == p {
                assert(r[j] == t[j - 1]);
                assert(t[p].score_milli >= t[j - 1].score_milli);
            } else {
                assert(r[i] == t[i - 1] && r[j] == t[j - 1]);
            }
        }
    }
}

proof fn lemma_first_per_title_descending(s: Seq<DiscoveryResultView>)
    requires
        score_descending(s),
    ensures
        score_descending(first_per_title(s)),
        forall|j: int| 0 <= j < first_per_title(s).len() ==> exists|m: int|
            0 <= m < s.len() && #[trigger] first_per_title(s)[j] == s[m],
    decreases s.len(),
{
    if s.len() > 0 {
        let d = s.drop_last();
        assert(score_descending(d)) by {
            assert forall|i: int, j: int| 0 <= i < j < d.len() implies (#[trigger] d[i]).score_milli >= (#[trigger] d[j]).score_milli by {
                assert(d[i] == s[i] && d[j] == s[j]);
            }
        }
        lemma_first_per_title_descending(d);
        let p = first_per_title(d);
        assert forall|j: int| 0 <= j < p.len() implies exists|m: int|
            0 <= m < s.len() && #[trigger] p[j] == s[m] by {
            let m = choose|m: int| 0 <= m < d.len() && p[j] == d[m];
            assert(p[j] == s[m]);
        }
        if !has_canon(p, canonical_title_spec(s.last().title)) {
            let r = p.push(s.last());
            assert forall|i: int, j: int| 0 <= i < j < r.len() implies (#[trigger] r[i]).score_milli >= (#[trigger] r[j]).score_milli by {
                assert(r[i] == p[i]);
                if j == p.len() {
                    let m = choose|m: int| 0 <= m < d.len() && p[i] == d[m];
                    assert(s[m] == d[m]);
                    assert(s[m].score_milli >= s[s.len() - 1].score_milli);
                } else {
                    assert(r[j] == p[j]);
                }
            }
            assert forall|j: int| 0 <= j < r.len() implies exists|m: int|
                0 <= m < s.len() && #[trigger] r[j] == s[m] by {
                if j < p.len() {
                    assert(r[j] == p[j]);
                } else {
                    assert(r[j] == s[s.len() - 1]);
                }
            }
        }
    }
}

/// A discovery run returns its results best first: no result scores higher
/// than one before it.
pub proof fn law_results_best_first(s: Seq<DiscoveryResultView>)
    ensures
        score_descending(finish_spec(s)),
{
    lemma_score_sorted_descending(s);
    lemma_first_per_title_descending(score_sorted(s));
    let d = first_per_title(score_sorted(s));
    if d.len() > MAX_DISCOVERY_RESULTS {
        let f = d.take(MAX_DISCOVERY_RESULTS as int);
        assert forall|i: int, j: int| 0 <= i < j < f.len() implies (#[trigger] f[i]).score_milli >= (#[trigger] f[j]).score_milli by {
            assert(f[i] == d[i] && f[j] == d[j]);
        }
    }
}

/// A discovery run never returns the same song twice: no two results share
/// a canonical title.
pub proof fn law_results_are_one_per_song(s: Seq<DiscoveryResultView>)
    ensures
        forall|i: int, j: int|
            0 <= i < j < finish_spec(s).len() ==> canonical_title_spec((#[trigger] finish_spec(s)[i]).title)
                != canonical_title_spec((#[trigger] finish_spec(s)[j]).title),
{
    let d = first_per_title(score_sorted(s));
    lemma_first_per_title_distinct(score_sorted(s));
    if d.len() > MAX_DISCOVERY_RESULTS {
        let f = d.take(MAX_DISCOVERY_RESULTS as int);
        assert forall|i: int, j: int| 0 <= i < j < f.len() implies canonical_title_spec((#[trigger] f[i]).title)
            != canonical_title_spec((#[trigger] f[j]).title) by {
            assert(f[i] == d[i]);
            assert(f[j] == d[j]);
        }
    }
}

/// Cleaning drops every re-upload of the seed and every low-quality
/// variant of it, keeps one candidate per key, and keeps only candidates
/// of the input; every candidate that is neither re-upload nor variant has
/// its key in the cleaned list.
pub proof fn law_clean_drops_seed_variants(s: Seq<CandidateView>, seed_title: Seq<char>, seed_artist: Seq<char>)
    ensures
        forall|i: int|
            0 <= i < clean_spec(s, seed_title, seed_artist).len() ==> !is_low_quality_variant_spec(
                (#[trigger] clean_spec(s, seed_title, seed_artist)[i]).title,
                seed_title,
            ) && !is_seed_reupload_spec(
                clean_spec(s, seed_title, seed_artist)[i].title,
                clean_spec(s, seed_title, seed_artist)[i].artist,
                seed_title,
                seed_artist,
            ),
        forall|i: int, j: int|
            0 <= i < j < clean_spec(s, seed_title, seed_artist).len() ==> cand_key(
                #[trigger] clean_spec(s, seed_title, seed_artist)[i],
            ) != cand_key(#[trigger] clean_spec(s, seed_title, seed_artist)[j]),
        forall|i: int|
            0 <= i < clean_spec(s, seed_title, seed_artist).len() ==> exists|j: int|
                0 <= j < s.len() && s[j] == #[trigger] clean_spec(s, seed_title, seed_artist)[i],
        forall|j: int|
            0 <= j < s.len() && !is_low_quality_variant_spec((#[trigger] s[j]).title, seed_title)
                && !is_seed_reupload_spec(s[j].title, s[j].artist, seed_title, seed_artist) ==> has_key(
                clean_spec(s, seed_title, seed_artist),
                cand_key(s[j]),
            ),
    decreases s.len(),
{
    if s.len() > 0 {
        let d = s.drop_last();
        law_clean_drops_seed_variants(d, seed_title, seed_artist);
        let p = clean_spec(d, seed_title, seed_artist);
        let r = clean_spec(s, seed_title, seed_artist);
        let c = s.last();
        assert forall|i: int| 0 <= i < r.len() implies exists|j: int| 0 <= j < s.len() && s[j] == #[trigger] r[i] by {
            if i < p.len() {
                assert(r[i] == p[i]);
                let j = choose|j: int| 0 <= j < d.len() && d[j] == p[i];
                assert(s[j] == d[j]);
            } else {
                assert(r[i] == c);
                assert(s[s.len() - 1] == c);
            }
        }
        assert forall|j: int|
            0 <= j < s.len() && !is_low_quality_variant_spec((#[trigger] s[j]).title, seed_title)
                && !is_seed_reupload_spec(s[j].title, s[j].artist, seed_title, seed_artist) implies has_key(
                r,
                cand_key(s[j]),
            ) by {
            if j < d.len() {
                assert(s[j] == d[j]);
                let k = choose|k: int| 0 <= k < p.len() && cand_key(#[trigger] p[k]) == cand_key(d[j]);
                assert(r[k] == p[k]);
            } else {
                assert(s[j] == c);
                if has_key(p, cand_key(c)) {
                    let k = choose|k: int| 0 <= k < p.len() && cand_key(#[trigger] p[k]) == cand_key(c);
                    assert(r[k] == p[k]);
                } else {
                    assert(r[p.len() as int] == c);
                }
            }
        }
        assert forall|i: int, j: int| 0 <= i < j < r.len() implies cand_key(#[trigger] r[i]) != cand_key(#[trigger] r[j]) by {
            assert(r[i] == p[i]);
            if j < p.len() {
                assert(r[j] == p[j]);
            } else if cand_key(p[i]) == cand_key(c) {
                assert(has_key(p, cand_key(c)));
            }
        }
        assert forall|i: int| 0 <= i < r.len() implies !is_low_quality_variant_spec(
            (#[trigger] r[i]).title,
            seed_title,
        ) && !is_seed_reupload_spec(r[i].title, r[i].artist, seed_title, seed_artist) by {
            if i < p.len() {
                assert(r[i] == p[i]);
            }
        }
    }
}

} // verus!
