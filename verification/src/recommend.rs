//! Curation of the Home recommendation rows: dedupe, per-artist caps, seed
//! hygiene and backfill so a row is never starved.

use vstd::prelude::*;
use vstd::hash_set::StringHashSet;
use crate::discovery::{SimilarToSeed, is_low_quality_variant, is_low_quality_variant_spec};
use crate::normalize::{canonical_title, canonical_title_spec, normalise_text, normalise_text_spec};
use crate::text::{concat, contains_string, str_eq, starts_with, str_starts_with, string_views, trim, trim_str};
use crate::track::{ArtistRef, ArtistView, Track, TrackView, artist_views, copy_opt_string, opt_view, track_views};
use vstd::hash_map::StringHashMap;

verus! {

broadcast use vstd::string::group_string_axioms;

/// The identity two tracks are compared on: normalised first artist and
/// normalised title joined by `|`.
pub open spec fn track_key_spec(t: TrackView) -> Seq<char> {
    normalise_text_spec(t.first_artist()) + "|"@ + normalise_text_spec(t.title)
}

/// Normalised first artist `|` normalised title.
pub fn track_key(track: &Track) -> (r: String)
    ensures
        r@ == track_key_spec(track@),
{
    let artist = track.first_artist_name();
    let a = normalise_text(artist.as_str());
    let t = normalise_text(track.title.as_str());
    let ab = concat(a.as_str(), "|");
    concat(ab.as_str(), t.as_str())
}

/// A SoundCloud track URI.
pub open spec fn is_soundcloud_track_spec(uri: Seq<char>) -> bool {
    starts_with(uri, "soundcloud:track:"@)
}

/// Whether the URI names a SoundCloud track.
pub fn is_soundcloud_track(uri: &str) -> (r: bool)
    ensures
        r == is_soundcloud_track_spec(uri@),
{
    str_starts_with(uri, "soundcloud:track:")
}

/// Some track of `s` has this URI.
pub open spec fn has_uri(s: Seq<TrackView>, uri: Seq<char>) -> bool {
    exists|j: int| 0 <= j < s.len() && (#[trigger] s[j]).uri == uri
}

/// The track at `j` is the first of `s` with its URI.
pub open spec fn first_with_uri(s: Seq<TrackView>, j: int) -> bool {
    forall|i: int| 0 <= i < j ==> (#[trigger] s[i]).uri != s[j].uri
}

/// A track whose URI was new when it came claimed this key.
pub open spec fn key_claimed(s: Seq<TrackView>, key: Seq<char>) -> bool {
    exists|j: int| 0 <= j < s.len() && first_with_uri(s, j) && track_key_spec(#[trigger] s[j]) == key
}

/// The tracks that survive deduplication by URI and by artist|title key:
/// a track stays when its URI is new and no earlier track with a new URI
/// had its key.
pub open spec fn dedupe_tracks_spec(s: Seq<TrackView>) -> Seq<TrackView>
    decreases s.len(),
{
    if s.len() == 0 {
        Seq::empty()
    } else {
        let p = s.drop_last();
        let e = s.last();
        if !has_uri(p, e.uri) && !key_claimed(p, track_key_spec(e)) {
            dedupe_tracks_spec(p).push(e)
        } else {
            dedupe_tracks_spec(p)
        }
    }
}

/// The URIs of a list of tracks, as a set.
pub open spec fn uri_set(s: Seq<TrackView>) -> Set<Seq<char>> {
    Set::new(|u: Seq<char>| has_uri(s, u))
}

/// The keys claimed in a list of tracks, as a set.
pub open spec fn claimed_set(s: Seq<TrackView>) -> Set<Seq<char>> {
    Set::new(|k: Seq<char>| key_claimed(s, k))
}

/// Extending a prefix by one track updates the URI set.
proof fn lemma_uri_set_push(s: Seq<TrackView>, i: int)
    requires
        0 <= i < s.len(),
    ensures
        uri_set(s.take(i + 1)) == uri_set(s.take(i)).insert(s[i].uri),
{
    let a = s.take(i + 1);
    let b = s.take(i);
    assert forall|u: Seq<char>| has_uri(a, u) == (has_uri(b, u) || u == s[i].uri) by {
        if has_uri(a, u) {
            let j = choose|j: int| 0 <= j < a.len() && (#[trigger] a[j]).uri == u;
            if j < i {
                assert(b[j] == a[j]);
            }
        }
        if has_uri(b, u) {
            let j = choose|j: int| 0 <= j < b.len() && (#[trigger] b[j]).uri == u;
            assert(a[j] == b[j]);
        }
        if u == s[i].uri {
            assert(a[i] == s[i]);
        }
    }
    assert(uri_set(a) =~= uri_set(b).insert(s[i].uri));
}

/// Extending a prefix by one track updates the claimed keys.
proof fn lemma_claimed_set_push(s: Seq<TrackView>, i: int)
    requires
        0 <= i < s.len(),
    ensures
        claimed_set(s.take(i + 1)) == if has_uri(s.take(i), s[i].uri) {
            claimed_set(s.take(i))
        } else {
            claimed_set(s.take(i)).insert(track_key_spec(s[i]))
        },
{
    let a = s.take(i + 1);
    let b = s.take(i);
    let new_uri = !has_uri(b, s[i].uri);
    assert forall|k: Seq<char>| key_claimed(a, k) == (key_claimed(b, k) || (new_uri && k
        == track_key_spec(s[i]))) by {
        if key_claimed(a, k) {
            let j = choose|j: int| 0 <= j < a.len() && first_with_uri(a, j) && track_key_spec(#[trigger] a[j]) == k;
            if j < i {
                assert(b[j] == a[j]);
                assert forall|m: int| 0 <= m < j implies (#[trigger] b[m]).uri != b[j].uri by {
                    assert(a[m] == b[m]);
                }
            } else {
                assert(a[j] == s[i]);
                if has_uri(b, s[i].uri) {
                    let m = choose|m: int| 0 <= m < b.len() && (#[trigger] b[m]).uri == s[i].uri;
                    assert(a[m] == b[m]);
                }
            }
        }
        if key_claimed(b, k) {
            let j = choose|j: int| 0 <= j < b.len() && first_with_uri(b, j) && track_key_spec(#[trigger] b[j]) == k;
            assert(a[j] == b[j]);
            assert forall|m: int| 0 <= m < j implies (#[trigger] a[m]).uri != a[j].uri by {
                assert(a[m] == b[m]);
            }
        }
        if new_uri && k == track_key_spec(s[i]) {
            assert(a[i] == s[i]);
            assert forall|m: int| 0 <= m < i implies (#[trigger] a[m]).uri != a[i].uri by {
                assert(a[m] == b[m]);
            }
        }
    }
    if new_uri {
        assert(claimed_set(a) =~= claimed_set(b).insert(track_key_spec(s[i])));
    } else {
        assert(claimed_set(a) =~= claimed_set(b));
    }
}

/// Drop repeats by URI and by artist|title key, keeping the first.
pub fn dedupe_tracks(tracks: Vec<Track>) -> (r: Vec<Track>)
    ensures
        track_views(r@) == dedupe_tracks_spec(track_views(tracks@)),
{
    let ghost s = track_views(tracks@);
    let mut seen_uri = StringHashSet::new();
    let mut seen_key = StringHashSet::new();
    let mut out: Vec<Track> = Vec::new();
    let mut i: usize = 0;
    assert(uri_set(s.take(0)) =~= Set::<Seq<char>>::empty());
    assert(claimed_set(s.take(0)) =~= Set::<Seq<char>>::empty());
    while i < tracks.len()
        invariant
            i <= tracks@.len(),
            s == track_views(tracks@),
            seen_uri@ == uri_set(s.take(i as int)),
            seen_key@ == claimed_set(s.take(i as int)),
            track_views(out@) == dedupe_tracks_spec(s.take(i as int)),
        decreases tracks@.len() - i,
    {
        let t = &tracks[i];
        let key = track_key(t);
        let ghost p = s.take(i as int);
        let ghost q = s.take(i + 1);
        assert(q.drop_last() =~= p);
        assert(q.last() == t@);
        proof {
            lemma_uri_set_push(s, i as int);
            lemma_claimed_set_push(s, i as int);
        }
        let new_uri = seen_uri.insert(t.uri.clone());
        if new_uri {
            let new_key = seen_key.insert(key);
            if new_key {
                let ghost before = track_views(out@);
                out.push(t.duplicate());
                assert(track_views(out@) =~= before.push(t@));
            }
        }
        i = i + 1;
    }
    assert(s.take(tracks@.len() as int) =~= s);
    out
}

/// Some earlier track has this (non-empty) canonical title.
pub open spec fn canon_seen(s: Seq<TrackView>, canon: Seq<char>) -> bool {
    exists|j: int| 0 <= j < s.len() && canonical_title_spec((#[trigger] s[j]).title) == canon
}

/// Tracks whose canonical title is empty, or the first with each
/// canonical title.
pub open spec fn dedupe_canonical_spec(s: Seq<TrackView>) -> Seq<TrackView>
    decreases s.len(),
{
    if s.len() == 0 {
        Seq::empty()
    } else {
        let p = s.drop_last();
        let c = canonical_title_spec(s.last().title);
        if c.len() == 0 || !canon_seen(p, c) {
            dedupe_canonical_spec(p).push(s.last())
        } else {
            dedupe_canonical_spec(p)
        }
    }
}

/// Collapse same-song duplicates (another uploader, a cover, another
/// platform) by canonical title; tracks without a canonical title all stay.
pub fn dedupe_canonical(tracks: Vec<Track>) -> (r: Vec<Track>)
    ensures
        track_views(r@) == dedupe_canonical_spec(track_views(tracks@)),
{
    let ghost s = track_views(tracks@);
    let mut seen = StringHashSet::new();
    let mut out: Vec<Track> = Vec::new();
    let mut i: usize = 0;
    while i < tracks.len()
        invariant
            i <= tracks@.len(),
            s == track_views(tracks@),
            forall|c: Seq<char>| c.len() > 0 ==> (#[trigger] seen@.contains(c) <==> canon_seen(s.take(i as int), c)),
            track_views(out@) == dedupe_canonical_spec(s.take(i as int)),
        decreases tracks@.len() - i,
    {
        let t = &tracks[i];
        let canon = canonical_title(t.title.as_str());
        let ghost p = s.take(i as int);
        let ghost q = s.take(i + 1);
        assert(q.drop_last() =~= p);
        assert(q.last() == t@);
        proof {
            assert forall|c: Seq<char>| canon_seen(q, c) == (canon_seen(p, c) || c == canon@) by {
                if canon_seen(q, c) {
                    let j = choose|j: int| 0 <= j < q.len() && canonical_title_spec((#[trigger] q[j]).title) == c;
                    if j < i {
                        assert(p[j] == q[j]);
                    }
                }
                if canon_seen(p, c) {
                    let j = choose|j: int| 0 <= j < p.len() && canonical_title_spec((#[trigger] p[j]).title) == c;
                    assert(q[j] == p[j]);
                }
                if c == canon@ {
                    assert(q[i as int] == t@);
                }
            }
        }
        let keep = if canon.as_str().is_empty() {
            true
        } else {
            seen.insert(canon)
        };
        if keep {
            let ghost before = track_views(out@);
            out.push(t.duplicate());
            assert(track_views(out@) =~= before.push(t@));
        }
        i = i + 1;
    }
    assert(s.take(tracks@.len() as int) =~= s);
    out
}

/// A recommendation seed: who and what to find neighbours of.
#[derive(Debug)]
pub struct RecommendationSeed {
    pub artist: String,
    pub title: String,
    pub label: String,
    pub track_uri: Option<String>,
}

/// What a seed holds.
pub ghost struct SeedView {
    pub artist: Seq<char>,
    pub title: Seq<char>,
    pub label: Seq<char>,
    pub track_uri: Option<Seq<char>>,
}

impl View for RecommendationSeed {
    type V = SeedView;

    open spec fn view(&self) -> SeedView {
        SeedView {
            artist: self.artist@,
            title: self.title@,
            label: self.label@,
            track_uri: opt_view(self.track_uri),
        }
    }
}

/// The views of a list of seeds.
pub open spec fn seed_views(s: Seq<RecommendationSeed>) -> Seq<SeedView> {
    s.map_values(|x: RecommendationSeed| x@)
}

/// The view of an optional seed.
pub open spec fn opt_seed_view(s: Option<RecommendationSeed>) -> Option<SeedView> {
    match s {
        Some(x) => Some(x@),
        None => None,
    }
}

impl RecommendationSeed {
    /// A field-for-field copy.
    pub fn duplicate(&self) -> (r: RecommendationSeed)
        ensures
            r@ == self@,
    {
        RecommendationSeed {
            artist: self.artist.clone(),
            title: self.title.clone(),
            label: self.label.clone(),
            track_uri: copy_opt_string(&self.track_uri),
        }
    }
}

/// The seed made of an artist and a title: both trimmed, none when either is
/// blank, labelled "artist — title".
pub open spec fn seed_spec(artist: Seq<char>, title: Seq<char>, uri: Option<Seq<char>>) -> Option<
    SeedView,
> {
    if trim(artist).len() == 0 || trim(title).len() == 0 {
        None
    } else {
        Some(
            SeedView {
                artist: trim(artist),
                title: trim(title),
                label: trim(artist) + " — "@ + trim(title),
                track_uri: uri,
            },
        )
    }
}

/// A seed from an artist and title: both trimmed, refused when either is
/// blank; labelled "artist — title".
pub fn seed_from_parts(artist: &str, title: &str, track_uri: Option<String>) -> (r: Option<
    RecommendationSeed,
>)
    ensures
        opt_seed_view(r) == seed_spec(artist@, title@, opt_view(track_uri)),
{
    let a = trim_str(artist);
    let t = trim_str(title);
    if a.as_str().is_empty() || t.as_str().is_empty() {
        return None;
    }
    let al = concat(a.as_str(), " — ");
    let label = concat(al.as_str(), t.as_str());
    Some(RecommendationSeed { artist: a, title: t, label, track_uri })
}

/// Artist names joined by ", ".
pub open spec fn joined_names(a: Seq<ArtistView>) -> Seq<char>
    decreases a.len(),
{
    if a.len() == 0 {
        Seq::empty()
    } else if a.len() == 1 {
        a[0].name
    } else {
        joined_names(a.drop_last()) + ", "@ + a.last().name
    }
}

/// The credited artists' names joined by ", ".
pub fn join_artist_names(artists: &Vec<ArtistRef>) -> (r: String)
    ensures
        r@ == joined_names(artist_views(artists@)),
{
    let ghost a = artist_views(artists@);
    let mut out = String::new();
    let mut i: usize = 0;
    while i < artists.len()
        invariant
            i <= artists@.len(),
            a == artist_views(artists@),
            out@ == joined_names(a.take(i as int)),
        decreases artists@.len() - i,
    {
        let ghost q = a.take(i + 1);
        assert(q.drop_last() =~= a.take(i as int));
        assert(q.last() == artists@[i as int]@);
        if i == 0 {
            out = concat(out.as_str(), artists[i].name.as_str());
            assert(out@ =~= q[0].name);
        } else {
            let sep = concat(out.as_str(), ", ");
            out = concat(sep.as_str(), artists[i].name.as_str());
        }
        i = i + 1;
    }
    assert(a.take(artists@.len() as int) =~= a);
    out
}

/// A seed from a track: every credited artist joined by ", ", its title and
/// its URI.
pub fn seed_from_track(track: &Track) -> (r: Option<RecommendationSeed>)
    ensures
        opt_seed_view(r) == seed_spec(joined_names(track@.artists), track@.title, Some(track@.uri)),
{
    let artist = join_artist_names(&track.artists);
    seed_from_parts(artist.as_str(), track.title.as_str(), Some(track.uri.clone()))
}

/// The identity of a seed: normalised artist `|` normalised title.
pub open spec fn seed_key_spec(s: SeedView) -> Seq<char> {
    normalise_text_spec(s.artist) + "|"@ + normalise_text_spec(s.title)
}

/// Normalised artist `|` normalised title of a seed.
pub fn seed_key(seed: &RecommendationSeed) -> (r: String)
    ensures
        r@ == seed_key_spec(seed@),
{
    let a = normalise_text(seed.artist.as_str());
    let t = normalise_text(seed.title.as_str());
    let ab = concat(a.as_str(), "|");
    concat(ab.as_str(), t.as_str())
}

/// How many seeds of `s` have this normalised artist.
pub open spec fn seed_artist_count(s: Seq<SeedView>, key: Seq<char>) -> nat
    decreases s.len(),
{
    if s.len() == 0 {
        0
    } else {
        seed_artist_count(s.drop_last(), key) + if normalise_text_spec(s.last().artist) == key {
            1nat
        } else {
            0nat
        }
    }
}

/// The seeds [`diverse_seeds`] keeps, in order: a seed without a normalised
/// artist always; otherwise while fewer than `max` of its artist were kept.
pub open spec fn diverse_spec(s: Seq<SeedView>, max: nat) -> Seq<SeedView>
    decreases s.len(),
{
    if s.len() == 0 {
        Seq::empty()
    } else {
        let out = diverse_spec(s.drop_last(), max);
        let key = normalise_text_spec(s.last().artist);
        if key.len() == 0 || seed_artist_count(out, key) < max {
            out.push(s.last())
        } else {
            out
        }
    }
}

proof fn lemma_seed_count_push(s: Seq<SeedView>, x: SeedView, key: Seq<char>)
    ensures
        seed_artist_count(s.push(x), key) == seed_artist_count(s, key) + if normalise_text_spec(
            x.artist,
        ) == key {
            1nat
        } else {
            0nat
        },
{
    assert(s.push(x).drop_last() =~= s);
}

/// The count a map holds for a key, zero when absent.
pub open spec fn count_of(m: Map<Seq<char>, usize>, k: Seq<char>) -> nat {
    if m.contains_key(k) {
        m[k] as nat
    } else {
        0
    }
}

/// Cap the seeds drawn from any one artist at `max_per_artist`, keeping
/// their order; seeds without a normalised artist are never capped.
pub fn diverse_seeds(seeds: Vec<RecommendationSeed>, max_per_artist: usize) -> (r: Vec<
    RecommendationSeed,
>)
    ensures
        seed_views(r@) == diverse_spec(seed_views(seeds@), max_per_artist as nat),
{
    let ghost s = seed_views(seeds@);
    let mut counts: StringHashMap<usize> = StringHashMap::new();
    let mut out: Vec<RecommendationSeed> = Vec::new();
    let mut i: usize = 0;
    while i < seeds.len()
        invariant
            i <= seeds@.len(),
            s == seed_views(seeds@),
            seed_views(out@) == diverse_spec(s.take(i as int), max_per_artist as nat),
            forall|k: Seq<char>|
                k.len() > 0 ==> count_of(counts@, k) == #[trigger] seed_artist_count(
                    seed_views(out@),
                    k,
                ),
        decreases seeds@.len() - i,
    {
        let seed = &seeds[i];
        let key = normalise_text(seed.artist.as_str());
        let ghost q = s.take(i + 1);
        let ghost before = seed_views(out@);
        assert(q.drop_last() =~= s.take(i as int));
        assert(q.last() == seed@);
        if key.as_str().is_empty() {
            out.push(seed.duplicate());
            assert(seed_views(out@) =~= before.push(seed@));
            assert forall|k: Seq<char>| k.len() > 0 implies count_of(counts@, k)
                == #[trigger] seed_artist_count(seed_views(out@), k) by {
                lemma_seed_count_push(before, seed@, k);
            }
        } else {
            let c: usize = match counts.get(key.as_str()) {
                Some(v) => *v,
                None => 0,
            };
            assert(c == seed_artist_count(before, key@));
            if c < max_per_artist {
                let ghost kv = key@;
                let ghost old_counts = counts@;
                assert(forall|k: Seq<char>| k.len() > 0 ==> count_of(old_counts, k) == seed_artist_count(before, k));
                counts.insert(key, c + 1);
                out.push(seed.duplicate());
                assert(seed_views(out@) =~= before.push(seed@));
                assert forall|k: Seq<char>| k.len() > 0 implies count_of(counts@, k)
                    == #[trigger] seed_artist_count(seed_views(out@), k) by {
                    lemma_seed_count_push(before, seed@, k);
                    if k != kv {
                        assert(count_of(counts@, k) == count_of(old_counts, k));
                    }
                }
            }
        }
        i = i + 1;
    }
    assert(s.take(seeds@.len() as int) =~= s);
    out
}

/// A candidate survives seed hygiene when it is not the seed under another
/// upload (same non-empty canonical title) and not a low-quality variant the
/// seed is not itself.
pub open spec fn passes_seed_hygiene(t: TrackView, seed_title: Seq<char>) -> bool {
    let canon = canonical_title_spec(t.title);
    (canon.len() == 0 || canon != canonical_title_spec(seed_title))
        && !is_low_quality_variant_spec(t.title, seed_title)
}

/// Drop reuploads and covers of the seed itself and sped-up / nightcore /
/// other variants the seed is not one of.
pub fn filter_seed_variants(tracks: Vec<Track>, seed: &RecommendationSeed) -> (r: Vec<Track>)
    ensures
        track_views(r@) == track_views(tracks@).filter(
            |t: TrackView| passes_seed_hygiene(t, seed@.title),
        ),
{
    let ghost s = track_views(tracks@);
    let ghost pred = |t: TrackView| passes_seed_hygiene(t, seed@.title);
    let seed_canon = canonical_title(seed.title.as_str());
    let seed_ref = SimilarToSeed { artist: seed.artist.clone(), title: seed.title.clone(), mbid: None };
    let mut out: Vec<Track> = Vec::new();
    let mut i: usize = 0;
    while i < tracks.len()
        invariant
            i <= tracks@.len(),
            s == track_views(tracks@),
            seed_canon@ == canonical_title_spec(seed@.title),
            seed_ref.title@ == seed@.title,
            pred == (|t: TrackView| passes_seed_hygiene(t, seed@.title)),
            track_views(out@) == s.take(i as int).filter(pred),
        decreases tracks@.len() - i,
    {
        let t = &tracks[i];
        let canon = canonical_title(t.title.as_str());
        let keep = (canon.as_str().is_empty() || !str_eq(canon.as_str(), seed_canon.as_str()))
            && !is_low_quality_variant(t.title.as_str(), &seed_ref);
        let ghost q = s.take(i + 1);
        assert(q.drop_last() =~= s.take(i as int));
        assert(q.last() == t@);
        assert(keep == pred(t@));
        reveal_with_fuel(Seq::filter, 1);
        if keep {
            let ghost before = track_views(out@);
            out.push(t.duplicate());
            assert(track_views(out@) =~= before.push(t@));
        }
        i = i + 1;
    }
    assert(s.take(tracks@.len() as int) =~= s);
    out
}

/// Every credited artist URI of the tracks, track by track.
pub open spec fn artist_uris(s: Seq<TrackView>) -> Seq<Seq<char>>
    decreases s.len(),
{
    if s.len() == 0 {
        Seq::empty()
    } else {
        artist_uris(s.drop_last()) + s.last().artists.map_values(|a: ArtistView| a.uri)
    }
}

/// The SoundCloud user URIs of a list, first occurrences only.
pub open spec fn first_sc_users(u: Seq<Seq<char>>) -> Seq<Seq<char>>
    decreases u.len(),
{
    if u.len() == 0 {
        Seq::empty()
    } else {
        let p = first_sc_users(u.drop_last());
        let x = u.last();
        if starts_with(x, "soundcloud:user:"@) && !p.contains(x) {
            p.push(x)
        } else {
            p
        }
    }
}

/// All credited artist URIs of the tracks, in order.
fn all_artist_uris(tracks: &Vec<Track>) -> (r: Vec<String>)
    ensures
        string_views(r@) == artist_uris(track_views(tracks@)),
{
    let ghost s = track_views(tracks@);
    let mut out: Vec<String> = Vec::new();
    let mut i: usize = 0;
    while i < tracks.len()
        invariant
            i <= tracks@.len(),
            s == track_views(tracks@),
            string_views(out@) == artist_uris(s.take(i as int)),
        decreases tracks@.len() - i,
    {
        let ghost q = s.take(i + 1);
        assert(q.drop_last() =~= s.take(i as int));
        let ghost base = string_views(out@);
        let ghost arts = s[i as int].artists;
        let artists = &tracks[i].artists;
        let mut j: usize = 0;
        while j < artists.len()
            invariant
                j <= artists@.len(),
                arts == artist_views(artists@),
                string_views(out@) == base + arts.take(j as int).map_values(|a: ArtistView| a.uri),
            decreases artists@.len() - j,
        {
            let ghost prev = string_views(out@);
            out.push(artists[j].uri.clone());
            assert(arts.take(j + 1).map_values(|a: ArtistView| a.uri) =~= arts.take(
                j as int,
            ).map_values(|a: ArtistView| a.uri).push(artists@[j as int].uri@));
            assert(string_views(out@) =~= prev.push(artists@[j as int].uri@));
            j = j + 1;
        }
        assert(arts.take(artists@.len() as int) =~= arts);
        assert(q.last().artists == arts);
        i = i + 1;
    }
    assert(s.take(tracks@.len() as int) =~= s);
    out
}

/// The SoundCloud user URIs credited on the tracks, each once, in the order
/// they first appear.
pub fn soundcloud_artist_uris(tracks: &Vec<Track>) -> (r: Vec<String>)
    ensures
        string_views(r@) == first_sc_users(artist_uris(track_views(tracks@))),
{
    let all = all_artist_uris(tracks);
    let ghost u = string_views(all@);
    let mut seen = StringHashSet::new();
    let mut out: Vec<String> = Vec::new();
    let mut i: usize = 0;
    while i < all.len()
        invariant
            i <= all@.len(),
            u == string_views(all@),
            string_views(out@) == first_sc_users(u.take(i as int)),
            forall|x: Seq<char>| seen@.contains(x) <==> string_views(out@).contains(x),
        decreases all@.len() - i,
    {
        let ghost q = u.take(i + 1);
        assert(q.drop_last() =~= u.take(i as int));
        assert(q.last() == all@[i as int]@);
        if str_starts_with(all[i].as_str(), "soundcloud:user:") {
            let fresh = seen.insert(all[i].clone());
            if fresh {
                let ghost before = string_views(out@);
                out.push(all[i].clone());
                assert(string_views(out@) =~= before.push(all@[i as int]@));
                assert forall|x: Seq<char>| seen@.contains(x) <==> string_views(out@).contains(x) by {
                    if x == all@[i as int]@ {
                        assert(string_views(out@)[before.len() as int] == x);
                    }
                    if string_views(out@).contains(x) {
                        let k = choose|k: int| 0 <= k < string_views(out@).len() && string_views(out@)[k] == x;
                        if k < before.len() {
                            assert(before[k] == x);
                        }
                    }
                    if before.contains(x) {
                        let k = choose|k: int| 0 <= k < before.len() && before[k] == x;
                        assert(string_views(out@)[k] == x);
                    }
                }
            }
        }
        i = i + 1;
    }
    assert(u.take(all@.len() as int) =~= u);
    out
}

/// The normalised first artist a row caps on.
pub open spec fn artist_key_of(t: TrackView) -> Seq<char> {
    normalise_text_spec(t.first_artist())
}

/// How many tracks of `s` have this normalised first artist.
pub open spec fn track_artist_count(s: Seq<TrackView>, key: Seq<char>) -> nat
    decreases s.len(),
{
    if s.len() == 0 {
        0
    } else {
        track_artist_count(s.drop_last(), key) + if artist_key_of(s.last()) == key {
            1nat
        } else {
            0nat
        }
    }
}

pub proof fn lemma_track_count_push(s: Seq<TrackView>, x: TrackView, key: Seq<char>)
    ensures
        track_artist_count(s.push(x), key) == track_artist_count(s, key) + if artist_key_of(x)
            == key {
            1nat
        } else {
            0nat
        },
{
    assert(s.push(x).drop_last() =~= s);
}

/// Split a deduplicated feed into the tracks a row keeps (not excluded, and
/// fewer than `max` kept of the same first artist so far) and the spare ones,
/// both in feed order.
pub open spec fn curate_split(s: Seq<TrackView>, excl: Seq<Seq<char>>, max: nat) -> (
    Seq<TrackView>,
    Seq<TrackView>,
)
    decreases s.len(),
{
    if s.len() == 0 {
        (Seq::empty(), Seq::empty())
    } else {
        let prev = curate_split(s.drop_last(), excl, max);
        let t = s.last();
        if !excl.contains(track_key_spec(t)) && track_artist_count(prev.0, artist_key_of(t)) < max {
            (prev.0.push(t), prev.1)
        } else {
            (prev.0, prev.1.push(t))
        }
    }
}

/// A curated row: deduplicated by URI and artist|title and then by canonical
/// title, split into kept and spare tracks; when fewer than half the limit
/// (rounded up) were kept the spare ones follow; at most `limit` tracks.
pub open spec fn curate_spec(s: Seq<TrackView>, excl: Seq<Seq<char>>, max: nat, limit: nat) -> Seq<
    TrackView,
> {
    let split = curate_split(dedupe_canonical_spec(dedupe_tracks_spec(s)), excl, max);
    let all = if split.0.len() < (limit + 1) / 2 {
        split.0 + split.1
    } else {
        split.0
    };
    if all.len() <= limit {
        all
    } else {
        all.take(limit as int)
    }
}

/// Curate a raw related feed into a row: dedupe, drop excluded tracks, cap
/// how many tracks one artist contributes, and backfill with what was dropped
/// rather than leave the row starved.
pub fn curate_tracks(tracks: Vec<Track>, exclude_keys: &Vec<String>, max_per_artist: usize, limit: usize) -> (r: Vec<Track>)
    ensures
        track_views(r@) == curate_spec(
            track_views(tracks@),
            string_views(exclude_keys@),
            max_per_artist as nat,
            limit as nat,
        ),
{
    let ghost excl = string_views(exclude_keys@);
    let d = dedupe_canonical(dedupe_tracks(tracks));
    let ghost ds = track_views(d@);
    let mut counts: StringHashMap<usize> = StringHashMap::new();
    let mut kept: Vec<Track> = Vec::new();
    let mut spare: Vec<Track> = Vec::new();
    let mut i: usize = 0;
    while i < d.len()
        invariant
            i <= d@.len(),
            ds == track_views(d@),
            excl == string_views(exclude_keys@),
            (track_views(kept@), track_views(spare@)) == curate_split(
                ds.take(i as int),
                excl,
                max_per_artist as nat,
            ),
            forall|k: Seq<char>|
                count_of(counts@, k) == #[trigger] track_artist_count(track_views(kept@), k),
        decreases d@.len() - i,
    {
        let t = &d[i];
        let ghost q = ds.take(i + 1);
        assert(q.drop_last() =~= ds.take(i as int));
        assert(q.last() == t@);
        let ghost kb = track_views(kept@);
        let ghost sb = track_views(spare@);
        let key = track_key(t);
        let excluded = contains_string(exclude_keys, key.as_str());
        let artist = t.first_artist_name();
        let akey = normalise_text(artist.as_str());
        let c: usize = match counts.get(akey.as_str()) {
            Some(v) => *v,
            None => 0,
        };
        assert(c == track_artist_count(kb, akey@));
        if !excluded && c < max_per_artist {
            let ghost kv = akey@;
            let ghost old_counts = counts@;
            assert(forall|k: Seq<char>| count_of(old_counts, k) == track_artist_count(kb, k));
            counts.insert(akey, c + 1);
            kept.push(t.duplicate());
            assert(track_views(kept@) =~= kb.push(t@));
            assert forall|k: Seq<char>| count_of(counts@, k) == #[trigger] track_artist_count(
                track_views(kept@),
                k,
            ) by {
                lemma_track_count_push(kb, t@, k);
                if k != kv {
                    assert(count_of(counts@, k) == count_of(old_counts, k));
                }
            }
        } else {
            spare.push(t.duplicate());
            assert(track_views(spare@) =~= sb.push(t@));
        }
        i = i + 1;
    }
    assert(ds.take(d@.len() as int) =~= ds);
    let ghost k0 = track_views(kept@);
    let ghost s0 = track_views(spare@);
    if kept.len() < limit / 2 + limit % 2 {
        let mut j: usize = 0;
        while j < spare.len()
            invariant
                j <= spare@.len(),
                s0 == track_views(spare@),
                track_views(kept@) == k0 + s0.take(j as int),
            decreases spare@.len() - j,
        {
            let ghost before = track_views(kept@);
            kept.push(spare[j].duplicate());
            assert(track_views(kept@) =~= before.push(spare@[j as int]@));
            assert(s0.take(j + 1) =~= s0.take(j as int).push(spare@[j as int]@));
            assert(k0 + s0.take(j + 1) =~= (k0 + s0.take(j as int)).push(spare@[j as int]@));
            j = j + 1;
        }
        assert(s0.take(spare@.len() as int) =~= s0);
    }
    let ghost all = track_views(kept@);
    kept.truncate(limit);
    assert(all.len() <= limit ==> track_views(kept@) =~= all);
    assert(all.len() > limit ==> track_views(kept@) =~= all.take(limit as int));
    kept
}

/// No artist contributes more than `max` seeds to a diversified list.
pub proof fn law_diverse_seeds_cap_each_artist(s: Seq<SeedView>, max: nat, key: Seq<char>)
    requires
        key.len() > 0,
    ensures
        seed_artist_count(diverse_spec(s, max), key) <= max,
    decreases s.len(),
{
    if s.len() > 0 {
        let out = diverse_spec(s.drop_last(), max);
        law_diverse_seeds_cap_each_artist(s.drop_last(), max, key);
        lemma_seed_count_push(out, s.last(), key);
    }
}

/// Every track of the deduplicated list comes from the input.
proof fn lemma_dedupe_from_input(s: Seq<TrackView>)
    ensures
        forall|i: int| 0 <= i < dedupe_tracks_spec(s).len() ==> has_uri(s, #[trigger] dedupe_tracks_spec(s)[i].uri),
    decreases s.len(),
{
    if s.len() > 0 {
        let p = s.drop_last();
        lemma_dedupe_from_input(p);
        let d = dedupe_tracks_spec(s);
        let dp = dedupe_tracks_spec(p);
        assert forall|i: int| 0 <= i < d.len() implies has_uri(s, #[trigger] d[i].uri) by {
            if i < dp.len() {
                assert(d[i] == dp[i]);
                let j = choose|j: int| 0 <= j < p.len() && (#[trigger] p[j]).uri == dp[i].uri;
                assert(s[j] == p[j]);
            } else {
                assert(d[i] == s.last());
                assert(s[s.len() - 1] == s.last());
            }
        }
    }
}

/// A deduplicated list never holds two tracks with the same URI.
pub proof fn law_dedupe_tracks_unique_uris(s: Seq<TrackView>)
    ensures
        forall|i: int, j: int|
            0 <= i < j < dedupe_tracks_spec(s).len() ==> (#[trigger] dedupe_tracks_spec(s)[i]).uri
                != (#[trigger] dedupe_tracks_spec(s)[j]).uri,
    decreases s.len(),
{
    if s.len() > 0 {
        let p = s.drop_last();
        law_dedupe_tracks_unique_uris(p);
        lemma_dedupe_from_input(p);
        let d = dedupe_tracks_spec(s);
        let dp = dedupe_tracks_spec(p);
        assert forall|i: int, j: int| 0 <= i < j < d.len() implies (#[trigger] d[i]).uri != (#[trigger] d[j]).uri by {
            if j < dp.len() {
                assert(d[i] == dp[i]);
                assert(d[j] == dp[j]);
            } else {
                assert(d[j] == s.last());
                assert(d[i] == dp[i]);
                assert(has_uri(p, dp[i].uri));
            }
        }
    }
}

proof fn lemma_split_sizes(s: Seq<TrackView>, excl: Seq<Seq<char>>, max: nat)
    ensures
        curate_split(s, excl, max).0.len() + curate_split(s, excl, max).1.len() == s.len(),
    decreases s.len(),
{
    if s.len() > 0 {
        lemma_split_sizes(s.drop_last(), excl, max);
    }
}

/// A curated row is never starved: it holds at most `limit` tracks and at
/// least as many as half the limit (rounded up), or every deduplicated
/// track when there are fewer.
pub proof fn law_curated_row_is_not_starved(s: Seq<TrackView>, excl: Seq<Seq<char>>, max: nat, limit: nat)
    ensures
        curate_spec(s, excl, max, limit).len() <= limit,
        ({
            let d = dedupe_canonical_spec(dedupe_tracks_spec(s));
            let floor = if d.len() < (limit + 1) / 2 {
                d.len()
            } else {
                (limit + 1) / 2
            };
            curate_spec(s, excl, max, limit).len() >= floor
        }),
{
    let d = dedupe_canonical_spec(dedupe_tracks_spec(s));
    lemma_split_sizes(d, excl, max);
}

} // verus!
