//! Seed handling and candidate hygiene of the cross-platform discovery
//! engine: parsing a typed seed, rejecting re-uploads and low-quality
//! variants of the seed, and picking the provider hit that really is the
//! candidate.

use vstd::prelude::*;
use crate::normalize::{
    canonical_title, canonical_title_spec, has_variant_token, has_variant_token_spec,
    normalise_text, normalise_text_spec,
};
use crate::text::{
    chars_of, concat, contains, find, find_first, find_index, lowercase, seq_eq, string_of,
    to_lowercase, trim, trim_chars, trim_str,
};
use crate::track::{Track, TrackView, copy_opt_string, opt_view};

verus! {

broadcast use vstd::string::group_string_axioms;

/// The track a discovery run starts from.
#[derive(Debug)]
pub struct SimilarToSeed {
    pub artist: String,
    pub title: String,
    pub mbid: Option<String>,
}

/// Which candidate sources a discovery run asks.
#[derive(Clone, Copy, Debug, PartialEq, Eq, Structural)]
pub struct DiscoverySourcePrefs {
    pub soundcloud: bool,
    pub listenbrainz: bool,
    pub lastfm: bool,
}

impl Default for DiscoverySourcePrefs {
    /// SoundCloud related tracks and Last.fm on, ListenBrainz opt-in.
    fn default() -> (r: Self)
        ensures
            r.soundcloud && !r.listenbrainz && r.lastfm,
    {
        DiscoverySourcePrefs { soundcloud: true, listenbrainz: false, lastfm: true }
    }
}

/// `(artist, title)` read from free text: split at the first `" - "` of the
/// trimmed input, both halves trimmed; without a separator the whole trimmed
/// input is the title and the artist is empty.
pub open spec fn seed_parts(s: Seq<char>) -> (Seq<char>, Seq<char>) {
    let t = trim(s);
    match find_first(t, " - "@) {
        Some(i) => (trim(t.take(i)), trim(t.skip(i + 3))),
        None => (Seq::empty(), t),
    }
}

impl SimilarToSeed {
    /// Parse "Artist - Title" (or just a title) typed by the user.
    pub fn from_input(s: &str) -> (r: Self)
        ensures
            (r.artist@, r.title@) == seed_parts(s@),
            r.mbid is None,
    {
        proof {
            reveal_strlit(" - ");
        }
        let v = chars_of(s);
        let t = trim_chars(&v);
        let sep = chars_of(" - ");
        assert(sep@.len() == 3);
        let n = t.len();
        match find_index(&t, &sep) {
            Some(i) => {
                assert(i + 3 <= n);
                let mut head: Vec<char> = Vec::new();
                let mut k: usize = 0;
                while k < i
                    invariant
                        k <= i,
                        i + 3 <= t@.len(),
                        head@ == t@.take(k as int),
                    decreases i - k,
                {
                    head.push(t[k]);
                    assert(t@.take(k as int).push(t@[k as int]) =~= t@.take(k + 1));
                    k = k + 1;
                }
                let mut tail: Vec<char> = Vec::new();
                let mut k: usize = i + 3;
                while k < t.len()
                    invariant
                        i + 3 <= k <= t@.len(),
                        tail@ == t@.subrange(i + 3, k as int),
                    decreases t.len() - k,
                {
                    tail.push(t[k]);
                    assert(t@.subrange(i + 3, k as int).push(t@[k as int]) =~= t@.subrange(
                        i + 3,
                        k + 1,
                    ));
                    k = k + 1;
                }
                assert(tail@ =~= t@.skip(i + 3));
                let a = trim_chars(&head);
                let b = trim_chars(&tail);
                SimilarToSeed { artist: string_of(&a), title: string_of(&b), mbid: None }
            },
            None => SimilarToSeed { artist: String::new(), title: string_of(&t), mbid: None },
        }
    }
}

/// A candidate is a low-quality variant when it carries a variant marker the
/// seed itself does not.
pub open spec fn is_low_quality_variant_spec(title: Seq<char>, seed_title: Seq<char>) -> bool {
    !has_variant_token_spec(seed_title) && has_variant_token_spec(title)
}

/// Remixes, speed edits, covers or live takes of a seed that is none of those.
pub fn is_low_quality_variant(title: &str, seed: &SimilarToSeed) -> (r: bool)
    ensures
        r == is_low_quality_variant_spec(title@, seed.title@),
{
    !has_variant_token(seed.title.as_str()) && has_variant_token(title)
}

/// A candidate is the seed re-uploaded: same canonical title as a seed whose
/// title is not blank, and either the seed names no artist or one normalised
/// artist name contains the other.
pub open spec fn is_seed_reupload_spec(
    title: Seq<char>,
    artist: Seq<char>,
    seed_title: Seq<char>,
    seed_artist: Seq<char>,
) -> bool {
    if trim(seed_title).len() == 0 || canonical_title_spec(title) != canonical_title_spec(
        seed_title,
    ) {
        false
    } else {
        let sa = normalise_text_spec(seed_artist);
        let a = normalise_text_spec(artist);
        sa.len() == 0 || contains(a, sa) || contains(sa, a)
    }
}

/// Whether a candidate titled `title` by `artist` is the seed itself again.
pub fn is_seed_reupload(title: &str, artist: &str, seed: &SimilarToSeed) -> (r: bool)
    ensures
        r == is_seed_reupload_spec(title@, artist@, seed.title@, seed.artist@),
{
    let st = trim_str(seed.title.as_str());
    if st.as_str().is_empty() {
        return false;
    }
    let ct = canonical_title(title);
    let cs = canonical_title(seed.title.as_str());
    if ct != cs {
        return false;
    }
    let seed_artist = normalise_text(seed.artist.as_str());
    if seed_artist.as_str().is_empty() {
        return true;
    }
    let a = normalise_text(artist);
    let av = chars_of(a.as_str());
    let sv = chars_of(seed_artist.as_str());
    find(&av, &sv) || find(&sv, &av)
}

/// Some credited artist matches the wanted (normalised) artist: one
/// normalised name contains the other.
pub open spec fn credits_artist(t: TrackView, want_artist: Seq<char>) -> bool {
    exists|k: int|
        0 <= k < t.artists.len() && {
            let got = normalise_text_spec(#[trigger] t.artists[k].name);
            contains(got, want_artist) || contains(want_artist, got)
        }
}

/// The hit is the candidate: same canonical title and, when an artist is
/// wanted, a credited artist that matches it.
pub open spec fn is_best_match(t: TrackView, artist: Seq<char>, title: Seq<char>) -> bool {
    canonical_title_spec(t.title) == canonical_title_spec(title) && (normalise_text_spec(
        artist,
    ).len() == 0 || credits_artist(t, normalise_text_spec(artist)))
}

/// The first search hit that is really the wanted track, copied.
pub fn pick_best_match(tracks: &Vec<Track>, artist: &str, title: &str) -> (r: Option<Track>)
    ensures
        match r {
            Some(t) => exists|i: int|
                0 <= i < tracks@.len() && tracks@[i]@ == t@ && is_best_match(
                    tracks@[i]@,
                    artist@,
                    title@,
                ) && forall|j: int|
                    0 <= j < i ==> !is_best_match(#[trigger] tracks@[j]@, artist@, title@),
            None => forall|j: int|
                0 <= j < tracks@.len() ==> !is_best_match(#[trigger] tracks@[j]@, artist@, title@),
        },
{
    let want_title = canonical_title(title);
    let want_artist = normalise_text(artist);
    let wv = chars_of(want_artist.as_str());
    let mut i: usize = 0;
    while i < tracks.len()
        invariant
            i <= tracks@.len(),
            want_title@ == canonical_title_spec(title@),
            wv@ == normalise_text_spec(artist@),
            forall|j: int| 0 <= j < i ==> !is_best_match(#[trigger] tracks@[j]@, artist@, title@),
        decreases tracks@.len() - i,
    {
        let t = &tracks[i];
        let ct = canonical_title(t.title.as_str());
        if ct == want_title {
            let mut ok = wv.len() == 0;
            let mut k: usize = 0;
            while k < t.artists.len() && !ok
                invariant
                    k <= t.artists@.len(),
                    wv@ == normalise_text_spec(artist@),
                    ok ==> (wv@.len() == 0 || credits_artist(t@, wv@)),
                    !ok ==> wv@.len() > 0 && forall|m: int|
                        0 <= m < k ==> {
                            let got = normalise_text_spec(#[trigger] t@.artists[m].name);
                            !(contains(got, wv@) || contains(wv@, got))
                        },
                decreases t.artists@.len() - k,
            {
                let got = normalise_text(t.artists[k].name.as_str());
                let gv = chars_of(got.as_str());
                assert(t@.artists[k as int].name == t.artists@[k as int].name@);
                if find(&gv, &wv) || find(&wv, &gv) {
                    ok = true;
                }
                k = k + 1;
            }
            if ok {
                return Some(t.duplicate());
            }
        }
        i = i + 1;
    }
    None
}


/// One ranked discovery result, playable on SoundCloud, Spotify or both.
/// The ranking score is kept in thousandths.
#[derive(Debug)]
pub struct DiscoveryResult {
    pub mbid: Option<String>,
    pub title: String,
    pub artist: String,
    pub cover_url: Option<String>,
    pub spotify: Option<Track>,
    pub soundcloud: Option<Track>,
    pub score_milli: u32,
    pub rationale: String,
}

/// What a discovery result holds, as mathematical values.
pub ghost struct DiscoveryResultView {
    pub mbid: Option<Seq<char>>,
    pub title: Seq<char>,
    pub artist: Seq<char>,
    pub cover_url: Option<Seq<char>>,
    pub spotify: Option<TrackView>,
    pub soundcloud: Option<TrackView>,
    pub score_milli: u32,
    pub rationale: Seq<char>,
}

/// The view of an optional track.
pub open spec fn opt_track_view(t: Option<Track>) -> Option<TrackView> {
    match t {
        Some(x) => Some(x@),
        None => None,
    }
}

impl View for DiscoveryResult {
    type V = DiscoveryResultView;

    open spec fn view(&self) -> DiscoveryResultView {
        DiscoveryResultView {
            mbid: opt_view(self.mbid),
            title: self.title@,
            artist: self.artist@,
            cover_url: opt_view(self.cover_url),
            spotify: opt_track_view(self.spotify),
            soundcloud: opt_track_view(self.soundcloud),
            score_milli: self.score_milli,
            rationale: self.rationale@,
        }
    }
}

/// The views of a list of results.
pub open spec fn result_views(s: Seq<DiscoveryResult>) -> Seq<DiscoveryResultView> {
    s.map_values(|r: DiscoveryResult| r@)
}

/// A copy of an optional track.
pub fn copy_opt_track(t: &Option<Track>) -> (r: Option<Track>)
    ensures
        opt_track_view(r) == opt_track_view(*t),
{
    match t {
        Some(x) => Some(x.duplicate()),
        None => None,
    }
}

impl DiscoveryResult {
    /// The track to play: the SoundCloud one when there is one, else Spotify's.
    pub open spec fn play_target_spec(self) -> Option<TrackView> {
        match self.soundcloud {
            Some(t) => Some(t@),
            None => opt_track_view(self.spotify),
        }
    }

    /// The track to play: SoundCloud first, else Spotify.
    pub fn play_target(&self) -> (r: Option<Track>)
        ensures
            opt_track_view(r) == self.play_target_spec(),
    {
        match &self.soundcloud {
            Some(t) => Some(t.duplicate()),
            None => copy_opt_track(&self.spotify),
        }
    }

    /// A field-for-field copy.
    pub fn duplicate(&self) -> (r: DiscoveryResult)
        ensures
            r@ == self@,
    {
        DiscoveryResult {
            mbid: copy_opt_string(&self.mbid),
            title: self.title.clone(),
            artist: self.artist.clone(),
            cover_url: copy_opt_string(&self.cover_url),
            spotify: copy_opt_track(&self.spotify),
            soundcloud: copy_opt_track(&self.soundcloud),
            score_milli: self.score_milli,
            rationale: self.rationale.clone(),
        }
    }
}

/// Two picks from the main list, then one from the profile list, until both
/// run out.
pub open spec fn blend<A>(main: Seq<A>, profile: Seq<A>) -> Seq<A>
    decreases main.len() + profile.len(),
{
    if main.len() == 0 && profile.len() == 0 {
        Seq::empty()
    } else {
        let m = if main.len() >= 2 {
            2int
        } else {
            main.len() as int
        };
        let p = if profile.len() >= 1 {
            1int
        } else {
            0int
        };
        main.take(m) + profile.take(p) + blend(main.skip(m), profile.skip(p))
    }
}

/// The key radio results are deduplicated on: the canonical title, or the
/// lowercased artist and title joined by `|` when the title has no core.
pub open spec fn radio_key(r: DiscoveryResultView) -> Seq<char> {
    let canon = canonical_title_spec(r.title);
    if canon.len() == 0 {
        lowercase(r.artist) + "|"@ + lowercase(r.title)
    } else {
        canon
    }
}

/// The first result of each radio key, in order.
pub open spec fn first_of_each_key(s: Seq<DiscoveryResultView>) -> Seq<DiscoveryResultView>
    decreases s.len(),
{
    if s.len() == 0 {
        Seq::empty()
    } else {
        let before = first_of_each_key(s.drop_last());
        if exists|k: int| 0 <= k < s.len() - 1 && radio_key(#[trigger] s[k]) == radio_key(s.last()) {
            before
        } else {
            before.push(s.last())
        }
    }
}

/// The radio key of a result.
fn radio_key_of(r: &DiscoveryResult) -> (k: Vec<char>)
    ensures
        k@ == radio_key(r@),
{
    let canon = canonical_title(r.title.as_str());
    if canon.as_str().is_empty() {
        let a = to_lowercase(r.artist.as_str());
        let t = to_lowercase(r.title.as_str());
        let ab = concat(a.as_str(), "|");
        let full = concat(ab.as_str(), t.as_str());
        chars_of(full.as_str())
    } else {
        chars_of(canon.as_str())
    }
}

/// Whether some key in `keys` equals `k`.
pub fn contains_key(keys: &Vec<Vec<char>>, k: &Vec<char>) -> (r: bool)
    ensures
        r == exists|i: int| 0 <= i < keys@.len() && (#[trigger] keys@[i])@ == k@,
{
    let mut i: usize = 0;
    while i < keys.len()
        invariant
            i <= keys@.len(),
            forall|j: int| 0 <= j < i ==> (#[trigger] keys@[j])@ != k@,
        decreases keys@.len() - i,
    {
        if seq_eq(&keys[i], k) {
            return true;
        }
        i = i + 1;
    }
    false
}

/// The results in blended order.
fn blended(main: &Vec<DiscoveryResult>, profile: &Vec<DiscoveryResult>) -> (r: Vec<DiscoveryResult>)
    ensures
        result_views(r@) == blend(result_views(main@), result_views(profile@)),
{
    let mut out: Vec<DiscoveryResult> = Vec::new();
    let mut a: usize = 0;
    let mut b: usize = 0;
    let ghost rm = result_views(main@);
    let ghost rp = result_views(profile@);
    assert(rm.skip(0) =~= rm);
    assert(rp.skip(0) =~= rp);
    assert(result_views(out@) + blend(rm.skip(0), rp.skip(0)) =~= blend(rm, rp));
    while a < main.len() || b < profile.len()
        invariant
            a <= main@.len(),
            b <= profile@.len(),
            rm == result_views(main@),
            rp == result_views(profile@),
            result_views(out@) + blend(rm.skip(a as int), rp.skip(b as int)) == blend(rm, rp),
        decreases main@.len() - a + profile@.len() - b,
    {
        let ghost sm = rm.skip(a as int);
        let ghost sp = rp.skip(b as int);
        let ghost o = result_views(out@);
        let ghost m: int = if sm.len() >= 2 { 2 } else { sm.len() as int };
        let ghost p: int = if sp.len() >= 1 { 1 } else { 0 };
        assert(blend(sm, sp) == sm.take(m) + sp.take(p) + blend(sm.skip(m), sp.skip(p)));
        let a0 = a;
        if a < main.len() {
            let ghost before = result_views(out@);
            out.push(main[a].duplicate());
            assert(result_views(out@) =~= before.push(rm[a as int]));
            a = a + 1;
        }
        if a < main.len() {
            let ghost before = result_views(out@);
            out.push(main[a].duplicate());
            assert(result_views(out@) =~= before.push(rm[a as int]));
            a = a + 1;
        }
        assert(a - a0 == m);
        assert(result_views(out@) =~= o + sm.take(m));
        if b < profile.len() {
            let ghost before = result_views(out@);
            out.push(profile[b].duplicate());
            assert(result_views(out@) =~= before.push(rp[b as int]));
            b = b + 1;
        }
        assert(rm.skip(a as int) =~= sm.skip(m));
        assert(rp.skip(b as int) =~= sp.skip(p));
        assert(result_views(out@) =~= o + sm.take(m) + sp.take(p));
    }
    assert(rm.skip(a as int) =~= Seq::<DiscoveryResultView>::empty());
    assert(rp.skip(b as int) =~= Seq::<DiscoveryResultView>::empty());
    assert(result_views(out@) + Seq::<DiscoveryResultView>::empty() =~= result_views(out@));
    out
}

/// Some result of `s` has radio key `x`.
pub open spec fn has_radio_key(s: Seq<DiscoveryResultView>, x: Seq<char>) -> bool {
    exists|k: int| 0 <= k < s.len() && radio_key(#[trigger] s[k]) == x
}

/// Keeping the first of each key keeps every key.
proof fn lemma_first_of_each_key_keys(s: Seq<DiscoveryResultView>, x: Seq<char>)
    ensures
        has_radio_key(first_of_each_key(s), x) == has_radio_key(s, x),
    decreases s.len(),
{
    if s.len() > 0 {
        let d = s.drop_last();
        let f = first_of_each_key(s);
        let fd = first_of_each_key(d);
        lemma_first_of_each_key_keys(d, x);
        if has_radio_key(d, x) {
            let k = choose|k: int| 0 <= k < d.len() && radio_key(#[trigger] d[k]) == x;
            assert(s[k] == d[k]);
        }
        if has_radio_key(fd, x) {
            let j = choose|j: int| 0 <= j < fd.len() && radio_key(#[trigger] fd[j]) == x;
            assert(f[j] == fd[j]);
        }
        if has_radio_key(s, x) {
            let k = choose|k: int| 0 <= k < s.len() && radio_key(#[trigger] s[k]) == x;
            if k < s.len() - 1 {
                assert(d[k] == s[k]);
            } else if exists|k2: int| 0 <= k2 < s.len() - 1 && radio_key(#[trigger] s[k2]) == radio_key(s.last()) {
                let k2 = choose|k2: int| 0 <= k2 < s.len() - 1 && radio_key(#[trigger] s[k2]) == radio_key(s.last());
                assert(d[k2] == s[k2]);
            } else {
                assert(f[f.len() - 1] == s.last());
            }
        }
        if has_radio_key(f, x) {
            let j = choose|j: int| 0 <= j < f.len() && radio_key(#[trigger] f[j]) == x;
            if j < fd.len() {
                assert(fd[j] == f[j]);
            } else {
                assert(s[s.len() - 1] == f[j]);
            }
        }
    }
}

/// Keep the first result of each radio key.
fn dedupe_radio(v: &Vec<DiscoveryResult>) -> (r: Vec<DiscoveryResult>)
    ensures
        result_views(r@) == first_of_each_key(result_views(v@)),
{
    let ghost rv = result_views(v@);
    let mut out: Vec<DiscoveryResult> = Vec::new();
    let mut keys: Vec<Vec<char>> = Vec::new();
    let mut i: usize = 0;
    assert(rv.take(0) =~= Seq::<DiscoveryResultView>::empty());
    while i < v.len()
        invariant
            i <= v@.len(),
            rv == result_views(v@),
            result_views(out@) == first_of_each_key(rv.take(i as int)),
            keys@.len() == out@.len(),
            forall|j: int| 0 <= j < keys@.len() ==> (#[trigger] keys@[j])@ == radio_key(result_views(out@)[j]),
        decreases v@.len() - i,
    {
        let key = radio_key_of(&v[i]);
        let ghost t = rv.take(i + 1);
        let ghost o = result_views(out@);
        assert(t.drop_last() =~= rv.take(i as int));
        assert(t.last() == rv[i as int]);
        let seen = contains_key(&keys, &key);
        proof {
            lemma_first_of_each_key_keys(rv.take(i as int), key@);
            if seen {
                let j = choose|j: int| 0 <= j < keys@.len() && (#[trigger] keys@[j])@ == key@;
                assert(radio_key(o[j]) == key@);
                assert(has_radio_key(o, key@));
                let k = choose|k: int| 0 <= k < rv.take(i as int).len() && radio_key(#[trigger] rv.take(i as int)[k]) == key@;
                assert(t[k] == rv.take(i as int)[k]);
            } else {
                if exists|k: int| 0 <= k < t.len() - 1 && radio_key(#[trigger] t[k]) == radio_key(t.last()) {
                    let k = choose|k: int| 0 <= k < t.len() - 1 && radio_key(#[trigger] t[k]) == radio_key(t.last());
                    assert(rv.take(i as int)[k] == t[k]);
                    assert(has_radio_key(rv.take(i as int), key@));
                    let j = choose|j: int| 0 <= j < o.len() && radio_key(#[trigger] o[j]) == key@;
                    assert(keys@[j]@ == key@);
                }
            }
        }
        if !seen {
            out.push(v[i].duplicate());
            assert(result_views(out@) =~= o.push(rv[i as int]));
            keys.push(key);
        }
        i = i + 1;
    }
    assert(rv.take(v@.len() as int) =~= rv);
    out
}

/// Blend two radio result lists 2:1 (the clicked seed's neighbourhood
/// first, then the taste-profile seed's), keeping the first result of each
/// song so one song cannot enter once per source.
pub fn interleave_radio(main: Vec<DiscoveryResult>, profile: Vec<DiscoveryResult>) -> (r: Vec<DiscoveryResult>)
    ensures
        result_views(r@) == first_of_each_key(blend(result_views(main@), result_views(profile@))),
{
    let b = blended(&main, &profile);
    dedupe_radio(&b)
}

} // verus!
