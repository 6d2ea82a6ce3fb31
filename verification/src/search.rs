//! Multi-provider search: how the providers' answers are combined into one
//! result list and one artist row. Asking the providers is the caller's
//! business; a provider that fails drops out rather than blanking the
//! results.

use vstd::prelude::*;
use vstd::hash_set::StringHashSet;
use crate::normalize::{match_key, match_key_spec};
use crate::text::{concat, str_eq, trim, trim_str};
use crate::track::{ProviderId, Track, TrackView, copy_opt_string, opt_view, track_views};

verus! {

broadcast use vstd::string::group_string_axioms;

/// How many artist hits the row shows.
pub const MAX_ARTIST_HITS: usize = 8;

/// An artist search hit.
#[derive(Debug)]
pub struct Artist {
    pub uri: String,
    pub provider: ProviderId,
    pub name: String,
    pub image_url: Option<String>,
    pub genres: Vec<String>,
    pub permalink_url: Option<String>,
}

/// An artist hit as mathematical values.
pub ghost struct ArtistHitView {
    pub uri: Seq<char>,
    pub provider: ProviderId,
    pub name: Seq<char>,
    pub image_url: Option<Seq<char>>,
    pub genres: Seq<Seq<char>>,
    pub permalink_url: Option<Seq<char>>,
}

impl View for Artist {
    type V = ArtistHitView;

    open spec fn view(&self) -> ArtistHitView {
        ArtistHitView {
            uri: self.uri@,
            provider: self.provider,
            name: self.name@,
            image_url: opt_view(self.image_url),
            genres: crate::text::string_views(self.genres@),
            permalink_url: opt_view(self.permalink_url),
        }
    }
}

/// The views of a list of artist hits.
pub open spec fn artist_hit_views(s: Seq<Artist>) -> Seq<ArtistHitView> {
    s.map_values(|a: Artist| a@)
}

/// The names' match keys of a list of hits, as a set.
pub open spec fn hit_keys(s: Seq<ArtistHitView>) -> Set<Seq<char>> {
    Set::new(|k: Seq<char>| exists|j: int| 0 <= j < s.len() && match_key_spec((#[trigger] s[j]).name) == k)
}

/// The SoundCloud hits that join the row: those whose name's key is neither
/// a Spotify key nor the key of an earlier SoundCloud hit that joined.
pub open spec fn sc_joiners(taken: Set<Seq<char>>, sc: Seq<ArtistHitView>) -> Seq<ArtistHitView>
    decreases sc.len(),
{
    if sc.len() == 0 {
        Seq::empty()
    } else {
        let p = sc_joiners(taken, sc.drop_last());
        let k = match_key_spec(sc.last().name);
        if taken.contains(k) || hit_keys(p).contains(k) {
            p
        } else {
            p.push(sc.last())
        }
    }
}

/// The artist row: every Spotify hit, then the SoundCloud hits whose names
/// Spotify did not cover, at most eight in all.
pub open spec fn merged_hits(spotify: Seq<ArtistHitView>, sc: Seq<ArtistHitView>) -> Seq<ArtistHitView> {
    let all = spotify + sc_joiners(hit_keys(spotify), sc);
    if all.len() <= MAX_ARTIST_HITS {
        all
    } else {
        all.take(MAX_ARTIST_HITS as int)
    }
}

impl Artist {
    /// A field-for-field copy.
    pub fn duplicate(&self) -> (r: Artist)
        ensures
            r@ == self@,
    {
        let mut genres: Vec<String> = Vec::new();
        let mut i: usize = 0;
        while i < self.genres.len()
            invariant
                i <= self.genres@.len(),
                crate::text::string_views(genres@) == crate::text::string_views(self.genres@).take(i as int),
            decreases self.genres@.len() - i,
        {
            let ghost before = crate::text::string_views(genres@);
            genres.push(self.genres[i].clone());
            assert(crate::text::string_views(genres@) =~= before.push(self.genres@[i as int]@));
            assert(crate::text::string_views(self.genres@).take(i + 1) =~= crate::text::string_views(
                self.genres@,
            ).take(i as int).push(self.genres@[i as int]@));
            i = i + 1;
        }
        assert(crate::text::string_views(self.genres@).take(self.genres@.len() as int)
            =~= crate::text::string_views(self.genres@));
        Artist {
            uri: self.uri.clone(),
            provider: self.provider,
            name: self.name.clone(),
            image_url: copy_opt_string(&self.image_url),
            genres,
            permalink_url: copy_opt_string(&self.permalink_url),
        }
    }
}

proof fn lemma_hit_keys_push(s: Seq<ArtistHitView>, a: ArtistHitView)
    ensures
        hit_keys(s.push(a)) == hit_keys(s).insert(match_key_spec(a.name)),
{
    let t = s.push(a);
    assert forall|k: Seq<char>| hit_keys(t).contains(k) == hit_keys(s).insert(match_key_spec(a.name)).contains(k) by {
        if hit_keys(t).contains(k) {
            let j = choose|j: int| 0 <= j < t.len() && match_key_spec((#[trigger] t[j]).name) == k;
            if j < s.len() {
                assert(s[j] == t[j]);
            }
        }
        if hit_keys(s).contains(k) {
            let j = choose|j: int| 0 <= j < s.len() && match_key_spec((#[trigger] s[j]).name) == k;
            assert(t[j] == s[j]);
        }
        if k == match_key_spec(a.name) {
            assert(t[s.len() as int] == a);
        }
    }
    assert(hit_keys(t) =~= hit_keys(s).insert(match_key_spec(a.name)));
}

/// Artist hits: Spotify first (a full profile is behind the click), then
/// SoundCloud users only for names Spotify did not cover; eight at most.
pub fn merge_artist_hits(spotify: Vec<Artist>, soundcloud: Vec<Artist>) -> (r: Vec<Artist>)
    ensures
        artist_hit_views(r@) == merged_hits(artist_hit_views(spotify@), artist_hit_views(soundcloud@)),
{
    let ghost sp = artist_hit_views(spotify@);
    let ghost sc = artist_hit_views(soundcloud@);
    let mut seen = StringHashSet::new();
    let mut i: usize = 0;
    assert(hit_keys(sp.take(0)) =~= Set::<Seq<char>>::empty());
    while i < spotify.len()
        invariant
            i <= spotify@.len(),
            sp == artist_hit_views(spotify@),
            seen@ == hit_keys(sp.take(i as int)),
        decreases spotify@.len() - i,
    {
        let k = match_key(spotify[i].name.as_str());
        proof {
            assert(sp.take(i + 1) =~= sp.take(i as int).push(sp[i as int]));
            lemma_hit_keys_push(sp.take(i as int), sp[i as int]);
        }
        seen.insert(k);
        i = i + 1;
    }
    assert(sp.take(spotify@.len() as int) =~= sp);
    let mut merged: Vec<Artist> = Vec::new();
    let mut m: usize = 0;
    while m < spotify.len()
        invariant
            m <= spotify@.len(),
            sp == artist_hit_views(spotify@),
            artist_hit_views(merged@) == sp.take(m as int),
        decreases spotify@.len() - m,
    {
        let ghost before = artist_hit_views(merged@);
        merged.push(spotify[m].duplicate());
        assert(artist_hit_views(merged@) =~= before.push(sp[m as int]));
        assert(sp.take(m + 1) =~= sp.take(m as int).push(sp[m as int]));
        m = m + 1;
    }
    let ghost taken = hit_keys(sp);
    let mut j: usize = 0;
    assert(sc_joiners(taken, sc.take(0)) =~= Seq::<ArtistHitView>::empty());
    assert(artist_hit_views(merged@) =~= sp + sc_joiners(taken, sc.take(0)));
    assert(hit_keys(Seq::<ArtistHitView>::empty()) =~= Set::<Seq<char>>::empty());
    assert(seen@ =~= taken.union(hit_keys(sc_joiners(taken, sc.take(0)))));
    while j < soundcloud.len()
        invariant
            j <= soundcloud@.len(),
            sc == artist_hit_views(soundcloud@),
            taken == hit_keys(sp),
            artist_hit_views(merged@) == sp + sc_joiners(taken, sc.take(j as int)),
            seen@ == taken.union(hit_keys(sc_joiners(taken, sc.take(j as int)))),
        decreases soundcloud@.len() - j,
    {
        let ghost q = sc.take(j + 1);
        let ghost p = sc_joiners(taken, sc.take(j as int));
        assert(q.drop_last() =~= sc.take(j as int));
        assert(q.last() == sc[j as int]);
        let k = match_key(soundcloud[j].name.as_str());
        let fresh = seen.insert(k);
        if fresh {
            let ghost before = artist_hit_views(merged@);
            merged.push(soundcloud[j].duplicate());
            proof {
                lemma_hit_keys_push(p, sc[j as int]);
                assert(artist_hit_views(merged@) =~= before.push(sc[j as int]));
                assert(sp + p.push(sc[j as int]) =~= (sp + p).push(sc[j as int]));
                assert(taken.union(hit_keys(p)).insert(match_key_spec(sc[j as int].name)) =~= taken.union(
                    hit_keys(p).insert(match_key_spec(sc[j as int].name)),
                ));
            }
        }
        j = j + 1;
    }
    assert(sc.take(soundcloud@.len() as int) =~= sc);
    let ghost all = artist_hit_views(merged@);
    merged.truncate(MAX_ARTIST_HITS);
    assert(all.len() <= MAX_ARTIST_HITS ==> artist_hit_views(merged@) =~= all);
    assert(all.len() > MAX_ARTIST_HITS ==> artist_hit_views(merged@) =~= all.take(MAX_ARTIST_HITS as int));
    merged
}

/// `head` in front of `tail`.
pub fn prepend(head: Vec<Track>, tail: Vec<Track>) -> (r: Vec<Track>)
    ensures
        track_views(r@) == track_views(head@) + track_views(tail@),
{
    let mut out = head;
    let ghost h = track_views(out@);
    let mut i: usize = 0;
    while i < tail.len()
        invariant
            i <= tail@.len(),
            track_views(out@) == h + track_views(tail@).take(i as int),
        decreases tail@.len() - i,
    {
        let ghost before = track_views(out@);
        out.push(tail[i].duplicate());
        assert(track_views(out@) =~= before.push(tail@[i as int]@));
        assert(track_views(tail@).take(i + 1) =~= track_views(tail@).take(i as int).push(tail@[i as int]@));
        i = i + 1;
    }
    assert(track_views(tail@).take(tail@.len() as int) =~= track_views(tail@));
    out
}

/// Round `i` onwards of alternating two lists: each round contributes the
/// `i`-th of `a` and then the `i`-th of `b`, each when there is one.
pub open spec fn interleave_from<A>(a: Seq<A>, b: Seq<A>, i: int) -> Seq<A>
    decreases a.len() + b.len() - i,
{
    if i < 0 || (i >= a.len() && i >= b.len()) {
        Seq::empty()
    } else {
        (if i < a.len() {
            seq![a[i]]
        } else {
            Seq::empty()
        }) + (if i < b.len() {
            seq![b[i]]
        } else {
            Seq::empty()
        }) + interleave_from(a, b, i + 1)
    }
}

/// Alternate the two lists, one from each in turn, then the rest of the
/// longer one.
pub open spec fn interleave_spec<A>(a: Seq<A>, b: Seq<A>) -> Seq<A> {
    interleave_from(a, b, 0)
}

/// Alternate two result lists, one track from each in turn.
pub fn interleave(a: Vec<Track>, b: Vec<Track>) -> (r: Vec<Track>)
    ensures
        track_views(r@) == interleave_spec(track_views(a@), track_views(b@)),
{
    let ghost av = track_views(a@);
    let ghost bv = track_views(b@);
    let mut out: Vec<Track> = Vec::new();
    let mut i: usize = 0;
    assert(interleave_spec(av, bv) =~= track_views(out@) + interleave_from(av, bv, 0));
    while i < a.len() || i < b.len()
        invariant
            av == track_views(a@),
            bv == track_views(b@),
            interleave_spec(av, bv) == track_views(out@) + interleave_from(av, bv, i as int),
        decreases a@.len() + b@.len() - i,
    {
        let ghost before = track_views(out@);
        if i < a.len() {
            out.push(a[i].duplicate());
        }
        if i < b.len() {
            out.push(b[i].duplicate());
        }
        let ghost step = (if i < a@.len() {
            seq![av[i as int]]
        } else {
            Seq::empty()
        }) + (if i < b@.len() {
            seq![bv[i as int]]
        } else {
            Seq::empty()
        });
        assert(track_views(out@) =~= before + step);
        assert(interleave_from(av, bv, i as int) == step + interleave_from(av, bv, i + 1));
        assert(before + (step + interleave_from(av, bv, i + 1)) =~= (before + step) + interleave_from(av, bv, i + 1));
        i = i + 1;
    }
    assert(interleave_from(av, bv, i as int) =~= Seq::<TrackView>::empty());
    assert(track_views(out@) + interleave_from(av, bv, i as int) =~= track_views(out@));
    out
}

/// What one provider's search gave: tracks and artists, or its error.
#[derive(Debug)]
pub struct ProviderHits {
    pub tracks: Vec<Track>,
    pub artists: Vec<Artist>,
}

/// What a search shows.
#[derive(Debug)]
pub struct SearchOutcome {
    pub tracks: Vec<Track>,
    pub artists: Vec<Artist>,
    pub error: Option<String>,
}

/// The result list of a search: the hi-res provider's tracks lead; then
/// Spotify and SoundCloud interleaved, or whichever of them answered; when
/// both failed, only the hi-res tracks, or nothing with an error naming
/// both failures when there are none.
pub open spec fn search_tracks_spec(
    hires: Seq<TrackView>,
    sc: Result<Seq<TrackView>, Seq<char>>,
    sp: Result<Seq<TrackView>, Seq<char>>,
) -> (Seq<TrackView>, Option<Seq<char>>) {
    match (sc, sp) {
        (Ok(s), Ok(p)) => (hires + interleave_spec(p, s), None),
        (Ok(s), Err(_)) => (hires + s, None),
        (Err(_), Ok(p)) => (hires + p, None),
        (Err(se), Err(pe)) => if hires.len() == 0 {
            (Seq::empty(), Some("both providers failed — sc: "@ + se + "; spotify: "@ + pe))
        } else {
            (hires, None)
        },
    }
}

/// The tracks of a provider answer, or its error.
pub open spec fn hit_tracks(r: Result<ProviderHits, String>) -> Result<Seq<TrackView>, Seq<char>> {
    match r {
        Ok(h) => Ok(track_views(h.tracks@)),
        Err(e) => Err(e@),
    }
}

/// The artists of a provider answer; none when it failed.
pub open spec fn hit_artists(r: Result<ProviderHits, String>) -> Seq<ArtistHitView> {
    match r {
        Ok(h) => artist_hit_views(h.artists@),
        Err(_) => Seq::empty(),
    }
}

/// Combine the providers' answers (the hi-res provider's tracks, empty when
/// it failed or is not connected) into what the search shows.
pub fn combine_search(
    hires: Vec<Track>,
    soundcloud: Result<ProviderHits, String>,
    spotify: Result<ProviderHits, String>,
) -> (r: SearchOutcome)
    ensures
        (track_views(r.tracks@), opt_view(r.error)) == search_tracks_spec(
            track_views(hires@),
            hit_tracks(soundcloud),
            hit_tracks(spotify),
        ),
        artist_hit_views(r.artists@) == merged_hits(hit_artists(spotify), hit_artists(soundcloud)),
{
    let ghost sc_t = hit_tracks(soundcloud);
    let ghost sp_t = hit_tracks(spotify);
    let ghost sc_a = hit_artists(soundcloud);
    let ghost sp_a = hit_artists(spotify);
    let (sc_tracks, sc_artists, sc_err) = match soundcloud {
        Ok(h) => (h.tracks, h.artists, None),
        Err(e) => (Vec::new(), Vec::new(), Some(e)),
    };
    let (sp_tracks, sp_artists, sp_err) = match spotify {
        Ok(h) => (h.tracks, h.artists, None),
        Err(e) => (Vec::new(), Vec::new(), Some(e)),
    };
    proof {
        assert(artist_hit_views(Seq::<Artist>::empty()) =~= Seq::<ArtistHitView>::empty());
    }
    let artists = merge_artist_hits(sp_artists, sc_artists);
    match (sc_err, sp_err) {
        (None, None) => {
            let mixed = interleave(sp_tracks, sc_tracks);
            SearchOutcome { tracks: prepend(hires, mixed), artists, error: None }
        },
        (None, Some(_)) => SearchOutcome { tracks: prepend(hires, sc_tracks), artists, error: None },
        (Some(_), None) => SearchOutcome { tracks: prepend(hires, sp_tracks), artists, error: None },
        (Some(se), Some(pe)) => {
            if hires.len() == 0 {
                let a = concat("both providers failed — sc: ", se.as_str());
                let b = concat(a.as_str(), "; spotify: ");
                let msg = concat(b.as_str(), pe.as_str());
                SearchOutcome { tracks: Vec::new(), artists, error: Some(msg) }
            } else {
                SearchOutcome { tracks: hires, artists, error: None }
            }
        },
    }
}

/// The artist row holds at most eight hits, and Spotify's lead it in
/// their own order.
pub proof fn law_spotify_hits_lead(spotify: Seq<ArtistHitView>, sc: Seq<ArtistHitView>)
    ensures
        merged_hits(spotify, sc).len() <= MAX_ARTIST_HITS,
        forall|i: int|
            0 <= i < spotify.len() && i < MAX_ARTIST_HITS ==> #[trigger] merged_hits(spotify, sc)[i]
                == spotify[i],
{
}


/// How many hits each provider is asked for.
pub const SEARCH_LIMIT: u32 = 15;

/// How long typing must pause before a search starts, in milliseconds.
pub const SEARCH_DEBOUNCE_MS: u64 = 250;

/// What a query searches for: the query trimmed; nothing when it is blank
/// (the results are then cleared).
pub fn search_text(query: &str) -> (r: Option<String>)
    ensures
        match r {
            Some(t) => t@ == trim(query@) && trim(query@).len() > 0,
            None => trim(query@).len() == 0,
        },
{
    let t = trim_str(query);
    if t.as_str().is_empty() {
        None
    } else {
        Some(t)
    }
}

/// Whether a search started for `snapshot` may still write its results:
/// only while the query box still holds exactly that text.
pub fn search_still_current(query_now: &str, snapshot: &str) -> (r: bool)
    ensures
        r == (query_now@ == snapshot@),
{
    str_eq(query_now, snapshot)
}

/// What the search box shows: the results and artist row of the last
/// finished search, the query they belong to, the spinner and the error.
#[derive(Debug)]
pub struct SearchState {
    pub results: Vec<Track>,
    pub artists: Vec<Artist>,
    pub is_searching: bool,
    pub error: Option<String>,
    /// The query `results` belong to; callers that act on Enter compare it
    /// with the query box before playing anything.
    pub results_for: String,
}

impl SearchState {
    /// Nothing searched yet.
    pub fn new() -> (r: SearchState)
        ensures
            r.results@.len() == 0,
            r.artists@.len() == 0,
            !r.is_searching,
            r.error is None,
            r.results_for@.len() == 0,
    {
        SearchState {
            results: Vec::new(),
            artists: Vec::new(),
            is_searching: false,
            error: None,
            results_for: String::new(),
        }
    }

    /// The debounce for the query `snapshot` ran out while the box holds
    /// `query_now`. A query that changed meanwhile writes nothing. A blank
    /// query clears the results, the artists and the error, records the
    /// query and stops the spinner. Otherwise the spinner starts, the error
    /// clears, and the trimmed text to ask the providers for comes back.
    pub fn begin_search(&mut self, snapshot: &str, query_now: &str) -> (r: Option<String>)
        ensures
            query_now@ != snapshot@ ==> *final(self) == *old(self) && r is None,
            query_now@ == snapshot@ && trim(snapshot@).len() == 0 ==> {
                &&& r is None
                &&& final(self).results@.len() == 0
                &&& final(self).artists@.len() == 0
                &&& final(self).error is None
                &&& final(self).results_for@ == snapshot@
                &&& !final(self).is_searching
            },
            query_now@ == snapshot@ && trim(snapshot@).len() > 0 ==> {
                &&& r matches Some(t) && t@ == trim(snapshot@)
                &&& *final(self) == (SearchState {
                    is_searching: true,
                    error: None,
                    ..*old(self)
                })
            },
    {
        if !search_still_current(query_now, snapshot) {
            return None;
        }
        match search_text(snapshot) {
            None => {
                self.results = Vec::new();
                self.artists = Vec::new();
                self.results_for = snapshot.to_string();
                self.is_searching = false;
                self.error = None;
                None
            },
            Some(t) => {
                self.is_searching = true;
                self.error = None;
                Some(t)
            },
        }
    }

    /// The providers answered the search for `snapshot` (combined by
    /// [`combine_search`]) while the box holds `query_now`. A query that
    /// changed meanwhile writes nothing: the newer search owns the spinner.
    /// Otherwise the combined tracks, artists and error are shown, the
    /// query is recorded and the spinner stops.
    pub fn finish_search(&mut self, snapshot: &str, query_now: &str, outcome: SearchOutcome)
        ensures
            query_now@ != snapshot@ ==> *final(self) == *old(self),
            query_now@ == snapshot@ ==> {
                &&& final(self).results == outcome.tracks
                &&& final(self).artists == outcome.artists
                &&& final(self).error == outcome.error
                &&& final(self).results_for@ == snapshot@
                &&& !final(self).is_searching
            },
    {
        if !search_still_current(query_now, snapshot) {
            return;
        }
        self.results = outcome.tracks;
        self.artists = outcome.artists;
        self.error = outcome.error;
        self.results_for = snapshot.to_string();
        self.is_searching = false;
    }
}

} // verus!
