//! "Same track, other platform": the 1:1 identity bridge from a track to
//! its best hit on every other provider, and the strict artist twin used to
//! augment an artist page. The searches themselves are the caller's.

use vstd::prelude::*;
use crate::normalize::{match_key, match_key_spec};
use crate::search::{artist_hit_views, Artist, ArtistHitView};
use crate::discovery::{copy_opt_track, opt_track_view};
use crate::text::{concat, starts_with, str_eq, str_starts_with};
use crate::track::{ProviderId, Track, TrackView};

verus! {

broadcast use vstd::string::group_string_axioms;

/// A track and its matches on the other providers.
#[derive(Debug)]
pub struct CrossPlatformMatch {
    pub source: Track,
    pub spotify: Option<Track>,
    pub soundcloud: Option<Track>,
}

impl CrossPlatformMatch {
    /// Something to play besides the track itself: a Spotify match for a
    /// track that is not Spotify's, or a SoundCloud match for one that is
    /// not SoundCloud's.
    pub open spec fn has_other_spec(&self) -> bool {
        (self.source.provider != ProviderId::Spotify && self.spotify is Some) || (self.source.provider
            != ProviderId::SoundCloud && self.soundcloud is Some)
    }

    /// Whether the bridge found anything to play besides the seed.
    pub fn has_other_provider(&self) -> (r: bool)
        ensures
            r == self.has_other_spec(),
    {
        let seed = self.source.provider;
        (seed != ProviderId::Spotify && self.spotify.is_some()) || (seed != ProviderId::SoundCloud
            && self.soundcloud.is_some())
    }

    /// Nothing found yet.
    pub fn new(source: Track) -> (r: CrossPlatformMatch)
        ensures
            r.source@ == source@,
            r.spotify is None,
            r.soundcloud is None,
    {
        CrossPlatformMatch { source, spotify: None, soundcloud: None }
    }

    /// Record a provider's top hit: Spotify's and SoundCloud's are kept,
    /// others are ignored; a failed or empty search records nothing.
    pub fn record_top(&mut self, provider: ProviderId, top: Option<Track>)
        ensures
            final(self).source@ == old(self).source@,
            opt_track_view(final(self).spotify) == if provider == ProviderId::Spotify && top is Some {
                opt_track_view(top)
            } else {
                opt_track_view(old(self).spotify)
            },
            opt_track_view(final(self).soundcloud) == if provider == ProviderId::SoundCloud && top is Some {
                opt_track_view(top)
            } else {
                opt_track_view(old(self).soundcloud)
            },
    {
        if let Some(t) = top {
            match provider {
                ProviderId::Spotify => {
                    self.spotify = Some(t);
                },
                ProviderId::SoundCloud => {
                    self.soundcloud = Some(t);
                },
                _ => {},
            }
        }
    }
}

/// The search a bridge runs: first credited artist, a space, the title.
pub fn bridge_query(source: &Track) -> (r: String)
    ensures
        r@ == source@.first_artist() + " "@ + source@.title,
{
    let a = source.first_artist_name();
    let b = concat(a.as_str(), " ");
    concat(b.as_str(), source.title.as_str())
}

/// The providers a bridge searches: every one but the seed's own.
pub fn searches_provider(seed: ProviderId, provider: ProviderId) -> (r: bool)
    ensures
        r == (provider != seed),
{
    provider != seed
}

/// What a finished bridge shows: the match when there is another provider
/// to play, else the "no match" message.
pub fn bridge_outcome(m: CrossPlatformMatch) -> (r: Result<CrossPlatformMatch, String>)
    ensures
        m.has_other_spec() ==> (r matches Ok(x) && x.source@ == m.source@ && opt_track_view(x.spotify)
            == opt_track_view(m.spotify) && opt_track_view(x.soundcloud) == opt_track_view(
            m.soundcloud,
        )),
        !m.has_other_spec() ==> (r matches Err(e) && e@
            == "No match on another provider — try a more popular track."@),
{
    if m.has_other_provider() {
        Ok(m)
    } else {
        Err("No match on another provider — try a more popular track.".to_string())
    }
}

/// The provider an artist URI belongs to; local artists have none.
pub open spec fn infer_provider_spec(uri: Seq<char>) -> Option<ProviderId> {
    if starts_with(uri, "spotify:"@) {
        Some(ProviderId::Spotify)
    } else if starts_with(uri, "soundcloud:"@) {
        Some(ProviderId::SoundCloud)
    } else if starts_with(uri, "hires-provider:"@) {
        Some(ProviderId::HiRes)
    } else {
        None
    }
}

/// The provider behind an artist URI.
pub fn infer_provider(uri: &str) -> (r: Option<ProviderId>)
    ensures
        r == infer_provider_spec(uri@),
{
    if str_starts_with(uri, "spotify:") {
        Some(ProviderId::Spotify)
    } else if str_starts_with(uri, "soundcloud:") {
        Some(ProviderId::SoundCloud)
    } else if str_starts_with(uri, "hires-provider:") {
        Some(ProviderId::HiRes)
    } else {
        None
    }
}

/// The Spotify twin of an artist name among search hits: the first whose
/// name has the same non-empty match key; an empty key matches nothing.
pub fn artist_twin(name: &str, hits: &Vec<Artist>) -> (r: Option<Artist>)
    ensures
        match_key_spec(name@).len() == 0 ==> r is None,
        match_key_spec(name@).len() > 0 ==> match r {
            Some(a) => exists|i: int|
                0 <= i < hits@.len() && artist_hit_views(hits@)[i] == a@ && match_key_spec(
                    artist_hit_views(hits@)[i].name,
                ) == match_key_spec(name@) && forall|j: int|
                    0 <= j < i ==> match_key_spec(#[trigger] artist_hit_views(hits@)[j].name)
                        != match_key_spec(name@),
            None => forall|j: int|
                0 <= j < hits@.len() ==> match_key_spec(#[trigger] artist_hit_views(hits@)[j].name)
                    != match_key_spec(name@),
        },
{
    let key = match_key(name);
    if key.as_str().is_empty() {
        return None;
    }
    let mut i: usize = 0;
    while i < hits.len()
        invariant
            i <= hits@.len(),
            key@ == match_key_spec(name@),
            key@.len() > 0,
            forall|j: int| 0 <= j < i ==> match_key_spec(#[trigger] artist_hit_views(hits@)[j].name) != key@,
        decreases hits@.len() - i,
    {
        let k = match_key(hits[i].name.as_str());
        assert(artist_hit_views(hits@)[i as int] == hits@[i as int]@);
        if str_eq(k.as_str(), key.as_str()) {
            return Some(hits[i].duplicate());
        }
        i = i + 1;
    }
    None
}

} // verus!
