//! "FLAC first": before a Spotify or SoundCloud track plays, the hi-res
//! provider is searched once for the same recording; a strict match plays
//! instead. Answers are remembered per track URI, misses included, so each
//! track is looked up at most once per session (a failed search is not
//! remembered and is tried again on the next play).

use vstd::prelude::*;
use crate::discovery::{copy_opt_track, opt_track_view};
use crate::matching::{find_strict_match, strictly_same, track_match_key_spec};
use crate::text::{concat, str_eq, trim, trim_str};
use crate::track::{ProviderId, Track, TrackView};

verus! {

/// How many hits the hi-res search asks for.
pub const FLAC_SEARCH_LIMIT: u32 = 10;

/// Whether a track may be swapped for a hi-res copy: it streams from
/// Spotify or SoundCloud and the hi-res account is connected.
pub fn flac_eligible(provider: ProviderId, hires_connected: bool) -> (r: bool)
    ensures
        r == ((provider == ProviderId::Spotify || provider == ProviderId::SoundCloud) && hires_connected),
{
    (provider == ProviderId::Spotify || provider == ProviderId::SoundCloud) && hires_connected
}

/// What the hi-res provider is searched for: "artist title", trimmed.
pub fn flac_query(track: &Track) -> (r: String)
    ensures
        r@ == trim(track@.first_artist() + " "@ + track@.title),
{
    let a = track.first_artist_name();
    let b = concat(a.as_str(), " ");
    let c = concat(b.as_str(), track.title.as_str());
    trim_str(c.as_str())
}

/// The hi-res hit that plays instead: the first strict match of the track.
pub fn flac_match(track: &Track, hits: &Vec<Track>) -> (r: Option<Track>)
    ensures
        track_match_key_spec(track@).1.len() == 0 ==> r is None,
        track_match_key_spec(track@).1.len() > 0 ==> match r {
            Some(found) => exists|i: int|
                0 <= i < hits@.len() && hits@[i]@ == found@ && strictly_same(track@, hits@[i]@)
                    && forall|j: int| 0 <= j < i ==> !strictly_same(track@, #[trigger] hits@[j]@),
            None => forall|j: int| 0 <= j < hits@.len() ==> !strictly_same(track@, #[trigger] hits@[j]@),
        },
{
    match find_strict_match(track, hits.as_slice()) {
        Some(t) => Some(t.duplicate()),
        None => None,
    }
}

/// The remembered answers, by track URI.
#[derive(Debug)]
pub struct FlacSwaps {
    entries: Vec<(String, Option<Track>)>,
}

/// The answer remembered for `uri` in a list of entries: the first with it.
pub open spec fn swap_lookup(s: Seq<(Seq<char>, Option<TrackView>)>, uri: Seq<char>) -> Option<Option<TrackView>>
    decreases s.len(),
{
    if s.len() == 0 {
        None
    } else if s[0].0 == uri {
        Some(s[0].1)
    } else {
        swap_lookup(s.drop_first(), uri)
    }
}

impl FlacSwaps {
    /// The entries as values.
    pub closed spec fn entries_view(&self) -> Seq<(Seq<char>, Option<TrackView>)> {
        self.entries@.map_values(|e: (String, Option<Track>)| (e.0@, opt_track_view(e.1)))
    }

    /// The answer remembered for a URI: the hi-res copy, `Some(None)` for a
    /// remembered miss, `None` when the track was never looked up.
    pub closed spec fn remembered(&self, uri: Seq<char>) -> Option<Option<TrackView>> {
        swap_lookup(self.entries_view(), uri)
    }

    /// Nothing remembered.
    pub fn new() -> (r: FlacSwaps)
        ensures
            forall|u: Seq<char>| r.remembered(u) is None,
    {
        FlacSwaps { entries: Vec::new() }
    }

    /// What is remembered for a URI.
    pub fn get(&self, uri: &str) -> (r: Option<Option<Track>>)
        ensures
            match r {
                Some(a) => self.remembered(uri@) == Some(opt_track_view(a)),
                None => self.remembered(uri@) is None,
            },
    {
        let ghost s = self.entries_view();
        assert(s.skip(0) =~= s);
        let mut i: usize = 0;
        while i < self.entries.len()
            invariant
                i <= self.entries@.len(),
                s == self.entries_view(),
                swap_lookup(s, uri@) == swap_lookup(s.skip(i as int), uri@),
            decreases self.entries@.len() - i,
        {
            assert(s.skip(i as int)[0] == s[i as int]);
            assert(s.skip(i as int).drop_first() =~= s.skip(i + 1));
            if str_eq(self.entries[i].0.as_str(), uri) {
                return Some(copy_opt_track(&self.entries[i].1));
            }
            i = i + 1;
        }
        assert(s.skip(i as int).len() == 0);
        None
    }

    /// Remember the answer for a URI, replacing what was remembered.
    pub fn remember(&mut self, uri: String, found: Option<Track>)
        ensures
            final(self).remembered(uri@) == Some(opt_track_view(found)),
            forall|u: Seq<char>| u != uri@ ==> final(self).remembered(u) == old(self).remembered(u),
    {
        let ghost old_s = self.entries_view();
        let ghost entry = (uri@, opt_track_view(found));
        self.entries.insert(0, (uri, found));
        assert(self.entries_view() =~= seq![entry] + old_s);
        assert(self.entries_view().drop_first() =~= old_s);
    }
}

} // verus!
