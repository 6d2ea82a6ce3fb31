//! The "Try this" card on Home: a random liked song seeds a discovery run
//! and its top neighbour is featured, with the seed shown as the reason.

use vstd::prelude::*;
use crate::candidates::DiscoveryError;
use crate::discovery::{DiscoveryResult, SimilarToSeed};
use crate::queue::random_below;
use crate::recommend::{join_artist_names, joined_names};
use crate::track::{Track, copy_opt_string, opt_view};

verus! {

/// What the card shows when a run found no neighbour.
pub open spec fn no_neighbours_text() -> Seq<char> {
    "No neighbours found for that seed — give it another roll."@
}

/// The discovery input for a liked track: every credited artist joined by
/// ", ", its title and its MusicBrainz id.
pub fn seed_input_for(track: &Track) -> (r: SimilarToSeed)
    ensures
        r.artist@ == joined_names(track@.artists),
        r.title@ == track@.title,
        opt_view(r.mbid) == track@.mbid,
{
    SimilarToSeed {
        artist: join_artist_names(&track.artists),
        title: track.title.clone(),
        mbid: copy_opt_string(&track.mbid),
    }
}

/// A new seed for the card: nothing when no song is liked (the card then
/// asks for a library), else a liked song picked at random with its
/// discovery input.
pub fn pick_featured_seed(liked: &Vec<Track>) -> (r: Option<(Track, SimilarToSeed)>)
    ensures
        liked@.len() == 0 <==> r is None,
        r matches Some(p) ==> exists|i: int| {
            &&& 0 <= i < liked@.len()
            &&& #[trigger] liked@[i]@ == p.0@
            &&& p.1.artist@ == joined_names(liked@[i]@.artists)
            &&& p.1.title@ == liked@[i]@.title
            &&& opt_view(p.1.mbid) == liked@[i]@.mbid
        },
{
    if liked.len() == 0 {
        return None;
    }
    let idx = random_below(liked.len());
    let track = liked[idx].duplicate();
    let input = seed_input_for(&track);
    assert(liked@[idx as int]@ == track@);
    Some((track, input))
}

/// What the card shows after a run: the top result, or the text explaining
/// why there is none.
pub fn featured_outcome(run: Result<Vec<DiscoveryResult>, DiscoveryError>) -> (r: Result<DiscoveryResult, String>)
    ensures
        match run {
            Ok(rs) => if rs@.len() > 0 {
                r matches Ok(top) && top@ == rs@[0]@
            } else {
                r matches Err(m) && m@ == no_neighbours_text()
            },
            Err(e) => r matches Err(m) && m@ == e.message_spec(),
        },
{
    match run {
        Ok(rs) => if rs.len() > 0 {
            Ok(rs[0].duplicate())
        } else {
            proof {
                reveal_strlit("No neighbours found for that seed — give it another roll.");
            }
            Err(String::from_str("No neighbours found for that seed — give it another roll."))
        },
        Err(e) => Err(e.message()),
    }
}

/// Whether the card should roll by itself: the library has songs and the
/// card shows nothing yet, has no run in flight and no error up. An empty
/// library never rolls; the card asks for one instead.
pub fn first_roll_wanted(liked_len: usize, has_suggestion: bool, in_flight: bool, has_error: bool) -> (r: bool)
    ensures
        r == (liked_len > 0 && !has_suggestion && !in_flight && !has_error),
{
    liked_len > 0 && !has_suggestion && !in_flight && !has_error
}

} // verus!
