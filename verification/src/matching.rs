//! Cross-provider "same recording" matching, used by the lossless swap of a
//! queue entry and by listen-together to find the host's track locally.
//!
//! Strict on purpose: a wrong match plays the wrong audio. Candidates must
//! agree on the normalised first artist and title, and both durations must be
//! known and within three seconds of each other.

use vstd::prelude::*;
use crate::normalize::{match_key, match_key_spec};
use crate::track::{Track, TrackView};

verus! {

/// `(first artist, title)`, both normalised: the identity tracks match on.
pub open spec fn track_match_key_spec(t: TrackView) -> (Seq<char>, Seq<char>) {
    (match_key_spec(t.first_artist()), match_key_spec(t.title))
}

/// Whole seconds of a duration given in milliseconds.
pub open spec fn secs(ms: u64) -> int {
    ms as int / 1000
}

/// `c` is strictly the same recording as `target`: equal keys, and both
/// durations known (non-zero whole seconds) and at most three seconds apart.
pub open spec fn strictly_same(target: TrackView, c: TrackView) -> bool {
    &&& track_match_key_spec(c) == track_match_key_spec(target)
    &&& secs(target.duration_ms) > 0
    &&& secs(c.duration_ms) > 0
    &&& secs(target.duration_ms) - secs(c.duration_ms) <= 3
    &&& secs(c.duration_ms) - secs(target.duration_ms) <= 3
}

/// `(first artist, title)` normalised.
pub fn track_match_key(track: &Track) -> (r: (String, String))
    ensures
        (r.0@, r.1@) == track_match_key_spec(track@),
{
    let artist = track.first_artist_name();
    (match_key(artist.as_str()), match_key(track.title.as_str()))
}

/// The first candidate that is strictly the same recording as `target`; none
/// when the target's title has no key (an empty key matches nothing).
pub fn find_strict_match<'a>(target: &Track, candidates: &'a [Track]) -> (r: Option<&'a Track>)
    ensures
        track_match_key_spec(target@).1.len() == 0 ==> r is None,
        track_match_key_spec(target@).1.len() > 0 ==> match r {
            Some(found) => exists|i: int|
                0 <= i < candidates@.len() && candidates@[i] == *found && strictly_same(
                    target@,
                    candidates@[i]@,
                ) && forall|j: int| 0 <= j < i ==> !strictly_same(target@, #[trigger] candidates@[j]@),
            None => forall|j: int|
                0 <= j < candidates@.len() ==> !strictly_same(target@, #[trigger] candidates@[j]@),
        },
{
    let (t_artist, t_title) = track_match_key(target);
    if t_title.as_str().is_empty() {
        return None;
    }
    let a: u64 = target.duration_ms / 1000;
    let mut i: usize = 0;
    while i < candidates.len()
        invariant
            i <= candidates@.len(),
            (t_artist@, t_title@) == track_match_key_spec(target@),
            a == secs(target.duration_ms),
            t_title@.len() > 0,
            forall|j: int| 0 <= j < i ==> !strictly_same(target@, #[trigger] candidates@[j]@),
        decreases candidates@.len() - i,
    {
        let c = &candidates[i];
        let (c_artist, c_title) = track_match_key(c);
        let b: u64 = c.duration_ms / 1000;
        if c_title == t_title && c_artist == t_artist {
            let diff = if a >= b { a - b } else { b - a };
            if a > 0 && b > 0 && diff <= 3 {
                return Some(c);
            }
        }
        i = i + 1;
    }
    None
}

} // verus!
