//! The local liked-songs store: any track from any provider can be liked,
//! newest first.

use vstd::prelude::*;
use crate::queue::{first_uri_index, lemma_first_uri_index};
use crate::text::str_eq;
use crate::track::{Track, TrackView};

verus! {

/// One saved like: the full track, so it survives the provider dropping it,
/// and when it was liked (milliseconds since the Unix epoch).
#[derive(Debug)]
pub struct LikedTrack {
    pub track: Track,
    pub liked_at_ms: i64,
}

/// What a saved like holds.
pub ghost struct LikedView {
    pub track: TrackView,
    pub liked_at_ms: i64,
}

impl View for LikedTrack {
    type V = LikedView;

    open spec fn view(&self) -> LikedView {
        LikedView { track: self.track@, liked_at_ms: self.liked_at_ms }
    }
}

impl LikedTrack {
    /// A field-for-field copy.
    pub fn duplicate(&self) -> (r: LikedTrack)
        ensures
            r@ == self@,
    {
        LikedTrack { track: self.track.duplicate(), liked_at_ms: self.liked_at_ms }
    }
}

/// The views of a list of likes.
pub open spec fn liked_views(s: Seq<LikedTrack>) -> Seq<LikedView> {
    s.map_values(|l: LikedTrack| l@)
}

/// The tracks of a list of likes.
pub open spec fn liked_tracks(s: Seq<LikedView>) -> Seq<TrackView> {
    s.map_values(|l: LikedView| l.track)
}

/// Some like in `s` is for this URI.
pub open spec fn is_liked_spec(s: Seq<LikedView>, uri: Seq<char>) -> bool {
    exists|j: int| 0 <= j < s.len() && (#[trigger] s[j]).track.uri == uri
}

/// No URI is liked twice.
pub open spec fn uris_distinct(s: Seq<LikedView>) -> bool {
    forall|i: int, j: int| 0 <= i < j < s.len() ==> (#[trigger] s[i]).track.uri != (#[trigger] s[j]).track.uri
}

/// The likes after toggling `t` at `now_ms`: the first like of its URI
/// goes, or, when there is none, a new like opens the list.
pub open spec fn toggled(s: Seq<LikedView>, t: TrackView, now_ms: i64) -> Seq<LikedView> {
    let i = first_uri_index(liked_tracks(s), t.uri);
    if i < s.len() {
        s.remove(i)
    } else {
        seq![LikedView { track: t, liked_at_ms: now_ms }] + s
    }
}

/// The liked-songs list, newest first.
pub struct Likes {
    items: Vec<LikedTrack>,
}

impl Likes {
    /// What the store holds, in order.
    pub closed spec fn views(&self) -> Seq<LikedView> {
        liked_views(self.items@)
    }

    /// An empty store.
    pub fn new() -> (r: Likes)
        ensures
            r.views() == Seq::<LikedView>::empty(),
    {
        Likes { items: Vec::new() }
    }

    /// A store holding what was loaded from disk, as it was saved.
    pub fn from_items(items: Vec<LikedTrack>) -> (r: Likes)
        ensures
            r.views() == liked_views(items@),
    {
        Likes { items }
    }

    /// Whether a track with this URI is liked.
    pub fn is_liked(&self, uri: &str) -> (r: bool)
        ensures
            r == is_liked_spec(self.views(), uri@),
    {
        let mut i: usize = 0;
        while i < self.items.len()
            invariant
                i <= self.items@.len(),
                forall|j: int| 0 <= j < i ==> (#[trigger] self.views()[j]).track.uri != uri@,
            decreases self.items@.len() - i,
        {
            assert(self.views()[i as int] == self.items@[i as int]@);
            if str_eq(self.items[i].track.uri.as_str(), uri) {
                assert(self.views()[i as int].track.uri == uri@);
                return true;
            }
            i = i + 1;
        }
        false
    }

    /// A copy of every like, newest first.
    pub fn list(&self) -> (r: Vec<LikedTrack>)
        ensures
            liked_views(r@) == self.views(),
    {
        let mut r: Vec<LikedTrack> = Vec::new();
        let mut i: usize = 0;
        while i < self.items.len()
            invariant
                i <= self.items@.len(),
                r@.len() == i,
                liked_views(r@) == liked_views(self.items@).take(i as int),
            decreases self.items@.len() - i,
        {
            let d = self.items[i].duplicate();
            r.push(d);
            assert(r@[i as int]@ == self.items@[i as int]@);
            assert(liked_views(r@) =~= liked_views(self.items@).take(i + 1));
            i = i + 1;
        }
        assert(liked_views(self.items@).take(self.items@.len() as int) =~= liked_views(self.items@));
        r
    }

    /// How many tracks are liked.
    pub fn count(&self) -> (r: usize)
        ensures
            r == self.views().len(),
    {
        self.items.len()
    }

    /// Index of the first like of this URI, or the length when none.
    fn position(&self, uri: &str) -> (r: usize)
        ensures
            r == first_uri_index(liked_tracks(self.views()), uri@),
            r <= self.views().len(),
    {
        let ghost tv = liked_tracks(self.views());
        proof {
            lemma_first_uri_index(tv, uri@);
        }
        let mut i: usize = 0;
        while i < self.items.len()
            invariant
                i <= self.items@.len(),
                tv == liked_tracks(self.views()),
                tv.len() == self.items@.len(),
                0 <= first_uri_index(tv, uri@) <= tv.len(),
                forall|k: int| 0 <= k < first_uri_index(tv, uri@) ==> tv[k].uri != uri@,
                first_uri_index(tv, uri@) < tv.len() ==> tv[first_uri_index(tv, uri@)].uri == uri@,
                forall|k: int| 0 <= k < i ==> tv[k].uri != uri@,
            decreases self.items@.len() - i,
        {
            assert(tv[i as int] == self.items@[i as int].track@);
            if str_eq(self.items[i].track.uri.as_str(), uri) {
                return i;
            }
            i = i + 1;
        }
        i
    }

    /// Like the track when it is not liked yet; unlike it when it is.
    pub fn toggle(&mut self, track: &Track, now_ms: i64)
        ensures
            final(self).views() == toggled(old(self).views(), track@, now_ms),
    {
        let pos = self.position(track.uri.as_str());
        if pos < self.items.len() {
            self.items.remove(pos);
            assert(liked_views(self.items@) =~= liked_views(old(self).items@).remove(pos as int));
        } else {
            self.items.insert(0, LikedTrack { track: track.duplicate(), liked_at_ms: now_ms });
            assert(liked_views(self.items@) =~= seq![LikedView { track: track@, liked_at_ms: now_ms }]
                + liked_views(old(self).items@));
        }
    }
}

/// Toggling a track makes it liked exactly when it was not, and keeps every
/// URI liked at most once.
pub proof fn law_toggle_flips_liked(s: Seq<LikedView>, t: TrackView, now_ms: i64)
    requires
        uris_distinct(s),
    ensures
        is_liked_spec(toggled(s, t, now_ms), t.uri) == !is_liked_spec(s, t.uri),
        uris_distinct(toggled(s, t, now_ms)),
{
    let tv = liked_tracks(s);
    lemma_first_uri_index(tv, t.uri);
    let i = first_uri_index(tv, t.uri);
    let r = toggled(s, t, now_ms);
    if i < s.len() {
        assert(tv[i] == s[i].track);
        assert(is_liked_spec(s, t.uri));
        assert forall|j: int| 0 <= j < r.len() implies (#[trigger] r[j]).track.uri != t.uri by {
            if j < i {
                assert(r[j] == s[j]);
            } else {
                assert(r[j] == s[j + 1]);
                assert(s[i].track.uri != s[j + 1].track.uri);
            }
        }
        assert forall|a: int, b: int| 0 <= a < b < r.len() implies (#[trigger] r[a]).track.uri
            != (#[trigger] r[b]).track.uri by {
            let a2 = if a < i { a } else { a + 1 };
            let b2 = if b < i { b } else { b + 1 };
            assert(r[a] == s[a2]);
            assert(r[b] == s[b2]);
        }
    } else {
        assert forall|k: int| 0 <= k < s.len() implies (#[trigger] s[k]).track.uri != t.uri by {
            assert(tv[k] == s[k].track);
        }
        assert(r[0].track.uri == t.uri);
        assert forall|a: int, b: int| 0 <= a < b < r.len() implies (#[trigger] r[a]).track.uri
            != (#[trigger] r[b]).track.uri by {
            assert(r[b] == s[b - 1]);
            if a > 0 {
                assert(r[a] == s[a - 1]);
            }
        }
    }
}

/// Liking a track that was not liked and toggling it again at once leaves
/// the list as it was.
pub proof fn law_toggle_twice_restores(s: Seq<LikedView>, t: TrackView, first_ms: i64, second_ms: i64)
    requires
        !is_liked_spec(s, t.uri),
    ensures
        toggled(toggled(s, t, first_ms), t, second_ms) == s,
{
    let tv = liked_tracks(s);
    lemma_first_uri_index(tv, t.uri);
    if first_uri_index(tv, t.uri) < s.len() {
        assert(tv[first_uri_index(tv, t.uri)] == s[first_uri_index(tv, t.uri)].track);
    }
    let once = toggled(s, t, first_ms);
    assert(liked_tracks(once).len() > 0);
    assert(liked_tracks(once)[0].uri == t.uri);
    assert(first_uri_index(liked_tracks(once), t.uri) == 0);
    assert(once.remove(0) =~= s);
}

} // verus!
