//! The track model every queue, shelf and matcher works on.

use vstd::prelude::*;

verus! {

/// Which service a track plays from.
#[derive(Clone, Copy, Debug, PartialEq, Eq, Structural)]
pub enum ProviderId {
    Spotify,
    SoundCloud,
    HiRes,
    Local,
}

/// A credited artist: provider URI and display name.
#[derive(Debug)]
pub struct ArtistRef {
    pub uri: String,
    pub name: String,
}

/// The album a track belongs to.
#[derive(Debug)]
pub struct AlbumRef {
    pub uri: String,
    pub title: String,
}

/// One playable track. Durations are whole milliseconds; `0` means unknown.
#[derive(Debug)]
pub struct Track {
    pub uri: String,
    pub title: String,
    pub artists: Vec<ArtistRef>,
    pub album: Option<AlbumRef>,
    pub duration_ms: u64,
    pub cover_url: Option<String>,
    pub provider: ProviderId,
    pub mbid: Option<String>,
    pub added_at_ms: Option<i64>,
}

/// What an artist credit holds.
pub ghost struct ArtistView {
    pub uri: Seq<char>,
    pub name: Seq<char>,
}

/// What an album reference holds.
pub ghost struct AlbumView {
    pub uri: Seq<char>,
    pub title: Seq<char>,
}

/// What a track holds, as mathematical values.
pub ghost struct TrackView {
    pub uri: Seq<char>,
    pub title: Seq<char>,
    pub artists: Seq<ArtistView>,
    pub album: Option<AlbumView>,
    pub duration_ms: u64,
    pub cover_url: Option<Seq<char>>,
    pub provider: ProviderId,
    pub mbid: Option<Seq<char>>,
    pub added_at_ms: Option<i64>,
}

impl View for ArtistRef {
    type V = ArtistView;

    open spec fn view(&self) -> ArtistView {
        ArtistView { uri: self.uri@, name: self.name@ }
    }
}

impl View for AlbumRef {
    type V = AlbumView;

    open spec fn view(&self) -> AlbumView {
        AlbumView { uri: self.uri@, title: self.title@ }
    }
}

/// The views of a list of artists.
pub open spec fn artist_views(s: Seq<ArtistRef>) -> Seq<ArtistView> {
    s.map_values(|a: ArtistRef| a@)
}

/// The view of an optional album.
pub open spec fn album_view(a: Option<AlbumRef>) -> Option<AlbumView> {
    match a {
        Some(x) => Some(x@),
        None => None,
    }
}

/// The view of an optional string.
pub open spec fn opt_view(s: Option<String>) -> Option<Seq<char>> {
    match s {
        Some(x) => Some(x@),
        None => None,
    }
}

impl View for Track {
    type V = TrackView;

    open spec fn view(&self) -> TrackView {
        TrackView {
            uri: self.uri@,
            title: self.title@,
            artists: artist_views(self.artists@),
            album: album_view(self.album),
            duration_ms: self.duration_ms,
            cover_url: opt_view(self.cover_url),
            provider: self.provider,
            mbid: opt_view(self.mbid),
            added_at_ms: self.added_at_ms,
        }
    }
}

/// The views of a list of tracks.
pub open spec fn track_views(s: Seq<Track>) -> Seq<TrackView> {
    s.map_values(|t: Track| t@)
}

impl TrackView {
    /// Name of the first credited artist, empty when there is none.
    pub open spec fn first_artist(self) -> Seq<char> {
        if self.artists.len() > 0 {
            self.artists[0].name
        } else {
            Seq::empty()
        }
    }
}

/// A copy of an optional string.
pub fn copy_opt_string(s: &Option<String>) -> (r: Option<String>)
    ensures
        opt_view(r) == opt_view(*s),
{
    match s {
        Some(v) => Some(v.clone()),
        None => None,
    }
}

impl ArtistRef {
    /// A field-for-field copy.
    pub fn duplicate(&self) -> (r: ArtistRef)
        ensures
            r@ == self@,
    {
        ArtistRef { uri: self.uri.clone(), name: self.name.clone() }
    }
}

impl AlbumRef {
    /// A field-for-field copy.
    pub fn duplicate(&self) -> (r: AlbumRef)
        ensures
            r@ == self@,
    {
        AlbumRef { uri: self.uri.clone(), title: self.title.clone() }
    }
}

/// A copy of a list of artists.
pub fn copy_artists(v: &Vec<ArtistRef>) -> (r: Vec<ArtistRef>)
    ensures
        artist_views(r@) == artist_views(v@),
{
    let mut r: Vec<ArtistRef> = Vec::new();
    let mut i: usize = 0;
    while i < v.len()
        invariant
            i <= v.len(),
            artist_views(r@) == artist_views(v@.take(i as int)),
        decreases v.len() - i,
    {
        r.push(v[i].duplicate());
        assert(artist_views(v@.take(i + 1)) =~= artist_views(v@.take(i as int)).push(v@[i as int]@));
        assert(artist_views(r@) =~= artist_views(v@.take(i + 1)));
        i = i + 1;
    }
    assert(v@.take(v.len() as int) =~= v@);
    r
}

impl Track {
    /// A field-for-field copy.
    pub fn duplicate(&self) -> (r: Track)
        ensures
            r@ == self@,
    {
        Track {
            uri: self.uri.clone(),
            title: self.title.clone(),
            artists: copy_artists(&self.artists),
            album: match &self.album {
                Some(a) => Some(a.duplicate()),
                None => None,
            },
            duration_ms: self.duration_ms,
            cover_url: copy_opt_string(&self.cover_url),
            provider: self.provider,
            mbid: copy_opt_string(&self.mbid),
            added_at_ms: self.added_at_ms,
        }
    }

    /// Name of the first credited artist, empty when there is none.
    pub fn first_artist_name(&self) -> (r: String)
        ensures
            r@ == self@.first_artist(),
    {
        if self.artists.len() > 0 {
            self.artists[0].name.clone()
        } else {
            String::new()
        }
    }
}

/// A copy of a list of tracks.
pub fn copy_tracks(v: &Vec<Track>) -> (r: Vec<Track>)
    ensures
        track_views(r@) == track_views(v@),
{
    let mut r: Vec<Track> = Vec::new();
    let mut i: usize = 0;
    while i < v.len()
        invariant
            i <= v.len(),
            track_views(r@) == track_views(v@.take(i as int)),
        decreases v.len() - i,
    {
        r.push(v[i].duplicate());
        assert(track_views(v@.take(i + 1)) =~= track_views(v@.take(i as int)).push(v@[i as int]@));
        assert(track_views(r@) =~= track_views(v@.take(i + 1)));
        i = i + 1;
    }
    assert(v@.take(v.len() as int) =~= v@);
    r
}

} // verus!
