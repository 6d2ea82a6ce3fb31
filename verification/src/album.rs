//! The album and provider-playlist pages: which source serves a URI, and
//! the album a `local:album:` URI makes of the scanned library.

use vstd::prelude::*;
use crate::library::AlbumType;
use crate::text::{concat, starts_with, str_eq, str_starts_with};
use crate::track::{ArtistRef, ArtistView, ProviderId, Track, TrackView, copy_opt_string, track_views};

verus! {

/// An album with its tracklist.
#[derive(Debug)]
pub struct AlbumDetail {
    pub uri: String,
    pub provider: ProviderId,
    pub title: String,
    pub artist: ArtistRef,
    pub cover_url: Option<String>,
    pub release_year: Option<u32>,
    pub album_type: AlbumType,
    pub tracks: Vec<Track>,
}

/// Who serves an album URI.
#[derive(Clone, Copy, Debug, PartialEq, Eq, Structural)]
pub enum AlbumSource {
    /// The scanned local library.
    Local,
    /// This streaming provider.
    Provider(ProviderId),
    /// Nobody.
    Unknown,
}

/// The source of an album URI, by its prefix.
pub open spec fn album_source_spec(uri: Seq<char>) -> AlbumSource {
    if starts_with(uri, "local:album:"@) {
        AlbumSource::Local
    } else if starts_with(uri, "spotify:"@) {
        AlbumSource::Provider(ProviderId::Spotify)
    } else if starts_with(uri, "soundcloud:"@) {
        AlbumSource::Provider(ProviderId::SoundCloud)
    } else if starts_with(uri, "hires-provider:"@) {
        AlbumSource::Provider(ProviderId::HiRes)
    } else {
        AlbumSource::Unknown
    }
}

/// The source of an album URI.
pub fn album_source(uri: &str) -> (r: AlbumSource)
    ensures
        r == album_source_spec(uri@),
{
    if str_starts_with(uri, "local:album:") {
        AlbumSource::Local
    } else if str_starts_with(uri, "spotify:") {
        AlbumSource::Provider(ProviderId::Spotify)
    } else if str_starts_with(uri, "soundcloud:") {
        AlbumSource::Provider(ProviderId::SoundCloud)
    } else if str_starts_with(uri, "hires-provider:") {
        AlbumSource::Provider(ProviderId::HiRes)
    } else {
        AlbumSource::Unknown
    }
}

/// What the page shows when a local album is not in the library.
pub open spec fn local_album_missing_text() -> Seq<char> {
    "Album not found in the local library — try a rescan."@
}

/// What the page shows for a URI no source serves.
pub open spec fn no_album_provider_text() -> Seq<char> {
    "No provider for this album URI."@
}

/// What the page shows when local lookup fails.
pub fn local_album_missing() -> (r: String)
    ensures
        r@ == local_album_missing_text(),
{
    proof {
        reveal_strlit("Album not found in the local library — try a rescan.");
    }
    String::from_str("Album not found in the local library — try a rescan.")
}

/// What the page shows for a URI no source serves.
pub fn no_album_provider() -> (r: String)
    ensures
        r@ == no_album_provider_text(),
{
    proof {
        reveal_strlit("No provider for this album URI.");
    }
    String::from_str("No provider for this album URI.")
}

/// What the page shows when the provider could not load the album:
/// "album: " and its error.
pub fn album_load_error(err: &str) -> (r: String)
    ensures
        r@ == "album: "@ + err@,
{
    concat("album: ", err)
}

/// The track belongs to the album with this URI.
pub open spec fn on_album(t: TrackView, uri: Seq<char>) -> bool {
    t.album matches Some(a) && a.uri == uri
}

/// The album a `local:album:` URI makes of the scanned library: its tracks
/// in library order; title, first artist (or an empty one) and cover taken
/// from the first of them; local, of unknown type and year. Nothing when
/// no scanned track is on it.
pub fn local_album_detail(library: &Vec<Track>, uri: &str) -> (r: Option<AlbumDetail>)
    ensures
        ({
            let on = track_views(library@).filter(|t: TrackView| on_album(t, uri@));
            match r {
                None => on.len() == 0,
                Some(d) => {
                    &&& on.len() > 0
                    &&& track_views(d.tracks@) == on
                    &&& d.uri@ == uri@
                    &&& d.provider == ProviderId::Local
                    &&& d.title@ == on[0].album->0.title
                    &&& d.artist@ == if on[0].artists.len() > 0 {
                        on[0].artists[0]
                    } else {
                        ArtistView { uri: Seq::empty(), name: Seq::empty() }
                    }
                    &&& crate::track::opt_view(d.cover_url) == on[0].cover_url
                    &&& d.release_year is None
                    &&& d.album_type == AlbumType::Unknown
                }
            }
        }),
{
    let ghost s = track_views(library@);
    let ghost pred = |t: TrackView| on_album(t, uri@);
    let mut tracks: Vec<Track> = Vec::new();
    let mut i: usize = 0;
    while i < library.len()
        invariant
            i <= library@.len(),
            s == track_views(library@),
            pred == (|t: TrackView| on_album(t, uri@)),
            track_views(tracks@) == s.take(i as int).filter(pred),
        decreases library@.len() - i,
    {
        let t = &library[i];
        let ghost q = s.take(i + 1);
        assert(q.drop_last() =~= s.take(i as int));
        assert(q.last() == t@);
        reveal_with_fuel(Seq::filter, 1);
        let keep = match &t.album {
            Some(a) => str_eq(a.uri.as_str(), uri),
            None => false,
        };
        assert(keep == pred(t@));
        if keep {
            let ghost before = track_views(tracks@);
            tracks.push(t.duplicate());
            assert(track_views(tracks@) =~= before.push(t@));
        }
        i = i + 1;
    }
    assert(s.take(library@.len() as int) =~= s);
    if tracks.len() == 0 {
        return None;
    }
    let first = &tracks[0];
    assert(track_views(tracks@)[0] == first@);
    assert(first@.album is Some) by {
        s.lemma_filter_pred(pred, 0);
    }
    let title = match &first.album {
        Some(a) => a.title.clone(),
        None => String::new(),
    };
    let artist = if first.artists.len() > 0 {
        first.artists[0].duplicate()
    } else {
        ArtistRef { uri: String::new(), name: String::new() }
    };
    let cover_url = copy_opt_string(&first.cover_url);
    Some(AlbumDetail {
        uri: uri.to_string(),
        provider: ProviderId::Local,
        title,
        artist,
        cover_url,
        release_year: None,
        album_type: AlbumType::Unknown,
        tracks,
    })
}


/// The provider a playlist URI is loaded from: SoundCloud or Spotify by
/// prefix; none for anything else.
pub fn playlist_source(uri: &str) -> (r: Option<ProviderId>)
    ensures
        r == if starts_with(uri@, "soundcloud:"@) {
            Some(ProviderId::SoundCloud)
        } else if starts_with(uri@, "spotify:"@) {
            Some(ProviderId::Spotify)
        } else {
            None
        },
{
    if str_starts_with(uri, "soundcloud:") {
        Some(ProviderId::SoundCloud)
    } else if str_starts_with(uri, "spotify:") {
        Some(ProviderId::Spotify)
    } else {
        None
    }
}

/// What the playlist page shows when loading failed: "playlist: " and the
/// error.
pub fn playlist_load_error(err: &str) -> (r: String)
    ensures
        r@ == "playlist: "@ + err@,
{
    concat("playlist: ", err)
}

} // verus!
