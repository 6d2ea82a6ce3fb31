//! Local playlists: cross-provider, hand-curated lists of loose tracks and
//! embedded album widgets, plus source-scoped imports that never overwrite
//! local edits. Times are Unix milliseconds supplied by the caller; saving
//! the list is the caller's business.

use vstd::prelude::*;
use crate::config::decimal;
use crate::recommend::has_uri;
use crate::text::{ascii_lower, chars_of, concat, str_eq, string_of, to_ascii_lowercase, trim, trim_str};
use crate::track::{Track, TrackView, copy_opt_string, copy_tracks, opt_view, track_views};

verus! {

broadcast use vstd::string::group_string_axioms;

/// A whole album embedded in a playlist, its tracks snapshotted when added.
#[derive(Debug)]
pub struct PlaylistAlbum {
    pub uri: String,
    pub title: String,
    pub artist: String,
    pub cover_url: Option<String>,
    pub tracks: Vec<Track>,
    pub added_at_ms: i64,
}

/// A playlist: loose tracks and album widgets.
#[derive(Debug)]
pub struct Playlist {
    pub id: String,
    pub name: String,
    pub tracks: Vec<Track>,
    pub albums: Vec<PlaylistAlbum>,
    pub created_at_ms: i64,
    pub updated_at_ms: i64,
}

/// A playlist fetched from a provider, before it becomes a local one.
#[derive(Debug)]
pub struct PlaylistImport {
    pub source_id: String,
    pub name: String,
    pub tracks: Vec<Track>,
}

/// An album widget as mathematical values.
pub ghost struct AlbumWidgetView {
    pub uri: Seq<char>,
    pub title: Seq<char>,
    pub artist: Seq<char>,
    pub cover_url: Option<Seq<char>>,
    pub tracks: Seq<TrackView>,
    pub added_at_ms: i64,
}

/// A playlist as mathematical values.
pub ghost struct PlaylistView {
    pub id: Seq<char>,
    pub name: Seq<char>,
    pub tracks: Seq<TrackView>,
    pub albums: Seq<AlbumWidgetView>,
    pub created_at_ms: i64,
    pub updated_at_ms: i64,
}

impl View for PlaylistAlbum {
    type V = AlbumWidgetView;

    open spec fn view(&self) -> AlbumWidgetView {
        AlbumWidgetView {
            uri: self.uri@,
            title: self.title@,
            artist: self.artist@,
            cover_url: opt_view(self.cover_url),
            tracks: track_views(self.tracks@),
            added_at_ms: self.added_at_ms,
        }
    }
}

/// The views of a list of album widgets.
pub open spec fn album_views(s: Seq<PlaylistAlbum>) -> Seq<AlbumWidgetView> {
    s.map_values(|a: PlaylistAlbum| a@)
}

impl View for Playlist {
    type V = PlaylistView;

    open spec fn view(&self) -> PlaylistView {
        PlaylistView {
            id: self.id@,
            name: self.name@,
            tracks: track_views(self.tracks@),
            albums: album_views(self.albums@),
            created_at_ms: self.created_at_ms,
            updated_at_ms: self.updated_at_ms,
        }
    }
}

/// The views of a list of playlists.
pub open spec fn playlist_views(s: Seq<Playlist>) -> Seq<PlaylistView> {
    s.map_values(|p: Playlist| p@)
}

/// Every track of a list of album widgets, album by album.
pub open spec fn album_tracks(a: Seq<AlbumWidgetView>) -> Seq<TrackView>
    decreases a.len(),
{
    if a.len() == 0 {
        Seq::empty()
    } else {
        album_tracks(a.drop_last()) + a.last().tracks
    }
}

impl PlaylistAlbum {
    /// A field-for-field copy.
    pub fn duplicate(&self) -> (r: PlaylistAlbum)
        ensures
            r@ == self@,
    {
        PlaylistAlbum {
            uri: self.uri.clone(),
            title: self.title.clone(),
            artist: self.artist.clone(),
            cover_url: copy_opt_string(&self.cover_url),
            tracks: copy_tracks(&self.tracks),
            added_at_ms: self.added_at_ms,
        }
    }
}

/// A copy of a list of album widgets.
pub fn copy_albums(v: &Vec<PlaylistAlbum>) -> (r: Vec<PlaylistAlbum>)
    ensures
        album_views(r@) == album_views(v@),
{
    let mut r: Vec<PlaylistAlbum> = Vec::new();
    let mut i: usize = 0;
    while i < v.len()
        invariant
            i <= v@.len(),
            album_views(r@) == album_views(v@).take(i as int),
        decreases v@.len() - i,
    {
        let ghost before = album_views(r@);
        r.push(v[i].duplicate());
        assert(album_views(r@) =~= before.push(v@[i as int]@));
        assert(album_views(v@).take(i + 1) =~= album_views(v@).take(i as int).push(v@[i as int]@));
        i = i + 1;
    }
    assert(album_views(v@).take(v@.len() as int) =~= album_views(v@));
    r
}

impl Playlist {
    /// A field-for-field copy.
    pub fn duplicate(&self) -> (r: Playlist)
        ensures
            r@ == self@,
    {
        Playlist {
            id: self.id.clone(),
            name: self.name.clone(),
            tracks: copy_tracks(&self.tracks),
            albums: copy_albums(&self.albums),
            created_at_ms: self.created_at_ms,
            updated_at_ms: self.updated_at_ms,
        }
    }

    /// No loose tracks and no albums.
    pub fn is_empty(&self) -> (r: bool)
        ensures
            r == (self@.tracks.len() == 0 && self@.albums.len() == 0),
    {
        self.tracks.len() == 0 && self.albums.len() == 0
    }

    /// Loose tracks followed by every album's tracks, in display order.
    pub fn all_tracks(&self) -> (r: Vec<Track>)
        ensures
            track_views(r@) == self@.tracks + album_tracks(self@.albums),
    {
        let mut out = copy_tracks(&self.tracks);
        let ghost av = album_views(self.albums@);
        let mut i: usize = 0;
        assert(album_tracks(av.take(0)) =~= Seq::<TrackView>::empty());
        assert(track_views(out@) =~= self@.tracks + album_tracks(av.take(0)));
        while i < self.albums.len()
            invariant
                i <= self.albums@.len(),
                av == album_views(self.albums@),
                track_views(out@) == self@.tracks + album_tracks(av.take(i as int)),
            decreases self.albums@.len() - i,
        {
            let ghost base = track_views(out@);
            let tracks = &self.albums[i].tracks;
            let mut j: usize = 0;
            while j < tracks.len()
                invariant
                    j <= tracks@.len(),
                    track_views(out@) == base + track_views(tracks@).take(j as int),
                decreases tracks@.len() - j,
            {
                let ghost prev = track_views(out@);
                out.push(tracks[j].duplicate());
                assert(track_views(out@) =~= prev.push(tracks@[j as int]@));
                assert(track_views(tracks@).take(j + 1) =~= track_views(tracks@).take(j as int).push(
                    tracks@[j as int]@,
                ));
                j = j + 1;
            }
            assert(track_views(tracks@).take(tracks@.len() as int) =~= track_views(tracks@));
            assert(av.take(i + 1).drop_last() =~= av.take(i as int));
            assert(av.take(i + 1).last() == self.albums@[i as int]@);
            assert(track_views(out@) =~= self@.tracks + album_tracks(av.take(i + 1)));
            i = i + 1;
        }
        assert(av.take(self.albums@.len() as int) =~= av);
        out
    }
}

/// The first index at or after `i` of a playlist with this id.
pub open spec fn first_id_from(s: Seq<PlaylistView>, id: Seq<char>, i: int) -> Option<int>
    decreases s.len() - i,
{
    if i < 0 || i >= s.len() {
        None
    } else if s[i].id == id {
        Some(i)
    } else {
        first_id_from(s, id, i + 1)
    }
}

/// The first playlist with this id.
pub open spec fn first_id(s: Seq<PlaylistView>, id: Seq<char>) -> Option<int> {
    first_id_from(s, id, 0)
}

proof fn lemma_first_id_from(s: Seq<PlaylistView>, id: Seq<char>, i: int)
    requires
        0 <= i <= s.len(),
    ensures
        first_id_from(s, id, i) matches Some(k) ==> i <= k < s.len() && s[k].id == id && forall|j: int|
            i <= j < k ==> (#[trigger] s[j]).id != id,
        first_id_from(s, id, i) is None ==> forall|j: int| i <= j < s.len() ==> (#[trigger] s[j]).id != id,
    decreases s.len() - i,
{
    if i < s.len() && s[i].id != id {
        lemma_first_id_from(s, id, i + 1);
    }
}

/// The first playlist with this id, when any.
pub open spec fn playlist_with(s: Seq<PlaylistView>, id: Seq<char>) -> Option<PlaylistView> {
    match first_id(s, id) {
        Some(i) => Some(s[i]),
        None => None,
    }
}

/// `items` with the first playlist of this id replaced by `f` of it; as is
/// when there is none.
pub open spec fn with_playlist(s: Seq<PlaylistView>, id: Seq<char>, p: PlaylistView) -> Seq<PlaylistView> {
    match first_id(s, id) {
        Some(i) => s.update(i, p),
        None => s,
    }
}

/// The id an imported playlist gets: the source trimmed and ASCII
/// lowercased, `-`, the provider's id trimmed.
pub open spec fn external_id_spec(source: Seq<char>, source_id: Seq<char>) -> Seq<char> {
    ascii_lower(trim(source)) + "-"@ + trim(source_id)
}

/// The local id of a playlist imported from `source`.
pub fn external_playlist_id(source: &str, source_id: &str) -> (r: String)
    ensures
        r@ == external_id_spec(source@, source_id@),
{
    let s = trim_str(source);
    let sv = chars_of(s.as_str());
    let lower = to_ascii_lowercase(&sv);
    let l = string_of(&lower);
    let a = concat(l.as_str(), "-");
    let t = trim_str(source_id);
    concat(a.as_str(), t.as_str())
}

/// The decimal form of a signed count of milliseconds.
pub open spec fn signed_decimal(n: i64) -> Seq<char> {
    if n < 0 {
        "-"@ + decimal((-n) as nat)
    } else {
        decimal(n as nat)
    }
}

/// Whether a playlist of the list has this id.
pub open spec fn has_id(s: Seq<PlaylistView>, id: Seq<char>) -> bool {
    exists|j: int| 0 <= j < s.len() && (#[trigger] s[j]).id == id
}

/// The imports that become playlists, in order: those whose id is not
/// already taken by an existing playlist or an earlier import.
pub open spec fn new_imports(
    existing: Seq<PlaylistView>,
    source: Seq<char>,
    imports: Seq<(Seq<char>, Seq<char>, Seq<TrackView>)>,
    now_ms: i64,
) -> Seq<PlaylistView>
    decreases imports.len(),
{
    if imports.len() == 0 {
        Seq::empty()
    } else {
        let prev = new_imports(existing, source, imports.drop_last(), now_ms);
        let imp = imports.last();
        let id = external_id_spec(source, imp.0);
        if has_id(existing, id) || has_id(prev, id) {
            prev
        } else {
            prev.push(
                PlaylistView {
                    id,
                    name: imp.1,
                    tracks: imp.2,
                    albums: Seq::empty(),
                    created_at_ms: now_ms,
                    updated_at_ms: now_ms,
                },
            )
        }
    }
}

/// The views of a list of imports: `(source id, name, tracks)`.
pub open spec fn import_views(s: Seq<PlaylistImport>) -> Seq<(Seq<char>, Seq<char>, Seq<TrackView>)> {
    s.map_values(|p: PlaylistImport| (p.source_id@, p.name@, track_views(p.tracks@)))
}

fn contains_id(s: &Vec<Playlist>, id: &str) -> (r: bool)
    ensures
        r == has_id(playlist_views(s@), id@),
{
    let mut i: usize = 0;
    while i < s.len()
        invariant
            i <= s@.len(),
            forall|j: int| 0 <= j < i ==> (#[trigger] playlist_views(s@)[j]).id != id@,
        decreases s@.len() - i,
    {
        if str_eq(s[i].id.as_str(), id) {
            assert(playlist_views(s@)[i as int].id == id@);
            return true;
        }
        i = i + 1;
    }
    false
}

/// Import playlists from a source once, ahead of the existing ones, without
/// touching any playlist already there (a local rename survives a re-import)
/// and without importing an id twice. Returns how many were added.
pub fn merge_external_playlists(items: &mut Vec<Playlist>, source: &str, playlists: Vec<PlaylistImport>, now_ms: i64) -> (added: usize)
    ensures
        playlist_views(final(items)@) == new_imports(
            playlist_views(old(items)@),
            source@,
            import_views(playlists@),
            now_ms,
        ) + playlist_views(old(items)@),
        added == new_imports(
            playlist_views(old(items)@),
            source@,
            import_views(playlists@),
            now_ms,
        ).len(),
{
    let ghost existing = playlist_views(items@);
    let ghost imps = import_views(playlists@);
    let mut additions: Vec<Playlist> = Vec::new();
    let mut i: usize = 0;
    while i < playlists.len()
        invariant
            i <= playlists@.len(),
            existing == playlist_views(items@),
            imps == import_views(playlists@),
            playlist_views(additions@) == new_imports(existing, source@, imps.take(i as int), now_ms),
        decreases playlists@.len() - i,
    {
        let p = &playlists[i];
        let id = external_playlist_id(source, p.source_id.as_str());
        let ghost q = imps.take(i + 1);
        assert(q.drop_last() =~= imps.take(i as int));
        assert(q.last() == (p.source_id@, p.name@, track_views(p.tracks@)));
        let taken = contains_id(items, id.as_str()) || contains_id(&additions, id.as_str());
        if !taken {
            let ghost before = playlist_views(additions@);
            additions.push(
                Playlist {
                    id,
                    name: p.name.clone(),
                    tracks: copy_tracks(&p.tracks),
                    albums: Vec::new(),
                    created_at_ms: now_ms,
                    updated_at_ms: now_ms,
                },
            );
            assert(album_views(Seq::<PlaylistAlbum>::empty()) =~= Seq::<AlbumWidgetView>::empty());
            assert(playlist_views(additions@) =~= before.push(playlist_views(additions@).last()));
        }
        i = i + 1;
    }
    assert(imps.take(playlists@.len() as int) =~= imps);
    let added = additions.len();
    let ghost adds = playlist_views(additions@);
    let mut j: usize = 0;
    while j < items.len()
        invariant
            j <= items@.len(),
            existing == playlist_views(items@),
            playlist_views(additions@) == adds + existing.take(j as int),
        decreases items@.len() - j,
    {
        let ghost before = playlist_views(additions@);
        additions.push(items[j].duplicate());
        assert(playlist_views(additions@) =~= before.push(existing[j as int]));
        assert(existing.take(j + 1) =~= existing.take(j as int).push(existing[j as int]));
        j = j + 1;
    }
    assert(existing.take(items@.len() as int) =~= existing);
    *items = additions;
    added
}

/// The local playlists.
#[derive(Debug)]
pub struct Playlists {
    pub items: Vec<Playlist>,
}

impl Playlists {
    /// The playlists as mathematical values.
    pub open spec fn views(&self) -> Seq<PlaylistView> {
        playlist_views(self.items@)
    }

    /// No playlists.
    pub fn new() -> (r: Playlists)
        ensures
            r.views().len() == 0,
    {
        Playlists { items: Vec::new() }
    }

    /// The playlists loaded from disk.
    pub fn from_items(items: Vec<Playlist>) -> (r: Playlists)
        ensures
            r.views() == playlist_views(items@),
    {
        Playlists { items }
    }

    /// How many playlists there are.
    pub fn count(&self) -> (r: usize)
        ensures
            r == self.views().len(),
    {
        self.items.len()
    }

    fn position(&self, id: &str) -> (r: Option<usize>)
        ensures
            r matches Some(i) ==> first_id(self.views(), id@) == Some(i as int) && i < self.items@.len(),
            r is None ==> first_id(self.views(), id@) is None,
    {
        let ghost s = self.views();
        let mut i: usize = 0;
        while i < self.items.len()
            invariant
                i <= self.items@.len(),
                s == self.views(),
                first_id(s, id@) == first_id_from(s, id@, i as int),
            decreases self.items@.len() - i,
        {
            if str_eq(self.items[i].id.as_str(), id) {
                return Some(i);
            }
            i = i + 1;
        }
        None
    }

    /// The first playlist with this id.
    pub fn get(&self, id: &str) -> (r: Option<Playlist>)
        ensures
            match r {
                Some(p) => playlist_with(self.views(), id@) == Some(p@),
                None => playlist_with(self.views(), id@) is None,
            },
    {
        match self.position(id) {
            Some(i) => Some(self.items[i].duplicate()),
            None => None,
        }
    }

    /// Whether the playlist with this id has a loose track with this URI.
    pub fn contains(&self, id: &str, uri: &str) -> (r: bool)
        ensures
            r == (playlist_with(self.views(), id@) matches Some(p) && has_uri(p.tracks, uri@)),
    {
        match self.position(id) {
            Some(i) => contains_track_uri(&self.items[i].tracks, uri),
            None => false,
        }
    }

    /// Whether the playlist with this id embeds an album with this URI.
    pub fn contains_album(&self, id: &str, album_uri: &str) -> (r: bool)
        ensures
            r == (playlist_with(self.views(), id@) matches Some(p) && has_album(p.albums, album_uri@)),
    {
        match self.position(id) {
            Some(i) => contains_album_uri(&self.items[i].albums, album_uri),
            None => false,
        }
    }

    /// Whether a playlist imported from this source with this id exists.
    pub fn has_import(&self, source: &str, source_id: &str) -> (r: bool)
        ensures
            r == has_id(self.views(), external_id_spec(source@, source_id@)),
    {
        let id = external_playlist_id(source, source_id);
        contains_id(&self.items, id.as_str())
    }

    /// Create an empty playlist first in the list, named after the trimmed
    /// name or "New Playlist" when blank, with id `pl-<now_ms>`; returns the
    /// id.
    pub fn create(&mut self, name: &str, now_ms: i64) -> (id: String)
        ensures
            id@ == "pl-"@ + signed_decimal(now_ms),
            final(self).views() == seq![
                PlaylistView {
                    id: id@,
                    name: if trim(name@).len() == 0 {
                        "New Playlist"@
                    } else {
                        trim(name@)
                    },
                    tracks: Seq::empty(),
                    albums: Seq::empty(),
                    created_at_ms: now_ms,
                    updated_at_ms: now_ms,
                }
            ] + old(self).views(),
    {
        let t = trim_str(name);
        let n = if t.as_str().is_empty() {
            "New Playlist".to_string()
        } else {
            t
        };
        let digits = if now_ms < 0 {
            let m: u64 = if now_ms == i64::MIN {
                9_223_372_036_854_775_808u64
            } else {
                (-now_ms) as u64
            };
            concat("-", crate::config::to_decimal(m).as_str())
        } else {
            crate::config::to_decimal(now_ms as u64)
        };
        let id = concat("pl-", digits.as_str());
        let p = Playlist {
            id: id.clone(),
            name: n,
            tracks: Vec::new(),
            albums: Vec::new(),
            created_at_ms: now_ms,
            updated_at_ms: now_ms,
        };
        let ghost old_views = self.views();
        self.items.insert(0, p);
        assert(self.views() =~= seq![self.views()[0]] + old_views);
        assert(track_views(Seq::<Track>::empty()) =~= Seq::<TrackView>::empty());
        assert(album_views(Seq::<PlaylistAlbum>::empty()) =~= Seq::<AlbumWidgetView>::empty());
        id
    }

    /// Import playlists from a source (see [`merge_external_playlists`]);
    /// returns how many were added.
    pub fn import_external(&mut self, source: &str, playlists: Vec<PlaylistImport>, now_ms: i64) -> (added: usize)
        ensures
            final(self).views() == new_imports(
                old(self).views(),
                source@,
                import_views(playlists@),
                now_ms,
            ) + old(self).views(),
            added == new_imports(old(self).views(), source@, import_views(playlists@), now_ms).len(),
    {
        merge_external_playlists(&mut self.items, source, playlists, now_ms)
    }

    /// Remove every playlist with this id.
    pub fn delete(&mut self, id: &str)
        ensures
            final(self).views() == old(self).views().filter(|p: PlaylistView| p.id != id@),
    {
        let ghost s = self.views();
        let mut kept: Vec<Playlist> = Vec::new();
        let mut i: usize = 0;
        while i < self.items.len()
            invariant
                i <= self.items@.len(),
                s == self.views(),
                playlist_views(kept@) == s.take(i as int).filter(|p: PlaylistView| p.id != id@),
            decreases self.items@.len() - i,
        {
            let ghost q = s.take(i + 1);
            assert(q.drop_last() =~= s.take(i as int));
            assert(q.last() == self.items@[i as int]@);
            reveal_with_fuel(Seq::filter, 1);
            if !str_eq(self.items[i].id.as_str(), id) {
                let ghost before = playlist_views(kept@);
                kept.push(self.items[i].duplicate());
                assert(playlist_views(kept@) =~= before.push(self.items@[i as int]@));
            }
            i = i + 1;
        }
        assert(s.take(self.items@.len() as int) =~= s);
        self.items = kept;
    }

    /// Replace the playlist at `i` (the first with its id).
    fn replace_at(&mut self, i: usize, p: Playlist)
        requires
            i < old(self).items@.len(),
        ensures
            final(self).views() == old(self).views().update(i as int, p@),
    {
        self.items.set(i, p);
        assert(self.views() =~= old(self).views().update(i as int, p@));
    }

    /// Rename the playlist with this id to the trimmed name, stamping it
    /// updated; a blank name changes nothing.
    pub fn rename(&mut self, id: &str, name: &str, now_ms: i64)
        ensures
            trim(name@).len() == 0 ==> final(self).views() == old(self).views(),
            trim(name@).len() > 0 ==> final(self).views() == match playlist_with(old(self).views(), id@) {
                Some(p) => with_playlist(
                    old(self).views(),
                    id@,
                    PlaylistView { name: trim(name@), updated_at_ms: now_ms, ..p },
                ),
                None => old(self).views(),
            },
    {
        let t = trim_str(name);
        if t.as_str().is_empty() {
            return;
        }
        if let Some(i) = self.position(id) {
            let mut p = self.items[i].duplicate();
            p.name = t;
            p.updated_at_ms = now_ms;
            self.replace_at(i, p);
        }
    }

    /// Append a track to the playlist with this id unless a track with its
    /// URI is already there; returns whether it was added.
    pub fn add_track(&mut self, id: &str, track: &Track, now_ms: i64) -> (added: bool)
        ensures
            added == (playlist_with(old(self).views(), id@) matches Some(p) && !has_uri(
                p.tracks,
                track@.uri,
            )),
            final(self).views() == if added {
                with_playlist(
                    old(self).views(),
                    id@,
                    PlaylistView {
                        tracks: playlist_with(old(self).views(), id@)->0.tracks.push(track@),
                        updated_at_ms: now_ms,
                        ..playlist_with(old(self).views(), id@)->0
                    },
                )
            } else {
                old(self).views()
            },
    {
        match self.position(id) {
            Some(i) => {
                if contains_track_uri(&self.items[i].tracks, track.uri.as_str()) {
                    return false;
                }
                let mut p = self.items[i].duplicate();
                let ghost tv = track_views(p.tracks@);
                p.tracks.push(track.duplicate());
                assert(track_views(p.tracks@) =~= tv.push(track@));
                p.updated_at_ms = now_ms;
                self.replace_at(i, p);
                true
            },
            None => false,
        }
    }

    /// Append an album widget to the playlist with this id unless an album
    /// with its URI is already there; returns whether it was added.
    pub fn add_album(&mut self, id: &str, album: &PlaylistAlbum, now_ms: i64) -> (added: bool)
        ensures
            added == (playlist_with(old(self).views(), id@) matches Some(p) && !has_album(
                p.albums,
                album@.uri,
            )),
            final(self).views() == if added {
                with_playlist(
                    old(self).views(),
                    id@,
                    PlaylistView {
                        albums: playlist_with(old(self).views(), id@)->0.albums.push(album@),
                        updated_at_ms: now_ms,
                        ..playlist_with(old(self).views(), id@)->0
                    },
                )
            } else {
                old(self).views()
            },
    {
        match self.position(id) {
            Some(i) => {
                if contains_album_uri(&self.items[i].albums, album.uri.as_str()) {
                    return false;
                }
                let mut p = self.items[i].duplicate();
                let ghost av = album_views(p.albums@);
                p.albums.push(album.duplicate());
                assert(album_views(p.albums@) =~= av.push(album@));
                p.updated_at_ms = now_ms;
                self.replace_at(i, p);
                true
            },
            None => false,
        }
    }

    /// Swap a loose track of the playlist with this id with the one `delta`
    /// places away, when both positions exist.
    pub fn move_track(&mut self, id: &str, from: usize, delta: isize, now_ms: i64)
        ensures
            final(self).views() == match playlist_with(old(self).views(), id@) {
                Some(p) => if from < p.tracks.len() && 0 <= from + delta < p.tracks.len() {
                    with_playlist(
                        old(self).views(),
                        id@,
                        PlaylistView {
                            tracks: crate::queue::swapped(p.tracks, from as int, from + delta),
                            updated_at_ms: now_ms,
                            ..p
                        },
                    )
                } else {
                    old(self).views()
                },
                None => old(self).views(),
            },
    {
        if let Some(i) = self.position(id) {
            let len = self.items[i].tracks.len();
            let to: i128 = from as i128 + delta as i128;
            if from < len && to >= 0 && to < len as i128 {
                let mut p = self.items[i].duplicate();
                assert(track_views(p.tracks@).len() == track_views(self.items@[i as int].tracks@).len());
                let a = p.tracks[from].duplicate();
                let b = p.tracks[to as usize].duplicate();
                let ghost tv = track_views(p.tracks@);
                p.tracks.set(from, b);
                p.tracks.set(to as usize, a);
                assert(track_views(p.tracks@) =~= crate::queue::swapped(tv, from as int, to as int));
                p.updated_at_ms = now_ms;
                self.replace_at(i, p);
            }
        }
    }

    /// Swap an album widget of the playlist with this id with the one
    /// `delta` places away, when both positions exist.
    pub fn move_album(&mut self, id: &str, from: usize, delta: isize, now_ms: i64)
        ensures
            final(self).views() == match playlist_with(old(self).views(), id@) {
                Some(p) => if from < p.albums.len() && 0 <= from + delta < p.albums.len() {
                    with_playlist(
                        old(self).views(),
                        id@,
                        PlaylistView {
                            albums: crate::queue::swapped(p.albums, from as int, from + delta),
                            updated_at_ms: now_ms,
                            ..p
                        },
                    )
                } else {
                    old(self).views()
                },
                None => old(self).views(),
            },
    {
        if let Some(i) = self.position(id) {
            let len = self.items[i].albums.len();
            let to: i128 = from as i128 + delta as i128;
            if from < len && to >= 0 && to < len as i128 {
                let mut p = self.items[i].duplicate();
                assert(album_views(p.albums@).len() == album_views(self.items@[i as int].albums@).len());
                let a = p.albums[from].duplicate();
                let b = p.albums[to as usize].duplicate();
                let ghost av = album_views(p.albums@);
                p.albums.set(from, b);
                p.albums.set(to as usize, a);
                assert(album_views(p.albums@) =~= crate::queue::swapped(av, from as int, to as int));
                p.updated_at_ms = now_ms;
                self.replace_at(i, p);
            }
        }
    }

    /// Drop every loose track with this URI from the playlist with this id,
    /// stamping it updated when any went.
    pub fn remove_track(&mut self, id: &str, uri: &str, now_ms: i64)
        ensures
            final(self).views() == match playlist_with(old(self).views(), id@) {
                Some(p) => if has_uri(p.tracks, uri@) {
                    with_playlist(
                        old(self).views(),
                        id@,
                        PlaylistView {
                            tracks: p.tracks.filter(|t: TrackView| t.uri != uri@),
                            updated_at_ms: now_ms,
                            ..p
                        },
                    )
                } else {
                    old(self).views()
                },
                None => old(self).views(),
            },
    {
        if let Some(i) = self.position(id) {
            if contains_track_uri(&self.items[i].tracks, uri) {
                let mut p = self.items[i].duplicate();
                p.tracks = tracks_without_uri(&self.items[i].tracks, uri);
                p.updated_at_ms = now_ms;
                self.replace_at(i, p);
            } else {
                proof {
                    lemma_filter_keeps_all(track_views(self.items@[i as int].tracks@), uri@);
                }
            }
        }
    }

    /// Drop every album widget with this URI from the playlist with this id,
    /// stamping it updated when any went.
    pub fn remove_album(&mut self, id: &str, album_uri: &str, now_ms: i64)
        ensures
            final(self).views() == match playlist_with(old(self).views(), id@) {
                Some(p) => if has_album(p.albums, album_uri@) {
                    with_playlist(
                        old(self).views(),
                        id@,
                        PlaylistView {
                            albums: p.albums.filter(|a: AlbumWidgetView| a.uri != album_uri@),
                            updated_at_ms: now_ms,
                            ..p
                        },
                    )
                } else {
                    old(self).views()
                },
                None => old(self).views(),
            },
    {
        if let Some(i) = self.position(id) {
            if contains_album_uri(&self.items[i].albums, album_uri) {
                let mut p = self.items[i].duplicate();
                p.albums = albums_without_uri(&self.items[i].albums, album_uri);
                p.updated_at_ms = now_ms;
                self.replace_at(i, p);
            }
        }
    }
}

/// Some album widget of the list has this URI.
pub open spec fn has_album(s: Seq<AlbumWidgetView>, uri: Seq<char>) -> bool {
    exists|j: int| 0 <= j < s.len() && (#[trigger] s[j]).uri == uri
}

proof fn lemma_filter_keeps_all(s: Seq<TrackView>, uri: Seq<char>)
    requires
        !has_uri(s, uri),
    ensures
        s.filter(|t: TrackView| t.uri != uri) == s,
    decreases s.len(),
{
    reveal_with_fuel(Seq::filter, 1);
    if s.len() > 0 {
        let p = s.drop_last();
        assert forall|j: int| 0 <= j < p.len() implies (#[trigger] p[j]).uri != uri by {
            assert(p[j] == s[j]);
        }
        lemma_filter_keeps_all(p, uri);
        assert(s.last() == s[s.len() - 1]);
        assert(p.push(s.last()) =~= s);
    }
}

fn contains_track_uri(v: &Vec<Track>, uri: &str) -> (r: bool)
    ensures
        r == has_uri(track_views(v@), uri@),
{
    let mut i: usize = 0;
    while i < v.len()
        invariant
            i <= v@.len(),
            forall|j: int| 0 <= j < i ==> (#[trigger] track_views(v@)[j]).uri != uri@,
        decreases v@.len() - i,
    {
        if str_eq(v[i].uri.as_str(), uri) {
            assert(track_views(v@)[i as int].uri == uri@);
            return true;
        }
        i = i + 1;
    }
    false
}

fn contains_album_uri(v: &Vec<PlaylistAlbum>, uri: &str) -> (r: bool)
    ensures
        r == has_album(album_views(v@), uri@),
{
    let mut i: usize = 0;
    while i < v.len()
        invariant
            i <= v@.len(),
            forall|j: int| 0 <= j < i ==> (#[trigger] album_views(v@)[j]).uri != uri@,
        decreases v@.len() - i,
    {
        if str_eq(v[i].uri.as_str(), uri) {
            assert(album_views(v@)[i as int].uri == uri@);
            return true;
        }
        i = i + 1;
    }
    false
}

fn tracks_without_uri(v: &Vec<Track>, uri: &str) -> (r: Vec<Track>)
    ensures
        track_views(r@) == track_views(v@).filter(|t: TrackView| t.uri != uri@),
{
    let ghost s = track_views(v@);
    let mut out: Vec<Track> = Vec::new();
    let mut i: usize = 0;
    while i < v.len()
        invariant
            i <= v@.len(),
            s == track_views(v@),
            track_views(out@) == s.take(i as int).filter(|t: TrackView| t.uri != uri@),
        decreases v@.len() - i,
    {
        let ghost q = s.take(i + 1);
        assert(q.drop_last() =~= s.take(i as int));
        assert(q.last() == v@[i as int]@);
        reveal_with_fuel(Seq::filter, 1);
        if !str_eq(v[i].uri.as_str(), uri) {
            let ghost before = track_views(out@);
            out.push(v[i].duplicate());
            assert(track_views(out@) =~= before.push(v@[i as int]@));
        }
        i = i + 1;
    }
    assert(s.take(v@.len() as int) =~= s);
    out
}

fn albums_without_uri(v: &Vec<PlaylistAlbum>, uri: &str) -> (r: Vec<PlaylistAlbum>)
    ensures
        album_views(r@) == album_views(v@).filter(|a: AlbumWidgetView| a.uri != uri@),
{
    let ghost s = album_views(v@);
    let mut out: Vec<PlaylistAlbum> = Vec::new();
    let mut i: usize = 0;
    while i < v.len()
        invariant
            i <= v@.len(),
            s == album_views(v@),
            album_views(out@) == s.take(i as int).filter(|a: AlbumWidgetView| a.uri != uri@),
        decreases v@.len() - i,
    {
        let ghost q = s.take(i + 1);
        assert(q.drop_last() =~= s.take(i as int));
        assert(q.last() == v@[i as int]@);
        reveal_with_fuel(Seq::filter, 1);
        if !str_eq(v[i].uri.as_str(), uri) {
            let ghost before = album_views(out@);
            out.push(v[i].duplicate());
            assert(album_views(out@) =~= before.push(v@[i as int]@));
        }
        i = i + 1;
    }
    assert(s.take(v@.len() as int) =~= s);
    out
}

proof fn lemma_has_id_prefix(p: Seq<PlaylistView>, x: PlaylistView, id: Seq<char>)
    requires
        has_id(p, id),
    ensures
        has_id(p.push(x), id),
{
    let j = choose|j: int| 0 <= j < p.len() && (#[trigger] p[j]).id == id;
    assert(p.push(x)[j] == p[j]);
}

/// After an import every imported id is taken, by a playlist that was
/// there or by a new one.
proof fn lemma_import_ids_taken(
    existing: Seq<PlaylistView>,
    source: Seq<char>,
    imports: Seq<(Seq<char>, Seq<char>, Seq<TrackView>)>,
    now_ms: i64,
)
    ensures
        forall|k: int|
            0 <= k < imports.len() ==> has_id(existing, external_id_spec(source, (#[trigger] imports[k]).0))
                || has_id(new_imports(existing, source, imports, now_ms), external_id_spec(source, imports[k].0)),
    decreases imports.len(),
{
    if imports.len() > 0 {
        let pre = imports.drop_last();
        lemma_import_ids_taken(existing, source, pre, now_ms);
        let prev = new_imports(existing, source, pre, now_ms);
        let cur = new_imports(existing, source, imports, now_ms);
        let id = external_id_spec(source, imports.last().0);
        assert forall|k: int| 0 <= k < imports.len() implies has_id(existing, external_id_spec(source, (#[trigger] imports[k]).0))
            || has_id(cur, external_id_spec(source, imports[k].0)) by {
            let kid = external_id_spec(source, imports[k].0);
            if k < pre.len() {
                assert(pre[k] == imports[k]);
                if !has_id(existing, kid) {
                    assert(has_id(prev, kid));
                    if !(has_id(existing, id) || has_id(prev, id)) {
                        lemma_has_id_prefix(prev, cur.last(), kid);
                        assert(cur =~= prev.push(cur.last()));
                    }
                }
            } else {
                if !(has_id(existing, id) || has_id(prev, id)) {
                    assert(cur.last().id == id);
                    assert(cur[cur.len() - 1].id == id);
                }
            }
        }
    }
}

proof fn lemma_nothing_new(
    existing: Seq<PlaylistView>,
    source: Seq<char>,
    imports: Seq<(Seq<char>, Seq<char>, Seq<TrackView>)>,
    now_ms: i64,
)
    requires
        forall|k: int| 0 <= k < imports.len() ==> has_id(existing, external_id_spec(source, (#[trigger] imports[k]).0)),
    ensures
        new_imports(existing, source, imports, now_ms).len() == 0,
    decreases imports.len(),
{
    if imports.len() > 0 {
        let pre = imports.drop_last();
        assert forall|k: int| 0 <= k < pre.len() implies has_id(existing, external_id_spec(source, (#[trigger] pre[k]).0)) by {
            assert(pre[k] == imports[k]);
        }
        lemma_nothing_new(existing, source, pre, now_ms);
        assert(imports.last() == imports[imports.len() - 1]);
    }
}

/// Importing the same playlists again adds nothing: imports never
/// duplicate, and never overwrite, a playlist already there.
pub proof fn law_reimport_adds_nothing(
    existing: Seq<PlaylistView>,
    source: Seq<char>,
    imports: Seq<(Seq<char>, Seq<char>, Seq<TrackView>)>,
    now_ms: i64,
    later_ms: i64,
)
    ensures
        new_imports(new_imports(existing, source, imports, now_ms) + existing, source, imports, later_ms).len() == 0,
{
    let added = new_imports(existing, source, imports, now_ms);
    let all = added + existing;
    lemma_import_ids_taken(existing, source, imports, now_ms);
    assert forall|k: int| 0 <= k < imports.len() implies has_id(all, external_id_spec(source, (#[trigger] imports[k]).0)) by {
        let kid = external_id_spec(source, imports[k].0);
        if has_id(existing, kid) {
            let j = choose|j: int| 0 <= j < existing.len() && (#[trigger] existing[j]).id == kid;
            assert(all[added.len() + j] == existing[j]);
        } else {
            let j = choose|j: int| 0 <= j < added.len() && (#[trigger] added[j]).id == kid;
            assert(all[j] == added[j]);
        }
    }
    lemma_nothing_new(all, source, imports, later_ms);
}

proof fn lemma_first_id_is(s: Seq<PlaylistView>, id: Seq<char>, i: int, start: int)
    requires
        0 <= start <= i < s.len(),
        s[i].id == id,
        forall|j: int| start <= j < i ==> (#[trigger] s[j]).id != id,
    ensures
        first_id_from(s, id, start) == Some(i),
    decreases i - start,
{
    if start < i {
        lemma_first_id_is(s, id, i, start + 1);
    }
}

/// A track added to a playlist is in it, so adding it again is refused.
pub proof fn law_added_track_is_contained(s: Seq<PlaylistView>, id: Seq<char>, t: TrackView, now_ms: i64)
    requires
        playlist_with(s, id) is Some,
    ensures
        ({
            let p = playlist_with(s, id)->0;
            let s2 = with_playlist(s, id, PlaylistView { tracks: p.tracks.push(t), updated_at_ms: now_ms, ..p });
            playlist_with(s2, id) matches Some(p2) && has_uri(p2.tracks, t.uri)
        }),
{
    let i = first_id(s, id)->0;
    lemma_first_id_from(s, id, 0);
    let p = s[i];
    let np = PlaylistView { tracks: p.tracks.push(t), updated_at_ms: now_ms, ..p };
    let s2 = s.update(i, np);
    assert forall|j: int| 0 <= j < i implies (#[trigger] s2[j]).id != id by {
        assert(s2[j] == s[j]);
    }
    lemma_first_id_is(s2, id, i, 0);
    assert(np.tracks[p.tracks.len() as int] == t);
}

} // verus!
