use nira::album::{
    album_load_error, album_source, local_album_detail, local_album_missing, no_album_provider,
    playlist_load_error, playlist_source, AlbumSource,
};
use nira::library::AlbumType;
use nira::track::{AlbumRef, ArtistRef, ProviderId, Track};

fn local(uri: &str, album: Option<(&str, &str)>, artist: Option<&str>) -> Track {
    Track {
        uri: uri.to_string(),
        title: uri.to_string(),
        artists: artist
            .map(|a| vec![ArtistRef { uri: format!("local:artist:{a}"), name: a.to_string() }])
            .unwrap_or_default(),
        album: album.map(|(u, t)| AlbumRef { uri: u.to_string(), title: t.to_string() }),
        duration_ms: 1,
        cover_url: Some(format!("{uri}.jpg")),
        provider: ProviderId::Local,
        mbid: None,
        added_at_ms: None,
    }
}

#[test]
fn local_albums_come_from_the_library() {
    let lib = vec![
        local("local:1", Some(("local:album:x", "X")), Some("A")),
        local("local:2", Some(("local:album:y", "Y")), Some("B")),
        local("local:3", Some(("local:album:x", "X")), None),
        local("local:4", None, Some("C")),
    ];
    let d = local_album_detail(&lib, "local:album:x").unwrap();
    let uris: Vec<&str> = d.tracks.iter().map(|t| t.uri.as_str()).collect();
    assert_eq!(uris, vec!["local:1", "local:3"]);
    assert_eq!(d.title, "X");
    assert_eq!(d.artist.name, "A");
    assert_eq!(d.cover_url.as_deref(), Some("local:1.jpg"));
    assert_eq!(d.provider, ProviderId::Local);
    assert_eq!(d.album_type, AlbumType::Unknown);
    assert!(d.release_year.is_none());
    assert!(local_album_detail(&lib, "local:album:none").is_none());
    let d = local_album_detail(&vec![local("local:9", Some(("local:album:z", "Z")), None)], "local:album:z").unwrap();
    assert_eq!(d.artist.name, "");
}

#[test]
fn sources_and_messages() {
    assert_eq!(album_source("local:album:x"), AlbumSource::Local);
    assert_eq!(album_source("spotify:album:1"), AlbumSource::Provider(ProviderId::Spotify));
    assert_eq!(album_source("soundcloud:playlist:1"), AlbumSource::Provider(ProviderId::SoundCloud));
    assert_eq!(album_source("ftp:album"), AlbumSource::Unknown);
    assert_eq!(local_album_missing(), "Album not found in the local library — try a rescan.");
    assert_eq!(no_album_provider(), "No provider for this album URI.");
    assert_eq!(album_load_error("404"), "album: 404");
    assert_eq!(playlist_source("spotify:playlist:1"), Some(ProviderId::Spotify));
    assert_eq!(playlist_source("soundcloud:playlists:1"), Some(ProviderId::SoundCloud));
    assert_eq!(playlist_source("local:playlist"), None);
    assert_eq!(playlist_load_error("gone"), "playlist: gone");
}
