use nira::artist::{artist_load_error, needs_spotify_twin, related_source_uri, ArtistLoads};
use nira::bridge::{artist_twin, infer_provider};
use nira::search::Artist;
use nira::track::ProviderId;

fn artist(name: &str, uri: &str) -> Artist {
    Artist {
        uri: uri.to_string(),
        provider: ProviderId::Spotify,
        name: name.to_string(),
        image_url: None,
        genres: vec![],
        permalink_url: None,
    }
}

#[test]
fn soundcloud_profiles_without_albums_borrow_from_spotify() {
    assert!(needs_spotify_twin(0, ProviderId::SoundCloud));
    assert!(!needs_spotify_twin(3, ProviderId::SoundCloud));
    assert!(!needs_spotify_twin(0, ProviderId::Spotify));
    let hits = vec![artist("Bon Iver Tribute", "spotify:artist:1"), artist("bon iver", "spotify:artist:2")];
    assert_eq!(artist_twin("Bon Iver", &hits).map(|a| a.uri), Some("spotify:artist:2".to_string()));
    assert!(artist_twin("???", &hits).is_none());
}

#[test]
fn related_tab_asks_spotify_or_the_twin() {
    let uri = "spotify:artist:9".to_string();
    assert_eq!(related_source_uri(ProviderId::Spotify, &uri, &None), Some(uri.clone()));
    assert_eq!(
        related_source_uri(ProviderId::SoundCloud, &"soundcloud:user:1".to_string(), &Some(uri.clone())),
        Some(uri.clone())
    );
    assert_eq!(related_source_uri(ProviderId::Local, &"local:artist:x".to_string(), &None), None);
    assert_eq!(infer_provider("soundcloud:user:5"), Some(ProviderId::SoundCloud));
    assert_eq!(infer_provider("local:artist:x"), None);
}

#[test]
fn newer_navigation_supersedes_older_loads() {
    let mut loads = ArtistLoads::new();
    let first = loads.begin();
    let second = loads.begin();
    assert!(!loads.is_current(first));
    assert!(loads.is_current(second));
    let mut wrap = ArtistLoads { generation: u64::MAX };
    assert_eq!(wrap.begin(), 0);
    assert_eq!(artist_load_error("404"), "artist: 404");
}
