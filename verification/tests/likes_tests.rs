use nira::likes::{LikedTrack, Likes};
use nira::track::{ArtistRef, ProviderId, Track};

fn track(uri: &str, title: &str) -> Track {
    Track {
        uri: uri.to_string(),
        title: title.to_string(),
        artists: vec![ArtistRef { uri: "spotify:artist:1".to_string(), name: "Artist".to_string() }],
        album: None,
        duration_ms: 200_000,
        cover_url: None,
        provider: ProviderId::Spotify,
        mbid: None,
        added_at_ms: None,
    }
}

#[test]
fn toggle_likes_newest_first_then_unlikes() {
    let mut likes = Likes::new();
    likes.toggle(&track("spotify:track:1", "One"), 1_000);
    likes.toggle(&track("spotify:track:2", "Two"), 2_000);
    assert_eq!(likes.count(), 2);
    let list = likes.list();
    assert_eq!(list[0].track.uri, "spotify:track:2");
    assert_eq!(list[0].liked_at_ms, 2_000);
    assert_eq!(list[1].track.uri, "spotify:track:1");
    assert!(likes.is_liked("spotify:track:1"));

    likes.toggle(&track("spotify:track:1", "One"), 3_000);
    assert!(!likes.is_liked("spotify:track:1"));
    assert_eq!(likes.count(), 1);
    assert_eq!(likes.list()[0].track.uri, "spotify:track:2");
}

#[test]
fn toggling_twice_restores_the_list() {
    let saved = vec![LikedTrack { track: track("soundcloud:track:9", "Nine"), liked_at_ms: 5 }];
    let mut likes = Likes::from_items(saved);
    likes.toggle(&track("spotify:track:3", "Three"), 10);
    likes.toggle(&track("spotify:track:3", "Three"), 11);
    let list = likes.list();
    assert_eq!(list.len(), 1);
    assert_eq!(list[0].track.uri, "soundcloud:track:9");
    assert_eq!(list[0].liked_at_ms, 5);
}

#[test]
fn unknown_uri_is_not_liked() {
    let likes = Likes::new();
    assert!(!likes.is_liked("spotify:track:1"));
    assert_eq!(likes.count(), 0);
}
