use nira::flac::{flac_eligible, flac_match, flac_query, FlacSwaps};
use nira::track::{ArtistRef, ProviderId, Track};

fn track(uri: &str, artist: &str, title: &str, duration_ms: u64, provider: ProviderId) -> Track {
    Track {
        uri: uri.to_string(),
        title: title.to_string(),
        artists: vec![ArtistRef { uri: "a".to_string(), name: artist.to_string() }],
        album: None,
        duration_ms,
        cover_url: None,
        provider,
        mbid: None,
        added_at_ms: None,
    }
}

#[test]
fn only_streaming_tracks_with_a_connected_account_are_swapped() {
    assert!(flac_eligible(ProviderId::Spotify, true));
    assert!(flac_eligible(ProviderId::SoundCloud, true));
    assert!(!flac_eligible(ProviderId::Spotify, false));
    assert!(!flac_eligible(ProviderId::Local, true));
    assert!(!flac_eligible(ProviderId::HiRes, true));
}

#[test]
fn the_strict_match_plays_and_answers_are_remembered() {
    let t = track("spotify:track:1", "Daft Punk", "One More Time", 320_000, ProviderId::Spotify);
    assert_eq!(flac_query(&t), "Daft Punk One More Time");
    let hits = vec![
        track("hires-provider:track:9", "Daft Punk", "One More Time (Live)", 400_000, ProviderId::HiRes),
        track("hires-provider:track:2", "Daft Punk", "One More Time", 321_000, ProviderId::HiRes),
    ];
    let found = flac_match(&t, &hits);
    assert_eq!(found.as_ref().map(|f| f.uri.as_str()), Some("hires-provider:track:2"));

    let mut swaps = FlacSwaps::new();
    assert!(swaps.get("spotify:track:1").is_none());
    swaps.remember("spotify:track:1".to_string(), found);
    swaps.remember("spotify:track:3".to_string(), None);
    assert_eq!(swaps.get("spotify:track:1").unwrap().unwrap().uri, "hires-provider:track:2");
    assert!(swaps.get("spotify:track:3").unwrap().is_none());
    let untitled = track("spotify:track:4", "", "", 1, ProviderId::Spotify);
    assert_eq!(flac_query(&untitled), "");
}
