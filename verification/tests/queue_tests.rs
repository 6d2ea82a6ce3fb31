use nira::discovery::{interleave_radio, DiscoveryResult};
use nira::queue::{spread_artists, spread_key};
use nira::track::{ArtistRef, ProviderId, Track};

fn track(artist: &str, title: &str) -> Track {
    Track {
        uri: format!("soundcloud:track:{artist}-{title}"),
        title: title.to_string(),
        artists: vec![ArtistRef {
            uri: "soundcloud:user:1".to_string(),
            name: artist.to_string(),
        }],
        album: None,
        duration_ms: 180_000,
        cover_url: None,
        provider: ProviderId::SoundCloud,
        mbid: None,
        added_at_ms: None,
    }
}

fn result(artist: &str, title: &str) -> DiscoveryResult {
    DiscoveryResult {
        mbid: None,
        title: title.to_string(),
        artist: artist.to_string(),
        cover_url: None,
        spotify: None,
        soundcloud: Some(track(artist, title)),
        score_milli: 1000,
        rationale: String::new(),
    }
}

#[test]
fn spread_artists_breaks_up_adjacent_runs() {
    let mut tracks = vec![
        track("A", "1"),
        track("A", "2"),
        track("B", "1"),
        track("A", "3"),
        track("C", "1"),
    ];
    spread_artists(&mut tracks);
    assert_eq!(tracks[0].title, "1");
    assert_eq!(tracks[0].artists[0].name, "A");
    for pair in tracks.windows(2) {
        assert_ne!(
            spread_key(&pair[0]),
            spread_key(&pair[1]),
            "adjacent same-artist pair survived: {:?}",
            tracks
                .iter()
                .map(|t| t.artists[0].name.clone())
                .collect::<Vec<_>>()
        );
    }
}

#[test]
fn spread_artists_single_artist_queue_terminates_unchanged() {
    let mut tracks = vec![track("A", "1"), track("A", "2"), track("A", "3")];
    spread_artists(&mut tracks);
    let titles: Vec<_> = tracks.iter().map(|t| t.title.as_str()).collect();
    assert_eq!(titles, vec!["1", "2", "3"]);
}

#[test]
fn interleave_radio_blends_two_to_one_and_dedupes() {
    let main = vec![
        result("M", "Alpha"),
        result("M", "Beta"),
        result("M", "Gamma"),
    ];
    let profile = vec![
        result("P", "Delta"),
        result("M", "Alpha"),
        result("P", "Epsilon"),
    ];
    let blended = interleave_radio(main, profile);
    let names: Vec<String> = blended
        .iter()
        .map(|r| format!("{}-{}", r.artist, r.title))
        .collect();
    assert_eq!(
        names,
        vec!["M-Alpha", "M-Beta", "P-Delta", "M-Gamma", "P-Epsilon"]
    );
}

#[test]
fn interleave_radio_collapses_same_song_across_sources() {
    let main = vec![result("M", "Cool Song")];
    let profile = vec![result("P", "Cool Song (Official Audio)")];
    let blended = interleave_radio(main, profile);
    assert_eq!(blended.len(), 1);
    assert_eq!(blended[0].artist, "M");
}
