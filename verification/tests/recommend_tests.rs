use nira::recommend::{
    curate_tracks, dedupe_tracks, diverse_seeds, filter_seed_variants, seed_from_parts, track_key,
};
use nira::track::{ArtistRef, ProviderId, Track};

fn track(uri: &str, artist: &str, title: &str) -> Track {
    let sc = uri.starts_with("soundcloud:");
    Track {
        uri: uri.to_string(),
        title: title.to_string(),
        artists: vec![ArtistRef {
            uri: if sc {
                "soundcloud:user:1".to_string()
            } else {
                "spotify:artist:1".to_string()
            },
            name: artist.to_string(),
        }],
        album: None,
        duration_ms: 180_000,
        cover_url: None,
        provider: if sc {
            ProviderId::SoundCloud
        } else {
            ProviderId::Spotify
        },
        mbid: None,
        added_at_ms: None,
    }
}

#[test]
fn dedupe_tracks_uses_uri_and_artist_title() {
    let tracks = dedupe_tracks(vec![
        track("soundcloud:track:1", "A", "Song"),
        track("soundcloud:track:2", "A", "Song"),
        track("soundcloud:track:3", "A", "Other"),
    ]);
    assert_eq!(tracks.len(), 2);
}

#[test]
fn seed_from_parts_skips_empty_rows() {
    assert!(seed_from_parts("", "Song", None).is_none());
    assert!(seed_from_parts("Artist", "", None).is_none());
    assert!(seed_from_parts("Artist", "Song", None).is_some());
}

#[test]
fn diverse_seeds_caps_per_artist_preserving_order() {
    let seeds = vec![
        seed_from_parts("A", "1", None).unwrap(),
        seed_from_parts("A", "2", None).unwrap(),
        seed_from_parts("B", "1", None).unwrap(),
        seed_from_parts("A", "3", None).unwrap(),
        seed_from_parts("C", "1", None).unwrap(),
        seed_from_parts("B", "2", None).unwrap(),
    ];
    let out = diverse_seeds(seeds, 1);
    let titles: Vec<_> = out
        .iter()
        .map(|s| (s.artist.as_str(), s.title.as_str()))
        .collect();
    assert_eq!(titles, vec![("A", "1"), ("B", "1"), ("C", "1")]);
}

#[test]
fn diverse_seeds_allows_two_per_artist() {
    let seeds = vec![
        seed_from_parts("A", "1", None).unwrap(),
        seed_from_parts("A", "2", None).unwrap(),
        seed_from_parts("A", "3", None).unwrap(),
        seed_from_parts("B", "1", None).unwrap(),
    ];
    let out = diverse_seeds(seeds, 2);
    let a_count = out.iter().filter(|s| s.artist == "A").count();
    assert_eq!(a_count, 2);
    assert!(out.iter().any(|s| s.artist == "B"));
}

#[test]
fn curate_tracks_excludes_caps_and_backfills() {
    let tracks = vec![
        track("soundcloud:track:0", "A", "S0"),
        track("soundcloud:track:1", "A", "S1"),
        track("soundcloud:track:2", "A", "S2"),
        track("soundcloud:track:3", "B", "S3"),
        track("soundcloud:track:4", "B", "S4"),
        track("soundcloud:track:5", "C", "S5"),
    ];
    let one_excluded = vec![track_key(&tracks[0])];
    let copy: Vec<Track> = tracks.iter().map(|t| t.duplicate()).collect();
    let kept = curate_tracks(copy, &one_excluded, 2, 6);
    assert_eq!(kept.len(), 5);
    assert!(!kept.iter().any(|t| t.title == "S0"));

    let same_artist: Vec<Track> = (0..6)
        .map(|i| track(&format!("soundcloud:track:a{i}"), "A", &format!("T{i}")))
        .collect();
    let kept = curate_tracks(same_artist, &Vec::new(), 2, 6);
    assert_eq!(kept.len(), 6);

    let all: Vec<String> = tracks.iter().map(track_key).collect();
    let kept = curate_tracks(tracks, &all, 2, 4);
    assert_eq!(kept.len(), 4);
}

#[test]
fn curate_tracks_collapses_same_song_from_different_uploaders() {
    let tracks = vec![
        track("soundcloud:track:1", "Original", "Cool Song"),
        track("soundcloud:track:2", "Reupload Guy", "Cool Song (Official Audio)"),
        track("spotify:track:3", "Original", "Cool Song"),
        track("soundcloud:track:4", "Other", "Different Song"),
    ];
    let kept = curate_tracks(tracks, &Vec::new(), 3, 10);
    assert_eq!(kept.len(), 2, "duplicate song copies survived: {kept:?}");
}

#[test]
fn filter_seed_variants_drops_reuploads_and_variants() {
    let seed = seed_from_parts("Artist", "Drench", None).unwrap();
    let tracks = vec![
        track("soundcloud:track:1", "Someone Else", "Drench"),
        track("soundcloud:track:2", "Other", "Drench (sped up)"),
        track("soundcloud:track:3", "Other", "Fresh Song (nightcore)"),
        track("soundcloud:track:4", "Other", "New Song"),
    ];
    let kept = filter_seed_variants(tracks, &seed);
    let titles: Vec<_> = kept.iter().map(|t| t.title.as_str()).collect();
    assert_eq!(titles, vec!["New Song"]);
}
