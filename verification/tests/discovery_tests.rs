use nira::candidates::{merge_candidate, support_candidates, Candidate};
use nira::discovery::{is_low_quality_variant, is_seed_reupload, SimilarToSeed};
use nira::normalize::canonical_title;
use nira::track::{ArtistRef, ProviderId, Track};

fn seed() -> SimilarToSeed {
    SimilarToSeed {
        artist: "Snow Strippers".to_string(),
        title: "Drench".to_string(),
        mbid: None,
    }
}

fn candidate(title: &str, artist: &str, score_milli: u32, source: &str) -> Candidate {
    Candidate {
        mbid: None,
        title: title.to_string(),
        artist: artist.to_string(),
        score_milli,
        sources: vec![source.to_string()],
        soundcloud_track: None,
        source_rank: 0,
    }
}

fn sc_candidate(title: &str, artist: &str) -> Candidate {
    let track = Track {
        uri: format!("soundcloud:track:{title}"),
        title: title.to_string(),
        artists: vec![ArtistRef {
            uri: "soundcloud:user:1".to_string(),
            name: artist.to_string(),
        }],
        album: None,
        duration_ms: 180_000,
        cover_url: None,
        provider: ProviderId::SoundCloud,
        mbid: None,
        added_at_ms: None,
    };
    Candidate {
        mbid: None,
        title: title.to_string(),
        artist: artist.to_string(),
        score_milli: 900,
        sources: vec!["SoundCloud".to_string()],
        soundcloud_track: Some(track),
        source_rank: 2,
    }
}

#[test]
fn canonical_title_strips_common_upload_noise() {
    assert_eq!(canonical_title("Drench (Official Audio)"), "drench");
    assert_eq!(canonical_title("Drench [Visualizer]"), "drench");
    assert_eq!(canonical_title("Drench ft. Someone"), "drench someone");
}

#[test]
fn filters_variants_unless_seed_is_variant() {
    let normal = seed();
    assert!(is_low_quality_variant("Drench slowed + reverb", &normal));

    let remix_seed = SimilarToSeed {
        title: "Drench remix".to_string(),
        ..normal
    };
    assert!(!is_low_quality_variant("Drench remix", &remix_seed));
}

#[test]
fn detects_seed_reuploads_from_same_artist() {
    let c = candidate("Drench (upload)", "Snow Strippers", 800, "Last.fm");
    assert!(is_seed_reupload(&c.title, &c.artist, &seed()));

    let other = candidate("Drench", "Different Artist", 800, "Last.fm");
    assert!(!is_seed_reupload(&other.title, &other.artist, &seed()));
}

#[test]
fn sc_candidate_is_not_overwritten_by_support_merge() {
    let mut sc = sc_candidate("Cult", "Producer A");
    let support = candidate("Cult", "Producer B", 990, "Last.fm");
    merge_candidate(&mut sc, &support);

    assert_eq!(sc.title, "Cult");
    assert_eq!(sc.artist, "Producer A");
    assert_eq!(sc.source_rank, 2);
    assert!(sc.soundcloud_track.is_some());
    assert!(sc.sources.iter().any(|s| s == "Last.fm"));
}

#[test]
fn support_candidates_dedupe_and_merge_sources() {
    let lb = candidate("Track (Official Audio)", "A", 500, "ListenBrainz");
    let lf = candidate("Track", "B", 600, "Last.fm");
    let support = support_candidates(vec![lb], vec![lf], &SimilarToSeed::from_input("Seed"));
    assert_eq!(support.len(), 1);
    let merged = &support[0];
    assert!(merged.sources.iter().any(|s| s == "ListenBrainz"));
    assert!(merged.sources.iter().any(|s| s == "Last.fm"));
}
