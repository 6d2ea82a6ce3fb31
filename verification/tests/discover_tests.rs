use nira::candidates::DiscoveryError;
use nira::discover::{discover_request, similar_outcome, DiscoveryMode};
use nira::discovery::DiscoveryResult;

#[test]
fn typed_seeds_need_a_title_and_bridge_mode_needs_a_track() {
    let seed = discover_request(DiscoveryMode::SimilarTo, " Snow Strippers - Drench ").unwrap();
    assert_eq!(seed.artist, "Snow Strippers");
    assert_eq!(seed.title, "Drench");
    let seed = discover_request(DiscoveryMode::SimilarTo, "Drench").unwrap();
    assert_eq!(seed.artist, "");
    assert_eq!(discover_request(DiscoveryMode::SimilarTo, "   ").unwrap_err(), "Type an artist and title first.");
    assert!(discover_request(DiscoveryMode::CrossPlatformBridge, "Drench")
        .unwrap_err()
        .starts_with("Bridge mode resolves a known track"));
}

#[test]
fn run_outcomes_read_well() {
    let r = DiscoveryResult {
        mbid: None,
        title: "T".to_string(),
        artist: "A".to_string(),
        cover_url: None,
        spotify: None,
        soundcloud: None,
        score_milli: 1,
        rationale: String::new(),
    };
    assert_eq!(similar_outcome(Ok(vec![r])).unwrap().len(), 1);
    assert_eq!(
        similar_outcome(Ok(vec![])).unwrap_err(),
        "No neighbours found — try a more popular seed track."
    );
    assert_eq!(
        similar_outcome(Err(DiscoveryError::SeedUnresolved)).unwrap_err(),
        "seed track could not be resolved on any provider"
    );
}
