use nira::candidates::DiscoveryError;
use nira::discovery::DiscoveryResult;
use nira::featured::{featured_outcome, first_roll_wanted, pick_featured_seed, seed_input_for};
use nira::track::{ArtistRef, ProviderId, Track};

fn track(uri: &str, artists: &[&str], title: &str) -> Track {
    Track {
        uri: uri.to_string(),
        title: title.to_string(),
        artists: artists
            .iter()
            .map(|a| ArtistRef { uri: format!("spotify:artist:{a}"), name: a.to_string() })
            .collect(),
        album: None,
        duration_ms: 1,
        cover_url: None,
        provider: ProviderId::Spotify,
        mbid: Some("mb-1".to_string()),
        added_at_ms: None,
    }
}

fn result(title: &str) -> DiscoveryResult {
    DiscoveryResult {
        mbid: None,
        title: title.to_string(),
        artist: "A".to_string(),
        cover_url: None,
        spotify: None,
        soundcloud: None,
        score_milli: 900,
        rationale: String::new(),
    }
}

#[test]
fn seed_input_joins_every_artist() {
    let s = seed_input_for(&track("spotify:track:1", &["A", "B"], "Duet"));
    assert_eq!(s.artist, "A, B");
    assert_eq!(s.title, "Duet");
    assert_eq!(s.mbid.as_deref(), Some("mb-1"));
}

#[test]
fn an_empty_library_picks_nothing_and_a_full_one_picks_a_liked_song() {
    assert!(pick_featured_seed(&Vec::new()).is_none());
    let liked = vec![track("spotify:track:1", &["A"], "One"), track("spotify:track:2", &["B"], "Two")];
    for _ in 0..20 {
        let (t, input) = pick_featured_seed(&liked).unwrap();
        assert!(liked.iter().any(|l| l.uri == t.uri));
        assert_eq!(input.title, t.title);
    }
}

#[test]
fn outcome_features_the_top_neighbour_or_explains() {
    let top = featured_outcome(Ok(vec![result("First"), result("Second")])).unwrap();
    assert_eq!(top.title, "First");
    assert_eq!(
        featured_outcome(Ok(Vec::new())).unwrap_err(),
        "No neighbours found for that seed — give it another roll."
    );
    assert_eq!(
        featured_outcome(Err(DiscoveryError::EmptyNeighbourhood)).unwrap_err(),
        "no neighbours found for this track (yet)"
    );
}

#[test]
fn the_card_rolls_by_itself_only_when_idle_and_empty() {
    assert!(first_roll_wanted(3, false, false, false));
    assert!(!first_roll_wanted(0, false, false, false));
    assert!(!first_roll_wanted(3, true, false, false));
    assert!(!first_roll_wanted(3, false, true, false));
    assert!(!first_roll_wanted(3, false, false, true));
}
