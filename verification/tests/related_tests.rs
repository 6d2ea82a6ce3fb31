use nira::discovery::DiscoveryResult;
use nira::recommend::RecommendationSeed;
use nira::related::{
    aggregate_related, discovery_related_row, related_fetch_count, sc_related_row, seed_sc_uri,
    seeds_to_fetch, uploads_enough, uploads_row,
};
use nira::track::{ArtistRef, ProviderId, Track};

fn track(uri: &str, artist: &str, title: &str) -> Track {
    Track {
        uri: uri.to_string(),
        title: title.to_string(),
        artists: vec![ArtistRef { uri: "soundcloud:user:1".to_string(), name: artist.to_string() }],
        album: None,
        duration_ms: 180_000,
        cover_url: None,
        provider: ProviderId::SoundCloud,
        mbid: None,
        added_at_ms: None,
    }
}

fn seed(artist: &str, title: &str, uri: Option<&str>) -> RecommendationSeed {
    RecommendationSeed {
        artist: artist.to_string(),
        title: title.to_string(),
        label: format!("{artist} — {title}"),
        track_uri: uri.map(|u| u.to_string()),
    }
}

fn uris(v: &[Track]) -> Vec<&str> {
    v.iter().map(|t| t.uri.as_str()).collect()
}

#[test]
fn made_for_you_blends_round_robin() {
    let a = vec![track("sc:a1", "A", "a one"), track("sc:a2", "A2", "a two"), track("sc:a3", "A3", "a three")];
    let b = vec![track("sc:b1", "B", "b one")];
    let c = vec![track("sc:c1", "C", "c one"), track("sc:c2", "C2", "c two")];
    let row = aggregate_related(vec![Ok(a), Err("down".to_string()), Ok(b), Ok(c)], &vec![], 10).unwrap();
    assert_eq!(uris(&row), vec!["sc:a1", "sc:b1", "sc:c1", "sc:a2", "sc:c2", "sc:a3"]);
}

#[test]
fn made_for_you_caps_artists_and_pads_with_spares() {
    let a = vec![
        track("sc:1", "Same", "one"),
        track("sc:2", "Same", "two"),
        track("sc:3", "Same", "three"),
        track("sc:4", "Other", "four"),
    ];
    let row = aggregate_related(vec![Ok(a)], &vec!["other|four".to_string()], 4).unwrap();
    // Two of "Same" are kept; the third and the excluded track pad the row.
    assert_eq!(uris(&row), vec!["sc:1", "sc:2", "sc:3", "sc:4"]);
    let row = aggregate_related(
        vec![Ok(vec![track("sc:1", "Same", "one"), track("sc:2", "Same", "two"), track("sc:3", "Same", "three")])],
        &vec![],
        2,
    )
    .unwrap();
    assert_eq!(uris(&row), vec!["sc:1", "sc:2"]);
}

#[test]
fn made_for_you_drops_repeats_and_same_song_uploads() {
    let a = vec![track("sc:1", "A", "Song"), track("sc:1", "A", "Song"), track("sc:2", "A", "Song (Official Video)")];
    let b = vec![track("sc:3", "B", "song"), track("sc:4", "B", "Fresh")];
    let row = aggregate_related(vec![Ok(a), Ok(b)], &vec![], 10).unwrap();
    assert_eq!(uris(&row), vec!["sc:1", "sc:4"]);
}

#[test]
fn made_for_you_reports_the_last_error_when_nothing_came_back() {
    assert_eq!(
        aggregate_related(vec![Err("one".to_string()), Err("two".to_string())], &vec![], 5).unwrap_err(),
        "two"
    );
    assert_eq!(aggregate_related(vec![], &vec![], 5).unwrap_err(), "no seeds to aggregate");
}

#[test]
fn seed_feed_rows_are_cleaned_and_cut() {
    let s = seed("Seed", "Anthem", Some("soundcloud:track:42"));
    let feed = vec![
        track("sc:1", "X", "Anthem (Sped Up)"),
        track("sc:2", "Y", "Other"),
        track("sc:3", "Z", "Other"),
        track("sc:4", "W", "Third"),
        track("sc:5", "V", "Fourth"),
    ];
    let row = sc_related_row(feed, &s, 2);
    assert_eq!(uris(&row), vec!["sc:2", "sc:4"]);
    assert_eq!(seed_sc_uri(&s), Some("soundcloud:track:42".to_string()));
    assert_eq!(seed_sc_uri(&seed("a", "b", Some("spotify:track:1"))), None);
    assert_eq!(related_fetch_count(4), 8);
    assert_eq!(related_fetch_count(40), 50);
}

#[test]
fn discovery_rows_take_playable_results() {
    let mk = |uri: Option<&str>| DiscoveryResult {
        mbid: None,
        title: "t".to_string(),
        artist: "a".to_string(),
        cover_url: None,
        spotify: None,
        soundcloud: uri.map(|u| track(u, "a", u)),
        score_milli: 0,
        rationale: String::new(),
    };
    let row = discovery_related_row(vec![mk(Some("sc:1")), mk(None), mk(Some("sc:1")), mk(Some("sc:2"))], 1);
    assert_eq!(uris(&row), vec!["sc:1"]);
    let row = discovery_related_row(vec![mk(Some("sc:1")), mk(None), mk(Some("sc:1")), mk(Some("sc:2"))], 2);
    assert_eq!(uris(&row), vec!["sc:1", "sc:2"]);
}

#[test]
fn uploads_and_seed_lists() {
    let row = uploads_row(vec![track("sc:1", "A", "x"), track("sc:1", "A", "x"), track("sc:2", "B", "y")], 5);
    assert_eq!(uris(&row), vec!["sc:1", "sc:2"]);
    assert!(uploads_enough(10, 5));
    assert!(!uploads_enough(9, 5));
    let seeds: Vec<RecommendationSeed> = (0..12).map(|i| seed("a", &format!("t{i}"), None)).collect();
    let picked = seeds_to_fetch(&seeds);
    assert_eq!(picked.len(), 10);
    assert_eq!(picked[9].title, "t9");
}
