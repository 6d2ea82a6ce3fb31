use nira::normalize::{canonical_title, match_key, normalise_text};
use nira::queue::{position_save_due, AdvanceState, QueueState, WatcherInput};
use nira::search::{combine_search, Artist, ProviderHits, SearchState};
use nira::track::{ArtistRef, ProviderId, Track};

fn track(uri: &str, artist: &str) -> Track {
    Track {
        uri: uri.to_string(),
        title: format!("title {uri}"),
        artists: vec![ArtistRef { uri: format!("artist:{artist}"), name: artist.to_string() }],
        album: None,
        duration_ms: 0,
        cover_url: None,
        provider: ProviderId::SoundCloud,
        mbid: None,
        added_at_ms: None,
    }
}

fn artist(name: &str) -> Artist {
    Artist {
        uri: format!("spotify:{name}"),
        provider: ProviderId::Spotify,
        name: name.to_string(),
        image_url: None,
        genres: Vec::new(),
        permalink_url: None,
    }
}

fn uris(v: &[Track]) -> Vec<&str> {
    v.iter().map(|t| t.uri.as_str()).collect()
}

#[test]
fn a_finished_search_shows_its_results_for_its_query() {
    let mut s = SearchState::new();
    assert_eq!(s.begin_search("  daft  ", "  daft  "), Some("daft".to_string()));
    assert!(s.is_searching);
    let outcome = combine_search(
        vec![],
        Ok(ProviderHits { tracks: vec![track("sc:1", "A")], artists: vec![] }),
        Ok(ProviderHits { tracks: vec![track("sp:1", "B")], artists: vec![artist("Daft Punk")] }),
    );
    s.finish_search("  daft  ", "  daft  ", outcome);
    assert_eq!(uris(&s.results), vec!["sp:1", "sc:1"]);
    assert_eq!(s.artists.len(), 1);
    assert_eq!(s.results_for, "  daft  ");
    assert!(!s.is_searching);
    assert_eq!(s.error, None);
}

#[test]
fn a_superseded_search_writes_nothing() {
    let mut s = SearchState::new();
    assert_eq!(s.begin_search("daf", "daft"), None);
    assert!(!s.is_searching);
    s.begin_search("daft", "daft");
    let outcome = combine_search(vec![track("hr:1", "A")], Err("x".into()), Err("y".into()));
    s.finish_search("daft", "daft punk", outcome);
    assert!(s.results.is_empty());
    assert!(s.is_searching);
    assert_eq!(s.results_for, "");
}

#[test]
fn a_blank_query_clears_the_results() {
    let mut s = SearchState::new();
    s.begin_search("daft", "daft");
    s.finish_search("daft", "daft", combine_search(vec![track("hr:1", "A")], Err("x".into()), Err("y".into())));
    assert_eq!(uris(&s.results), vec!["hr:1"]);
    assert_eq!(s.begin_search("   ", "   "), None);
    assert!(s.results.is_empty() && s.artists.is_empty() && s.error.is_none());
    assert_eq!(s.results_for, "   ");
    assert!(!s.is_searching);
}

#[test]
fn both_providers_failing_shows_an_error_and_no_results() {
    let mut s = SearchState::new();
    s.begin_search("q", "q");
    s.finish_search("q", "q", combine_search(vec![], Err("sc down".into()), Err("sp down".into())));
    assert!(s.results.is_empty());
    assert_eq!(s.error.as_deref(), Some("both providers failed — sc: sc down; spotify: sp down"));
}

#[test]
fn the_position_is_saved_every_tenth_playing_tick() {
    assert!(position_save_due(10, AdvanceState::Playing, true, false));
    assert!(!position_save_due(11, AdvanceState::Playing, true, false));
    assert!(!position_save_due(20, AdvanceState::Playing, true, true));
    assert!(!position_save_due(20, AdvanceState::Loading, true, false));
    assert!(!position_save_due(0, AdvanceState::Playing, false, false));

    let mut q = QueueState::new();
    q.play_list(vec![track("sc:0", "A"), track("sc:1", "B")], 1);
    let w = WatcherInput {
        has_source: true,
        is_paused: false,
        rodio_active: true,
        position_ms: 42_900,
        duration_ms: Some(200_000),
        gapless_advanced: false,
    };
    assert_eq!(q.position_to_save(10, w), None);
    let mut hint = None;
    q.watcher_tick(w, &mut hint);
    assert_eq!(q.position_to_save(10, w), Some(("sc:1".to_string(), 42)));
    assert_eq!(q.position_to_save(9, w), None);
}

#[test]
fn radio_with_shuffle_on_plays_the_seed_first() {
    let mut q = QueueState::new();
    q.toggle_shuffle();
    assert!(q.shuffle_enabled);
    let g = q.start_song_radio();
    let results = (0..6)
        .map(|i| nira::discovery::DiscoveryResult {
            mbid: None,
            title: format!("t{i}"),
            artist: format!("A{i}"),
            cover_url: None,
            spotify: None,
            soundcloud: Some(track(&format!("sc:r{i}"), &format!("A{i}"))),
            score_milli: 1000,
            rationale: String::new(),
        })
        .collect();
    q.finish_song_radio(g, track("sc:seed", "S"), Ok(results));
    assert_eq!(q.current_index, Some(0));
    assert_eq!(q.entries[0].uri, "sc:seed");
    assert_eq!(q.entries.len(), 7);
    let saved = q.pre_shuffle.as_ref().unwrap();
    assert_eq!(saved[0].uri, "sc:seed");
    assert_eq!(saved.len(), 7);
}

#[test]
fn keys_collapse_whitespace_ignore_case_and_cut_at_brackets() {
    assert_eq!(normalise_text("  Hello\t\u{a0}WORLD!!  "), "hello world");
    assert_eq!(normalise_text(&normalise_text("A  b--C")), normalise_text("A  b--C"));
    assert_eq!(match_key("Déjà\u{2003}Vu"), match_key("déjà vu"));
    assert_eq!(match_key("ROCK and ROLL"), match_key("rock AND roll"));
    assert_eq!(canonical_title("Heroes (Remastered) [2017]"), canonical_title("Heroes"));
    assert_eq!(canonical_title("Heroes [live"), "heroes");
    assert_eq!(canonical_title("HEROES"), canonical_title("heroes"));
}
