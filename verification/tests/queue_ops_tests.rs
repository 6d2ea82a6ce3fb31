use nira::queue::{QueueState, RepeatMode};
use nira::track::{ArtistRef, ProviderId, Track};

fn track(uri: &str, artist: &str) -> Track {
    Track {
        uri: uri.to_string(),
        title: format!("title {uri}"),
        artists: vec![ArtistRef { uri: format!("artist:{artist}"), name: artist.to_string() }],
        album: None,
        duration_ms: 200_000,
        cover_url: None,
        provider: ProviderId::SoundCloud,
        mbid: None,
        added_at_ms: None,
    }
}

fn uris(q: &QueueState) -> Vec<&str> {
    q.entries.iter().map(|t| t.uri.as_str()).collect()
}

fn queue_of(n: usize) -> QueueState {
    let mut q = QueueState::new();
    let tracks: Vec<Track> = (0..n).map(|i| track(&format!("sc:{i}"), &format!("A{i}"))).collect();
    let fx = q.play_list(tracks, 0);
    assert!(fx.load);
    q
}

#[test]
fn next_and_previous_walk_the_queue_and_repeat_all_wraps() {
    let mut q = queue_of(3);
    assert_eq!(q.current_index, Some(0));
    assert!(!q.has_previous());
    q.next();
    q.next();
    assert_eq!(q.current_index, Some(2));
    assert!(!q.has_next());
    let fx = q.next();
    assert_eq!(q.current_index, Some(2));
    assert!(!fx.load);
    q.cycle_repeat();
    assert_eq!(q.repeat_mode, RepeatMode::All);
    assert!(q.has_next());
    q.next();
    assert_eq!(q.current_index, Some(0));
    q.previous();
    assert_eq!(q.current_index, Some(2));
    q.previous();
    assert_eq!(q.current_index, Some(1));
    q.cycle_repeat();
    q.cycle_repeat();
    assert_eq!(q.repeat_mode, RepeatMode::Off);
}

#[test]
fn a_natural_end_repeats_one_or_winds_back() {
    let mut q = queue_of(2);
    q.cycle_repeat();
    q.cycle_repeat();
    assert_eq!(q.repeat_mode, RepeatMode::One);
    q.advance_after_end();
    assert_eq!(q.current_index, Some(0));
    q.cycle_repeat();
    q.next();
    let fx = q.advance_after_end();
    assert!(fx.stop);
    assert_eq!(q.entries.len(), 2);
    assert_eq!(q.current_index, Some(0));
}

#[test]
fn queue_edits_keep_the_current_track() {
    let mut q = queue_of(3);
    q.next();
    q.play_next(track("sc:x", "X"));
    assert_eq!(uris(&q), vec!["sc:0", "sc:1", "sc:x", "sc:2"]);
    q.add_to_queue(track("sc:y", "Y"));
    q.add_all(vec![track("sc:z", "Z")]);
    assert_eq!(uris(&q).len(), 6);
    q.remove_at(0);
    assert_eq!(q.entries[q.current_index.unwrap()].uri, "sc:1");
    q.remove_at(99);
    assert_eq!(uris(&q).len(), 5);
    q.clear_upcoming();
    assert_eq!(uris(&q), vec!["sc:1"]);
    assert_eq!(q.current_index, Some(0));
    q.play_index(0);
    let fx = q.stop();
    assert!(fx.stop);
    assert_eq!(uris(&q), vec!["sc:1"]);
}

#[test]
fn shuffle_keeps_the_playing_track_and_unshuffle_restores_order() {
    let mut q = queue_of(6);
    q.next();
    q.next();
    q.toggle_shuffle();
    assert!(q.shuffle_enabled);
    assert_eq!(q.entries[q.current_index.unwrap()].uri, "sc:2");
    let mut sorted: Vec<&str> = uris(&q);
    sorted.sort();
    assert_eq!(sorted, vec!["sc:0", "sc:1", "sc:2", "sc:3", "sc:4", "sc:5"]);
    q.add_to_queue(track("sc:new", "N"));
    q.toggle_shuffle();
    assert!(!q.shuffle_enabled);
    assert_eq!(uris(&q), vec!["sc:0", "sc:1", "sc:2", "sc:3", "sc:4", "sc:5", "sc:new"]);
    assert_eq!(q.current_index, Some(2));

    let mut all = QueueState::new();
    all.shuffle_all((0..5).map(|i| track(&format!("sc:{i}"), "A")).collect());
    assert_eq!(all.entries.len(), 5);
    assert!(all.shuffle_enabled);
}

#[test]
fn loads_follow_the_generation() {
    let mut q = queue_of(2);
    let g = q.load_generation;
    assert!(q.is_current_load(g, 0, "sc:0"));
    assert!(!q.is_current_load(g, 1, "sc:0"));
    q.load_started();
    q.load_succeeded();
    q.next();
    assert!(!q.is_current_load(g, 0, "sc:0"));
    let radio = q.start_song_radio();
    assert_eq!(radio, q.load_generation);
}
