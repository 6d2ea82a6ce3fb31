use nira::discovery::DiscoveryResult;
use nira::queue::{
    restore_queue, AdvanceState, QueueState, RadioStatus, RepeatMode, WatcherInput,
};
use nira::track::{ArtistRef, ProviderId, Track};

fn track(uri: &str, artist: &str) -> Track {
    Track {
        uri: uri.to_string(),
        title: format!("title {uri}"),
        artists: vec![ArtistRef { uri: format!("artist:{artist}"), name: artist.to_string() }],
        album: None,
        duration_ms: 200_000,
        cover_url: None,
        provider: ProviderId::SoundCloud,
        mbid: None,
        added_at_ms: None,
    }
}

fn uris(q: &QueueState) -> Vec<&str> {
    q.entries.iter().map(|t| t.uri.as_str()).collect()
}

fn queue_of(n: usize) -> QueueState {
    let mut q = QueueState::new();
    let tracks: Vec<Track> = (0..n).map(|i| track(&format!("sc:{i}"), &format!("A{i}"))).collect();
    q.play_list(tracks, 0);
    q
}

fn tick(has_source: bool, is_paused: bool) -> WatcherInput {
    WatcherInput {
        has_source,
        is_paused,
        rodio_active: true,
        position_ms: 10_000,
        duration_ms: Some(200_000),
        gapless_advanced: false,
    }
}

fn result(uri: &str, artist: &str) -> DiscoveryResult {
    DiscoveryResult {
        mbid: None,
        title: format!("title {uri}"),
        artist: artist.to_string(),
        cover_url: None,
        spotify: None,
        soundcloud: Some(track(uri, artist)),
        score_milli: 1000,
        rationale: String::new(),
    }
}

#[test]
fn failed_radio_still_plays_the_seed_alone() {
    let mut q = queue_of(3);
    q.next();
    let g = q.start_song_radio();
    assert_eq!(q.radio_status, RadioStatus::Loading);
    let before = q.load_generation;
    let fx = q.finish_song_radio(g, track("sc:seed", "S"), Err("offline".to_string()));
    assert_eq!(q.radio_status, RadioStatus::Error("offline".to_string()));
    assert_eq!(uris(&q), vec!["sc:seed"]);
    assert_eq!(q.current_index, Some(0));
    assert_eq!(q.advance_state, AdvanceState::Loading);
    assert_eq!(q.load_generation, before.wrapping_add(1));
    assert!(fx.load && fx.stop_for_load);
}

#[test]
fn superseded_radio_is_dropped() {
    let mut q = queue_of(2);
    let g = q.start_song_radio();
    q.next();
    let fx = q.finish_song_radio(g, track("sc:seed", "S"), Ok(vec![result("sc:r1", "B")]));
    assert_eq!(q.radio_status, RadioStatus::Idle);
    assert_eq!(uris(&q), vec!["sc:0", "sc:1"]);
    assert!(!fx.load);
}

#[test]
fn radio_queue_is_the_seed_then_the_results() {
    let mut q = queue_of(2);
    let g = q.start_song_radio();
    let fx = q.finish_song_radio(
        g,
        track("sc:seed", "S"),
        Ok(vec![result("sc:r1", "B"), result("sc:r2", "C")]),
    );
    assert_eq!(q.radio_status, RadioStatus::Idle);
    assert_eq!(uris(&q)[0], "sc:seed");
    assert_eq!(q.entries.len(), 3);
    assert_eq!(q.current_index, Some(0));
    assert!(fx.load);
}

#[test]
fn watcher_starts_playing_resumes_and_advances_at_a_natural_end() {
    let mut q = queue_of(3);
    assert_eq!(q.advance_state, AdvanceState::Loading);
    let mut hint = Some(("sc:0".to_string(), 42u64));
    let a = q.watcher_tick(tick(false, false), &mut hint);
    assert_eq!(q.advance_state, AdvanceState::Loading);
    assert_eq!(a.seek_secs, None);
    assert!(hint.is_some());
    let a = q.watcher_tick(tick(true, false), &mut hint);
    assert_eq!(q.advance_state, AdvanceState::Playing);
    assert_eq!(a.seek_secs, Some(42));
    assert!(hint.is_none());

    let a = q.watcher_tick(tick(true, false), &mut hint);
    assert_eq!(a.prefetch, None);
    assert!(!a.effects.load);

    let paused = q.watcher_tick(tick(false, true), &mut hint);
    assert!(!paused.effects.load);
    assert_eq!(q.current_index, Some(0));

    let a = q.watcher_tick(tick(false, false), &mut hint);
    assert!(a.effects.load);
    assert_eq!(q.current_index, Some(1));
    assert_eq!(q.advance_state, AdvanceState::Loading);
}

#[test]
fn watcher_resume_hint_for_another_entry_is_dropped_without_seeking() {
    let mut q = queue_of(2);
    let mut hint = Some(("sc:1".to_string(), 42u64));
    let a = q.watcher_tick(tick(true, false), &mut hint);
    assert_eq!(a.seek_secs, None);
    assert!(hint.is_none());
}

#[test]
fn watcher_leaves_a_stopped_queue_alone() {
    let mut q = queue_of(2);
    q.stop();
    let g = q.load_generation;
    let mut hint = None;
    let a = q.watcher_tick(tick(false, false), &mut hint);
    assert!(!a.effects.load && !a.effects.stop);
    assert_eq!(q.advance_state, AdvanceState::Idle);
    assert_eq!(q.load_generation, g);
    assert_eq!(q.current_index, Some(0));
}

#[test]
fn watcher_prefetches_near_the_end_and_commits_the_hand_off() {
    let mut q = queue_of(3);
    let mut hint = None;
    q.watcher_tick(tick(true, false), &mut hint);
    let near_end = WatcherInput { position_ms: 195_000, ..tick(true, false) };
    let a = q.watcher_tick(near_end, &mut hint);
    assert_eq!(a.prefetch, Some(1));
    let again = q.watcher_tick(near_end, &mut hint);
    assert_eq!(again.prefetch, None);
    let handed_off = WatcherInput { gapless_advanced: true, ..tick(true, false) };
    let a = q.watcher_tick(handed_off, &mut hint);
    assert_eq!(q.current_index, Some(1));
    assert_eq!(q.gapless_prefetched, None);
    assert!(!a.effects.load);
    assert_eq!(q.advance_state, AdvanceState::Playing);
}

#[test]
fn restore_clamps_the_index_and_keeps_the_modes() {
    let entries: Vec<Track> = (0..3).map(|i| track(&format!("sc:{i}"), "A")).collect();
    let (q, hint) = restore_queue(entries, Some(7), true, RepeatMode::All, Some(("sc:2".to_string(), 30)));
    assert_eq!(q.entries.len(), 3);
    assert_eq!(q.current_index, Some(2));
    assert!(q.shuffle_enabled);
    assert_eq!(q.repeat_mode, RepeatMode::All);
    assert_eq!(q.advance_state, AdvanceState::Idle);
    assert_eq!(hint, Some(("sc:2".to_string(), 30)));

    let entries: Vec<Track> = (0..3).map(|i| track(&format!("sc:{i}"), "A")).collect();
    let (q, hint) = restore_queue(entries, None, false, RepeatMode::Off, Some(("sc:0".to_string(), 5)));
    assert_eq!(q.current_index, Some(0));
    assert_eq!(hint, None);

    let entries: Vec<Track> = (0..3).map(|i| track(&format!("sc:{i}"), "A")).collect();
    let (_, hint) = restore_queue(entries, Some(1), false, RepeatMode::Off, Some(("sc:0".to_string(), 60)));
    assert_eq!(hint, None);

    let (q, hint) = restore_queue(vec![], Some(3), true, RepeatMode::One, Some(("sc:0".to_string(), 60)));
    assert!(q.entries.is_empty());
    assert_eq!(q.current_index, None);
    assert!(!q.shuffle_enabled);
    assert_eq!(q.repeat_mode, RepeatMode::Off);
    assert_eq!(hint, None);
}

#[test]
fn shuffle_round_trip_with_several_queued_tracks() {
    let mut q = queue_of(5);
    q.next();
    q.toggle_shuffle();
    q.add_to_queue(track("sc:x", "X"));
    q.add_to_queue(track("sc:y", "Y"));
    q.toggle_shuffle();
    assert_eq!(uris(&q), vec!["sc:0", "sc:1", "sc:2", "sc:3", "sc:4", "sc:x", "sc:y"]);
    assert_eq!(q.current_index, Some(1));
}
