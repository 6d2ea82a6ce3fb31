use nira::mpris::{
    build_metadata, clamp_seek_micros, duration_micros, plan_seek, plan_set_position,
    playback_status, seek_to_micros, track_id_for, track_id_path, PlaybackStatus, SeekPlan,
};
use nira::presence::{NowPlaying, PlayerSnapshot};

const SEC: u64 = 1_000_000_000;

fn snapshot(artist: &str, title: &str) -> PlayerSnapshot {
    PlayerSnapshot {
        is_paused: false,
        position_ns: 10 * SEC,
        duration_ns: Some(100 * SEC),
        has_source: true,
        now_playing: Some(NowPlaying {
            title: title.to_string(),
            artist: artist.to_string(),
            album: None,
            cover_url: Some("https://img/1.jpg".to_string()),
            source_label: "soundcloud".to_string(),
            provider: "SoundCloud".to_string(),
            track_uri: Some("soundcloud:track:1".to_string()),
        }),
        playback_id: 3,
    }
}

#[test]
fn status_follows_source_and_pause() {
    assert_eq!(playback_status(false, false), PlaybackStatus::Stopped);
    assert_eq!(playback_status(true, true), PlaybackStatus::Paused);
    assert_eq!(playback_status(true, false), PlaybackStatus::Playing);
}

#[test]
fn relative_seeks_clamp_or_skip() {
    assert_eq!(plan_seek(false, 0, 5_000_000, Some(100 * SEC)), SeekPlan::Ignore);
    assert_eq!(plan_seek(true, 10 * SEC, 5_000_000, Some(100 * SEC)), SeekPlan::SeekTo(15_000_000));
    assert_eq!(plan_seek(true, 10 * SEC, -20_000_000, Some(100 * SEC)), SeekPlan::SeekTo(0));
    assert_eq!(plan_seek(true, 99 * SEC, 2_000_000, Some(100 * SEC)), SeekPlan::Next);
    assert_eq!(plan_seek(true, 99 * SEC, 2_000_000, None), SeekPlan::SeekTo(101_000_000));
}

#[test]
fn absolute_positions_only_for_the_current_track() {
    assert_eq!(plan_set_position(true, true, 30_000_000, Some(100 * SEC)), Some(30_000_000));
    assert_eq!(plan_set_position(true, false, 30_000_000, Some(100 * SEC)), None);
    assert_eq!(plan_set_position(false, true, 30_000_000, Some(100 * SEC)), None);
    assert_eq!(plan_set_position(true, true, 101_000_000, Some(100 * SEC)), None);
    assert_eq!(plan_set_position(true, true, -5, Some(100 * SEC)), Some(0));
    assert_eq!(clamp_seek_micros(500, Some(100_000)), 100);
    assert_eq!(duration_micros(1_999), 1);
    assert_eq!(seek_to_micros(7), 7_000);
}

#[test]
fn track_ids_are_stable_hex_paths() {
    assert_eq!(track_id_path(0xab), "/dev/nira/track/00000000000000ab");
    let a = track_id_for(&snapshot("A", "Song")).unwrap();
    let b = track_id_for(&snapshot("A", "Song")).unwrap();
    let c = track_id_for(&snapshot("A", "Other")).unwrap();
    assert_eq!(a, b);
    assert_ne!(a, c);
    assert!(a.starts_with("/dev/nira/track/"));
    assert_eq!(a.len(), "/dev/nira/track/".len() + 16);
    let mut empty = snapshot("A", "Song");
    empty.now_playing = None;
    assert_eq!(track_id_for(&empty), None);
}

#[test]
fn metadata_hides_an_empty_artist() {
    let m = build_metadata(&snapshot("", "Song"));
    assert_eq!(m.title.as_deref(), Some("Song"));
    assert_eq!(m.artist, None);
    assert_eq!(m.art_url.as_deref(), Some("https://img/1.jpg"));
    assert_eq!(m.length_micros, Some(100_000_000));
    let m = build_metadata(&snapshot("Band", "Song"));
    assert_eq!(m.artist.as_deref(), Some("Band"));
}
