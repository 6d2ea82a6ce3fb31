use nira::presence::{NowPlaying, PlayerSnapshot};
use nira::scrobble::{ScrobbleAction, ScrobbleWatcher};

const SEC: u64 = 1_000_000_000;

fn snap(artist: &str, title: &str, pos_s: u64, dur_s: Option<u64>, paused: bool) -> PlayerSnapshot {
    PlayerSnapshot {
        is_paused: paused,
        position_ns: pos_s * SEC,
        duration_ns: dur_s.map(|d| d * SEC),
        has_source: true,
        now_playing: Some(NowPlaying {
            title: title.to_string(),
            artist: artist.to_string(),
            album: None,
            cover_url: None,
            source_label: "spotify".to_string(),
            provider: "Spotify".to_string(),
            track_uri: None,
        }),
        playback_id: 1,
    }
}

fn token() -> Option<String> {
    Some("tok".to_string())
}

#[test]
fn new_track_is_announced_then_submitted_once_at_half() {
    let mut w = ScrobbleWatcher::new();
    assert_eq!(w.tick(&token(), &snap("A", "Song", 0, Some(200), false), 1_000), ScrobbleAction::PlayingNow);
    assert_eq!(w.tick(&token(), &snap("A", "Song", 99, Some(200), false), 1_099), ScrobbleAction::Nothing);
    assert_eq!(
        w.tick(&token(), &snap("A", "Song", 100, Some(200), false), 1_100),
        ScrobbleAction::Submit { started_at_unix: 1_000 }
    );
    assert_eq!(w.tick(&token(), &snap("A", "Song", 150, Some(200), false), 1_150), ScrobbleAction::Nothing);
}

#[test]
fn long_tracks_count_after_four_minutes_and_unknown_length_too() {
    let mut w = ScrobbleWatcher::new();
    w.tick(&token(), &snap("A", "Epic", 0, Some(1_200), false), 10);
    assert_eq!(w.tick(&token(), &snap("A", "Epic", 239, Some(1_200), false), 249), ScrobbleAction::Nothing);
    assert_eq!(
        w.tick(&token(), &snap("A", "Epic", 240, Some(1_200), false), 250),
        ScrobbleAction::Submit { started_at_unix: 10 }
    );

    let mut w = ScrobbleWatcher::new();
    w.tick(&token(), &snap("B", "Stream", 0, None, false), 20);
    assert_eq!(
        w.tick(&token(), &snap("B", "Stream", 240, None, false), 260),
        ScrobbleAction::Submit { started_at_unix: 20 }
    );
}

#[test]
fn paused_or_tokenless_polls_send_nothing() {
    let mut w = ScrobbleWatcher::new();
    assert_eq!(w.tick(&Some("   ".to_string()), &snap("A", "Song", 0, Some(100), false), 1), ScrobbleAction::Nothing);
    assert_eq!(w.tick(&None, &snap("A", "Song", 0, Some(100), false), 1), ScrobbleAction::Nothing);
    assert_eq!(w.tick(&token(), &snap("A", "Song", 0, Some(100), false), 2), ScrobbleAction::PlayingNow);
    assert_eq!(w.tick(&token(), &snap("A", "Song", 90, Some(100), true), 3), ScrobbleAction::Nothing);
    // A token removed and added again starts fresh: the track is announced again.
    assert_eq!(w.tick(&None, &snap("A", "Song", 90, Some(100), false), 4), ScrobbleAction::Nothing);
    assert_eq!(w.tick(&token(), &snap("A", "Song", 90, Some(100), false), 5), ScrobbleAction::PlayingNow);
}

#[test]
fn nothing_loaded_forgets_the_track() {
    let mut w = ScrobbleWatcher::new();
    w.tick(&token(), &snap("A", "Song", 0, Some(100), false), 1);
    let empty = PlayerSnapshot {
        is_paused: false,
        position_ns: 0,
        duration_ns: None,
        has_source: false,
        now_playing: None,
        playback_id: 0,
    };
    assert_eq!(w.tick(&token(), &empty, 2), ScrobbleAction::Nothing);
    assert_eq!(w.tick(&token(), &snap("A", "Song", 0, Some(100), false), 3), ScrobbleAction::PlayingNow);
}
