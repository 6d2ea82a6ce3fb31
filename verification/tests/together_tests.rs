use nira::together::{
    as_match_target, guest_sync_label, host_jumped, needs_correction, together_indicator_copy,
    RemoteNow,
};

const SEC: u64 = 1_000_000_000;
const MS: u64 = 1_000_000;

fn now(pos_secs: u64, at_secs: u64, playing: bool) -> RemoteNow {
    RemoteNow {
        track_uri: "soundcloud:track:1".to_string(),
        artist: "a".to_string(),
        title: "t".to_string(),
        album_title: None,
        cover_url: None,
        duration_ns: 300 * SEC,
        pos_ns: pos_secs * SEC,
        at_ns: at_secs * SEC,
        playing,
        playback_id: 1,
    }
}

#[test]
fn steady_playback_is_not_a_jump() {
    assert!(!host_jumped((0, 0, true), &now(10, 10, true)));
    assert!(!host_jumped((60 * SEC, 0, true), &now(62, 2, true)));
}

#[test]
fn sampling_noise_is_not_a_jump() {
    let prev = (30 * SEC, 0, true);
    let mut n = now(32, 2, true);
    n.pos_ns += 300 * MS;
    assert!(!host_jumped(prev, &n));
}

#[test]
fn a_scrub_in_either_direction_is_a_jump() {
    let prev = (60 * SEC, 0, true);
    assert!(host_jumped(prev, &now(120, 2, true)), "forward scrub missed");
    assert!(host_jumped(prev, &now(5, 2, true)), "backward scrub missed");
}

#[test]
fn transport_changes_force_a_recheck() {
    assert!(host_jumped((0, 0, true), &now(10, 10, false)));
}

#[test]
fn a_host_that_stays_paused_is_not_a_jump() {
    let prev = (30 * SEC, 0, false);
    assert!(!host_jumped(prev, &now(30, 10, false)));
    assert!(!host_jumped(prev, &now(30, 60, false)));
}

#[test]
fn scrubbing_while_paused_is_a_jump() {
    let prev = (30 * SEC, 0, false);
    assert!(host_jumped(prev, &now(90, 10, false)));
}

#[test]
fn audible_gap_requires_correction_in_either_direction() {
    let expected = 30 * SEC;
    assert!(needs_correction(expected - 500 * MS, expected));
    assert!(needs_correction(expected + 500 * MS, expected));
    assert!(!needs_correction(expected - 50 * MS, expected));
}

#[test]
fn transferred_track_keeps_visual_metadata() {
    let mut remote = now(30, 10, true);
    remote.album_title = Some("Geogaddi".to_string());
    remote.cover_url = Some("https://img.example/geogaddi.jpg".to_string());

    let track = as_match_target(&remote);
    assert_eq!(
        track.album.as_ref().map(|album| album.title.as_str()),
        Some("Geogaddi")
    );
    assert_eq!(
        track.cover_url.as_deref(),
        Some("https://img.example/geogaddi.jpg")
    );
}

#[test]
fn guest_sync_label_reports_real_local_health() {
    assert_eq!(guest_sync_label(true, false, false, Some(120)), "In sync");
    assert_eq!(guest_sync_label(true, false, false, Some(900)), "Syncing");
    assert_eq!(guest_sync_label(false, true, false, None), "Syncing");
    assert_eq!(guest_sync_label(true, false, true, Some(0)), "Not in sync");
}

#[test]
fn together_indicator_describes_the_visible_connection() {
    assert_eq!(
        together_indicator_copy(true, &vec!["Alex".to_string(), "Sam".to_string()], true),
        "Streaming with 2 people · Alex, Sam"
    );
    assert_eq!(
        together_indicator_copy(false, &vec!["Alex".to_string()], false),
        "Connected with Alex"
    );
    assert_eq!(together_indicator_copy(true, &vec![], false), "Session ready");
    assert_eq!(together_indicator_copy(false, &vec![], false), "Connecting…");
}
