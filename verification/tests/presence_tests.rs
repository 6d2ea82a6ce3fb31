use std::collections::VecDeque;

use nira::presence::{
    projected_presence, refresh_needed, update_allowed, DiscordConnection, DiscordRuntime,
    NowPlaying, PlayerSnapshot, Presence, PresenceAction, PresenceLoop,
};

const SEC: u64 = 1_000_000_000;
const MS: u64 = 1_000_000;

fn snapshot(provider: &str, source_label: &str, track_uri: &str, is_paused: bool) -> PlayerSnapshot {
    PlayerSnapshot {
        is_paused,
        position_ns: 40 * SEC,
        duration_ns: Some(200 * SEC),
        has_source: true,
        now_playing: Some(NowPlaying {
            title: "Song".to_string(),
            artist: "Artist".to_string(),
            album: Some("Album".to_string()),
            cover_url: Some("https://example.com/cover.jpg".to_string()),
            source_label: source_label.to_string(),
            provider: provider.to_string(),
            track_uri: Some(track_uri.to_string()),
        }),
        playback_id: 7,
    }
}

#[test]
fn activity_projection_is_provider_blind() {
    let first = Presence::from_snapshot(&snapshot("Provider A", "provider-a", "a:track:1", false))
        .expect("first provider projects")
        .activity(1_700_000_100_000);
    let second = Presence::from_snapshot(&snapshot("Provider B", "provider-b", "b:track:1", false))
        .expect("second provider projects")
        .activity(1_700_000_100_000);

    assert_eq!(first.details, second.details);
    assert_eq!(first.state, second.state);
    assert_eq!(first.large_image, second.large_image);
    assert_eq!(first.large_text, second.large_text);
    assert_eq!(first.timestamps, second.timestamps);
    assert_eq!(first.details, "Song");
    assert_eq!(first.state, "Artist");
    assert_eq!(first.large_image.as_deref(), Some("https://example.com/cover.jpg"));
    assert_eq!(first.large_text.as_deref(), Some("Album"));
}

#[test]
fn paused_activity_has_no_timestamps() {
    let value = Presence::from_snapshot(&snapshot("Provider B", "provider-b", "b:track:1", true))
        .expect("playing snapshot")
        .activity(1_700_000_100_000);
    assert!(value.timestamps.is_none());
}

#[test]
fn disabled_presence_is_hidden() {
    assert!(projected_presence(&snapshot("Provider A", "provider-a", "a:track:1", false), false).is_none());
}

#[test]
fn steady_progress_does_not_refresh_presence() {
    let before = Presence::from_snapshot(&snapshot("Provider A", "provider-a", "a:track:1", false))
        .expect("playing snapshot");
    let mut later = before.duplicate();
    later.position_ns += 500 * MS;
    assert!(!refresh_needed(&before, 500 * MS, &later));
}

#[test]
fn seek_refreshes_presence_timestamps() {
    let before = Presence::from_snapshot(&snapshot("Provider A", "provider-a", "a:track:1", false))
        .expect("playing snapshot");
    let mut later = before.duplicate();
    later.position_ns += 10 * SEC;
    assert!(refresh_needed(&before, 500 * MS, &later));
}

#[test]
fn discord_update_limit_is_respected() {
    let start: u64 = 1_000 * SEC;
    let mut updates = VecDeque::new();
    for second in 0..5 {
        let now = start + second * SEC;
        assert!(update_allowed(&mut updates, now));
        updates.push_back(now);
    }

    assert!(!update_allowed(&mut updates, start + 19 * SEC));
    assert!(update_allowed(&mut updates, start + 20 * SEC));
}

#[test]
fn connect_and_disconnect_advance_the_revision() {
    let mut control = DiscordRuntime::new(false);
    let first = control;

    control.connect();
    let connecting = control;
    assert!(connecting.enabled);
    assert_eq!(connecting.connection, DiscordConnection::Connecting);
    assert!(connecting.revision > first.revision);

    control.disconnect();
    let off = control;
    assert!(!off.enabled);
    assert_eq!(off.connection, DiscordConnection::Off);
    assert!(off.revision > connecting.revision);
}

#[test]
fn stale_bridge_status_cannot_overwrite_disconnect() {
    let mut control = DiscordRuntime::new(true);
    let old_revision = control.revision;

    control.disconnect();
    control.set_connection(old_revision, DiscordConnection::Connected);

    assert_eq!(control.connection, DiscordConnection::Off);
}

#[test]
fn current_bridge_status_lands() {
    let mut control = DiscordRuntime::new(true);
    let rev = control.revision;
    control.set_connection(rev, DiscordConnection::Connected);
    assert_eq!(control.connection, DiscordConnection::Connected);
}

#[test]
fn playing_activity_spans_the_track() {
    let a = Presence::from_snapshot(&snapshot("P", "p", "p:1", false))
        .unwrap()
        .activity(1_700_000_100_000);
    assert_eq!(a.timestamps, Some((1_700_000_060_000, 1_700_000_260_000)));
}

#[test]
fn non_web_cover_is_dropped() {
    let mut s = snapshot("P", "p", "p:1", false);
    if let Some(np) = s.now_playing.as_mut() {
        np.cover_url = Some("file:///tmp/cover.jpg".to_string());
    }
    let p = Presence::from_snapshot(&s).unwrap();
    assert!(p.cover_url.is_none());
    let a = p.activity(0);
    assert!(a.large_image.is_none());
    assert!(a.large_text.is_none());
}

#[test]
fn presence_loop_connects_sends_and_clears_within_budget() {
    let mut lp = PresenceLoop::new(100 * SEC);
    assert!(lp.should_connect(true, 100 * SEC));
    assert!(!lp.should_connect(true, 102 * SEC));
    assert!(!lp.should_connect(false, 200 * SEC));
    lp.connected_ok();
    assert!(lp.connected);

    let current = Presence::from_snapshot(&snapshot("Spotify", "spotify", "spotify:track:1", false));
    assert_eq!(lp.plan(&current, true, 110 * SEC), PresenceAction::Show);
    lp.sent(Presence::from_snapshot(&snapshot("Spotify", "spotify", "spotify:track:1", false)).unwrap(), 110 * SEC);
    assert_eq!(lp.plan(&current, true, 111 * SEC), PresenceAction::Nothing);
    assert_eq!(lp.plan(&None, true, 112 * SEC), PresenceAction::Clear);
    lp.cleared_ok(112 * SEC);
    assert_eq!(lp.plan(&None, true, 113 * SEC), PresenceAction::Nothing);
    lp.lost();
    assert!(!lp.connected);
    assert!(lp.should_connect(true, 120 * SEC));
}
