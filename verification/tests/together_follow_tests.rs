use nira::together::{
    describe, plan_correction, tick_interval_ns, unmatched_label, Announcement, CorrectionPlan,
    FollowAction, FollowState, FollowTick, RemoteNow, Role, IDLE_TICK_NS, TICK_NS,
};
use nira::track::{AlbumRef, ArtistRef, ProviderId, Track};

const SEC: u64 = 1_000_000_000;

fn tick(role: Role, target: Option<Announcement>, has_source: bool, now_ns: u64) -> FollowTick {
    FollowTick { role, stopped: false, target, has_source, now_ns }
}

#[test]
fn guest_adopts_then_aligns_to_the_extrapolated_position() {
    let mut st = FollowState::new();
    assert_eq!(st.step(&tick(Role::Host, None, true, 0)), FollowAction::Publish);
    let ann = Announcement { playback_id: 5, pos_ns: 10 * SEC, at_ns: 100 * SEC, playing: true };
    assert_eq!(st.step(&tick(Role::Guest, Some(ann), false, 100 * SEC)), FollowAction::Adopt);
    st.adopted(true);
    assert_eq!(st.step(&tick(Role::Guest, Some(ann), false, 101 * SEC)), FollowAction::Idle);
    assert_eq!(st.step(&tick(Role::Guest, Some(ann), true, 103 * SEC)), FollowAction::Align(13 * SEC));
    let stopped = FollowTick { role: Role::Guest, stopped: true, target: None, has_source: true, now_ns: 104 * SEC };
    assert_eq!(st.step(&stopped), FollowAction::StopQueue);
    assert_eq!(st.step(&stopped), FollowAction::Idle);
    assert_eq!(st.step(&tick(Role::Off, None, true, 105 * SEC)), FollowAction::ClearUnmatched);
}

#[test]
fn corrections_settle_transport_first() {
    assert_eq!(plan_correction(false, false, 0, 0, true), CorrectionPlan::NoSource);
    assert_eq!(plan_correction(true, true, 0, 0, true), CorrectionPlan::Resume);
    assert_eq!(plan_correction(true, false, 0, 0, false), CorrectionPlan::Pause);
    assert_eq!(
        plan_correction(true, false, 10 * SEC, 10 * SEC + 50_000_000, true),
        CorrectionPlan::Compared { gap_ns: 50_000_000, seek_to: None }
    );
    assert_eq!(
        plan_correction(true, false, 10 * SEC, 12 * SEC, true),
        CorrectionPlan::Compared { gap_ns: 2 * SEC, seek_to: Some(12 * SEC) }
    );
    assert_eq!(tick_interval_ns(Role::Off), IDLE_TICK_NS);
    assert_eq!(tick_interval_ns(Role::Guest), TICK_NS);
}

#[test]
fn host_describes_its_current_queue_entry() {
    let entries = vec![Track {
        uri: "soundcloud:track:1".to_string(),
        title: "Song".to_string(),
        artists: vec![
            ArtistRef { uri: "u1".to_string(), name: "First".to_string() },
            ArtistRef { uri: "u2".to_string(), name: "Second".to_string() },
        ],
        album: Some(AlbumRef { uri: "al".to_string(), title: "Album".to_string() }),
        duration_ms: 180_000,
        cover_url: Some("c.jpg".to_string()),
        provider: ProviderId::SoundCloud,
        mbid: None,
        added_at_ms: None,
    }];
    assert!(describe(&entries, None, false, true, 1, 0).is_none());
    assert!(describe(&entries, Some(3), false, true, 1, 0).is_none());
    let now: RemoteNow = describe(&entries, Some(0), false, true, 9, 42 * SEC).unwrap();
    assert_eq!(now.artist, "First");
    assert_eq!(now.album_title.as_deref(), Some("Album"));
    assert_eq!(now.duration_ns, 180 * SEC);
    assert_eq!(now.pos_ns, 42 * SEC);
    assert_eq!(now.at_ns, 0);
    assert!(now.playing);
    assert_eq!(now.playback_id, 9);
    assert!(!describe(&entries, Some(0), true, true, 9, 0).unwrap().playing);
    assert!(!describe(&entries, Some(0), false, false, 9, 0).unwrap().playing);
    assert_eq!(unmatched_label(&now), "First — Song");
}

fn remote(uri: &str, artist: &str, title: &str, duration_s: u64) -> RemoteNow {
    RemoteNow {
        track_uri: uri.to_string(),
        artist: artist.to_string(),
        title: title.to_string(),
        album_title: None,
        cover_url: None,
        duration_ns: duration_s * SEC,
        pos_ns: 0,
        at_ns: 0,
        playing: true,
        playback_id: 1,
    }
}

#[test]
fn guests_play_shared_uris_directly_and_local_files_from_their_own_library() {
    let shared = nira::together::adopt_choice(&remote("soundcloud:track:5", "A", "Song", 200), &[]).unwrap();
    assert_eq!(shared.provider, ProviderId::SoundCloud);
    assert_eq!(shared.uri, "soundcloud:track:5");

    let mine = Track {
        uri: "local:/music/a/song.flac".to_string(),
        title: "Song".to_string(),
        artists: vec![ArtistRef { uri: "l".to_string(), name: "A".to_string() }],
        album: None,
        duration_ms: 201_000,
        cover_url: None,
        provider: ProviderId::Local,
        mbid: None,
        added_at_ms: None,
    };
    let library = vec![mine];
    let found = nira::together::adopt_choice(&remote("local:/host/song.flac", "A", "Song", 200), &library).unwrap();
    assert_eq!(found.uri, "local:/music/a/song.flac");
    assert!(nira::together::adopt_choice(&remote("local:/host/other.flac", "B", "Other", 200), &library).is_none());
}
