use nira::library::{
    cache_version_ok, finish_liked_refresh, is_long_play, plan_liked_refresh, recently_liked,
    AlbumType, LikedRefreshPlan, RefreshGuard,
};
use nira::track::{ArtistRef, ProviderId, Track};

fn liked(uri: &str, added: Option<i64>) -> Track {
    Track {
        uri: uri.to_string(),
        title: uri.to_string(),
        artists: vec![ArtistRef { uri: "spotify:artist:1".to_string(), name: "A".to_string() }],
        album: None,
        duration_ms: 1_000,
        cover_url: None,
        provider: ProviderId::Spotify,
        mbid: None,
        added_at_ms: added,
    }
}

#[test]
fn refresh_waits_out_the_backoff() {
    let mut g = RefreshGuard::new();
    assert!(g.allowed(10_000));
    assert!(!g.allowed(10_899));
    assert!(g.allowed(10_900));
    g.succeeded();
    assert!(g.allowed(10_901));
}

#[test]
fn start_up_plan_follows_cache_and_connection() {
    let mut g = RefreshGuard::new();
    assert_eq!(plan_liked_refresh(0, None, false, 100, &mut g), LikedRefreshPlan::AskToConnect);
    assert_eq!(plan_liked_refresh(5, Some(50), false, 100, &mut g), LikedRefreshPlan::Keep);
    assert_eq!(plan_liked_refresh(5, Some(50), true, 100, &mut g), LikedRefreshPlan::Keep);
    assert_eq!(plan_liked_refresh(0, None, true, 100_000, &mut g), LikedRefreshPlan::Fetch { show_spinner: true });
    assert_eq!(g.last_attempt, 0);
    assert_eq!(
        plan_liked_refresh(5, Some(0), true, 100_000, &mut g),
        LikedRefreshPlan::Fetch { show_spinner: false }
    );
    assert_eq!(g.last_attempt, 100_000);
    assert_eq!(plan_liked_refresh(5, Some(0), true, 100_100, &mut g), LikedRefreshPlan::Keep);
}

#[test]
fn failed_refresh_is_shown_only_without_a_cache() {
    let mut g = RefreshGuard { last_attempt: 7 };
    assert_eq!(finish_liked_refresh(&mut g, true, Err("boom".to_string())), None);
    assert_eq!(g.last_attempt, 7);
    assert_eq!(finish_liked_refresh(&mut g, false, Err("boom".to_string())), Some("boom".to_string()));
    assert_eq!(finish_liked_refresh(&mut g, false, Ok(())), None);
    assert_eq!(g.last_attempt, 0);
}

#[test]
fn recently_liked_is_newest_first_undated_last_capped() {
    let mut all = vec![liked("a", None), liked("b", Some(5)), liked("c", Some(9)), liked("d", Some(5))];
    for i in 0..10 {
        all.push(liked(&format!("old{i}"), Some(1)));
    }
    let row = recently_liked(&all);
    let uris: Vec<&str> = row.iter().map(|t| t.uri.as_str()).collect();
    assert_eq!(uris, vec!["c", "b", "d", "old0", "old1", "old2", "old3", "old4"]);
    let short = recently_liked(&vec![liked("x", None), liked("y", Some(2))]);
    let uris: Vec<&str> = short.iter().map(|t| t.uri.as_str()).collect();
    assert_eq!(uris, vec!["y", "x"]);
}

#[test]
fn long_play_split_and_cache_version() {
    assert!(is_long_play(AlbumType::Album, None));
    assert!(is_long_play(AlbumType::Compilation, Some(2)));
    assert!(!is_long_play(AlbumType::Single, Some(12)));
    assert!(!is_long_play(AlbumType::Ep, Some(6)));
    assert!(is_long_play(AlbumType::Unknown, Some(6)));
    assert!(!is_long_play(AlbumType::Unknown, Some(5)));
    assert!(!is_long_play(AlbumType::Unknown, None));
    assert!(cache_version_ok(2));
    assert!(!cache_version_ok(1));
}
