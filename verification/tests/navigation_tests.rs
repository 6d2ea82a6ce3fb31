use nira::bridge::{bridge_outcome, bridge_query, searches_provider, CrossPlatformMatch};
use nira::detail::{uri_has_detail_page, DetailStack, DetailView};
use nira::track::{ArtistRef, ProviderId, Track};
use nira::ui::{hotkey_action, playpause_start_index, BackgroundStatus, HotkeyAction};

fn track(uri: &str, provider: ProviderId) -> Track {
    Track {
        uri: uri.to_string(),
        title: "Heroes".to_string(),
        artists: vec![ArtistRef { uri: "x".to_string(), name: "Bowie".to_string() }],
        album: None,
        duration_ms: 1,
        cover_url: None,
        provider,
        mbid: None,
        added_at_ms: None,
    }
}

fn keys(s: &DetailStack) -> Vec<String> {
    s.views()
        .iter()
        .map(|v| match v {
            DetailView::Artist(u) => format!("artist {u}"),
            DetailView::Album(u) => format!("album {u}"),
        })
        .collect()
}

#[test]
fn back_returns_to_the_page_a_detail_was_opened_from() {
    let mut s = DetailStack::new();
    s.open_artist("spotify:artist:1".to_string());
    s.open_album("spotify:album:2".to_string());
    s.open_album("spotify:album:2".to_string());
    assert_eq!(keys(&s), vec!["artist spotify:artist:1", "album spotify:album:2"]);
    s.back();
    assert!(matches!(s.current(), Some(DetailView::Artist(u)) if u == "spotify:artist:1"));
    s.close();
    assert!(s.current().is_none());
    s.back();
    assert!(s.views().is_empty());
}

#[test]
fn detail_pages_exist_for_provider_uris() {
    assert!(uri_has_detail_page("spotify:artist:1"));
    assert!(uri_has_detail_page("soundcloud:user:1"));
    assert!(!uri_has_detail_page("local:artist:x"));
}

#[test]
fn bridge_searches_other_providers_and_reports_no_match() {
    let src = track("spotify:track:1", ProviderId::Spotify);
    assert_eq!(bridge_query(&src), "Bowie Heroes");
    assert!(!searches_provider(ProviderId::Spotify, ProviderId::Spotify));
    assert!(searches_provider(ProviderId::Spotify, ProviderId::SoundCloud));
    let mut m = CrossPlatformMatch::new(src);
    assert!(!m.has_other_provider());
    assert_eq!(
        bridge_outcome(CrossPlatformMatch::new(track("spotify:track:1", ProviderId::Spotify))).unwrap_err(),
        "No match on another provider — try a more popular track."
    );
    m.record_top(ProviderId::SoundCloud, Some(track("soundcloud:track:9", ProviderId::SoundCloud)));
    assert!(m.has_other_provider());
    let ok = bridge_outcome(m).unwrap();
    assert_eq!(ok.soundcloud.unwrap().uri, "soundcloud:track:9");
}

#[test]
fn hotkeys_map_bridge_ids() {
    assert_eq!(hotkey_action("nira-key-playpause"), Some(HotkeyAction::PlayPause));
    assert_eq!(hotkey_action("nira-key-binds-close"), Some(HotkeyAction::CloseShortcuts));
    assert_eq!(hotkey_action("nira-key-unknown"), None);
    assert_eq!(playpause_start_index(None), 0);
    assert_eq!(playpause_start_index(Some(4)), 4);
}

#[test]
fn background_status_toast() {
    let mut s = BackgroundStatus::new();
    s.start("Downloading".to_string());
    assert!(s.busy && !s.failed);
    s.fail("Failed".to_string());
    assert_eq!(s.status.as_deref(), Some("Failed"));
    assert!(!s.busy && s.failed);
    s.dismiss();
    assert!(s.status.is_none() && s.failed);
    s.finish("Saved".to_string());
    assert!(!s.busy && !s.failed);
}
