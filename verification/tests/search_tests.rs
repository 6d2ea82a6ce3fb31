use nira::search::{interleave, merge_artist_hits, Artist};
use nira::track::{ArtistRef, ProviderId, Track};

fn artist(provider: ProviderId, name: &str) -> Artist {
    let label = match provider {
        ProviderId::Spotify => "spotify",
        ProviderId::SoundCloud => "soundcloud",
        ProviderId::HiRes => "hires",
        ProviderId::Local => "local",
    };
    Artist {
        uri: format!("{}:{}", label, name),
        provider,
        name: name.to_string(),
        image_url: None,
        genres: Vec::new(),
        permalink_url: None,
    }
}

fn track(title: &str) -> Track {
    Track {
        uri: format!("t:{title}"),
        title: title.to_string(),
        artists: vec![ArtistRef { uri: String::new(), name: "x".to_string() }],
        album: None,
        duration_ms: 0,
        cover_url: None,
        provider: ProviderId::Local,
        mbid: None,
        added_at_ms: None,
    }
}

#[test]
fn spotify_wins_the_artist_dedupe() {
    let sp = vec![artist(ProviderId::Spotify, "goreshit")];
    let sc = vec![
        artist(ProviderId::SoundCloud, "GORESHIT"),
        artist(ProviderId::SoundCloud, "sc only"),
    ];
    let merged = merge_artist_hits(sp, sc);
    assert_eq!(merged.len(), 2);
    assert_eq!(merged[0].provider, ProviderId::Spotify);
    assert_eq!(merged[1].name, "sc only");
}

#[test]
fn artist_row_is_capped_at_eight() {
    let sp: Vec<Artist> = (0..6).map(|i| artist(ProviderId::Spotify, &format!("s{i}"))).collect();
    let sc: Vec<Artist> = (0..6).map(|i| artist(ProviderId::SoundCloud, &format!("c{i}"))).collect();
    assert_eq!(merge_artist_hits(sp, sc).len(), 8);
}

#[test]
fn interleave_alternates_then_appends_the_rest() {
    let out = interleave(vec![track("a1"), track("a2"), track("a3")], vec![track("b1")]);
    let titles: Vec<_> = out.iter().map(|t| t.title.as_str()).collect();
    assert_eq!(titles, vec!["a1", "b1", "a2", "a3"]);
}

#[test]
fn blank_queries_search_nothing_and_stale_searches_yield() {
    assert_eq!(nira::search::search_text("  daft punk "), Some("daft punk".to_string()));
    assert_eq!(nira::search::search_text("   "), None);
    assert!(nira::search::search_still_current("abc", "abc"));
    assert!(!nira::search::search_still_current("abcd", "abc"));
}

fn hit(uri: &str, provider: ProviderId) -> Track {
    Track {
        uri: uri.to_string(),
        title: uri.to_string(),
        artists: vec![ArtistRef { uri: "x".to_string(), name: "X".to_string() }],
        album: None,
        duration_ms: 1,
        cover_url: None,
        provider,
        mbid: None,
        added_at_ms: None,
    }
}

fn hits(uris: &[&str], provider: ProviderId) -> nira::search::ProviderHits {
    nira::search::ProviderHits { tracks: uris.iter().map(|u| hit(u, provider)).collect(), artists: vec![] }
}

fn outcome_uris(o: &nira::search::SearchOutcome) -> Vec<&str> {
    o.tracks.iter().map(|t| t.uri.as_str()).collect()
}

#[test]
fn combined_search_leads_with_hires_and_survives_one_failure() {
    let hires = vec![hit("hr:1", ProviderId::HiRes)];
    let both = nira::search::combine_search(
        hires,
        Ok(hits(&["sc:1", "sc:2"], ProviderId::SoundCloud)),
        Ok(hits(&["sp:1", "sp:2", "sp:3"], ProviderId::Spotify)),
    );
    assert_eq!(outcome_uris(&both), vec!["hr:1", "sp:1", "sc:1", "sp:2", "sc:2", "sp:3"]);
    assert!(both.error.is_none());

    let sc_only = nira::search::combine_search(vec![], Ok(hits(&["sc:1"], ProviderId::SoundCloud)), Err("503".into()));
    assert_eq!(outcome_uris(&sc_only), vec!["sc:1"]);

    let none = nira::search::combine_search(vec![], Err("a".into()), Err("b".into()));
    assert!(none.tracks.is_empty());
    assert_eq!(none.error.as_deref(), Some("both providers failed — sc: a; spotify: b"));

    let hires_only = nira::search::combine_search(vec![hit("hr:1", ProviderId::HiRes)], Err("a".into()), Err("b".into()));
    assert_eq!(outcome_uris(&hires_only), vec!["hr:1"]);
    assert!(hires_only.error.is_none());
}
