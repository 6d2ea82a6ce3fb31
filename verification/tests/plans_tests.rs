use nira::plans::{
    exclude_keys_for, mix_cluster_indices, mix_from_result, mix_plans_from, shelf_from_result,
    shelf_plans, static_shelf_tracks, ShelfKind,
};
use nira::recommend::{seed_from_track, soundcloud_artist_uris, RecommendationSeed};
use nira::track::{ArtistRef, ProviderId, Track};

fn track(uri: &str, artist: &str, title: &str) -> Track {
    Track {
        uri: uri.to_string(),
        title: title.to_string(),
        artists: vec![ArtistRef { uri: "soundcloud:user:7".to_string(), name: artist.to_string() }],
        album: None,
        duration_ms: 180_000,
        cover_url: None,
        provider: ProviderId::SoundCloud,
        mbid: None,
        added_at_ms: None,
    }
}

fn seed(artist: &str, title: &str) -> RecommendationSeed {
    RecommendationSeed {
        artist: artist.to_string(),
        title: title.to_string(),
        label: format!("{artist} — {title}"),
        track_uri: None,
    }
}

#[test]
fn build_shelf_plans_includes_aegis_chart_rows() {
    let liked = vec![track("soundcloud:track:1", "Artist A", "One")];
    let exclude = exclude_keys_for(&liked, &vec![]);
    let pool_seed = seed_from_track(&liked[0]).unwrap();
    let plans = shelf_plans(
        Some(vec![pool_seed]),
        None,
        soundcloud_artist_uris(&liked),
        vec![track("soundcloud:track:1", "Artist A", "One")],
        liked.len(),
        &exclude,
    );
    assert!(plans.iter().any(|p| p.id == "made-for-you"));
    assert!(plans.iter().any(|p| p.id == "trending-now"));
    assert!(plans.iter().any(|p| p.id == "genre-electronic"));
}

#[test]
fn shelf_order_and_headings() {
    let plans = shelf_plans(
        None,
        Some(seed("Bowie", "Heroes")),
        vec![],
        vec![],
        0,
        &vec!["a|b".to_string()],
    );
    let ids: Vec<&str> = plans.iter().map(|p| p.id.as_str()).collect();
    assert_eq!(
        ids,
        vec![
            "because-recent", "trending-now", "genre-electronic", "genre-hiphoprap", "genre-house",
            "genre-techno", "genre-ambient", "genre-dnb", "genre-indie"
        ]
    );
    assert_eq!(plans[0].title, "\"Heroes\"");
    assert_eq!(plans[0].subtitle, "by Bowie");
    assert!(matches!(&plans[0].kind, ShelfKind::Related { exclude_keys, .. } if exclude_keys == &vec!["a|b".to_string()]));
    assert!(matches!(&plans[1].kind, ShelfKind::Chart { genre } if genre == "all-music"));
    assert!(matches!(&plans[7].kind, ShelfKind::Search { query } if query == "drum and bass"));
    assert_eq!(plans[7].seed_label, "SoundCloud / Drum & Bass");

    let plans = shelf_plans(None, None, vec!["soundcloud:user:1".into(), "soundcloud:user:2".into()], vec![], 3, &vec![]);
    assert_eq!(plans[0].seed_label, "2 SoundCloud artists");
    assert_eq!(plans[1].seed_label, "3 saved tracks");
}

#[test]
fn mixes_are_numbered_by_slot() {
    let picked = (0..6).map(|i| seed(&format!("Artist {i}"), "t")).collect();
    let mixes = mix_plans_from(picked, &vec![]);
    assert_eq!(mixes.len(), 4);
    assert_eq!(mixes[0].id, "daily-mix-0");
    assert_eq!(mixes[0].title, "Daily Mix 1");
    assert_eq!(mixes[3].subtitle, "Artist 3, related scenes and more");
    assert_eq!(mixes[3].accent_index, 3);
}

#[test]
fn mix_clusters_skip_the_because_artist_when_enough_remain() {
    let keys: Vec<String> = ["a", "b", "c", "d", "e"].iter().map(|s| s.to_string()).collect();
    assert_eq!(mix_cluster_indices(&keys, &vec!["b".to_string()]), vec![0, 2, 3, 4]);
    assert_eq!(mix_cluster_indices(&keys, &vec!["b".to_string(), "c".to_string()]), vec![0, 1, 2, 3, 4]);
    assert_eq!(mix_cluster_indices(&keys[..4].to_vec(), &vec!["b".to_string()]), vec![0, 1, 2, 3]);
    let liked = vec![track("sc:1", "A", "S")];
    assert_eq!(exclude_keys_for(&liked, &vec!["x|y".to_string()]), vec!["a|s".to_string(), "x|y".to_string()]);
}

#[test]
fn loaded_rows_are_deduplicated_cut_or_carry_the_error() {
    let plans = shelf_plans(None, None, vec![], vec![], 0, &vec![]);
    let trending = plans.into_iter().next().unwrap();
    let feed: Vec<Track> = (0..20).map(|i| track(&format!("sc:{i}"), "A", &format!("t{i}"))).collect();
    let shelf = shelf_from_result(trending, Ok(feed));
    assert_eq!(shelf.tracks.len(), 14);
    assert!(!shelf.is_loading && shelf.error.is_none());
    assert_eq!(shelf.id, "trending-now");

    let plans = shelf_plans(None, None, vec![], vec![], 0, &vec![]);
    let trending = plans.into_iter().next().unwrap();
    let failed = shelf_from_result(trending, Err("offline".to_string()));
    assert!(failed.tracks.is_empty());
    assert_eq!(failed.error.as_deref(), Some("offline"));

    let mix = mix_plans_from(vec![seed("A", "t")], &vec![]).into_iter().next().unwrap();
    let feed: Vec<Track> = (0..30).map(|i| track(&format!("sc:{i}"), "A", &format!("t{i}"))).collect();
    let m = mix_from_result(mix, Ok(feed));
    assert_eq!(m.tracks.len(), 18);
    assert_eq!(m.title, "Daily Mix 1");

    let dup = vec![track("sc:1", "A", "x"), track("sc:1", "A", "x")];
    assert_eq!(static_shelf_tracks(dup).len(), 1);
}
