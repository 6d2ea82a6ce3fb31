use nira::cache::{CacheEntry, TtlCache};
use nira::normalize::normalise_text;
use nira::plans::{
    made_for_you_seeds, mix_plans_from, one_per_artist_seeds, profile_has_seed, shelf_plans,
    ShelfKind,
};
use nira::recommend::{seed_from_parts, seed_from_track, RecommendationSeed};
use std::collections::HashSet;
use nira::track::{ArtistRef, ProviderId, Track};
use nira::ui::{bar_meta, bar_title, cover_mime, cover_request_name};

fn track(uri: &str, artist: &str, title: &str) -> Track {
    Track {
        uri: uri.to_string(),
        title: title.to_string(),
        artists: vec![ArtistRef { uri: "soundcloud:user:1".to_string(), name: artist.to_string() }],
        album: None,
        duration_ms: 180_000,
        cover_url: None,
        provider: ProviderId::SoundCloud,
        mbid: None,
        added_at_ms: None,
    }
}

fn seed(artist: &str, title: &str) -> RecommendationSeed {
    RecommendationSeed {
        artist: artist.to_string(),
        title: title.to_string(),
        label: format!("{artist} — {title}"),
        track_uri: None,
    }
}

#[test]
fn cache_restored_from_file_entries_later_listing_wins() {
    let entries = vec![
        ("k".to_string(), CacheEntry { inserted_at_unix: 1_000, value: "old".to_string() }),
        ("j".to_string(), CacheEntry { inserted_at_unix: 1_000, value: "jv".to_string() }),
        ("k".to_string(), CacheEntry { inserted_at_unix: 1_050, value: "new".to_string() }),
    ];
    let c = TtlCache::from_entries(entries, 100);
    assert_eq!(c.ttl_secs(), 100);
    assert_eq!(c.get_fresher_than_at("k", 100, 1_100), Some("new".to_string()));
    assert_eq!(c.get_fresher_than_at("j", 100, 1_100), Some("jv".to_string()));
    assert_eq!(c.get_fresher_than_at("j", 100, 1_101), None);
    assert_eq!(c.get_fresher_than_at("x", 100, 1_000), None);
    assert_eq!(c.flush_snapshot(1_100).len(), 2);
}

#[test]
fn likes_only_profile_gets_made_for_you() {
    let liked = vec![track("soundcloud:track:1", "Artist A", "One")];
    assert!(profile_has_seed(&vec![], &liked));
    assert!(!profile_has_seed(&vec![], &vec![]));
    assert!(!profile_has_seed(&vec![("  ".to_string(), "t".to_string())], &vec![]));
    assert!(profile_has_seed(&vec![("B".to_string(), "t".to_string())], &vec![]));
    let plans = shelf_plans(Some(vec![seed("Artist A", "One")]), None, vec!["soundcloud:user:1".into()], vec![track("soundcloud:track:1", "Artist A", "One")], 1, &vec![]);
    let ids: Vec<&str> = plans.iter().map(|p| p.id.as_str()).collect();
    assert_eq!(
        ids,
        vec![
            "made-for-you", "new-from-artists", "from-likes", "trending-now", "genre-electronic",
            "genre-hiphoprap", "genre-house", "genre-techno", "genre-ambient", "genre-dnb",
            "genre-indie"
        ]
    );
}

#[test]
fn made_for_you_caps_same_artist_seeds() {
    let liked: Vec<Track> = (0..12)
        .map(|i| track(&format!("soundcloud:track:{i}"), "Hot Artist", &format!("Song {i}")))
        .collect();
    let draw: Vec<RecommendationSeed> = liked.iter().filter_map(seed_from_track).collect();
    assert_eq!(draw.len(), 12);
    let plans = shelf_plans(Some(draw), None, vec![], vec![], liked.len(), &vec![]);
    let made = plans.iter().find(|p| p.id == "made-for-you").unwrap();
    match &made.kind {
        ShelfKind::RelatedAggregate { seeds, .. } => {
            assert!(seeds.len() <= 2, "expected ≤2 same-artist seeds, got {}", seeds.len());
        }
        _ => panic!("expected RelatedAggregate"),
    }
}

#[test]
fn made_for_you_keeps_draw_order_and_ten_seeds() {
    let mixed: Vec<RecommendationSeed> = (0..30).map(|i| seed(&format!("A{}", i % 15), "t")).collect();
    let seeds = made_for_you_seeds(mixed);
    assert_eq!(seeds.len(), 10);
    assert_eq!(seeds[0].artist, "A0");
    assert_eq!(seeds[9].artist, "A9");
}

#[test]
fn mix_plans_pick_distinct_artists() {
    let mut picked = Vec::new();
    for artist in ["A", "B", "C", "D", "E", "F", "G", "H"] {
        for i in 0..3 {
            picked.push(seed_from_parts(artist, &format!("{artist} song {i}"), None).unwrap());
        }
    }
    let plans = mix_plans_from(picked, &vec![]);
    assert_eq!(plans.len(), 4);
    let artists: HashSet<String> = plans.iter().map(|p| normalise_text(&p.seed.artist)).collect();
    assert_eq!(artists.len(), 4, "duplicate mix artists");
    for (i, m) in plans.iter().enumerate() {
        assert_eq!(m.id, format!("daily-mix-{i}"));
        assert_eq!(m.accent_index, i);
    }
}

#[test]
fn mix_seeds_skip_a_repeated_artist() {
    let picked = vec![seed("A", "1"), seed("a!", "2"), seed("B", "3"), seed("C", "4"), seed("D", "5"), seed("E", "6")];
    let mixes = mix_plans_from(picked, &vec![]);
    let artists: Vec<String> = mixes.iter().map(|m| normalise_text(&m.seed.artist)).collect();
    assert_eq!(artists, vec!["a", "b", "c", "d"]);
    assert_eq!(one_per_artist_seeds(vec![seed("X", "1"), seed("x", "2")]).len(), 1);
}

#[test]
fn player_bar_fallback_labels() {
    assert_eq!(bar_title(Some("Song".to_string()), true, Some("Queued".to_string())), "Song");
    assert_eq!(bar_title(None, false, Some("Queued".to_string())), "Queued");
    assert_eq!(bar_title(None, true, Some("Queued".to_string())), "Nothing loaded");
    assert_eq!(bar_title(Some(String::new()), false, Some("Queued".to_string())), "Nothing loaded");
    assert_eq!(bar_title(None, false, None), "Nothing loaded");
    assert_eq!(bar_meta(Some("Artist".to_string()), true, 3), "Artist");
    assert_eq!(bar_meta(None, false, 3), "press play to start the queue");
    assert_eq!(bar_meta(Some(String::new()), false, 0), "—");
    assert_eq!(bar_meta(None, true, 3), "—");
}

#[test]
fn cover_requests_name_one_safe_file() {
    assert_eq!(cover_request_name("/covers/abc.png"), Some("abc.png".to_string()));
    assert_eq!(cover_request_name("abc.jpg"), Some("abc.jpg".to_string()));
    assert_eq!(cover_request_name("/covers/"), None);
    assert_eq!(cover_request_name("/covers/..secret"), None);
    assert_eq!(cover_mime("abc.png"), "image/png");
    assert_eq!(cover_mime("abc.jpg"), "image/jpeg");
    assert_eq!(cover_mime("png"), "image/jpeg");
}
