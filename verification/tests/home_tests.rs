use nira::home::{
    build_tiles, clear_shelf_loading_flags, combined_likes, dedupe_across_mixes,
    mark_shelves_loading, merge_loaded_shelves, shown_track_keys, skeleton_shelf,
    RecommendationMix, RecommendationShelf, ShelfHeader,
};
use nira::track::{ArtistRef, ProviderId, Track};

fn track(uri: &str, artist: &str, title: &str) -> Track {
    Track {
        uri: uri.to_string(),
        title: title.to_string(),
        artists: vec![ArtistRef { uri: "soundcloud:user:1".to_string(), name: artist.to_string() }],
        album: None,
        duration_ms: 1,
        cover_url: Some(format!("cover-{uri}")),
        provider: ProviderId::SoundCloud,
        mbid: None,
        added_at_ms: None,
    }
}

fn shelf(id: &str, tracks: Vec<Track>) -> RecommendationShelf {
    RecommendationShelf {
        id: id.to_string(),
        eyebrow: String::new(),
        title: id.to_string(),
        subtitle: String::new(),
        seed_label: String::new(),
        tracks,
        is_loading: false,
        error: None,
        rerollable: true,
    }
}

fn mix(id: &str, tracks: Vec<Track>) -> RecommendationMix {
    RecommendationMix {
        id: id.to_string(),
        title: format!("Mix {id}"),
        subtitle: String::new(),
        seed_label: "seed".to_string(),
        tracks,
        is_loading: false,
        error: None,
        accent_index: 0,
    }
}

fn header(id: &str) -> ShelfHeader {
    ShelfHeader {
        id: id.to_string(),
        eyebrow: "e".to_string(),
        title: "t".to_string(),
        subtitle: "s".to_string(),
        seed_label: "l".to_string(),
        rerollable: false,
    }
}

#[test]
fn tiles_appear_only_for_filled_sources_in_order() {
    let shelves = vec![
        shelf("from-likes", vec![track("sc:1", "A", "a"), track("sc:2", "B", "b")]),
        shelf("made-for-you", vec![track("sc:3", "C", "c")]),
        shelf("trending-now", vec![]),
    ];
    let mixes = vec![mix("m0", vec![]), mix("m1", vec![track("sc:4", "D", "d")])];
    let tiles = build_tiles(&shelves, &mixes);
    let ids: Vec<&str> = tiles.iter().map(|t| t.id.as_str()).collect();
    assert_eq!(ids, vec!["made-for-you", "daily-mix-1", "from-likes"]);
    assert_eq!(tiles[0].cover_url.as_deref(), Some("cover-sc:3"));
    assert_eq!(tiles[1].label, "Mix m1");
    assert_eq!(tiles[2].sub, "2 tracks");
}

#[test]
fn a_song_lands_in_one_mix_only() {
    let mut mixes = vec![
        mix("m0", vec![track("sc:1", "A", "Song"), track("sc:2", "B", "Other")]),
        mix("m1", vec![track("sc:1", "A", "Song"), track("sc:3", "C", "song (official video)"), track("sc:4", "D", "New")]),
    ];
    dedupe_across_mixes(&mut mixes);
    let ids: Vec<Vec<&str>> = mixes.iter().map(|m| m.tracks.iter().map(|t| t.uri.as_str()).collect()).collect();
    assert_eq!(ids, vec![vec!["sc:1", "sc:2"], vec!["sc:4"]]);
}

#[test]
fn a_failed_reload_keeps_the_tracks_on_screen() {
    let mut current = vec![shelf("a", vec![track("sc:1", "A", "a")]), shelf("b", vec![])];
    let mut failed = shelf("a", vec![]);
    failed.error = Some("offline".to_string());
    merge_loaded_shelves(&mut current, vec![failed], Some("a"));
    assert_eq!(current.len(), 2);
    assert_eq!(current[0].tracks.len(), 1);
    assert_eq!(current[0].error.as_deref(), Some("offline"));

    let mut all = vec![shelf("a", vec![track("sc:1", "A", "a")])];
    merge_loaded_shelves(&mut all, vec![shelf("c", vec![])], None);
    assert_eq!(all.len(), 1);
    assert_eq!(all[0].id, "c");
}

#[test]
fn loading_flags_and_skeletons() {
    let mut shelves: Vec<RecommendationShelf> = Vec::new();
    mark_shelves_loading(&mut shelves, &vec![header("x"), header("y")]);
    assert_eq!(shelves.len(), 2);
    assert!(shelves.iter().all(|s| s.is_loading && s.tracks.is_empty()));
    assert!(clear_shelf_loading_flags(&mut shelves, &vec!["x".to_string()]));
    assert!(!shelves[0].is_loading);
    assert!(shelves[1].is_loading);
    assert!(!clear_shelf_loading_flags(&mut shelves, &vec!["x".to_string()]));
    let sk = skeleton_shelf(&header("z"));
    assert_eq!(sk.id, "z");
    assert!(sk.is_loading);
}

#[test]
fn likes_combine_without_repeats_and_shown_keys_list_rows() {
    let local = vec![track("sc:1", "A", "Song")];
    let spotify = vec![track("sc:1", "A", "Song"), track("sp:2", "B", "Tune")];
    let all = combined_likes(&local, &spotify);
    assert_eq!(all.len(), 2);
    let keys = shown_track_keys(&vec![shelf("made-for-you", vec![track("sc:1", "A", "Song")])], &vec![mix("m", vec![track("sc:2", "B", "Tune")])]);
    assert!(keys.contains(&"b|tune".to_string()));
}
