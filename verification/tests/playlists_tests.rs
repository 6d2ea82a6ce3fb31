use nira::playlists::{merge_external_playlists, Playlist, PlaylistImport, Playlists};
use nira::track::{ArtistRef, ProviderId, Track};

fn import(source_id: &str, name: &str) -> PlaylistImport {
    PlaylistImport {
        source_id: source_id.to_string(),
        name: name.to_string(),
        tracks: Vec::new(),
    }
}

fn track(uri: &str) -> Track {
    Track {
        uri: uri.to_string(),
        title: "T".to_string(),
        artists: vec![ArtistRef { uri: String::new(), name: "A".to_string() }],
        album: None,
        duration_ms: 1000,
        cover_url: None,
        provider: ProviderId::Local,
        mbid: None,
        added_at_ms: None,
    }
}

#[test]
fn external_imports_are_source_scoped_and_non_destructive() {
    let now = 1_700_000_000_000;
    let mut items = vec![Playlist {
        id: "spotify-kept".to_string(),
        name: "My local rename".to_string(),
        tracks: Vec::new(),
        albums: Vec::new(),
        created_at_ms: now,
        updated_at_ms: now,
    }];
    let added = merge_external_playlists(
        &mut items,
        "spotify",
        vec![import("kept", "Remote rename"), import("new", "New playlist")],
        now,
    );
    assert_eq!(added, 1);
    assert_eq!(items[0].id, "spotify-new");
    assert_eq!(items[1].name, "My local rename");
}

#[test]
fn equal_provider_ids_do_not_collide_across_sources() {
    let mut items = Vec::new();
    assert_eq!(merge_external_playlists(&mut items, "spotify", vec![import("42", "Spotify")], 0), 1);
    assert_eq!(merge_external_playlists(&mut items, "soundcloud", vec![import("42", "SoundCloud")], 0), 1);
    assert_eq!(items.len(), 2);
    assert!(items.iter().any(|p| p.id == "spotify-42"));
    assert!(items.iter().any(|p| p.id == "soundcloud-42"));
}

#[test]
fn removed_import_can_be_imported_again() {
    let mut items = Vec::new();
    assert_eq!(merge_external_playlists(&mut items, "spotify", vec![import("road-trip", "Road trip")], 0), 1);
    items.retain(|p| p.id != "spotify-road-trip");
    assert_eq!(merge_external_playlists(&mut items, "spotify", vec![import("road-trip", "Road trip")], 0), 1);
}

#[test]
fn created_playlists_lead_and_blank_names_default() {
    let mut store = Playlists::new();
    let id = store.create("  ", 42);
    assert_eq!(id, "pl-42");
    assert_eq!(store.items[0].name, "New Playlist");
    let id2 = store.create(" Mix ", 43);
    assert_eq!(store.items[0].id, id2);
    assert_eq!(store.items[0].name, "Mix");
    assert_eq!(store.count(), 2);
}

#[test]
fn adding_a_track_twice_keeps_one_copy() {
    let mut store = Playlists::new();
    let id = store.create("L", 1);
    assert!(store.add_track(&id, &track("u:1"), 2));
    assert!(!store.add_track(&id, &track("u:1"), 3));
    assert!(store.contains(&id, "u:1"));
    store.remove_track(&id, "u:1", 4);
    assert!(!store.contains(&id, "u:1"));
    assert_eq!(store.items[0].updated_at_ms, 4);
}

#[test]
fn moving_a_track_swaps_neighbours_and_ignores_the_edges() {
    let mut store = Playlists::new();
    let id = store.create("L", 1);
    store.add_track(&id, &track("u:1"), 1);
    store.add_track(&id, &track("u:2"), 1);
    store.move_track(&id, 0, 1, 5);
    assert_eq!(store.items[0].tracks[0].uri, "u:2");
    store.move_track(&id, 0, -1, 6);
    assert_eq!(store.items[0].tracks[0].uri, "u:2");
    assert_eq!(store.items[0].updated_at_ms, 5);
}

fn album(uri: &str) -> nira::playlists::PlaylistAlbum {
    nira::playlists::PlaylistAlbum {
        uri: uri.to_string(),
        title: "Album".to_string(),
        artist: "Artist".to_string(),
        cover_url: None,
        tracks: vec![track("u:a1"), track("u:a2")],
        added_at_ms: 0,
    }
}

#[test]
fn albums_are_embedded_once_moved_and_removed() {
    let mut store = Playlists::new();
    let id = store.create("L", 1);
    assert!(store.add_album(&id, &album("al:1"), 2));
    assert!(!store.add_album(&id, &album("al:1"), 3));
    assert!(store.add_album(&id, &album("al:2"), 4));
    assert!(store.contains_album(&id, "al:1"));
    store.move_album(&id, 1, -1, 5);
    assert_eq!(store.items[0].albums[0].uri, "al:2");
    assert_eq!(store.get(&id).unwrap().all_tracks().len(), 4);
    store.remove_album(&id, "al:1", 6);
    assert!(!store.contains_album(&id, "al:1"));
    assert!(!store.get(&id).unwrap().is_empty());
}

#[test]
fn rename_delete_and_import_through_the_store() {
    let mut store = Playlists::new();
    let id = store.create("Old", 1);
    store.rename(&id, "  New  ", 2);
    assert_eq!(store.get(&id).unwrap().name, "New");
    store.rename(&id, "   ", 3);
    assert_eq!(store.get(&id).unwrap().name, "New");
    assert_eq!(store.import_external("soundcloud", vec![import("7", "Seven")], 4), 1);
    assert!(store.has_import("soundcloud", "7"));
    assert!(!store.has_import("spotify", "7"));
    store.delete(&id);
    assert!(store.get(&id).is_none());
    assert_eq!(store.count(), 1);
}
