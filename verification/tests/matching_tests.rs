use nira::matching::find_strict_match;
use nira::normalize::match_key;
use nira::track::{ArtistRef, ProviderId, Track};

fn track(artist: &str, title: &str, secs: u64) -> Track {
    Track {
        uri: format!("test:track:{title}"),
        title: title.to_string(),
        artists: vec![ArtistRef {
            uri: String::new(),
            name: artist.to_string(),
        }],
        album: None,
        duration_ms: secs * 1000,
        cover_url: None,
        provider: ProviderId::HiRes,
        mbid: None,
        added_at_ms: None,
    }
}

#[test]
fn strict_match_rules() {
    let target = track("Shiro Tanaka", "Mystic Dream (feat. Yuki)", 186);
    let hit = track("shiro tanaka", "mystic dream feat yuki", 188);
    let live = track("Shiro Tanaka", "Mystic Dream (feat. Yuki)", 226);
    let cover = track("Karaoke Band", "Mystic Dream (feat. Yuki)", 186);

    assert!(find_strict_match(&target, &[live.duplicate(), cover.duplicate()]).is_none());
    let candidates = [live, cover, hit.duplicate()];
    let found = find_strict_match(&target, &candidates).unwrap();
    assert_eq!(found.uri, hit.uri);

    let no_dur = track("Shiro Tanaka", "Mystic Dream (feat. Yuki)", 0);
    assert!(find_strict_match(&no_dur, &[hit.duplicate()]).is_none());
    assert!(find_strict_match(&hit, &[no_dur]).is_none());
}

#[test]
fn match_key_keeps_non_ascii() {
    assert_eq!(match_key("Группа крови"), "группа крови");
    assert_eq!(match_key("残酷な天使のテーゼ"), "残酷な天使のテーゼ");
    assert!(!match_key("Кино").is_empty());
    assert_eq!(match_key("!!!"), "");
}
