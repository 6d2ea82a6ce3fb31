use nira::enrichment::{
    escape_lucene, join_strings, lastfm_cache_key, lastfm_similar_url, mb_cache_key, mb_query,
    mb_search_url, normalise_lastfm_key, parse_similar_tracks, recording_from_raw,
    EnrichmentError, RawSimilarTrack,
};

/// The `similartracks.track` entries of a Last.fm response, with `match`
/// read as thousandths whether the response gave a number or a string.
fn similar_group(json: &str) -> Option<Vec<RawSimilarTrack>> {
    let v: serde_json::Value = serde_json::from_str(json).unwrap();
    let group = v.get("similartracks")?;
    let tracks = group.get("track").and_then(|t| t.as_array()).cloned().unwrap_or_default();
    Some(
        tracks
            .iter()
            .map(|t| {
                let score = match t.get("match") {
                    Some(serde_json::Value::Number(n)) => n.as_f64().unwrap_or(0.0),
                    Some(serde_json::Value::String(s)) => s.parse::<f64>().unwrap_or(0.0),
                    _ => 0.0,
                };
                RawSimilarTrack {
                    name: t.get("name").and_then(|n| n.as_str()).map(|s| s.to_string()),
                    artist_name: t
                        .get("artist")
                        .and_then(|a| a.get("name"))
                        .and_then(|n| n.as_str())
                        .map(|s| s.to_string()),
                    match_milli: (score * 1000.0).round() as i64,
                }
            })
            .collect(),
    )
}

#[test]
fn parses_number_match() {
    let out = parse_similar_tracks(similar_group(
        r#"{"similartracks":{"track":[{"name":"Heroes","artist":{"name":"Bowie"},"match":0.91}]}}"#,
    ));
    assert_eq!(out.len(), 1);
    assert_eq!(out[0].title, "Heroes");
    assert_eq!(out[0].artist, "Bowie");
    assert_eq!(out[0].score_milli, 910);
}

#[test]
fn parses_string_match() {
    let out = parse_similar_tracks(similar_group(
        r#"{"similartracks":{"track":[{"name":"X","artist":{"name":"Y"},"match":"0.5"}]}}"#,
    ));
    assert_eq!(out[0].score_milli, 500);
}

#[test]
fn empty_when_no_group() {
    assert!(parse_similar_tracks(similar_group("{}")).is_empty());
}

#[test]
fn skips_entries_missing_artist_or_title() {
    let out = parse_similar_tracks(similar_group(
        r#"{"similartracks":{"track":[{"match":1.0},{"name":"X","artist":{"name":"Y"},"match":1.0}]}}"#,
    ));
    assert_eq!(out.len(), 1);
}

#[test]
fn similar_scores_are_clamped() {
    let out = parse_similar_tracks(Some(vec![
        RawSimilarTrack { name: Some("A".into()), artist_name: Some("B".into()), match_milli: 1500 },
        RawSimilarTrack { name: Some("C".into()), artist_name: Some("D".into()), match_milli: -20 },
        RawSimilarTrack { name: Some("E".into()), artist_name: None, match_milli: 300 },
    ]));
    let scores: Vec<u32> = out.iter().map(|s| s.score_milli).collect();
    assert_eq!(scores, vec![1000, 0]);
}

#[test]
fn lucene_query_escapes_and_narrows() {
    assert_eq!(escape_lucene(r#"a "b" \c"#), r#"a \"b\" \\c"#);
    assert_eq!(mb_query("  ", ""), None);
    assert_eq!(mb_query("Bowie", "Heroes"), Some(r#"artist:"Bowie" AND recording:"Heroes""#.to_string()));
    assert_eq!(mb_query("", "Heroes"), Some(r#"recording:"Heroes""#.to_string()));
    assert_eq!(mb_query("Bowie", " "), Some(r#"artist:"Bowie""#.to_string()));
}

#[test]
fn cache_keys_and_urls() {
    assert_eq!(mb_cache_key("A", "B", 5), "mb:recording:A|B|5");
    assert_eq!(lastfm_cache_key("A", "B", 30), "lastfm:similar:A|B|30");
    assert_eq!(
        lastfm_similar_url("Sigur Rós", "Hoppípolla", 30, "k&y"),
        "https://ws.audioscrobbler.com/2.0/?method=track.getsimilar&artist=Sigur+R%C3%B3s&track=Hopp%C3%ADpolla&limit=30&api_key=k%26y&format=json"
    );
    assert!(mb_search_url("artist:\"A\"", 5).contains("limit=5"));
}

#[test]
fn lastfm_key_prefers_settings_then_environment() {
    assert_eq!(normalise_lastfm_key(Some("  abc ".into()), Some("env".into())), Some("abc".to_string()));
    assert_eq!(normalise_lastfm_key(Some("   ".into()), Some(" env ".into())), Some("env".to_string()));
    assert_eq!(normalise_lastfm_key(None, Some("".into())), None);
}

#[test]
fn recordings_join_credits_and_default_score() {
    let r = recording_from_raw("id".into(), "T".into(), &vec!["A".into(), "B".into()], Some(1000), None);
    assert_eq!(r.artist, "A, B");
    assert_eq!(r.score, 0);
    assert_eq!(r.length_ms, Some(1000));
    assert_eq!(join_strings(&vec![]), "");
}

#[test]
fn enrichment_errors_read_well() {
    assert_eq!(EnrichmentError::Network("x".into()).message(), "network: x");
    assert_eq!(EnrichmentError::Malformed("y".into()).message(), "malformed response: y");
    assert_eq!(
        EnrichmentError::RateLimited { retry_after_ms: 1500 }.message(),
        "rate limited; retry after 1500 ms"
    );
    assert_eq!(EnrichmentError::NotFound.message(), "no result");
}

#[test]
fn listens_requests_trim_clamp_and_encode() {
    assert!(nira::enrichment::listens_request("   ", 10).is_none());
    let q = nira::enrichment::listens_request(" rob b ", 500).unwrap();
    assert_eq!(q.username, "rob b");
    assert_eq!(q.count, 100);
    assert_eq!(q.cache_key, "lb:listens:rob b:100");
    assert_eq!(q.url, "https://api.listenbrainz.org/1/user/rob+b/listens?count=100");
    assert_eq!(nira::enrichment::listens_request("x", 0).unwrap().count, 1);
    assert_eq!(nira::enrichment::lb_similar_cache_key("m-1", 30), "lb:similar:m-1:30");
}

#[test]
fn listens_map_and_submissions_need_a_token() {
    let l = nira::enrichment::listen_from_raw(nira::enrichment::RawListen {
        listened_at: 1_700_000_000,
        track_name: "T".into(),
        artist_name: "A".into(),
        recording_mbid: Some("m".into()),
        listening_from: None,
        music_service: Some("spotify.com".into()),
    });
    assert_eq!(l.source.as_deref(), Some("spotify.com"));
    assert_eq!(l.listened_at_unix, 1_700_000_000);
    assert!(nira::enrichment::listen_submission(" ", "T", "A", None).is_none());
    let now = nira::enrichment::listen_submission("tok", "T", "A", None).unwrap();
    assert_eq!(now.listen_type, "playing_now");
    assert_eq!(now.listened_at, None);
    let single = nira::enrichment::listen_submission("tok", "T", "A", Some(5)).unwrap();
    assert_eq!(single.listen_type, "single");
    assert_eq!(single.listened_at, Some(5));
}
