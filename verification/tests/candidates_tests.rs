use nira::candidates::{
    finish_results, lastfm_candidates_from, plan_candidates, rationale, result_from,
    sc_candidates_from, Candidate, DiscoveryError,
};
use nira::discovery::{DiscoveryResult, SimilarToSeed};
use nira::enrichment::{EnrichmentError, LastFmSimilar};
use nira::track::{ArtistRef, ProviderId, Track};

fn sc_track(uri: &str, artist: &str, title: &str, cover: Option<&str>) -> Track {
    Track {
        uri: uri.to_string(),
        title: title.to_string(),
        artists: vec![ArtistRef { uri: "soundcloud:user:1".to_string(), name: artist.to_string() }],
        album: None,
        duration_ms: 180_000,
        cover_url: cover.map(|c| c.to_string()),
        provider: ProviderId::SoundCloud,
        mbid: None,
        added_at_ms: None,
    }
}

fn seed() -> SimilarToSeed {
    SimilarToSeed { artist: "Seed Artist".to_string(), title: "Seed Song".to_string(), mbid: None }
}

fn cand(artist: &str, title: &str, score: u32, source: &str, rank: usize) -> Candidate {
    Candidate {
        mbid: None,
        title: title.to_string(),
        artist: artist.to_string(),
        score_milli: score,
        sources: vec![source.to_string()],
        soundcloud_track: None,
        source_rank: rank,
    }
}

#[test]
fn soundcloud_order_decays_from_full_to_mid_tier() {
    let related = vec![
        sc_track("soundcloud:track:1", "A", "One", None),
        sc_track("soundcloud:track:2", "B", "Two", None),
        sc_track("soundcloud:track:3", "C", "Three", None),
    ];
    let c = sc_candidates_from(related);
    let scores: Vec<u32> = c.iter().map(|x| x.score_milli).collect();
    assert_eq!(scores, vec![1000, 874, 747]);
    assert_eq!(c[1].artist, "B");
    assert_eq!(c[1].sources, vec!["SoundCloud".to_string()]);
    assert_eq!(c[2].source_rank, 2);
    assert_eq!(c[0].soundcloud_track.as_ref().unwrap().uri, "soundcloud:track:1");
    assert!(sc_candidates_from(Vec::new()).is_empty());
}

#[test]
fn lastfm_matches_weigh_at_most_six_tenths() {
    let similar = vec![
        LastFmSimilar { title: "Heroes".to_string(), artist: "Bowie".to_string(), score_milli: 910 },
        LastFmSimilar { title: "X".to_string(), artist: "Y".to_string(), score_milli: 1000 },
        LastFmSimilar { title: "Z".to_string(), artist: "W".to_string(), score_milli: 0 },
    ];
    let c = lastfm_candidates_from(similar);
    let scores: Vec<u32> = c.iter().map(|x| x.score_milli).collect();
    assert_eq!(scores, vec![546, 600, 0]);
    assert_eq!(c[0].sources, vec!["Last.fm".to_string()]);
    assert_eq!(c[1].source_rank, 1);
    assert!(c[0].soundcloud_track.is_none());
}

#[test]
fn rationale_names_sources_and_rounded_score() {
    let mut c = cand("A", "B", 874, "SoundCloud", 0);
    assert_eq!(rationale(&c), "SoundCloud · score 0.87");
    c.sources.push("Last.fm".to_string());
    c.score_milli = 1000;
    assert_eq!(rationale(&c), "SoundCloud + Last.fm · score 1.00");
    c.score_milli = 5;
    assert_eq!(rationale(&c), "SoundCloud + Last.fm · score 0.01");
}

#[test]
fn empty_neighbourhood_is_an_error() {
    let r = plan_candidates(Vec::new(), Vec::new(), Vec::new(), &seed());
    assert!(matches!(r, Err(DiscoveryError::EmptyNeighbourhood)));
    assert!(matches!(finish_results(Vec::new()), Err(DiscoveryError::EmptyNeighbourhood)));
}

#[test]
fn plan_ranks_core_and_fills_from_support() {
    let sc = vec![cand("A", "Low", 700, "SoundCloud", 0), cand("B", "High", 900, "SoundCloud", 1)];
    let lastfm = vec![cand("C", "Extra", 500, "Last.fm", 0)];
    let plan = plan_candidates(sc, Vec::new(), lastfm, &seed()).unwrap();
    let titles: Vec<&str> = plan.iter().map(|c| c.title.as_str()).collect();
    assert_eq!(titles, vec!["High", "Low", "Extra"]);
}

#[test]
fn results_keep_cover_preference_and_error_messages_read_well() {
    let c = cand("A", "Song", 800, "SoundCloud", 0);
    assert!(result_from(&c, None, None).is_none());
    let sp = Track { provider: ProviderId::Spotify, ..sc_track("spotify:track:1", "A", "Song", Some("sp.jpg")) };
    let sc = sc_track("soundcloud:track:1", "A", "Song", None);
    let r = result_from(&c, Some(sp), Some(sc)).unwrap();
    assert_eq!(r.cover_url.as_deref(), Some("sp.jpg"));
    assert_eq!(r.rationale, "SoundCloud · score 0.80");

    assert_eq!(DiscoveryError::SeedUnresolved.message(), "seed track could not be resolved on any provider");
    assert_eq!(DiscoveryError::EmptyNeighbourhood.message(), "no neighbours found for this track (yet)");
    assert_eq!(DiscoveryError::Provider("down".to_string()).message(), "provider: down");
    assert_eq!(
        DiscoveryError::Enrichment(EnrichmentError::NotFound).message(),
        "enrichment: no result"
    );
}

#[test]
fn finished_results_are_sorted_and_one_per_song() {
    let mk = |title: &str, score: u32| DiscoveryResult {
        mbid: None,
        title: title.to_string(),
        artist: "A".to_string(),
        cover_url: None,
        spotify: None,
        soundcloud: Some(sc_track("soundcloud:track:1", "A", title, None)),
        score_milli: score,
        rationale: String::new(),
    };
    let out = finish_results(vec![mk("Song", 500), mk("Other", 900), mk("Song (Official Video)", 700)]).unwrap();
    let titles: Vec<&str> = out.iter().map(|r| r.title.as_str()).collect();
    assert_eq!(titles, vec!["Other", "Song (Official Video)"]);
}

#[test]
fn candidates_are_resolved_by_their_best_hits() {
    let mut c = cand("Bowie", "Heroes", 900, "Last.fm", 0);
    assert_eq!(nira::candidates::candidate_query(&c), "Bowie Heroes");
    assert!(nira::candidates::searches_for_candidate(&c, ProviderId::SoundCloud));
    let mut r = nira::candidates::Resolved::start(&c);
    assert!(r.spotify.is_none() && r.soundcloud.is_none());
    let hits = vec![
        sc_track("spotify:track:x", "Someone", "Heroes", None),
        Track { provider: ProviderId::Spotify, ..sc_track("spotify:track:1", "David Bowie", "Heroes (Remastered)", None) },
    ];
    r.record(&c, ProviderId::Spotify, &hits);
    assert_eq!(r.spotify.as_ref().map(|t| t.uri.as_str()), Some("spotify:track:1"));
    r.record(&c, ProviderId::SoundCloud, &vec![sc_track("soundcloud:track:9", "Other", "Else", None)]);
    assert!(r.soundcloud.is_none());
    c.soundcloud_track = Some(sc_track("soundcloud:track:5", "Bowie", "Heroes", None));
    assert!(!nira::candidates::searches_for_candidate(&c, ProviderId::SoundCloud));
    let r2 = nira::candidates::Resolved::start(&c);
    assert_eq!(r2.soundcloud.unwrap().uri, "soundcloud:track:5");
}
