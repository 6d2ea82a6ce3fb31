use nira::feed::{feed_username, FeedAction, FeedState};

#[test]
fn username_is_trimmed_and_blank_means_none() {
    assert_eq!(feed_username(&Some("  rob ".to_string())), Some("rob".to_string()));
    assert_eq!(feed_username(&Some("   ".to_string())), None);
    assert_eq!(feed_username(&None), None);
}

#[test]
fn only_a_username_change_refetches() {
    let mut st = FeedState::new();
    assert!(matches!(st.on_settings(&None), FeedAction::NeedsConfig));
    assert!(matches!(st.on_settings(&Some(" ".to_string())), FeedAction::Unchanged));
    match st.on_settings(&Some(" rob".to_string())) {
        FeedAction::Fetch(u) => assert_eq!(u, "rob"),
        _ => panic!("expected a fetch"),
    }
    assert!(matches!(st.on_settings(&Some("rob ".to_string())), FeedAction::Unchanged));
    match st.on_settings(&Some("ann".to_string())) {
        FeedAction::Fetch(u) => assert_eq!(u, "ann"),
        _ => panic!("expected a fetch"),
    }
    assert!(matches!(st.on_settings(&None), FeedAction::NeedsConfig));
}
