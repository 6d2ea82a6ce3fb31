use nira::youtube::{download_saved_message, download_start_message, preview_from, youtube_url};

#[test]
fn accepts_only_https_youtube_urls() {
    assert!(youtube_url("https://youtu.be/dQw4w9WgXcQ").is_ok());
    assert!(youtube_url("https://music.youtube.com/watch?v=dQw4w9WgXcQ").is_ok());
    assert!(youtube_url("http://youtube.com/watch?v=x").is_err());
    assert!(youtube_url("https://youtube.com.evil.test/watch?v=x").is_err());
}

#[test]
fn download_messages_name_youtube_and_the_track() {
    assert_eq!(
        download_start_message("A Song"),
        "YouTube · Downloading “A Song” as MP3…"
    );
    assert_eq!(download_saved_message("A Song"), "YouTube · Saved “A Song”.");
}

#[test]
fn unparsable_and_foreign_links_get_their_messages() {
    assert_eq!(youtube_url("not a url").unwrap_err(), "Paste a valid YouTube URL.");
    assert_eq!(
        youtube_url("https://vimeo.com/1").unwrap_err(),
        "Paste an HTTPS youtube.com or youtu.be URL."
    );
    assert_eq!(
        youtube_url("  https://youtu.be/abc  ").unwrap(),
        "https://youtu.be/abc"
    );
}

#[test]
fn preview_needs_a_title_and_falls_back_to_youtube() {
    assert_eq!(
        preview_from(Some("  ".to_string()), None, None, None, None, "u".to_string()).unwrap_err(),
        "YouTube preview has no title."
    );
    let p = preview_from(
        Some("T".to_string()),
        None,
        Some("Chan".to_string()),
        None,
        Some(12),
        "u".to_string(),
    )
    .unwrap();
    assert_eq!(p.uploader, "Chan");
    let q = preview_from(Some("T".to_string()), Some(" ".to_string()), Some("Chan".to_string()), None, None, "u".to_string()).unwrap();
    assert_eq!(q.uploader, "YouTube");
}
