//! YouTube preview and MP3 import through the system `yt-dlp`: which URLs
//! are accepted, what the status line says, how a preview is read and how a
//! failed run is reported. Running `yt-dlp` is the caller's business.

use vstd::prelude::*;
use crate::text::{concat, str_eq, trim, trim_str};
use crate::track::opt_view;

verus! {

broadcast use vstd::string::group_string_axioms;

/// What URL parsing gives: scheme, host (when the URL has one) and the
/// serialised URL.
#[derive(Debug)]
pub struct ParsedUrl {
    pub scheme: String,
    pub host: Option<String>,
    pub href: String,
}

/// The result of `url::Url::parse` on a string: `(scheme, host, serialised
/// URL)`, none when it does not parse.
pub uninterp spec fn url_parse(s: Seq<char>) -> Option<(Seq<char>, Option<Seq<char>>, Seq<char>)>;

/// The view of a parse result.
pub open spec fn parsed_view(p: Option<ParsedUrl>) -> Option<(Seq<char>, Option<Seq<char>>, Seq<char>)> {
    match p {
        Some(u) => Some((u.scheme@, opt_view(u.host), u.href@)),
        None => None,
    }
}

/// Parse with `url::Url::parse`, keeping its scheme, `host_str` and
/// serialisation. WHATWG URL parsing is named, not restated: the same input
/// gives the same parts.
#[verifier::external_body]
fn parse_url(s: &str) -> (r: Option<ParsedUrl>)
    ensures
        parsed_view(r) == url_parse(s@),
{
    match url::Url::parse(s) {
        Ok(u) => Some(
            ParsedUrl {
                scheme: u.scheme().to_string(),
                host: u.host_str().map(|h| h.to_string()),
                href: u.to_string(),
            },
        ),
        Err(_) => None,
    }
}

/// The hosts a YouTube link may have.
pub open spec fn youtube_host(h: Seq<char>) -> bool {
    ||| h == "youtube.com"@
    ||| h == "www.youtube.com"@
    ||| h == "m.youtube.com"@
    ||| h == "music.youtube.com"@
    ||| h == "youtu.be"@
    ||| h == "www.youtube-nocookie.com"@
}

/// What a parsed link is accepted as: unparsable → "Paste a valid YouTube
/// URL."; not HTTPS or not a YouTube host → "Paste an HTTPS youtube.com or
/// youtu.be URL."; otherwise the serialised URL.
pub open spec fn youtube_url_spec(p: Option<(Seq<char>, Option<Seq<char>>, Seq<char>)>) -> Result<
    Seq<char>,
    Seq<char>,
> {
    match p {
        None => Err("Paste a valid YouTube URL."@),
        Some((scheme, host, href)) => {
            let h = match host {
                Some(h) => h,
                None => Seq::empty(),
            };
            if scheme != "https"@ || !youtube_host(h) {
                Err("Paste an HTTPS youtube.com or youtu.be URL."@)
            } else {
                Ok(href)
            }
        },
    }
}

/// The view of a string result.
pub open spec fn str_result_view(r: Result<String, String>) -> Result<Seq<char>, Seq<char>> {
    match r {
        Ok(s) => Ok(s@),
        Err(e) => Err(e@),
    }
}

/// Accept a parsed link only when it is an HTTPS YouTube URL.
pub fn youtube_url_from(parsed: Option<ParsedUrl>) -> (r: Result<String, String>)
    ensures
        str_result_view(r) == youtube_url_spec(parsed_view(parsed)),
{
    match parsed {
        None => Err("Paste a valid YouTube URL.".to_string()),
        Some(u) => {
            let h: &str = match &u.host {
                Some(h) => h.as_str(),
                None => "",
            };
            let allowed = str_eq(h, "youtube.com") || str_eq(h, "www.youtube.com") || str_eq(
                h,
                "m.youtube.com",
            ) || str_eq(h, "music.youtube.com") || str_eq(h, "youtu.be") || str_eq(
                h,
                "www.youtube-nocookie.com",
            );
            proof {
                reveal_strlit("");
                assert(""@ =~= Seq::<char>::empty());
            }
            if !str_eq(u.scheme.as_str(), "https") || !allowed {
                return Err("Paste an HTTPS youtube.com or youtu.be URL.".to_string());
            }
            Ok(u.href)
        },
    }
}

/// Parse a pasted link (trimmed) and accept it only as an HTTPS YouTube URL.
pub fn youtube_url(raw: &str) -> (r: Result<String, String>)
    ensures
        str_result_view(r) == youtube_url_spec(url_parse(trim(raw@))),
{
    let t = trim_str(raw);
    youtube_url_from(parse_url(t.as_str()))
}

/// "YouTube · Downloading “<title>” as MP3…"
pub fn download_start_message(title: &str) -> (r: String)
    ensures
        r@ == "YouTube · Downloading “"@ + title@ + "” as MP3…"@,
{
    let a = concat("YouTube · Downloading “", title);
    concat(a.as_str(), "” as MP3…")
}

/// "YouTube · Saved “<title>”."
pub fn download_saved_message(title: &str) -> (r: String)
    ensures
        r@ == "YouTube · Saved “"@ + title@ + "”."@,
{
    let a = concat("YouTube · Saved “", title);
    concat(a.as_str(), "”.")
}

/// A video ready to import.
#[derive(Debug)]
pub struct YouTubePreview {
    pub title: String,
    pub uploader: String,
    pub thumbnail: Option<String>,
    pub duration: Option<u64>,
    pub url: String,
}

/// A present, non-blank string.
pub open spec fn non_blank(s: Option<Seq<char>>) -> bool {
    s matches Some(v) && trim(v).len() > 0
}

/// A preview from what `yt-dlp` reported: refused without a non-blank
/// title; the uploader, else the channel, when non-blank, else "YouTube";
/// thumbnail and whole-second duration as reported.
pub fn preview_from(
    title: Option<String>,
    uploader: Option<String>,
    channel: Option<String>,
    thumbnail: Option<String>,
    duration: Option<u64>,
    url: String,
) -> (r: Result<YouTubePreview, String>)
    ensures
        !non_blank(opt_view(title)) <==> r is Err,
        r matches Err(e) ==> e@ == "YouTube preview has no title."@,
        r matches Ok(p) ==> {
            &&& Some(p.title@) == opt_view(title)
            &&& p.uploader@ == if uploader is Some {
                if non_blank(opt_view(uploader)) {
                    opt_view(uploader)->0
                } else {
                    "YouTube"@
                }
            } else if non_blank(opt_view(channel)) {
                opt_view(channel)->0
            } else {
                "YouTube"@
            }
            &&& opt_view(p.thumbnail) == opt_view(thumbnail)
            &&& p.duration == duration
            &&& p.url@ == url@
        },
{
    let title = match title {
        Some(t) => {
            if trim_str(t.as_str()).as_str().is_empty() {
                return Err("YouTube preview has no title.".to_string());
            }
            t
        },
        None => {
            return Err("YouTube preview has no title.".to_string());
        },
    };
    let who = match uploader {
        Some(u) => Some(u),
        None => channel,
    };
    let uploader = match who {
        Some(w) => if trim_str(w.as_str()).as_str().is_empty() {
            "YouTube".to_string()
        } else {
            w
        },
        None => "YouTube".to_string(),
    };
    Ok(YouTubePreview { title, uploader, thumbnail, duration, url })
}

/// The status line of the YouTube panel.
#[derive(Debug)]
pub struct YouTubeStatus {
    pub status: Option<String>,
    pub busy: bool,
    pub failed: bool,
}

impl YouTubeStatus {
    /// Nothing shown, idle.
    pub fn new() -> (r: YouTubeStatus)
        ensures
            r.status is None && !r.busy && !r.failed,
    {
        YouTubeStatus { status: None, busy: false, failed: false }
    }

    /// Work started: show the message, busy.
    pub fn start(&mut self, message: String)
        ensures
            opt_view(final(self).status) == Some(message@),
            final(self).busy,
            !final(self).failed,
    {
        self.status = Some(message);
        self.busy = true;
        self.failed = false;
    }

    /// Work finished: show the message, idle.
    pub fn finish(&mut self, message: String)
        ensures
            opt_view(final(self).status) == Some(message@),
            !final(self).busy,
            !final(self).failed,
    {
        self.status = Some(message);
        self.busy = false;
        self.failed = false;
    }

    /// Work failed: show the message, idle and failed.
    pub fn fail(&mut self, message: String)
        ensures
            opt_view(final(self).status) == Some(message@),
            !final(self).busy,
            final(self).failed,
    {
        self.status = Some(message);
        self.busy = false;
        self.failed = true;
    }
}

} // verus!
