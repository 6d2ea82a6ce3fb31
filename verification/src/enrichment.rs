//! Queries to the read-only music-metadata services: the MusicBrainz
//! recording search (Lucene query, URL, cache key, and the mapping of its
//! hits), the Last.fm similar-tracks lookup URL, the Last.fm key choice, and
//! the errors these lookups report.

use vstd::prelude::*;
use vstd::utf8::encode_utf8;
use crate::config::{decimal, to_decimal};
use crate::text::{concat, string_views, trim, trim_str};
use crate::track::opt_view;

verus! {

broadcast use vstd::string::group_string_axioms;

/// Why a lookup failed.
#[derive(Debug)]
pub enum EnrichmentError {
    Network(String),
    Malformed(String),
    RateLimited { retry_after_ms: u64 },
    NotFound,
}

impl EnrichmentError {
    /// The text an error reads as.
    pub open spec fn message_spec(&self) -> Seq<char> {
        match self {
            EnrichmentError::Network(m) => "network: "@ + m@,
            EnrichmentError::Malformed(m) => "malformed response: "@ + m@,
            EnrichmentError::RateLimited { retry_after_ms } => "rate limited; retry after "@
                + decimal(*retry_after_ms as nat) + " ms"@,
            EnrichmentError::NotFound => "no result"@,
        }
    }

    /// "network: …", "malformed response: …", "rate limited; retry after N
    /// ms", or "no result".
    pub fn message(&self) -> (r: String)
        ensures
            r@ == self.message_spec(),
    {
        match self {
            EnrichmentError::Network(m) => concat("network: ", m.as_str()),
            EnrichmentError::Malformed(m) => concat("malformed response: ", m.as_str()),
            EnrichmentError::RateLimited { retry_after_ms } => {
                let n = to_decimal(*retry_after_ms);
                let a = concat("rate limited; retry after ", n.as_str());
                concat(a.as_str(), " ms")
            },
            EnrichmentError::NotFound => "no result".to_string(),
        }
    }
}

/// The Last.fm key in use: the configured one, trimmed, unless blank; else
/// the environment's, trimmed, unless blank; else none.
pub open spec fn lastfm_key_spec(key: Option<Seq<char>>, env: Option<Seq<char>>) -> Option<Seq<char>> {
    match key {
        Some(k) if trim(k).len() > 0 => Some(trim(k)),
        _ => match env {
            Some(e) if trim(e).len() > 0 => Some(trim(e)),
            _ => None,
        },
    }
}

/// Pick the Last.fm key from the settings value and the
/// `NIRA_LASTFM_API_KEY` environment value.
pub fn normalise_lastfm_key(key: Option<String>, env: Option<String>) -> (r: Option<String>)
    ensures
        opt_view(r) == lastfm_key_spec(opt_view(key), opt_view(env)),
{
    if let Some(k) = &key {
        let t = trim_str(k.as_str());
        if !t.as_str().is_empty() {
            return Some(t);
        }
    }
    match &env {
        Some(e) => {
            let t = trim_str(e.as_str());
            if t.as_str().is_empty() {
                None
            } else {
                Some(t)
            }
        },
        None => None,
    }
}

/// One MusicBrainz recording hit.
#[derive(Debug)]
pub struct MbRecording {
    pub mbid: String,
    pub title: String,
    pub artist: String,
    pub length_ms: Option<u64>,
    /// MusicBrainz's own text-match score, 0 to 100.
    pub score: u32,
}

/// `"` and `\` escaped with a backslash; everything else as is.
pub open spec fn escape_lucene_spec(s: Seq<char>) -> Seq<char>
    decreases s.len(),
{
    if s.len() == 0 {
        Seq::empty()
    } else {
        let c = s.last();
        escape_lucene_spec(s.drop_last()) + if c == '"' || c == '\\' {
            seq!['\\', c]
        } else {
            seq![c]
        }
    }
}

/// Escape the characters a quoted Lucene term cannot hold.
pub fn escape_lucene(s: &str) -> (r: String)
    ensures
        r@ == escape_lucene_spec(s@),
{
    let v = crate::text::chars_of(s);
    let mut out: Vec<char> = Vec::new();
    let mut i: usize = 0;
    while i < v.len()
        invariant
            i <= v@.len(),
            v@ == s@,
            out@ == escape_lucene_spec(v@.take(i as int)),
        decreases v@.len() - i,
    {
        let c = v[i];
        let ghost before = out@;
        if c == '"' || c == '\\' {
            out.push('\\');
        }
        out.push(c);
        assert(v@.take(i + 1).drop_last() =~= v@.take(i as int));
        assert(v@.take(i + 1).last() == c);
        if c == '"' || c == '\\' {
            assert(out@ =~= before + seq!['\\', c]);
        } else {
            assert(out@ =~= before + seq![c]);
        }
        i = i + 1;
    }
    assert(v@.take(v@.len() as int) =~= v@);
    crate::text::string_of(&out)
}

/// The Lucene query for an artist and title: none when both are blank;
/// otherwise the non-blank fields as quoted, escaped terms.
pub open spec fn mb_query_spec(artist: Seq<char>, title: Seq<char>) -> Option<Seq<char>> {
    let no_artist = trim(artist).len() == 0;
    let no_title = trim(title).len() == 0;
    if no_artist && no_title {
        None
    } else if no_artist {
        Some("recording:\""@ + escape_lucene_spec(title) + "\""@)
    } else if no_title {
        Some("artist:\""@ + escape_lucene_spec(artist) + "\""@)
    } else {
        Some(
            "artist:\""@ + escape_lucene_spec(artist) + "\" AND recording:\""@
                + escape_lucene_spec(title) + "\""@,
        )
    }
}

/// The MusicBrainz query for an artist and title, narrowed to whichever is
/// given.
pub fn mb_query(artist: &str, title: &str) -> (r: Option<String>)
    ensures
        opt_view(r) == mb_query_spec(artist@, title@),
{
    let no_artist = trim_str(artist).as_str().is_empty();
    let no_title = trim_str(title).as_str().is_empty();
    if no_artist && no_title {
        None
    } else if no_artist {
        let a = concat("recording:\"", escape_lucene(title).as_str());
        Some(concat(a.as_str(), "\""))
    } else if no_title {
        let a = concat("artist:\"", escape_lucene(artist).as_str());
        Some(concat(a.as_str(), "\""))
    } else {
        let a = concat("artist:\"", escape_lucene(artist).as_str());
        let b = concat(a.as_str(), "\" AND recording:\"");
        let c = concat(b.as_str(), escape_lucene(title).as_str());
        Some(concat(c.as_str(), "\""))
    }
}

/// `mb:recording:<artist>|<title>|<limit>`.
pub fn mb_cache_key(artist: &str, title: &str, limit: u32) -> (r: String)
    ensures
        r@ == "mb:recording:"@ + artist@ + "|"@ + title@ + "|"@ + decimal(limit as nat),
{
    let a = concat("mb:recording:", artist);
    let b = concat(a.as_str(), "|");
    let c = concat(b.as_str(), title);
    let d = concat(c.as_str(), "|");
    concat(d.as_str(), to_decimal(limit as u64).as_str())
}

/// `lastfm:similar:<artist>|<title>|<limit>`.
pub fn lastfm_cache_key(artist: &str, title: &str, limit: u32) -> (r: String)
    ensures
        r@ == "lastfm:similar:"@ + artist@ + "|"@ + title@ + "|"@ + decimal(limit as nat),
{
    let a = concat("lastfm:similar:", artist);
    let b = concat(a.as_str(), "|");
    let c = concat(b.as_str(), title);
    let d = concat(c.as_str(), "|");
    concat(d.as_str(), to_decimal(limit as u64).as_str())
}

/// Bytes a form-urlencoded value keeps as they are.
pub open spec fn form_unchanged(b: u8) -> bool {
    b == 42 || b == 45 || b == 46 || (48 <= b <= 57) || (65 <= b <= 90) || b == 95 || (97 <= b
        <= 122)
}

/// An uppercase hexadecimal digit.
pub open spec fn hex_upper(d: nat) -> char {
    if d < 10 {
        ((48 + d) as u32) as char
    } else {
        ((55 + d) as u32) as char
    }
}

/// `application/x-www-form-urlencoded` serialisation of bytes: `*-._`,
/// digits and ASCII letters as they are, a space as `+`, every other byte as
/// `%` and two uppercase hex digits.
pub open spec fn form_encode(bytes: Seq<u8>) -> Seq<char>
    decreases bytes.len(),
{
    if bytes.len() == 0 {
        Seq::empty()
    } else {
        let b = bytes.last();
        form_encode(bytes.drop_last()) + if form_unchanged(b) {
            seq![(b as u32) as char]
        } else if b == 32 {
            seq!['+']
        } else {
            seq!['%', hex_upper(b as nat / 16), hex_upper(b as nat % 16)]
        }
    }
}

/// `url::form_urlencoded::byte_serialize` over the UTF-8 bytes of `s`,
/// collected into a string: per its source, bytes in `*-._0-9A-Za-z` pass
/// through, a space becomes `+`, and any other byte becomes `%XX` with
/// uppercase hex digits.
#[verifier::external_body]
fn form_urlencode(s: &str) -> (r: String)
    ensures
        r@ == form_encode(encode_utf8(s@)),
{
    url::form_urlencoded::byte_serialize(s.as_bytes()).collect::<String>()
}

/// The MusicBrainz recording-search URL for a query.
pub fn mb_search_url(query: &str, limit: u32) -> (r: String)
    ensures
        r@ == "https://musicbrainz.org/ws/2/recording/?query="@ + form_encode(encode_utf8(query@))
            + "&fmt=json&limit="@ + decimal(limit as nat),
{
    let q = form_urlencode(query);
    let a = concat("https://musicbrainz.org/ws/2/recording/?query=", q.as_str());
    let b = concat(a.as_str(), "&fmt=json&limit=");
    concat(b.as_str(), to_decimal(limit as u64).as_str())
}

/// The Last.fm similar-tracks URL for a seed, with every value
/// form-urlencoded.
pub fn lastfm_similar_url(artist: &str, title: &str, limit: u32, api_key: &str) -> (r: String)
    ensures
        r@ == "https://ws.audioscrobbler.com/2.0/?method=track.getsimilar&artist="@ + form_encode(
            encode_utf8(artist@),
        ) + "&track="@ + form_encode(encode_utf8(title@)) + "&limit="@ + decimal(limit as nat)
            + "&api_key="@ + form_encode(encode_utf8(api_key@)) + "&format=json"@,
{
    let a = concat(
        "https://ws.audioscrobbler.com/2.0/?method=track.getsimilar&artist=",
        form_urlencode(artist).as_str(),
    );
    let b = concat(a.as_str(), "&track=");
    let c = concat(b.as_str(), form_urlencode(title).as_str());
    let d = concat(c.as_str(), "&limit=");
    let e = concat(d.as_str(), to_decimal(limit as u64).as_str());
    let f = concat(e.as_str(), "&api_key=");
    let g = concat(f.as_str(), form_urlencode(api_key).as_str());
    concat(g.as_str(), "&format=json")
}

/// A recording hit from the search response: credited names joined by
/// ", ", a missing score read as zero.
pub fn recording_from_raw(
    id: String,
    title: String,
    credit_names: &Vec<String>,
    length: Option<u64>,
    score: Option<u32>,
) -> (r: MbRecording)
    ensures
        r.mbid@ == id@,
        r.title@ == title@,
        r.artist@ == joined_strings(string_views(credit_names@)),
        r.length_ms == length,
        r.score == match score {
            Some(s) => s,
            None => 0,
        },
{
    let artist = join_strings(credit_names);
    MbRecording {
        mbid: id,
        title,
        artist,
        length_ms: length,
        score: match score {
            Some(s) => s,
            None => 0,
        },
    }
}

/// Strings joined by ", ".
pub open spec fn joined_strings(a: Seq<Seq<char>>) -> Seq<char>
    decreases a.len(),
{
    if a.len() == 0 {
        Seq::empty()
    } else if a.len() == 1 {
        a[0]
    } else {
        joined_strings(a.drop_last()) + ", "@ + a.last()
    }
}

/// Strings joined by ", ".
pub fn join_strings(v: &Vec<String>) -> (r: String)
    ensures
        r@ == joined_strings(string_views(v@)),
{
    let ghost a = string_views(v@);
    let mut out = String::new();
    let mut i: usize = 0;
    while i < v.len()
        invariant
            i <= v@.len(),
            a == string_views(v@),
            out@ == joined_strings(a.take(i as int)),
        decreases v@.len() - i,
    {
        let ghost q = a.take(i + 1);
        assert(q.drop_last() =~= a.take(i as int));
        assert(q.last() == v@[i as int]@);
        if i == 0 {
            out = concat(out.as_str(), v[i].as_str());
            assert(out@ =~= q[0]);
        } else {
            let sep = concat(out.as_str(), ", ");
            out = concat(sep.as_str(), v[i].as_str());
        }
        i = i + 1;
    }
    assert(a.take(v@.len() as int) =~= a);
    out
}


/// One entry of a Last.fm similar-tracks response: the track name, the
/// artist name, and the `match` score in thousandths as the response gave
/// it (a missing or unreadable score is zero).
#[derive(Debug)]
pub struct RawSimilarTrack {
    pub name: Option<String>,
    pub artist_name: Option<String>,
    pub match_milli: i64,
}

/// A similar track with its score clamped to `0..=1000`.
#[derive(Debug)]
pub struct LastFmSimilar {
    pub title: String,
    pub artist: String,
    pub score_milli: u32,
}

/// What a response entry holds.
pub ghost struct RawSimilarView {
    pub name: Option<Seq<char>>,
    pub artist_name: Option<Seq<char>>,
    pub match_milli: i64,
}

/// What a similar track holds.
pub ghost struct LastFmSimilarView {
    pub title: Seq<char>,
    pub artist: Seq<char>,
    pub score_milli: u32,
}

impl View for RawSimilarTrack {
    type V = RawSimilarView;

    open spec fn view(&self) -> RawSimilarView {
        RawSimilarView {
            name: opt_view(self.name),
            artist_name: opt_view(self.artist_name),
            match_milli: self.match_milli,
        }
    }
}

impl View for LastFmSimilar {
    type V = LastFmSimilarView;

    open spec fn view(&self) -> LastFmSimilarView {
        LastFmSimilarView { title: self.title@, artist: self.artist@, score_milli: self.score_milli }
    }
}

/// The views of a list of response entries.
pub open spec fn raw_similar_views(s: Seq<RawSimilarTrack>) -> Seq<RawSimilarView> {
    s.map_values(|r: RawSimilarTrack| r@)
}

/// The views of a list of similar tracks.
pub open spec fn similar_views(s: Seq<LastFmSimilar>) -> Seq<LastFmSimilarView> {
    s.map_values(|r: LastFmSimilar| r@)
}

/// A score clamped to `0..=1000`.
pub open spec fn clamp_milli(m: i64) -> u32 {
    if m < 0 {
        0
    } else if m > 1000 {
        1000
    } else {
        m as u32
    }
}

/// The entries that name both a track and an artist, in order, each with
/// its score clamped.
pub open spec fn similar_from_raw(s: Seq<RawSimilarView>) -> Seq<LastFmSimilarView>
    decreases s.len(),
{
    if s.len() == 0 {
        Seq::empty()
    } else {
        let rest = similar_from_raw(s.drop_last());
        match (s.last().name, s.last().artist_name) {
            (Some(n), Some(a)) => rest.push(
                LastFmSimilarView { title: n, artist: a, score_milli: clamp_milli(s.last().match_milli) },
            ),
            _ => rest,
        }
    }
}

/// The similar tracks of a response: none when it has no `similartracks`
/// group, else every entry that names both a track and an artist, in
/// order, with its score clamped to `0..=1000`.
pub fn parse_similar_tracks(group: Option<Vec<RawSimilarTrack>>) -> (r: Vec<LastFmSimilar>)
    ensures
        similar_views(r@) == match group {
            Some(g) => similar_from_raw(raw_similar_views(g@)),
            None => Seq::empty(),
        },
{
    let tracks = match group {
        Some(g) => g,
        None => {
            return Vec::new();
        },
    };
    let ghost a = raw_similar_views(tracks@);
    let mut out: Vec<LastFmSimilar> = Vec::new();
    let mut i: usize = 0;
    while i < tracks.len()
        invariant
            i <= tracks@.len(),
            a == raw_similar_views(tracks@),
            similar_views(out@) == similar_from_raw(a.take(i as int)),
        decreases tracks@.len() - i,
    {
        let ghost q = a.take(i + 1);
        assert(q.drop_last() =~= a.take(i as int));
        assert(q.last() == tracks@[i as int]@);
        let t = &tracks[i];
        match (&t.name, &t.artist_name) {
            (Some(n), Some(ar)) => {
                let score: u32 = if t.match_milli < 0 {
                    0
                } else if t.match_milli > 1000 {
                    1000
                } else {
                    t.match_milli as u32
                };
                out.push(LastFmSimilar { title: n.clone(), artist: ar.clone(), score_milli: score });
                assert(similar_views(out@) =~= similar_from_raw(q));
            },
            _ => {},
        }
        i = i + 1;
    }
    assert(a.take(tracks@.len() as int) =~= a);
    out
}


/// At most this many listens are asked of ListenBrainz at once.
pub const LISTENS_MAX: u32 = 100;

/// What a request for a user's recent listens asks: the trimmed username,
/// the count, the cache key and the URL.
#[derive(Debug)]
pub struct ListensRequest {
    pub username: String,
    pub count: u32,
    pub cache_key: String,
    pub url: String,
}

/// `n` clamped to `1..=100`.
pub open spec fn listens_count(n: u32) -> u32 {
    if n < 1 {
        1
    } else if n > LISTENS_MAX {
        LISTENS_MAX
    } else {
        n
    }
}

/// The request for a user's recent listens: none for a blank username;
/// else the count clamped to `1..=100`, the key
/// `lb:listens:<user>:<count>` and the public listens URL with the
/// username form-urlencoded.
pub fn listens_request(username: &str, limit: u32) -> (r: Option<ListensRequest>)
    ensures
        trim(username@).len() == 0 <==> r is None,
        r matches Some(q) ==> {
            let u = trim(username@);
            let n = listens_count(limit);
            &&& q.username@ == u
            &&& q.count == n
            &&& q.cache_key@ == "lb:listens:"@ + u + ":"@ + decimal(n as nat)
            &&& q.url@ == "https://api.listenbrainz.org/1/user/"@ + form_encode(encode_utf8(u))
                + "/listens?count="@ + decimal(n as nat)
        },
{
    let u = trim_str(username);
    if u.as_str().is_empty() {
        return None;
    }
    let n: u32 = if limit < 1 {
        1
    } else if limit > LISTENS_MAX {
        LISTENS_MAX
    } else {
        limit
    };
    let count = to_decimal(n as u64);
    let k1 = concat("lb:listens:", u.as_str());
    let k2 = concat(k1.as_str(), ":");
    let cache_key = concat(k2.as_str(), count.as_str());
    let a = concat("https://api.listenbrainz.org/1/user/", form_urlencode(u.as_str()).as_str());
    let b = concat(a.as_str(), "/listens?count=");
    let url = concat(b.as_str(), count.as_str());
    Some(ListensRequest { username: u, count: n, cache_key, url })
}

/// One listen as the listens endpoint reports it.
#[derive(Debug)]
pub struct RawListen {
    pub listened_at: u64,
    pub track_name: String,
    pub artist_name: String,
    pub recording_mbid: Option<String>,
    pub listening_from: Option<String>,
    pub music_service: Option<String>,
}

/// One row of the "Listened lately" feed.
#[derive(Debug)]
pub struct Listen {
    pub mbid: Option<String>,
    pub title: String,
    pub artist: String,
    pub listened_at_unix: u64,
    pub source: Option<String>,
}

/// A feed row from a reported listen: its recording MBID, names and time;
/// where it was played from, else the music service.
pub fn listen_from_raw(raw: RawListen) -> (r: Listen)
    ensures
        opt_view(r.mbid) == opt_view(raw.recording_mbid),
        r.title@ == raw.track_name@,
        r.artist@ == raw.artist_name@,
        r.listened_at_unix == raw.listened_at,
        opt_view(r.source) == match raw.listening_from {
            Some(f) => Some(f@),
            None => opt_view(raw.music_service),
        },
{
    let source = match raw.listening_from {
        Some(f) => Some(f),
        None => raw.music_service,
    };
    Listen {
        mbid: raw.recording_mbid,
        title: raw.track_name,
        artist: raw.artist_name,
        listened_at_unix: raw.listened_at,
        source,
    }
}

/// A listen to send to ListenBrainz: "playing_now" without a time, or
/// "single" with the Unix second the listen started.
#[derive(Debug)]
pub struct ListenSubmission {
    pub listen_type: String,
    pub listened_at: Option<u64>,
    pub track_name: String,
    pub artist_name: String,
}

/// What to submit for a track: nothing without a non-blank token; else a
/// "playing_now" listen, or a "single" listen at `listened_at` when given.
pub fn listen_submission(token: &str, title: &str, artist: &str, listened_at: Option<u64>) -> (r: Option<
    ListenSubmission,
>)
    ensures
        trim(token@).len() == 0 <==> r is None,
        r matches Some(l) ==> {
            &&& l.listen_type@ == if listened_at is Some { "single"@ } else { "playing_now"@ }
            &&& l.listened_at == listened_at
            &&& l.track_name@ == title@
            &&& l.artist_name@ == artist@
        },
{
    let t = trim_str(token);
    if t.as_str().is_empty() {
        return None;
    }
    proof {
        reveal_strlit("single");
        reveal_strlit("playing_now");
    }
    let listen_type = match listened_at {
        Some(_) => String::from_str("single"),
        None => String::from_str("playing_now"),
    };
    Some(ListenSubmission {
        listen_type,
        listened_at,
        track_name: title.to_string(),
        artist_name: artist.to_string(),
    })
}

/// The cache key of a ListenBrainz similar-recordings lookup:
/// `lb:similar:<mbid>:<limit>`.
pub fn lb_similar_cache_key(mbid: &str, limit: u32) -> (r: String)
    ensures
        r@ == "lb:similar:"@ + mbid@ + ":"@ + decimal(limit as nat),
{
    let a = concat("lb:similar:", mbid);
    let b = concat(a.as_str(), ":");
    concat(b.as_str(), to_decimal(limit as u64).as_str())
}

} // verus!
