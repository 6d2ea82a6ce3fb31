//! Listen-together policy: publish what we play, or follow what the host
//! plays.
//!
//! Anchor, then verify. Two machines playing the same file drift apart only
//! by their crystals, so a guest lines up once and leaves gaps inside the
//! dead zone alone; a slower comparison catches startup latency, stalls and
//! scrubs. Every time here is in nanoseconds.

use vstd::prelude::*;
use crate::matching::{find_strict_match, strictly_same};
use crate::text::{concat, starts_with, str_starts_with};
use crate::track::{AlbumRef, AlbumView, ArtistRef, ArtistView, ProviderId, Track, TrackView, copy_opt_string, opt_view};

verus! {

broadcast use vstd::string::group_string_axioms;

/// Gaps up to this are left alone: nobody can hear them.
pub const DEAD_ZONE_NS: u64 = 100_000_000;

/// A difference between consecutive host announcements that counts as a
/// scrub.
pub const JUMP_THRESHOLD_NS: u64 = 2_000_000_000;

/// How often a following guest compares positions.
pub const COMPARE_NS: u64 = 5_000_000_000;

/// Loop cadence while a session is up.
pub const TICK_NS: u64 = 500_000_000;

/// Floor on how often a correction may be issued.
pub const MIN_CORRECT_GAP_NS: u64 = 2_000_000_000;

/// Corrections that fail to close the gap before the guest stops trying.
pub const FUTILE_LIMIT: u8 = 2;

/// Loop cadence while there is no session.
pub const IDLE_TICK_NS: u64 = 2_000_000_000;

/// Which side of a session this process is on.
#[derive(Clone, Copy, Debug, PartialEq, Eq, Structural)]
pub enum Role {
    Off,
    Host,
    Guest,
}

/// What the host announces: the track, and where it was at `at_ns` (already
/// on the guest's clock).
#[derive(Debug)]
pub struct RemoteNow {
    pub track_uri: String,
    pub artist: String,
    pub title: String,
    pub album_title: Option<String>,
    pub cover_url: Option<String>,
    pub duration_ns: u64,
    pub pos_ns: u64,
    pub at_ns: u64,
    pub playing: bool,
    pub playback_id: u64,
}

/// The distance between two instants.
pub open spec fn gap(a: u64, b: u64) -> nat {
    if a >= b {
        (a - b) as nat
    } else {
        (b - a) as nat
    }
}

/// `a + b`, or `u64::MAX` when that does not fit.
pub open spec fn sat_add(a: u64, b: u64) -> u64 {
    if a + b > u64::MAX {
        u64::MAX
    } else {
        (a + b) as u64
    }
}

/// `a - b`, or zero when `b` is larger.
pub open spec fn sat_sub(a: u64, b: u64) -> u64 {
    if a >= b {
        (a - b) as u64
    } else {
        0
    }
}

/// The distance between two instants.
pub fn abs_diff(a: u64, b: u64) -> (r: u64)
    ensures
        r == gap(a, b),
{
    if a >= b {
        a - b
    } else {
        b - a
    }
}

/// The host's timeline jumped between two announcements: the transport
/// changed, or the new position is more than the jump threshold away from
/// what the previous one predicts (a paused host is predicted not to move).
pub open spec fn host_jumped_spec(prev: (u64, u64, bool), pos: u64, at: u64, playing: bool) -> bool {
    let elapsed = if playing {
        sat_sub(at, prev.1)
    } else {
        0
    };
    prev.2 != playing || gap(pos, sat_add(prev.0, elapsed)) > JUMP_THRESHOLD_NS
}

/// Did the timeline jump between `prev` and a new `(position, time, playing)`?
pub fn timeline_jumped(prev: (u64, u64, bool), pos: u64, at: u64, playing: bool) -> (r: bool)
    ensures
        r == host_jumped_spec(prev, pos, at, playing),
{
    let (prev_pos, prev_at, prev_playing) = prev;
    if prev_playing != playing {
        return true;
    }
    let elapsed = if playing {
        at.saturating_sub(prev_at)
    } else {
        0
    };
    let predicted = prev_pos.saturating_add(elapsed);
    abs_diff(pos, predicted) > JUMP_THRESHOLD_NS
}

/// Did the host's timeline jump since the previous `(position, time,
/// playing)` announcement?
pub fn host_jumped(prev: (u64, u64, bool), now: &RemoteNow) -> (r: bool)
    ensures
        r == host_jumped_spec(prev, now.pos_ns, now.at_ns, now.playing),
{
    timeline_jumped(prev, now.pos_ns, now.at_ns, now.playing)
}

/// A gap is audible, and worth a seek, beyond the dead zone.
pub fn needs_correction(mine_ns: u64, expected_ns: u64) -> (r: bool)
    ensures
        r == (gap(mine_ns, expected_ns) > DEAD_ZONE_NS),
{
    abs_diff(mine_ns, expected_ns) > DEAD_ZONE_NS
}

/// Where the host is at `clock_ns`, extrapolated from its announcement: a
/// playing host moved on by the time since, a paused one did not.
pub open spec fn expected_position_spec(clock_ns: u64, pos: u64, at: u64, playing: bool) -> u64 {
    if playing {
        sat_add(pos, sat_sub(clock_ns, at))
    } else {
        pos
    }
}

/// Extrapolate a `(position, time, playing)` sample to `clock_ns`.
pub fn extrapolate(clock_ns: u64, pos: u64, at: u64, playing: bool) -> (r: u64)
    ensures
        r == expected_position_spec(clock_ns, pos, at, playing),
{
    let elapsed = clock_ns.saturating_sub(at);
    if playing {
        pos.saturating_add(elapsed)
    } else {
        pos
    }
}

/// Where the host is now, given our clock.
pub fn expected_position(clock_ns: u64, now: &RemoteNow) -> (r: u64)
    ensures
        r == expected_position_spec(clock_ns, now.pos_ns, now.at_ns, now.playing),
{
    extrapolate(clock_ns, now.pos_ns, now.at_ns, now.playing)
}

/// The provider whose URIs mean the same track on every machine.
pub open spec fn shared_provider_spec(uri: Seq<char>) -> Option<ProviderId> {
    if starts_with(uri, "soundcloud:"@) {
        Some(ProviderId::SoundCloud)
    } else if starts_with(uri, "spotify:"@) {
        Some(ProviderId::Spotify)
    } else {
        None
    }
}

/// SoundCloud and Spotify URIs address the same track from any machine; a
/// local path does not.
pub fn shared_provider(uri: &str) -> (r: Option<ProviderId>)
    ensures
        r == shared_provider_spec(uri@),
{
    if str_starts_with(uri, "soundcloud:") {
        Some(ProviderId::SoundCloud)
    } else if str_starts_with(uri, "spotify:") {
        Some(ProviderId::Spotify)
    } else {
        None
    }
}

/// The host's track as a local track the strict matcher can compare: its URI,
/// title, artist, album title, cover and duration (whole milliseconds), with
/// empty provider URIs for artist and album.
pub open spec fn match_target_spec(
    uri: Seq<char>,
    artist: Seq<char>,
    title: Seq<char>,
    album_title: Option<Seq<char>>,
    cover_url: Option<Seq<char>>,
    duration_ns: u64,
) -> TrackView {
    TrackView {
        uri,
        title,
        artists: seq![ArtistView { uri: Seq::empty(), name: artist }],
        album: match album_title {
            Some(t) => Some(AlbumView { uri: Seq::empty(), title: t }),
            None => None,
        },
        duration_ms: (duration_ns / 1_000_000) as u64,
        cover_url,
        provider: ProviderId::Local,
        mbid: None,
        added_at_ms: None,
    }
}

impl RemoteNow {
    /// The announcement's track as a matchable value.
    pub open spec fn target_view(&self) -> TrackView {
        match_target_spec(
            self.track_uri@,
            self.artist@,
            self.title@,
            opt_view(self.album_title),
            opt_view(self.cover_url),
            self.duration_ns,
        )
    }
}

/// The host's track, keeping its visual metadata (album title and cover).
pub fn as_match_target(now: &RemoteNow) -> (r: Track)
    ensures
        r@ == now.target_view(),
{
    let album = match &now.album_title {
        Some(t) => Some(AlbumRef { uri: String::new(), title: t.clone() }),
        None => None,
    };
    let mut artists: Vec<ArtistRef> = Vec::new();
    artists.push(ArtistRef { uri: String::new(), name: now.artist.clone() });
    let r = Track {
        uri: now.track_uri.clone(),
        title: now.title.clone(),
        artists,
        album,
        duration_ms: now.duration_ns / 1_000_000,
        cover_url: copy_opt_string(&now.cover_url),
        provider: ProviderId::Local,
        mbid: None,
        added_at_ms: None,
    };
    assert(r@.artists =~= seq![ArtistView { uri: Seq::empty(), name: now.artist@ }]);
    r
}

/// What a guest plays for the host's track: the host's track itself, as a
/// track of the shared provider, when its URI is shared; otherwise the first
/// strict match in our own library; nothing when there is none.
pub fn adopt_choice(target: &RemoteNow, library: &[Track]) -> (r: Option<Track>)
    ensures
        shared_provider_spec(target.track_uri@) matches Some(p) ==> r matches Some(t) && t@
            == (TrackView { provider: p, ..target.target_view() }),
        shared_provider_spec(target.track_uri@) is None ==> match r {
            Some(t) => exists|i: int|
                0 <= i < library@.len() && library@[i]@ == t@ && strictly_same(
                    target.target_view(),
                    library@[i]@,
                ),
            None => forall|j: int|
                0 <= j < library@.len() ==> !strictly_same(
                    target.target_view(),
                    #[trigger] library@[j]@,
                ) || crate::matching::track_match_key_spec(target.target_view()).1.len() == 0,
        },
{
    match shared_provider(target.track_uri.as_str()) {
        Some(p) => {
            let mut t = as_match_target(target);
            t.provider = p;
            Some(t)
        },
        None => {
            let wanted = as_match_target(target);
            match find_strict_match(&wanted, library) {
                Some(found) => Some(found.duplicate()),
                None => None,
            }
        },
    }
}

/// What the host announces for its queue: the entry at the current index
/// (the queue entry, not the player's own now-playing), its first artist,
/// album title and cover, where playback is, and whether it is audibly
/// playing. Nothing when no entry is current. The announcement instant is
/// stamped later, beside the position sample.
pub fn describe(
    entries: &Vec<Track>,
    current_index: Option<usize>,
    is_paused: bool,
    has_source: bool,
    playback_id: u64,
    pos_ns: u64,
) -> (r: Option<RemoteNow>)
    ensures
        match current_index {
            Some(i) if i < entries@.len() => r matches Some(n) && {
                let t = entries@[i as int]@;
                &&& n.track_uri@ == t.uri
                &&& n.artist@ == t.first_artist()
                &&& n.title@ == t.title
                &&& opt_view(n.album_title) == match t.album {
                    Some(a) => Some(a.title),
                    None => None,
                }
                &&& opt_view(n.cover_url) == t.cover_url
                &&& n.duration_ns == sat_mul_million(t.duration_ms)
                &&& n.pos_ns == pos_ns
                &&& n.at_ns == 0
                &&& n.playing == (!is_paused && has_source)
                &&& n.playback_id == playback_id
            },
            _ => r is None,
        },
{
    let i = match current_index {
        Some(i) => i,
        None => {
            return None;
        },
    };
    if i >= entries.len() {
        return None;
    }
    let t = &entries[i];
    let album_title = match &t.album {
        Some(a) => Some(a.title.clone()),
        None => None,
    };
    let duration_ns: u64 = if t.duration_ms <= u64::MAX / 1_000_000 {
        t.duration_ms * 1_000_000
    } else {
        u64::MAX
    };
    Some(RemoteNow {
        track_uri: t.uri.clone(),
        artist: t.first_artist_name(),
        title: t.title.clone(),
        album_title,
        cover_url: copy_opt_string(&t.cover_url),
        duration_ns,
        pos_ns,
        at_ns: 0,
        playing: !is_paused && has_source,
        playback_id,
    })
}

/// Milliseconds as nanoseconds, `u64::MAX` when that does not fit.
pub open spec fn sat_mul_million(ms: u64) -> u64 {
    if ms * 1_000_000 > u64::MAX {
        u64::MAX
    } else {
        (ms * 1_000_000) as u64
    }
}

/// What the guest shows when it cannot play the host's track:
/// "artist — title".
pub fn unmatched_label(target: &RemoteNow) -> (r: String)
    ensures
        r@ == target.artist@ + " — "@ + target.title@,
{
    let a = concat(target.artist.as_str(), " — ");
    concat(a.as_str(), target.title.as_str())
}

/// What one comparison decided.
#[derive(Clone, Copy, Debug, PartialEq, Eq, Structural)]
pub enum CorrectionPlan {
    /// Nothing is loaded: nothing to compare.
    NoSource,
    /// The host plays and we are paused: resume first.
    Resume,
    /// The host is paused and we play: pause first.
    Pause,
    /// Transports agree: the gap, and where to seek when it is audible.
    Compared { gap_ns: u64, seek_to: Option<u64> },
}

/// Compare our position with the host's: settle the transport first, and
/// seek to the host only when the gap is audible.
pub fn plan_correction(
    has_source: bool,
    we_are_paused: bool,
    mine_ns: u64,
    expected_ns: u64,
    host_playing: bool,
) -> (r: CorrectionPlan)
    ensures
        !has_source ==> r == CorrectionPlan::NoSource,
        has_source && host_playing && we_are_paused ==> r == CorrectionPlan::Resume,
        has_source && !host_playing && !we_are_paused ==> r == CorrectionPlan::Pause,
        has_source && host_playing == !we_are_paused ==> r == (CorrectionPlan::Compared {
            gap_ns: gap(mine_ns, expected_ns) as u64,
            seek_to: if gap(mine_ns, expected_ns) > DEAD_ZONE_NS {
                Some(expected_ns)
            } else {
                None
            },
        }),
{
    if !has_source {
        return CorrectionPlan::NoSource;
    }
    let we_are_playing = !we_are_paused;
    if host_playing != we_are_playing {
        if host_playing {
            return CorrectionPlan::Resume;
        } else {
            return CorrectionPlan::Pause;
        }
    }
    let g = abs_diff(mine_ns, expected_ns);
    let seek_to = if needs_correction(mine_ns, expected_ns) {
        Some(expected_ns)
    } else {
        None
    };
    CorrectionPlan::Compared { gap_ns: g, seek_to }
}

/// How long the session loop sleeps before its next look.
pub fn tick_interval_ns(role: Role) -> (r: u64)
    ensures
        r == if role == Role::Off {
            IDLE_TICK_NS
        } else {
            TICK_NS
        },
{
    match role {
        Role::Off => IDLE_TICK_NS,
        _ => TICK_NS,
    }
}

/// What the host announced, as far as following it needs.
#[derive(Clone, Copy, Debug, PartialEq, Eq, Structural)]
pub struct Announcement {
    pub playback_id: u64,
    pub pos_ns: u64,
    pub at_ns: u64,
    pub playing: bool,
}

/// What one look at the session shows.
#[derive(Clone, Copy, Debug, PartialEq, Eq, Structural)]
pub struct FollowTick {
    pub role: Role,
    /// The host stopped playing.
    pub stopped: bool,
    pub target: Option<Announcement>,
    /// Our player has a decoded source to seek in.
    pub has_source: bool,
    /// Our clock.
    pub now_ns: u64,
}

/// What the session loop does after a look.
#[derive(Clone, Copy, Debug, PartialEq, Eq, Structural)]
pub enum FollowAction {
    /// Nothing this tick.
    Idle,
    /// Host: announce what we play.
    Publish,
    /// No session: clear any "cannot play" notice.
    ClearUnmatched,
    /// The host stopped: stop our queue.
    StopQueue,
    /// A new host playback: load our own copy.
    Adopt,
    /// Our copy is up: seek to the host's position.
    Align(u64),
    /// Time to compare positions and maybe correct.
    Correct,
}

/// What a guest remembers between looks.
#[derive(Clone, Copy, Debug)]
pub struct FollowState {
    /// The host playback we last lined up with.
    pub anchored: Option<u64>,
    /// Time since the last comparison.
    pub since_compare_ns: u64,
    /// We adopted a track and have not seeked to the host yet.
    pub pending_align: bool,
    /// The host's last `(position, time, playing)`.
    pub last_seen: Option<(u64, u64, bool)>,
    /// When we last corrected.
    pub last_correct_ns: u64,
    /// The gap the last comparison measured.
    pub last_err_ns: Option<u64>,
    /// Corrections in a row that did not close the gap.
    pub futile: u8,
    /// We already stopped for a stopped host.
    pub host_stopped: bool,
}

impl FollowState {
    /// Nothing anchored, nothing seen.
    pub fn new() -> (r: FollowState)
        ensures
            r.anchored is None && r.since_compare_ns == 0 && !r.pending_align && r.last_seen is None
                && r.last_correct_ns == 0 && r.last_err_ns is None && r.futile == 0
                && !r.host_stopped,
    {
        FollowState {
            anchored: None,
            since_compare_ns: 0,
            pending_align: false,
            last_seen: None,
            last_correct_ns: 0,
            last_err_ns: None,
            futile: 0,
            host_stopped: false,
        }
    }

    /// One look at the session: what to do, and what to remember.
    ///
    /// A host announces and forgets any anchor; without a session the notice
    /// is cleared. A guest stops once for a stopped host; adopts each new
    /// host playback once; seeks to the host once its copy is up; and
    /// otherwise compares on a jump of the host's timeline or every
    /// comparison period, unless corrections proved futile or the last one
    /// was too recent.
    pub fn step(&mut self, tick: &FollowTick) -> (a: FollowAction)
        ensures
            tick.role == Role::Host ==> a == FollowAction::Publish && *final(self) == (FollowState {
                anchored: None,
                host_stopped: false,
                ..*old(self)
            }),
            tick.role == Role::Off ==> a == FollowAction::ClearUnmatched && *final(self) == (
            FollowState { anchored: None, host_stopped: false, ..*old(self) }),
            tick.role == Role::Guest && tick.stopped ==> if old(self).host_stopped {
                a == FollowAction::Idle && *final(self) == *old(self)
            } else {
                a == FollowAction::StopQueue && *final(self) == (FollowState {
                    anchored: None,
                    pending_align: false,
                    last_seen: None,
                    host_stopped: true,
                    ..*old(self)
                })
            },
            tick.role == Role::Guest && !tick.stopped ==> match tick.target {
                None => a == FollowAction::Idle && *final(self) == (FollowState {
                    host_stopped: false,
                    ..*old(self)
                }),
                Some(t) => if old(self).anchored != Some(t.playback_id) {
                    a == FollowAction::Adopt && *final(self) == (FollowState {
                        anchored: Some(t.playback_id),
                        since_compare_ns: 0,
                        last_seen: None,
                        last_err_ns: None,
                        futile: 0,
                        host_stopped: false,
                        ..*old(self)
                    })
                } else if old(self).pending_align {
                    if tick.has_source {
                        a == FollowAction::Align(
                            expected_position_spec(tick.now_ns, t.pos_ns, t.at_ns, t.playing),
                        ) && *final(self) == (FollowState {
                            pending_align: false,
                            since_compare_ns: 0,
                            host_stopped: false,
                            ..*old(self)
                        })
                    } else {
                        a == FollowAction::Idle && *final(self) == (FollowState {
                            host_stopped: false,
                            ..*old(self)
                        })
                    }
                } else {
                    let jumped = match old(self).last_seen {
                        Some(p) => host_jumped_spec(p, t.pos_ns, t.at_ns, t.playing),
                        None => false,
                    };
                    let since = sat_add(old(self).since_compare_ns, TICK_NS);
                    let seen = FollowState {
                        last_seen: Some((t.pos_ns, t.at_ns, t.playing)),
                        since_compare_ns: since,
                        host_stopped: false,
                        ..*old(self)
                    };
                    if (!jumped && since < COMPARE_NS) || old(self).futile >= FUTILE_LIMIT
                        || sat_sub(tick.now_ns, old(self).last_correct_ns) < MIN_CORRECT_GAP_NS {
                        a == FollowAction::Idle && *final(self) == seen
                    } else {
                        a == FollowAction::Correct && *final(self) == (FollowState {
                            since_compare_ns: 0,
                            last_correct_ns: tick.now_ns,
                            ..seen
                        })
                    }
                },
            },
    {
        match tick.role {
            Role::Host => {
                self.anchored = None;
                self.host_stopped = false;
                FollowAction::Publish
            },
            Role::Off => {
                self.anchored = None;
                self.host_stopped = false;
                FollowAction::ClearUnmatched
            },
            Role::Guest => {
                if tick.stopped {
                    if !self.host_stopped {
                        self.anchored = None;
                        self.pending_align = false;
                        self.last_seen = None;
                        self.host_stopped = true;
                        return FollowAction::StopQueue;
                    }
                    return FollowAction::Idle;
                }
                self.host_stopped = false;
                let t = match tick.target {
                    Some(t) => t,
                    None => {
                        return FollowAction::Idle;
                    },
                };
                if self.anchored != Some(t.playback_id) {
                    self.anchored = Some(t.playback_id);
                    self.since_compare_ns = 0;
                    self.last_seen = None;
                    self.last_err_ns = None;
                    self.futile = 0;
                    return FollowAction::Adopt;
                }
                if self.pending_align {
                    if tick.has_source {
                        let to = extrapolate(tick.now_ns, t.pos_ns, t.at_ns, t.playing);
                        self.pending_align = false;
                        self.since_compare_ns = 0;
                        return FollowAction::Align(to);
                    }
                    return FollowAction::Idle;
                }
                let jumped = match self.last_seen {
                    Some(p) => timeline_jumped(p, t.pos_ns, t.at_ns, t.playing),
                    None => false,
                };
                self.last_seen = Some((t.pos_ns, t.at_ns, t.playing));
                self.since_compare_ns = self.since_compare_ns.saturating_add(TICK_NS);
                if !jumped && self.since_compare_ns < COMPARE_NS {
                    return FollowAction::Idle;
                }
                if self.futile >= FUTILE_LIMIT {
                    return FollowAction::Idle;
                }
                if tick.now_ns.saturating_sub(self.last_correct_ns) < MIN_CORRECT_GAP_NS {
                    return FollowAction::Idle;
                }
                self.since_compare_ns = 0;
                self.last_correct_ns = tick.now_ns;
                FollowAction::Correct
            },
        }
    }

    /// After adopting: align once our copy plays; nothing to align when we
    /// could not play the host's track.
    pub fn adopted(&mut self, playing: bool)
        ensures
            *final(self) == (FollowState { pending_align: playing, ..*old(self) }),
    {
        self.pending_align = playing;
    }

    /// After a comparison that measured `err`: a correction that did not
    /// shrink the gap by a quarter or more counts as futile, anything else
    /// resets the count. Returns whether the guest just gave up.
    pub fn corrected(&mut self, err: Option<u64>) -> (gave_up: bool)
        ensures
            (match (old(self).last_err_ns, err) {
                (Some(prev), Some(cur)) => cur >= prev - prev / 4,
                _ => false,
            }) ==> final(self).futile == if old(self).futile == u8::MAX {
                u8::MAX
            } else {
                (old(self).futile + 1) as u8
            } && gave_up == (final(self).futile >= FUTILE_LIMIT),
            !(match (old(self).last_err_ns, err) {
                (Some(prev), Some(cur)) => cur >= prev - prev / 4,
                _ => false,
            }) ==> final(self).futile == 0 && !gave_up,
            final(self).last_err_ns == err,
            *final(self) == (FollowState { futile: final(self).futile, last_err_ns: err, ..*old(self) }),
    {
        let mut gave_up = false;
        let futile_now = match (self.last_err_ns, err) {
            (Some(prev), Some(cur)) => cur >= prev - prev / 4,
            _ => false,
        };
        if futile_now {
            self.futile = self.futile.saturating_add(1);
            gave_up = self.futile >= FUTILE_LIMIT;
        } else {
            self.futile = 0;
        }
        self.last_err_ns = err;
        gave_up
    }
}

/// What the session badge says: "Session ready" for a host and
/// "Connecting…" for a guest while nobody else is there; otherwise
/// "Streaming" or "Connected" "with" the peers joined by ", ", a host with
/// several peers also counting them ("… with N people · …").
pub open spec fn indicator_copy_spec(is_host: bool, peers: Seq<Seq<char>>, streaming: bool) -> Seq<char> {
    if peers.len() == 0 {
        if is_host {
            "Session ready"@
        } else {
            "Connecting…"@
        }
    } else {
        let state = if streaming {
            "Streaming"@
        } else {
            "Connected"@
        };
        if is_host && peers.len() > 1 {
            state + " with "@ + crate::config::decimal(peers.len()) + " people · "@
                + crate::enrichment::joined_strings(peers)
        } else {
            state + " with "@ + crate::enrichment::joined_strings(peers)
        }
    }
}

/// The session badge text.
pub fn together_indicator_copy(is_host: bool, peers: &Vec<String>, streaming: bool) -> (r: String)
    ensures
        r@ == indicator_copy_spec(is_host, crate::text::string_views(peers@), streaming),
{
    if peers.len() == 0 {
        return if is_host {
            "Session ready".to_string()
        } else {
            "Connecting…".to_string()
        };
    }
    let state = if streaming {
        "Streaming"
    } else {
        "Connected"
    };
    let names = crate::enrichment::join_strings(peers);
    let a = concat(state, " with ");
    if is_host && peers.len() > 1 {
        let n = crate::config::to_decimal(peers.len() as u64);
        let b = concat(a.as_str(), n.as_str());
        let c = concat(b.as_str(), " people · ");
        concat(c.as_str(), names.as_str())
    } else {
        concat(a.as_str(), names.as_str())
    }
}

/// Largest gap, in milliseconds, a guest still calls "in sync".
pub const IN_SYNC_GAP_MS: u64 = 750;

/// How a guest's sync looks: "Not in sync" when the host's track is not
/// ours; "Syncing" while loading, without a source, or with an unknown or
/// too large gap; else "In sync".
pub fn guest_sync_label(has_source: bool, loading: bool, unavailable: bool, gap_ms: Option<u64>) -> (r: &'static str)
    ensures
        r@ == if unavailable {
            "Not in sync"@
        } else if loading || !has_source || (match gap_ms {
            Some(g) => g > IN_SYNC_GAP_MS,
            None => true,
        }) {
            "Syncing"@
        } else {
            "In sync"@
        },
{
    if unavailable {
        "Not in sync"
    } else if loading || !has_source || match gap_ms {
        Some(g) => g > IN_SYNC_GAP_MS,
        None => true,
    } {
        "Syncing"
    } else {
        "In sync"
    }
}

/// Steady playback is no jump: a playing host whose position advanced by
/// exactly the time between announcements (and a paused host that did not
/// move) keeps the same transport and reads as continuous.
pub proof fn law_steady_playback_is_not_a_jump(prev_pos: u64, prev_at: u64, pos: u64, at: u64, playing: bool)
    requires
        at >= prev_at,
        playing ==> pos == prev_pos + (at - prev_at),
        !playing ==> pos == prev_pos,
    ensures
        !host_jumped_spec((prev_pos, prev_at, playing), pos, at, playing),
{
}

/// A transport change always counts as a jump.
pub proof fn law_transport_change_is_a_jump(prev: (u64, u64, bool), pos: u64, at: u64, playing: bool)
    requires
        prev.2 != playing,
    ensures
        host_jumped_spec(prev, pos, at, playing),
{
}

/// Whether a gap needs correcting does not depend on which side is ahead.
pub proof fn law_correction_is_symmetric(a: u64, b: u64)
    ensures
        (gap(a, b) > DEAD_ZONE_NS) == (gap(b, a) > DEAD_ZONE_NS),
{
}

/// A paused host has not moved since its announcement; a playing one has
/// moved on by the time since (none when the clock reads earlier than the
/// announcement), stopping at the largest position.
pub proof fn law_paused_host_stays_put(clock_ns: u64, pos: u64, at: u64)
    ensures
        expected_position_spec(clock_ns, pos, at, false) == pos,
        clock_ns <= at ==> expected_position_spec(clock_ns, pos, at, true) == pos,
        clock_ns > at && pos + (clock_ns - at) <= u64::MAX ==> expected_position_spec(clock_ns, pos, at, true)
            == pos + (clock_ns - at),
        clock_ns > at && pos + (clock_ns - at) > u64::MAX ==> expected_position_spec(clock_ns, pos, at, true)
            == u64::MAX,
{
}

} // verus!
