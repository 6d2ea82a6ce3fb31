//! Discord Rich Presence: what to show for the player, when a refresh is
//! worth one of Discord's few updates, and the connection state the settings
//! page shows. Positions and durations are nanoseconds; instants are
//! nanoseconds on a monotonic clock.

use vstd::prelude::*;
use std::collections::VecDeque;
use crate::text::{str_eq, str_starts_with, starts_with};
use crate::track::{copy_opt_string, opt_view};

verus! {

broadcast use vstd::std_specs::vecdeque::group_vec_dequeue_axioms;

/// How often the presence loop looks at the player.
pub const POLL_INTERVAL_NS: u64 = 500_000_000;

/// How long to wait between connection attempts.
pub const RETRY_INTERVAL_NS: u64 = 5_000_000_000;

/// An unchanged presence is re-sent this often.
pub const HEARTBEAT_INTERVAL_NS: u64 = 15_000_000_000;

/// A position this far from where steady playback puts it is a seek.
pub const SEEK_DRIFT_NS: u64 = 2_000_000_000;

/// Discord allows this many updates ...
pub const MAX_UPDATES_PER_WINDOW: usize = 5;

/// ... per this window.
pub const UPDATE_WINDOW_NS: u64 = 20_000_000_000;

/// What the player reports as playing.
#[derive(Debug)]
pub struct NowPlaying {
    pub title: String,
    pub artist: String,
    pub album: Option<String>,
    pub cover_url: Option<String>,
    pub source_label: String,
    pub provider: String,
    pub track_uri: Option<String>,
}

/// The part of the player's state the presence is built from.
#[derive(Debug)]
pub struct PlayerSnapshot {
    pub is_paused: bool,
    pub position_ns: u64,
    pub duration_ns: Option<u64>,
    pub has_source: bool,
    pub now_playing: Option<NowPlaying>,
    pub playback_id: u64,
}

/// What the presence shows.
#[derive(Debug)]
pub struct Presence {
    pub title: String,
    pub artist: String,
    pub album: Option<String>,
    pub cover_url: Option<String>,
    pub is_paused: bool,
    pub position_ns: u64,
    pub duration_ns: Option<u64>,
    pub playback_id: u64,
}

/// A presence as mathematical values.
pub ghost struct PresenceView {
    pub title: Seq<char>,
    pub artist: Seq<char>,
    pub album: Option<Seq<char>>,
    pub cover_url: Option<Seq<char>>,
    pub is_paused: bool,
    pub position_ns: u64,
    pub duration_ns: Option<u64>,
    pub playback_id: u64,
}

impl View for Presence {
    type V = PresenceView;

    open spec fn view(&self) -> PresenceView {
        PresenceView {
            title: self.title@,
            artist: self.artist@,
            album: opt_view(self.album),
            cover_url: opt_view(self.cover_url),
            is_paused: self.is_paused,
            position_ns: self.position_ns,
            duration_ns: self.duration_ns,
            playback_id: self.playback_id,
        }
    }
}

/// A cover Discord can fetch: an `https://` or `http://` URL.
pub open spec fn is_web_url(url: Seq<char>) -> bool {
    starts_with(url, "https://"@) || starts_with(url, "http://"@)
}

/// The presence of a snapshot: none unless something is playing from a
/// loaded source; a cover only when it is a web URL.
pub open spec fn presence_of(s: PlayerSnapshot) -> Option<PresenceView> {
    match s.now_playing {
        Some(np) => if s.has_source {
            Some(
                PresenceView {
                    title: np.title@,
                    artist: np.artist@,
                    album: opt_view(np.album),
                    cover_url: match np.cover_url {
                        Some(u) => if is_web_url(u@) {
                            Some(u@)
                        } else {
                            None
                        },
                        None => None,
                    },
                    is_paused: s.is_paused,
                    position_ns: s.position_ns,
                    duration_ns: s.duration_ns,
                    playback_id: s.playback_id,
                },
            )
        } else {
            None
        },
        None => None,
    }
}

/// The view of an optional presence.
pub open spec fn opt_presence_view(p: Option<Presence>) -> Option<PresenceView> {
    match p {
        Some(x) => Some(x@),
        None => None,
    }
}

/// Whether two optional strings hold the same characters.
pub fn opt_str_eq(a: &Option<String>, b: &Option<String>) -> (r: bool)
    ensures
        r == (opt_view(*a) == opt_view(*b)),
{
    match (a, b) {
        (Some(x), Some(y)) => str_eq(x.as_str(), y.as_str()),
        (None, None) => true,
        _ => false,
    }
}

/// Whether two optional durations are equal.
fn opt_u64_eq(a: Option<u64>, b: Option<u64>) -> (r: bool)
    ensures
        r == (a == b),
{
    match (a, b) {
        (Some(x), Some(y)) => x == y,
        (None, None) => true,
        _ => false,
    }
}

impl Presence {
    /// The presence of a player snapshot.
    pub fn from_snapshot(snapshot: &PlayerSnapshot) -> (r: Option<Presence>)
        ensures
            opt_presence_view(r) == presence_of(*snapshot),
    {
        let np = match &snapshot.now_playing {
            Some(np) => np,
            None => {
                return None;
            },
        };
        if !snapshot.has_source {
            return None;
        }
        let cover_url = match &np.cover_url {
            Some(u) => if str_starts_with(u.as_str(), "https://") || str_starts_with(
                u.as_str(),
                "http://",
            ) {
                Some(u.clone())
            } else {
                None
            },
            None => None,
        };
        Some(
            Presence {
                title: np.title.clone(),
                artist: np.artist.clone(),
                album: copy_opt_string(&np.album),
                cover_url,
                is_paused: snapshot.is_paused,
                position_ns: snapshot.position_ns,
                duration_ns: snapshot.duration_ns,
                playback_id: snapshot.playback_id,
            },
        )
    }

    /// A field-for-field copy.
    pub fn duplicate(&self) -> (r: Presence)
        ensures
            r@ == self@,
    {
        Presence {
            title: self.title.clone(),
            artist: self.artist.clone(),
            album: copy_opt_string(&self.album),
            cover_url: copy_opt_string(&self.cover_url),
            is_paused: self.is_paused,
            position_ns: self.position_ns,
            duration_ns: self.duration_ns,
            playback_id: self.playback_id,
        }
    }

    /// What Discord is asked to show at `now_ms` (Unix milliseconds).
    pub fn activity(&self, now_ms: i64) -> (r: ActivityPlan)
        ensures
            r.details@ == self.title@,
            r.state@ == self.artist@,
            opt_view(r.large_image) == opt_view(self.cover_url),
            opt_view(r.large_text) == if self.cover_url is Some {
                opt_view(self.album)
            } else {
                None
            },
            r.timestamps == match self.duration_ns {
                Some(d) => if !self.is_paused {
                    Some(playing_span(now_ms, self.position_ns, d))
                } else {
                    None
                },
                None => None,
            },
    {
        let (large_image, large_text) = match &self.cover_url {
            Some(u) => (Some(u.clone()), copy_opt_string(&self.album)),
            None => (None, None),
        };
        let timestamps = match self.duration_ns {
            Some(d) => if !self.is_paused {
                let pos = if self.position_ns < d {
                    self.position_ns
                } else {
                    d
                };
                let start = sat_sub_i64(now_ms, millis(pos));
                Some((start, sat_add_i64(start, millis(d))))
            } else {
                None
            },
            None => None,
        };
        ActivityPlan {
            details: self.title.clone(),
            state: self.artist.clone(),
            large_image,
            large_text,
            timestamps,
        }
    }
}

/// A "listening to" activity: title as details, artist as state, the cover
/// with the album as its caption, and a start/end span (Unix milliseconds)
/// while playing.
#[derive(Debug)]
pub struct ActivityPlan {
    pub details: String,
    pub state: String,
    pub large_image: Option<String>,
    pub large_text: Option<String>,
    pub timestamps: Option<(i64, i64)>,
}

/// Whole milliseconds of a nanosecond span.
pub open spec fn millis_spec(ns: u64) -> i64 {
    (ns / 1_000_000) as i64
}

/// Whole milliseconds of a nanosecond span.
pub fn millis(ns: u64) -> (r: i64)
    ensures
        r == millis_spec(ns),
        r >= 0,
{
    (ns / 1_000_000) as i64
}

/// `a - b` clamped to the range of `i64`.
pub open spec fn sat_sub_i64_spec(a: i64, b: i64) -> i64 {
    if a - b < i64::MIN {
        i64::MIN
    } else if a - b > i64::MAX {
        i64::MAX
    } else {
        (a - b) as i64
    }
}

/// `a + b` clamped to the range of `i64`.
pub open spec fn sat_add_i64_spec(a: i64, b: i64) -> i64 {
    if a + b < i64::MIN {
        i64::MIN
    } else if a + b > i64::MAX {
        i64::MAX
    } else {
        (a + b) as i64
    }
}

/// `a - b` clamped to the range of `i64`.
pub fn sat_sub_i64(a: i64, b: i64) -> (r: i64)
    ensures
        r == sat_sub_i64_spec(a, b),
{
    let x: i128 = a as i128 - b as i128;
    if x < i64::MIN as i128 {
        i64::MIN
    } else if x > i64::MAX as i128 {
        i64::MAX
    } else {
        x as i64
    }
}

/// `a + b` clamped to the range of `i64`.
pub fn sat_add_i64(a: i64, b: i64) -> (r: i64)
    ensures
        r == sat_add_i64_spec(a, b),
{
    let x: i128 = a as i128 + b as i128;
    if x < i64::MIN as i128 {
        i64::MIN
    } else if x > i64::MAX as i128 {
        i64::MAX
    } else {
        x as i64
    }
}

/// The span a playing track covers: it started the position (capped at the
/// duration) ago and ends a duration after that.
pub open spec fn playing_span(now_ms: i64, position_ns: u64, duration_ns: u64) -> (i64, i64) {
    let pos = if position_ns < duration_ns {
        position_ns
    } else {
        duration_ns
    };
    let start = sat_sub_i64_spec(now_ms, millis_spec(pos));
    (start, sat_add_i64_spec(start, millis_spec(duration_ns)))
}

/// `a + b`, or `u64::MAX` when that does not fit.
pub open spec fn sat_add_u64(a: u64, b: u64) -> u64 {
    if a + b > u64::MAX {
        u64::MAX
    } else {
        (a + b) as u64
    }
}

/// `a - b`, or zero when `b` is larger.
pub open spec fn sat_sub_u64(a: u64, b: u64) -> u64 {
    if a >= b {
        (a - b) as u64
    } else {
        0
    }
}

/// The distance between two instants.
pub open spec fn gap(a: u64, b: u64) -> nat {
    if a >= b {
        (a - b) as nat
    } else {
        (b - a) as nat
    }
}

/// A new presence needs sending when anything it shows changed, or when a
/// playing track's position is more than the seek drift away from where
/// steady playback since the last one puts it.
pub open spec fn refresh_needed_spec(prev: PresenceView, elapsed_ns: u64, cur: PresenceView) -> bool {
    ||| prev.title != cur.title
    ||| prev.artist != cur.artist
    ||| prev.album != cur.album
    ||| prev.cover_url != cur.cover_url
    ||| prev.is_paused != cur.is_paused
    ||| prev.duration_ns != cur.duration_ns
    ||| prev.playback_id != cur.playback_id
    ||| (!cur.is_paused && gap(sat_add_u64(prev.position_ns, elapsed_ns), cur.position_ns)
        > SEEK_DRIFT_NS)
}

/// Whether `current` differs from what was sent `elapsed_ns` ago enough to
/// send it again.
pub fn refresh_needed(previous: &Presence, elapsed_ns: u64, current: &Presence) -> (r: bool)
    ensures
        r == refresh_needed_spec(previous@, elapsed_ns, current@),
{
    if !str_eq(previous.title.as_str(), current.title.as_str()) || !str_eq(
        previous.artist.as_str(),
        current.artist.as_str(),
    ) || !opt_str_eq(&previous.album, &current.album) || !opt_str_eq(
        &previous.cover_url,
        &current.cover_url,
    ) || previous.is_paused != current.is_paused || !opt_u64_eq(
        previous.duration_ns,
        current.duration_ns,
    ) || previous.playback_id != current.playback_id {
        return true;
    }
    let predicted = previous.position_ns.saturating_add(elapsed_ns);
    let drift = if predicted >= current.position_ns {
        predicted - current.position_ns
    } else {
        current.position_ns - predicted
    };
    !current.is_paused && drift > SEEK_DRIFT_NS
}

/// The index of the first send still inside the window at `now_ns`.
pub open spec fn first_in_window(sent: Seq<u64>, now_ns: u64) -> int
    decreases sent.len(),
{
    if sent.len() == 0 {
        0
    } else if sat_sub_u64(now_ns, sent[0]) >= UPDATE_WINDOW_NS {
        1 + first_in_window(sent.drop_first(), now_ns)
    } else {
        0
    }
}

proof fn lemma_first_in_window_bounds(sent: Seq<u64>, now_ns: u64)
    ensures
        0 <= first_in_window(sent, now_ns) <= sent.len(),
    decreases sent.len(),
{
    if sent.len() > 0 && sat_sub_u64(now_ns, sent[0]) >= UPDATE_WINDOW_NS {
        lemma_first_in_window_bounds(sent.drop_first(), now_ns);
    }
}

/// Forget the sends that left the window (from the front, oldest first) and
/// say whether one more update fits in it.
pub fn update_allowed(updates: &mut VecDeque<u64>, now_ns: u64) -> (r: bool)
    ensures
        final(updates)@ == old(updates)@.skip(first_in_window(old(updates)@, now_ns)),
        r == (final(updates)@.len() < MAX_UPDATES_PER_WINDOW),
{
    let ghost orig = updates@;
    let ghost mut k: int = 0;
    proof {
        lemma_first_in_window_bounds(orig, now_ns);
    }
    assert(orig.skip(0) =~= orig);
    while updates.len() > 0 && now_ns.saturating_sub(updates[0]) >= UPDATE_WINDOW_NS
        invariant
            0 <= k <= orig.len(),
            updates@ == orig.skip(k),
            first_in_window(orig, now_ns) == k + first_in_window(orig.skip(k), now_ns),
        decreases updates@.len(),
    {
        let ghost rest = orig.skip(k);
        assert(rest.drop_first() =~= orig.skip(k + 1));
        let _ = updates.pop_front();
        proof {
            k = k + 1;
        }
        assert(updates@ =~= orig.skip(k));
    }
    updates.len() < MAX_UPDATES_PER_WINDOW
}

/// The presence to show: none while the user has it switched off.
pub fn projected_presence(snapshot: &PlayerSnapshot, enabled: bool) -> (r: Option<Presence>)
    ensures
        opt_presence_view(r) == if enabled {
            presence_of(*snapshot)
        } else {
            None
        },
{
    if enabled {
        Presence::from_snapshot(snapshot)
    } else {
        None
    }
}

/// What the presence loop sends this round.
#[derive(Clone, Copy, Debug, PartialEq, Eq, Structural)]
pub enum PresenceAction {
    Nothing,
    Show,
    Clear,
}

/// What the presence loop remembers between rounds.
#[derive(Debug)]
pub struct PresenceLoop {
    pub connected: bool,
    pub last_attempt_ns: u64,
    pub last_sent: Option<(Presence, u64)>,
    pub cleared: bool,
    pub updates: VecDeque<u64>,
}

/// What a send that is not due to change anything leaves: whether a new
/// presence is worth sending.
pub open spec fn needs_set_spec(current: Option<PresenceView>, last: Option<(PresenceView, u64)>, now_ns: u64) -> bool {
    match current {
        Some(p) => match last {
            None => true,
            Some((prev, at)) => sat_sub_u64(now_ns, at) >= HEARTBEAT_INTERVAL_NS
                || refresh_needed_spec(prev, sat_sub_u64(now_ns, at), p),
        },
        None => false,
    }
}

/// The view of what was last sent, and when.
pub open spec fn last_sent_view(l: Option<(Presence, u64)>) -> Option<(PresenceView, u64)> {
    match l {
        Some((p, at)) => Some((p@, at)),
        None => None,
    }
}

impl PresenceLoop {
    /// Not connected; a connection may be tried at once.
    pub fn new(now_ns: u64) -> (r: PresenceLoop)
        ensures
            !r.connected,
            r.last_sent is None,
            !r.cleared,
            r.updates@.len() == 0,
            r.last_attempt_ns == sat_sub_u64(now_ns, RETRY_INTERVAL_NS),
    {
        PresenceLoop {
            connected: false,
            last_attempt_ns: now_ns.saturating_sub(RETRY_INTERVAL_NS),
            last_sent: None,
            cleared: false,
            updates: VecDeque::new(),
        }
    }

    /// Whether to try connecting now: enabled, not connected, and the retry
    /// interval has passed since the last attempt (which this records).
    pub fn should_connect(&mut self, enabled: bool, now_ns: u64) -> (r: bool)
        ensures
            r == (enabled && !old(self).connected && sat_sub_u64(now_ns, old(self).last_attempt_ns)
                >= RETRY_INTERVAL_NS),
            final(self).last_attempt_ns == if r {
                now_ns
            } else {
                old(self).last_attempt_ns
            },
            final(self).connected == old(self).connected,
            final(self).cleared == old(self).cleared,
            last_sent_view(final(self).last_sent) == last_sent_view(old(self).last_sent),
            final(self).updates@ == old(self).updates@,
    {
        if enabled && !self.connected && now_ns.saturating_sub(self.last_attempt_ns)
            >= RETRY_INTERVAL_NS {
            self.last_attempt_ns = now_ns;
            true
        } else {
            false
        }
    }

    /// The connection came up: nothing is known to be shown.
    pub fn connected_ok(&mut self)
        ensures
            final(self).connected,
            final(self).last_sent is None,
            !final(self).cleared,
            final(self).last_attempt_ns == old(self).last_attempt_ns,
            final(self).updates@ == old(self).updates@,
    {
        self.connected = true;
        self.last_sent = None;
        self.cleared = false;
    }

    /// The connection was lost.
    pub fn lost(&mut self)
        ensures
            !final(self).connected,
            final(self).last_sent is None,
            final(self).cleared == old(self).cleared,
            final(self).last_attempt_ns == old(self).last_attempt_ns,
            final(self).updates@ == old(self).updates@,
    {
        self.connected = false;
        self.last_sent = None;
    }

    /// Decide this round: send the presence when it is new, changed or due
    /// for a heartbeat; clear it once when there is none; either only within
    /// Discord's update budget, except that switching presence off clears at
    /// once.
    pub fn plan(&mut self, current: &Option<Presence>, enabled: bool, now_ns: u64) -> (r:
        PresenceAction)
        ensures
            ({
                let needs_set = needs_set_spec(
                    opt_presence_view(*current),
                    last_sent_view(old(self).last_sent),
                    now_ns,
                );
                let needs_clear = current is None && !old(self).cleared;
                let budget = old(self).updates@.skip(first_in_window(old(self).updates@, now_ns));
                let bypass = needs_clear && !enabled;
                let asks = !bypass && (needs_set || needs_clear);
                let can_update = bypass || (asks && budget.len() < MAX_UPDATES_PER_WINDOW);
                &&& final(self).updates@ == if asks {
                    budget
                } else {
                    old(self).updates@
                }
                &&& r == if current is Some && needs_set && can_update {
                    PresenceAction::Show
                } else if current is None && needs_clear && can_update {
                    PresenceAction::Clear
                } else {
                    PresenceAction::Nothing
                }
            }),
            final(self).connected == old(self).connected,
            final(self).cleared == old(self).cleared,
            final(self).last_attempt_ns == old(self).last_attempt_ns,
            last_sent_view(final(self).last_sent) == last_sent_view(old(self).last_sent),
    {
        let needs_set = match current {
            Some(p) => match &self.last_sent {
                None => true,
                Some((prev, at)) => {
                    let elapsed = now_ns.saturating_sub(*at);
                    elapsed >= HEARTBEAT_INTERVAL_NS || refresh_needed(prev, elapsed, p)
                },
            },
            None => false,
        };
        let needs_clear = current.is_none() && !self.cleared;
        let can_update = if needs_clear && !enabled {
            true
        } else if needs_set || needs_clear {
            update_allowed(&mut self.updates, now_ns)
        } else {
            false
        };
        if current.is_some() && needs_set && can_update {
            PresenceAction::Show
        } else if current.is_none() && needs_clear && can_update {
            PresenceAction::Clear
        } else {
            PresenceAction::Nothing
        }
    }

    /// Discord took the presence at `now_ns`.
    pub fn sent(&mut self, presence: Presence, now_ns: u64)
        ensures
            last_sent_view(final(self).last_sent) == Some((presence@, now_ns)),
            !final(self).cleared,
            final(self).updates@ == old(self).updates@.push(now_ns),
            final(self).connected == old(self).connected,
            final(self).last_attempt_ns == old(self).last_attempt_ns,
    {
        self.last_sent = Some((presence, now_ns));
        self.cleared = false;
        self.updates.push_back(now_ns);
    }

    /// Discord cleared the presence at `now_ns`.
    pub fn cleared_ok(&mut self, now_ns: u64)
        ensures
            final(self).last_sent is None,
            final(self).cleared,
            final(self).updates@ == old(self).updates@.push(now_ns),
            final(self).connected == old(self).connected,
            final(self).last_attempt_ns == old(self).last_attempt_ns,
    {
        self.last_sent = None;
        self.cleared = true;
        self.updates.push_back(now_ns);
    }
}

/// Whether Discord presence is off, being connected, connected, or waiting
/// for Discord to come up.
#[derive(Clone, Copy, Debug, PartialEq, Eq, Structural)]
pub enum DiscordConnection {
    Off,
    Connecting,
    Connected,
    Waiting,
}

/// The desired and observed connection: each change of mind bumps the
/// revision, so a status report about an older wish cannot land.
#[derive(Clone, Copy, Debug, PartialEq, Eq, Structural)]
pub struct DiscordRuntime {
    pub enabled: bool,
    pub revision: u64,
    pub connection: DiscordConnection,
}

/// The revision after `r`, wrapping.
pub open spec fn next_revision(r: u64) -> u64 {
    if r == u64::MAX {
        0
    } else {
        (r + 1) as u64
    }
}

/// The runtime after the user switched presence on.
pub open spec fn connect_spec(rt: DiscordRuntime) -> DiscordRuntime {
    DiscordRuntime {
        enabled: true,
        revision: next_revision(rt.revision),
        connection: DiscordConnection::Connecting,
    }
}

/// The runtime after the user switched presence off.
pub open spec fn disconnect_spec(rt: DiscordRuntime) -> DiscordRuntime {
    DiscordRuntime {
        enabled: false,
        revision: next_revision(rt.revision),
        connection: DiscordConnection::Off,
    }
}

/// The runtime after a status observed under `revision` was reported: it
/// lands only when that is still the current revision.
pub open spec fn with_status(rt: DiscordRuntime, revision: u64, c: DiscordConnection) -> DiscordRuntime {
    if rt.revision == revision {
        DiscordRuntime { connection: c, ..rt }
    } else {
        rt
    }
}

impl DiscordRuntime {
    /// Revision zero; connecting when enabled, off otherwise.
    pub fn new(enabled: bool) -> (r: DiscordRuntime)
        ensures
            r == (DiscordRuntime {
                enabled,
                revision: 0,
                connection: if enabled {
                    DiscordConnection::Connecting
                } else {
                    DiscordConnection::Off
                },
            }),
    {
        DiscordRuntime {
            enabled,
            revision: 0,
            connection: if enabled {
                DiscordConnection::Connecting
            } else {
                DiscordConnection::Off
            },
        }
    }

    /// The user switched presence on.
    pub fn connect(&mut self)
        ensures
            *final(self) == connect_spec(*old(self)),
    {
        self.enabled = true;
        self.revision = self.revision.wrapping_add(1);
        self.connection = DiscordConnection::Connecting;
    }

    /// The user switched presence off.
    pub fn disconnect(&mut self)
        ensures
            *final(self) == disconnect_spec(*old(self)),
    {
        self.enabled = false;
        self.revision = self.revision.wrapping_add(1);
        self.connection = DiscordConnection::Off;
    }

    /// The bridge reports a status observed under `revision`; it lands only
    /// when that is still the current revision.
    pub fn set_connection(&mut self, revision: u64, connection: DiscordConnection)
        ensures
            *final(self) == with_status(*old(self), revision, connection),
    {
        if self.revision == revision {
            self.connection = connection;
        }
    }
}

/// A status stamped before the latest change of mind never lands: after
/// `connect` or `disconnect`, a report under the earlier revision leaves the
/// runtime as that change left it; and each change moves the revision.
pub proof fn law_stale_status_cannot_land(rt: DiscordRuntime, c: DiscordConnection)
    ensures
        with_status(connect_spec(rt), rt.revision, c) == connect_spec(rt),
        with_status(disconnect_spec(rt), rt.revision, c) == disconnect_spec(rt),
        connect_spec(rt).revision != rt.revision,
        disconnect_spec(rt).revision != rt.revision,
{
}

/// A status reported under the current revision is what the runtime shows.
pub proof fn law_current_status_lands(rt: DiscordRuntime, c: DiscordConnection)
    ensures
        with_status(rt, rt.revision, c).connection == c,
        with_status(rt, rt.revision, c).enabled == rt.enabled,
        with_status(rt, rt.revision, c).revision == rt.revision,
{
}

/// A change of anything the presence shows (title, artist, album, cover,
/// pause, duration, playback) needs a refresh; an unchanged paused
/// presence does not.
pub proof fn law_shown_change_needs_refresh(prev: PresenceView, elapsed_ns: u64, cur: PresenceView)
    ensures
        prev.is_paused != cur.is_paused ==> refresh_needed_spec(prev, elapsed_ns, cur),
        prev.title != cur.title ==> refresh_needed_spec(prev, elapsed_ns, cur),
        prev.artist != cur.artist ==> refresh_needed_spec(prev, elapsed_ns, cur),
        prev.album != cur.album ==> refresh_needed_spec(prev, elapsed_ns, cur),
        prev.cover_url != cur.cover_url ==> refresh_needed_spec(prev, elapsed_ns, cur),
        prev.duration_ns != cur.duration_ns ==> refresh_needed_spec(prev, elapsed_ns, cur),
        prev.playback_id != cur.playback_id ==> refresh_needed_spec(prev, elapsed_ns, cur),
        prev == cur && cur.is_paused ==> !refresh_needed_spec(prev, elapsed_ns, cur),
{
}

} // verus!
