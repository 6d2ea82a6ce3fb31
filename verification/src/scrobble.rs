//! The ListenBrainz scrobble watcher: on each poll of the player it decides
//! whether to announce the track now playing or to submit a listen.
//!
//! A listen counts once the track has played for half its length or four
//! minutes, whichever comes first (four minutes when the length is unknown),
//! and each track is submitted at most once.

use vstd::prelude::*;
use crate::presence::PlayerSnapshot;
use crate::text::{chars_of, concat, str_eq, trim, trim_chars};

verus! {

/// Four minutes, in nanoseconds.
pub const LISTEN_CAP_NS: u64 = 240_000_000_000;

/// What a poll asks the caller to send.
#[derive(Clone, Copy, Debug, PartialEq, Eq, Structural)]
pub enum ScrobbleAction {
    /// Nothing to send.
    Nothing,
    /// A new track started: announce it as playing now.
    PlayingNow,
    /// The track has played long enough: submit one listen that started at
    /// this Unix second.
    Submit { started_at_unix: u64 },
}

/// What the watcher remembers between polls.
pub ghost struct WatcherView {
    pub current_key: Option<Seq<char>>,
    pub started_at_unix: u64,
    pub scrobbled: bool,
}

/// The per-track state of the watcher.
#[derive(Debug)]
pub struct ScrobbleWatcher {
    current_key: Option<String>,
    started_at_unix: u64,
    scrobbled: bool,
}

/// The key a track is followed by: artist, a bar, then title.
pub open spec fn scrobble_key(artist: Seq<char>, title: Seq<char>) -> Seq<char> {
    artist + seq!['|'] + title
}

/// How far into the track a listen counts, in nanoseconds.
pub open spec fn listen_threshold_ns(duration_ns: Option<u64>) -> int {
    let half: int = match duration_ns {
        Some(d) => d as int / 2,
        None => LISTEN_CAP_NS as int,
    };
    if half < LISTEN_CAP_NS as int { half } else { LISTEN_CAP_NS as int }
}

/// A watcher that follows no track.
pub open spec fn fresh_watcher() -> WatcherView {
    WatcherView { current_key: None, started_at_unix: 0, scrobbled: false }
}

/// One poll: the watcher after it and what to send. `token_ok` says a
/// non-blank token is configured; `key` is the key of the track now
/// playing, if any.
pub open spec fn tick_spec(
    w: WatcherView,
    token_ok: bool,
    key: Option<Seq<char>>,
    is_paused: bool,
    position_ns: u64,
    duration_ns: Option<u64>,
    now_unix: u64,
) -> (WatcherView, ScrobbleAction) {
    if !token_ok {
        (fresh_watcher(), ScrobbleAction::Nothing)
    } else {
        match key {
            None => (WatcherView { current_key: None, ..w }, ScrobbleAction::Nothing),
            Some(k) => if w.current_key != Some(k) {
                (
                    WatcherView { current_key: Some(k), started_at_unix: now_unix, scrobbled: false },
                    ScrobbleAction::PlayingNow,
                )
            } else if w.scrobbled || is_paused {
                (w, ScrobbleAction::Nothing)
            } else if position_ns >= listen_threshold_ns(duration_ns) {
                (
                    WatcherView { scrobbled: true, ..w },
                    ScrobbleAction::Submit { started_at_unix: w.started_at_unix },
                )
            } else {
                (w, ScrobbleAction::Nothing)
            },
        }
    }
}

/// Whether a configured token counts: present and not blank.
pub open spec fn token_ok_spec(token: Option<Seq<char>>) -> bool {
    token matches Some(t) && trim(t).len() > 0
}

/// The key of the track a snapshot shows, if any.
pub open spec fn snapshot_key(snap: PlayerSnapshot) -> Option<Seq<char>> {
    match snap.now_playing {
        Some(np) => Some(scrobble_key(np.artist@, np.title@)),
        None => None,
    }
}

impl ScrobbleWatcher {
    /// What the watcher remembers.
    pub closed spec fn view_state(&self) -> WatcherView {
        WatcherView {
            current_key: match self.current_key {
                Some(k) => Some(k@),
                None => None,
            },
            started_at_unix: self.started_at_unix,
            scrobbled: self.scrobbled,
        }
    }

    /// A watcher that follows no track yet.
    pub fn new() -> (r: ScrobbleWatcher)
        ensures
            r.view_state() == fresh_watcher(),
    {
        ScrobbleWatcher { current_key: None, started_at_unix: 0, scrobbled: false }
    }

    /// One poll of the player, with the configured token and the current
    /// Unix second.
    pub fn tick(&mut self, token: &Option<String>, snap: &PlayerSnapshot, now_unix: u64) -> (a: ScrobbleAction)
        ensures
            (final(self).view_state(), a) == tick_spec(
                old(self).view_state(),
                token_ok_spec(match token {
                    Some(t) => Some(t@),
                    None => None,
                }),
                snapshot_key(*snap),
                snap.is_paused,
                snap.position_ns,
                snap.duration_ns,
                now_unix,
            ),
    {
        let token_ok = match token {
            Some(t) => trim_chars(&chars_of(t.as_str())).len() > 0,
            None => false,
        };
        if !token_ok {
            self.current_key = None;
            self.started_at_unix = 0;
            self.scrobbled = false;
            return ScrobbleAction::Nothing;
        }
        let np = match &snap.now_playing {
            Some(np) => np,
            None => {
                self.current_key = None;
                return ScrobbleAction::Nothing;
            },
        };
        let key = concat(concat(np.artist.as_str(), "|").as_str(), np.title.as_str());
        proof {
            reveal_strlit("|");
            assert(key@ =~= scrobble_key(np.artist@, np.title@));
        }
        let same = match &self.current_key {
            Some(k) => str_eq(k.as_str(), key.as_str()),
            None => false,
        };
        if !same {
            self.current_key = Some(key);
            self.started_at_unix = now_unix;
            self.scrobbled = false;
            return ScrobbleAction::PlayingNow;
        }
        if self.scrobbled || snap.is_paused {
            return ScrobbleAction::Nothing;
        }
        let half: u64 = match snap.duration_ns {
            Some(d) => d / 2,
            None => LISTEN_CAP_NS,
        };
        let threshold: u64 = if half < LISTEN_CAP_NS { half } else { LISTEN_CAP_NS };
        if snap.position_ns >= threshold {
            self.scrobbled = true;
            ScrobbleAction::Submit { started_at_unix: self.started_at_unix }
        } else {
            ScrobbleAction::Nothing
        }
    }
}

/// A track is submitted at most once: once a listen went out, later polls
/// of the same track submit nothing more, whatever the position.
pub proof fn law_one_listen_per_track(
    w: WatcherView,
    key: Seq<char>,
    is_paused: bool,
    position_ns: u64,
    duration_ns: Option<u64>,
    now_unix: u64,
    is_paused2: bool,
    position2_ns: u64,
    now2_unix: u64,
)
    requires
        tick_spec(w, true, Some(key), is_paused, position_ns, duration_ns, now_unix).1 is Submit,
    ensures
        tick_spec(
            tick_spec(w, true, Some(key), is_paused, position_ns, duration_ns, now_unix).0,
            true,
            Some(key),
            is_paused2,
            position2_ns,
            duration_ns,
            now2_unix,
        ).1 == ScrobbleAction::Nothing,
{
}

/// A listen is stamped with the second its track started: the poll that
/// first saw the track.
pub proof fn law_listen_starts_when_track_was_first_seen(
    w: WatcherView,
    key: Seq<char>,
    now_unix: u64,
    position_ns: u64,
    duration_ns: Option<u64>,
    later_unix: u64,
)
    requires
        w.current_key != Some(key),
        position_ns >= listen_threshold_ns(duration_ns),
    ensures
        tick_spec(w, true, Some(key), false, 0, duration_ns, now_unix).1 == ScrobbleAction::PlayingNow,
        tick_spec(
            tick_spec(w, true, Some(key), false, 0, duration_ns, now_unix).0,
            true,
            Some(key),
            false,
            position_ns,
            duration_ns,
            later_unix,
        ).1 == (ScrobbleAction::Submit { started_at_unix: now_unix }),
{
}

} // verus!
