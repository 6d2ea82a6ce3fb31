//! The desktop media-control surface (MPRIS): playback status, metadata,
//! and how seek and set-position requests map onto the player. Durations
//! and positions from the player are nanoseconds; MPRIS speaks
//! microseconds.

use vstd::prelude::*;
use std::hash::{Hash, Hasher};
use crate::presence::{NowPlaying, PlayerSnapshot};
use crate::text::{concat, string_of};
use crate::track::opt_view;

verus! {

/// What media controls show about the transport.
#[derive(Clone, Copy, Debug, PartialEq, Eq, Structural)]
pub enum PlaybackStatus {
    Stopped,
    Paused,
    Playing,
}

/// Stopped without a source, else paused or playing.
pub fn playback_status(has_source: bool, is_paused: bool) -> (r: PlaybackStatus)
    ensures
        r == if !has_source {
            PlaybackStatus::Stopped
        } else if is_paused {
            PlaybackStatus::Paused
        } else {
            PlaybackStatus::Playing
        },
{
    if !has_source {
        PlaybackStatus::Stopped
    } else if is_paused {
        PlaybackStatus::Paused
    } else {
        PlaybackStatus::Playing
    }
}

/// Whole microseconds of a nanosecond span.
pub open spec fn micros_of(ns: u64) -> int {
    ns as int / 1000
}

/// Whole microseconds of a duration given in nanoseconds.
pub fn duration_micros(duration_ns: u64) -> (r: i128)
    ensures
        r == micros_of(duration_ns),
{
    (duration_ns / 1000) as i128
}

/// A seek target, in microseconds, clamped to `[0, duration]` (no upper
/// bound when the duration is unknown) and to what a `u64` holds.
pub open spec fn clamp_seek_spec(target: i128, duration_ns: Option<u64>) -> u64 {
    let lower = if target < 0 {
        0
    } else {
        target as int
    };
    let upper = match duration_ns {
        Some(d) => if lower <= micros_of(d) {
            lower
        } else {
            micros_of(d)
        },
        None => lower,
    };
    if upper > u64::MAX {
        u64::MAX
    } else {
        upper as u64
    }
}

/// Clamp a seek target into the track.
pub fn clamp_seek_micros(target: i128, duration_ns: Option<u64>) -> (r: u64)
    ensures
        r == clamp_seek_spec(target, duration_ns),
{
    let clamped: i128 = if target < 0 {
        0
    } else {
        target
    };
    let clamped: i128 = match duration_ns {
        Some(d) => {
            let u = duration_micros(d);
            if clamped <= u {
                clamped
            } else {
                u
            }
        },
        None => clamped,
    };
    if clamped > u64::MAX as i128 {
        u64::MAX
    } else {
        clamped as u64
    }
}

/// The player position, in nanoseconds, for a seek to `micros`.
pub fn seek_to_micros(micros: u64) -> (r: u128)
    ensures
        r == micros as int * 1000,
{
    micros as u128 * 1000
}

/// What a relative seek request does.
#[derive(Clone, Copy, Debug, PartialEq, Eq, Structural)]
pub enum SeekPlan {
    /// Nothing is loaded.
    Ignore,
    /// The offset lands past the end: skip to the next track.
    Next,
    /// Seek here, in microseconds.
    SeekTo(u64),
}

/// A relative seek by `offset_micros` from the current position: ignored
/// without a source, the next track when it lands past a known end, and
/// otherwise a seek to the clamped target.
pub fn plan_seek(has_source: bool, position_ns: u64, offset_micros: i64, duration_ns: Option<u64>) -> (r: SeekPlan)
    ensures
        !has_source ==> r == SeekPlan::Ignore,
        has_source ==> {
            let target = micros_of(position_ns) + offset_micros;
            if duration_ns matches Some(d) && target > micros_of(d) {
                r == SeekPlan::Next
            } else {
                r == SeekPlan::SeekTo(clamp_seek_spec(target as i128, duration_ns))
            }
        },
{
    if !has_source {
        return SeekPlan::Ignore;
    }
    let current: i128 = (position_ns / 1000) as i128;
    let target: i128 = current + offset_micros as i128;
    if let Some(d) = duration_ns {
        if target > duration_micros(d) {
            return SeekPlan::Next;
        }
    }
    SeekPlan::SeekTo(clamp_seek_micros(target, duration_ns))
}

/// An absolute set-position request: only for the current track (the ids
/// match) with a source loaded, and not past a known end; the clamped
/// target in microseconds.
pub fn plan_set_position(has_source: bool, same_track: bool, position_micros: i64, duration_ns: Option<u64>) -> (r: Option<u64>)
    ensures
        r == if !has_source || !same_track {
            None
        } else if duration_ns matches Some(d) && position_micros > micros_of(d) {
            None
        } else {
            Some(clamp_seek_spec(position_micros as i128, duration_ns))
        },
{
    if !has_source || !same_track {
        return None;
    }
    let target = position_micros as i128;
    if let Some(d) = duration_ns {
        if target > duration_micros(d) {
            return None;
        }
    }
    Some(clamp_seek_micros(target, duration_ns))
}

/// The result of hashing a track's provider, source label, artist and
/// title, in that order, with std's default hasher.
pub uninterp spec fn identity_hash(provider: Seq<char>, source_label: Seq<char>, artist: Seq<char>, title: Seq<char>) -> u64;

/// Hash a track's identity with `std::collections::hash_map::DefaultHasher`
/// (its fixed-key `new`), feeding provider, source label, artist and title in
/// that order. The contract only names the result: the same four strings
/// give the same hash.
#[verifier::external_body]
fn hash_identity(provider: &str, source_label: &str, artist: &str, title: &str) -> (r: u64)
    ensures
        r == identity_hash(provider@, source_label@, artist@, title@),
{
    let mut hasher = std::collections::hash_map::DefaultHasher::new();
    provider.hash(&mut hasher);
    source_label.hash(&mut hasher);
    artist.hash(&mut hasher);
    title.hash(&mut hasher);
    hasher.finish()
}

/// The lowercase hexadecimal digit of `d < 16`.
pub open spec fn hex_char(d: nat) -> char {
    if d < 10 {
        ((48 + d) as u32) as char
    } else {
        ((87 + d) as u32) as char
    }
}

/// The last `n` hexadecimal digits of `h`, most significant first.
pub open spec fn hex_digits(h: nat, n: nat) -> Seq<char>
    decreases n,
{
    if n == 0 {
        Seq::empty()
    } else {
        hex_digits(h / 16, (n - 1) as nat).push(hex_char(h % 16))
    }
}

fn hex_char_exec(d: u64) -> (c: char)
    requires
        d < 16,
    ensures
        c == hex_char(d as nat),
{
    let b: u8 = if d < 10 {
        (48 + d) as u8
    } else {
        (87 + d) as u8
    };
    b as char
}

fn hex_digits_exec(h: u64, n: u32) -> (v: Vec<char>)
    ensures
        v@ == hex_digits(h as nat, n as nat),
    decreases n,
{
    if n == 0 {
        Vec::new()
    } else {
        let mut v = hex_digits_exec(h / 16, n - 1);
        v.push(hex_char_exec(h % 16));
        v
    }
}

/// The MPRIS object path of a track hash: `/dev/nira/track/` and sixteen
/// lowercase hex digits.
pub fn track_id_path(h: u64) -> (r: String)
    ensures
        r@ == "/dev/nira/track/"@ + hex_digits(h as nat, 16),
{
    let digits = hex_digits_exec(h, 16);
    let d = string_of(&digits);
    concat("/dev/nira/track/", d.as_str())
}

/// The MPRIS track id of what is playing: none without a track, else the
/// path of its identity hash.
pub fn track_id_for(snapshot: &PlayerSnapshot) -> (r: Option<String>)
    ensures
        match snapshot.now_playing {
            None => r is None,
            Some(np) => r matches Some(p) && p@ == "/dev/nira/track/"@ + hex_digits(
                identity_hash(np.provider@, np.source_label@, np.artist@, np.title@) as nat,
                16,
            ),
        },
{
    match &snapshot.now_playing {
        None => None,
        Some(np) => {
            let h = hash_identity(
                np.provider.as_str(),
                np.source_label.as_str(),
                np.artist.as_str(),
                np.title.as_str(),
            );
            Some(track_id_path(h))
        },
    }
}

/// The metadata media controls show.
#[derive(Debug)]
pub struct MetadataPlan {
    pub track_id: Option<String>,
    pub title: Option<String>,
    pub artist: Option<String>,
    pub art_url: Option<String>,
    pub length_micros: Option<i128>,
}

/// The metadata of a snapshot: its track id; the title; the artist only when
/// not empty; the cover; the length when the duration is known.
pub fn build_metadata(snapshot: &PlayerSnapshot) -> (r: MetadataPlan)
    ensures
        match snapshot.now_playing {
            None => r.track_id is None && r.title is None && r.artist is None && r.art_url is None,
            Some(np) => {
                &&& r.track_id matches Some(p) && p@ == "/dev/nira/track/"@ + hex_digits(
                    identity_hash(np.provider@, np.source_label@, np.artist@, np.title@) as nat,
                    16,
                )
                &&& opt_view(r.title) == Some(np.title@)
                &&& opt_view(r.artist) == if np.artist@.len() == 0 {
                    None
                } else {
                    Some(np.artist@)
                }
                &&& opt_view(r.art_url) == opt_view(np.cover_url)
            },
        },
        r.length_micros == match snapshot.duration_ns {
            Some(d) => Some(micros_of(d) as i128),
            None => None,
        },
{
    let track_id = track_id_for(snapshot);
    let (title, artist, art_url) = match &snapshot.now_playing {
        Some(np) => (
            Some(np.title.clone()),
            if np.artist.as_str().is_empty() {
                None
            } else {
                Some(np.artist.clone())
            },
            crate::track::copy_opt_string(&np.cover_url),
        ),
        None => (None, None, None),
    };
    let length_micros = match snapshot.duration_ns {
        Some(d) => Some(duration_micros(d)),
        None => None,
    };
    MetadataPlan { track_id, title, artist, art_url, length_micros }
}

} // verus!
