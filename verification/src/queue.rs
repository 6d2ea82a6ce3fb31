//! The playback queue as a state machine.
//!
//! The queue owns what plays next: its entries, the current index, the
//! shuffle and repeat modes, and a small advance state that tells a natural
//! track end from a user stop. Every operation here is a transition of
//! [`QueueState`]; what it asks of the audio engine comes back as
//! [`QueueEffects`], which the application performs.

use rand::seq::SliceRandom;
use vstd::prelude::*;
use crate::text::{chars_of, contains, lowercase, seq_eq, str_contains, str_eq, to_lowercase};
use crate::discovery::{DiscoveryResult, DiscoveryResultView, result_views};
use crate::track::{ProviderId, Track, TrackView, track_views, copy_tracks};

verus! {

broadcast use vstd::string::group_string_axioms;

/// What happens when the last entry ends.
#[derive(Clone, Copy, Debug, PartialEq, Eq, Structural)]
pub enum RepeatMode {
    Off,
    All,
    One,
}

/// Whether the watcher should read a source drop as a natural track end.
#[derive(Clone, Copy, Debug, PartialEq, Eq, Structural)]
pub enum AdvanceState {
    /// Empty queue or stopped by the user: the watcher does nothing.
    Idle,
    /// A load was issued; waiting for the engine to report a source.
    Loading,
    /// Audio is rendering; losing the source means the track ended.
    Playing,
}

/// Lifecycle of a song-radio lookup.
#[derive(Debug, PartialEq, Eq)]
pub enum RadioStatus {
    Idle,
    Loading,
    Error(String),
}

/// Work a queue transition asks of the audio engine, in this order:
/// cancel a queued gapless hand-off, silence the old source before a load,
/// stop playback, forget the saved mid-track position, load the current entry.
#[derive(Clone, Copy, Debug, PartialEq, Eq, Structural)]
pub struct QueueEffects {
    pub cancel_gapless: bool,
    pub stop_for_load: bool,
    pub stop: bool,
    pub forget_position: bool,
    pub load: bool,
}

impl QueueEffects {
    /// Nothing to do.
    pub open spec fn none_spec() -> QueueEffects {
        QueueEffects {
            cancel_gapless: false,
            stop_for_load: false,
            stop: false,
            forget_position: false,
            load: false,
        }
    }

    /// Nothing to do.
    pub fn none() -> (r: QueueEffects)
        ensures
            r == Self::none_spec(),
    {
        QueueEffects {
            cancel_gapless: false,
            stop_for_load: false,
            stop: false,
            forget_position: false,
            load: false,
        }
    }

    /// Silence the old source, then load the current entry.
    pub fn none_jump() -> (r: QueueEffects)
        ensures
            r == Self::jump_spec(),
    {
        QueueEffects {
            cancel_gapless: false,
            stop_for_load: true,
            stop: false,
            forget_position: false,
            load: true,
        }
    }

    /// Silence the old source, then load the current entry.
    pub open spec fn jump_spec() -> QueueEffects {
        QueueEffects {
            cancel_gapless: false,
            stop_for_load: true,
            stop: false,
            forget_position: false,
            load: true,
        }
    }
}

/// Everything the queue remembers.
#[derive(Debug)]
pub struct QueueState {
    pub entries: Vec<Track>,
    pub current_index: Option<usize>,
    pub shuffle_enabled: bool,
    pub repeat_mode: RepeatMode,
    /// Track-load error shown to the user.
    pub error: Option<String>,
    /// True while the selected entry is being fetched.
    pub is_loading_track: bool,
    pub advance_state: AdvanceState,
    /// Bumped by every load, stop and reorder; a result tagged with an
    /// older generation is stale.
    pub load_generation: u64,
    /// The order from before shuffle was switched on.
    pub pre_shuffle: Option<Vec<Track>>,
    pub radio_status: RadioStatus,
    /// `(generation, index)` of the entry whose audio was appended for a
    /// gapless hand-off.
    pub gapless_prefetched: Option<(u64, usize)>,
}

/// `u64::wrapping_add(1)`.
pub open spec fn next_generation(g: u64) -> u64 {
    if g == u64::MAX {
        0
    } else {
        (g + 1) as u64
    }
}

impl QueueState {
    /// The entries as mathematical values.
    pub open spec fn tracks(&self) -> Seq<TrackView> {
        track_views(self.entries@)
    }

    /// The saved pre-shuffle order, as mathematical values.
    pub open spec fn saved(&self) -> Option<Seq<TrackView>> {
        match self.pre_shuffle {
            Some(v) => Some(track_views(v@)),
            None => None,
        }
    }

    /// The current index always points into the queue.
    pub open spec fn wf(&self) -> bool {
        self.current_index matches Some(i) ==> i < self.entries@.len()
    }

    /// An empty, idle queue.
    pub fn new() -> (q: QueueState)
        ensures
            q.wf(),
            q.entries@.len() == 0,
            q.current_index is None,
            !q.shuffle_enabled,
            q.repeat_mode == RepeatMode::Off,
            q.advance_state == AdvanceState::Idle,
            q.load_generation == 0,
            q.pre_shuffle is None,
            q.gapless_prefetched is None,
            q.radio_status == RadioStatus::Idle,
            q.error is None,
            !q.is_loading_track,
    {
        QueueState {
            entries: Vec::new(),
            current_index: None,
            shuffle_enabled: false,
            repeat_mode: RepeatMode::Off,
            error: None,
            is_loading_track: false,
            advance_state: AdvanceState::Idle,
            load_generation: 0,
            pre_shuffle: None,
            radio_status: RadioStatus::Idle,
            gapless_prefetched: None,
        }
    }

    /// Advance the load generation (wrapping) and return it.
    pub fn bump_load_generation(&mut self) -> (r: u64)
        ensures
            r == next_generation(old(self).load_generation),
            final(self).load_generation == r,
            final(self).entries == old(self).entries,
            final(self).current_index == old(self).current_index,
            final(self).shuffle_enabled == old(self).shuffle_enabled,
            final(self).repeat_mode == old(self).repeat_mode,
            final(self).advance_state == old(self).advance_state,
            final(self).pre_shuffle == old(self).pre_shuffle,
            final(self).gapless_prefetched == old(self).gapless_prefetched,
            final(self).is_loading_track == old(self).is_loading_track,
            final(self).error == old(self).error,
            final(self).radio_status == old(self).radio_status,
    {
        let next = self.load_generation.wrapping_add(1);
        self.load_generation = next;
        next
    }

    /// Point at `idx` and start loading it.
    fn jump_to(&mut self, idx: usize) -> (fx: QueueEffects)
        requires
            old(self).wf(),
            idx < old(self).entries@.len(),
        ensures
            final(self).wf(),
            fx == QueueEffects::jump_spec(),
            final(self).current_index == Some(idx),
            final(self).advance_state == AdvanceState::Loading,
            final(self).load_generation == next_generation(old(self).load_generation),
            final(self).entries == old(self).entries,
            final(self).shuffle_enabled == old(self).shuffle_enabled,
            final(self).repeat_mode == old(self).repeat_mode,
            final(self).pre_shuffle == old(self).pre_shuffle,
            final(self).gapless_prefetched == old(self).gapless_prefetched,
            final(self).is_loading_track == old(self).is_loading_track,
            final(self).error == old(self).error,
            final(self).radio_status == old(self).radio_status,
    {
        self.current_index = Some(idx);
        self.advance_state = AdvanceState::Loading;
        self.bump_load_generation();
        QueueEffects {
            cancel_gapless: false,
            stop_for_load: true,
            stop: false,
            forget_position: false,
            load: true,
        }
    }
}


/// Where the transport lands after an operation.
#[derive(Clone, Copy, Debug, PartialEq, Eq, Structural)]
pub enum Landing {
    /// Nothing changes.
    Stay,
    /// Load the entry at this index.
    Jump(usize),
    /// The queue ran out: stop, keep the queue, rewind to the top.
    Finish,
}

/// `new` is `old` pointed at `t` with a fresh load under way.
pub open spec fn jumped(new: QueueState, old: QueueState, t: usize) -> bool {
    &&& new.current_index == Some(t)
    &&& new.advance_state == AdvanceState::Loading
    &&& new.load_generation == next_generation(old.load_generation)
    &&& new.entries == old.entries
    &&& new.shuffle_enabled == old.shuffle_enabled
    &&& new.repeat_mode == old.repeat_mode
    &&& new.pre_shuffle == old.pre_shuffle
    &&& new.gapless_prefetched == old.gapless_prefetched
    &&& new.is_loading_track == old.is_loading_track
    &&& new.error == old.error
    &&& new.radio_status == old.radio_status
}

/// `new` is `old` stopped: idle, a fresh generation, not loading.
pub open spec fn stopped(new: QueueState, old: QueueState) -> bool {
    &&& new.advance_state == AdvanceState::Idle
    &&& new.load_generation == next_generation(old.load_generation)
    &&& !new.is_loading_track
    &&& new.entries == old.entries
    &&& new.shuffle_enabled == old.shuffle_enabled
    &&& new.repeat_mode == old.repeat_mode
    &&& new.pre_shuffle == old.pre_shuffle
    &&& new.gapless_prefetched == old.gapless_prefetched
    &&& new.error == old.error
    &&& new.radio_status == old.radio_status
}

/// Where Next goes: the following entry, or the first one again when the
/// queue repeats as a whole; nowhere past the end otherwise.
pub open spec fn next_landing(q: QueueState) -> Landing {
    match q.current_index {
        None => Landing::Stay,
        Some(i) => if i + 1 >= q.entries@.len() {
            if q.repeat_mode == RepeatMode::All {
                Landing::Jump(0)
            } else {
                Landing::Stay
            }
        } else {
            Landing::Jump((i + 1) as usize)
        },
    }
}

/// Where a natural track end goes: the same entry again under repeat-one,
/// the following entry, the top again under repeat-all, else the end.
pub open spec fn end_landing(q: QueueState) -> Landing {
    match q.current_index {
        None => Landing::Stay,
        Some(i) => if q.repeat_mode == RepeatMode::One {
            Landing::Jump(i)
        } else if i + 1 >= q.entries@.len() {
            if q.repeat_mode == RepeatMode::All {
                Landing::Jump(0)
            } else {
                Landing::Finish
            }
        } else {
            Landing::Jump((i + 1) as usize)
        },
    }
}

/// Where Previous goes: the entry before, or the last one when the queue
/// repeats and has more than one entry.
pub open spec fn previous_landing(q: QueueState) -> Landing {
    match q.current_index {
        None => Landing::Stay,
        Some(i) => if i == 0 {
            if q.repeat_mode == RepeatMode::All && q.entries@.len() > 1 {
                Landing::Jump((q.entries@.len() - 1) as usize)
            } else {
                Landing::Stay
            }
        } else {
            Landing::Jump((i - 1) as usize)
        },
    }
}

/// The transition an operation's landing asks for has been made.
pub open spec fn landed(new: QueueState, old: QueueState, l: Landing, fx: QueueEffects) -> bool {
    match l {
        Landing::Stay => new == old && fx == QueueEffects::none_spec(),
        Landing::Jump(t) => jumped(new, old, t) && fx == QueueEffects::jump_spec(),
        Landing::Finish => stopped(new, old) && new.current_index == Some(0usize) && fx
            == (QueueEffects {
            cancel_gapless: false,
            stop_for_load: false,
            stop: true,
            forget_position: true,
            load: false,
        }),
    }
}

/// The mode after Off → All → One → Off.
pub open spec fn cycled(m: RepeatMode) -> RepeatMode {
    match m {
        RepeatMode::Off => RepeatMode::All,
        RepeatMode::All => RepeatMode::One,
        RepeatMode::One => RepeatMode::Off,
    }
}

impl QueueState {
    /// Stop the audio but keep the queue, rewound to its first entry.
    fn finish_playback(&mut self) -> (fx: QueueEffects)
        requires
            old(self).wf(),
            old(self).entries@.len() > 0,
        ensures
            final(self).wf(),
            landed(*final(self), *old(self), Landing::Finish, fx),
    {
        self.advance_state = AdvanceState::Idle;
        self.bump_load_generation();
        self.is_loading_track = false;
        self.current_index = Some(0);
        QueueEffects {
            cancel_gapless: false,
            stop_for_load: false,
            stop: true,
            forget_position: true,
            load: false,
        }
    }

    /// Skip to the next entry (see [`next_landing`]).
    pub fn next(&mut self) -> (fx: QueueEffects)
        requires
            old(self).wf(),
        ensures
            final(self).wf(),
            landed(*final(self), *old(self), next_landing(*old(self)), fx),
    {
        let i = match self.current_index {
            Some(i) => i,
            None => return QueueEffects::none(),
        };
        let len = self.entries.len();
        if i + 1 >= len {
            if self.repeat_mode == RepeatMode::All {
                self.jump_to(0)
            } else {
                QueueEffects::none()
            }
        } else {
            self.jump_to(i + 1)
        }
    }

    /// React to the current track ending on its own (see [`end_landing`]).
    pub fn advance_after_end(&mut self) -> (fx: QueueEffects)
        requires
            old(self).wf(),
        ensures
            final(self).wf(),
            landed(*final(self), *old(self), end_landing(*old(self)), fx),
    {
        let i = match self.current_index {
            Some(i) => i,
            None => return QueueEffects::none(),
        };
        let len = self.entries.len();
        if self.repeat_mode == RepeatMode::One {
            self.jump_to(i)
        } else if i + 1 >= len {
            if self.repeat_mode == RepeatMode::All {
                self.jump_to(0)
            } else {
                self.finish_playback()
            }
        } else {
            self.jump_to(i + 1)
        }
    }

    /// Start an existing entry without reseeding the queue; the index is
    /// clamped to the last entry. Nothing happens on an empty queue.
    pub fn play_index(&mut self, idx: usize) -> (fx: QueueEffects)
        requires
            old(self).wf(),
        ensures
            final(self).wf(),
            old(self).entries@.len() == 0 ==> landed(*final(self), *old(self), Landing::Stay, fx),
            old(self).entries@.len() > 0 ==> landed(
                *final(self),
                *old(self),
                Landing::Jump(
                    if idx < old(self).entries@.len() {
                        idx
                    } else {
                        (old(self).entries@.len() - 1) as usize
                    },
                ),
                fx,
            ),
    {
        let len = self.entries.len();
        if len == 0 {
            return QueueEffects::none();
        }
        let target = if idx < len {
            idx
        } else {
            len - 1
        };
        self.jump_to(target)
    }

    /// Go back one entry (see [`previous_landing`]).
    pub fn previous(&mut self) -> (fx: QueueEffects)
        requires
            old(self).wf(),
        ensures
            final(self).wf(),
            landed(*final(self), *old(self), previous_landing(*old(self)), fx),
    {
        let i = match self.current_index {
            Some(i) => i,
            None => return QueueEffects::none(),
        };
        let len = self.entries.len();
        if i == 0 {
            if self.repeat_mode == RepeatMode::All && len > 1 {
                self.jump_to(len - 1)
            } else {
                QueueEffects::none()
            }
        } else {
            self.jump_to(i - 1)
        }
    }

    /// Stop playback; the queue itself survives.
    pub fn stop(&mut self) -> (fx: QueueEffects)
        requires
            old(self).wf(),
        ensures
            final(self).wf(),
            stopped(*final(self), *old(self)),
            final(self).current_index == old(self).current_index,
            fx == (QueueEffects {
                cancel_gapless: false,
                stop_for_load: false,
                stop: true,
                forget_position: false,
                load: false,
            }),
    {
        self.advance_state = AdvanceState::Idle;
        self.bump_load_generation();
        self.is_loading_track = false;
        QueueEffects {
            cancel_gapless: false,
            stop_for_load: false,
            stop: true,
            forget_position: false,
            load: false,
        }
    }

    /// Off → All → One → Off.
    pub fn cycle_repeat(&mut self)
        ensures
            *final(self) == (QueueState { repeat_mode: cycled(old(self).repeat_mode), ..*old(self) }),
    {
        self.repeat_mode = match self.repeat_mode {
            RepeatMode::Off => RepeatMode::All,
            RepeatMode::All => RepeatMode::One,
            RepeatMode::One => RepeatMode::Off,
        };
    }

    /// Whether Next would move anywhere.
    pub fn has_next(&self) -> (r: bool)
        requires
            self.wf(),
        ensures
            r == (self.repeat_mode == RepeatMode::All && self.current_index is Some)
                || (self.repeat_mode != RepeatMode::All && (self.current_index matches Some(i)
                && i + 1 < self.entries@.len())),
            self.wf() ==> r == (next_landing(*self) != Landing::Stay),
    {
        if self.repeat_mode == RepeatMode::All {
            return self.current_index.is_some();
        }
        let len = self.entries.len();
        match self.current_index {
            Some(i) => i + 1 < len,
            None => false,
        }
    }

    /// Whether Previous would move anywhere.
    pub fn has_previous(&self) -> (r: bool)
        requires
            self.wf(),
        ensures
            r == (if self.repeat_mode == RepeatMode::All {
                self.entries@.len() > 1 && self.current_index is Some
            } else {
                self.current_index matches Some(i) && i > 0
            }),
    {
        if self.repeat_mode == RepeatMode::All {
            return self.entries.len() > 1 && self.current_index.is_some();
        }
        match self.current_index {
            Some(i) => i > 0,
            None => false,
        }
    }
}


/// The saved pre-shuffle order with `extra` appended, when there is one.
pub open spec fn saved_plus(saved: Option<Seq<TrackView>>, extra: Seq<TrackView>) -> Option<Seq<TrackView>> {
    match saved {
        Some(s) => Some(s + extra),
        None => None,
    }
}

/// Index of the first track with this URI, or `s.len()` when none has it.
pub open spec fn first_uri_index(s: Seq<TrackView>, uri: Seq<char>) -> int
    decreases s.len(),
{
    if s.len() == 0 {
        0
    } else if s[0].uri == uri {
        0
    } else {
        1 + first_uri_index(s.drop_first(), uri)
    }
}

/// Facts about [`first_uri_index`].
pub proof fn lemma_first_uri_index(s: Seq<TrackView>, uri: Seq<char>)
    ensures
        0 <= first_uri_index(s, uri) <= s.len(),
        forall|k: int| 0 <= k < first_uri_index(s, uri) ==> s[k].uri != uri,
        first_uri_index(s, uri) < s.len() ==> s[first_uri_index(s, uri)].uri == uri,
    decreases s.len(),
{
    if s.len() > 0 && s[0].uri != uri {
        lemma_first_uri_index(s.drop_first(), uri);
        assert forall|k: int| 0 <= k < first_uri_index(s, uri) implies s[k].uri != uri by {
            if k > 0 {
                assert(s[k] == s.drop_first()[k - 1]);
            }
        }
    }
}

/// The saved order after the first track with this URI is dropped from it.
pub open spec fn saved_without(saved: Option<Seq<TrackView>>, uri: Seq<char>) -> Option<Seq<TrackView>> {
    match saved {
        Some(s) => if first_uri_index(s, uri) < s.len() {
            Some(s.remove(first_uri_index(s, uri)))
        } else {
            Some(s)
        },
        None => None,
    }
}

/// Index of the first track with this URI.
pub fn position_of_uri(v: &Vec<Track>, uri: &String) -> (r: Option<usize>)
    ensures
        r matches Some(p) ==> p as int == first_uri_index(track_views(v@), uri@) && p < v@.len(),
        r is None ==> first_uri_index(track_views(v@), uri@) == v@.len(),
{
    let ghost tv = track_views(v@);
    proof {
        lemma_first_uri_index(tv, uri@);
    }
    let mut i: usize = 0;
    while i < v.len()
        invariant
            i <= v@.len(),
            tv == track_views(v@),
            0 <= first_uri_index(tv, uri@) <= tv.len(),
            forall|k: int| 0 <= k < first_uri_index(tv, uri@) ==> tv[k].uri != uri@,
            first_uri_index(tv, uri@) < tv.len() ==> tv[first_uri_index(tv, uri@)].uri == uri@,
            forall|k: int| 0 <= k < i ==> tv[k].uri != uri@,
        decreases v@.len() - i,
    {
        assert(tv[i as int] == v@[i as int]@);
        if v[i].uri == *uri {
            return Some(i);
        }
        i = i + 1;
    }
    None
}

/// A list of tracks with one more appended.
fn pushed(v: &Vec<Track>, t: &Track) -> (r: Vec<Track>)
    ensures
        track_views(r@) == track_views(v@).push(t@),
{
    let mut r = copy_tracks(v);
    r.push(t.duplicate());
    assert(track_views(r@) =~= track_views(v@).push(t@));
    r
}

impl QueueState {
    /// Drop a queued gapless hand-off; its audio may belong to an entry that
    /// no longer follows the current one.
    fn invalidate_gapless(&mut self) -> (cancel: bool)
        ensures
            cancel == old(self).gapless_prefetched is Some,
            *final(self) == (QueueState { gapless_prefetched: None, ..*old(self) }),
    {
        if self.gapless_prefetched.is_some() {
            self.gapless_prefetched = None;
            true
        } else {
            false
        }
    }

    /// Keep the saved pre-shuffle order in step with a track queued while
    /// shuffled.
    fn append_to_pre_shuffle(&mut self, track: &Track)
        ensures
            final(self).saved() == saved_plus(old(self).saved(), seq![track@]),
            final(self).entries == old(self).entries,
            final(self).current_index == old(self).current_index,
            final(self).shuffle_enabled == old(self).shuffle_enabled,
            final(self).repeat_mode == old(self).repeat_mode,
            final(self).advance_state == old(self).advance_state,
            final(self).load_generation == old(self).load_generation,
            final(self).gapless_prefetched == old(self).gapless_prefetched,
            final(self).is_loading_track == old(self).is_loading_track,
            final(self).error == old(self).error,
            final(self).radio_status == old(self).radio_status,
    {
        let updated = match &self.pre_shuffle {
            Some(v) => Some(pushed(v, track)),
            None => None,
        };
        if updated.is_some() {
            self.pre_shuffle = updated;
        }
        proof {
            match old(self).saved() {
                Some(sv) => {
                    assert(sv.push(track@) =~= sv + seq![track@]);
                },
                None => {},
            }
        }
    }

    /// Append a track; never starts playback.
    pub fn add_to_queue(&mut self, track: Track) -> (fx: QueueEffects)
        requires
            old(self).wf(),
        ensures
            final(self).wf(),
            final(self).tracks() == old(self).tracks().push(track@),
            final(self).saved() == saved_plus(old(self).saved(), seq![track@]),
            final(self).gapless_prefetched is None,
            fx == (QueueEffects {
                cancel_gapless: old(self).gapless_prefetched is Some,
                ..QueueEffects::none_spec()
            }),
            final(self).current_index == old(self).current_index,
            final(self).shuffle_enabled == old(self).shuffle_enabled,
            final(self).repeat_mode == old(self).repeat_mode,
            final(self).advance_state == old(self).advance_state,
            final(self).load_generation == old(self).load_generation,
            final(self).is_loading_track == old(self).is_loading_track,
            final(self).error == old(self).error,
            final(self).radio_status == old(self).radio_status,
    {
        let cancel = self.invalidate_gapless();
        let copy = track.duplicate();
        self.entries.push(track);
        assert(self.tracks() =~= old(self).tracks().push(copy@));
        self.append_to_pre_shuffle(&copy);
        QueueEffects { cancel_gapless: cancel, ..QueueEffects::none() }
    }

    /// Append several tracks at once; never starts playback.
    pub fn add_all(&mut self, tracks: Vec<Track>) -> (fx: QueueEffects)
        requires
            old(self).wf(),
        ensures
            final(self).wf(),
            tracks@.len() == 0 ==> *final(self) == *old(self) && fx == QueueEffects::none_spec(),
            tracks@.len() > 0 ==> {
                &&& final(self).tracks() == old(self).tracks() + track_views(tracks@)
                &&& final(self).saved() == saved_plus(old(self).saved(), track_views(tracks@))
                &&& final(self).gapless_prefetched is None
                &&& fx == (QueueEffects {
                    cancel_gapless: old(self).gapless_prefetched is Some,
                    ..QueueEffects::none_spec()
                })
                &&& final(self).current_index == old(self).current_index
                &&& final(self).shuffle_enabled == old(self).shuffle_enabled
                &&& final(self).repeat_mode == old(self).repeat_mode
                &&& final(self).advance_state == old(self).advance_state
                &&& final(self).load_generation == old(self).load_generation
                &&& final(self).is_loading_track == old(self).is_loading_track
                &&& final(self).error == old(self).error
                &&& final(self).radio_status == old(self).radio_status
            },
    {
        if tracks.len() == 0 {
            return QueueEffects::none();
        }
        let cancel = self.invalidate_gapless();
        let ghost start = self.tracks();
        let ghost start_saved = self.saved();
        let mut i: usize = 0;
        while i < tracks.len()
            invariant
                i <= tracks@.len(),
                self.tracks() == start + track_views(tracks@.take(i as int)),
                self.saved() == saved_plus(start_saved, track_views(tracks@.take(i as int))),
                self.current_index == old(self).current_index,
                self.current_index matches Some(c) ==> c < start.len(),
                start.len() <= self.entries@.len(),
                self.shuffle_enabled == old(self).shuffle_enabled,
                self.repeat_mode == old(self).repeat_mode,
                self.advance_state == old(self).advance_state,
                self.load_generation == old(self).load_generation,
                self.is_loading_track == old(self).is_loading_track,
                self.error == old(self).error,
                self.radio_status == old(self).radio_status,
                self.gapless_prefetched is None,
            decreases tracks@.len() - i,
        {
            let t = tracks[i].duplicate();
            let copy = t.duplicate();
            let ghost prev = self.tracks();
            self.entries.push(t);
            assert(self.tracks() =~= prev.push(copy@));
            assert(track_views(tracks@.take(i + 1)) =~= track_views(tracks@.take(i as int)).push(
                tracks@[i as int]@,
            ));
            assert(self.tracks() =~= start + track_views(tracks@.take(i + 1)));
            self.append_to_pre_shuffle(&copy);
            proof {
                match start_saved {
                    Some(sv) => {
                        assert(sv + track_views(tracks@.take(i as int)) + seq![copy@] =~= sv
                            + track_views(tracks@.take(i + 1)));
                    },
                    None => {},
                }
            }
            i = i + 1;
        }
        assert(tracks@.take(tracks@.len() as int) =~= tracks@);
        QueueEffects { cancel_gapless: cancel, ..QueueEffects::none() }
    }

    /// Insert a track right after the current entry, or at the end when
    /// nothing is current.
    pub fn play_next(&mut self, track: Track) -> (fx: QueueEffects)
        requires
            old(self).wf(),
        ensures
            final(self).wf(),
            final(self).tracks() == match old(self).current_index {
                Some(i) => old(self).tracks().insert(i + 1, track@),
                None => old(self).tracks().push(track@),
            },
            final(self).saved() == saved_plus(old(self).saved(), seq![track@]),
            final(self).gapless_prefetched is None,
            fx == (QueueEffects {
                cancel_gapless: old(self).gapless_prefetched is Some,
                ..QueueEffects::none_spec()
            }),
            final(self).current_index == old(self).current_index,
            final(self).shuffle_enabled == old(self).shuffle_enabled,
            final(self).repeat_mode == old(self).repeat_mode,
            final(self).advance_state == old(self).advance_state,
            final(self).load_generation == old(self).load_generation,
            final(self).is_loading_track == old(self).is_loading_track,
            final(self).error == old(self).error,
            final(self).radio_status == old(self).radio_status,
    {
        let cancel = self.invalidate_gapless();
        let copy = track.duplicate();
        let len = self.entries.len();
        match self.current_index {
            Some(i) => {
                assert(i < len);
                self.entries.insert(i + 1, track);
                assert(self.tracks() =~= old(self).tracks().insert(i + 1, copy@));
            },
            None => {
                self.entries.push(track);
                assert(self.tracks() =~= old(self).tracks().push(copy@));
            },
        }
        self.append_to_pre_shuffle(&copy);
        QueueEffects { cancel_gapless: cancel, ..QueueEffects::none() }
    }

    /// Keep only the current entry (playback continues); an in-flight load
    /// is re-issued against the shortened queue. Without a current entry the
    /// queue empties.
    pub fn clear_upcoming(&mut self) -> (fx: QueueEffects)
        requires
            old(self).wf(),
        ensures
            final(self).wf(),
            final(self).pre_shuffle is None,
            final(self).gapless_prefetched is None,
            fx.cancel_gapless == old(self).gapless_prefetched is Some,
            !fx.stop_for_load && !fx.stop && !fx.forget_position,
            match old(self).current_index {
                Some(i) => {
                    &&& final(self).tracks() == seq![old(self).tracks()[i as int]]
                    &&& final(self).current_index == Some(0usize)
                    &&& fx.load == (old(self).advance_state == AdvanceState::Loading)
                    &&& final(self).load_generation == if fx.load {
                        next_generation(old(self).load_generation)
                    } else {
                        old(self).load_generation
                    }
                },
                None => {
                    &&& final(self).entries@.len() == 0
                    &&& final(self).current_index is None
                    &&& !fx.load
                    &&& final(self).load_generation == old(self).load_generation
                },
            },
            final(self).shuffle_enabled == old(self).shuffle_enabled,
            final(self).repeat_mode == old(self).repeat_mode,
            final(self).advance_state == old(self).advance_state,
            final(self).is_loading_track == old(self).is_loading_track,
            final(self).error == old(self).error,
            final(self).radio_status == old(self).radio_status,
    {
        let cancel = self.invalidate_gapless();
        let was_loading = self.advance_state == AdvanceState::Loading;
        self.pre_shuffle = None;
        match self.current_index {
            Some(i) => {
                let t = self.entries[i].duplicate();
                let mut v: Vec<Track> = Vec::new();
                v.push(t);
                self.entries = v;
                assert(self.tracks() =~= seq![old(self).tracks()[i as int]]);
                self.current_index = Some(0);
                if was_loading {
                    self.bump_load_generation();
                    QueueEffects { cancel_gapless: cancel, load: true, ..QueueEffects::none() }
                } else {
                    QueueEffects { cancel_gapless: cancel, ..QueueEffects::none() }
                }
            },
            None => {
                self.entries = Vec::new();
                self.current_index = None;
                QueueEffects { cancel_gapless: cancel, ..QueueEffects::none() }
            },
        }
    }
}


impl QueueState {
    /// Remove one entry. Removing the current entry loads whatever slides
    /// into its place when audio was going, or stops on an emptied queue;
    /// removing an earlier entry shifts the index down. The first track
    /// with the same URI leaves the saved pre-shuffle order too.
    pub fn remove_at(&mut self, idx: usize) -> (fx: QueueEffects)
        requires
            old(self).wf(),
        ensures
            final(self).wf(),
            idx >= old(self).entries@.len() ==> *final(self) == *old(self) && fx
                == QueueEffects::none_spec(),
            idx < old(self).entries@.len() ==> {
                let removed = old(self).tracks()[idx as int];
                let rest = old(self).tracks().remove(idx as int);
                &&& final(self).tracks() == rest
                &&& final(self).saved() == saved_without(old(self).saved(), removed.uri)
                &&& final(self).gapless_prefetched is None
                &&& fx.cancel_gapless == old(self).gapless_prefetched is Some
                &&& !fx.forget_position
                &&& final(self).shuffle_enabled == old(self).shuffle_enabled
                &&& final(self).repeat_mode == old(self).repeat_mode
                &&& final(self).error == old(self).error
                &&& final(self).radio_status == old(self).radio_status
                &&& match old(self).current_index {
                    Some(c) => if idx == c {
                        if rest.len() == 0 {
                            // Emptied: stop.
                            &&& final(self).current_index is None
                            &&& final(self).advance_state == AdvanceState::Idle
                            &&& final(self).load_generation == next_generation(
                                old(self).load_generation,
                            )
                            &&& !final(self).is_loading_track
                            &&& fx.stop && !fx.stop_for_load && !fx.load
                        } else {
                            &&& final(self).current_index == Some(
                                if c < rest.len() {
                                    c
                                } else {
                                    (rest.len() - 1) as usize
                                },
                            )
                            &&& final(self).is_loading_track == old(self).is_loading_track
                            &&& !fx.stop
                            &&& if old(self).advance_state == AdvanceState::Idle {
                                &&& final(self).advance_state == AdvanceState::Idle
                                &&& final(self).load_generation == old(self).load_generation
                                &&& !fx.stop_for_load && !fx.load
                            } else {
                                &&& final(self).advance_state == AdvanceState::Loading
                                &&& final(self).load_generation == next_generation(
                                    old(self).load_generation,
                                )
                                &&& fx.stop_for_load && fx.load
                            }
                        }
                    } else {
                        &&& final(self).current_index == if idx < c {
                            Some((c - 1) as usize)
                        } else {
                            Some(c)
                        }
                        &&& final(self).advance_state == old(self).advance_state
                        &&& final(self).load_generation == old(self).load_generation
                        &&& final(self).is_loading_track == old(self).is_loading_track
                        &&& !fx.stop && !fx.stop_for_load && !fx.load
                    },
                    None => {
                        &&& final(self).current_index is None
                        &&& final(self).advance_state == old(self).advance_state
                        &&& final(self).load_generation == old(self).load_generation
                        &&& final(self).is_loading_track == old(self).is_loading_track
                        &&& !fx.stop && !fx.stop_for_load && !fx.load
                    },
                }
            },
    {
        if idx >= self.entries.len() {
            return QueueEffects::none();
        }
        let cancel = self.invalidate_gapless();
        let ghost before = self.tracks();
        let removed = self.entries.remove(idx);
        assert(self.tracks() =~= before.remove(idx as int));
        let new_saved = match &self.pre_shuffle {
            Some(original) => {
                match position_of_uri(original, &removed.uri) {
                    Some(p) => {
                        let mut o = copy_tracks(original);
                        o.remove(p);
                        assert(track_views(o@) =~= track_views(original@).remove(p as int));
                        Some(o)
                    },
                    None => None,
                }
            },
            None => None,
        };
        if new_saved.is_some() {
            self.pre_shuffle = new_saved;
        }
        let len = self.entries.len();
        match self.current_index {
            Some(c) => {
                if idx == c {
                    if len == 0 {
                        self.current_index = None;
                        let f = self.stop();
                        return QueueEffects { cancel_gapless: cancel, ..f };
                    }
                    let new_idx = if c < len {
                        c
                    } else {
                        len - 1
                    };
                    self.current_index = Some(new_idx);
                    if self.advance_state != AdvanceState::Idle {
                        self.advance_state = AdvanceState::Loading;
                        self.bump_load_generation();
                        return QueueEffects {
                            cancel_gapless: cancel,
                            stop_for_load: true,
                            load: true,
                            ..QueueEffects::none()
                        };
                    }
                    QueueEffects { cancel_gapless: cancel, ..QueueEffects::none() }
                } else if idx < c {
                    self.current_index = Some(c - 1);
                    QueueEffects { cancel_gapless: cancel, ..QueueEffects::none() }
                } else {
                    QueueEffects { cancel_gapless: cancel, ..QueueEffects::none() }
                }
            },
            None => QueueEffects { cancel_gapless: cancel, ..QueueEffects::none() },
        }
    }
}


// ---------------------------------------------------------------------------
// Spreading artists apart
// ---------------------------------------------------------------------------

/// What back-to-back tracks are compared on: the lowercased first artist.
pub open spec fn spread_key_spec(t: TrackView) -> Seq<char> {
    lowercase(t.first_artist())
}

/// Position `p` does not start a same-artist pair, unless every track from
/// `p` on has the artist of `p - 1` (nothing was left to swap in).
pub open spec fn spread_ok(s: Seq<TrackView>, p: int) -> bool {
    spread_key_spec(s[p]) != spread_key_spec(s[p - 1]) || forall|q: int|
        p <= q < s.len() ==> #[trigger] spread_key_spec(s[q]) == spread_key_spec(s[p - 1])
}

/// `s` with the entries at `i` and `j` exchanged.
pub open spec fn swapped<A>(s: Seq<A>, i: int, j: int) -> Seq<A> {
    s.update(i, s[j]).update(j, s[i])
}

/// Exchanging two entries keeps the multiset of entries.
pub proof fn lemma_swap_multiset<A>(s: Seq<A>, i: int, j: int)
    requires
        0 <= i < s.len(),
        0 <= j < s.len(),
    ensures
        swapped(s, i, j).to_multiset() == s.to_multiset(),
{
    broadcast use vstd::seq_lib::to_multiset_update;
    broadcast use vstd::seq_lib::group_to_multiset_ensures;
    broadcast use vstd::multiset::group_multiset_properties;
    broadcast use vstd::multiset::group_multiset_axioms;

    if i != j {
        let s1 = s.update(i, s[j]);
        assert(s1[j] == s[j]);
        assert(s1.to_multiset() == s.to_multiset().insert(s[j]).remove(s[i]));
        assert(s1.update(j, s[i]).to_multiset() == s1.to_multiset().insert(s[i]).remove(s[j]));
        let m = s.to_multiset();
        assert(s.contains(s[i]));
        assert(m.count(s[i]) > 0);
        let m2 = m.insert(s[j]).remove(s[i]).insert(s[i]).remove(s[j]);
        assert forall|x: A| m2.count(x) == m.count(x) by {}
        assert(m2 =~= m);
    } else {
        assert(swapped(s, i, j) =~= s);
    }
}

/// Exchanging two entries at or after `i` keeps every earlier verdict.
proof fn lemma_swap_keeps_ok(s: Seq<TrackView>, i: int, j: int, p: int)
    requires
        1 <= p < i < j < s.len(),
        spread_ok(s, p),
    ensures
        spread_ok(swapped(s, i, j), p),
{
    let t = swapped(s, i, j);
    assert(t[p] == s[p] && t[p - 1] == s[p - 1]);
    if spread_key_spec(s[p]) == spread_key_spec(s[p - 1]) {
        assert forall|q: int| p <= q < t.len() implies #[trigger] spread_key_spec(t[q]) == spread_key_spec(
            t[p - 1],
        ) by {
            if q == i {
                assert(spread_key_spec(s[j]) == spread_key_spec(s[p - 1]));
            } else if q == j {
                assert(spread_key_spec(s[i]) == spread_key_spec(s[p - 1]));
            } else {
                assert(t[q] == s[q]);
                assert(spread_key_spec(s[q]) == spread_key_spec(s[p - 1]));
            }
        }
    }
}

/// The lowercased first artist of a track.
fn spread_key_of(t: &Track) -> (r: Vec<char>)
    ensures
        r@ == spread_key_spec(t@),
{
    let a = t.first_artist_name();
    let l = to_lowercase(a.as_str());
    chars_of(l.as_str())
}

/// The artist a shuffled queue spreads out: the first credited artist,
/// lowercased; empty without one.
pub fn spread_key(track: &Track) -> (r: String)
    ensures
        r@ == spread_key_spec(track@),
{
    let a = track.first_artist_name();
    to_lowercase(a.as_str())
}

/// Exchange two entries.
fn swap_tracks(v: &mut Vec<Track>, i: usize, j: usize)
    requires
        i < old(v)@.len(),
        j < old(v)@.len(),
    ensures
        track_views(final(v)@) == swapped(track_views(old(v)@), i as int, j as int),
        final(v)@.len() == old(v)@.len(),
{
    let a = v[i].duplicate();
    let b = v[j].duplicate();
    v.set(i, b);
    v.set(j, a);
    assert(track_views(v@) =~= swapped(track_views(old(v)@), i as int, j as int));
}

/// Pull back-to-back same-artist tracks apart: each time an entry repeats
/// the previous entry's artist, it is swapped with the next later entry by
/// someone else. The first entry (the playing one) never moves.
pub fn spread_artists(tracks: &mut Vec<Track>)
    ensures
        track_views(final(tracks)@).to_multiset() == track_views(old(tracks)@).to_multiset(),
        final(tracks)@.len() == old(tracks)@.len(),
        old(tracks)@.len() > 0 ==> final(tracks)@[0]@ == old(tracks)@[0]@,
        forall|p: int|
            1 <= p < final(tracks)@.len() ==> #[trigger] spread_ok(track_views(final(tracks)@), p),
{
    let len = tracks.len();
    if len == 0 {
        return;
    }
    let mut i: usize = 1;
    while i < len
        invariant
            1 <= i <= len,
            tracks@.len() == len,
            track_views(tracks@).to_multiset() == track_views(old(tracks)@).to_multiset(),
            tracks@[0]@ == old(tracks)@[0]@,
            forall|p: int| 1 <= p < i ==> #[trigger] spread_ok(track_views(tracks@), p),
        decreases len - i,
    {
        let ghost s = track_views(tracks@);
        let prev = spread_key_of(&tracks[i - 1]);
        let here = spread_key_of(&tracks[i]);
        assert(s[i as int] == tracks@[i as int]@ && s[i - 1] == tracks@[i - 1]@);
        if seq_eq(&here, &prev) {
            let mut j: usize = i + 1;
            let mut found = false;
            while j < len && !found
                invariant
                    i < j <= len,
                    tracks@.len() == len,
                    s == track_views(tracks@),
                    prev@ == spread_key_spec(s[i - 1]),
                    found ==> j - 1 > i && spread_key_spec(s[j - 1]) != spread_key_spec(s[i - 1]),
                    !found ==> forall|q: int| i < q < j ==> #[trigger] spread_key_spec(s[q]) == spread_key_spec(s[i - 1]),
                decreases len - j + (if found { 0int } else { 1int }),
            {
                let k = spread_key_of(&tracks[j]);
                assert(s[j as int] == tracks@[j as int]@);
                if !seq_eq(&k, &prev) {
                    found = true;
                }
                j = j + 1;
            }
            if found {
                let target = j - 1;
                swap_tracks(tracks, i, target);
                proof {
                    lemma_swap_multiset(s, i as int, target as int);
                    let t = swapped(s, i as int, target as int);
                    assert(t[0] == s[0]);
                    assert(track_views(tracks@)[0] == tracks@[0]@);
                    assert(t[i as int] == s[target as int]);
                    assert(t[i - 1] == s[i - 1]);
                    assert forall|p: int| 1 <= p < i + 1 implies #[trigger] spread_ok(t, p) by {
                        if p < i {
                            lemma_swap_keeps_ok(s, i as int, target as int, p);
                        }
                    }
                }
            } else {
                proof {
                    assert forall|q: int| i <= q < s.len() implies #[trigger] spread_key_spec(s[q])
                        == spread_key_spec(s[i - 1]) by {
                        if q > i {
                            assert(spread_key_spec(s[q]) == spread_key_spec(s[i - 1]));
                        }
                    }
                    assert(spread_ok(s, i as int));
                }
            }
        } else {
            assert(spread_ok(s, i as int));
        }
        i = i + 1;
    }
}


// ---------------------------------------------------------------------------
// Shuffle
// ---------------------------------------------------------------------------

/// Calls `rand::seq::SliceRandom::shuffle` with the thread-local generator.
/// Which order comes out is chance; it is always a reordering of the input.
#[verifier::external_body]
fn shuffle_tracks(v: &mut Vec<Track>)
    ensures
        track_views(final(v)@).to_multiset() == track_views(old(v)@).to_multiset(),
        final(v)@.len() == old(v)@.len(),
{
    v.shuffle(&mut rand::rng());
}

/// Calls `rand::random_range(0..n)`: some index below `n`, by chance.
#[verifier::external_body]
pub(crate) fn random_below(n: usize) -> (r: usize)
    requires
        n > 0,
    ensures
        r < n,
{
    rand::random_range(0..n)
}

/// Shuffle a list around the entry that is about to play: that entry moves
/// to the front, the rest are shuffled and spread by artist. Lists of two or
/// fewer entries, or an index past the end, come back untouched.
pub fn shuffled_context(tracks: Vec<Track>, start_idx: usize) -> (r: (Vec<Track>, usize))
    ensures
        tracks@.len() <= 2 || start_idx >= tracks@.len() ==> track_views(r.0@) == track_views(
            tracks@,
        ) && r.1 == start_idx,
        !(tracks@.len() <= 2 || start_idx >= tracks@.len()) ==> {
            &&& r.1 == 0
            &&& r.0@.len() == tracks@.len()
            &&& r.0@[0]@ == tracks@[start_idx as int]@
            &&& track_views(r.0@).to_multiset() == track_views(tracks@).to_multiset()
            &&& forall|p: int| 1 <= p < r.0@.len() ==> #[trigger] spread_ok(track_views(r.0@), p)
        },
{
    broadcast use vstd::seq_lib::group_to_multiset_ensures;
    broadcast use vstd::seq_lib::to_multiset_remove;
    broadcast use vstd::seq_lib::to_multiset_insert;

    let mut tracks = tracks;
    if tracks.len() <= 2 || start_idx >= tracks.len() {
        return (tracks, start_idx);
    }
    let ghost orig = track_views(tracks@);
    let current = tracks.remove(start_idx);
    let ghost cur_view = current@;
    assert(track_views(tracks@) =~= orig.remove(start_idx as int));
    shuffle_tracks(&mut tracks);
    let ghost shuffled = track_views(tracks@);
    tracks.insert(0, current);
    proof {
        let rest = orig.remove(start_idx as int);
        assert(track_views(tracks@) =~= shuffled.insert(0, cur_view));
        assert(orig[start_idx as int] == cur_view);
        vstd::seq_lib::to_multiset_insert(shuffled, 0, cur_view);
        vstd::seq_lib::to_multiset_remove(orig, start_idx as int);
        assert(shuffled.to_multiset() == rest.to_multiset());
        let m = orig.to_multiset();
        assert(orig.contains(cur_view)) by {
            assert(orig[start_idx as int] == cur_view);
        }
        assert(m.count(cur_view) > 0);
        assert forall|x: TrackView| #[trigger] m.remove(cur_view).insert(cur_view).count(x) == m.count(x) by {
            broadcast use vstd::multiset::group_multiset_axioms;
        }
        assert(m.remove(cur_view).insert(cur_view) =~= m);
        assert(track_views(tracks@).to_multiset() == m);
    }
    spread_artists(&mut tracks);
    (tracks, 0)
}

/// Number of tracks with this URI.
pub open spec fn count_uri(s: Seq<TrackView>, uri: Seq<char>) -> nat
    decreases s.len(),
{
    if s.len() == 0 {
        0
    } else {
        count_uri(s.drop_last(), uri) + if s.last().uri == uri {
            1nat
        } else {
            0nat
        }
    }
}

/// The entries of `now` beyond what `orig` accounts for, URI by URI: an
/// entry is extra once as many entries with its URI came before it as
/// `orig` holds. These were queued while shuffled.
pub open spec fn extras(now: Seq<TrackView>, orig: Seq<TrackView>) -> Seq<TrackView>
    decreases now.len(),
{
    if now.len() == 0 {
        Seq::empty()
    } else {
        let before = extras(now.drop_last(), orig);
        let e = now.last();
        if count_uri(now.drop_last(), e.uri) >= count_uri(orig, e.uri) {
            before.push(e)
        } else {
            before
        }
    }
}

/// The saved order followed by whatever was queued while shuffled.
pub open spec fn restored(now: Seq<TrackView>, orig: Seq<TrackView>) -> Seq<TrackView> {
    orig + extras(now, orig)
}

/// A URI that is counted occurs.
proof fn lemma_count_uri_occurs(s: Seq<TrackView>, uri: Seq<char>)
    requires
        count_uri(s, uri) > 0,
    ensures
        exists|k: int| 0 <= k < s.len() && s[k].uri == uri,
    decreases s.len(),
{
    if s.last().uri == uri {
        assert(s[s.len() - 1].uri == uri);
    } else {
        lemma_count_uri_occurs(s.drop_last(), uri);
        let k = choose|k: int| 0 <= k < s.drop_last().len() && s.drop_last()[k].uri == uri;
        assert(s[k] == s.drop_last()[k]);
    }
}

/// Every entry of `now` has its URI somewhere in the restored order.
proof fn lemma_uri_in_restored(now: Seq<TrackView>, orig: Seq<TrackView>, i: int)
    requires
        0 <= i < now.len(),
    ensures
        exists|k: int| 0 <= k < restored(now, orig).len() && restored(now, orig)[k].uri == now[i].uri,
    decreases now.len(),
{
    let r = restored(now, orig);
    let u = now[i].uri;
    if i == now.len() - 1 {
        if count_uri(now.drop_last(), u) >= count_uri(orig, u) {
            assert(extras(now, orig).last() == now[i]);
            assert(r[r.len() - 1] == now[i]);
        } else {
            lemma_count_uri_occurs(orig, u);
            let k = choose|k: int| 0 <= k < orig.len() && orig[k].uri == u;
            assert(r[k] == orig[k]);
        }
    } else {
        let d = now.drop_last();
        assert(d[i] == now[i]);
        lemma_uri_in_restored(d, orig, i);
        let rd = restored(d, orig);
        let k = choose|k: int| 0 <= k < rd.len() && rd[k].uri == u;
        assert(extras(now, orig).len() >= extras(d, orig).len());
        assert(r[k] == rd[k]) by {
            if k >= orig.len() {
                assert(extras(now, orig)[k - orig.len()] == extras(d, orig)[k - orig.len()]);
            }
        }
    }
}

/// Number of tracks with this URI.
fn count_uri_exec(v: &Vec<Track>, n: usize, uri: &String) -> (r: usize)
    requires
        n <= v@.len(),
    ensures
        r == count_uri(track_views(v@).take(n as int), uri@),
{
    let mut c: usize = 0;
    let mut k: usize = 0;
    assert(track_views(v@).take(0) =~= Seq::<TrackView>::empty());
    while k < n
        invariant
            k <= n <= v@.len(),
            c == count_uri(track_views(v@).take(k as int), uri@),
            c <= k,
        decreases n - k,
    {
        let ghost t = track_views(v@).take(k + 1);
        assert(t.drop_last() =~= track_views(v@).take(k as int));
        assert(t.last() == v@[k as int]@);
        if v[k].uri == *uri {
            c = c + 1;
        }
        k = k + 1;
    }
    c
}

impl QueueState {
    /// Undo the shuffle: the saved order, followed by tracks queued while
    /// shuffled, with the index re-pointed at the entry that is playing.
    fn restore_pre_shuffle(&mut self)
        requires
            old(self).wf(),
        ensures
            final(self).wf(),
            final(self).pre_shuffle is None,
            match old(self).saved() {
                None => final(self).entries == old(self).entries && final(self).current_index
                    == old(self).current_index,
                Some(orig) => if old(self).entries@.len() == 0 {
                    final(self).entries == old(self).entries && final(self).current_index
                        == old(self).current_index
                } else {
                    &&& final(self).tracks() == restored(old(self).tracks(), orig)
                    &&& final(self).current_index == match old(self).current_index {
                        Some(i) => Some(
                            first_uri_index(
                                restored(old(self).tracks(), orig),
                                old(self).tracks()[i as int].uri,
                            ) as usize,
                        ),
                        None => None,
                    }
                },
            },
            final(self).shuffle_enabled == old(self).shuffle_enabled,
            final(self).repeat_mode == old(self).repeat_mode,
            final(self).advance_state == old(self).advance_state,
            final(self).load_generation == old(self).load_generation,
            final(self).gapless_prefetched == old(self).gapless_prefetched,
            final(self).is_loading_track == old(self).is_loading_track,
            final(self).error == old(self).error,
            final(self).radio_status == old(self).radio_status,
    {
        let original = match self.pre_shuffle.take() {
            Some(v) => v,
            None => return,
        };
        assert(track_views(original@) == old(self).saved().unwrap());
        if self.entries.len() == 0 {
            return;
        }
        let ghost now = self.tracks();
        let ghost orig = track_views(original@);
        let mut merged = copy_tracks(&original);
        let mut k: usize = 0;
        assert(now.take(0) =~= Seq::<TrackView>::empty());
        while k < self.entries.len()
            invariant
                k <= self.entries@.len(),
                now == self.tracks(),
                orig == track_views(original@),
                track_views(merged@) == orig + extras(now.take(k as int), orig),
            decreases self.entries@.len() - k,
        {
            let uri = &self.entries[k].uri;
            let before = count_uri_exec(&self.entries, k, uri);
            let total = count_uri_exec(&original, original.len(), uri);
            let ghost t = now.take(k + 1);
            assert(t.drop_last() =~= now.take(k as int));
            assert(t.last() == self.entries@[k as int]@);
            assert(original@.len() == orig.len());
            assert(orig.take(orig.len() as int) =~= orig);
            if before >= total {
                let ghost prev = track_views(merged@);
                merged.push(self.entries[k].duplicate());
                assert(track_views(merged@) =~= prev.push(self.entries@[k as int]@));
            }
            k = k + 1;
        }
        assert(now.take(now.len() as int) =~= now);
        let current_uri = match self.current_index {
            Some(i) => Some(self.entries[i].uri.clone()),
            None => None,
        };
        self.entries = merged;
        match self.current_index {
            Some(i) => {
                let uri = current_uri.as_ref().unwrap();
                assert(uri@ == now[i as int].uri);
                proof {
                    lemma_uri_in_restored(now, orig, i as int);
                    lemma_first_uri_index(restored(now, orig), now[i as int].uri);
                    let w = choose|w: int| 0 <= w < restored(now, orig).len() && restored(now, orig)[w].uri == now[i as int].uri;
                    assert(restored(now, orig)[w].uri == now[i as int].uri);
                }
                match position_of_uri(&self.entries, uri) {
                    Some(p) => {
                        self.current_index = Some(p);
                    },
                    None => {},
                }
            },
            None => {},
        }
    }
}


/// What the queue holds after `play_list(tracks, start_idx)`: the list and
/// the clamped start, shuffled around the start entry when shuffle is on.
pub open spec fn seeded_ok(
    entries: Seq<TrackView>,
    current: usize,
    tracks: Seq<TrackView>,
    start: usize,
    shuffled: bool,
) -> bool {
    if !shuffled || tracks.len() <= 2 {
        entries == tracks && current == start
    } else {
        &&& current == 0
        &&& entries.len() == tracks.len()
        &&& entries[0] == tracks[start as int]
        &&& entries.to_multiset() == tracks.to_multiset()
        &&& forall|p: int| 1 <= p < entries.len() ==> #[trigger] spread_ok(entries, p)
    }
}

impl QueueState {
    /// Replace the queue with `tracks` and start playing entry `start_idx`
    /// (clamped to the last entry). With shuffle on, the original order is
    /// saved and the list is shuffled around the start entry. Nothing
    /// happens for an empty list.
    pub fn play_list(&mut self, tracks: Vec<Track>, start_idx: usize) -> (fx: QueueEffects)
        requires
            old(self).wf(),
        ensures
            final(self).wf(),
            tracks@.len() == 0 ==> *final(self) == *old(self) && fx == QueueEffects::none_spec(),
            tracks@.len() > 0 ==> {
                let start = if start_idx < tracks@.len() {
                    start_idx
                } else {
                    (tracks@.len() - 1) as usize
                };
                &&& final(self).current_index matches Some(c) && seeded_ok(
                    final(self).tracks(),
                    c,
                    track_views(tracks@),
                    start,
                    old(self).shuffle_enabled,
                )
                &&& final(self).saved() == if old(self).shuffle_enabled {
                    Some(track_views(tracks@))
                } else {
                    None
                }
                &&& final(self).advance_state == AdvanceState::Loading
                &&& final(self).load_generation == next_generation(old(self).load_generation)
                &&& fx == QueueEffects::jump_spec()
                &&& final(self).shuffle_enabled == old(self).shuffle_enabled
                &&& final(self).repeat_mode == old(self).repeat_mode
                &&& final(self).gapless_prefetched == old(self).gapless_prefetched
                &&& final(self).is_loading_track == old(self).is_loading_track
                &&& final(self).error == old(self).error
                &&& final(self).radio_status == old(self).radio_status
            },
    {
        let len = tracks.len();
        if len == 0 {
            return QueueEffects::none();
        }
        let idx = if start_idx < len {
            start_idx
        } else {
            len - 1
        };
        if self.shuffle_enabled {
            self.pre_shuffle = Some(copy_tracks(&tracks));
            let ghost tv = track_views(tracks@);
            let (shuffled, at) = shuffled_context(tracks, idx);
            assert(track_views(shuffled@).len() == shuffled@.len());
            assert(tv.len() == len);
            self.entries = shuffled;
            self.current_index = Some(at);
        } else {
            self.pre_shuffle = None;
            self.entries = tracks;
            self.current_index = Some(idx);
        }
        self.advance_state = AdvanceState::Loading;
        self.bump_load_generation();
        QueueEffects::none_jump()
    }

    /// Play `tracks` shuffled from a random entry, switching shuffle on.
    pub fn shuffle_all(&mut self, tracks: Vec<Track>) -> (fx: QueueEffects)
        requires
            old(self).wf(),
        ensures
            final(self).wf(),
            tracks@.len() == 0 ==> *final(self) == *old(self) && fx == QueueEffects::none_spec(),
            tracks@.len() > 0 ==> {
                &&& final(self).shuffle_enabled
                &&& final(self).saved() == Some(track_views(tracks@))
                &&& final(self).current_index matches Some(c) && exists|start: usize|
                    start < tracks@.len() && seeded_ok(
                        final(self).tracks(),
                        c,
                        track_views(tracks@),
                        start,
                        true,
                    )
                &&& final(self).advance_state == AdvanceState::Loading
                &&& final(self).load_generation == next_generation(old(self).load_generation)
                &&& fx == QueueEffects::jump_spec()
            },
    {
        if tracks.len() == 0 {
            return QueueEffects::none();
        }
        self.shuffle_enabled = true;
        let idx = random_below(tracks.len());
        self.play_list(tracks, idx)
    }

    /// Switch shuffle. Off restores the saved order (see
    /// [`QueueState::restore_pre_shuffle`]); on saves the order and shuffles
    /// around the current entry, when there is one and more than two entries.
    /// A load in flight is re-issued against the new order.
    pub fn toggle_shuffle(&mut self) -> (fx: QueueEffects)
        requires
            old(self).wf(),
        ensures
            final(self).wf(),
            final(self).shuffle_enabled == !old(self).shuffle_enabled,
            final(self).gapless_prefetched is None,
            fx.cancel_gapless == old(self).gapless_prefetched is Some,
            !fx.stop && !fx.stop_for_load && !fx.forget_position,
            final(self).repeat_mode == old(self).repeat_mode,
            final(self).advance_state == old(self).advance_state,
            final(self).is_loading_track == old(self).is_loading_track,
            final(self).error == old(self).error,
            final(self).radio_status == old(self).radio_status,
            old(self).shuffle_enabled ==> {
                &&& final(self).pre_shuffle is None
                &&& !fx.load
                &&& final(self).load_generation == old(self).load_generation
                &&& match old(self).saved() {
                    Some(orig) => old(self).entries@.len() > 0 ==> {
                        &&& final(self).tracks() == restored(old(self).tracks(), orig)
                        &&& final(self).current_index == match old(self).current_index {
                            Some(i) => Some(
                                first_uri_index(
                                    restored(old(self).tracks(), orig),
                                    old(self).tracks()[i as int].uri,
                                ) as usize,
                            ),
                            None => None,
                        }
                    },
                    None => final(self).entries == old(self).entries
                        && final(self).current_index == old(self).current_index,
                }
            },
            !old(self).shuffle_enabled ==> match old(self).current_index {
                Some(i) => if old(self).entries@.len() <= 2 {
                    &&& final(self).entries == old(self).entries
                    &&& final(self).current_index == old(self).current_index
                    &&& final(self).pre_shuffle == old(self).pre_shuffle
                    &&& !fx.load
                    &&& final(self).load_generation == old(self).load_generation
                } else {
                    &&& final(self).saved() == Some(old(self).tracks())
                    &&& final(self).current_index == Some(0usize)
                    &&& seeded_ok(final(self).tracks(), 0, old(self).tracks(), i, true)
                    &&& fx.load == (old(self).advance_state == AdvanceState::Loading)
                    &&& final(self).load_generation == if fx.load {
                        next_generation(old(self).load_generation)
                    } else {
                        old(self).load_generation
                    }
                },
                None => {
                    &&& final(self).entries == old(self).entries
                    &&& final(self).current_index is None
                    &&& final(self).pre_shuffle == old(self).pre_shuffle
                    &&& !fx.load
                    &&& final(self).load_generation == old(self).load_generation
                },
            },
    {
        let cancel = self.invalidate_gapless();
        let next = !self.shuffle_enabled;
        self.shuffle_enabled = next;
        if !next {
            self.restore_pre_shuffle();
            return QueueEffects { cancel_gapless: cancel, ..QueueEffects::none() };
        }
        let i = match self.current_index {
            Some(i) => i,
            None => return QueueEffects { cancel_gapless: cancel, ..QueueEffects::none() },
        };
        let len = self.entries.len();
        if len <= 2 || i >= len {
            return QueueEffects { cancel_gapless: cancel, ..QueueEffects::none() };
        }
        self.pre_shuffle = Some(copy_tracks(&self.entries));
        let mut current: Vec<Track> = Vec::new();
        std::mem::swap(&mut current, &mut self.entries);
        let (shuffled, at) = shuffled_context(current, i);
        self.entries = shuffled;
        self.current_index = Some(at);
        if self.advance_state == AdvanceState::Loading {
            self.bump_load_generation();
            return QueueEffects { cancel_gapless: cancel, load: true, ..QueueEffects::none() };
        }
        QueueEffects { cancel_gapless: cancel, ..QueueEffects::none() }
    }
}


// ---------------------------------------------------------------------------
// Loads and the watcher
// ---------------------------------------------------------------------------

/// How close to the end of a track (in milliseconds) the next entry is
/// prefetched for a gapless hand-off.
pub const GAPLESS_PREFETCH_WINDOW_MS: u64 = 12000;

/// What the player reported on one watcher tick.
#[derive(Clone, Copy, Debug, PartialEq, Eq, Structural)]
pub struct WatcherInput {
    pub has_source: bool,
    pub is_paused: bool,
    /// The in-process engine (not the external Spotify engine) is active.
    pub rodio_active: bool,
    pub position_ms: u64,
    pub duration_ms: Option<u64>,
    /// The engine moved on to appended audio since the last tick.
    pub gapless_advanced: bool,
}

/// What one watcher tick asks for.
#[derive(Clone, Copy, Debug, PartialEq, Eq, Structural)]
pub struct WatcherAction {
    /// Seek into the freshly loaded entry (seconds), resuming a session.
    pub seek_secs: Option<u64>,
    /// Prefetch this entry and append it for a gapless hand-off.
    pub prefetch: Option<usize>,
    /// The transport effects of a natural track end.
    pub effects: QueueEffects,
}

/// A tick that asks for nothing.
pub open spec fn idle_action() -> WatcherAction {
    WatcherAction { seek_secs: None, prefetch: None, effects: QueueEffects::none_spec() }
}

/// The entry a gapless hand-off would move to, mirroring a natural end.
pub open spec fn gapless_target(q: QueueState) -> Option<usize> {
    match q.current_index {
        None => None,
        Some(i) => if q.repeat_mode == RepeatMode::One {
            Some(i)
        } else if q.repeat_mode == RepeatMode::All && i + 1 >= q.entries@.len() {
            Some(0usize)
        } else if i + 1 < q.entries@.len() {
            Some((i + 1) as usize)
        } else {
            None
        },
    }
}

/// The track is near its end, playing on the in-process engine: a gapless
/// hand-off is due.
pub open spec fn in_prefetch_window(w: WatcherInput) -> bool {
    &&& w.rodio_active
    &&& !w.is_paused
    &&& w.duration_ms matches Some(d) && d > 0 && w.position_ms < d && d - w.position_ms
        <= GAPLESS_PREFETCH_WINDOW_MS
}

/// SoundCloud answered "not found".
pub open spec fn is_sc_not_found_spec(raw: Seq<char>) -> bool {
    contains(raw, "404"@) || contains(raw, "Not Found"@)
}

/// `raw` reports a 404.
pub fn is_sc_not_found(raw: &str) -> (r: bool)
    ensures
        r == is_sc_not_found_spec(raw@),
{
    str_contains(raw, "404") || str_contains(raw, "Not Found")
}

/// A load error that says the SoundCloud track cannot be streamed.
pub open spec fn is_sc_unavailable_spec(msg: Seq<char>) -> bool {
    contains(msg, "SoundCloud track is unavailable"@) || contains(
        msg,
        "SoundCloud stream is unavailable"@,
    )
}

/// Whether a load error says the SoundCloud track cannot be streamed.
pub fn is_sc_unavailable_message(msg: &str) -> (r: bool)
    ensures
        r == is_sc_unavailable_spec(msg@),
{
    str_contains(msg, "SoundCloud track is unavailable") || str_contains(
        msg,
        "SoundCloud stream is unavailable",
    )
}

/// The user-facing wording of a SoundCloud playback error.
pub open spec fn friendly_sc_error_spec(raw: Seq<char>) -> Seq<char> {
    if is_sc_not_found_spec(raw) {
        "SoundCloud track is unavailable. Try again or refresh SoundCloud in Settings."@
    } else if contains(raw, "401"@) || contains(raw, "Unauthorized"@) || contains(raw, "auth"@) {
        "SoundCloud session expired. Refresh SoundCloud in Settings."@
    } else {
        "SoundCloud playback failed. Try again later."@
    }
}

/// Map a raw SoundCloud error to the message the player bar shows.
pub fn friendly_sc_error(raw: &str) -> (r: String)
    ensures
        r@ == friendly_sc_error_spec(raw@),
{
    if is_sc_not_found(raw) {
        "SoundCloud track is unavailable. Try again or refresh SoundCloud in Settings.".to_string()
    } else if str_contains(raw, "401") || str_contains(raw, "Unauthorized") || str_contains(
        raw,
        "auth",
    ) {
        "SoundCloud session expired. Refresh SoundCloud in Settings.".to_string()
    } else {
        "SoundCloud playback failed. Try again later.".to_string()
    }
}

/// The queue after a gapless hand-off is committed: the index walks to the
/// prefetched entry when the marker belongs to this generation and names an
/// entry, and the marker is dropped.
pub open spec fn committed(q: QueueState) -> QueueState {
    QueueState {
        gapless_prefetched: None,
        current_index: match q.gapless_prefetched {
            Some((g, t)) => if g == q.load_generation && t < q.entries@.len() {
                Some(t)
            } else {
                q.current_index
            },
            None => q.current_index,
        },
        ..q
    }
}

/// The entry a tick near the end of a track prefetches: the gapless target,
/// unless it was already prefetched for this generation.
pub open spec fn prefetch_pick(q: QueueState, w: WatcherInput) -> Option<usize> {
    if in_prefetch_window(w) {
        match gapless_target(q) {
            Some(t) => if q.gapless_prefetched == Some((q.load_generation, t)) {
                None
            } else {
                Some(t)
            },
            None => None,
        }
    } else {
        None
    }
}

/// The queue after a prefetch of `p` was marked.
pub open spec fn prefetch_marked(q: QueueState, p: Option<usize>) -> QueueState {
    match p {
        Some(t) => QueueState { gapless_prefetched: Some((q.load_generation, t)), ..q },
        None => q,
    }
}

impl QueueState {
    /// A load tagged `(generation, idx, uri)` is still the one the queue
    /// wants: same generation, same index, same entry there.
    pub fn is_current_load(&self, generation: u64, idx: usize, uri: &str) -> (r: bool)
        ensures
            r == (self.load_generation == generation && self.current_index == Some(idx) && idx
                < self.entries@.len() && self.entries@[idx as int].uri@ == uri@),
    {
        if self.load_generation != generation {
            return false;
        }
        if self.current_index != Some(idx) {
            return false;
        }
        if idx < self.entries.len() {
            str_eq(self.entries[idx].uri.as_str(), uri)
        } else {
            false
        }
    }

    /// A load has started: the entry is fetching and old errors clear.
    pub fn load_started(&mut self)
        ensures
            *final(self) == (QueueState { is_loading_track: true, error: None, ..*old(self) }),
    {
        self.is_loading_track = true;
        self.error = None;
    }

    /// The current load succeeded in handing audio to the engine.
    pub fn load_succeeded(&mut self)
        ensures
            *final(self) == (QueueState { is_loading_track: false, ..*old(self) }),
    {
        self.is_loading_track = false;
    }

    /// The load of entry `idx` failed with `msg`. An unavailable SoundCloud
    /// entry with something after it is skipped; any other failure is shown
    /// and drops the queue to idle so a manual Next still works.
    pub fn load_failed(&mut self, idx: usize, provider: ProviderId, msg: String) -> (fx: QueueEffects)
        requires
            old(self).wf(),
        ensures
            final(self).wf(),
            provider == ProviderId::SoundCloud && is_sc_unavailable_spec(msg@) && idx + 1
                < old(self).entries@.len() ==> {
                &&& final(self).error matches Some(e) && e@ == "Skipped unavailable SoundCloud track."@
                &&& landed(
                    *final(self),
                    QueueState { error: final(self).error, ..*old(self) },
                    next_landing(*old(self)),
                    fx,
                )
            },
            !(provider == ProviderId::SoundCloud && is_sc_unavailable_spec(msg@) && idx + 1
                < old(self).entries@.len()) ==> {
                &&& *final(self) == (QueueState {
                    error: Some(msg),
                    advance_state: AdvanceState::Idle,
                    is_loading_track: false,
                    ..*old(self)
                })
                &&& fx == QueueEffects::none_spec()
            },
    {
        let len = self.entries.len();
        if provider == ProviderId::SoundCloud && is_sc_unavailable_message(msg.as_str()) && idx
            < len && idx + 1 < len {
            self.error = Some("Skipped unavailable SoundCloud track.".to_string());
            return self.next();
        }
        self.error = Some(msg);
        self.advance_state = AdvanceState::Idle;
        self.is_loading_track = false;
        QueueEffects::none()
    }

    /// Near the end of a track, pick the entry to append for a gapless
    /// hand-off and mark it, once per transition.
    pub fn maybe_prefetch_gapless(&mut self, w: WatcherInput) -> (r: Option<usize>)
        requires
            old(self).wf(),
        ensures
            final(self).wf(),
            r == prefetch_pick(*old(self), w),
            *final(self) == prefetch_marked(*old(self), r),
            match r {
                Some(t) => {
                    &&& in_prefetch_window(w)
                    &&& gapless_target(*old(self)) == Some(t)
                    &&& old(self).gapless_prefetched != Some((old(self).load_generation, t))
                    &&& *final(self) == (QueueState {
                        gapless_prefetched: Some((old(self).load_generation, t)),
                        ..*old(self)
                    })
                },
                None => {
                    &&& *final(self) == *old(self)
                    &&& (in_prefetch_window(w) ==> match gapless_target(*old(self)) {
                        Some(t) => old(self).gapless_prefetched == Some((old(self).load_generation, t)),
                        None => true,
                    })
                },
            },
    {
        if !w.rodio_active || w.is_paused {
            return None;
        }
        let dur = match w.duration_ms {
            Some(d) => d,
            None => return None,
        };
        if dur == 0 || w.position_ms >= dur || dur - w.position_ms > GAPLESS_PREFETCH_WINDOW_MS {
            return None;
        }
        let i = match self.current_index {
            Some(i) => i,
            None => return None,
        };
        let len = self.entries.len();
        let target = if self.repeat_mode == RepeatMode::One {
            i
        } else if self.repeat_mode == RepeatMode::All && i + 1 >= len {
            0
        } else if i + 1 < len {
            i + 1
        } else {
            return None;
        };
        let generation = self.load_generation;
        if self.gapless_prefetched == Some((generation, target)) {
            return None;
        }
        self.gapless_prefetched = Some((generation, target));
        Some(target)
    }

    /// A prefetch for `(generation, target)` is still wanted: no newer load
    /// and no queue edit cancelled it.
    pub fn prefetch_still_wanted(&self, generation: u64, target: usize) -> (r: bool)
        ensures
            r == (self.load_generation == generation && self.gapless_prefetched == Some(
                (generation, target),
            )),
    {
        self.load_generation == generation && self.gapless_prefetched == Some((generation, target))
    }

    /// The engine moved on to appended audio: walk the index to the
    /// prefetched entry when the marker belongs to this generation (and
    /// names an entry), then drop the marker.
    pub fn commit_gapless(&mut self)
        requires
            old(self).wf(),
        ensures
            final(self).wf(),
            *final(self) == committed(*old(self)),
            final(self).gapless_prefetched is None,
            final(self).current_index == match old(self).gapless_prefetched {
                Some((g, t)) => if g == old(self).load_generation && t < old(self).entries@.len() {
                    Some(t)
                } else {
                    old(self).current_index
                },
                None => old(self).current_index,
            },
            *final(self) == (QueueState {
                gapless_prefetched: None,
                current_index: final(self).current_index,
                ..*old(self)
            }),
    {
        if let Some((generation, idx)) = self.gapless_prefetched {
            if generation == self.load_generation && idx < self.entries.len() {
                self.current_index = Some(idx);
            }
        }
        self.gapless_prefetched = None;
    }

    /// One tick of the playback watcher. A gapless hand-off is committed
    /// first; then, by the advance state seen at the start of the tick: a
    /// load that produced a source starts Playing (and a saved mid-track
    /// position for this very entry is consumed and sought to); a playing
    /// source near its end may prefetch the next entry; a lost source while
    /// playing and not paused is a natural end.
    pub fn watcher_tick(&mut self, w: WatcherInput, resume_hint: &mut Option<(String, u64)>) -> (r: WatcherAction)
        requires
            old(self).wf(),
        ensures
            final(self).wf(),
            ({
                let mid = if w.gapless_advanced {
                    committed(*old(self))
                } else {
                    *old(self)
                };
                match old(self).advance_state {
                    AdvanceState::Loading => if w.has_source {
                        &&& *final(self) == (QueueState { advance_state: AdvanceState::Playing, ..mid })
                        &&& *final(resume_hint) is None
                        &&& r.seek_secs == match *old(resume_hint) {
                            Some((uri, secs)) => if mid.current_index matches Some(i) && uri@
                                == mid.entries@[i as int].uri@ {
                                Some(secs)
                            } else {
                                None
                            },
                            None => None,
                        }
                        &&& r.prefetch is None
                        &&& r.effects == QueueEffects::none_spec()
                    } else {
                        &&& *final(self) == mid
                        &&& r == idle_action()
                        &&& *final(resume_hint) == *old(resume_hint)
                    },
                    AdvanceState::Playing => if w.has_source {
                        &&& r.prefetch == prefetch_pick(mid, w)
                        &&& *final(self) == prefetch_marked(mid, r.prefetch)
                        &&& r.seek_secs is None
                        &&& r.effects == QueueEffects::none_spec()
                        &&& *final(resume_hint) == *old(resume_hint)
                    } else if !w.is_paused {
                        &&& landed(*final(self), mid, end_landing(mid), r.effects)
                        &&& r.seek_secs is None
                        &&& r.prefetch is None
                        &&& *final(resume_hint) == *old(resume_hint)
                    } else {
                        &&& *final(self) == mid
                        &&& r == idle_action()
                        &&& *final(resume_hint) == *old(resume_hint)
                    },
                    AdvanceState::Idle => {
                        &&& *final(self) == mid
                        &&& r == idle_action()
                        &&& *final(resume_hint) == *old(resume_hint)
                    },
                }
            }),
    {
        let current = self.advance_state;
        if w.gapless_advanced {
            self.commit_gapless();
        }
        let none = WatcherAction { seek_secs: None, prefetch: None, effects: QueueEffects::none() };
        match current {
            AdvanceState::Loading => {
                if w.has_source {
                    self.advance_state = AdvanceState::Playing;
                    let hint = resume_hint.take();
                    let seek = match hint {
                        Some((uri, secs)) => {
                            match self.current_index {
                                Some(i) => {
                                    if str_eq(self.entries[i].uri.as_str(), uri.as_str()) {
                                        Some(secs)
                                    } else {
                                        None
                                    }
                                },
                                None => None,
                            }
                        },
                        None => None,
                    };
                    WatcherAction { seek_secs: seek, ..none }
                } else {
                    none
                }
            },
            AdvanceState::Playing => {
                if w.has_source {
                    let p = self.maybe_prefetch_gapless(w);
                    WatcherAction { prefetch: p, ..none }
                } else if !w.is_paused {
                    let fx = self.advance_after_end();
                    WatcherAction { effects: fx, ..none }
                } else {
                    none
                }
            },
            AdvanceState::Idle => none,
        }
    }
}


/// How many watcher ticks pass between saves of the in-track position.
pub const POSITION_SAVE_EVERY_TICKS: u32 = 10;

/// Whether watcher tick number `tick` saves the in-track position: every
/// tenth tick, while audio is playing with a source and not paused.
pub fn position_save_due(tick: u32, state: AdvanceState, has_source: bool, paused: bool) -> (r: bool)
    ensures
        r == (tick % POSITION_SAVE_EVERY_TICKS == 0 && state == AdvanceState::Playing && has_source
            && !paused),
{
    tick % POSITION_SAVE_EVERY_TICKS == 0 && state == AdvanceState::Playing && has_source && !paused
}

impl QueueState {
    /// What tick number `tick` saves for a later mid-track resume, read
    /// before the tick is applied: the current entry's URI and the whole
    /// seconds played, when a save is due and an entry is current.
    pub fn position_to_save(&self, tick: u32, w: WatcherInput) -> (r: Option<(String, u64)>)
        requires
            self.wf(),
        ensures
            match r {
                Some((uri, secs)) => {
                    &&& tick % POSITION_SAVE_EVERY_TICKS == 0
                    &&& self.advance_state == AdvanceState::Playing
                    &&& w.has_source && !w.is_paused
                    &&& self.current_index matches Some(i) && uri@ == self.entries@[i as int].uri@
                    &&& secs == w.position_ms / 1000
                },
                None => !(tick % POSITION_SAVE_EVERY_TICKS == 0 && self.advance_state
                    == AdvanceState::Playing && w.has_source && !w.is_paused
                    && self.current_index is Some),
            },
    {
        if !position_save_due(tick, self.advance_state, w.has_source, w.is_paused) {
            return None;
        }
        match self.current_index {
            Some(i) => Some((self.entries[i].uri.clone(), w.position_ms / 1000)),
            None => None,
        }
    }
}

// ---------------------------------------------------------------------------
// Restoring a saved session
// ---------------------------------------------------------------------------

/// The saved index clamped to the last of `len` entries; the top when none
/// was saved.
pub open spec fn restored_index(saved: Option<usize>, len: nat) -> usize {
    match saved {
        Some(i) => if i < len {
            i
        } else {
            (len - 1) as usize
        },
        None => 0usize,
    }
}

/// Positions at or under this many seconds are not worth resuming into.
pub const RESUME_MIN_SECS: u64 = 5;

/// Rebuild the queue a previous session saved. Audio stays stopped: the
/// queue is idle at the restored entry. An empty saved list leaves the queue
/// empty. The saved mid-track position comes back as a one-shot resume hint
/// only when it is past five seconds and belongs to the restored entry.
pub fn restore_queue(
    entries: Vec<Track>,
    current_index: Option<usize>,
    shuffle: bool,
    repeat: RepeatMode,
    saved_pos: Option<(String, u64)>,
) -> (r: (QueueState, Option<(String, u64)>))
    ensures
        r.0.wf(),
        r.0.advance_state == AdvanceState::Idle,
        r.0.load_generation == 0,
        r.0.pre_shuffle is None,
        r.0.gapless_prefetched is None,
        r.0.radio_status == RadioStatus::Idle,
        r.0.error is None,
        !r.0.is_loading_track,
        entries@.len() == 0 ==> {
            &&& r.0.entries@.len() == 0
            &&& r.0.current_index is None
            &&& !r.0.shuffle_enabled
            &&& r.0.repeat_mode == RepeatMode::Off
            &&& r.1 is None
        },
        entries@.len() > 0 ==> {
            let idx = restored_index(current_index, entries@.len());
            &&& r.0.entries@ == entries@
            &&& r.0.current_index == Some(idx)
            &&& r.0.shuffle_enabled == shuffle
            &&& r.0.repeat_mode == repeat
            &&& r.1 == match saved_pos {
                Some((uri, secs)) => if secs > RESUME_MIN_SECS && uri@ == entries@[idx as int].uri@ {
                    Some((uri, secs))
                } else {
                    None
                },
                None => None,
            }
        },
{
    let mut q = QueueState::new();
    let len = entries.len();
    if len == 0 {
        return (q, None);
    }
    let idx = match current_index {
        Some(i) => if i < len {
            i
        } else {
            len - 1
        },
        None => 0,
    };
    let hint = match saved_pos {
        Some((uri, secs)) => if secs > RESUME_MIN_SECS && str_eq(entries[idx].uri.as_str(), uri.as_str()) {
            Some((uri, secs))
        } else {
            None
        },
        None => None,
    };
    q.entries = entries;
    q.current_index = Some(idx);
    q.shuffle_enabled = shuffle;
    q.repeat_mode = repeat;
    (q, hint)
}


// ---------------------------------------------------------------------------
// Song radio
// ---------------------------------------------------------------------------

/// How many discovery results a radio queue takes.
pub const RADIO_RESULTS: usize = 40;

/// The play targets of the first forty results, in order, results without
/// one skipped.
pub open spec fn radio_targets(results: Seq<DiscoveryResultView>) -> Seq<TrackView>
    decreases results.len(),
{
    let firsts = if results.len() > RADIO_RESULTS {
        results.take(RADIO_RESULTS as int)
    } else {
        results
    };
    targets_of(firsts)
}

/// The play targets of results, in order, results without one skipped.
pub open spec fn targets_of(results: Seq<DiscoveryResultView>) -> Seq<TrackView>
    decreases results.len(),
{
    if results.len() == 0 {
        Seq::empty()
    } else {
        let before = targets_of(results.drop_last());
        let r = results.last();
        match r.soundcloud {
            Some(t) => before.push(t),
            None => match r.spotify {
                Some(t) => before.push(t),
                None => before,
            },
        }
    }
}

impl QueueState {
    /// A radio lookup begins; returns the generation it must still match
    /// when its result arrives.
    pub fn start_song_radio(&mut self) -> (generation: u64)
        ensures
            generation == old(self).load_generation,
            *final(self) == (QueueState { radio_status: RadioStatus::Loading, ..*old(self) }),
    {
        self.radio_status = RadioStatus::Loading;
        self.load_generation
    }

    /// The radio lookup started at `generation` came back. Anything the user
    /// started meanwhile wins: the result is dropped. A failed lookup is
    /// shown and the seed still plays, alone. Otherwise the
    /// queue becomes the seed followed by the play targets of the first forty
    /// results, spread by artist with the seed kept first.
    pub fn finish_song_radio(
        &mut self,
        generation: u64,
        seed: Track,
        outcome: Result<Vec<DiscoveryResult>, String>,
    ) -> (fx: QueueEffects)
        requires
            old(self).wf(),
        ensures
            final(self).wf(),
            old(self).load_generation != generation ==> *final(self) == (QueueState {
                radio_status: RadioStatus::Idle,
                ..*old(self)
            }) && fx == QueueEffects::none_spec(),
            old(self).load_generation == generation ==> match outcome {
                Err(msg) => {
                    &&& final(self).radio_status == RadioStatus::Error(msg)
                    &&& final(self).tracks() == seq![seed@]
                    &&& final(self).current_index == Some(0usize)
                    &&& final(self).saved() == if old(self).shuffle_enabled {
                        Some(seq![seed@])
                    } else {
                        None
                    }
                    &&& final(self).advance_state == AdvanceState::Loading
                    &&& final(self).load_generation == next_generation(old(self).load_generation)
                    &&& final(self).shuffle_enabled == old(self).shuffle_enabled
                    &&& final(self).repeat_mode == old(self).repeat_mode
                    &&& fx == QueueEffects::jump_spec()
                },
                Ok(results) => {
                    let list = seq![seed@] + radio_targets(result_views(results@));
                    &&& final(self).radio_status == RadioStatus::Idle
                    &&& final(self).current_index matches Some(c)
                    &&& final(self).entries@.len() == list.len()
                    &&& final(self).advance_state == AdvanceState::Loading
                    &&& final(self).load_generation == next_generation(old(self).load_generation)
                    &&& fx == QueueEffects::jump_spec()
                    &&& final(self).tracks().to_multiset() == list.to_multiset()
                    &&& final(self).tracks()[0] == seed@
                    &&& final(self).current_index == Some(0usize)
                    &&& forall|p: int| 1 <= p < final(self).tracks().len() ==> #[trigger] spread_ok(final(self).tracks(), p)
                    &&& final(self).shuffle_enabled == old(self).shuffle_enabled
                    &&& final(self).repeat_mode == old(self).repeat_mode
                    &&& (!old(self).shuffle_enabled ==> final(self).saved() is None)
                    &&& (old(self).shuffle_enabled ==> (final(self).saved() matches Some(o) && {
                        &&& o.to_multiset() == list.to_multiset()
                        &&& o.len() == list.len()
                        &&& o[0] == seed@
                        &&& forall|p: int| 1 <= p < o.len() ==> #[trigger] spread_ok(o, p)
                    }))
                },
            },
    {
        if self.load_generation != generation {
            self.radio_status = RadioStatus::Idle;
            return QueueEffects::none();
        }
        match outcome {
            Err(msg) => {
                self.radio_status = RadioStatus::Error(msg);
                let mut only: Vec<Track> = Vec::new();
                let ghost sv = seed@;
                only.push(seed);
                assert(track_views(only@) =~= seq![sv]);
                self.play_list(only, 0)
            },
            Ok(results) => {
                let mut list: Vec<Track> = Vec::new();
                let ghost sv = seed@;
                list.push(seed);
                let n = if results.len() > RADIO_RESULTS {
                    RADIO_RESULTS
                } else {
                    results.len()
                };
                let ghost rv = result_views(results@);
                let ghost firsts = if rv.len() > RADIO_RESULTS { rv.take(RADIO_RESULTS as int) } else { rv };
                assert(firsts =~= rv.take(n as int));
                let mut i: usize = 0;
                assert(rv.take(0) =~= Seq::<DiscoveryResultView>::empty());
                assert(track_views(list@) =~= seq![sv] + targets_of(rv.take(0)));
                while i < n
                    invariant
                        i <= n <= results@.len(),
                        rv == result_views(results@),
                        track_views(list@) == seq![sv] + targets_of(rv.take(i as int)),
                    decreases n - i,
                {
                    let ghost t = rv.take(i + 1);
                    assert(t.drop_last() =~= rv.take(i as int));
                    assert(t.last() == results@[i as int]@);
                    let ghost before = track_views(list@);
                    match results[i].play_target() {
                        Some(tr) => {
                            let ghost tv = tr@;
                            list.push(tr);
                            assert(track_views(list@) =~= before.push(tv));
                        },
                        None => {},
                    }
                    i = i + 1;
                }
                assert(track_views(list@).len() == list@.len());
                let ghost pre = track_views(list@);
                assert(pre[0] == sv);
                assert(list@[0]@ == sv);
                spread_artists(&mut list);
                proof {
                    assert(track_views(list@)[0] == list@[0]@);
                    assert(track_views(list@).len() == pre.len());
                    assert(pre =~= seq![sv] + radio_targets(rv));
                }
                self.radio_status = RadioStatus::Idle;
                self.play_list(list, 0)
            },
        }
    }
}

/// Cycling the repeat mode three times comes back to the mode it started
/// from (Off → All → One → Off).
pub proof fn law_repeat_cycle_returns(m: RepeatMode)
    ensures
        cycled(cycled(cycled(m))) == m,
        cycled(m) != m,
{
}

/// In the middle of the queue, Next moves to the following entry and
/// Previous from there comes back to the entry Next left.
pub proof fn law_previous_undoes_next(q: QueueState, q2: QueueState, i: usize)
    requires
        q.current_index == Some(i),
        i + 1 < q.entries@.len(),
        jumped(q2, q, (i + 1) as usize),
    ensures
        next_landing(q) == Landing::Jump((i + 1) as usize),
        previous_landing(q2) == Landing::Jump(i),
{
    assert(q.entries@.len() == q.entries.len());
    assert(q2.current_index == Some((i + 1) as usize));
    let j = (i + 1) as usize;
    assert(j != 0);
    assert((j - 1) as usize == i);
}

/// Removing an entry other than the current one keeps the same track
/// current: the index the queue moves to holds the track that was playing.
pub proof fn law_remove_other_keeps_current(t: Seq<TrackView>, c: int, idx: int)
    requires
        0 <= c < t.len(),
        0 <= idx < t.len(),
        idx != c,
    ensures
        t.remove(idx)[if idx < c {
            c - 1
        } else {
            c
        }] == t[c],
{
}

/// "Play next" puts the track right after the current entry, which stays
/// where it was.
pub proof fn law_play_next_is_next(t: Seq<TrackView>, i: int, x: TrackView)
    requires
        0 <= i < t.len(),
    ensures
        t.insert(i + 1, x)[i + 1] == x,
        t.insert(i + 1, x)[i] == t[i],
        t.insert(i + 1, x).len() == t.len() + 1,
{
}

/// When nothing was queued while shuffled (the shuffled queue holds no URI
/// more often than the saved order), switching shuffle off gives back
/// exactly the saved order.
pub proof fn law_unshuffle_restores(now: Seq<TrackView>, orig: Seq<TrackView>)
    requires
        forall|u: Seq<char>| #[trigger] count_uri(now, u) <= count_uri(orig, u),
    ensures
        restored(now, orig) == orig,
    decreases now.len(),
{
    lemma_no_extras(now, orig);
    assert(orig + extras(now, orig) =~= orig);
}

/// Shuffle on, a few tracks queued, shuffle off: the order from before the
/// shuffle comes back with the queued tracks at its end, and the track that
/// was playing is still the current one. `order` is the queue before
/// shuffle (its URIs distinct, `i` the playing entry), `shuffled` what
/// switching shuffle on made of it (the same tracks, the playing one first,
/// as `toggle_shuffle` ensures), and `queued` what was added meanwhile (each
/// `add_to_queue` appends to both the queue and the saved order).
pub proof fn law_shuffle_round_trip(
    order: Seq<TrackView>,
    shuffled: Seq<TrackView>,
    queued: Seq<TrackView>,
    i: int,
)
    requires
        0 <= i < order.len(),
        forall|a: int, b: int| 0 <= a < b < order.len() ==> order[a].uri != order[b].uri,
        shuffled.to_multiset() == order.to_multiset(),
        shuffled.len() > 0,
        shuffled[0] == order[i],
    ensures
        restored(shuffled + queued, order + queued) == order + queued,
        first_uri_index(restored(shuffled + queued, order + queued), (shuffled + queued)[0].uri) == i,
{
    let now = shuffled + queued;
    let orig = order + queued;
    assert forall|u: Seq<char>| #[trigger] count_uri(now, u) <= count_uri(orig, u) by {
        lemma_count_concat(shuffled, queued, u);
        lemma_count_concat(order, queued, u);
        lemma_count_same_multiset(shuffled, order, u);
    }
    law_unshuffle_restores(now, orig);
    assert(now[0] == order[i]);
    lemma_first_uri_index(orig, order[i].uri);
    let f = first_uri_index(orig, order[i].uri);
    assert(orig[i] == order[i]);
    if f < i {
        assert(orig[f] == order[f]);
    }
    assert(!(f > i));
}

/// Counting by URI adds up over a concatenation.
proof fn lemma_count_concat(a: Seq<TrackView>, b: Seq<TrackView>, u: Seq<char>)
    ensures
        count_uri(a + b, u) == count_uri(a, u) + count_uri(b, u),
    decreases b.len(),
{
    if b.len() == 0 {
        assert(a + b =~= a);
    } else {
        assert((a + b).drop_last() =~= a + b.drop_last());
        lemma_count_concat(a, b.drop_last(), u);
    }
}

/// Dropping one entry lowers its URI's count by one.
proof fn lemma_count_remove(s: Seq<TrackView>, k: int, u: Seq<char>)
    requires
        0 <= k < s.len(),
    ensures
        count_uri(s, u) == count_uri(s.remove(k), u) + if s[k].uri == u {
            1nat
        } else {
            0nat
        },
{
    let one = seq![s[k]];
    assert(s =~= s.take(k) + (one + s.skip(k + 1)));
    assert(s.remove(k) =~= s.take(k) + s.skip(k + 1));
    lemma_count_concat(s.take(k), one + s.skip(k + 1), u);
    lemma_count_concat(one, s.skip(k + 1), u);
    lemma_count_concat(s.take(k), s.skip(k + 1), u);
    assert(one.drop_last() =~= Seq::<TrackView>::empty());
    assert(count_uri(one.drop_last(), u) == 0);
    assert(one.last() == s[k]);
    assert(count_uri(one, u) == if s[k].uri == u {
        1nat
    } else {
        0nat
    });
}

/// Two orders of the same tracks count every URI alike.
proof fn lemma_count_same_multiset(s: Seq<TrackView>, t: Seq<TrackView>, u: Seq<char>)
    requires
        s.to_multiset() == t.to_multiset(),
    ensures
        count_uri(s, u) == count_uri(t, u),
    decreases s.len(),
{
    broadcast use vstd::seq_lib::group_to_multiset_ensures;
    broadcast use vstd::multiset::group_multiset_axioms;

    if s.len() == 0 {
        assert(t.len() == t.to_multiset().len());
        assert(t.len() == 0);
    } else {
        let x = s.last();
        let d = s.drop_last();
        assert(s =~= d.push(x));
        assert(s.to_multiset() =~= d.to_multiset().insert(x));
        assert(t.to_multiset().count(x) > 0);
        assert(t.contains(x));
        let k = choose|k: int| 0 <= k < t.len() && t[k] == x;
        assert(t.remove(k).to_multiset() =~= t.to_multiset().remove(t[k]));
        assert(d.to_multiset() =~= d.to_multiset().insert(x).remove(x));
        lemma_count_same_multiset(d, t.remove(k), u);
        lemma_count_remove(t, k, u);
    }
}

proof fn lemma_no_extras(now: Seq<TrackView>, orig: Seq<TrackView>)
    requires
        forall|u: Seq<char>| #[trigger] count_uri(now, u) <= count_uri(orig, u),
    ensures
        extras(now, orig).len() == 0,
    decreases now.len(),
{
    if now.len() > 0 {
        let p = now.drop_last();
        assert forall|u: Seq<char>| #[trigger] count_uri(p, u) <= count_uri(orig, u) by {
            assert(count_uri(now, u) == count_uri(p, u) + if now.last().uri == u {
                1nat
            } else {
                0nat
            });
        }
        lemma_no_extras(p, orig);
        assert(count_uri(now, now.last().uri) == count_uri(p, now.last().uri) + 1);
    }
}

} // verus!
