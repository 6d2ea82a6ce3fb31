//! Shell vocabulary: the top-level sections and what each global keyboard
//! shortcut does.

use vstd::prelude::*;
use crate::text::{chars_of, contains, matches_at, str_contains, str_eq, string_of};

verus! {

broadcast use vstd::string::group_string_axioms;

/// Which top-level view is active.
#[derive(Clone, Copy, Debug, PartialEq, Eq, Structural)]
pub enum Section {
    Home,
    Discover,
    Library,
    Settings,
}

/// What a global shortcut does.
#[derive(Clone, Copy, Debug, PartialEq, Eq, Structural)]
pub enum HotkeyAction {
    PlayPause,
    Next,
    Previous,
    ToggleShuffle,
    CycleRepeat,
    LikeCurrent,
    VolumeUp,
    VolumeDown,
    ToggleVisualizer,
    CloseVisualizer,
    ToggleShortcuts,
    CloseShortcuts,
}

/// The action of each shortcut bridge the key listener clicks.
pub open spec fn hotkey_action_spec(id: Seq<char>) -> Option<HotkeyAction> {
    if id == "nira-key-playpause"@ {
        Some(HotkeyAction::PlayPause)
    } else if id == "nira-key-next"@ {
        Some(HotkeyAction::Next)
    } else if id == "nira-key-prev"@ {
        Some(HotkeyAction::Previous)
    } else if id == "nira-key-shuffle"@ {
        Some(HotkeyAction::ToggleShuffle)
    } else if id == "nira-key-repeat"@ {
        Some(HotkeyAction::CycleRepeat)
    } else if id == "nira-key-like"@ {
        Some(HotkeyAction::LikeCurrent)
    } else if id == "nira-key-volup"@ {
        Some(HotkeyAction::VolumeUp)
    } else if id == "nira-key-voldown"@ {
        Some(HotkeyAction::VolumeDown)
    } else if id == "nira-key-viz"@ {
        Some(HotkeyAction::ToggleVisualizer)
    } else if id == "nira-key-viz-close"@ {
        Some(HotkeyAction::CloseVisualizer)
    } else if id == "nira-key-binds"@ {
        Some(HotkeyAction::ToggleShortcuts)
    } else if id == "nira-key-binds-close"@ {
        Some(HotkeyAction::CloseShortcuts)
    } else {
        None
    }
}

/// The action behind a shortcut bridge id; none for any other id.
pub fn hotkey_action(id: &str) -> (r: Option<HotkeyAction>)
    ensures
        r == hotkey_action_spec(id@),
{
    if str_eq(id, "nira-key-playpause") {
        Some(HotkeyAction::PlayPause)
    } else if str_eq(id, "nira-key-next") {
        Some(HotkeyAction::Next)
    } else if str_eq(id, "nira-key-prev") {
        Some(HotkeyAction::Previous)
    } else if str_eq(id, "nira-key-shuffle") {
        Some(HotkeyAction::ToggleShuffle)
    } else if str_eq(id, "nira-key-repeat") {
        Some(HotkeyAction::CycleRepeat)
    } else if str_eq(id, "nira-key-like") {
        Some(HotkeyAction::LikeCurrent)
    } else if str_eq(id, "nira-key-volup") {
        Some(HotkeyAction::VolumeUp)
    } else if str_eq(id, "nira-key-voldown") {
        Some(HotkeyAction::VolumeDown)
    } else if str_eq(id, "nira-key-viz") {
        Some(HotkeyAction::ToggleVisualizer)
    } else if str_eq(id, "nira-key-viz-close") {
        Some(HotkeyAction::CloseVisualizer)
    } else if str_eq(id, "nira-key-binds") {
        Some(HotkeyAction::ToggleShortcuts)
    } else if str_eq(id, "nira-key-binds-close") {
        Some(HotkeyAction::CloseShortcuts)
    } else {
        None
    }
}

/// Play/Pause with nothing loaded starts the queue where it points: the
/// current entry, or the first.
pub fn playpause_start_index(current: Option<usize>) -> (r: usize)
    ensures
        r == match current {
            Some(i) => i,
            None => 0,
        },
{
    match current {
        Some(i) => i,
        None => 0,
    }
}


/// The app-wide status of background work (downloads, saves), shown as a
/// toast: the message, whether work is running, and whether it failed.
#[derive(Debug)]
pub struct BackgroundStatus {
    pub status: Option<String>,
    pub busy: bool,
    pub failed: bool,
}

impl BackgroundStatus {
    /// Nothing shown, idle.
    pub fn new() -> (r: BackgroundStatus)
        ensures
            r.status is None && !r.busy && !r.failed,
    {
        BackgroundStatus { status: None, busy: false, failed: false }
    }

    /// Work started: show the message, busy.
    pub fn start(&mut self, message: String)
        ensures
            final(self).status matches Some(m) && m@ == message@,
            final(self).busy && !final(self).failed,
    {
        self.status = Some(message);
        self.busy = true;
        self.failed = false;
    }

    /// Work finished: show the message, idle.
    pub fn finish(&mut self, message: String)
        ensures
            final(self).status matches Some(m) && m@ == message@,
            !final(self).busy && !final(self).failed,
    {
        self.status = Some(message);
        self.busy = false;
        self.failed = false;
    }

    /// Work failed: show the message, idle, marked failed.
    pub fn fail(&mut self, message: String)
        ensures
            final(self).status matches Some(m) && m@ == message@,
            !final(self).busy && final(self).failed,
    {
        self.status = Some(message);
        self.busy = false;
        self.failed = true;
    }

    /// The user closed the toast: the message goes, the flags stay.
    pub fn dismiss(&mut self)
        ensures
            final(self).status is None,
            final(self).busy == old(self).busy,
            final(self).failed == old(self).failed,
    {
        self.status = None;
    }
}

// ---------------------------------------------------------------------------
// Player bar labels
// ---------------------------------------------------------------------------

/// The title the player bar and the cover view show: what is playing, when
/// it has a title; with nothing loaded, the queue's current entry (Play
/// starts exactly it); else "Nothing loaded".
pub open spec fn bar_title_spec(
    playing_title: Option<Seq<char>>,
    has_source: bool,
    queued_title: Option<Seq<char>>,
) -> Seq<char> {
    match playing_title {
        Some(t) => if t.len() > 0 {
            t
        } else {
            "Nothing loaded"@
        },
        None => match queued_title {
            Some(q) => if !has_source {
                q
            } else {
                "Nothing loaded"@
            },
            None => "Nothing loaded"@,
        },
    }
}

/// The title line of the player bar (see [`bar_title_spec`]).
pub fn bar_title(playing_title: Option<String>, has_source: bool, queued_title: Option<String>) -> (r: String)
    ensures
        r@ == bar_title_spec(
            match playing_title {
                Some(t) => Some(t@),
                None => None,
            },
            has_source,
            match queued_title {
                Some(q) => Some(q@),
                None => None,
            },
        ),
{
    match playing_title {
        Some(t) => if !t.as_str().is_empty() {
            t
        } else {
            String::from_str("Nothing loaded")
        },
        None => match queued_title {
            Some(q) => if !has_source {
                q
            } else {
                String::from_str("Nothing loaded")
            },
            None => String::from_str("Nothing loaded"),
        },
    }
}

/// The artist line under the title: the playing artist when there is one;
/// with no source and a queue waiting, how to start it; else a dash.
pub open spec fn bar_meta_spec(playing_artist: Option<Seq<char>>, has_source: bool, queue_len: nat) -> Seq<
    char,
> {
    match playing_artist {
        Some(a) if a.len() > 0 => a,
        _ => if !has_source && queue_len > 0 {
            "press play to start the queue"@
        } else {
            "—"@
        },
    }
}

/// The artist line of the player bar (see [`bar_meta_spec`]).
pub fn bar_meta(playing_artist: Option<String>, has_source: bool, queue_len: usize) -> (r: String)
    ensures
        r@ == bar_meta_spec(
            match playing_artist {
                Some(a) => Some(a@),
                None => None,
            },
            has_source,
            queue_len as nat,
        ),
{
    match playing_artist {
        Some(a) if !a.as_str().is_empty() => a,
        _ => if !has_source && queue_len > 0 {
            String::from_str("press play to start the queue")
        } else {
            String::from_str("—")
        },
    }
}

// ---------------------------------------------------------------------------
// Cover files
// ---------------------------------------------------------------------------

/// Index just past the last `/` of `s`, or 0 without one.
pub open spec fn after_last_slash(s: Seq<char>) -> int
    decreases s.len(),
{
    if s.len() == 0 {
        0
    } else if s.last() == '/' {
        s.len() as int
    } else {
        after_last_slash(s.drop_last())
    }
}

/// The file a cover request names: the last path segment, refused when it
/// is empty or holds `..`, so a crafted URL cannot leave the covers folder.
pub open spec fn cover_name_spec(path: Seq<char>) -> Option<Seq<char>> {
    let name = path.subrange(after_last_slash(path), path.len() as int);
    if name.len() == 0 || contains(name, ".."@) {
        None
    } else {
        Some(name)
    }
}

proof fn lemma_after_last_slash(s: Seq<char>)
    ensures
        0 <= after_last_slash(s) <= s.len(),
        after_last_slash(s) > 0 ==> s[after_last_slash(s) - 1] == '/',
        forall|k: int| after_last_slash(s) <= k < s.len() ==> s[k] != '/',
    decreases s.len(),
{
    if s.len() > 0 && s.last() != '/' {
        lemma_after_last_slash(s.drop_last());
        assert forall|k: int| after_last_slash(s) <= k < s.len() implies s[k] != '/' by {
            if k < s.len() - 1 {
                assert(s[k] == s.drop_last()[k]);
            }
        }
        if after_last_slash(s) > 0 {
            assert(s[after_last_slash(s) - 1] == s.drop_last()[after_last_slash(s) - 1]);
        }
    }
}

/// The cover file a request path names (see [`cover_name_spec`]).
pub fn cover_request_name(path: &str) -> (r: Option<String>)
    ensures
        match r {
            Some(n) => cover_name_spec(path@) == Some(n@),
            None => cover_name_spec(path@) is None,
        },
{
    let v = chars_of(path);
    let mut start: usize = 0;
    let mut i: usize = 0;
    proof {
        lemma_after_last_slash(v@);
    }
    while i < v.len()
        invariant
            i <= v@.len(),
            start <= i,
            start == after_last_slash(v@.take(i as int)),
        decreases v@.len() - i,
    {
        assert(v@.take(i + 1).drop_last() =~= v@.take(i as int));
        if v[i] == '/' {
            start = i + 1;
        }
        i = i + 1;
    }
    assert(v@.take(v@.len() as int) =~= v@);
    let mut name: Vec<char> = Vec::new();
    let mut k: usize = start;
    while k < v.len()
        invariant
            start <= k <= v@.len(),
            name@ == v@.subrange(start as int, k as int),
        decreases v@.len() - k,
    {
        name.push(v[k]);
        assert(name@ =~= v@.subrange(start as int, k + 1));
        k = k + 1;
    }
    let n = string_of(&name);
    if name.len() == 0 || str_contains(n.as_str(), "..") {
        None
    } else {
        Some(n)
    }
}

/// The content type a cover is served with: PNG by its extension, JPEG
/// otherwise.
pub open spec fn cover_mime_spec(name: Seq<char>) -> Seq<char> {
    if name.len() >= 4 && name.subrange(name.len() - 4, name.len() as int) == ".png"@ {
        "image/png"@
    } else {
        "image/jpeg"@
    }
}

/// The content type of a cover file (see [`cover_mime_spec`]).
pub fn cover_mime(name: &str) -> (r: String)
    ensures
        r@ == cover_mime_spec(name@),
{
    proof {
        reveal_strlit(".png");
    }
    let v = chars_of(name);
    let png = chars_of(".png");
    let n = v.len();
    if n >= 4 && matches_at(&v, &png, n - 4) {
        String::from_str("image/png")
    } else {
        String::from_str("image/jpeg")
    }
}

} // verus!
