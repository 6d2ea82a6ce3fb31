//! The Home "Listened lately" feed from ListenBrainz: which username it
//! follows, and when a settings change calls for a new fetch.

use vstd::prelude::*;
use crate::text::{str_eq, trim, trim_str};
use crate::track::opt_view;

verus! {

/// How many listens the feed shows.
pub const FEED_LIMIT: u32 = 10;

/// The username the feed follows: the configured one, trimmed, unless blank.
pub open spec fn feed_username_spec(configured: Option<Seq<char>>) -> Option<Seq<char>> {
    match configured {
        Some(u) => if trim(u).len() > 0 {
            Some(trim(u))
        } else {
            None
        },
        None => None,
    }
}

/// The username the feed follows: the configured one, trimmed, unless blank.
pub fn feed_username(configured: &Option<String>) -> (r: Option<String>)
    ensures
        opt_view(r) == feed_username_spec(opt_view(*configured)),
{
    match configured {
        Some(u) => {
            let t = trim_str(u.as_str());
            if t.as_str().is_empty() {
                None
            } else {
                Some(t)
            }
        },
        None => None,
    }
}

/// What a settings change asks of the feed.
#[derive(Debug)]
pub enum FeedAction {
    /// The username did not change (another setting did): nothing to do.
    Unchanged,
    /// No username: clear the feed and ask for one in Settings.
    NeedsConfig,
    /// Fetch the listens of this user.
    Fetch(String),
}

/// Which username the feed's state belongs to: `None` before the first
/// settings read, so that one always applies.
#[derive(Debug)]
pub struct FeedState {
    applied_for: Option<Option<String>>,
}

impl FeedState {
    /// What the state was applied for.
    pub closed spec fn applied(&self) -> Option<Option<Seq<char>>> {
        match self.applied_for {
            Some(u) => Some(opt_view(u)),
            None => None,
        }
    }

    /// Nothing applied yet.
    pub fn new() -> (r: FeedState)
        ensures
            r.applied() is None,
    {
        FeedState { applied_for: None }
    }

    /// React to the settings: nothing when the followed username is the
    /// one already applied; otherwise record it and clear the feed (no
    /// username) or fetch its listens.
    pub fn on_settings(&mut self, configured: &Option<String>) -> (a: FeedAction)
        ensures
            ({
                let want = feed_username_spec(opt_view(*configured));
                if old(self).applied() == Some(want) {
                    a is Unchanged && final(self).applied() == old(self).applied()
                } else {
                    &&& final(self).applied() == Some(want)
                    &&& match want {
                        Some(u) => a matches FeedAction::Fetch(n) && n@ == u,
                        None => a is NeedsConfig,
                    }
                }
            }),
    {
        let want = feed_username(configured);
        let same = match &self.applied_for {
            Some(prev) => match (prev, &want) {
                (Some(p), Some(w)) => str_eq(p.as_str(), w.as_str()),
                (None, None) => true,
                _ => false,
            },
            None => false,
        };
        if same {
            return FeedAction::Unchanged;
        }
        match want {
            Some(u) => {
                self.applied_for = Some(Some(u.clone()));
                FeedAction::Fetch(u)
            },
            None => {
                self.applied_for = Some(None);
                FeedAction::NeedsConfig
            },
        }
    }
}

} // verus!
