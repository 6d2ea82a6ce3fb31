//! The Discover page: a typed seed runs a similar-tracks search; bridge
//! mode works from a picked track instead.

use vstd::prelude::*;
use crate::candidates::DiscoveryError;
use crate::discovery::{DiscoveryResult, SimilarToSeed, result_views, seed_parts};

verus! {

/// What the Discover page is driving.
#[derive(Clone, Copy, Debug, PartialEq, Eq, Structural)]
pub enum DiscoveryMode {
    SimilarTo,
    CrossPlatformBridge,
}

/// Why bridge mode does nothing with typed text.
pub open spec fn bridge_from_text_text() -> Seq<char> {
    "Bridge mode resolves a known track — type a seed in Similar-to mode, then click a result to bridge it."@
}

/// Why a typed seed without a title runs nothing.
pub open spec fn no_title_text() -> Seq<char> {
    "Type an artist and title first."@
}

/// What an empty successful run shows.
pub open spec fn no_neighbours_found_text() -> Seq<char> {
    "No neighbours found — try a more popular seed track."@
}

/// The seed a press of "run" searches with: in bridge mode none (typed
/// text cannot be bridged); otherwise the seed read from the input, unless
/// it has no title.
pub fn discover_request(mode: DiscoveryMode, input: &str) -> (r: Result<SimilarToSeed, String>)
    ensures
        mode == DiscoveryMode::CrossPlatformBridge ==> (r matches Err(e) && e@ == bridge_from_text_text()),
        mode == DiscoveryMode::SimilarTo ==> match r {
            Ok(seed) => (seed.artist@, seed.title@) == seed_parts(input@) && seed.title@.len() > 0
                && seed.mbid is None,
            Err(e) => seed_parts(input@).1.len() == 0 && e@ == no_title_text(),
        },
{
    match mode {
        DiscoveryMode::CrossPlatformBridge => {
            proof {
                reveal_strlit(
                    "Bridge mode resolves a known track — type a seed in Similar-to mode, then click a result to bridge it.",
                );
            }
            Err(
                String::from_str(
                    "Bridge mode resolves a known track — type a seed in Similar-to mode, then click a result to bridge it.",
                ),
            )
        },
        DiscoveryMode::SimilarTo => {
            let seed = SimilarToSeed::from_input(input);
            if seed.title.as_str().is_empty() {
                proof {
                    reveal_strlit("Type an artist and title first.");
                }
                Err(String::from_str("Type an artist and title first."))
            } else {
                Ok(seed)
            }
        },
    }
}

/// What the page shows after a run: the results, or why there are none.
pub fn similar_outcome(run: Result<Vec<DiscoveryResult>, DiscoveryError>) -> (r: Result<Vec<DiscoveryResult>, String>)
    ensures
        match run {
            Ok(rs) => if rs@.len() > 0 {
                r matches Ok(v) && result_views(v@) == result_views(rs@)
            } else {
                r matches Err(e) && e@ == no_neighbours_found_text()
            },
            Err(e) => r matches Err(m) && m@ == e.message_spec(),
        },
{
    match run {
        Ok(rs) => if rs.len() > 0 {
            Ok(rs)
        } else {
            proof {
                reveal_strlit("No neighbours found — try a more popular seed track.");
            }
            Err(String::from_str("No neighbours found — try a more popular seed track."))
        },
        Err(e) => Err(e.message()),
    }
}

} // verus!
