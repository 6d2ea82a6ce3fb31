//! The artist page's decisions: when a SoundCloud profile borrows its
//! discography from a Spotify twin, which artist the Related tab asks about,
//! and how a newer navigation supersedes a slower load.

use vstd::prelude::*;
use crate::queue::next_generation;
use crate::text::concat;
use crate::track::ProviderId;

verus! {

/// Whether a loaded artist should borrow albums from a Spotify twin: it came
/// back with no albums and is not on Spotify itself.
pub fn needs_spotify_twin(album_count: usize, provider: ProviderId) -> (r: bool)
    ensures
        r == (album_count == 0 && provider != ProviderId::Spotify),
{
    album_count == 0 && provider != ProviderId::Spotify
}

/// The Spotify artist the Related tab asks about: the artist itself on
/// Spotify; elsewhere the Spotify twin it borrowed from, if any.
pub fn related_source_uri(provider: ProviderId, artist_uri: &String, via_spotify: &Option<String>) -> (r: Option<String>)
    ensures
        match provider {
            ProviderId::Spotify => r matches Some(u) && u@ == artist_uri@,
            _ => match via_spotify {
                Some(v) => r matches Some(u) && u@ == v@,
                None => r is None,
            },
        },
{
    match provider {
        ProviderId::Spotify => Some(artist_uri.clone()),
        _ => match via_spotify {
            Some(v) => Some(v.clone()),
            None => None,
        },
    }
}

/// What the page shows when the banner could not load: "artist: " and the
/// provider's error.
pub fn artist_load_error(err: &str) -> (r: String)
    ensures
        r@ == "artist: "@ + err@,
{
    concat("artist: ", err)
}

/// Which artist load is current: each navigation takes the next number, and
/// only the newest may write to the page.
#[derive(Debug)]
pub struct ArtistLoads {
    pub generation: u64,
}

impl ArtistLoads {
    /// No load started yet.
    pub fn new() -> (r: ArtistLoads)
        ensures
            r.generation == 0,
    {
        ArtistLoads { generation: 0 }
    }

    /// Start a load: it takes the next number (wrapping), which it returns.
    pub fn begin(&mut self) -> (r: u64)
        ensures
            r == next_generation(old(self).generation),
            final(self).generation == r,
    {
        self.generation = if self.generation == u64::MAX { 0 } else { self.generation + 1 };
        self.generation
    }

    /// Whether the load that took `generation` is still the newest.
    pub fn is_current(&self, generation: u64) -> (r: bool)
        ensures
            r == (generation == self.generation),
    {
        generation == self.generation
    }
}

/// A load superseded by a newer navigation never writes: after `begin` runs
/// again, the earlier number is no longer current.
pub proof fn law_newer_navigation_wins(g: u64)
    ensures
        next_generation(g) != g,
{
}

} // verus!
