//! The plan of the Home dashboard: which shelves and daily mixes a refresh
//! loads, with their headings, from seeds already drawn from the listening
//! profile.

use vstd::prelude::*;
use crate::candidates::copy_strings;
use crate::config::{decimal, to_decimal};
use crate::home::{RecommendationMix, RecommendationShelf};
use crate::normalize::{normalise_text, normalise_text_spec};
use crate::recommend::{
    RecommendationSeed, SeedView, curate_spec, curate_tracks, dedupe_tracks, dedupe_tracks_spec,
    diverse_seeds, diverse_spec, seed_artist_count, seed_from_parts, seed_from_track, seed_spec,
    seed_views, joined_names, track_key, track_key_spec,
};
use crate::related::first_n;
use crate::text::{concat, contains_string, string_views};
use crate::track::{Track, TrackView, track_views};

verus! {

broadcast use vstd::string::group_string_axioms;

/// How many daily mixes the dashboard shows.
pub const DAILY_MIX_COUNT: usize = 4;

/// How many tracks a shelf shows.
pub const SHELF_LIMIT: usize = 14;

/// How many tracks a daily mix holds.
pub const DAILY_MIX_LIMIT: usize = 18;

/// At most this many tracks of one artist in a related row or a mix.
pub const MIX_ARTIST_CAP: usize = 3;

/// How many seeds "Made for you" blends.
pub const MADE_FOR_YOU_SEEDS: usize = 10;

/// At most this many "Made for you" seeds of one artist.
pub const MADE_FOR_YOU_ARTIST_CAP: usize = 2;

/// The profile has something to seed "Made for you" with: a play or a like
/// whose artist and title are both non-blank. A play is `(artist, title)`.
pub open spec fn has_profile_seed(plays: Seq<(Seq<char>, Seq<char>)>, liked: Seq<TrackView>) -> bool {
    ||| exists|i: int| 0 <= i < plays.len() && (#[trigger] seed_spec(plays[i].0, plays[i].1, None)) is Some
    ||| exists|j: int| 0 <= j < liked.len() && (#[trigger] seed_spec(
        joined_names(liked[j].artists),
        liked[j].title,
        Some(liked[j].uri),
    )) is Some
}

/// The seeds of "Made for you" from the profile's draw: at most two of any
/// one artist, in draw order, at most ten.
pub open spec fn made_for_you_spec(draw: Seq<SeedView>) -> Seq<SeedView> {
    let d = diverse_spec(draw, MADE_FOR_YOU_ARTIST_CAP as nat);
    if d.len() <= MADE_FOR_YOU_SEEDS {
        d
    } else {
        d.take(MADE_FOR_YOU_SEEDS as int)
    }
}

/// Some seed of `s` has this normalised artist.
pub open spec fn has_artist(s: Seq<SeedView>, key: Seq<char>) -> bool {
    exists|j: int| 0 <= j < s.len() && normalise_text_spec((#[trigger] s[j]).artist) == key
}

/// The first seed of each normalised artist, in order.
pub open spec fn one_per_artist(s: Seq<SeedView>) -> Seq<SeedView>
    decreases s.len(),
{
    if s.len() == 0 {
        Seq::empty()
    } else {
        let p = one_per_artist(s.drop_last());
        if has_artist(p, normalise_text_spec(s.last().artist)) {
            p
        } else {
            p.push(s.last())
        }
    }
}

/// Whether the profile can seed "Made for you" (see [`has_profile_seed`]).
pub fn profile_has_seed(plays: &Vec<(String, String)>, liked: &Vec<Track>) -> (r: bool)
    ensures
        r == has_profile_seed(
            plays@.map_values(|p: (String, String)| (p.0@, p.1@)),
            track_views(liked@),
        ),
{
    let ghost pv = plays@.map_values(|p: (String, String)| (p.0@, p.1@));
    let ghost lv = track_views(liked@);
    let mut i: usize = 0;
    while i < plays.len()
        invariant
            i <= plays@.len(),
            pv == plays@.map_values(|p: (String, String)| (p.0@, p.1@)),
            forall|k: int| 0 <= k < i ==> (#[trigger] seed_spec(pv[k].0, pv[k].1, None)) is None,
        decreases plays@.len() - i,
    {
        if seed_from_parts(plays[i].0.as_str(), plays[i].1.as_str(), None).is_some() {
            assert(seed_spec(pv[i as int].0, pv[i as int].1, None) is Some);
            return true;
        }
        i = i + 1;
    }
    let mut j: usize = 0;
    while j < liked.len()
        invariant
            j <= liked@.len(),
            lv == track_views(liked@),
            forall|k: int| 0 <= k < j ==> (#[trigger] seed_spec(
                joined_names(lv[k].artists),
                lv[k].title,
                Some(lv[k].uri),
            )) is None,
        decreases liked@.len() - j,
    {
        if seed_from_track(&liked[j]).is_some() {
            assert(lv[j as int] == liked@[j as int]@);
            assert(seed_spec(joined_names(lv[j as int].artists), lv[j as int].title, Some(lv[j as int].uri)) is Some);
            return true;
        }
        j = j + 1;
    }
    false
}

/// The seeds "Made for you" blends, from the profile's draw (see
/// [`made_for_you_spec`]).
pub fn made_for_you_seeds(draw: Vec<RecommendationSeed>) -> (r: Vec<RecommendationSeed>)
    ensures
        seed_views(r@) == made_for_you_spec(seed_views(draw@)),
{
    let d = diverse_seeds(draw, MADE_FOR_YOU_ARTIST_CAP);
    let ghost dv = seed_views(d@);
    let n = if d.len() <= MADE_FOR_YOU_SEEDS {
        d.len()
    } else {
        MADE_FOR_YOU_SEEDS
    };
    let mut out: Vec<RecommendationSeed> = Vec::new();
    let mut i: usize = 0;
    while i < n
        invariant
            i <= n <= d@.len(),
            dv == seed_views(d@),
            seed_views(out@) == dv.take(i as int),
        decreases n - i,
    {
        let ghost before = seed_views(out@);
        out.push(d[i].duplicate());
        assert(seed_views(out@) =~= before.push(dv[i as int]));
        assert(dv.take(i + 1) =~= dv.take(i as int).push(dv[i as int]));
        i = i + 1;
    }
    assert(dv.take(dv.len() as int) =~= dv);
    out
}

/// The first seed of each normalised artist, in order (see
/// [`one_per_artist`]).
pub fn one_per_artist_seeds(seeds: Vec<RecommendationSeed>) -> (r: Vec<RecommendationSeed>)
    ensures
        seed_views(r@) == one_per_artist(seed_views(seeds@)),
{
    let ghost s = seed_views(seeds@);
    let mut keys: Vec<String> = Vec::new();
    let mut out: Vec<RecommendationSeed> = Vec::new();
    let mut i: usize = 0;
    while i < seeds.len()
        invariant
            i <= seeds@.len(),
            s == seed_views(seeds@),
            seed_views(out@) == one_per_artist(s.take(i as int)),
            keys@.len() == out@.len(),
            forall|j: int| 0 <= j < keys@.len() ==> (#[trigger] keys@[j])@ == normalise_text_spec(
                out@[j]@.artist,
            ),
        decreases seeds@.len() - i,
    {
        let ghost q = s.take(i + 1);
        let ghost before = seed_views(out@);
        assert(q.drop_last() =~= s.take(i as int));
        assert(q.last() == seeds@[i as int]@);
        let key = normalise_text(seeds[i].artist.as_str());
        let seen = contains_string(&keys, key.as_str());
        proof {
            if seen {
                let j = choose|j: int| 0 <= j < keys@.len() && string_views(keys@)[j] == key@;
                assert(before[j] == out@[j]@);
                assert(has_artist(before, key@));
            } else if has_artist(before, key@) {
                let j = choose|j: int| 0 <= j < before.len() && normalise_text_spec((#[trigger] before[j]).artist) == key@;
                assert(string_views(keys@)[j] == keys@[j]@);
                assert(string_views(keys@).contains(key@));
            }
        }
        if !seen {
            keys.push(key);
            out.push(seeds[i].duplicate());
            assert(seed_views(out@) =~= before.push(seeds@[i as int]@));
        }
        i = i + 1;
    }
    assert(s.take(seeds@.len() as int) =~= s);
    out
}

/// What a shelf loads.
#[derive(Debug)]
pub enum ShelfKind {
    /// Related feeds of many seeds, blended.
    RelatedAggregate { seeds: Vec<RecommendationSeed>, exclude_keys: Vec<String> },
    /// The related feed of one seed.
    Related { seed: RecommendationSeed, exclude_keys: Vec<String> },
    /// Recent uploads of these SoundCloud artists.
    ArtistUploads { artists: Vec<String> },
    /// These tracks as they are.
    StaticTracks { tracks: Vec<Track> },
    /// A SoundCloud chart.
    Chart { genre: String },
    /// A SoundCloud search.
    Search { query: String },
}

/// A shelf to load, with its headings.
#[derive(Debug)]
pub struct ShelfPlan {
    pub id: String,
    pub eyebrow: String,
    pub title: String,
    pub subtitle: String,
    pub seed_label: String,
    pub rerollable: bool,
    pub kind: ShelfKind,
}

/// A daily mix to load.
#[derive(Debug)]
pub struct MixPlan {
    pub id: String,
    pub title: String,
    pub subtitle: String,
    pub seed_label: String,
    pub seed: RecommendationSeed,
    pub accent_index: usize,
    pub exclude_keys: Vec<String>,
}

/// The genre rows: id suffix, heading, search query.
pub open spec fn genre_shelves() -> Seq<(Seq<char>, Seq<char>, Seq<char>)> {
    seq![
        ("electronic"@, "Electronic"@, "electronic"@),
        ("hiphoprap"@, "Hip-Hop / Rap"@, "hip hop rap"@),
        ("house"@, "House"@, "house music"@),
        ("techno"@, "Techno"@, "techno"@),
        ("ambient"@, "Ambient"@, "ambient"@),
        ("dnb"@, "Drum & Bass"@, "drum and bass"@),
        ("indie"@, "Indie"@, "indie"@),
    ]
}

/// The keys a refresh keeps out of the rows: every liked track's key, then
/// what the previous dashboard showed.
pub open spec fn exclude_keys_spec(liked: Seq<TrackView>, prev: Seq<Seq<char>>) -> Seq<Seq<char>> {
    liked.map_values(|t: TrackView| track_key_spec(t)) + prev
}

/// The keys a refresh keeps out of the rows.
pub fn exclude_keys_for(liked: &Vec<Track>, prev_keys: &Vec<String>) -> (r: Vec<String>)
    ensures
        string_views(r@) == exclude_keys_spec(track_views(liked@), string_views(prev_keys@)),
{
    let ghost lk = track_views(liked@).map_values(|t: TrackView| track_key_spec(t));
    let mut out: Vec<String> = Vec::new();
    let mut i: usize = 0;
    while i < liked.len()
        invariant
            i <= liked@.len(),
            lk == track_views(liked@).map_values(|t: TrackView| track_key_spec(t)),
            string_views(out@) == lk.take(i as int),
        decreases liked@.len() - i,
    {
        let k = track_key(&liked[i]);
        let ghost before = string_views(out@);
        out.push(k);
        assert(string_views(out@) =~= before.push(track_key_spec(liked@[i as int]@)));
        assert(lk.take(i + 1) =~= lk.take(i as int).push(track_key_spec(liked@[i as int]@)));
        i = i + 1;
    }
    assert(lk.take(liked@.len() as int) =~= lk);
    let ghost base = string_views(out@);
    let mut j: usize = 0;
    while j < prev_keys.len()
        invariant
            j <= prev_keys@.len(),
            string_views(out@) == base + string_views(prev_keys@).take(j as int),
        decreases prev_keys@.len() - j,
    {
        let ghost before = string_views(out@);
        out.push(prev_keys[j].clone());
        assert(string_views(out@) =~= before.push(prev_keys@[j as int]@));
        assert(string_views(prev_keys@).take(j + 1) =~= string_views(prev_keys@).take(j as int).push(
            prev_keys@[j as int]@,
        ));
        j = j + 1;
    }
    assert(string_views(prev_keys@).take(prev_keys@.len() as int) =~= string_views(prev_keys@));
    out
}

/// Which rows a refresh plans, in order, by id: "Made for you" when the
/// profile gave seeds, "Because you played" when a recent play was drawn,
/// "From your artists" when saved SoundCloud artists exist, "From your
/// likes" when anything is liked, then "Trending now" and every genre row.
pub open spec fn planned_ids(has_pool: bool, has_because: bool, has_artists: bool, has_likes: bool) -> Seq<Seq<char>> {
    (if has_pool { seq!["made-for-you"@] } else { Seq::empty() })
        + (if has_because { seq!["because-recent"@] } else { Seq::empty() })
        + (if has_artists { seq!["new-from-artists"@] } else { Seq::empty() })
        + (if has_likes { seq!["from-likes"@] } else { Seq::empty() })
        + seq!["trending-now"@]
        + genre_shelves().map_values(|g: (Seq<char>, Seq<char>, Seq<char>)| "genre-"@ + g.0)
}

fn plan(
    id: &str,
    eyebrow: &str,
    title: String,
    subtitle: String,
    seed_label: String,
    kind: ShelfKind,
) -> (r: ShelfPlan)
    ensures
        r.id@ == id@,
        r.eyebrow@ == eyebrow@,
        r.title@ == title@,
        r.subtitle@ == subtitle@,
        r.seed_label@ == seed_label@,
        r.rerollable,
        r.kind == kind,
{
    ShelfPlan {
        id: id.to_string(),
        eyebrow: eyebrow.to_string(),
        title,
        subtitle,
        seed_label,
        rerollable: true,
        kind,
    }
}

/// The rows a refresh loads. The profile's draws come in: the seeds drawn
/// for "Made for you" (none when the profile is empty; the row blends at most
/// ten of them, two per artist), the recent play
/// "Because you played" is about, the saved SoundCloud artists (in the
/// order to ask them), and the slice of likes to rediscover with the
/// number of likes.
pub fn shelf_plans(
    made_for_you_draw: Option<Vec<RecommendationSeed>>,
    because: Option<RecommendationSeed>,
    artist_uris: Vec<String>,
    likes_slice: Vec<Track>,
    liked_count: usize,
    exclude_keys: &Vec<String>,
) -> (r: Vec<ShelfPlan>)
    ensures
        r@.map_values(|p: ShelfPlan| p.id@) == planned_ids(
            made_for_you_draw is Some,
            because is Some,
            artist_uris@.len() > 0,
            liked_count > 0,
        ),
        forall|i: int| 0 <= i < r@.len() ==> (#[trigger] r@[i]).rerollable,
        made_for_you_draw matches Some(draw) ==> ({
            let p = r@[0];
            &&& p.title@ == "Made for you"@
            &&& p.eyebrow@ == "Personal"@
            &&& p.seed_label@ == "recent plays + likes"@
            &&& p.kind matches ShelfKind::RelatedAggregate { seeds: s, exclude_keys: e }
                && seed_views(s@) == made_for_you_spec(seed_views(draw@))
                && string_views(e@) == string_views(exclude_keys@)
        }),
        because matches Some(seed) ==> ({
            let p = r@[if made_for_you_draw is Some { 1int } else { 0int }];
            &&& p.eyebrow@ == "Because you played"@
            &&& p.title@ == "\""@ + seed@.title + "\""@
            &&& p.subtitle@ == "by "@ + seed@.artist
            &&& p.seed_label@ == seed@.label
            &&& p.kind matches ShelfKind::Related { seed: s, exclude_keys: e } && s@ == seed@
                && string_views(e@) == string_views(exclude_keys@)
        }),
        artist_uris@.len() > 0 ==> ({
            let p = r@[(if made_for_you_draw is Some { 1int } else { 0int }) + (if because is Some {
                1int
            } else {
                0int
            })];
            &&& p.seed_label@ == decimal(artist_uris@.len()) + " SoundCloud artists"@
            &&& p.kind matches ShelfKind::ArtistUploads { artists: a } && string_views(a@) == string_views(
                artist_uris@,
            )
        }),
        liked_count > 0 ==> ({
            let p = r@[(if made_for_you_draw is Some { 1int } else { 0int }) + (if because is Some {
                1int
            } else {
                0int
            }) + (if artist_uris@.len() > 0 { 1int } else { 0int })];
            &&& p.title@ == "From your likes"@
            &&& p.seed_label@ == decimal(liked_count as nat) + " saved tracks"@
            &&& p.kind matches ShelfKind::StaticTracks { tracks: t } && track_views(t@) == track_views(
                likes_slice@,
            )
        }),
{
    proof {
        reveal_strlit("made-for-you");
        reveal_strlit("because-recent");
        reveal_strlit("new-from-artists");
        reveal_strlit("from-likes");
        reveal_strlit("trending-now");
        reveal_strlit("genre-electronic");
        reveal_strlit("genre-hiphoprap");
        reveal_strlit("genre-house");
        reveal_strlit("genre-techno");
        reveal_strlit("genre-ambient");
        reveal_strlit("genre-dnb");
        reveal_strlit("genre-indie");
        reveal_strlit("genre-");
        reveal_strlit("electronic");
        reveal_strlit("hiphoprap");
        reveal_strlit("house");
        reveal_strlit("techno");
        reveal_strlit("ambient");
        reveal_strlit("dnb");
        reveal_strlit("indie");
    }
    let mut out: Vec<ShelfPlan> = Vec::new();
    let ghost has_pool = made_for_you_draw is Some;
    let ghost has_because = because is Some;
    let ghost has_artists = artist_uris@.len() > 0;
    let ghost has_likes = liked_count > 0;
    match made_for_you_draw {
        Some(draw) => {
            let seeds = made_for_you_seeds(draw);
            let p = plan(
                "made-for-you",
                "Personal",
                String::from_str("Made for you"),
                String::from_str("Aegis-style SoundCloud related picks from your recent plays and likes."),
                String::from_str("recent plays + likes"),
                ShelfKind::RelatedAggregate { seeds, exclude_keys: copy_strings(exclude_keys) },
            );
            out.push(p);
        },
        None => {},
    }
    let ghost ids0 = if has_pool { seq!["made-for-you"@] } else { Seq::<Seq<char>>::empty() };
    assert(out@.map_values(|p: ShelfPlan| p.id@) =~= ids0);
    match because {
        Some(seed) => {
            let t1 = concat("\"", seed.title.as_str());
            let title = concat(t1.as_str(), "\"");
            let subtitle = concat("by ", seed.artist.as_str());
            let label = seed.label.clone();
            let p = plan(
                "because-recent",
                "Because you played",
                title,
                subtitle,
                label,
                ShelfKind::Related { seed, exclude_keys: copy_strings(exclude_keys) },
            );
            out.push(p);
        },
        None => {},
    }
    let ghost ids1 = ids0 + if has_because { seq!["because-recent"@] } else { Seq::<Seq<char>>::empty() };
    assert(out@.map_values(|p: ShelfPlan| p.id@) =~= ids1);
    if artist_uris.len() > 0 {
        let count = to_decimal(artist_uris.len() as u64);
        let label = concat(count.as_str(), " SoundCloud artists");
        let p = plan(
            "new-from-artists",
            "New releases",
            String::from_str("From your artists"),
            String::from_str("Recent uploads from SoundCloud artists you saved."),
            label,
            ShelfKind::ArtistUploads { artists: artist_uris },
        );
        out.push(p);
    }
    let ghost ids2 = ids1 + if has_artists { seq!["new-from-artists"@] } else { Seq::<Seq<char>>::empty() };
    assert(out@.map_values(|p: ShelfPlan| p.id@) =~= ids2);
    if liked_count > 0 {
        let count = to_decimal(liked_count as u64);
        let label = concat(count.as_str(), " saved tracks");
        let p = plan(
            "from-likes",
            "Rediscover",
            String::from_str("From your likes"),
            String::from_str("A rotating slice of what you saved."),
            label,
            ShelfKind::StaticTracks { tracks: likes_slice },
        );
        out.push(p);
    }
    let ghost ids3 = ids2 + if has_likes { seq!["from-likes"@] } else { Seq::<Seq<char>>::empty() };
    assert(out@.map_values(|p: ShelfPlan| p.id@) =~= ids3);
    out.push(
        plan(
            "trending-now",
            "SoundCloud",
            String::from_str("Trending now"),
            String::from_str("What is moving across SoundCloud right now."),
            String::from_str("SoundCloud charts"),
            ShelfKind::Chart { genre: String::from_str("all-music") },
        ),
    );
    let ghost ids4 = ids3 + seq!["trending-now"@];
    assert(out@.map_values(|p: ShelfPlan| p.id@) =~= ids4);
    push_genre(&mut out, "genre-electronic", "Electronic", "SoundCloud / Electronic", "electronic");
    push_genre(&mut out, "genre-hiphoprap", "Hip-Hop / Rap", "SoundCloud / Hip-Hop / Rap", "hip hop rap");
    push_genre(&mut out, "genre-house", "House", "SoundCloud / House", "house music");
    push_genre(&mut out, "genre-techno", "Techno", "SoundCloud / Techno", "techno");
    push_genre(&mut out, "genre-ambient", "Ambient", "SoundCloud / Ambient", "ambient");
    push_genre(&mut out, "genre-dnb", "Drum & Bass", "SoundCloud / Drum & Bass", "drum and bass");
    push_genre(&mut out, "genre-indie", "Indie", "SoundCloud / Indie", "indie");
    proof {
        let g = genre_shelves().map_values(|g: (Seq<char>, Seq<char>, Seq<char>)| "genre-"@ + g.0);
        assert(g[0] =~= "genre-electronic"@);
        assert(g[1] =~= "genre-hiphoprap"@);
        assert(g[2] =~= "genre-house"@);
        assert(g[3] =~= "genre-techno"@);
        assert(g[4] =~= "genre-ambient"@);
        assert(g[5] =~= "genre-dnb"@);
        assert(g[6] =~= "genre-indie"@);
        assert(out@.map_values(|p: ShelfPlan| p.id@) =~= ids4 + g);
        assert(out@.map_values(|p: ShelfPlan| p.id@) =~= planned_ids(
            has_pool,
            has_because,
            has_artists,
            has_likes,
        ));
    }
    out
}

fn push_genre(out: &mut Vec<ShelfPlan>, id: &str, label: &str, seed_label: &str, query: &str)
    ensures
        final(out)@.len() == old(out)@.len() + 1,
        forall|i: int| 0 <= i < old(out)@.len() ==> #[trigger] final(out)@[i] == old(out)@[i],
        final(out)@[old(out)@.len() as int].id@ == id@,
        final(out)@[old(out)@.len() as int].title@ == label@,
        final(out)@[old(out)@.len() as int].seed_label@ == seed_label@,
        final(out)@[old(out)@.len() as int].rerollable,
        final(out)@[old(out)@.len() as int].kind matches ShelfKind::Search { query: q } && q@ == query@,
{
    out.push(
        plan(
            id,
            "Genre",
            label.to_string(),
            String::from_str("Fresh SoundCloud search picks, tuned as scene rows."),
            seed_label.to_string(),
            ShelfKind::Search { query: query.to_string() },
        ),
    );
}

/// The daily mixes of the drawn seeds: at most four, slot by slot, each
/// titled by its slot and subtitled by its seed's artist. The draws are one
/// per artist; a seed whose normalised artist an earlier one already fronts
/// is skipped, so no two mixes share an artist.
pub fn mix_plans_from(picked: Vec<RecommendationSeed>, exclude_keys: &Vec<String>) -> (r: Vec<MixPlan>)
    ensures
        ({
            let d = one_per_artist(seed_views(picked@));
            &&& r@.len() == if d.len() < DAILY_MIX_COUNT { d.len() as int } else { DAILY_MIX_COUNT as int }
            &&& forall|i: int| 0 <= i < r@.len() ==> {
                let m = #[trigger] r@[i];
                &&& m.id@ == "daily-mix-"@ + decimal(i as nat)
                &&& m.title@ == "Daily Mix "@ + decimal((i + 1) as nat)
                &&& m.subtitle@ == d[i].artist + ", related scenes and more"@
                &&& m.seed_label@ == d[i].label
                &&& m.seed@ == d[i]
                &&& m.accent_index == i
                &&& string_views(m.exclude_keys@) == string_views(exclude_keys@)
            }
        }),
{
    let picked = one_per_artist_seeds(picked);
    let ghost d = seed_views(picked@);
    let mut out: Vec<MixPlan> = Vec::new();
    let mut slot: usize = 0;
    while slot < picked.len() && slot < DAILY_MIX_COUNT
        invariant
            slot <= picked@.len(),
            slot <= DAILY_MIX_COUNT,
            d == seed_views(picked@),
            out@.len() == slot,
            forall|i: int| 0 <= i < slot ==> {
                let m = #[trigger] out@[i];
                &&& m.id@ == "daily-mix-"@ + decimal(i as nat)
                &&& m.title@ == "Daily Mix "@ + decimal((i + 1) as nat)
                &&& m.subtitle@ == d[i].artist + ", related scenes and more"@
                &&& m.seed_label@ == d[i].label
                &&& m.seed@ == d[i]
                &&& m.accent_index == i
                &&& string_views(m.exclude_keys@) == string_views(exclude_keys@)
            },
        decreases picked@.len() - slot,
    {
        let seed = picked[slot].duplicate();
        let id = concat("daily-mix-", to_decimal(slot as u64).as_str());
        let title = concat("Daily Mix ", to_decimal((slot + 1) as u64).as_str());
        let subtitle = concat(seed.artist.as_str(), ", related scenes and more");
        let seed_label = seed.label.clone();
        out.push(
            MixPlan {
                id,
                title,
                subtitle,
                seed_label,
                seed,
                accent_index: slot,
                exclude_keys: copy_strings(exclude_keys),
            },
        );
        slot = slot + 1;
    }
    out
}

/// The first seed of each artist never shares its normalised artist with
/// another: the daily mixes front pairwise different artists.
pub proof fn law_mix_artists_distinct(s: Seq<SeedView>)
    ensures
        forall|i: int, j: int|
            0 <= i < j < one_per_artist(s).len() ==> normalise_text_spec(
                (#[trigger] one_per_artist(s)[i]).artist,
            ) != normalise_text_spec((#[trigger] one_per_artist(s)[j]).artist),
    decreases s.len(),
{
    if s.len() > 0 {
        law_mix_artists_distinct(s.drop_last());
        let p = one_per_artist(s.drop_last());
        let k = normalise_text_spec(s.last().artist);
        if !has_artist(p, k) {
            let r = p.push(s.last());
            assert forall|i: int, j: int| 0 <= i < j < r.len() implies normalise_text_spec(
                (#[trigger] r[i]).artist,
            ) != normalise_text_spec((#[trigger] r[j]).artist) by {
                assert(r[i] == p[i]);
                if j < p.len() {
                    assert(r[j] == p[j]);
                } else if normalise_text_spec(p[i].artist) == k {
                    assert(has_artist(p, k));
                }
            }
        }
    }
}

proof fn lemma_seed_count_take(s: Seq<SeedView>, n: int, key: Seq<char>)
    requires
        0 <= n <= s.len(),
    ensures
        seed_artist_count(s.take(n), key) <= seed_artist_count(s, key),
    decreases s.len(),
{
    if n < s.len() {
        assert(s.take(n) =~= s.drop_last().take(n));
        lemma_seed_count_take(s.drop_last(), n, key);
    } else {
        assert(s.take(n) =~= s);
    }
}

/// "Made for you" never blends more than two seeds of one artist.
pub proof fn law_made_for_you_two_per_artist(draw: Seq<SeedView>, key: Seq<char>)
    requires
        key.len() > 0,
    ensures
        seed_artist_count(made_for_you_spec(draw), key) <= MADE_FOR_YOU_ARTIST_CAP,
        made_for_you_spec(draw).len() <= MADE_FOR_YOU_SEEDS,
{
    let d = diverse_spec(draw, MADE_FOR_YOU_ARTIST_CAP as nat);
    crate::recommend::law_diverse_seeds_cap_each_artist(draw, MADE_FOR_YOU_ARTIST_CAP as nat, key);
    if d.len() > MADE_FOR_YOU_SEEDS {
        lemma_seed_count_take(d, MADE_FOR_YOU_SEEDS as int, key);
    }
}

/// Which taste clusters the mixes draw from, by index: when there are more
/// than four, those whose artist "Because you played" already uses are
/// left out, unless that would leave fewer than four.
pub fn mix_cluster_indices(artist_keys: &Vec<String>, used_artists: &Vec<String>) -> (r: Vec<usize>)
    ensures
        ({
            let keys = string_views(artist_keys@);
            let used = string_views(used_artists@);
            let unused = Seq::new(keys.len(), |i: int| i).filter(|i: int| !used.contains(keys[i]));
            let all = Seq::new(keys.len(), |i: int| i);
            r@.map_values(|i: usize| i as int) == if keys.len() > DAILY_MIX_COUNT && unused.len()
                >= DAILY_MIX_COUNT {
                unused
            } else {
                all
            }
        }),
{
    let ghost keys = string_views(artist_keys@);
    let ghost used = string_views(used_artists@);
    let ghost pred = |i: int| !used.contains(keys[i]);
    let n = artist_keys.len();
    let mut all: Vec<usize> = Vec::new();
    let mut unused: Vec<usize> = Vec::new();
    let mut i: usize = 0;
    while i < n
        invariant
            i <= n,
            n == artist_keys@.len(),
            keys == string_views(artist_keys@),
            used == string_views(used_artists@),
            pred == (|i: int| !used.contains(keys[i])),
            all@.map_values(|k: usize| k as int) == Seq::new(i as nat, |k: int| k),
            unused@.map_values(|k: usize| k as int) == Seq::new(i as nat, |k: int| k).filter(pred),
        decreases n - i,
    {
        let ghost before_all = all@.map_values(|k: usize| k as int);
        let ghost before_unused = unused@.map_values(|k: usize| k as int);
        all.push(i);
        assert(all@.map_values(|k: usize| k as int) =~= before_all.push(i as int));
        assert(Seq::new((i + 1) as nat, |k: int| k) =~= Seq::new(i as nat, |k: int| k).push(i as int));
        assert(Seq::new((i + 1) as nat, |k: int| k).drop_last() =~= Seq::new(i as nat, |k: int| k));
        reveal_with_fuel(Seq::filter, 1);
        let is_used = contains_string(used_artists, artist_keys[i].as_str());
        assert(keys[i as int] == artist_keys@[i as int]@);
        if !is_used {
            unused.push(i);
            assert(unused@.map_values(|k: usize| k as int) =~= before_unused.push(i as int));
        } else {
            assert(unused@.map_values(|k: usize| k as int) =~= before_unused);
        }
        i = i + 1;
    }
    if n > DAILY_MIX_COUNT && unused.len() >= DAILY_MIX_COUNT {
        unused
    } else {
        all
    }
}


/// A seed's related feed as a shelf row: curated against the excluded keys
/// with at most three tracks per artist.
pub fn related_shelf_tracks(tracks: Vec<Track>, exclude_keys: &Vec<String>) -> (r: Vec<Track>)
    ensures
        track_views(r@) == curate_spec(
            track_views(tracks@),
            string_views(exclude_keys@),
            MIX_ARTIST_CAP as nat,
            SHELF_LIMIT as nat,
        ),
{
    curate_tracks(tracks, exclude_keys, MIX_ARTIST_CAP, SHELF_LIMIT)
}

/// A seed's related feed as a daily mix: curated against the excluded keys
/// with at most three tracks per artist.
pub fn mix_tracks(tracks: Vec<Track>, exclude_keys: &Vec<String>) -> (r: Vec<Track>)
    ensures
        track_views(r@) == curate_spec(
            track_views(tracks@),
            string_views(exclude_keys@),
            MIX_ARTIST_CAP as nat,
            DAILY_MIX_LIMIT as nat,
        ),
{
    curate_tracks(tracks, exclude_keys, MIX_ARTIST_CAP, DAILY_MIX_LIMIT)
}

fn dedupe_cut(tracks: Vec<Track>, n: usize) -> (r: Vec<Track>)
    ensures
        track_views(r@) == first_n(dedupe_tracks_spec(track_views(tracks@)), n as nat),
{
    let mut d = dedupe_tracks(tracks);
    let ghost before = track_views(d@);
    d.truncate(n);
    assert(before.len() <= n ==> track_views(d@) =~= before);
    assert(before.len() > n ==> track_views(d@) =~= before.take(n as int));
    d
}

/// The shelf a plan became: its tracks deduplicated and cut to the shelf
/// length, or, when loading failed, no tracks and the error; never loading.
pub fn shelf_from_result(plan: ShelfPlan, result: Result<Vec<Track>, String>) -> (r: RecommendationShelf)
    ensures
        r.id@ == plan.id@ && r.eyebrow@ == plan.eyebrow@ && r.title@ == plan.title@,
        r.subtitle@ == plan.subtitle@ && r.seed_label@ == plan.seed_label@,
        r.rerollable == plan.rerollable && !r.is_loading,
        match result {
            Ok(t) => r.error is None && track_views(r.tracks@) == first_n(
                dedupe_tracks_spec(track_views(t@)),
                SHELF_LIMIT as nat,
            ),
            Err(e) => r.tracks@.len() == 0 && (r.error matches Some(m) && m@ == e@),
        },
{
    let (tracks, error) = match result {
        Ok(t) => (dedupe_cut(t, SHELF_LIMIT), None),
        Err(e) => (Vec::new(), Some(e)),
    };
    RecommendationShelf {
        id: plan.id,
        eyebrow: plan.eyebrow,
        title: plan.title,
        subtitle: plan.subtitle,
        seed_label: plan.seed_label,
        tracks,
        is_loading: false,
        error,
        rerollable: plan.rerollable,
    }
}

/// The mix a plan became: its tracks deduplicated and cut to the mix
/// length, or, when loading failed, no tracks and the error; never loading.
pub fn mix_from_result(plan: MixPlan, result: Result<Vec<Track>, String>) -> (r: RecommendationMix)
    ensures
        r.id@ == plan.id@ && r.title@ == plan.title@ && r.subtitle@ == plan.subtitle@,
        r.seed_label@ == plan.seed_label@ && r.accent_index == plan.accent_index && !r.is_loading,
        match result {
            Ok(t) => r.error is None && track_views(r.tracks@) == first_n(
                dedupe_tracks_spec(track_views(t@)),
                DAILY_MIX_LIMIT as nat,
            ),
            Err(e) => r.tracks@.len() == 0 && (r.error matches Some(m) && m@ == e@),
        },
{
    let (tracks, error) = match result {
        Ok(t) => (dedupe_cut(t, DAILY_MIX_LIMIT), None),
        Err(e) => (Vec::new(), Some(e)),
    };
    RecommendationMix {
        id: plan.id,
        title: plan.title,
        subtitle: plan.subtitle,
        seed_label: plan.seed_label,
        tracks,
        is_loading: false,
        error,
        accent_index: plan.accent_index,
    }
}

/// The tracks of a "From your likes" shelf: deduplicated and cut to the
/// shelf length.
pub fn static_shelf_tracks(tracks: Vec<Track>) -> (r: Vec<Track>)
    ensures
        track_views(r@) == first_n(dedupe_tracks_spec(track_views(tracks@)), SHELF_LIMIT as nat),
{
    dedupe_cut(tracks, SHELF_LIMIT)
}

} // verus!
