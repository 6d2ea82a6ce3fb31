//! The Home dashboard's rows: recommendation shelves, daily mixes and the
//! quick tiles above them. How a (re)load is shown while it runs, how its
//! results land on what is on screen, and the cross-mix deduplication.

use vstd::prelude::*;
use vstd::hash_set::StringHashSet;
use crate::normalize::{canonical_title, canonical_title_spec};
use crate::recommend::{dedupe_tracks, dedupe_tracks_spec, track_key, track_key_spec};
use crate::text::{str_eq, string_views};
use crate::track::{Track, TrackView, copy_opt_string, copy_tracks, opt_view, track_views};

verus! {

broadcast use vstd::string::group_string_axioms;

/// A row of recommended tracks.
#[derive(Debug)]
pub struct RecommendationShelf {
    pub id: String,
    pub eyebrow: String,
    pub title: String,
    pub subtitle: String,
    pub seed_label: String,
    pub tracks: Vec<Track>,
    pub is_loading: bool,
    pub error: Option<String>,
    pub rerollable: bool,
}

/// A daily-mix card.
#[derive(Debug)]
pub struct RecommendationMix {
    pub id: String,
    pub title: String,
    pub subtitle: String,
    pub seed_label: String,
    pub tracks: Vec<Track>,
    pub is_loading: bool,
    pub error: Option<String>,
    pub accent_index: usize,
}

/// A quick tile above the rows.
#[derive(Debug)]
pub struct RecommendationTile {
    pub id: String,
    pub label: String,
    pub sub: String,
    pub glyph: String,
    pub cover_url: Option<String>,
    pub tracks: Vec<Track>,
    pub accent_index: usize,
}

/// What a shelf plan shows before its tracks arrive.
#[derive(Debug)]
pub struct ShelfHeader {
    pub id: String,
    pub eyebrow: String,
    pub title: String,
    pub subtitle: String,
    pub seed_label: String,
    pub rerollable: bool,
}

/// What a mix plan shows before its tracks arrive.
#[derive(Debug)]
pub struct MixHeader {
    pub id: String,
    pub title: String,
    pub subtitle: String,
    pub seed_label: String,
    pub accent_index: usize,
}

/// A shelf as mathematical values.
pub ghost struct ShelfView {
    pub id: Seq<char>,
    pub eyebrow: Seq<char>,
    pub title: Seq<char>,
    pub subtitle: Seq<char>,
    pub seed_label: Seq<char>,
    pub tracks: Seq<TrackView>,
    pub is_loading: bool,
    pub error: Option<Seq<char>>,
    pub rerollable: bool,
}

/// A mix as mathematical values.
pub ghost struct MixView {
    pub id: Seq<char>,
    pub title: Seq<char>,
    pub subtitle: Seq<char>,
    pub seed_label: Seq<char>,
    pub tracks: Seq<TrackView>,
    pub is_loading: bool,
    pub error: Option<Seq<char>>,
    pub accent_index: usize,
}

/// A tile as mathematical values.
pub ghost struct TileView {
    pub id: Seq<char>,
    pub label: Seq<char>,
    pub sub: Seq<char>,
    pub glyph: Seq<char>,
    pub cover_url: Option<Seq<char>>,
    pub tracks: Seq<TrackView>,
    pub accent_index: usize,
}

impl View for RecommendationShelf {
    type V = ShelfView;

    open spec fn view(&self) -> ShelfView {
        ShelfView {
            id: self.id@,
            eyebrow: self.eyebrow@,
            title: self.title@,
            subtitle: self.subtitle@,
            seed_label: self.seed_label@,
            tracks: track_views(self.tracks@),
            is_loading: self.is_loading,
            error: opt_view(self.error),
            rerollable: self.rerollable,
        }
    }
}

impl View for RecommendationMix {
    type V = MixView;

    open spec fn view(&self) -> MixView {
        MixView {
            id: self.id@,
            title: self.title@,
            subtitle: self.subtitle@,
            seed_label: self.seed_label@,
            tracks: track_views(self.tracks@),
            is_loading: self.is_loading,
            error: opt_view(self.error),
            accent_index: self.accent_index,
        }
    }
}

impl View for RecommendationTile {
    type V = TileView;

    open spec fn view(&self) -> TileView {
        TileView {
            id: self.id@,
            label: self.label@,
            sub: self.sub@,
            glyph: self.glyph@,
            cover_url: opt_view(self.cover_url),
            tracks: track_views(self.tracks@),
            accent_index: self.accent_index,
        }
    }
}

/// The views of a list of shelves.
pub open spec fn shelf_views(s: Seq<RecommendationShelf>) -> Seq<ShelfView> {
    s.map_values(|x: RecommendationShelf| x@)
}

/// The views of a list of mixes.
pub open spec fn mix_views(s: Seq<RecommendationMix>) -> Seq<MixView> {
    s.map_values(|x: RecommendationMix| x@)
}

/// The views of a list of tiles.
pub open spec fn tile_views(s: Seq<RecommendationTile>) -> Seq<TileView> {
    s.map_values(|x: RecommendationTile| x@)
}

impl RecommendationShelf {
    /// A field-for-field copy.
    pub fn duplicate(&self) -> (r: RecommendationShelf)
        ensures
            r@ == self@,
    {
        RecommendationShelf {
            id: self.id.clone(),
            eyebrow: self.eyebrow.clone(),
            title: self.title.clone(),
            subtitle: self.subtitle.clone(),
            seed_label: self.seed_label.clone(),
            tracks: copy_tracks(&self.tracks),
            is_loading: self.is_loading,
            error: copy_opt_string(&self.error),
            rerollable: self.rerollable,
        }
    }
}

impl RecommendationMix {
    /// A field-for-field copy.
    pub fn duplicate(&self) -> (r: RecommendationMix)
        ensures
            r@ == self@,
    {
        RecommendationMix {
            id: self.id.clone(),
            title: self.title.clone(),
            subtitle: self.subtitle.clone(),
            seed_label: self.seed_label.clone(),
            tracks: copy_tracks(&self.tracks),
            is_loading: self.is_loading,
            error: copy_opt_string(&self.error),
            accent_index: self.accent_index,
        }
    }
}

/// A tile built from a list of tracks: the first track's cover, all the
/// tracks.
pub fn tile_from_tracks(id: &str, label: &str, sub: &str, glyph: &str, tracks: &Vec<Track>, accent_index: usize) -> (r: RecommendationTile)
    ensures
        r@ == (TileView {
            id: id@,
            label: label@,
            sub: sub@,
            glyph: glyph@,
            cover_url: if tracks@.len() > 0 {
                tracks@[0]@.cover_url
            } else {
                None
            },
            tracks: track_views(tracks@),
            accent_index,
        }),
{
    let cover_url = if tracks.len() > 0 {
        copy_opt_string(&tracks[0].cover_url)
    } else {
        None
    };
    RecommendationTile {
        id: id.to_string(),
        label: label.to_string(),
        sub: sub.to_string(),
        glyph: glyph.to_string(),
        cover_url,
        tracks: copy_tracks(tracks),
        accent_index,
    }
}

/// The first shelf with this id that has tracks.
pub open spec fn filled_shelf_index(s: Seq<ShelfView>, id: Seq<char>, i: int) -> Option<int>
    decreases s.len() - i,
{
    if i < 0 || i >= s.len() {
        None
    } else if s[i].id == id && s[i].tracks.len() > 0 {
        Some(i)
    } else {
        filled_shelf_index(s, id, i + 1)
    }
}

/// The first shelf with this id that has tracks.
pub fn filled_shelf<'a>(shelves: &'a Vec<RecommendationShelf>, id: &str) -> (r: Option<&'a RecommendationShelf>)
    ensures
        match filled_shelf_index(shelf_views(shelves@), id@, 0) {
            Some(i) => r matches Some(s) && s@ == shelf_views(shelves@)[i],
            None => r is None,
        },
{
    let ghost s = shelf_views(shelves@);
    let mut i: usize = 0;
    while i < shelves.len()
        invariant
            i <= shelves@.len(),
            s == shelf_views(shelves@),
            filled_shelf_index(s, id@, 0) == filled_shelf_index(s, id@, i as int),
        decreases shelves@.len() - i,
    {
        if str_eq(shelves[i].id.as_str(), id) && shelves[i].tracks.len() > 0 {
            return Some(&shelves[i]);
        }
        i = i + 1;
    }
    None
}

/// The first mix that has tracks.
pub open spec fn filled_mix_index(s: Seq<MixView>, i: int) -> Option<int>
    decreases s.len() - i,
{
    if i < 0 || i >= s.len() {
        None
    } else if s[i].tracks.len() > 0 {
        Some(i)
    } else {
        filled_mix_index(s, i + 1)
    }
}

fn first_filled_mix(mixes: &Vec<RecommendationMix>) -> (r: Option<usize>)
    ensures
        r matches Some(i) ==> filled_mix_index(mix_views(mixes@), 0) == Some(i as int) && i < mixes@.len(),
        r is None ==> filled_mix_index(mix_views(mixes@), 0) is None,
{
    let ghost s = mix_views(mixes@);
    let mut i: usize = 0;
    while i < mixes.len()
        invariant
            i <= mixes@.len(),
            s == mix_views(mixes@),
            filled_mix_index(s, 0) == filled_mix_index(s, i as int),
        decreases mixes@.len() - i,
    {
        if mixes[i].tracks.len() > 0 {
            return Some(i);
        }
        i = i + 1;
    }
    None
}

/// The tile a filled shelf or mix gives.
pub open spec fn tile_spec(id: Seq<char>, label: Seq<char>, sub: Seq<char>, glyph: Seq<char>, tracks: Seq<TrackView>, accent: usize) -> TileView {
    TileView {
        id,
        label,
        sub,
        glyph,
        cover_url: if tracks.len() > 0 {
            tracks[0].cover_url
        } else {
            None
        },
        tracks,
        accent_index: accent,
    }
}

/// The quick tiles, each only when its source has tracks, in this order:
/// "Made for you", the first filled daily mix, "From your likes" (with
/// its track count) and "Trending".
pub open spec fn tiles_spec(shelves: Seq<ShelfView>, mixes: Seq<MixView>) -> Seq<TileView> {
    let a = match filled_shelf_index(shelves, "made-for-you"@, 0) {
        Some(i) => seq![tile_spec("made-for-you"@, "Made for you"@, "SoundCloud picks"@, "✦"@, shelves[i].tracks, 2)],
        None => Seq::empty(),
    };
    let b = match filled_mix_index(mixes, 0) {
        Some(i) => seq![tile_spec("daily-mix-1"@, mixes[i].title, mixes[i].seed_label, "◎"@, mixes[i].tracks, 4)],
        None => Seq::empty(),
    };
    let c = match filled_shelf_index(shelves, "from-likes"@, 0) {
        Some(i) => seq![
            tile_spec(
                "from-likes"@,
                "From your likes"@,
                crate::config::decimal(shelves[i].tracks.len()) + " tracks"@,
                "★"@,
                shelves[i].tracks,
                6,
            )
        ],
        None => Seq::empty(),
    };
    let d = match filled_shelf_index(shelves, "trending-now"@, 0) {
        Some(i) => seq![tile_spec("trending"@, "Trending"@, "SoundCloud charts"@, "⚡"@, shelves[i].tracks, 1)],
        None => Seq::empty(),
    };
    a + b + c + d
}

/// The quick tiles above the rows.
pub fn build_tiles(shelves: &Vec<RecommendationShelf>, mixes: &Vec<RecommendationMix>) -> (r: Vec<RecommendationTile>)
    ensures
        tile_views(r@) == tiles_spec(shelf_views(shelves@), mix_views(mixes@)),
{
    let ghost sv = shelf_views(shelves@);
    let ghost mv = mix_views(mixes@);
    let mut out: Vec<RecommendationTile> = Vec::new();
    let ghost mut expect: Seq<TileView> = Seq::empty();
    if let Some(shelf) = filled_shelf(shelves, "made-for-you") {
        out.push(tile_from_tracks("made-for-you", "Made for you", "SoundCloud picks", "✦", &shelf.tracks, 2));
    }
    assert(tile_views(out@) =~= match filled_shelf_index(sv, "made-for-you"@, 0) {
        Some(i) => seq![tile_spec("made-for-you"@, "Made for you"@, "SoundCloud picks"@, "✦"@, sv[i].tracks, 2)],
        None => Seq::<TileView>::empty(),
    });
    let ghost a = tile_views(out@);
    if let Some(i) = first_filled_mix(mixes) {
        let mix = &mixes[i];
        out.push(tile_from_tracks("daily-mix-1", mix.title.as_str(), mix.seed_label.as_str(), "◎", &mix.tracks, 4));
    }
    assert(tile_views(out@) =~= a + match filled_mix_index(mv, 0) {
        Some(i) => seq![tile_spec("daily-mix-1"@, mv[i].title, mv[i].seed_label, "◎"@, mv[i].tracks, 4)],
        None => Seq::<TileView>::empty(),
    });
    let ghost b = tile_views(out@);
    if let Some(shelf) = filled_shelf(shelves, "from-likes") {
        let n = crate::config::to_decimal(shelf.tracks.len() as u64);
        let sub = crate::text::concat(n.as_str(), " tracks");
        assert(track_views(shelf.tracks@).len() == shelf.tracks@.len());
        out.push(tile_from_tracks("from-likes", "From your likes", sub.as_str(), "★", &shelf.tracks, 6));
    }
    assert(tile_views(out@) =~= b + match filled_shelf_index(sv, "from-likes"@, 0) {
        Some(i) => seq![
            tile_spec(
                "from-likes"@,
                "From your likes"@,
                crate::config::decimal(sv[i].tracks.len()) + " tracks"@,
                "★"@,
                sv[i].tracks,
                6,
            )
        ],
        None => Seq::<TileView>::empty(),
    });
    let ghost c = tile_views(out@);
    if let Some(shelf) = filled_shelf(shelves, "trending-now") {
        out.push(tile_from_tracks("trending", "Trending", "SoundCloud charts", "⚡", &shelf.tracks, 1));
    }
    assert(tile_views(out@) =~= c + match filled_shelf_index(sv, "trending-now"@, 0) {
        Some(i) => seq![tile_spec("trending"@, "Trending"@, "SoundCloud charts"@, "⚡"@, sv[i].tracks, 1)],
        None => Seq::<TileView>::empty(),
    });
    out
}

/// What remembering tracks across mixes holds: URIs and track keys already
/// taken, and canonical titles already taken.
pub type SeenSets = (Set<Seq<char>>, Set<Seq<char>>);

/// Whether a track survives the cross-mix dedupe, and what is remembered
/// after it: its URI must be new (and is then taken), then its key (taken
/// too), then its canonical title unless that is empty.
pub open spec fn mix_step(st: SeenSets, t: TrackView) -> (bool, SeenSets) {
    if st.0.contains(t.uri) {
        (false, st)
    } else {
        let s1 = st.0.insert(t.uri);
        if s1.contains(track_key_spec(t)) {
            (false, (s1, st.1))
        } else {
            let s2 = s1.insert(track_key_spec(t));
            let c = canonical_title_spec(t.title);
            if c.len() == 0 {
                (true, (s2, st.1))
            } else if st.1.contains(c) {
                (false, (s2, st.1))
            } else {
                (true, (s2, st.1.insert(c)))
            }
        }
    }
}

/// One mix's tracks through the dedupe: what stays, and what is remembered.
pub open spec fn mix_pass(st: SeenSets, m: Seq<TrackView>) -> (Seq<TrackView>, SeenSets)
    decreases m.len(),
{
    if m.len() == 0 {
        (Seq::empty(), st)
    } else {
        let prev = mix_pass(st, m.drop_last());
        let step = mix_step(prev.1, m.last());
        (if step.0 {
            prev.0.push(m.last())
        } else {
            prev.0
        }, step.1)
    }
}

/// Every mix, in order, through the dedupe: what stays of each.
pub open spec fn mixes_pass(ms: Seq<Seq<TrackView>>) -> (Seq<Seq<TrackView>>, SeenSets)
    decreases ms.len(),
{
    if ms.len() == 0 {
        (Seq::empty(), (Set::empty(), Set::empty()))
    } else {
        let prev = mixes_pass(ms.drop_last());
        let one = mix_pass(prev.1, ms.last());
        (prev.0.push(one.0), one.1)
    }
}

/// The tracks of each mix.
pub open spec fn mix_track_lists(s: Seq<MixView>) -> Seq<Seq<TrackView>> {
    s.map_values(|m: MixView| m.tracks)
}

/// One song appears in at most one mix: a track stays only where its URI,
/// its artist|title key and its canonical title were not met before,
/// scanning the mixes in order.
pub fn dedupe_across_mixes(mixes: &mut Vec<RecommendationMix>)
    ensures
        final(mixes)@.len() == old(mixes)@.len(),
        mix_track_lists(mix_views(final(mixes)@)) == mixes_pass(mix_track_lists(mix_views(old(mixes)@))).0,
        forall|i: int| 0 <= i < old(mixes)@.len() ==> (MixView { tracks: mix_views(old(mixes)@)[i].tracks, ..#[trigger] mix_views(final(mixes)@)[i] }) == mix_views(old(mixes)@)[i],
{
    let ghost ms = mix_track_lists(mix_views(mixes@));
    let ghost orig = mix_views(mixes@);
    let mut seen = StringHashSet::new();
    let mut seen_canon = StringHashSet::new();
    let mut k: usize = 0;
    assert(ms.take(0) =~= Seq::<Seq<TrackView>>::empty());
    while k < mixes.len()
        invariant
            k <= mixes@.len(),
            mixes@.len() == orig.len(),
            ms == mix_track_lists(orig),
            mixes_pass(ms.take(k as int)).1 == (seen@, seen_canon@),
            forall|i: int| 0 <= i < k ==> (#[trigger] mix_views(mixes@)[i]).tracks == mixes_pass(ms.take(k as int)).0[i],
            mixes_pass(ms.take(k as int)).0.len() == k,
            forall|i: int| k <= i < mixes@.len() ==> #[trigger] mix_views(mixes@)[i] == orig[i],
            forall|i: int| 0 <= i < mixes@.len() ==> (MixView { tracks: orig[i].tracks, ..#[trigger] mix_views(mixes@)[i] }) == orig[i],
        decreases mixes@.len() - k,
    {
        let ghost st0 = (seen@, seen_canon@);
        let ghost m = ms[k as int];
        assert(ms.take(k + 1).drop_last() =~= ms.take(k as int));
        assert(ms.take(k + 1).last() == m);
        assert(mix_views(mixes@)[k as int] == orig[k as int]);
        assert(mix_views(mixes@)[k as int] == mixes@[k as int]@);
        let mut mix = mixes[k].duplicate();
        assert(track_views(mix.tracks@) == m);
        let mut kept: Vec<Track> = Vec::new();
        let mut j: usize = 0;
        while j < mix.tracks.len()
            invariant
                j <= mix.tracks@.len(),
                track_views(mix.tracks@) == m,
                mix_pass(st0, m.take(j as int)) == (track_views(kept@), (seen@, seen_canon@)),
            decreases mix.tracks@.len() - j,
        {
            let t = &mix.tracks[j];
            let ghost q = m.take(j + 1);
            assert(q.drop_last() =~= m.take(j as int));
            assert(q.last() == t@);
            let ghost before = track_views(kept@);
            let uri_new = seen.insert(t.uri.clone());
            if uri_new {
                let key = track_key(t);
                let key_new = seen.insert(key);
                if key_new {
                    let canon = canonical_title(t.title.as_str());
                    let keep = if canon.as_str().is_empty() {
                        true
                    } else {
                        seen_canon.insert(canon)
                    };
                    if keep {
                        kept.push(t.duplicate());
                        assert(track_views(kept@) =~= before.push(t@));
                    }
                }
            }
            j = j + 1;
        }
        assert(m.take(mix.tracks@.len() as int) =~= m);
        let ghost old_mix = mix@;
        mix.tracks = kept;
        let ghost new_mix = mix@;
        let ghost views_before = mix_views(mixes@);
        mixes.set(k, mix);
        assert(mix_views(mixes@) =~= views_before.update(k as int, new_mix));
        proof {
            let prev = mixes_pass(ms.take(k as int));
            let next = mixes_pass(ms.take(k + 1));
            assert(next.0 == prev.0.push(mix_pass(prev.1, m).0));
            assert forall|i: int| 0 <= i < k + 1 implies (#[trigger] mix_views(mixes@)[i]).tracks == next.0[i] by {
                if i < k {
                    assert(next.0[i] == prev.0[i]);
                    assert(mix_views(mixes@)[i] == views_before[i]);
                } else {
                    assert(mix_views(mixes@)[i] == new_mix);
                }
            }
        }
        k = k + 1;
    }
    assert(ms.take(mixes@.len() as int) =~= ms);
    assert(mix_track_lists(mix_views(mixes@)) =~= mixes_pass(ms).0);
}

/// The first shelf at or after `i` with this id.
pub open spec fn shelf_id_from(s: Seq<ShelfView>, id: Seq<char>, i: int) -> Option<int>
    decreases s.len() - i,
{
    if i < 0 || i >= s.len() {
        None
    } else if s[i].id == id {
        Some(i)
    } else {
        shelf_id_from(s, id, i + 1)
    }
}

/// The first mix at or after `i` with this id.
pub open spec fn mix_id_from(s: Seq<MixView>, id: Seq<char>, i: int) -> Option<int>
    decreases s.len() - i,
{
    if i < 0 || i >= s.len() {
        None
    } else if s[i].id == id {
        Some(i)
    } else {
        mix_id_from(s, id, i + 1)
    }
}

fn shelf_position(v: &Vec<RecommendationShelf>, id: &str) -> (r: Option<usize>)
    ensures
        r matches Some(i) ==> shelf_id_from(shelf_views(v@), id@, 0) == Some(i as int) && i < v@.len(),
        r is None ==> shelf_id_from(shelf_views(v@), id@, 0) is None,
{
    let ghost s = shelf_views(v@);
    let mut i: usize = 0;
    while i < v.len()
        invariant
            i <= v@.len(),
            s == shelf_views(v@),
            shelf_id_from(s, id@, 0) == shelf_id_from(s, id@, i as int),
        decreases v@.len() - i,
    {
        if str_eq(v[i].id.as_str(), id) {
            return Some(i);
        }
        i = i + 1;
    }
    None
}

fn mix_position(v: &Vec<RecommendationMix>, id: &str) -> (r: Option<usize>)
    ensures
        r matches Some(i) ==> mix_id_from(mix_views(v@), id@, 0) == Some(i as int) && i < v@.len(),
        r is None ==> mix_id_from(mix_views(v@), id@, 0) is None,
{
    let ghost s = mix_views(v@);
    let mut i: usize = 0;
    while i < v.len()
        invariant
            i <= v@.len(),
            s == mix_views(v@),
            mix_id_from(s, id@, 0) == mix_id_from(s, id@, i as int),
        decreases v@.len() - i,
    {
        if str_eq(v[i].id.as_str(), id) {
            return Some(i);
        }
        i = i + 1;
    }
    None
}

/// A freshly loaded shelf, except that a failed load with nothing to show
/// keeps the tracks the first shelf of its id had on screen.
pub open spec fn keep_prev_shelf(prev: Seq<ShelfView>, sh: ShelfView) -> ShelfView {
    if sh.tracks.len() == 0 && sh.error is Some {
        match shelf_id_from(prev, sh.id, 0) {
            Some(i) => if prev[i].tracks.len() > 0 {
                ShelfView { tracks: prev[i].tracks, ..sh }
            } else {
                sh
            },
            None => sh,
        }
    } else {
        sh
    }
}

/// The same rule for mixes.
pub open spec fn keep_prev_mix(prev: Seq<MixView>, m: MixView) -> MixView {
    if m.tracks.len() == 0 && m.error is Some {
        match mix_id_from(prev, m.id, 0) {
            Some(i) => if prev[i].tracks.len() > 0 {
                MixView { tracks: prev[i].tracks, ..m }
            } else {
                m
            },
            None => m,
        }
    } else {
        m
    }
}

/// Loaded shelves landing one by one on `cur`: each replaces the first
/// shelf of its id, or is appended.
pub open spec fn land_shelves(cur: Seq<ShelfView>, loaded: Seq<ShelfView>, prev: Seq<ShelfView>) -> Seq<ShelfView>
    decreases loaded.len(),
{
    if loaded.len() == 0 {
        cur
    } else {
        let p = land_shelves(cur, loaded.drop_last(), prev);
        let sh = keep_prev_shelf(prev, loaded.last());
        match shelf_id_from(p, sh.id, 0) {
            Some(i) => p.update(i, sh),
            None => p.push(sh),
        }
    }
}

/// Loaded mixes landing one by one.
pub open spec fn land_mixes(cur: Seq<MixView>, loaded: Seq<MixView>, prev: Seq<MixView>) -> Seq<MixView>
    decreases loaded.len(),
{
    if loaded.len() == 0 {
        cur
    } else {
        let p = land_mixes(cur, loaded.drop_last(), prev);
        let m = keep_prev_mix(prev, loaded.last());
        match mix_id_from(p, m.id, 0) {
            Some(i) => p.update(i, m),
            None => p.push(m),
        }
    }
}

fn keep_prev_shelf_exec(prev: &Vec<RecommendationShelf>, sh: RecommendationShelf) -> (r: RecommendationShelf)
    ensures
        r@ == keep_prev_shelf(shelf_views(prev@), sh@),
{
    let mut sh = sh;
    if sh.tracks.len() == 0 && sh.error.is_some() {
        if let Some(i) = shelf_position(prev, sh.id.as_str()) {
            if prev[i].tracks.len() > 0 {
                sh.tracks = copy_tracks(&prev[i].tracks);
            } else {
                assert(track_views(prev@[i as int].tracks@).len() == 0);
            }
        }
    }
    sh
}

fn keep_prev_mix_exec(prev: &Vec<RecommendationMix>, m: RecommendationMix) -> (r: RecommendationMix)
    ensures
        r@ == keep_prev_mix(mix_views(prev@), m@),
{
    let mut m = m;
    if m.tracks.len() == 0 && m.error.is_some() {
        if let Some(i) = mix_position(prev, m.id.as_str()) {
            if prev[i].tracks.len() > 0 {
                m.tracks = copy_tracks(&prev[i].tracks);
            } else {
                assert(track_views(prev@[i as int].tracks@).len() == 0);
            }
        }
    }
    m
}

/// Land a load on the shelves on screen: a full refresh (no `only_id`)
/// replaces them all; a single-row reroll replaces or appends just the
/// loaded rows. Either way a failed row keeps the tracks it showed.
pub fn merge_loaded_shelves(current: &mut Vec<RecommendationShelf>, loaded: Vec<RecommendationShelf>, only_id: Option<&str>)
    ensures
        only_id is None ==> shelf_views(final(current)@) == shelf_views(loaded@).map_values(
            |sh: ShelfView| keep_prev_shelf(shelf_views(old(current)@), sh),
        ),
        only_id is Some ==> shelf_views(final(current)@) == land_shelves(
            shelf_views(old(current)@),
            shelf_views(loaded@),
            shelf_views(old(current)@),
        ),
{
    let mut prev: Vec<RecommendationShelf> = Vec::new();
    let mut c: usize = 0;
    while c < current.len()
        invariant
            c <= current@.len(),
            shelf_views(prev@) == shelf_views(current@).take(c as int),
        decreases current@.len() - c,
    {
        let ghost before = shelf_views(prev@);
        prev.push(current[c].duplicate());
        assert(shelf_views(prev@) =~= before.push(current@[c as int]@));
        assert(shelf_views(current@).take(c + 1) =~= shelf_views(current@).take(c as int).push(current@[c as int]@));
        c = c + 1;
    }
    assert(shelf_views(current@).take(current@.len() as int) =~= shelf_views(current@));
    let ghost pv = shelf_views(prev@);
    let ghost lv = shelf_views(loaded@);
    if only_id.is_none() {
        let mut out: Vec<RecommendationShelf> = Vec::new();
        let mut k: usize = 0;
        while k < loaded.len()
            invariant
                k <= loaded@.len(),
                lv == shelf_views(loaded@),
                pv == shelf_views(prev@),
                shelf_views(out@) == lv.take(k as int).map_values(|sh: ShelfView| keep_prev_shelf(pv, sh)),
            decreases loaded@.len() - k,
        {
            let y = keep_prev_shelf_exec(&prev, loaded[k].duplicate());
            let ghost before = shelf_views(out@);
            out.push(y);
            assert(shelf_views(out@) =~= before.push(keep_prev_shelf(pv, lv[k as int])));
            assert(lv.take(k + 1).map_values(|sh: ShelfView| keep_prev_shelf(pv, sh)) =~= lv.take(k as int).map_values(
                |sh: ShelfView| keep_prev_shelf(pv, sh),
            ).push(keep_prev_shelf(pv, lv[k as int])));
            k = k + 1;
        }
        assert(lv.take(lv.len() as int) =~= lv);
        *current = out;
        return;
    }
    let mut k: usize = 0;
    while k < loaded.len()
        invariant
            k <= loaded@.len(),
            lv == shelf_views(loaded@),
            pv == shelf_views(prev@),
            shelf_views(current@) == land_shelves(pv, lv.take(k as int), pv),
        decreases loaded@.len() - k,
    {
        let sh = keep_prev_shelf_exec(&prev, loaded[k].duplicate());
        assert(lv.take(k + 1).drop_last() =~= lv.take(k as int));
        assert(lv.take(k + 1).last() == lv[k as int]);
        let ghost before = shelf_views(current@);
        let ghost shv = sh@;
        match shelf_position(current, sh.id.as_str()) {
            Some(i) => {
                current.set(i, sh);
                assert(shelf_views(current@) =~= before.update(i as int, shv));
            },
            None => {
                current.push(sh);
                assert(shelf_views(current@) =~= before.push(shv));
            },
        }
        k = k + 1;
    }
    assert(lv.take(lv.len() as int) =~= lv);
}

/// Land a load on the mixes on screen, by the same rules as shelves.
pub fn merge_loaded_mixes(current: &mut Vec<RecommendationMix>, loaded: Vec<RecommendationMix>, only_id: Option<&str>)
    ensures
        only_id is None ==> mix_views(final(current)@) == mix_views(loaded@).map_values(
            |m: MixView| keep_prev_mix(mix_views(old(current)@), m),
        ),
        only_id is Some ==> mix_views(final(current)@) == land_mixes(
            mix_views(old(current)@),
            mix_views(loaded@),
            mix_views(old(current)@),
        ),
{
    let mut prev: Vec<RecommendationMix> = Vec::new();
    let mut c: usize = 0;
    while c < current.len()
        invariant
            c <= current@.len(),
            mix_views(prev@) == mix_views(current@).take(c as int),
        decreases current@.len() - c,
    {
        let ghost before = mix_views(prev@);
        prev.push(current[c].duplicate());
        assert(mix_views(prev@) =~= before.push(current@[c as int]@));
        assert(mix_views(current@).take(c + 1) =~= mix_views(current@).take(c as int).push(current@[c as int]@));
        c = c + 1;
    }
    assert(mix_views(current@).take(current@.len() as int) =~= mix_views(current@));
    let ghost pv = mix_views(prev@);
    let ghost lv = mix_views(loaded@);
    if only_id.is_none() {
        let mut out: Vec<RecommendationMix> = Vec::new();
        let mut k: usize = 0;
        while k < loaded.len()
            invariant
                k <= loaded@.len(),
                lv == mix_views(loaded@),
                pv == mix_views(prev@),
                mix_views(out@) == lv.take(k as int).map_values(|m: MixView| keep_prev_mix(pv, m)),
            decreases loaded@.len() - k,
        {
            let y = keep_prev_mix_exec(&prev, loaded[k].duplicate());
            let ghost before = mix_views(out@);
            out.push(y);
            assert(mix_views(out@) =~= before.push(keep_prev_mix(pv, lv[k as int])));
            assert(lv.take(k + 1).map_values(|m: MixView| keep_prev_mix(pv, m)) =~= lv.take(k as int).map_values(
                |m: MixView| keep_prev_mix(pv, m),
            ).push(keep_prev_mix(pv, lv[k as int])));
            k = k + 1;
        }
        assert(lv.take(lv.len() as int) =~= lv);
        *current = out;
        return;
    }
    let mut k: usize = 0;
    while k < loaded.len()
        invariant
            k <= loaded@.len(),
            lv == mix_views(loaded@),
            pv == mix_views(prev@),
            mix_views(current@) == land_mixes(pv, lv.take(k as int), pv),
        decreases loaded@.len() - k,
    {
        let sh = keep_prev_mix_exec(&prev, loaded[k].duplicate());
        assert(lv.take(k + 1).drop_last() =~= lv.take(k as int));
        assert(lv.take(k + 1).last() == lv[k as int]);
        let ghost before = mix_views(current@);
        let ghost shv = sh@;
        match mix_position(current, sh.id.as_str()) {
            Some(i) => {
                current.set(i, sh);
                assert(mix_views(current@) =~= before.update(i as int, shv));
            },
            None => {
                current.push(sh);
                assert(mix_views(current@) =~= before.push(shv));
            },
        }
        k = k + 1;
    }
    assert(lv.take(lv.len() as int) =~= lv);
}

/// A row scaffold shown while a plan loads.
pub fn skeleton_shelf(plan: &ShelfHeader) -> (r: RecommendationShelf)
    ensures
        r@ == (ShelfView {
            id: plan.id@,
            eyebrow: plan.eyebrow@,
            title: plan.title@,
            subtitle: plan.subtitle@,
            seed_label: plan.seed_label@,
            tracks: Seq::empty(),
            is_loading: true,
            error: None,
            rerollable: plan.rerollable,
        }),
{
    let r = RecommendationShelf {
        id: plan.id.clone(),
        eyebrow: plan.eyebrow.clone(),
        title: plan.title.clone(),
        subtitle: plan.subtitle.clone(),
        seed_label: plan.seed_label.clone(),
        tracks: Vec::new(),
        is_loading: true,
        error: None,
        rerollable: plan.rerollable,
    };
    assert(track_views(r.tracks@) =~= Seq::<TrackView>::empty());
    r
}

/// A mix scaffold shown while a plan loads.
pub fn skeleton_mix(plan: &MixHeader) -> (r: RecommendationMix)
    ensures
        r@ == (MixView {
            id: plan.id@,
            title: plan.title@,
            subtitle: plan.subtitle@,
            seed_label: plan.seed_label@,
            tracks: Seq::empty(),
            is_loading: true,
            error: None,
            accent_index: plan.accent_index,
        }),
{
    let r = RecommendationMix {
        id: plan.id.clone(),
        title: plan.title.clone(),
        subtitle: plan.subtitle.clone(),
        seed_label: plan.seed_label.clone(),
        tracks: Vec::new(),
        is_loading: true,
        error: None,
        accent_index: plan.accent_index,
    };
    assert(track_views(r.tracks@) =~= Seq::<TrackView>::empty());
    r
}

/// Clear the loading flag of every loading shelf whose id is listed;
/// whether any changed.
pub fn clear_shelf_loading_flags(shelves: &mut Vec<RecommendationShelf>, ids: &Vec<String>) -> (changed: bool)
    ensures
        final(shelves)@.len() == old(shelves)@.len(),
        forall|i: int| 0 <= i < old(shelves)@.len() ==> #[trigger] shelf_views(final(shelves)@)[i] == (ShelfView {
            is_loading: shelf_views(old(shelves)@)[i].is_loading && !string_views(ids@).contains(
                shelf_views(old(shelves)@)[i].id,
            ),
            ..shelf_views(old(shelves)@)[i]
        }),
        changed == exists|i: int| 0 <= i < old(shelves)@.len() && (#[trigger] shelf_views(old(shelves)@)[i]).is_loading
            && string_views(ids@).contains(shelf_views(old(shelves)@)[i].id),
{
    let ghost orig = shelf_views(shelves@);
    let mut changed = false;
    let mut i: usize = 0;
    while i < shelves.len()
        invariant
            i <= shelves@.len(),
            shelves@.len() == orig.len(),
            forall|j: int| i <= j < orig.len() ==> #[trigger] shelf_views(shelves@)[j] == orig[j],
            forall|j: int| 0 <= j < i ==> #[trigger] shelf_views(shelves@)[j] == (ShelfView {
                is_loading: orig[j].is_loading && !string_views(ids@).contains(orig[j].id),
                ..orig[j]
            }),
            changed == exists|j: int| 0 <= j < i && (#[trigger] orig[j]).is_loading && string_views(ids@).contains(orig[j].id),
        decreases shelves@.len() - i,
    {
        assert(shelf_views(shelves@)[i as int] == shelves@[i as int]@);
        let listed = crate::text::contains_string(ids, shelves[i].id.as_str());
        if shelves[i].is_loading && listed {
            let mut sh = shelves[i].duplicate();
            sh.is_loading = false;
            let ghost before = shelf_views(shelves@);
            let ghost shv = sh@;
            shelves.set(i, sh);
            assert(shelf_views(shelves@) =~= before.update(i as int, shv));
            changed = true;
        }
        i = i + 1;
    }
    changed
}

/// Clear the loading flag of every loading mix whose id is listed; whether
/// any changed.
pub fn clear_mix_loading_flags(mixes: &mut Vec<RecommendationMix>, ids: &Vec<String>) -> (changed: bool)
    ensures
        final(mixes)@.len() == old(mixes)@.len(),
        forall|i: int| 0 <= i < old(mixes)@.len() ==> #[trigger] mix_views(final(mixes)@)[i] == (MixView {
            is_loading: mix_views(old(mixes)@)[i].is_loading && !string_views(ids@).contains(
                mix_views(old(mixes)@)[i].id,
            ),
            ..mix_views(old(mixes)@)[i]
        }),
        changed == exists|i: int| 0 <= i < old(mixes)@.len() && (#[trigger] mix_views(old(mixes)@)[i]).is_loading
            && string_views(ids@).contains(mix_views(old(mixes)@)[i].id),
{
    let ghost orig = mix_views(mixes@);
    let mut changed = false;
    let mut i: usize = 0;
    while i < mixes.len()
        invariant
            i <= mixes@.len(),
            mixes@.len() == orig.len(),
            forall|j: int| i <= j < orig.len() ==> #[trigger] mix_views(mixes@)[j] == orig[j],
            forall|j: int| 0 <= j < i ==> #[trigger] mix_views(mixes@)[j] == (MixView {
                is_loading: orig[j].is_loading && !string_views(ids@).contains(orig[j].id),
                ..orig[j]
            }),
            changed == exists|j: int| 0 <= j < i && (#[trigger] orig[j]).is_loading && string_views(ids@).contains(orig[j].id),
        decreases mixes@.len() - i,
    {
        assert(mix_views(mixes@)[i as int] == mixes@[i as int]@);
        let listed = crate::text::contains_string(ids, mixes[i].id.as_str());
        if mixes[i].is_loading && listed {
            let mut m = mixes[i].duplicate();
            m.is_loading = false;
            let ghost before = mix_views(mixes@);
            let ghost mv = m@;
            mixes.set(i, m);
            assert(mix_views(mixes@) =~= before.update(i as int, mv));
            changed = true;
        }
        i = i + 1;
    }
    changed
}

/// Liked tracks from the local store and from Spotify, deduplicated by URI
/// and artist|title.
pub fn combined_likes(local: &Vec<Track>, spotify: &Vec<Track>) -> (r: Vec<Track>)
    ensures
        track_views(r@) == dedupe_tracks_spec(track_views(local@) + track_views(spotify@)),
{
    let mut all = copy_tracks(local);
    let ghost l = track_views(all@);
    let mut i: usize = 0;
    while i < spotify.len()
        invariant
            i <= spotify@.len(),
            track_views(all@) == l + track_views(spotify@).take(i as int),
        decreases spotify@.len() - i,
    {
        let ghost before = track_views(all@);
        all.push(spotify[i].duplicate());
        assert(track_views(all@) =~= before.push(spotify@[i as int]@));
        assert(track_views(spotify@).take(i + 1) =~= track_views(spotify@).take(i as int).push(spotify@[i as int]@));
        i = i + 1;
    }
    assert(track_views(spotify@).take(spotify@.len() as int) =~= track_views(spotify@));
    dedupe_tracks(all)
}

/// The row scaffold of a plan.
pub open spec fn shelf_skeleton_spec(p: ShelfHeader) -> ShelfView {
    ShelfView {
        id: p.id@,
        eyebrow: p.eyebrow@,
        title: p.title@,
        subtitle: p.subtitle@,
        seed_label: p.seed_label@,
        tracks: Seq::empty(),
        is_loading: true,
        error: None,
        rerollable: p.rerollable,
    }
}

/// The mix scaffold of a plan.
pub open spec fn mix_skeleton_spec(p: MixHeader) -> MixView {
    MixView {
        id: p.id@,
        title: p.title@,
        subtitle: p.subtitle@,
        seed_label: p.seed_label@,
        tracks: Seq::empty(),
        is_loading: true,
        error: None,
        accent_index: p.accent_index,
    }
}

/// Plans marked on rows already on screen, one by one: the first row of
/// the plan's id shows as loading, without error, with the plan's seed
/// label and subtitle and its old tracks; a plan without a row gets a
/// scaffold.
pub open spec fn mark_shelves(cur: Seq<ShelfView>, plans: Seq<ShelfHeader>) -> Seq<ShelfView>
    decreases plans.len(),
{
    if plans.len() == 0 {
        cur
    } else {
        let c = mark_shelves(cur, plans.drop_last());
        let p = plans.last();
        match shelf_id_from(c, p.id@, 0) {
            Some(i) => c.update(i, ShelfView { is_loading: true, error: None, seed_label: p.seed_label@, subtitle: p.subtitle@, ..c[i] }),
            None => c.push(shelf_skeleton_spec(p)),
        }
    }
}

/// The same for mixes.
pub open spec fn mark_mixes(cur: Seq<MixView>, plans: Seq<MixHeader>) -> Seq<MixView>
    decreases plans.len(),
{
    if plans.len() == 0 {
        cur
    } else {
        let c = mark_mixes(cur, plans.drop_last());
        let p = plans.last();
        match mix_id_from(c, p.id@, 0) {
            Some(i) => c.update(i, MixView { is_loading: true, error: None, seed_label: p.seed_label@, subtitle: p.subtitle@, ..c[i] }),
            None => c.push(mix_skeleton_spec(p)),
        }
    }
}

/// Show a (re)load in progress: from cold, a scaffold per plan; with rows
/// on screen, their tracks stay while they show as loading.
pub fn mark_shelves_loading(shelves: &mut Vec<RecommendationShelf>, plans: &Vec<ShelfHeader>)
    ensures
        shelf_views(final(shelves)@) == if old(shelves)@.len() == 0 {
            plans@.map_values(|p: ShelfHeader| shelf_skeleton_spec(p))
        } else {
            mark_shelves(shelf_views(old(shelves)@), plans@)
        },
{
    if shelves.len() == 0 {
        let mut out: Vec<RecommendationShelf> = Vec::new();
        let mut k: usize = 0;
        while k < plans.len()
            invariant
                k <= plans@.len(),
                shelf_views(out@) == plans@.take(k as int).map_values(|p: ShelfHeader| shelf_skeleton_spec(p)),
            decreases plans@.len() - k,
        {
            let ghost before = shelf_views(out@);
            out.push(skeleton_shelf(&plans[k]));
            assert(shelf_views(out@) =~= before.push(shelf_skeleton_spec(plans@[k as int])));
            assert(plans@.take(k + 1).map_values(|p: ShelfHeader| shelf_skeleton_spec(p)) =~= plans@.take(
                k as int,
            ).map_values(|p: ShelfHeader| shelf_skeleton_spec(p)).push(shelf_skeleton_spec(plans@[k as int])));
            k = k + 1;
        }
        assert(plans@.take(plans@.len() as int) =~= plans@);
        *shelves = out;
        return;
    }
    let ghost cur = shelf_views(shelves@);
    let mut k: usize = 0;
    while k < plans.len()
        invariant
            k <= plans@.len(),
            shelf_views(shelves@) == mark_shelves(cur, plans@.take(k as int)),
        decreases plans@.len() - k,
    {
        let p = &plans[k];
        assert(plans@.take(k + 1).drop_last() =~= plans@.take(k as int));
        assert(plans@.take(k + 1).last() == *p);
        let ghost before = shelf_views(shelves@);
        match shelf_position(shelves, p.id.as_str()) {
            Some(i) => {
                let mut sh = shelves[i].duplicate();
                sh.is_loading = true;
                sh.error = None;
                sh.seed_label = p.seed_label.clone();
                sh.subtitle = p.subtitle.clone();
                let ghost shv = sh@;
                shelves.set(i, sh);
                assert(shelf_views(shelves@) =~= before.update(i as int, shv));
            },
            None => {
                let sk = skeleton_shelf(p);
                shelves.push(sk);
                assert(shelf_views(shelves@) =~= before.push(shelf_skeleton_spec(*p)));
            },
        }
        k = k + 1;
    }
    assert(plans@.take(plans@.len() as int) =~= plans@);
}

/// Show a (re)load of the mixes in progress, by the same rules as shelves.
pub fn mark_mixes_loading(mixes: &mut Vec<RecommendationMix>, plans: &Vec<MixHeader>)
    ensures
        mix_views(final(mixes)@) == if old(mixes)@.len() == 0 {
            plans@.map_values(|p: MixHeader| mix_skeleton_spec(p))
        } else {
            mark_mixes(mix_views(old(mixes)@), plans@)
        },
{
    if mixes.len() == 0 {
        let mut out: Vec<RecommendationMix> = Vec::new();
        let mut k: usize = 0;
        while k < plans.len()
            invariant
                k <= plans@.len(),
                mix_views(out@) == plans@.take(k as int).map_values(|p: MixHeader| mix_skeleton_spec(p)),
            decreases plans@.len() - k,
        {
            let ghost before = mix_views(out@);
            out.push(skeleton_mix(&plans[k]));
            assert(mix_views(out@) =~= before.push(mix_skeleton_spec(plans@[k as int])));
            assert(plans@.take(k + 1).map_values(|p: MixHeader| mix_skeleton_spec(p)) =~= plans@.take(
                k as int,
            ).map_values(|p: MixHeader| mix_skeleton_spec(p)).push(mix_skeleton_spec(plans@[k as int])));
            k = k + 1;
        }
        assert(plans@.take(plans@.len() as int) =~= plans@);
        *mixes = out;
        return;
    }
    let ghost cur = mix_views(mixes@);
    let mut k: usize = 0;
    while k < plans.len()
        invariant
            k <= plans@.len(),
            mix_views(mixes@) == mark_mixes(cur, plans@.take(k as int)),
        decreases plans@.len() - k,
    {
        let p = &plans[k];
        assert(plans@.take(k + 1).drop_last() =~= plans@.take(k as int));
        assert(plans@.take(k + 1).last() == *p);
        let ghost before = mix_views(mixes@);
        match mix_position(mixes, p.id.as_str()) {
            Some(i) => {
                let mut m = mixes[i].duplicate();
                m.is_loading = true;
                m.error = None;
                m.seed_label = p.seed_label.clone();
                m.subtitle = p.subtitle.clone();
                let ghost mv = m@;
                mixes.set(i, m);
                assert(mix_views(mixes@) =~= before.update(i as int, mv));
            },
            None => {
                let sk = skeleton_mix(p);
                mixes.push(sk);
                assert(mix_views(mixes@) =~= before.push(mix_skeleton_spec(*p)));
            },
        }
        k = k + 1;
    }
    assert(plans@.take(plans@.len() as int) =~= plans@);
}

/// The personalised rows a reload avoids repeating.
pub open spec fn is_personal_row(id: Seq<char>) -> bool {
    id == "made-for-you"@ || id == "because-recent"@
}

/// Track keys of the personalised shelves, row by row.
pub open spec fn shelf_keys(s: Seq<ShelfView>) -> Seq<Seq<char>>
    decreases s.len(),
{
    if s.len() == 0 {
        Seq::empty()
    } else {
        shelf_keys(s.drop_last()) + if is_personal_row(s.last().id) {
            s.last().tracks.map_values(|t: TrackView| track_key_spec(t))
        } else {
            Seq::empty()
        }
    }
}

/// Track keys of every mix, mix by mix.
pub open spec fn mix_keys(s: Seq<MixView>) -> Seq<Seq<char>>
    decreases s.len(),
{
    if s.len() == 0 {
        Seq::empty()
    } else {
        mix_keys(s.drop_last()) + s.last().tracks.map_values(|t: TrackView| track_key_spec(t))
    }
}

fn push_keys(out: &mut Vec<String>, tracks: &Vec<Track>)
    ensures
        string_views(final(out)@) == string_views(old(out)@) + track_views(tracks@).map_values(
            |t: TrackView| track_key_spec(t),
        ),
{
    let ghost base = string_views(out@);
    let ghost tv = track_views(tracks@);
    let mut j: usize = 0;
    while j < tracks.len()
        invariant
            j <= tracks@.len(),
            tv == track_views(tracks@),
            string_views(out@) == base + tv.take(j as int).map_values(|t: TrackView| track_key_spec(t)),
        decreases tracks@.len() - j,
    {
        let ghost before = string_views(out@);
        out.push(track_key(&tracks[j]));
        assert(string_views(out@) =~= before.push(track_key_spec(tv[j as int])));
        assert(tv.take(j + 1).map_values(|t: TrackView| track_key_spec(t)) =~= tv.take(j as int).map_values(
            |t: TrackView| track_key_spec(t),
        ).push(track_key_spec(tv[j as int])));
        j = j + 1;
    }
    assert(tv.take(tracks@.len() as int) =~= tv);
}

/// Track keys of everything the personalised rows and the mixes show, so
/// the next load can avoid repeating them.
pub fn shown_track_keys(shelves: &Vec<RecommendationShelf>, mixes: &Vec<RecommendationMix>) -> (r: Vec<String>)
    ensures
        string_views(r@) == shelf_keys(shelf_views(shelves@)) + mix_keys(mix_views(mixes@)),
{
    let ghost sv = shelf_views(shelves@);
    let ghost mv = mix_views(mixes@);
    let mut out: Vec<String> = Vec::new();
    let mut i: usize = 0;
    while i < shelves.len()
        invariant
            i <= shelves@.len(),
            sv == shelf_views(shelves@),
            string_views(out@) == shelf_keys(sv.take(i as int)),
        decreases shelves@.len() - i,
    {
        assert(sv.take(i + 1).drop_last() =~= sv.take(i as int));
        assert(sv.take(i + 1).last() == shelves@[i as int]@);
        let ghost before = string_views(out@);
        if str_eq(shelves[i].id.as_str(), "made-for-you") || str_eq(shelves[i].id.as_str(), "because-recent") {
            push_keys(&mut out, &shelves[i].tracks);
        } else {
            assert(before + Seq::<Seq<char>>::empty() =~= before);
        }
        i = i + 1;
    }
    assert(sv.take(shelves@.len() as int) =~= sv);
    let ghost base = string_views(out@);
    let mut k: usize = 0;
    assert(mix_keys(mv.take(0)) =~= Seq::<Seq<char>>::empty());
    assert(base + mix_keys(mv.take(0)) =~= base);
    while k < mixes.len()
        invariant
            k <= mixes@.len(),
            mv == mix_views(mixes@),
            string_views(out@) == base + mix_keys(mv.take(k as int)),
        decreases mixes@.len() - k,
    {
        assert(mv.take(k + 1).drop_last() =~= mv.take(k as int));
        assert(mv.take(k + 1).last() == mixes@[k as int]@);
        let ghost before = string_views(out@);
        push_keys(&mut out, &mixes[k].tracks);
        assert(base + mix_keys(mv.take(k + 1)) =~= before + track_views(mixes@[k as int].tracks@).map_values(
            |t: TrackView| track_key_spec(t),
        ));
        k = k + 1;
    }
    assert(mv.take(mixes@.len() as int) =~= mv);
    out
}


proof fn lemma_mix_pass_fresh(st: SeenSets, m: Seq<TrackView>)
    ensures
        ({
            let r = mix_pass(st, m);
            &&& forall|u: Seq<char>| st.0.contains(u) ==> r.1.0.contains(u)
            &&& forall|i: int| 0 <= i < r.0.len() ==> !st.0.contains((#[trigger] r.0[i]).uri) && r.1.0.contains(r.0[i].uri)
            &&& forall|i: int, j: int| 0 <= i < j < r.0.len() ==> (#[trigger] r.0[i]).uri != (#[trigger] r.0[j]).uri
        }),
    decreases m.len(),
{
    if m.len() > 0 {
        lemma_mix_pass_fresh(st, m.drop_last());
        let prev = mix_pass(st, m.drop_last());
        let t = m.last();
        let step = mix_step(prev.1, t);
        let r = mix_pass(st, m);
        if step.0 {
            assert(!prev.1.0.contains(t.uri));
            assert forall|i: int| 0 <= i < r.0.len() implies !st.0.contains((#[trigger] r.0[i]).uri)
                && r.1.0.contains(r.0[i].uri) by {
                if i < prev.0.len() {
                    assert(r.0[i] == prev.0[i]);
                }
            }
            assert forall|i: int, j: int| 0 <= i < j < r.0.len() implies (#[trigger] r.0[i]).uri
                != (#[trigger] r.0[j]).uri by {
                assert(r.0[i] == prev.0[i]);
                if j < prev.0.len() {
                    assert(r.0[j] == prev.0[j]);
                }
            }
        } else {
            assert forall|i: int| 0 <= i < r.0.len() implies !st.0.contains((#[trigger] r.0[i]).uri)
                && r.1.0.contains(r.0[i].uri) by {
                assert(r.0[i] == prev.0[i]);
            }
        }
    }
}

proof fn lemma_mixes_pass_fresh(ms: Seq<Seq<TrackView>>)
    ensures
        ({
            let r = mixes_pass(ms);
            &&& r.0.len() == ms.len()
            &&& forall|a: int, i: int| 0 <= a < r.0.len() && 0 <= i < r.0[a].len() ==> r.1.0.contains(#[trigger] r.0[a][i].uri)
            &&& forall|a: int, b: int, i: int, j: int|
                0 <= a < r.0.len() && 0 <= b < r.0.len() && 0 <= i < r.0[a].len() && 0 <= j < r.0[b].len()
                    && (a != b || i != j) ==> (#[trigger] r.0[a][i]).uri != (#[trigger] r.0[b][j]).uri
        }),
    decreases ms.len(),
{
    if ms.len() > 0 {
        lemma_mixes_pass_fresh(ms.drop_last());
        let prev = mixes_pass(ms.drop_last());
        let one = mix_pass(prev.1, ms.last());
        lemma_mix_pass_fresh(prev.1, ms.last());
        let r = mixes_pass(ms);
        let n = prev.0.len();
        assert forall|a: int, i: int| 0 <= a < r.0.len() && 0 <= i < r.0[a].len() implies r.1.0.contains(
            #[trigger] r.0[a][i].uri,
        ) by {
            if a < n {
                assert(r.0[a] == prev.0[a]);
            }
        }
        assert forall|a: int, b: int, i: int, j: int|
            0 <= a < r.0.len() && 0 <= b < r.0.len() && 0 <= i < r.0[a].len() && 0 <= j < r.0[b].len()
                && (a != b || i != j) implies (#[trigger] r.0[a][i]).uri != (#[trigger] r.0[b][j]).uri by {
            if a < n {
                assert(r.0[a] == prev.0[a]);
                assert(prev.1.0.contains(prev.0[a][i].uri));
            }
            if b < n {
                assert(r.0[b] == prev.0[b]);
                assert(prev.1.0.contains(prev.0[b][j].uri));
            }
        }
    }
}

/// After the cross-mix dedupe, a track (by URI) is in at most one mix, and
/// at most once there.
pub proof fn law_a_track_lands_in_one_mix(ms: Seq<Seq<TrackView>>, a: int, b: int, i: int, j: int)
    requires
        0 <= a < ms.len(),
        0 <= b < ms.len(),
        0 <= i < mixes_pass(ms).0[a].len(),
        0 <= j < mixes_pass(ms).0[b].len(),
        a != b || i != j,
    ensures
        mixes_pass(ms).0[a][i].uri != mixes_pass(ms).0[b][j].uri,
{
    lemma_mixes_pass_fresh(ms);
}

proof fn lemma_mix_id_first(s: Seq<MixView>, id: Seq<char>, k: int, i: int)
    requires
        0 <= k <= i < s.len(),
        s[i].id == id,
        forall|j: int| 0 <= j < i ==> (#[trigger] s[j]).id != id,
    ensures
        mix_id_from(s, id, k) == Some(i),
    decreases i - k,
{
    if k < i {
        lemma_mix_id_first(s, id, k + 1, i);
    }
}

proof fn lemma_shelf_id_first(s: Seq<ShelfView>, id: Seq<char>, k: int, i: int)
    requires
        0 <= k <= i < s.len(),
        s[i].id == id,
        forall|j: int| 0 <= j < i ==> (#[trigger] s[j]).id != id,
    ensures
        shelf_id_from(s, id, k) == Some(i),
    decreases i - k,
{
    if k < i {
        lemma_shelf_id_first(s, id, k + 1, i);
    }
}

/// A mix whose reload failed with nothing to show keeps the tracks the
/// first mix of its id showed (its error still set); a reload that
/// brought tracks, or that did not fail, lands as it came.
pub proof fn law_failed_mix_reload_keeps_its_tracks(prev: Seq<MixView>, m: MixView, i: int)
    requires
        0 <= i < prev.len(),
        prev[i].id == m.id,
        forall|j: int| 0 <= j < i ==> (#[trigger] prev[j]).id != m.id,
    ensures
        m.tracks.len() == 0 && m.error is Some && prev[i].tracks.len() > 0 ==> keep_prev_mix(prev, m)
            == (MixView { tracks: prev[i].tracks, ..m }),
        !(m.tracks.len() == 0 && m.error is Some) ==> keep_prev_mix(prev, m) == m,
{
    lemma_mix_id_first(prev, m.id, 0, i);
}

/// Without a failure with nothing to show, a loaded mix lands as it came,
/// whatever was on screen.
pub proof fn law_mix_reload_lands_as_loaded(prev: Seq<MixView>, m: MixView)
    requires
        !(m.tracks.len() == 0 && m.error is Some),
    ensures
        keep_prev_mix(prev, m) == m,
{
}

/// The same for shelves: a failed reload with nothing to show keeps the
/// tracks the first shelf of its id showed; any other reload lands as it
/// came.
pub proof fn law_failed_shelf_reload_keeps_its_tracks(prev: Seq<ShelfView>, sh: ShelfView, i: int)
    requires
        0 <= i < prev.len(),
        prev[i].id == sh.id,
        forall|j: int| 0 <= j < i ==> (#[trigger] prev[j]).id != sh.id,
    ensures
        sh.tracks.len() == 0 && sh.error is Some && prev[i].tracks.len() > 0 ==> keep_prev_shelf(prev, sh)
            == (ShelfView { tracks: prev[i].tracks, ..sh }),
        !(sh.tracks.len() == 0 && sh.error is Some) ==> keep_prev_shelf(prev, sh) == sh,
{
    lemma_shelf_id_first(prev, sh.id, 0, i);
}

} // verus!
