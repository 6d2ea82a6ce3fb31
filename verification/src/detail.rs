//! Detail-view navigation: artist and album pages stack over the section,
//! so Back returns to the page a detail was opened from.

use vstd::prelude::*;
use crate::text::{starts_with, str_eq, str_starts_with};

verus! {

broadcast use vstd::string::group_string_axioms;

/// A detail page: an artist or an album, by URI.
#[derive(Debug)]
pub enum DetailView {
    Artist(String),
    Album(String),
}

/// A detail page as a value.
pub ghost enum DetailKey {
    Artist(Seq<char>),
    Album(Seq<char>),
}

impl View for DetailView {
    type V = DetailKey;

    open spec fn view(&self) -> DetailKey {
        match self {
            DetailView::Artist(u) => DetailKey::Artist(u@),
            DetailView::Album(u) => DetailKey::Album(u@),
        }
    }
}

impl DetailView {
    /// A copy.
    pub fn duplicate(&self) -> (r: DetailView)
        ensures
            r@ == self@,
    {
        match self {
            DetailView::Artist(u) => DetailView::Artist(u.clone()),
            DetailView::Album(u) => DetailView::Album(u.clone()),
        }
    }

    /// Whether two pages are the same page.
    pub fn same_as(&self, other: &DetailView) -> (r: bool)
        ensures
            r == (self@ == other@),
    {
        match (self, other) {
            (DetailView::Artist(a), DetailView::Artist(b)) => str_eq(a.as_str(), b.as_str()),
            (DetailView::Album(a), DetailView::Album(b)) => str_eq(a.as_str(), b.as_str()),
            _ => false,
        }
    }
}

/// The views of a stack.
pub open spec fn detail_views(s: Seq<DetailView>) -> Seq<DetailKey> {
    s.map_values(|d: DetailView| d@)
}

/// The stack after opening `v`: unchanged when `v` is already on top.
pub open spec fn pushed(s: Seq<DetailKey>, v: DetailKey) -> Seq<DetailKey> {
    if s.len() > 0 && s.last() == v {
        s
    } else {
        s.push(v)
    }
}

/// The pages opened over the section, bottom to top; the top one shows.
#[derive(Debug)]
pub struct DetailStack {
    stack: Vec<DetailView>,
}

impl DetailStack {
    /// The stack as values.
    pub closed spec fn views_spec(&self) -> Seq<DetailKey> {
        detail_views(self.stack@)
    }

    /// Nothing open: the section shows.
    pub fn new() -> (r: DetailStack)
        ensures
            r.views_spec().len() == 0,
    {
        let r = DetailStack { stack: Vec::new() };
        assert(r.views_spec() =~= Seq::<DetailKey>::empty());
        r
    }

    /// The page on screen, when any.
    pub fn current(&self) -> (r: Option<DetailView>)
        ensures
            match r {
                Some(v) => self.views_spec().len() > 0 && v@ == self.views_spec().last(),
                None => self.views_spec().len() == 0,
            },
    {
        if self.stack.len() == 0 {
            None
        } else {
            Some(self.stack[self.stack.len() - 1].duplicate())
        }
    }

    /// The whole stack, bottom to top.
    pub fn views(&self) -> (r: Vec<DetailView>)
        ensures
            detail_views(r@) == self.views_spec(),
    {
        let mut r: Vec<DetailView> = Vec::new();
        let mut i: usize = 0;
        while i < self.stack.len()
            invariant
                i <= self.stack@.len(),
                detail_views(r@) == detail_views(self.stack@).take(i as int),
            decreases self.stack@.len() - i,
        {
            let ghost before = detail_views(r@);
            r.push(self.stack[i].duplicate());
            assert(detail_views(r@) =~= before.push(self.stack@[i as int]@));
            assert(detail_views(self.stack@).take(i + 1) =~= detail_views(self.stack@).take(i as int).push(
                self.stack@[i as int]@,
            ));
            i = i + 1;
        }
        assert(detail_views(self.stack@).take(self.stack@.len() as int) =~= detail_views(self.stack@));
        r
    }

    /// Open a page over the current one; re-opening the page on screen does
    /// nothing, so Back never seems to do nothing.
    pub fn push(&mut self, view: DetailView)
        ensures
            final(self).views_spec() == pushed(old(self).views_spec(), view@),
    {
        let n = self.stack.len();
        if n > 0 && self.stack[n - 1].same_as(&view) {
            return;
        }
        let ghost before = detail_views(self.stack@);
        self.stack.push(view);
        assert(detail_views(self.stack@) =~= before.push(view@));
    }

    /// Open an artist page.
    pub fn open_artist(&mut self, uri: String)
        ensures
            final(self).views_spec() == pushed(old(self).views_spec(), DetailKey::Artist(uri@)),
    {
        self.push(DetailView::Artist(uri));
    }

    /// Open an album page.
    pub fn open_album(&mut self, uri: String)
        ensures
            final(self).views_spec() == pushed(old(self).views_spec(), DetailKey::Album(uri@)),
    {
        self.push(DetailView::Album(uri));
    }

    /// Go back one level; nothing when nothing is open.
    pub fn back(&mut self)
        ensures
            final(self).views_spec() == if old(self).views_spec().len() > 0 {
                old(self).views_spec().drop_last()
            } else {
                old(self).views_spec()
            },
    {
        let ghost before = detail_views(self.stack@);
        if self.stack.len() > 0 {
            let _ = self.stack.pop();
            assert(detail_views(self.stack@) =~= before.drop_last());
        }
    }

    /// Leave detail navigation entirely.
    pub fn close(&mut self)
        ensures
            final(self).views_spec().len() == 0,
    {
        self.stack.clear();
        assert(detail_views(self.stack@) =~= Seq::<DetailKey>::empty());
    }
}

/// Opening a page that is not already on screen and going back returns to
/// exactly the stack before; opening the page on screen changes nothing.
pub proof fn law_back_undoes_open(s: Seq<DetailKey>, v: DetailKey)
    ensures
        (s.len() == 0 || s.last() != v) ==> pushed(s, v).drop_last() == s,
        (s.len() > 0 && s.last() == v) ==> pushed(s, v) == s,
        pushed(s, v).last() == v,
{
    assert(s.push(v).drop_last() =~= s);
}

/// Whether a URI can be opened as a detail page: provider entities and
/// scanned local albums can.
pub open spec fn has_detail_page_spec(uri: Seq<char>) -> bool {
    starts_with(uri, "spotify:"@) || starts_with(uri, "soundcloud:"@) || starts_with(
        uri,
        "hires-provider:"@,
    ) || starts_with(uri, "local:album:"@)
}

/// Whether an artist or album URI can be opened as a detail page.
pub fn uri_has_detail_page(uri: &str) -> (r: bool)
    ensures
        r == has_detail_page_spec(uri@),
{
    str_starts_with(uri, "spotify:") || str_starts_with(uri, "soundcloud:") || str_starts_with(
        uri,
        "hires-provider:",
    ) || str_starts_with(uri, "local:album:")
}

} // verus!
