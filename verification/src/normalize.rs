//! Title and artist normalisation: the keys that decide when two tracks are
//! "the same song".

use vstd::prelude::*;
use crate::text::{
    all_ascii, ascii_alphanumeric, ascii_lower, ascii_lower_char, first_index_of,
    lemma_collapse_chars, lemma_collapse_clean, lemma_collapse_ends, lemma_collapse_single_spaces,
    lemma_first_index_bounds, lemma_first_index_unique, unicode_alphanumeric, unicode_whitespace,
    before_char, blank_ascii, blank_non_alnum, blank_non_ascii_alnum, blank_unicode, chars_of,
    collapse, collapse_whitespace, concat, contains, find, lowercase, replace, replace_all,
    string_of, take_before, to_lowercase,
};

verus! {

broadcast use vstd::string::group_string_axioms;

/// Lowercase, keep ASCII letters and digits, everything else separates
/// words; words joined by single spaces.
pub open spec fn normalise_text_spec(s: Seq<char>) -> Seq<char> {
    collapse_whitespace(blank_non_ascii_alnum(lowercase(s)))
}

/// Lowercase, keep Unicode letters and digits, everything else separates
/// words; words joined by single spaces.
pub open spec fn match_key_spec(s: Seq<char>) -> Seq<char> {
    collapse_whitespace(blank_non_alnum(lowercase(s)))
}

/// Upload noise removed from a lowercased title, in this order.
pub open spec fn noise_tokens() -> Seq<Seq<char>> {
    seq![
        "official audio"@,
        "official music video"@,
        "official video"@,
        "visualizer"@,
        "lyrics"@,
        "lyric video"@,
        "prod."@,
        "produced by"@,
        "feat."@,
        "ft."@,
    ]
}

/// Each token of `toks`, in order, replaced by a space throughout `s`.
pub open spec fn strip_tokens(s: Seq<char>, toks: Seq<Seq<char>>) -> Seq<char>
    decreases toks.len(),
{
    if toks.len() == 0 {
        s
    } else {
        strip_tokens(replace_all(s, toks[0], " "@), toks.drop_first())
    }
}

/// The noise-free core of a title: lowercased, cut at the first `(`, then
/// at the first `[`, then at the first `{`, upload-noise tokens blanked out,
/// and normalised.
pub open spec fn canonical_title_spec(title: Seq<char>) -> Seq<char> {
    let lower = lowercase(title);
    let cut = before_char(before_char(before_char(lower, '('), '['), '{');
    normalise_text_spec(strip_tokens(cut, noise_tokens()))
}

/// The identity used to dedupe candidates: the canonical title, or, when
/// the title has no canonical core, normalised artist and title joined by `|`.
pub open spec fn dedupe_key_spec(artist: Seq<char>, title: Seq<char>) -> Seq<char> {
    let t = canonical_title_spec(title);
    if t.len() == 0 {
        normalise_text_spec(artist) + "|"@ + normalise_text_spec(title)
    } else {
        t
    }
}

/// Markers of remixes, speed-edits, covers and live takes.
pub open spec fn variant_tokens() -> Seq<Seq<char>> {
    seq![
        "remix"@,
        " edit"@,
        "sped up"@,
        "slowed"@,
        "reverb"@,
        "nightcore"@,
        "8d"@,
        "loop"@,
        "cover"@,
        "instrumental"@,
        "karaoke"@,
        "live"@,
    ]
}

/// The lowercased title contains one of the variant markers.
pub open spec fn has_variant_token_spec(title: Seq<char>) -> bool {
    exists|k: int| 0 <= k < variant_tokens().len() && contains(lowercase(title), #[trigger] variant_tokens()[k])
}

/// The normalised form of a string's characters.
pub fn normalise_chars(v: &Vec<char>) -> (r: Vec<char>)
    ensures
        r@ == normalise_text_spec(v@),
{
    let s = string_of(v);
    let lower = to_lowercase(s.as_str());
    let lv = chars_of(lower.as_str());
    let blanked = blank_ascii(&lv);
    collapse(&blanked)
}

/// Lowercase, ASCII letters and digits only, single spaces between words.
pub fn normalise_text(s: &str) -> (r: String)
    ensures
        r@ == normalise_text_spec(s@),
{
    let v = chars_of(s);
    let n = normalise_chars(&v);
    string_of(&n)
}

/// Lowercase, Unicode letters and digits only, single spaces between words.
/// "Mystic Dream (feat. X)" and "mystic dream feat x" give the same key.
pub fn match_key(s: &str) -> (r: String)
    ensures
        r@ == match_key_spec(s@),
{
    let lower = to_lowercase(s);
    let lv = chars_of(lower.as_str());
    let blanked = blank_unicode(&lv);
    let c = collapse(&blanked);
    string_of(&c)
}

/// The noise tokens as character vectors.
fn noise_token_chars() -> (v: Vec<Vec<char>>)
    ensures
        v@.len() == noise_tokens().len(),
        forall|k: int| 0 <= k < v@.len() ==> (#[trigger] v@[k])@ == noise_tokens()[k],
        forall|k: int| 0 <= k < v@.len() ==> (#[trigger] v@[k])@.len() > 0,
{
    proof {
        reveal_strlit("official audio");
        reveal_strlit("official music video");
        reveal_strlit("official video");
        reveal_strlit("visualizer");
        reveal_strlit("lyrics");
        reveal_strlit("lyric video");
        reveal_strlit("prod.");
        reveal_strlit("produced by");
        reveal_strlit("feat.");
        reveal_strlit("ft.");
    }
    let mut v: Vec<Vec<char>> = Vec::new();
    v.push(chars_of("official audio"));
    v.push(chars_of("official music video"));
    v.push(chars_of("official video"));
    v.push(chars_of("visualizer"));
    v.push(chars_of("lyrics"));
    v.push(chars_of("lyric video"));
    v.push(chars_of("prod."));
    v.push(chars_of("produced by"));
    v.push(chars_of("feat."));
    v.push(chars_of("ft."));
    v
}

/// The variant markers as character vectors.
fn variant_token_chars() -> (v: Vec<Vec<char>>)
    ensures
        v@.len() == variant_tokens().len(),
        forall|k: int| 0 <= k < v@.len() ==> (#[trigger] v@[k])@ == variant_tokens()[k],
{
    let mut v: Vec<Vec<char>> = Vec::new();
    v.push(chars_of("remix"));
    v.push(chars_of(" edit"));
    v.push(chars_of("sped up"));
    v.push(chars_of("slowed"));
    v.push(chars_of("reverb"));
    v.push(chars_of("nightcore"));
    v.push(chars_of("8d"));
    v.push(chars_of("loop"));
    v.push(chars_of("cover"));
    v.push(chars_of("instrumental"));
    v.push(chars_of("karaoke"));
    v.push(chars_of("live"));
    v
}

/// The canonical title of a string's characters.
pub fn canonical_chars(title: &Vec<char>) -> (r: Vec<char>)
    ensures
        r@ == canonical_title_spec(title@),
{
    let s = string_of(title);
    let lower = to_lowercase(s.as_str());
    let lv = chars_of(lower.as_str());
    let a = take_before(&lv, '(');
    let b = take_before(&a, '[');
    let mut out = take_before(&b, '{');
    let toks = noise_token_chars();
    let space = chars_of(" ");
    let mut k: usize = 0;
    assert(noise_tokens().skip(0) =~= noise_tokens());
    while k < toks.len()
        invariant
            k <= toks.len(),
            toks@.len() == noise_tokens().len(),
            forall|j: int| 0 <= j < toks@.len() ==> (#[trigger] toks@[j])@ == noise_tokens()[j],
            forall|j: int| 0 <= j < toks@.len() ==> (#[trigger] toks@[j])@.len() > 0,
            space@ == " "@,
            strip_tokens(before_char(before_char(before_char(lowercase(title@), '('), '['), '{'), noise_tokens())
                == strip_tokens(out@, noise_tokens().skip(k as int)),
        decreases toks.len() - k,
    {
        let ghost rest = noise_tokens().skip(k as int);
        assert(rest[0] == noise_tokens()[k as int]);
        assert(rest.drop_first() =~= noise_tokens().skip(k + 1));
        let tok = &toks[k];
        assert(tok@ == noise_tokens()[k as int]);
        out = replace(&out, tok, &space);
        k = k + 1;
    }
    assert(noise_tokens().skip(toks.len() as int) =~= Seq::<Seq<char>>::empty());
    normalise_chars(&out)
}

/// The noise-free core of a title, e.g. "Drench (Official Audio)" → "drench".
pub fn canonical_title(title: &str) -> (r: String)
    ensures
        r@ == canonical_title_spec(title@),
{
    let v = chars_of(title);
    let c = canonical_chars(&v);
    string_of(&c)
}

/// The identity two candidates are deduplicated on.
pub fn dedupe_key(artist: &str, title: &str) -> (r: String)
    ensures
        r@ == dedupe_key_spec(artist@, title@),
{
    let t = canonical_title(title);
    if t.as_str().is_empty() {
        let a = normalise_text(artist);
        let n = normalise_text(title);
        let with_bar = concat(a.as_str(), "|");
        concat(with_bar.as_str(), n.as_str())
    } else {
        t
    }
}

/// Whether the lowercased title carries a remix/speed-edit/cover/live marker.
pub fn has_variant_token(title: &str) -> (r: bool)
    ensures
        r == has_variant_token_spec(title@),
{
    let lower = to_lowercase(title);
    let lv = chars_of(lower.as_str());
    let toks = variant_token_chars();
    let mut k: usize = 0;
    while k < toks.len()
        invariant
            k <= toks.len(),
            toks@.len() == variant_tokens().len(),
            forall|j: int| 0 <= j < toks@.len() ==> (#[trigger] toks@[j])@ == variant_tokens()[j],
            lv@ == lowercase(title@),
            forall|j: int| 0 <= j < k ==> !contains(lowercase(title@), #[trigger] variant_tokens()[j]),
        decreases toks.len() - k,
    {
        if find(&lv, &toks[k]) {
            assert(contains(lowercase(title@), variant_tokens()[k as int]));
            return true;
        }
        k = k + 1;
    }
    false
}

/// A normalised key holds nothing but spaces and ASCII letters and digits,
/// neither starts nor ends with whitespace, and never holds two spaces in a
/// row.
pub proof fn law_normalised_text_chars(s: Seq<char>)
    ensures
        forall|k: int|
            0 <= k < normalise_text_spec(s).len() ==> #[trigger] normalise_text_spec(s)[k] == ' '
                || ascii_alphanumeric(normalise_text_spec(s)[k]),
        normalise_text_spec(s).len() > 0 ==> !unicode_whitespace(normalise_text_spec(s)[0])
            && !unicode_whitespace(normalise_text_spec(s).last()),
        forall|k: int|
            0 <= k < normalise_text_spec(s).len() && #[trigger] normalise_text_spec(s)[k] == ' ' ==> k + 1
                < normalise_text_spec(s).len() && normalise_text_spec(s)[k + 1] != ' ',
{
    let b = blank_non_ascii_alnum(lowercase(s));
    lemma_collapse_chars(b, |c: char| ascii_alphanumeric(c));
    lemma_collapse_ends(b);
    lemma_collapse_single_spaces(b);
    let r = normalise_text_spec(s);
    assert forall|k: int| 0 <= k < r.len() && #[trigger] r[k] == ' ' implies k + 1 < r.len() && r[k + 1] != ' ' by {
        assert(unicode_whitespace(r[k]));
    }
}

/// A match key holds nothing but spaces and letters and digits (Unicode
/// ones kept), neither starts nor ends with whitespace, and never holds two
/// spaces in a row.
pub proof fn law_match_key_chars(s: Seq<char>)
    ensures
        forall|k: int|
            0 <= k < match_key_spec(s).len() ==> #[trigger] match_key_spec(s)[k] == ' '
                || unicode_alphanumeric(match_key_spec(s)[k]),
        match_key_spec(s).len() > 0 ==> !unicode_whitespace(match_key_spec(s)[0])
            && !unicode_whitespace(match_key_spec(s).last()),
        forall|k: int|
            0 <= k < match_key_spec(s).len() && #[trigger] match_key_spec(s)[k] == ' ' ==> k + 1
                < match_key_spec(s).len() && match_key_spec(s)[k + 1] != ' ',
{
    let b = blank_non_alnum(lowercase(s));
    lemma_collapse_chars(b, |c: char| unicode_alphanumeric(c));
    lemma_collapse_ends(b);
    lemma_collapse_single_spaces(b);
    let r = match_key_spec(s);
    assert forall|k: int| 0 <= k < r.len() && #[trigger] r[k] == ' ' implies k + 1 < r.len() && r[k + 1] != ' ' by {
        assert(unicode_whitespace(r[k]));
    }
}

/// ASCII text that differs only in letter case gets the same normalised
/// key, the same match key and the same canonical title.
pub proof fn law_keys_ignore_ascii_case(a: Seq<char>, b: Seq<char>)
    requires
        all_ascii(a),
        all_ascii(b),
        ascii_lower(a) == ascii_lower(b),
    ensures
        normalise_text_spec(a) == normalise_text_spec(b),
        match_key_spec(a) == match_key_spec(b),
        canonical_title_spec(a) == canonical_title_spec(b),
{
    assert(lowercase(a) == lowercase(b));
}

/// A lowercase ASCII letter, digit or space.
pub open spec fn lower_key_char(c: char) -> bool {
    c == ' ' || ('0' <= c && c <= '9') || ('a' <= c && c <= 'z')
}

/// Normalising ASCII text gives lowercase letters, digits and single
/// spaces, and normalising that again changes nothing.
pub proof fn law_normalise_text_idempotent(s: Seq<char>)
    requires
        all_ascii(s),
    ensures
        forall|k: int| 0 <= k < normalise_text_spec(s).len() ==> lower_key_char(#[trigger] normalise_text_spec(s)[k]),
        normalise_text_spec(normalise_text_spec(s)) == normalise_text_spec(s),
{
    let l = lowercase(s);
    assert(l == ascii_lower(s));
    let b = blank_non_ascii_alnum(l);
    assert forall|i: int| 0 <= i < b.len() implies #[trigger] b[i] == ' ' || (ascii_alphanumeric(b[i]) && !(
    'A' <= b[i] && b[i] <= 'Z')) by {
        assert(l[i] == ascii_lower_char(s[i]));
    }
    lemma_collapse_chars(b, |c: char| ascii_alphanumeric(c) && !('A' <= c && c <= 'Z'));
    law_normalised_text_chars(s);
    lemma_collapse_single_spaces(b);
    let r = normalise_text_spec(s);
    assert forall|k: int| 0 <= k < r.len() implies lower_key_char(#[trigger] r[k]) by {}
    assert(all_ascii(r));
    assert(ascii_lower(r) =~= r) by {
        assert forall|k: int| 0 <= k < r.len() implies ascii_lower(r)[k] == r[k] by {
            assert(lower_key_char(r[k]));
        }
    }
    assert(blank_non_ascii_alnum(r) =~= r) by {
        assert forall|k: int| 0 <= k < r.len() implies blank_non_ascii_alnum(r)[k] == r[k] by {
            assert(lower_key_char(r[k]));
        }
    }
    assert forall|k: int| 0 <= k < r.len() && unicode_whitespace(#[trigger] r[k]) implies r[k] == ' ' && k + 1
        < r.len() && !unicode_whitespace(r[k + 1]) by {
        assert(lower_key_char(r[k]));
    }
    lemma_collapse_clean(r);
}

/// `first_index_of` past a prefix that lacks the character.
proof fn lemma_before_char_concat(p: Seq<char>, q: Seq<char>, d: char)
    requires
        forall|k: int| 0 <= k < p.len() ==> p[k] != d,
    ensures
        before_char(p + q, d) == p + before_char(q, d),
        q.len() > 0 && q[0] != d ==> before_char(q, d).len() > 0 && before_char(q, d)[0] == q[0],
        q.len() > 0 && q[0] == d ==> before_char(p + q, d) == p,
{
    lemma_first_index_bounds(q, d);
    let i = p.len() + first_index_of(q, d);
    assert forall|k: int| 0 <= k < i implies (p + q)[k] != d by {
        if k >= p.len() {
            assert((p + q)[k] == q[k - p.len()]);
        }
    }
    if i < (p + q).len() {
        assert((p + q)[i] == q[first_index_of(q, d)]);
    }
    lemma_first_index_unique(p + q, d, i);
    assert((p + q).take(i) =~= p + q.take(first_index_of(q, d)));
    if q.len() > 0 && q[0] != d {
        assert(first_index_of(q, d) > 0);
    }
    if q.len() > 0 && q[0] == d {
        assert(first_index_of(q, d) == 0);
        assert(q.take(0) =~= Seq::<char>::empty());
        assert(p + Seq::<char>::empty() =~= p);
    }
}

/// A string without the character is its own head.
proof fn lemma_before_char_absent(p: Seq<char>, d: char)
    requires
        forall|k: int| 0 <= k < p.len() ==> p[k] != d,
    ensures
        before_char(p, d) == p,
{
    lemma_before_char_concat(p, Seq::empty(), d);
    lemma_first_index_bounds(Seq::<char>::empty(), d);
    assert(p + Seq::<char>::empty() =~= p);
    assert(Seq::<char>::empty().take(0) =~= Seq::<char>::empty());
}

/// The canonical title ignores everything from the first bracket on: for
/// ASCII titles whose head `h` holds no `(`, `[` or `{`, the head followed
/// by a bracket and anything has the head's canonical title.
pub proof fn law_canonical_title_cuts_at_first_bracket(h: Seq<char>, c: char, x: Seq<char>)
    requires
        c == '(' || c == '[' || c == '{',
        forall|k: int| 0 <= k < h.len() ==> h[k] != '(' && h[k] != '[' && h[k] != '{',
        all_ascii(h + seq![c] + x),
    ensures
        canonical_title_spec(h + seq![c] + x) == canonical_title_spec(h),
{
    let t = h + seq![c] + x;
    assert(all_ascii(h)) by {
        assert forall|i: int| 0 <= i < h.len() implies (#[trigger] h[i]) <= '\u{7f}' by {
            assert(t[i] == h[i]);
        }
    }
    let lh = ascii_lower(h);
    let q = seq![c] + ascii_lower(x);
    assert(ascii_lower(t) =~= lh + q) by {
        assert forall|i: int| 0 <= i < t.len() implies ascii_lower(t)[i] == (lh + q)[i] by {
            if i < h.len() {
                assert(t[i] == h[i]);
            } else if i == h.len() {
                assert(t[i] == c);
            } else {
                assert(t[i] == x[i - h.len() - 1]);
                assert(q[i - h.len()] == ascii_lower(x)[i - h.len() - 1]);
            }
        }
    }
    assert(lowercase(t) == lh + q);
    assert(lowercase(h) == lh);
    assert forall|k: int| 0 <= k < lh.len() implies lh[k] != '(' && lh[k] != '[' && lh[k] != '{' by {
        assert(lh[k] == ascii_lower_char(h[k]));
    }
    assert(q[0] == c);
    lemma_before_char_absent(lh, '(');
    lemma_before_char_absent(lh, '[');
    lemma_before_char_absent(lh, '{');
    lemma_before_char_concat(lh, q, '(');
    if c == '(' {
        assert(before_char(lh + q, '(') == lh);
    } else {
        let q1 = before_char(q, '(');
        assert(q1.len() > 0 && q1[0] == c);
        lemma_before_char_concat(lh, q1, '[');
        if c == '[' {
            assert(before_char(lh + q1, '[') == lh);
        } else {
            let q2 = before_char(q1, '[');
            assert(q2.len() > 0 && q2[0] == c);
            lemma_before_char_concat(lh, q2, '{');
        }
    }
}

} // verus!
