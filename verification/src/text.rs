//! Character-level text utilities shared by every normaliser in the crate.
//!
//! Text is processed as sequences of `char`. Unicode case mapping and the
//! Unicode letter-and-digit class come from std and are named, not restated;
//! whitespace is the short `White_Space` list written out; the composition
//! around them (mapping, collapsing whitespace, searching, replacing,
//! trimming) is proved here.

use vstd::prelude::*;

verus! {

broadcast use vstd::string::group_string_axioms;

// ---------------------------------------------------------------------------
// Names for what std computes
// ---------------------------------------------------------------------------

/// What `str::to_lowercase` returns for a string that holds a character
/// beyond ASCII.
pub uninterp spec fn unicode_lowercase(s: Seq<char>) -> Seq<char>;

/// Every character is ASCII.
pub open spec fn all_ascii(s: Seq<char>) -> bool {
    forall|i: int| 0 <= i < s.len() ==> (#[trigger] s[i]) <= '\u{7f}'
}

/// What `str::to_lowercase` returns: on ASCII text, `A-Z` become `a-z`
/// and every other character stays (Unicode's lowercase mapping of ASCII);
/// beyond ASCII, the name [`unicode_lowercase`].
pub open spec fn lowercase(s: Seq<char>) -> Seq<char> {
    if all_ascii(s) {
        ascii_lower(s)
    } else {
        unicode_lowercase(s)
    }
}

/// What `char::is_alphanumeric` answers for a character.
pub uninterp spec fn unicode_alphanumeric(c: char) -> bool;

/// `char::is_whitespace`: the characters with the Unicode `White_Space`
/// property (tab to carriage return, space, next line, no-break space,
/// ogham space mark, the spaces from en quad to hair space, the line and
/// paragraph separators, the narrow no-break and medium mathematical
/// spaces, and the ideographic space).
pub open spec fn unicode_whitespace(c: char) -> bool {
    ||| ('\t' <= c && c <= '\r')
    ||| c == ' '
    ||| c == '\u{85}'
    ||| c == '\u{a0}'
    ||| c == '\u{1680}'
    ||| ('\u{2000}' <= c && c <= '\u{200a}')
    ||| c == '\u{2028}'
    ||| c == '\u{2029}'
    ||| c == '\u{202f}'
    ||| c == '\u{205f}'
    ||| c == '\u{3000}'
}

/// Calls `str::to_lowercase`. std documents it as the Unicode lowercase
/// mapping and, beside `to_ascii_lowercase`, as lowercasing ASCII characters
/// as well as the rest; on ASCII text that mapping turns `A-Z` into `a-z`
/// and keeps every other character. What it gives for text beyond ASCII is
/// named by [`unicode_lowercase`] and not stated.
#[verifier::external_body]
pub(crate) fn to_lowercase(s: &str) -> (r: String)
    ensures
        r@ == lowercase(s@),
        !all_ascii(s@) ==> r@ == unicode_lowercase(s@),
{
    s.to_lowercase()
}

/// Calls `char::is_alphanumeric`; the answer is named by [`unicode_alphanumeric`].
#[verifier::external_body]
pub(crate) fn is_alphanumeric(c: char) -> (b: bool)
    ensures
        b == unicode_alphanumeric(c),
{
    c.is_alphanumeric()
}

/// `char::is_whitespace` (see [`unicode_whitespace`]).
pub fn is_whitespace(c: char) -> (b: bool)
    ensures
        b == unicode_whitespace(c),
{
    ('\t' <= c && c <= '\r') || c == ' ' || c == '\u{85}' || c == '\u{a0}' || c == '\u{1680}' || (
    '\u{2000}' <= c && c <= '\u{200a}') || c == '\u{2028}' || c == '\u{2029}' || c == '\u{202f}'
        || c == '\u{205f}' || c == '\u{3000}'
}

/// Calls `String::push`: the character is appended.
#[verifier::external_body]
pub(crate) fn push_char(s: &mut String, c: char)
    ensures
        final(s)@ == old(s)@.push(c),
{
    s.push(c)
}

// ---------------------------------------------------------------------------
// Conversions
// ---------------------------------------------------------------------------

/// The characters of a string slice, in order.
pub fn chars_of(s: &str) -> (v: Vec<char>)
    ensures
        v@ == s@,
{
    let mut v: Vec<char> = Vec::new();
    for c in it: s.chars()
        invariant
            v@ == it.seq().take(it.index() as int),
    {
        v.push(c);
    }
    v
}

/// A string holding exactly the given characters.
pub fn string_of(v: &Vec<char>) -> (s: String)
    ensures
        s@ == v@,
{
    let mut s = String::new();
    let mut i: usize = 0;
    while i < v.len()
        invariant
            i <= v.len(),
            s@ == v@.take(i as int),
        decreases v.len() - i,
    {
        push_char(&mut s, v[i]);
        assert(v@.take(i as int).push(v@[i as int]) =~= v@.take(i + 1));
        i = i + 1;
    }
    assert(v@.take(v.len() as int) =~= v@);
    s
}

/// `a` followed by `b`.
pub fn concat(a: &str, b: &str) -> (s: String)
    ensures
        s@ == a@ + b@,
{
    let mut v = chars_of(a);
    let w = chars_of(b);
    let mut i: usize = 0;
    while i < w.len()
        invariant
            i <= w.len(),
            w@ == b@,
            v@ == a@ + b@.take(i as int),
        decreases w.len() - i,
    {
        v.push(w[i]);
        assert(b@.take(i as int).push(b@[i as int]) =~= b@.take(i + 1));
        i = i + 1;
    }
    assert(b@.take(b@.len() as int) =~= b@);
    string_of(&v)
}

/// Whether two strings hold the same characters.
pub fn str_eq(a: &str, b: &str) -> (r: bool)
    ensures
        r == (a@ == b@),
{
    let x = chars_of(a);
    let y = chars_of(b);
    seq_eq(&x, &y)
}

/// Whether two character vectors are equal.
pub fn seq_eq(x: &Vec<char>, y: &Vec<char>) -> (r: bool)
    ensures
        r == (x@ == y@),
{
    if x.len() != y.len() {
        return false;
    }
    let mut i: usize = 0;
    while i < x.len()
        invariant
            x.len() == y.len(),
            i <= x.len(),
            forall|j: int| 0 <= j < i ==> x@[j] == y@[j],
        decreases x.len() - i,
    {
        if x[i] != y[i] {
            return false;
        }
        i = i + 1;
    }
    assert(x@ =~= y@);
    true
}

// ---------------------------------------------------------------------------
// Character classes written out
// ---------------------------------------------------------------------------

/// `char::is_ascii_alphanumeric`: `0-9`, `a-z` or `A-Z`.
pub open spec fn ascii_alphanumeric(c: char) -> bool {
    ('0' <= c && c <= '9') || ('a' <= c && c <= 'z') || ('A' <= c && c <= 'Z')
}

/// `char::is_ascii_alphanumeric`.
pub fn is_ascii_alphanumeric(c: char) -> (b: bool)
    ensures
        b == ascii_alphanumeric(c),
{
    ('0' <= c && c <= '9') || ('a' <= c && c <= 'z') || ('A' <= c && c <= 'Z')
}

/// `char::to_ascii_lowercase`: `A-Z` become `a-z`, every other character stays.
pub open spec fn ascii_lower_char(c: char) -> char {
    if 'A' <= c && c <= 'Z' {
        ((c as u32) + 32) as char
    } else {
        c
    }
}

/// `str::to_ascii_lowercase`, character by character.
pub open spec fn ascii_lower(s: Seq<char>) -> Seq<char> {
    s.map_values(|c: char| ascii_lower_char(c))
}

/// `str::to_ascii_lowercase`.
pub fn to_ascii_lowercase(v: &Vec<char>) -> (r: Vec<char>)
    ensures
        r@ == ascii_lower(v@),
{
    let mut r: Vec<char> = Vec::new();
    let mut i: usize = 0;
    while i < v.len()
        invariant
            i <= v.len(),
            r@ == ascii_lower(v@.take(i as int)),
        decreases v.len() - i,
    {
        let c = v[i];
        let d = if 'A' <= c && c <= 'Z' {
            let code: u32 = (c as u32) + 32;
            assert(code <= 0x5a + 32);
            char_from_ascii(code)
        } else {
            c
        };
        r.push(d);
        assert(ascii_lower(v@.take(i + 1)) =~= ascii_lower(v@.take(i as int)).push(
            ascii_lower_char(v@[i as int]),
        ));
        i = i + 1;
    }
    assert(v@.take(v.len() as int) =~= v@);
    r
}

/// The character with an ASCII code point.
fn char_from_ascii(code: u32) -> (c: char)
    requires
        code < 128,
    ensures
        c == code as char,
{
    let b: u8 = code as u8;
    b as char
}

// ---------------------------------------------------------------------------
// Mapping and collapsing
// ---------------------------------------------------------------------------

/// Every character that is not ASCII alphanumeric becomes a space.
pub open spec fn blank_non_ascii_alnum(s: Seq<char>) -> Seq<char> {
    s.map_values(|c: char| if ascii_alphanumeric(c) { c } else { ' ' })
}

/// Every character that is not alphanumeric (Unicode) becomes a space.
pub open spec fn blank_non_alnum(s: Seq<char>) -> Seq<char> {
    s.map_values(|c: char| if unicode_alphanumeric(c) { c } else { ' ' })
}

/// The whitespace-separated words of `s` joined by single spaces: what
/// `s.split_whitespace().collect::<Vec<_>>().join(" ")` produces.
pub open spec fn collapse_whitespace(s: Seq<char>) -> Seq<char>
    decreases s.len(),
{
    if s.len() == 0 {
        Seq::empty()
    } else {
        let before = collapse_whitespace(s.drop_last());
        let c = s.last();
        if unicode_whitespace(c) {
            before
        } else if before.len() == 0 || (s.len() >= 2 && !unicode_whitespace(s[s.len() - 2])) {
            before.push(c)
        } else {
            before.push(' ').push(c)
        }
    }
}

/// Collapsing never produces whitespace at either end: the result is empty
/// or starts and ends with a character of `s` that is not whitespace.
pub proof fn lemma_collapse_ends(s: Seq<char>)
    ensures
        collapse_whitespace(s).len() > 0 ==> !unicode_whitespace(collapse_whitespace(s).last()),
        collapse_whitespace(s).len() == 0 <==> (forall|i: int|
            0 <= i < s.len() ==> unicode_whitespace(#[trigger] s[i])),
    decreases s.len(),
{
    if s.len() > 0 {
        lemma_collapse_ends(s.drop_last());
        if collapse_whitespace(s.drop_last()).len() == 0 && !unicode_whitespace(s.last()) {
        }
        assert forall|i: int| 0 <= i < s.drop_last().len() implies s.drop_last()[i] == s[i] by {}
        if collapse_whitespace(s).len() == 0 {
            assert forall|i: int| 0 <= i < s.len() implies unicode_whitespace(#[trigger] s[i]) by {
                if i < s.len() - 1 {
                    assert(s.drop_last()[i] == s[i]);
                }
            }
        }
        if forall|i: int| 0 <= i < s.len() ==> unicode_whitespace(#[trigger] s[i]) {
            assert forall|i: int| 0 <= i < s.drop_last().len() implies unicode_whitespace(
                #[trigger] s.drop_last()[i],
            ) by {
                assert(s.drop_last()[i] == s[i]);
            }
            assert(unicode_whitespace(s[s.len() - 1]));
        }
    }
}

/// Collapsing keeps only spaces and characters of `s`: when every character
/// of `s` is a space or passes `allowed`, so does every character of the
/// result; and the result never starts with whitespace.
pub proof fn lemma_collapse_chars(s: Seq<char>, allowed: spec_fn(char) -> bool)
    requires
        forall|i: int| 0 <= i < s.len() ==> #[trigger] s[i] == ' ' || allowed(s[i]),
    ensures
        forall|k: int|
            0 <= k < collapse_whitespace(s).len() ==> #[trigger] collapse_whitespace(s)[k] == ' '
                || allowed(collapse_whitespace(s)[k]),
        collapse_whitespace(s).len() > 0 ==> !unicode_whitespace(collapse_whitespace(s)[0]),
    decreases s.len(),
{
    if s.len() > 0 {
        let d = s.drop_last();
        assert forall|i: int| 0 <= i < d.len() implies #[trigger] d[i] == ' ' || allowed(d[i]) by {
            assert(d[i] == s[i]);
        }
        lemma_collapse_chars(d, allowed);
        assert(s[s.len() - 1] == s.last());
    }
}

/// In a collapsed string every whitespace character is followed by one that
/// is not: words are separated by exactly one space.
pub proof fn lemma_collapse_single_spaces(s: Seq<char>)
    ensures
        forall|k: int|
            0 <= k < collapse_whitespace(s).len() && unicode_whitespace(
                #[trigger] collapse_whitespace(s)[k],
            ) ==> k + 1 < collapse_whitespace(s).len() && !unicode_whitespace(collapse_whitespace(s)[k + 1]),
    decreases s.len(),
{
    if s.len() > 0 {
        lemma_collapse_single_spaces(s.drop_last());
        lemma_collapse_ends(s.drop_last());
        let b = collapse_whitespace(s.drop_last());
        let r = collapse_whitespace(s);
        assert forall|k: int| 0 <= k < r.len() && unicode_whitespace(#[trigger] r[k]) implies k + 1 < r.len()
            && !unicode_whitespace(r[k + 1]) by {
            if k < b.len() {
                assert(r[k] == b[k]);
                if k + 1 < b.len() {
                    assert(r[k + 1] == b[k + 1]);
                }
            }
        }
    }
}

/// A string that already has single spaces between words, and no
/// whitespace but spaces and none at its ends, collapses to itself.
pub proof fn lemma_collapse_clean(r: Seq<char>)
    requires
        r.len() > 0 ==> !unicode_whitespace(r[0]),
        forall|k: int|
            0 <= k < r.len() && unicode_whitespace(#[trigger] r[k]) ==> r[k] == ' ' && k + 1 < r.len()
                && !unicode_whitespace(r[k + 1]),
    ensures
        collapse_whitespace(r) == r,
{
    lemma_collapse_clean_prefix(r, r.len() as int);
    if r.len() > 0 {
        assert(!unicode_whitespace(r[r.len() - 1]));
    }
    assert(r.take(r.len() as int) =~= r);
}

proof fn lemma_collapse_clean_prefix(r: Seq<char>, n: int)
    requires
        0 <= n <= r.len(),
        r.len() > 0 ==> !unicode_whitespace(r[0]),
        forall|k: int|
            0 <= k < r.len() && unicode_whitespace(#[trigger] r[k]) ==> r[k] == ' ' && k + 1 < r.len()
                && !unicode_whitespace(r[k + 1]),
    ensures
        collapse_whitespace(r.take(n)) == if n > 0 && unicode_whitespace(r[n - 1]) {
            r.take(n - 1)
        } else {
            r.take(n)
        },
    decreases n,
{
    if n > 0 {
        lemma_collapse_clean_prefix(r, n - 1);
        let t = r.take(n);
        assert(t.drop_last() =~= r.take(n - 1));
        assert(t.last() == r[n - 1]);
        if !unicode_whitespace(r[n - 1]) && n >= 2 {
            assert(t[t.len() - 2] == r[n - 2]);
            if unicode_whitespace(r[n - 2]) {
                assert(r[n - 2] == ' ');
                if n >= 3 {
                    assert(!unicode_whitespace(r[n - 3])) by {
                        if unicode_whitespace(r[n - 3]) {
                            assert(!unicode_whitespace(r[n - 2]));
                        }
                    }
                }
                assert(r.take(n - 2).push(' ').push(r[n - 1]) =~= t);
            } else {
                assert(r.take(n - 1).push(r[n - 1]) =~= t);
            }
        } else if !unicode_whitespace(r[n - 1]) {
            assert(r.take(0).push(r[0]) =~= t);
        }
    }
}

/// The words of `v` joined by single spaces.
pub fn collapse(v: &Vec<char>) -> (r: Vec<char>)
    ensures
        r@ == collapse_whitespace(v@),
{
    let mut r: Vec<char> = Vec::new();
    let mut i: usize = 0;
    let mut prev_space = true;
    while i < v.len()
        invariant
            i <= v.len(),
            r@ == collapse_whitespace(v@.take(i as int)),
            i > 0 ==> prev_space == unicode_whitespace(v@[i - 1]),
            i == 0 ==> prev_space,
        decreases v.len() - i,
    {
        let c = v[i];
        let sp = is_whitespace(c);
        let ghost t = v@.take(i + 1);
        assert(t.drop_last() =~= v@.take(i as int));
        assert(t.last() == c);
        if !sp {
            if r.len() > 0 && prev_space {
                r.push(' ');
            }
            r.push(c);
        }
        prev_space = sp;
        i = i + 1;
    }
    assert(v@.take(v.len() as int) =~= v@);
    r
}

/// Each character that is not ASCII alphanumeric replaced by a space.
pub fn blank_ascii(v: &Vec<char>) -> (r: Vec<char>)
    ensures
        r@ == blank_non_ascii_alnum(v@),
{
    let mut r: Vec<char> = Vec::new();
    let mut i: usize = 0;
    while i < v.len()
        invariant
            i <= v.len(),
            r@ == blank_non_ascii_alnum(v@.take(i as int)),
        decreases v.len() - i,
    {
        let c = v[i];
        if is_ascii_alphanumeric(c) {
            r.push(c);
        } else {
            r.push(' ');
        }
        assert(blank_non_ascii_alnum(v@.take(i + 1)) =~= blank_non_ascii_alnum(
            v@.take(i as int),
        ).push(if ascii_alphanumeric(c) { c } else { ' ' }));
        i = i + 1;
    }
    assert(v@.take(v.len() as int) =~= v@);
    r
}

/// Each character that is not alphanumeric (Unicode) replaced by a space.
pub fn blank_unicode(v: &Vec<char>) -> (r: Vec<char>)
    ensures
        r@ == blank_non_alnum(v@),
{
    let mut r: Vec<char> = Vec::new();
    let mut i: usize = 0;
    while i < v.len()
        invariant
            i <= v.len(),
            r@ == blank_non_alnum(v@.take(i as int)),
        decreases v.len() - i,
    {
        let c = v[i];
        let keep = is_alphanumeric(c);
        if keep {
            r.push(c);
        } else {
            r.push(' ');
        }
        assert(blank_non_alnum(v@.take(i + 1)) =~= blank_non_alnum(v@.take(i as int)).push(
            if unicode_alphanumeric(c) { c } else { ' ' },
        ));
        i = i + 1;
    }
    assert(v@.take(v.len() as int) =~= v@);
    r
}

// ---------------------------------------------------------------------------
// Searching
// ---------------------------------------------------------------------------

/// `pat` occurs in `s` starting at index `i`.
pub open spec fn occurs_at(s: Seq<char>, pat: Seq<char>, i: int) -> bool {
    0 <= i && i + pat.len() <= s.len() && s.subrange(i, i + pat.len()) == pat
}

/// `pat` occurs somewhere in `s` (`str::contains`).
pub open spec fn contains(s: Seq<char>, pat: Seq<char>) -> bool {
    exists|i: int| occurs_at(s, pat, i)
}

/// `s` starts with `pat` (`str::starts_with`).
pub open spec fn starts_with(s: Seq<char>, pat: Seq<char>) -> bool {
    pat.len() <= s.len() && s.take(pat.len() as int) == pat
}

/// Whether `pat` occurs at index `i` of `s`.
pub fn matches_at(s: &Vec<char>, pat: &Vec<char>, i: usize) -> (r: bool)
    ensures
        r == occurs_at(s@, pat@, i as int),
{
    if i > s.len() || pat.len() > s.len() - i {
        return false;
    }
    let mut k: usize = 0;
    while k < pat.len()
        invariant
            i + pat.len() <= s.len(),
            k <= pat.len(),
            forall|j: int| 0 <= j < k ==> s@[i + j] == pat@[j],
        decreases pat.len() - k,
    {
        if s[i + k] != pat[k] {
            assert(s@.subrange(i as int, i + pat.len())[k as int] != pat@[k as int]);
            return false;
        }
        k = k + 1;
    }
    assert(s@.subrange(i as int, i + pat.len()) =~= pat@);
    true
}

/// `str::starts_with`.
pub fn has_prefix(s: &Vec<char>, pat: &Vec<char>) -> (r: bool)
    ensures
        r == starts_with(s@, pat@),
{
    let r = matches_at(s, pat, 0);
    proof {
        if pat@.len() <= s@.len() {
            assert(s@.subrange(0, pat@.len() as int) =~= s@.take(pat@.len() as int));
        }
    }
    r
}

/// `str::starts_with` on string slices.
pub fn str_starts_with(s: &str, pat: &str) -> (r: bool)
    ensures
        r == starts_with(s@, pat@),
{
    let a = chars_of(s);
    let b = chars_of(pat);
    has_prefix(&a, &b)
}

/// `str::contains` with a string pattern.
pub fn find(s: &Vec<char>, pat: &Vec<char>) -> (r: bool)
    ensures
        r == contains(s@, pat@),
{
    let mut i: usize = 0;
    while i < s.len()
        invariant
            i <= s.len(),
            forall|j: int| 0 <= j < i ==> !occurs_at(s@, pat@, j),
        decreases s.len() - i,
    {
        if matches_at(s, pat, i) {
            return true;
        }
        i = i + 1;
    }
    if matches_at(s, pat, i) {
        return true;
    }
    assert forall|j: int| !occurs_at(s@, pat@, j) by {
        if 0 <= j && j <= i {
        }
    }
    false
}

/// `str::contains` on string slices.
pub fn str_contains(s: &str, pat: &str) -> (r: bool)
    ensures
        r == contains(s@, pat@),
{
    let a = chars_of(s);
    let b = chars_of(pat);
    find(&a, &b)
}


// ---------------------------------------------------------------------------
// Trimming and splitting
// ---------------------------------------------------------------------------

/// `s` without its leading whitespace (`str::trim_start`).
pub open spec fn trim_start(s: Seq<char>) -> Seq<char>
    decreases s.len(),
{
    if s.len() > 0 && unicode_whitespace(s[0]) {
        trim_start(s.drop_first())
    } else {
        s
    }
}

/// `s` without its trailing whitespace (`str::trim_end`).
pub open spec fn trim_end(s: Seq<char>) -> Seq<char>
    decreases s.len(),
{
    if s.len() > 0 && unicode_whitespace(s.last()) {
        trim_end(s.drop_last())
    } else {
        s
    }
}

/// `s` without leading and trailing whitespace (`str::trim`).
pub open spec fn trim(s: Seq<char>) -> Seq<char> {
    trim_end(trim_start(s))
}

/// Dropping leading whitespace from a suffix of `s` that starts at `i`.
proof fn lemma_trim_start_skip(s: Seq<char>, i: int)
    requires
        0 <= i < s.len(),
        unicode_whitespace(s[i]),
    ensures
        trim_start(s.skip(i)) == trim_start(s.skip(i + 1)),
{
    assert(s.skip(i).drop_first() =~= s.skip(i + 1));
}

/// Dropping trailing whitespace from a prefix of `s` that ends at `j`.
proof fn lemma_trim_end_take(s: Seq<char>, j: int)
    requires
        0 < j <= s.len(),
        unicode_whitespace(s[j - 1]),
    ensures
        trim_end(s.take(j)) == trim_end(s.take(j - 1)),
{
    assert(s.take(j).drop_last() =~= s.take(j - 1));
}

/// `str::trim`.
pub fn trim_chars(v: &Vec<char>) -> (r: Vec<char>)
    ensures
        r@ == trim(v@),
{
    let mut i: usize = 0;
    assert(v@.skip(0) =~= v@);
    while i < v.len() && is_whitespace(v[i])
        invariant
            i <= v.len(),
            trim_start(v@) == trim_start(v@.skip(i as int)),
        decreases v.len() - i,
    {
        proof {
            lemma_trim_start_skip(v@, i as int);
        }
        i = i + 1;
    }
    let ghost rest = v@.skip(i as int);
    assert(trim_start(rest) == rest) by {
        if rest.len() > 0 {
            assert(rest[0] == v@[i as int]);
        }
    }
    let mut j: usize = v.len();
    assert(rest.take(rest.len() as int) =~= rest);
    while j > i && is_whitespace(v[j - 1])
        invariant
            i <= j <= v.len(),
            rest == v@.skip(i as int),
            trim_end(rest) == trim_end(rest.take(j - i)),
        decreases j,
    {
        proof {
            assert(rest[j - i - 1] == v@[j - 1]);
            lemma_trim_end_take(rest, j - i);
        }
        j = j - 1;
    }
    let ghost kept = rest.take(j - i);
    assert(trim_end(kept) == kept) by {
        if kept.len() > 0 {
            assert(kept.last() == v@[j - 1]);
        }
    }
    let mut r: Vec<char> = Vec::new();
    let mut k: usize = i;
    while k < j
        invariant
            i <= k <= j,
            j <= v.len(),
            r@ == v@.subrange(i as int, k as int),
        decreases j - k,
    {
        r.push(v[k]);
        assert(v@.subrange(i as int, k as int).push(v@[k as int]) =~= v@.subrange(
            i as int,
            k + 1,
        ));
        k = k + 1;
    }
    assert(kept =~= v@.subrange(i as int, j as int));
    r
}

/// `str::trim` on a string slice, as a new string.
pub fn trim_str(s: &str) -> (r: String)
    ensures
        r@ == trim(s@),
{
    let v = chars_of(s);
    let t = trim_chars(&v);
    string_of(&t)
}

/// Index of the first `c` in `s`, or `s.len()` when there is none.
pub open spec fn first_index_of(s: Seq<char>, c: char) -> int
    decreases s.len(),
{
    if s.len() == 0 {
        0
    } else if s[0] == c {
        0
    } else {
        1 + first_index_of(s.drop_first(), c)
    }
}

/// What precedes the first `c`: `s.split_once(c).map(|(head, _)| head)`,
/// or all of `s` when `c` does not occur.
pub open spec fn before_char(s: Seq<char>, c: char) -> Seq<char> {
    s.take(first_index_of(s, c))
}

pub proof fn lemma_first_index_bounds(s: Seq<char>, c: char)
    ensures
        0 <= first_index_of(s, c) <= s.len(),
        forall|k: int| 0 <= k < first_index_of(s, c) ==> s[k] != c,
        first_index_of(s, c) < s.len() ==> s[first_index_of(s, c)] == c,
    decreases s.len(),
{
    if s.len() > 0 && s[0] != c {
        lemma_first_index_bounds(s.drop_first(), c);
        assert forall|k: int| 0 <= k < first_index_of(s, c) implies s[k] != c by {
            if k > 0 {
                assert(s[k] == s.drop_first()[k - 1]);
            }
        }
    }
}

/// The unique index characterised by the bounds above.
pub proof fn lemma_first_index_unique(s: Seq<char>, c: char, i: int)
    requires
        0 <= i <= s.len(),
        forall|k: int| 0 <= k < i ==> s[k] != c,
        i < s.len() ==> s[i] == c,
    ensures
        first_index_of(s, c) == i,
{
    lemma_first_index_bounds(s, c);
    let f = first_index_of(s, c);
    if f < i {
        assert(s[f] == c);
    } else if i < f {
        assert(s[i] != c);
    }
}

/// Characters before the first `c`.
pub fn take_before(v: &Vec<char>, c: char) -> (r: Vec<char>)
    ensures
        r@ == before_char(v@, c),
{
    let mut r: Vec<char> = Vec::new();
    let mut i: usize = 0;
    while i < v.len() && v[i] != c
        invariant
            i <= v.len(),
            r@ == v@.take(i as int),
            forall|k: int| 0 <= k < i ==> v@[k] != c,
        decreases v.len() - i,
    {
        r.push(v[i]);
        assert(v@.take(i as int).push(v@[i as int]) =~= v@.take(i + 1));
        i = i + 1;
    }
    proof {
        lemma_first_index_unique(v@, c, i as int);
    }
    r
}

/// Index of the first occurrence of `pat` in `s` at or after `i`, when any.
pub open spec fn find_from(s: Seq<char>, pat: Seq<char>, i: int) -> Option<int>
    decreases s.len() + 1 - i,
{
    if i < 0 || i > s.len() {
        None
    } else if occurs_at(s, pat, i) {
        Some(i)
    } else {
        find_from(s, pat, i + 1)
    }
}

/// Index of the first occurrence of `pat` in `s` (`str::find`), when any.
pub open spec fn find_first(s: Seq<char>, pat: Seq<char>) -> Option<int> {
    find_from(s, pat, 0)
}

/// `str::find` with a string pattern.
pub fn find_index(s: &Vec<char>, pat: &Vec<char>) -> (r: Option<usize>)
    ensures
        r matches Some(i) ==> find_first(s@, pat@) == Some(i as int) && occurs_at(s@, pat@, i as int),
        r is None ==> find_first(s@, pat@) is None,
{
    let mut i: usize = 0;
    while i < s.len()
        invariant
            i <= s.len(),
            find_first(s@, pat@) == find_from(s@, pat@, i as int),
        decreases s.len() - i,
    {
        if matches_at(s, pat, i) {
            return Some(i);
        }
        i = i + 1;
    }
    if matches_at(s, pat, i) {
        return Some(i);
    }
    assert(find_from(s@, pat@, i + 1) is None);
    None
}

// ---------------------------------------------------------------------------
// Replacing
// ---------------------------------------------------------------------------

/// `str::replace(pat, rep)` for a non-empty pattern: occurrences are taken
/// from the left and do not overlap.
pub open spec fn replace_all(s: Seq<char>, pat: Seq<char>, rep: Seq<char>) -> Seq<char>
    decreases s.len(),
{
    if pat.len() == 0 || s.len() < pat.len() {
        s
    } else if s.take(pat.len() as int) == pat {
        rep + replace_all(s.skip(pat.len() as int), pat, rep)
    } else {
        seq![s[0]] + replace_all(s.drop_first(), pat, rep)
    }
}

/// Every non-overlapping occurrence of `pat` (from the left) replaced by `rep`.
pub fn replace(s: &Vec<char>, pat: &Vec<char>, rep: &Vec<char>) -> (r: Vec<char>)
    requires
        pat@.len() > 0,
    ensures
        r@ == replace_all(s@, pat@, rep@),
{
    let mut r: Vec<char> = Vec::new();
    let mut i: usize = 0;
    assert(s@.skip(0) =~= s@);
    assert(Seq::<char>::empty() + replace_all(s@, pat@, rep@) =~= replace_all(s@, pat@, rep@));
    while i < s.len()
        invariant
            i <= s.len(),
            pat@.len() > 0,
            replace_all(s@, pat@, rep@) == r@ + replace_all(s@.skip(i as int), pat@, rep@),
        decreases s.len() - i,
    {
        let ghost rest = s@.skip(i as int);
        if matches_at(s, pat, i) {
            assert(rest.take(pat@.len() as int) =~= s@.subrange(i as int, i + pat@.len()));
            assert(rest.skip(pat@.len() as int) =~= s@.skip(i + pat@.len()));
            let ghost r0 = r@;
            let mut k: usize = 0;
            while k < rep.len()
                invariant
                    k <= rep.len(),
                    r@ == r0 + rep@.take(k as int),
                decreases rep.len() - k,
            {
                r.push(rep[k]);
                assert(rep@.take(k as int).push(rep@[k as int]) =~= rep@.take(k + 1));
                assert((r0 + rep@.take(k as int)).push(rep@[k as int]) =~= r0 + rep@.take(k + 1));
                k = k + 1;
            }
            assert(rep@.take(rep@.len() as int) =~= rep@);
            assert(replace_all(rest, pat@, rep@) == rep@ + replace_all(s@.skip(i + pat@.len()), pat@, rep@));
            assert(r0 + (rep@ + replace_all(s@.skip(i + pat@.len()), pat@, rep@)) =~= (r0 + rep@) + replace_all(s@.skip(i + pat@.len()), pat@, rep@));
            i = i + pat.len();
        } else {
            proof {
                if rest.len() >= pat@.len() {
                    assert(rest.take(pat@.len() as int) =~= s@.subrange(
                        i as int,
                        i + pat@.len(),
                    ));
                }
            }
            assert(rest.drop_first() =~= s@.skip(i + 1));
            assert(rest[0] == s@[i as int]);
            assert(replace_all(rest, pat@, rep@) == seq![s@[i as int]] + replace_all(s@.skip(i + 1), pat@, rep@));
            assert(r@ + (seq![s@[i as int]] + replace_all(s@.skip(i + 1), pat@, rep@)) =~= r@.push(s@[i as int]) + replace_all(s@.skip(i + 1), pat@, rep@));
            r.push(s[i]);
            i = i + 1;
        }
    }
    assert(s@.skip(s@.len() as int) =~= Seq::<char>::empty());
    assert(r@ + Seq::<char>::empty() =~= r@);
    r
}

/// The characters of each string in a list.
pub open spec fn string_views(v: Seq<String>) -> Seq<Seq<char>> {
    v.map_values(|s: String| s@)
}

/// Whether some string of the list equals `s`.
pub fn contains_string(v: &Vec<String>, s: &str) -> (r: bool)
    ensures
        r == string_views(v@).contains(s@),
{
    let mut i: usize = 0;
    while i < v.len()
        invariant
            i <= v@.len(),
            forall|j: int| 0 <= j < i ==> v@[j]@ != s@,
        decreases v@.len() - i,
    {
        if str_eq(v[i].as_str(), s) {
            assert(string_views(v@)[i as int] == s@);
            return true;
        }
        i = i + 1;
    }
    assert forall|j: int| 0 <= j < string_views(v@).len() implies #[trigger] string_views(v@)[j] != s@ by {
        assert(string_views(v@)[j] == v@[j]@);
    }
    false
}

} // verus!
