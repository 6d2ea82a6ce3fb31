//! Settings vocabulary and the naming rules of durable state files: theme
//! and font choices, how a load result becomes a config, the receipt of a
//! confirmed background write, and the temp-file names that atomic writes
//! use and the boot-time sweep recognises.

use vstd::prelude::*;
use std::sync::mpsc::{Receiver, RecvTimeoutError};
use std::time::Duration;
use crate::text::{before_char, concat, occurs_at, starts_with, string_of, take_before, chars_of, matches_at, seq_eq};

verus! {

broadcast use vstd::string::group_string_axioms;

/// Light, dark, or whatever the desktop prefers.
#[derive(Clone, Copy, Debug, PartialEq, Eq, Structural)]
pub enum ThemePref {
    System,
    Light,
    Dark,
}

impl Default for ThemePref {
    fn default() -> (r: ThemePref)
        ensures
            r == ThemePref::System,
    {
        ThemePref::System
    }
}

/// The CSS font stack of a stored UI-font key; unknown or absent keys get the
/// bundled Geist.
pub open spec fn ui_font_stack_spec(key: Option<Seq<char>>) -> Seq<char> {
    if key == Some("inter"@) {
        "\"Inter\", system-ui, sans-serif"@
    } else if key == Some("adwaita"@) {
        "\"Adwaita Sans\", \"Inter\", system-ui, sans-serif"@
    } else if key == Some("noto"@) {
        "\"Noto Sans\", system-ui, sans-serif"@
    } else if key == Some("system"@) {
        "system-ui, sans-serif"@
    } else {
        "\"Geist\", \"Inter\", system-ui, -apple-system, \"Segoe UI\", sans-serif"@
    }
}

/// The view of an optional string slice.
pub open spec fn opt_str_view(key: Option<&str>) -> Option<Seq<char>> {
    match key {
        Some(k) => Some(k@),
        None => None,
    }
}

/// Map a stored UI-font key to its CSS font-family stack.
pub fn ui_font_stack(key: Option<&str>) -> (r: &'static str)
    ensures
        r@ == ui_font_stack_spec(opt_str_view(key)),
{
    let k = match key {
        Some(k) => k,
        None => {
            return "\"Geist\", \"Inter\", system-ui, -apple-system, \"Segoe UI\", sans-serif";
        },
    };
    if crate::text::str_eq(k, "inter") {
        "\"Inter\", system-ui, sans-serif"
    } else if crate::text::str_eq(k, "adwaita") {
        "\"Adwaita Sans\", \"Inter\", system-ui, sans-serif"
    } else if crate::text::str_eq(k, "noto") {
        "\"Noto Sans\", system-ui, sans-serif"
    } else if crate::text::str_eq(k, "system") {
        "system-ui, sans-serif"
    } else {
        proof {
            reveal_strlit("inter");
            reveal_strlit("adwaita");
            reveal_strlit("noto");
            reveal_strlit("system");
        }
        "\"Geist\", \"Inter\", system-ui, -apple-system, \"Segoe UI\", sans-serif"
    }
}

/// The default of settings that are on unless switched off.
pub fn default_true() -> (r: bool)
    ensures
        r,
{
    true
}

/// What reading a durable JSON file gave.
#[derive(Debug)]
pub enum JsonLoad<T> {
    /// No file yet.
    Missing,
    /// The file parsed.
    Loaded(T),
    /// The file was malformed and was moved aside to `backup`.
    Quarantined { backup: String, reason: String },
    /// The file could not be read or preserved: persistence must stay off.
    Blocked { reason: String },
}

/// The value a load gives and whether persistence must stay off: a loaded
/// value as is; the default for a missing or quarantined file; the default,
/// with persistence blocked, when the file could not be read or preserved.
pub fn resolve_load<T>(load: JsonLoad<T>, default: T) -> (r: (T, bool))
    ensures
        match load {
            JsonLoad::Loaded(v) => r.0 == v && !r.1,
            JsonLoad::Missing => r.0 == default && !r.1,
            JsonLoad::Quarantined { .. } => r.0 == default && !r.1,
            JsonLoad::Blocked { .. } => r.0 == default && r.1,
        },
{
    match load {
        JsonLoad::Loaded(v) => (v, false),
        JsonLoad::Missing => (default, false),
        JsonLoad::Quarantined { .. } => (default, false),
        JsonLoad::Blocked { .. } => (default, true),
    }
}

/// Whether settings may be saved: not when the settings file that exists
/// could not be read, since saving would replace what is there.
pub fn save_allowed(persistence_blocked: bool) -> (r: Result<(), String>)
    ensures
        persistence_blocked <==> r is Err,
        r matches Err(e) ==> e@ == "config persistence is disabled because the existing file is unreadable"@,
{
    if persistence_blocked {
        proof {
            reveal_strlit("config persistence is disabled because the existing file is unreadable");
        }
        Err(String::from_str("config persistence is disabled because the existing file is unreadable"))
    } else {
        Ok(())
    }
}

#[verifier::external_type_specification]
#[verifier::external_body]
#[verifier::reject_recursive_types(T)]
pub struct ExReceiver<T>(Receiver<T>);

/// How waiting for a confirmed write ended.
#[derive(Debug)]
pub enum ConfirmOutcome {
    /// The writer answered with the disk result.
    Answered(Result<(), String>),
    /// No answer within the timeout.
    TimedOut,
    /// The writer is gone.
    Disconnected,
}

/// Wait up to `timeout_ns` on the receiving end of a confirmation channel
/// (`Receiver::recv_timeout`). What comes back depends on timing and on the
/// writer thread, so nothing is promised about it.
#[verifier::external_body]
fn recv_confirmation(rx: &Receiver<Result<(), String>>, timeout_ns: u64) -> (r: ConfirmOutcome) {
    match rx.recv_timeout(Duration::from_nanos(timeout_ns)) {
        Ok(result) => ConfirmOutcome::Answered(result),
        Err(RecvTimeoutError::Timeout) => ConfirmOutcome::TimedOut,
        Err(RecvTimeoutError::Disconnected) => ConfirmOutcome::Disconnected,
    }
}

/// The result a caller sees for a confirmation outcome.
pub open spec fn receipt_result_spec(o: ConfirmOutcome) -> Result<(), Seq<char>> {
    match o {
        ConfirmOutcome::Answered(Ok(())) => Ok(()),
        ConfirmOutcome::Answered(Err(e)) => Err(e@),
        ConfirmOutcome::TimedOut => Err("save confirmation timed out"@),
        ConfirmOutcome::Disconnected => Err("persistence writer thread gone"@),
    }
}

/// The view of a result with a string error.
pub open spec fn result_view(r: Result<(), String>) -> Result<(), Seq<char>> {
    match r {
        Ok(()) => Ok(()),
        Err(e) => Err(e@),
    }
}

/// The disk result the writer sent, or why there is none.
pub fn receipt_result(o: ConfirmOutcome) -> (r: Result<(), String>)
    ensures
        result_view(r) == receipt_result_spec(o),
{
    match o {
        ConfirmOutcome::Answered(Ok(())) => Ok(()),
        ConfirmOutcome::Answered(Err(e)) => Err(e),
        ConfirmOutcome::TimedOut => Err("save confirmation timed out".to_string()),
        ConfirmOutcome::Disconnected => Err("persistence writer thread gone".to_string()),
    }
}

/// Completion handle for a write already ordered in the persistence queue.
pub struct PersistReceipt(pub Receiver<Result<(), String>>);

impl PersistReceipt {
    /// Wait up to `timeout_ns` for the write to reach disk: its own result,
    /// or an error saying the wait timed out or the writer is gone.
    pub fn wait(self, timeout_ns: u64) -> (r: Result<(), String>)
        ensures
            exists|o: ConfirmOutcome| result_view(r) == #[trigger] receipt_result_spec(o),
    {
        let o = recv_confirmation(&self.0, timeout_ns);
        let ghost og = o;
        let r = receipt_result(o);
        assert(result_view(r) == receipt_result_spec(og));
        r
    }
}

/// The decimal digit character of `d < 10`.
pub open spec fn digit_char(d: nat) -> char {
    ((48 + d) as u32) as char
}

/// The decimal representation of `n`, without leading zeros.
pub open spec fn decimal(n: nat) -> Seq<char>
    decreases n,
{
    if n < 10 {
        seq![digit_char(n)]
    } else {
        decimal(n / 10).push(digit_char(n % 10))
    }
}

fn decimal_chars(n: u64) -> (v: Vec<char>)
    ensures
        v@ == decimal(n as nat),
    decreases n,
{
    let d: u8 = (48 + n % 10) as u8;
    if n < 10 {
        let mut v = Vec::new();
        v.push(d as char);
        v
    } else {
        let mut v = decimal_chars(n / 10);
        v.push(d as char);
        v
    }
}

/// `n` written in decimal (`u64::to_string`).
pub fn to_decimal(n: u64) -> (r: String)
    ensures
        r@ == decimal(n as nat),
{
    let v = decimal_chars(n);
    string_of(&v)
}

/// Decimal representations contain only digits.
pub proof fn lemma_decimal_digits(n: nat)
    ensures
        decimal(n).len() >= 1,
        forall|i: int| 0 <= i < decimal(n).len() ==> '0' <= #[trigger] decimal(n)[i] <= '9',
    decreases n,
{
    if n >= 10 {
        lemma_decimal_digits(n / 10);
        let p = decimal(n / 10);
        assert forall|i: int| 0 <= i < decimal(n).len() implies '0' <= #[trigger] decimal(n)[i] <= '9' by {
            if i < p.len() {
                assert(decimal(n)[i] == p[i]);
            }
        }
    }
}

proof fn lemma_digit_char_injective(a: nat, b: nat)
    requires
        a < 10,
        b < 10,
        digit_char(a) == digit_char(b),
    ensures
        a == b,
{
    assert(digit_char(a) as u32 == 48 + a);
    assert(digit_char(b) as u32 == 48 + b);
}

/// Different numbers are written differently.
pub proof fn lemma_decimal_injective(a: nat, b: nat)
    requires
        decimal(a) == decimal(b),
    ensures
        a == b,
    decreases a,
{
    lemma_decimal_digits(a / 10);
    lemma_decimal_digits(b / 10);
    if a < 10 && b < 10 {
        assert(decimal(a)[0] == digit_char(a));
        assert(decimal(b)[0] == digit_char(b));
        lemma_digit_char_injective(a, b);
    } else if a < 10 && b >= 10 {
        assert(decimal(b).len() >= 2);
    } else if a >= 10 && b < 10 {
        assert(decimal(a).len() >= 2);
    } else if a >= 10 && b >= 10 {
        assert(decimal(a).last() == digit_char(a % 10));
        assert(decimal(b).last() == digit_char(b % 10));
        lemma_digit_char_injective(a % 10, b % 10);
        assert(decimal(a).drop_last() =~= decimal(a / 10));
        assert(decimal(b).drop_last() =~= decimal(b / 10));
        lemma_decimal_injective(a / 10, b / 10);
    }
}

/// The temp file an atomic write of `file_name` goes through:
/// `.<name>.tmp-<pid>-<n>`.
pub open spec fn temp_name_spec(file_name: Seq<char>, pid: u32, n: u64) -> Seq<char> {
    "."@ + file_name + ".tmp-"@ + decimal(pid as nat) + "-"@ + decimal(n as nat)
}

/// The sibling a malformed file is preserved as:
/// `.<name>.corrupt-<secs>-<pid>-<n>`.
pub open spec fn corrupt_name_spec(file_name: Seq<char>, secs: u64, pid: u32, n: u64) -> Seq<char> {
    "."@ + file_name + ".corrupt-"@ + decimal(secs as nat) + "-"@ + decimal(pid as nat) + "-"@
        + decimal(n as nat)
}

/// The name of the temp file for an atomic write.
pub fn temp_file_name(file_name: &str, pid: u32, n: u64) -> (r: String)
    ensures
        r@ == temp_name_spec(file_name@, pid, n),
{
    let a = concat(".", file_name);
    let b = concat(a.as_str(), ".tmp-");
    let p = to_decimal(pid as u64);
    let c = concat(b.as_str(), p.as_str());
    let d = concat(c.as_str(), "-");
    let k = to_decimal(n);
    concat(d.as_str(), k.as_str())
}

/// The name a malformed file is preserved under.
pub fn corrupt_backup_name(file_name: &str, secs: u64, pid: u32, n: u64) -> (r: String)
    ensures
        r@ == corrupt_name_spec(file_name@, secs, pid, n),
{
    let a = concat(".", file_name);
    let b = concat(a.as_str(), ".corrupt-");
    let s = to_decimal(secs);
    let c = concat(b.as_str(), s.as_str());
    let d = concat(c.as_str(), "-");
    let p = to_decimal(pid as u64);
    let e = concat(d.as_str(), p.as_str());
    let f = concat(e.as_str(), "-");
    let k = to_decimal(n);
    concat(f.as_str(), k.as_str())
}

/// The last index at or before `i` where `pat` occurs in `s`, when any.
pub open spec fn find_last_from(s: Seq<char>, pat: Seq<char>, i: int) -> Option<int>
    decreases i + 1,
{
    if i < 0 {
        None
    } else if occurs_at(s, pat, i) {
        Some(i)
    } else {
        find_last_from(s, pat, i - 1)
    }
}

/// The last occurrence of `pat` in `s` (`str::rsplit_once`), when any.
pub open spec fn find_last(s: Seq<char>, pat: Seq<char>) -> Option<int> {
    find_last_from(s, pat, s.len() as int)
}

/// The last index where `pat` occurs in `s`.
pub fn find_last_index(s: &Vec<char>, pat: &Vec<char>) -> (r: Option<usize>)
    ensures
        r matches Some(k) ==> find_last(s@, pat@) == Some(k as int) && occurs_at(s@, pat@, k as int),
        r is None ==> find_last(s@, pat@) is None,
{
    let mut i: usize = s.len();
    while i > 0
        invariant
            i <= s@.len(),
            find_last(s@, pat@) == find_last_from(s@, pat@, i as int),
        decreases i,
    {
        if matches_at(s, pat, i) {
            return Some(i);
        }
        i = i - 1;
    }
    if matches_at(s, pat, 0) {
        return Some(0);
    }
    assert(find_last_from(s@, pat@, -1) is None);
    None
}

/// A leftover temp file of another process: a dot-name with a `.tmp-` part
/// whose writer pid (what follows the last `.tmp-`, up to the next `-`) is
/// not ours.
pub open spec fn is_stale_tmp_spec(name: Seq<char>, own_pid: u32) -> bool {
    starts_with(name, "."@) && match find_last(name.drop_first(), ".tmp-"@) {
        Some(i) => before_char(name.drop_first().skip(i + 5), '-') != decimal(own_pid as nat),
        None => false,
    }
}

/// Whether a directory entry is a temp file a crashed or killed instance
/// left behind (ours, still in flight, are kept).
pub fn is_stale_tmp(name: &str, own_pid: u32) -> (r: bool)
    ensures
        r == is_stale_tmp_spec(name@, own_pid),
{
    let v = chars_of(name);
    if v.len() == 0 || v[0] != '.' {
        proof {
            reveal_strlit(".");
            if v@.len() > 0 {
                assert(name@.take(1)[0] == v@[0]);
            }
        }
        return false;
    }
    proof {
        reveal_strlit(".");
        assert(name@.take(1) =~= seq!['.']);
        assert("."@ =~= seq!['.']);
        assert(starts_with(name@, "."@));
    }
    let mut rest: Vec<char> = Vec::new();
    let mut j: usize = 1;
    while j < v.len()
        invariant
            1 <= j <= v.len(),
            v@ == name@,
            rest@ == v@.subrange(1, j as int),
        decreases v.len() - j,
    {
        rest.push(v[j]);
        assert(v@.subrange(1, j + 1) =~= v@.subrange(1, j as int).push(v@[j as int]));
        j = j + 1;
    }
    assert(rest@ =~= name@.drop_first());
    let pat = chars_of(".tmp-");
    proof {
        reveal_strlit(".tmp-");
    }
    let found = find_last_index(&rest, &pat);
    match found {
        None => {
            assert(find_last(name@.drop_first(), ".tmp-"@) is None);
            assert(!is_stale_tmp_spec(name@, own_pid));
            false
        },
        Some(k) => {
            let mut after: Vec<char> = Vec::new();
            let mut m: usize = k + 5;
            assert(k + 5 <= rest@.len());
            while m < rest.len()
                invariant
                    k + 5 <= m <= rest@.len(),
                    after@ == rest@.subrange(k + 5, m as int),
                decreases rest.len() - m,
            {
                after.push(rest[m]);
                assert(rest@.subrange(k + 5, m + 1) =~= rest@.subrange(k + 5, m as int).push(rest@[m as int]));
                m = m + 1;
            }
            assert(after@ =~= rest@.skip(k + 5));
            let pid = take_before(&after, '-');
            let own = decimal_chars(own_pid as u64);
            !seq_eq(&pid, &own)
        },
    }
}

proof fn lemma_find_last_is(s: Seq<char>, pat: Seq<char>, k: int, i: int)
    requires
        0 <= k <= i,
        occurs_at(s, pat, k),
        forall|j: int| k < j <= i ==> !#[trigger] occurs_at(s, pat, j),
    ensures
        find_last_from(s, pat, i) == Some(k),
    decreases i - k,
{
    if i > k {
        lemma_find_last_is(s, pat, k, i - 1);
    }
}

proof fn lemma_last_tmp_marker(f: Seq<char>, d: Seq<char>)
    requires
        forall|k: int| 0 <= k < d.len() ==> d[k] != '.',
    ensures
        find_last(f + ".tmp-"@ + d, ".tmp-"@) == Some(f.len() as int),
{
    reveal_strlit(".tmp-");
    let body = f + ".tmp-"@ + d;
    let n = f.len() as int;
    assert(body.subrange(n, n + 5) =~= ".tmp-"@);
    assert forall|j: int| n < j <= body.len() implies !#[trigger] occurs_at(body, ".tmp-"@, j) by {
        if occurs_at(body, ".tmp-"@, j) {
            assert(body.subrange(j, j + 5)[0] == body[j]);
            if j < n + 5 {
                assert(body[j] == ".tmp-"@[j - n]);
            } else {
                assert(body[j] == d[j - n - 5]);
            }
        }
    }
    lemma_find_last_is(body, ".tmp-"@, n, body.len() as int);
}

proof fn lemma_pid_segment(dp: Seq<char>, dn: Seq<char>)
    requires
        forall|k: int| 0 <= k < dp.len() ==> dp[k] != '-',
    ensures
        before_char(dp + "-"@ + dn, '-') == dp,
{
    reveal_strlit("-");
    let d = dp + "-"@ + dn;
    assert forall|k: int| 0 <= k < dp.len() implies d[k] != '-' by {
        assert(d[k] == dp[k]);
    }
    assert(d[dp.len() as int] == '-');
    crate::text::lemma_first_index_unique(d, '-', dp.len() as int);
    assert(d.take(dp.len() as int) =~= dp);
}

/// A temp file written by this process is kept by the sweep; one written by
/// any other process is swept, whatever the file's own name.
pub proof fn law_sweep_keeps_own_temp_files(file_name: Seq<char>, pid: u32, n: u64, own_pid: u32)
    ensures
        is_stale_tmp_spec(temp_name_spec(file_name, pid, n), own_pid) <==> pid != own_pid,
{
    reveal_strlit(".");
    reveal_strlit("-");
    reveal_strlit(".tmp-");
    let dp = decimal(pid as nat);
    let dn = decimal(n as nat);
    lemma_decimal_digits(pid as nat);
    lemma_decimal_digits(n as nat);
    let d = dp + "-"@ + dn;
    assert forall|k: int| 0 <= k < d.len() implies d[k] != '.' by {
        if k < dp.len() {
            assert(d[k] == dp[k]);
        } else if k > dp.len() {
            assert(d[k] == dn[k - dp.len() - 1]);
        }
    }
    assert forall|k: int| 0 <= k < dp.len() implies dp[k] != '-' by {}
    let body = file_name + ".tmp-"@ + d;
    let name = temp_name_spec(file_name, pid, n);
    assert(name =~= "."@ + body);
    assert(name.take(1) =~= "."@);
    assert(name.drop_first() =~= body);
    lemma_last_tmp_marker(file_name, d);
    assert(body.skip(file_name.len() as int + 5) =~= d);
    lemma_pid_segment(dp, dn);
    if dp == decimal(own_pid as nat) {
        lemma_decimal_injective(pid as nat, own_pid as nat);
    }
}

} // verus!
