use vstd::prelude::*;

use crate::text::{
    chars_of, contains, ends_with, is_ascii_digit_char, is_digit, lower_seq, owned, seq_contains,
    seq_ends_with, str_eq, to_ascii_lowercase, trim, trim_seq,
};

verus! {

/// One downloadable file of a release.
#[derive(Debug, Clone, PartialEq, Eq)]
pub struct GithubReleaseAsset {
    pub name: String,
    pub browser_download_url: String,
}

/// The parts of a release that the update check reads.
#[derive(Debug, Clone, PartialEq, Eq)]
pub struct GithubRelease {
    pub tag_name: String,
    pub html_url: String,
    pub published_at: Option<String>,
    pub body: Option<String>,
    pub assets: Vec<GithubReleaseAsset>,
}

/// What the settings screen shows about the newest release.
#[derive(Debug, Clone, PartialEq, Eq)]
pub struct AppUpdateInfo {
    pub current_version: String,
    pub latest_version: Option<String>,
    pub update_available: bool,
    pub release_url: String,
    pub download_url: Option<String>,
    pub asset_name: Option<String>,
    pub published_at: Option<String>,
    pub body: Option<String>,
    pub error: Option<String>,
}

pub open spec fn is_windows(os: Seq<char>) -> bool {
    os == "windows"@
}

pub open spec fn is_macos(os: Seq<char>) -> bool {
    os == "macos"@
}

/// Whether the platform name is Windows.
pub fn os_is_windows(os: &str) -> (r: bool)
    ensures
        r == is_windows(os@),
{
    str_eq(os, "windows")
}

/// Whether the platform name is macOS.
pub fn os_is_macos(os: &str) -> (r: bool)
    ensures
        r == is_macos(os@),
{
    str_eq(os, "macos")
}

// ---------------------------------------------------------------------------
// Version numbers
// ---------------------------------------------------------------------------

/// `s` without any leading `v` or `V`.
pub open spec fn strip_v(s: Seq<char>) -> Seq<char>
    decreases s.len(),
{
    if s.len() > 0 && (s[0] == 'v' || s[0] == 'V') {
        strip_v(s.drop_first())
    } else {
        s
    }
}

pub open spec fn is_release_sep(c: char) -> bool {
    c == '-' || c == '+'
}

/// The part of `s` before its first `-` or `+`.
pub open spec fn release_head(s: Seq<char>) -> Seq<char>
    decreases s.len(),
{
    if s.len() == 0 || is_release_sep(s[0]) {
        Seq::empty()
    } else {
        seq![s[0]] + release_head(s.drop_first())
    }
}

/// The maximal runs of ASCII digits in `s`, in order.
pub open spec fn digit_runs(s: Seq<char>) -> Seq<Seq<char>>
    decreases s.len(),
{
    if s.len() == 0 {
        Seq::empty()
    } else {
        let r = digit_runs(s.drop_last());
        let c = s.last();
        if !is_digit(c) {
            r
        } else if s.len() >= 2 && is_digit(s[s.len() - 2]) {
            r.update(r.len() - 1, r.last().push(c))
        } else {
            r.push(seq![c])
        }
    }
}

/// The number that a run of decimal digits denotes.
pub open spec fn run_value(run: Seq<char>) -> nat
    decreases run.len(),
{
    if run.len() == 0 {
        0
    } else {
        run_value(run.drop_last()) * 10 + ((run.last() as nat) - 48) as nat
    }
}

/// The values of the runs that fit in a `u64`; the others are dropped.
pub open spec fn parsed_runs(runs: Seq<Seq<char>>) -> Seq<u64>
    decreases runs.len(),
{
    if runs.len() == 0 {
        Seq::empty()
    } else {
        let rest = parsed_runs(runs.drop_last());
        if run_value(runs.last()) <= u64::MAX {
            rest.push(run_value(runs.last()) as u64)
        } else {
            rest
        }
    }
}

/// The numeric parts of a version string: after trimming and dropping a
/// leading `v`, the digit runs before any `-` or `+`.
pub open spec fn version_parts_seq(s: Seq<char>) -> Seq<u64> {
    parsed_runs(digit_runs(release_head(strip_v(trim_seq(s)))))
}

proof fn lemma_strip_v(s: Seq<char>, i: int)
    requires
        0 <= i <= s.len(),
        forall|j: int| 0 <= j < i ==> (s[j] == 'v' || s[j] == 'V'),
        i == s.len() || !(s[i] == 'v' || s[i] == 'V'),
    ensures
        strip_v(s) == s.subrange(i, s.len() as int),
    decreases i,
{
    if i > 0 {
        lemma_strip_v(s.drop_first(), i - 1);
        assert(s.drop_first().subrange(i - 1, s.drop_first().len() as int) =~= s.subrange(
            i,
            s.len() as int,
        ));
    } else {
        assert(s.subrange(0, s.len() as int) =~= s);
    }
}

proof fn lemma_release_head(s: Seq<char>, e: int)
    requires
        0 <= e <= s.len(),
        forall|j: int| 0 <= j < e ==> !is_release_sep(s[j]),
        e == s.len() || is_release_sep(s[e]),
    ensures
        release_head(s) == s.subrange(0, e),
    decreases e,
{
    if e > 0 {
        lemma_release_head(s.drop_first(), e - 1);
        assert(seq![s[0]] + s.drop_first().subrange(0, e - 1) =~= s.subrange(0, e));
    } else {
        assert(s.subrange(0, 0) =~= Seq::<char>::empty());
    }
}

proof fn lemma_run_value_grows(run: Seq<char>, c: char)
    requires
        is_digit(c),
    ensures
        run_value(run.push(c)) == run_value(run) * 10 + ((c as nat) - 48) as nat,
        run_value(run.push(c)) >= run_value(run),
{
    assert(run.push(c).drop_last() =~= run);
}

/// The numeric parts of a version string, such as `[1, 10, 0]` for `v1.10.0`.
pub fn version_parts(value: &str) -> (r: Vec<u64>)
    ensures
        r@ == version_parts_seq(value@),
{
    let t = trim(value);
    let v = chars_of(t.as_str());
    let n = v.len();
    let mut s: usize = 0;
    while s < n && (v[s] == 'v' || v[s] == 'V')
        invariant
            n == v@.len(),
            s <= n,
            forall|j: int| 0 <= j < s ==> (v@[j] == 'v' || v@[j] == 'V'),
        decreases n - s,
    {
        s += 1;
    }
    proof {
        lemma_strip_v(v@, s as int);
    }
    let ghost stripped = v@.subrange(s as int, n as int);
    let mut e: usize = s;
    while e < n && v[e] != '-' && v[e] != '+'
        invariant
            n == v@.len(),
            s <= e <= n,
            stripped == v@.subrange(s as int, n as int),
            forall|j: int| s <= j < e ==> !is_release_sep(v@[j]),
        decreases n - e,
    {
        e += 1;
    }
    let ghost head = v@.subrange(s as int, e as int);
    proof {
        lemma_release_head(stripped, (e - s) as int);
        assert(stripped.subrange(0, (e - s) as int) =~= head);
    }
    let mut out: Vec<u64> = Vec::new();
    let mut in_run = false;
    let mut cur: u64 = 0;
    let mut overflow = false;
    let mut k: usize = s;
    while k < e
        invariant
            n == v@.len(),
            s <= k <= e <= n,
            head == v@.subrange(s as int, e as int),
            in_run == (k > s && is_digit(v@[k - 1])),
            in_run ==> {
                let runs = digit_runs(head.subrange(0, k - s));
                &&& runs.len() > 0
                &&& out@ == parsed_runs(runs.drop_last())
                &&& (overflow ==> run_value(runs.last()) > u64::MAX)
                &&& (!overflow ==> cur == run_value(runs.last()))
            },
            !in_run ==> out@ == parsed_runs(digit_runs(head.subrange(0, k - s))),
        decreases e - k,
    {
        let c = v[k];
        let ghost pre = head.subrange(0, k - s);
        let ghost next = head.subrange(0, k + 1 - s);
        proof {
            assert(next.drop_last() =~= pre);
            assert(next.last() == c);
            if k > s {
                assert(next[next.len() - 2] == v@[k - 1]);
            }
        }
        if is_ascii_digit_char(c) {
            let d: u64 = (c as u32 - 48) as u64;
            assert(d as nat == ((c as nat) - 48) as nat);
            if in_run {
                proof {
                    let runs = digit_runs(pre);
                    let runs2 = digit_runs(next);
                    assert(runs2 == runs.update(runs.len() - 1, runs.last().push(c)));
                    assert(runs2.drop_last() =~= runs.drop_last());
                    lemma_run_value_grows(runs.last(), c);
                }
                if !overflow {
                    if cur > 1844674407370955161 || (cur == 1844674407370955161 && d > 5) {
                        overflow = true;
                    } else {
                        cur = cur * 10 + d;
                    }
                }
                proof {
                    let runs2 = digit_runs(next);
                    assert(runs2.len() > 0);
                    assert(out@ == parsed_runs(runs2.drop_last()));
                    assert(overflow ==> run_value(runs2.last()) > u64::MAX);
                    assert(!overflow ==> cur == run_value(runs2.last()));
                }
            } else {
                proof {
                    let runs = digit_runs(pre);
                    let runs2 = digit_runs(next);
                    assert(runs2 == runs.push(seq![c]));
                    assert(runs2.drop_last() =~= runs);
                    assert(seq![c].drop_last() =~= Seq::<char>::empty());
                    assert(run_value(Seq::<char>::empty()) == 0);
                    assert(run_value(seq![c]) == d);
                }
                in_run = true;
                overflow = false;
                cur = d;
            }
        } else {
            proof {
                assert(digit_runs(next) == digit_runs(pre));
            }
            if in_run {
                proof {
                    let runs = digit_runs(pre);
                    assert(runs.drop_last().push(runs.last()) =~= runs);
                }
                if !overflow {
                    out.push(cur);
                }
                in_run = false;
            }
        }
        k += 1;
    }
    proof {
        assert(head.subrange(0, e - s) =~= head);
    }
    if in_run {
        proof {
            let runs = digit_runs(head);
            assert(runs.drop_last().push(runs.last()) =~= runs);
        }
        if !overflow {
            out.push(cur);
        }
    }
    out
}

/// The `i`-th part of a version, or 0 past its end.
pub open spec fn part_or_zero(a: Seq<u64>, i: int) -> nat {
    if 0 <= i < a.len() {
        a[i] as nat
    } else {
        0
    }
}

/// Whether `a` is greater than `b` comparing parts `i..n` in order, with
/// missing parts read as 0.
pub open spec fn parts_newer_upto(a: Seq<u64>, b: Seq<u64>, i: int, n: int) -> bool
    decreases n - i,
{
    if i >= n {
        false
    } else if part_or_zero(a, i) != part_or_zero(b, i) {
        part_or_zero(a, i) > part_or_zero(b, i)
    } else {
        parts_newer_upto(a, b, i + 1, n)
    }
}

pub open spec fn max_len(a: Seq<u64>, b: Seq<u64>) -> int {
    if a.len() >= b.len() {
        a.len() as int
    } else {
        b.len() as int
    }
}

/// Whether the parts `a` denote a newer version than the parts `b`.
pub open spec fn parts_newer(a: Seq<u64>, b: Seq<u64>) -> bool {
    parts_newer_upto(a, b, 0, max_len(a, b))
}

/// Whether version string `candidate` is newer than version string `current`.
pub open spec fn version_newer(candidate: Seq<char>, current: Seq<char>) -> bool {
    parts_newer(version_parts_seq(candidate), version_parts_seq(current))
}

/// Whether release `candidate` is newer than `current`, comparing their numeric
/// parts one by one.
pub fn version_is_newer(candidate: &str, current: &str) -> (r: bool)
    ensures
        r == version_newer(candidate@, current@),
{
    let a = version_parts(candidate);
    let b = version_parts(current);
    let m = if a.len() >= b.len() {
        a.len()
    } else {
        b.len()
    };
    let mut i: usize = 0;
    while i < m
        invariant
            m == max_len(a@, b@),
            a@ == version_parts_seq(candidate@),
            b@ == version_parts_seq(current@),
            i <= m,
            parts_newer(a@, b@) == parts_newer_upto(a@, b@, i as int, m as int),
        decreases m - i,
    {
        let x: u64 = if i < a.len() {
            a[i]
        } else {
            0
        };
        let y: u64 = if i < b.len() {
            b[i]
        } else {
            0
        };
        assert(x as nat == part_or_zero(a@, i as int));
        assert(y as nat == part_or_zero(b@, i as int));
        if x != y {
            assert(parts_newer_upto(a@, b@, i as int, m as int) == (part_or_zero(a@, i as int)
                > part_or_zero(b@, i as int)));
            return x > y;
        }
        i += 1;
    }
    false
}

proof fn lemma_newer_tail_false(a: Seq<u64>, b: Seq<u64>, i: int, n: int)
    requires
        i >= a.len(),
        i >= b.len(),
    ensures
        !parts_newer_upto(a, b, i, n),
    decreases n - i,
{
    if i < n {
        lemma_newer_tail_false(a, b, i + 1, n);
    }
}

/// Comparing past the longer of the two part lists changes nothing.
proof fn lemma_newer_extend(a: Seq<u64>, b: Seq<u64>, i: int, n: int)
    requires
        n >= max_len(a, b),
        0 <= i,
    ensures
        parts_newer_upto(a, b, i, n) == parts_newer_upto(a, b, i, max_len(a, b)),
    decreases n - i,
{
    if i < max_len(a, b) {
        lemma_newer_extend(a, b, i + 1, n);
    } else {
        lemma_newer_tail_false(a, b, i, n);
        lemma_newer_tail_false(a, b, i, max_len(a, b));
    }
}

proof fn lemma_newer_irreflexive_from(a: Seq<u64>, i: int, n: int)
    ensures
        !parts_newer_upto(a, a, i, n),
    decreases n - i,
{
    if i < n {
        lemma_newer_irreflexive_from(a, i + 1, n);
    }
}

proof fn lemma_newer_asymmetric_from(a: Seq<u64>, b: Seq<u64>, i: int, n: int)
    ensures
        parts_newer_upto(a, b, i, n) ==> !parts_newer_upto(b, a, i, n),
    decreases n - i,
{
    if i < n {
        lemma_newer_asymmetric_from(a, b, i + 1, n);
    }
}

proof fn lemma_newer_transitive_from(a: Seq<u64>, b: Seq<u64>, c: Seq<u64>, i: int, n: int)
    ensures
        parts_newer_upto(a, b, i, n) && parts_newer_upto(b, c, i, n) ==> parts_newer_upto(
            a,
            c,
            i,
            n,
        ),
    decreases n - i,
{
    if i < n {
        lemma_newer_transitive_from(a, b, c, i + 1, n);
    }
}

/// Parts that agree do not decide: comparing from `k` is comparing from `i`
/// when every part in between is the same.
proof fn lemma_newer_skip_equal(a: Seq<u64>, b: Seq<u64>, k: int, i: int, n: int)
    requires
        0 <= k <= i <= n,
        forall|j: int| k <= j < i ==> part_or_zero(a, j) == part_or_zero(b, j),
    ensures
        parts_newer_upto(a, b, k, n) == parts_newer_upto(a, b, i, n),
    decreases i - k,
{
    if k < i {
        lemma_newer_skip_equal(a, b, k + 1, i, n);
    }
}

/// The first part in which two versions differ decides which is newer, at
/// whatever position it stands: with equal parts before index `i` and
/// different parts at `i`, `a` is newer than `b` exactly when its part at
/// `i` is the greater.
pub proof fn law_first_differing_part_decides(a: Seq<u64>, b: Seq<u64>, i: int)
    requires
        0 <= i < a.len(),
        i < b.len(),
        forall|j: int| 0 <= j < i ==> a[j] == b[j],
        a[i] != b[i],
    ensures
        parts_newer(a, b) == (a[i] > b[i]),
        parts_newer(b, a) == (b[i] > a[i]),
{
    lemma_newer_skip_equal(a, b, 0, i, max_len(a, b));
    lemma_newer_skip_equal(b, a, 0, i, max_len(b, a));
}

/// A version followed by further parts, the first non-zero one positive, is
/// newer than the version alone (missing parts count as 0), and never older.
pub proof fn law_added_nonzero_part_is_newer(b: Seq<u64>, tail: Seq<u64>, i: int)
    requires
        0 <= i < tail.len(),
        forall|j: int| 0 <= j < i ==> tail[j] == 0,
        tail[i] > 0,
    ensures
        parts_newer(b + tail, b),
        !parts_newer(b, b + tail),
{
    let a = b + tail;
    let d = b.len() + i;
    assert forall|j: int| 0 <= j < d implies part_or_zero(a, j) == part_or_zero(b, j) by {
        if j >= b.len() {
            assert(a[j] == tail[j - b.len()]);
        } else {
            assert(a[j] == b[j]);
        }
    }
    assert(a[d] == tail[i]);
    lemma_newer_skip_equal(a, b, 0, d, max_len(a, b));
    lemma_newer_skip_equal(b, a, 0, d, max_len(b, a));
}

/// Between two release strings, the first numeric part in which they differ
/// decides, whichever part it is (major, minor, patch or later).
pub proof fn law_version_first_difference(candidate: Seq<char>, current: Seq<char>, i: int)
    requires
        0 <= i < version_parts_seq(candidate).len(),
        i < version_parts_seq(current).len(),
        forall|j: int|
            0 <= j < i ==> version_parts_seq(candidate)[j] == version_parts_seq(current)[j],
        version_parts_seq(candidate)[i] != version_parts_seq(current)[i],
    ensures
        version_newer(candidate, current) == (version_parts_seq(candidate)[i]
            > version_parts_seq(current)[i]),
{
    law_first_differing_part_decides(version_parts_seq(candidate), version_parts_seq(current), i);
}

/// No version is newer than itself.
pub proof fn law_version_newer_irreflexive(v: Seq<char>)
    ensures
        !version_newer(v, v),
{
    let a = version_parts_seq(v);
    lemma_newer_irreflexive_from(a, 0, max_len(a, a));
}

/// If `a` is newer than `b`, then `b` is not newer than `a`.
pub proof fn law_version_newer_asymmetric(a: Seq<char>, b: Seq<char>)
    ensures
        version_newer(a, b) ==> !version_newer(b, a),
{
    let pa = version_parts_seq(a);
    let pb = version_parts_seq(b);
    assert(max_len(pa, pb) == max_len(pb, pa));
    lemma_newer_asymmetric_from(pa, pb, 0, max_len(pa, pb));
}

/// If `a` is newer than `b` and `b` newer than `c`, then `a` is newer than `c`.
pub proof fn law_version_newer_transitive(a: Seq<char>, b: Seq<char>, c: Seq<char>)
    ensures
        version_newer(a, b) && version_newer(b, c) ==> version_newer(a, c),
{
    let pa = version_parts_seq(a);
    let pb = version_parts_seq(b);
    let pc = version_parts_seq(c);
    let n = if max_len(pa, pb) >= pc.len() {
        max_len(pa, pb)
    } else {
        pc.len() as int
    };
    lemma_newer_extend(pa, pb, 0, n);
    lemma_newer_extend(pb, pc, 0, n);
    lemma_newer_extend(pa, pc, 0, n);
    lemma_newer_transitive_from(pa, pb, pc, 0, n);
}

/// Version comparison is a strict order: no version is newer than itself,
/// never are two versions each newer than the other, and being newer chains;
/// versions whose parts differ only by a trailing zero are equally new.
pub proof fn law_version_order(a: Seq<char>, b: Seq<char>, c: Seq<char>)
    ensures
        !version_newer(a, a),
        !(version_newer(a, b) && version_newer(b, a)),
        version_newer(a, b) && version_newer(b, c) ==> version_newer(a, c),
        version_parts_seq(b) == version_parts_seq(a).push(0) ==> !version_newer(a, b)
            && !version_newer(b, a),
{
    law_version_newer_irreflexive(a);
    law_version_newer_asymmetric(a, b);
    law_version_newer_transitive(a, b, c);
    law_version_trailing_zero(version_parts_seq(a));
}

/// Versions that differ only in trailing zero parts are equally new.
pub proof fn law_version_trailing_zero(a: Seq<u64>)
    ensures
        !parts_newer(a.push(0), a),
        !parts_newer(a, a.push(0)),
{
    let b = a.push(0);
    assert forall|i: int| 0 <= i implies part_or_zero(b, i) == part_or_zero(a, i) by {
        if i < a.len() {
            assert(b[i] == a[i]);
        }
    }
    lemma_same_parts_not_newer(b, a, 0, max_len(b, a));
    lemma_same_parts_not_newer(a, b, 0, max_len(a, b));
}

proof fn lemma_same_parts_not_newer(a: Seq<u64>, b: Seq<u64>, i: int, n: int)
    requires
        forall|j: int| 0 <= j ==> part_or_zero(a, j) == part_or_zero(b, j),
    ensures
        !parts_newer_upto(a, b, i, n),
    decreases n - i,
{
    if i < n {
        assert(part_or_zero(a, i) == part_or_zero(b, i)) by {
            if i < 0 {
            }
        }
        lemma_same_parts_not_newer(a, b, i + 1, n);
    }
}

// ---------------------------------------------------------------------------
// Release assets
// ---------------------------------------------------------------------------

pub open spec fn pts(cond: bool, points: int) -> int {
    if cond {
        points
    } else {
        0
    }
}

/// How well an asset name fits the platform `os`; 0 means not at all.
pub open spec fn asset_score(name: Seq<char>, os: Seq<char>) -> int {
    let l = lower_seq(name);
    if is_windows(os) {
        pts(seq_ends_with(l, ".exe"@), 120) + pts(seq_ends_with(l, ".msi"@), 110) + pts(
            seq_contains(l, "setup"@),
            30,
        ) + pts(seq_contains(l, "x64"@) || seq_contains(l, "amd64"@), 20) + pts(
            seq_contains(l, "windows"@) || seq_contains(l, "win"@),
            15,
        ) + pts(seq_ends_with(l, ".zip"@), 5)
    } else if is_macos(os) {
        pts(seq_ends_with(l, ".dmg"@), 120) + pts(seq_ends_with(l, ".app.tar.gz"@), 90) + pts(
            seq_contains(l, "universal"@) || seq_contains(l, "darwin"@),
            25,
        ) + pts(seq_contains(l, "mac"@) || seq_contains(l, "apple"@), 15)
    } else {
        pts(seq_ends_with(l, ".appimage"@), 120) + pts(seq_ends_with(l, ".deb"@), 100) + pts(
            seq_ends_with(l, ".rpm"@),
            70,
        ) + pts(seq_contains(l, "linux"@), 20) + pts(
            seq_contains(l, "x86_64"@) || seq_contains(l, "amd64"@),
            15,
        )
    }
}

fn points(cond: bool, p: i32) -> (r: i32)
    ensures
        r == pts(cond, p as int),
{
    if cond {
        p
    } else {
        0
    }
}

/// Scores a release asset name for the platform `os`.
pub fn update_asset_score(name: &str, os: &str) -> (r: i32)
    ensures
        r == asset_score(name@, os@),
{
    let lower = to_ascii_lowercase(name);
    let l = lower.as_str();
    if os_is_windows(os) {
        let a = points(ends_with(l, ".exe"), 120);
        let b = points(ends_with(l, ".msi"), 110);
        let c = points(contains(l, "setup"), 30);
        let d = points(contains(l, "x64") || contains(l, "amd64"), 20);
        let e = points(contains(l, "windows") || contains(l, "win"), 15);
        let f = points(ends_with(l, ".zip"), 5);
        a + b + c + d + e + f
    } else if os_is_macos(os) {
        let a = points(ends_with(l, ".dmg"), 120);
        let b = points(ends_with(l, ".app.tar.gz"), 90);
        let c = points(contains(l, "universal") || contains(l, "darwin"), 25);
        let d = points(contains(l, "mac") || contains(l, "apple"), 15);
        a + b + c + d
    } else {
        let a = points(ends_with(l, ".appimage"), 120);
        let b = points(ends_with(l, ".deb"), 100);
        let c = points(ends_with(l, ".rpm"), 70);
        let d = points(contains(l, "linux"), 20);
        let e = points(contains(l, "x86_64") || contains(l, "amd64"), 15);
        a + b + c + d + e
    }
}

/// The index of the best-scoring asset among the first `n`, the last one on
/// ties; -1 when none of them scores above 0.
pub open spec fn best_asset_upto(assets: Seq<GithubReleaseAsset>, os: Seq<char>, n: int) -> int
    decreases n,
{
    if n <= 0 {
        -1
    } else {
        let i = best_asset_upto(assets, os, n - 1);
        let s = asset_score(assets[n - 1].name@, os);
        if s > 0 && (i < 0 || s >= asset_score(assets[i].name@, os)) {
            n - 1
        } else {
            i
        }
    }
}

pub open spec fn best_asset(assets: Seq<GithubReleaseAsset>, os: Seq<char>) -> int {
    best_asset_upto(assets, os, assets.len() as int)
}

proof fn lemma_best_asset_bounds(assets: Seq<GithubReleaseAsset>, os: Seq<char>, n: int)
    requires
        0 <= n <= assets.len(),
    ensures
        -1 <= best_asset_upto(assets, os, n) < n,
        best_asset_upto(assets, os, n) >= 0 ==> asset_score(
            assets[best_asset_upto(assets, os, n)].name@,
            os,
        ) > 0,
    decreases n,
{
    if n > 0 {
        lemma_best_asset_bounds(assets, os, n - 1);
    }
}

/// The asset that best fits the platform: the highest positive score, the
/// last such asset on ties; `None` when no asset scores above 0.
pub fn select_update_asset(assets: &Vec<GithubReleaseAsset>, os: &str) -> (r: Option<
    GithubReleaseAsset,
>)
    ensures
        best_asset(assets@, os@) < 0 ==> r is None,
        best_asset(assets@, os@) >= 0 ==> r == Some(assets@[best_asset(assets@, os@)]),
{
    let mut best: usize = 0;
    let mut best_score: i32 = 0;
    let mut found = false;
    let mut i: usize = 0;
    while i < assets.len()
        invariant
            i <= assets.len(),
            found == (best_asset_upto(assets@, os@, i as int) >= 0),
            found ==> best == best_asset_upto(assets@, os@, i as int),
            found ==> best_score == asset_score(assets@[best as int].name@, os@),
            found ==> best < i,
        decreases assets.len() - i,
    {
        proof {
            lemma_best_asset_bounds(assets@, os@, i as int);
        }
        let s = update_asset_score(assets[i].name.as_str(), os);
        if s > 0 && (!found || s >= best_score) {
            best = i;
            best_score = s;
            found = true;
        }
        i += 1;
    }
    if found {
        let a = &assets[best];
        Some(GithubReleaseAsset { name: a.name.clone(), browser_download_url: a.browser_download_url.clone() })
    } else {
        None
    }
}

/// The update information for a fetched release (`Ok`) or a failed fetch
/// (`Err` with its message).
pub fn app_update_info_from_release(
    current_version: &str,
    releases_url: &str,
    fetched: Result<GithubRelease, String>,
    os: &str,
) -> (r: AppUpdateInfo)
    ensures
        r.current_version@ == current_version@,
        match fetched {
            Ok(release) => {
                let k = best_asset(release.assets@, os@);
                &&& r.latest_version == Some(release.tag_name)
                &&& r.update_available == version_newer(release.tag_name@, current_version@)
                &&& r.release_url == release.html_url
                &&& r.published_at == release.published_at
                &&& r.body == release.body
                &&& r.error is None
                &&& (k < 0 ==> r.asset_name is None && r.download_url is None)
                &&& (k >= 0 ==> r.asset_name == Some(release.assets@[k].name)
                    && r.download_url == Some(release.assets@[k].browser_download_url))
            },
            Err(e) => {
                &&& r.latest_version is None
                &&& !r.update_available
                &&& r.release_url@ == releases_url@
                &&& r.download_url is None
                &&& r.asset_name is None
                &&& r.published_at is None
                &&& r.body is None
                &&& r.error == Some(e)
            },
        },
{
    match fetched {
        Ok(release) => {
            let asset = select_update_asset(&release.assets, os);
            let newer = version_is_newer(release.tag_name.as_str(), current_version);
            let (asset_name, download_url) = match asset {
                Some(a) => (Some(a.name), Some(a.browser_download_url)),
                None => (None, None),
            };
            AppUpdateInfo {
                current_version: owned(current_version),
                latest_version: Some(release.tag_name),
                update_available: newer,
                release_url: release.html_url,
                download_url,
                asset_name,
                published_at: release.published_at,
                body: release.body,
                error: None,
            }
        },
        Err(e) => AppUpdateInfo {
            current_version: owned(current_version),
            latest_version: None,
            update_available: false,
            release_url: owned(releases_url),
            download_url: None,
            asset_name: None,
            published_at: None,
            body: None,
            error: Some(e),
        },
    }
}

} // verus!
