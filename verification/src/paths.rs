use vstd::prelude::*;

use crate::seqs::{find_first, find_from, keep};
use crate::text::{
    chars_of, concat2, concat3, contains_vec, ends_with, has_char, is_char, lower_seq,
    nonempty_pred, owned, push_char, seq_contains, seq_ends_with, seq_starts_with, split_by,
    split_char, starts_with, str_eq, string_from_chars, to_ascii_lowercase, trim, trim_seq,
    views, lemma_split_by_nonempty,
};
use crate::update::{is_windows, os_is_windows};

verus! {

// ---------------------------------------------------------------------------
// Joining
// ---------------------------------------------------------------------------

pub open spec fn is_path_sep(c: char, os: Seq<char>) -> bool {
    if is_windows(os) {
        c == '\\' || c == '/'
    } else {
        c == '/'
    }
}

pub open spec fn main_sep(os: Seq<char>) -> char {
    if is_windows(os) {
        '\\'
    } else {
        '/'
    }
}

pub open spec fn is_ascii_letter(c: char) -> bool {
    ('a' <= c && c <= 'z') || ('A' <= c && c <= 'Z')
}

/// A bare Windows drive such as `C:`.
pub open spec fn is_bare_drive(s: Seq<char>) -> bool {
    s.len() == 2 && is_ascii_letter(s[0]) && s[1] == ':'
}

/// Appending a relative component to a path as std's `Path::join` does: a
/// separator goes between them unless the path is empty, already ends with a
/// separator, or is a bare Windows drive.
pub open spec fn join_spec(base: Seq<char>, part: Seq<char>, os: Seq<char>) -> Seq<char> {
    if base.len() == 0 {
        part
    } else if is_windows(os) && is_bare_drive(base) {
        base + part
    } else if is_path_sep(base.last(), os) {
        base + part
    } else {
        base.push(main_sep(os)) + part
    }
}

/// Joins a relative component (a name without separators) to a path.
pub fn join_path(base: &str, part: &str, os: &str) -> (r: String)
    ensures
        r@ == join_spec(base@, part@, os@),
{
    let windows = os_is_windows(os);
    let b = chars_of(base);
    let n = b.len();
    if n == 0 {
        return owned(part);
    }
    let bare_drive = n == 2 && ((b[0] >= 'a' && b[0] <= 'z') || (b[0] >= 'A' && b[0] <= 'Z'))
        && b[1] == ':';
    if windows && bare_drive {
        return concat2(base, part);
    }
    let last = b[n - 1];
    let ends_with_sep = if windows {
        last == '\\' || last == '/'
    } else {
        last == '/'
    };
    if ends_with_sep {
        return concat2(base, part);
    }
    let mut out = owned(base);
    push_char(
        &mut out,
        if windows {
            '\\'
        } else {
            '/'
        },
    );
    out.append(part);
    out
}

// ---------------------------------------------------------------------------
// Roots
// ---------------------------------------------------------------------------

pub open spec fn normal_seg_pred() -> spec_fn(Seq<char>) -> bool {
    |seg: Seq<char>| seg.len() > 0 && seg != "."@
}

/// The components of a Unix path as std's `Path::components` gives them: the
/// root (written `/`), a leading `.`, and the non-empty names that are not `.`.
pub open spec fn unix_components(s: Seq<char>) -> Seq<Seq<char>> {
    let segs = split_by(s, is_char('/'));
    if s.len() > 0 && s[0] == '/' {
        seq![seq!['/']] + keep(segs.drop_first(), normal_seg_pred())
    } else if segs[0] == "."@ {
        seq!["."@] + keep(segs.drop_first(), normal_seg_pred())
    } else {
        keep(segs, normal_seg_pred())
    }
}

/// Whether the components of `root` begin the components of `path` (std's
/// `Path::starts_with` on Unix).
pub open spec fn unix_starts_with(path: Seq<char>, root: Seq<char>) -> bool {
    let p = unix_components(path);
    let r = unix_components(root);
    r.len() <= p.len() && forall|i: int| 0 <= i < r.len() ==> p[i] == r[i]
}

/// `s` without trailing `\` and `/`.
pub open spec fn trim_end_seps(s: Seq<char>) -> Seq<char>
    decreases s.len(),
{
    if s.len() > 0 && (s.last() == '\\' || s.last() == '/') {
        trim_end_seps(s.drop_last())
    } else {
        s
    }
}

/// Whether `path` lies under the drive or directory `root`. On Windows the
/// comparison ignores ASCII case and works on text; elsewhere it works on path
/// components, so `/home` does not contain `/homework`.
pub open spec fn under_root(path: Seq<char>, root: Seq<char>, os: Seq<char>) -> bool {
    if is_windows(os) {
        let p = lower_seq(path);
        let r0 = lower_seq(root);
        let r = if r0.len() > 0 && (r0.last() == '\\' || r0.last() == '/') {
            r0
        } else {
            r0.push('\\')
        };
        p == trim_end_seps(r) || seq_starts_with(p, r)
    } else {
        unix_starts_with(path, root)
    }
}

fn normal_segments(segs: &Vec<String>, from: usize) -> (r: Vec<String>)
    requires
        from <= segs.len(),
    ensures
        views(r@) == keep(views(segs@).subrange(from as int, segs@.len() as int), normal_seg_pred()),
{
    let ghost all = views(segs@).subrange(from as int, segs@.len() as int);
    let mut out: Vec<String> = Vec::new();
    let mut i: usize = from;
    while i < segs.len()
        invariant
            from <= i <= segs.len(),
            all == views(segs@).subrange(from as int, segs@.len() as int),
            views(out@) == keep(views(segs@).subrange(from as int, i as int), normal_seg_pred()),
        decreases segs.len() - i,
    {
        let ghost pre = views(segs@).subrange(from as int, i as int);
        let ghost next = views(segs@).subrange(from as int, i + 1);
        assert(next.drop_last() == pre);
        assert(next.last() == segs@[i as int]@);
        let seg = segs[i].as_str();
        if seg.unicode_len() > 0 && !str_eq(seg, ".") {
            let ghost old_out = out@;
            out.push(segs[i].clone());
            assert(views(out@) =~= views(old_out).push(segs@[i as int]@));
        }
        i += 1;
    }
    out
}

/// The components of a Unix path.
pub fn unix_path_components(s: &str) -> (r: Vec<String>)
    ensures
        views(r@) == unix_components(s@),
{
    let segs = split_char(s, '/');
    proof {
        lemma_split_by_nonempty(s@, is_char('/'));
        assert(views(segs@).drop_first() == views(segs@).subrange(1, segs@.len() as int));
        assert(views(segs@) == views(segs@).subrange(0, segs@.len() as int));
    }
    let starts_with_root = s.unicode_len() > 0 && s.get_char(0) == '/';
    if starts_with_root {
        let rest = normal_segments(&segs, 1);
        let mut out: Vec<String> = Vec::new();
        out.push(owned("/"));
        let ghost o1 = out@;
        assert(views(o1) =~= seq!["/"@]);
        crate::catalog::extend_strings(&mut out, &rest);
        proof {
            reveal_strlit("/");
            assert(views(out@) =~= views(o1) + views(rest@));
            assert("/"@ =~= seq!['/']);
            assert(views(out@) =~= seq![seq!['/']] + views(rest@));
        }
        out
    } else if str_eq(segs[0].as_str(), ".") {
        let rest = normal_segments(&segs, 1);
        let mut out: Vec<String> = Vec::new();
        out.push(owned("."));
        let ghost o1 = out@;
        assert(views(o1) =~= seq!["."@]);
        crate::catalog::extend_strings(&mut out, &rest);
        assert(views(out@) =~= views(o1) + views(rest@));
        assert(views(out@) =~= seq!["."@] + views(rest@));
        out
    } else {
        normal_segments(&segs, 0)
    }
}

/// The components of a Windows path: `/` counts as `\`, a leading separator
/// gives the root (written `\`), a leading `.` stays, and the other
/// components are the non-empty names that are not `.`.
pub open spec fn windows_components(s: Seq<char>) -> Seq<Seq<char>> {
    let w = crate::text::replace_seq(s, "/"@, "\\"@);
    let segs = split_by(w, is_char('\\'));
    if w.len() > 0 && w[0] == '\\' {
        seq![seq!['\\']] + keep(segs.drop_first(), normal_seg_pred())
    } else if segs[0] == "."@ {
        seq!["."@] + keep(segs.drop_first(), normal_seg_pred())
    } else {
        keep(segs, normal_seg_pred())
    }
}

/// The components of a path on platform `os`.
pub open spec fn components_spec(s: Seq<char>, os: Seq<char>) -> Seq<Seq<char>> {
    if is_windows(os) {
        windows_components(s)
    } else {
        unix_components(s)
    }
}

/// A drive such as `C:`.
pub open spec fn drive_like(c: Seq<char>) -> bool {
    c.len() == 2 && is_ascii_letter(c[0]) && c[1] == ':'
}

/// Whether two components name the same thing: equal, or on Windows the
/// same drive letter in either case.
pub open spec fn same_component(a: Seq<char>, b: Seq<char>, os: Seq<char>) -> bool {
    a == b || (is_windows(os) && drive_like(a) && drive_like(b) && lower_seq(a) == lower_seq(b))
}

/// Whether the components of `root` begin those of `path` (std's
/// `Path::starts_with`: only whole components match).
pub open spec fn components_start_with(path: Seq<char>, root: Seq<char>, os: Seq<char>) -> bool {
    let p = components_spec(path, os);
    let r = components_spec(root, os);
    r.len() <= p.len() && forall|i: int| 0 <= i < r.len() ==> same_component(p[i], r[i], os)
}

fn windows_path_components(s: &str) -> (r: Vec<String>)
    ensures
        views(r@) == windows_components(s@),
{
    proof {
        reveal_strlit("/");
    }
    let w = crate::text::replace_all(s, "/", "\\");
    let segs = split_char(w.as_str(), '\\');
    proof {
        lemma_split_by_nonempty(w@, is_char('\\'));
        assert(views(segs@).drop_first() == views(segs@).subrange(1, segs@.len() as int));
        assert(views(segs@) == views(segs@).subrange(0, segs@.len() as int));
    }
    let starts_with_root = w.as_str().unicode_len() > 0 && w.as_str().get_char(0) == '\\';
    if starts_with_root {
        let rest = normal_segments(&segs, 1);
        let mut out: Vec<String> = Vec::new();
        out.push(owned("\\"));
        let ghost o1 = out@;
        crate::catalog::extend_strings(&mut out, &rest);
        proof {
            reveal_strlit("\\");
            assert(views(out@) =~= views(o1) + views(rest@));
            assert("\\"@ =~= seq!['\\']);
            assert(views(out@) =~= seq![seq!['\\']] + views(rest@));
        }
        out
    } else if str_eq(segs[0].as_str(), ".") {
        let rest = normal_segments(&segs, 1);
        let mut out: Vec<String> = Vec::new();
        out.push(owned("."));
        let ghost o1 = out@;
        assert(views(o1) =~= seq!["."@]);
        crate::catalog::extend_strings(&mut out, &rest);
        assert(views(out@) =~= views(o1) + views(rest@));
        assert(views(out@) =~= seq!["."@] + views(rest@));
        out
    } else {
        normal_segments(&segs, 0)
    }
}

fn same_component_exec(a: &str, b: &str, windows: bool) -> (r: bool)
    ensures
        r == (a@ == b@ || (windows && drive_like(a@) && drive_like(b@) && lower_seq(a@) == lower_seq(
            b@,
        ))),
{
    if str_eq(a, b) {
        return true;
    }
    if !windows || a.unicode_len() != 2 || b.unicode_len() != 2 {
        return false;
    }
    let a0 = a.get_char(0);
    let b0 = b.get_char(0);
    let letters = ((a0 >= 'a' && a0 <= 'z') || (a0 >= 'A' && a0 <= 'Z')) && ((b0 >= 'a' && b0
        <= 'z') || (b0 >= 'A' && b0 <= 'Z'));
    letters && a.get_char(1) == ':' && b.get_char(1) == ':' && crate::text::eq_ignore_ascii_case(
        a,
        b,
    )
}

/// Whether `root`'s components begin `path`'s on platform `os`.
pub fn path_starts_with(path: &str, root: &str, os: &str) -> (r: bool)
    ensures
        r == components_start_with(path@, root@, os@),
{
    let windows = os_is_windows(os);
    let p = if windows {
        windows_path_components(path)
    } else {
        unix_path_components(path)
    };
    let r = if windows {
        windows_path_components(root)
    } else {
        unix_path_components(root)
    };
    if r.len() > p.len() {
        return false;
    }
    let mut i: usize = 0;
    while i < r.len()
        invariant
            i <= r@.len() <= p@.len(),
            windows == is_windows(os@),
            views(p@) == components_spec(path@, os@),
            views(r@) == components_spec(root@, os@),
            forall|k: int| 0 <= k < i ==> same_component(p@[k]@, r@[k]@, os@),
        decreases r.len() - i,
    {
        assert(views(p@)[i as int] == p@[i as int]@ && views(r@)[i as int] == r@[i as int]@);
        if !same_component_exec(p[i].as_str(), r[i].as_str(), windows) {
            return false;
        }
        i += 1;
    }
    proof {
        assert forall|k: int| 0 <= k < views(r@).len() implies same_component(
            views(p@)[k],
            views(r@)[k],
            os@,
        ) by {
            assert(views(p@)[k] == p@[k]@ && views(r@)[k] == r@[k]@);
        }
    }
    true
}

/// Whether `path` lies under `root` on platform `os`.
pub fn path_is_under_root(path: &str, root: &str, os: &str) -> (r: bool)
    ensures
        r == under_root(path@, root@, os@),
{
    if os_is_windows(os) {
        let p = to_ascii_lowercase(path);
        let mut rt = to_ascii_lowercase(root);
        let rv = chars_of(rt.as_str());
        if !(rv.len() > 0 && (rv[rv.len() - 1] == '\\' || rv[rv.len() - 1] == '/')) {
            push_char(&mut rt, '\\');
        }
        let trimmed = trim_end_seps_exec(rt.as_str());
        str_eq(p.as_str(), trimmed.as_str()) || starts_with(p.as_str(), rt.as_str())
    } else {
        let pc = unix_path_components(path);
        let rc = unix_path_components(root);
        if rc.len() > pc.len() {
            return false;
        }
        let mut i: usize = 0;
        while i < rc.len()
            invariant
                i <= rc.len() <= pc.len(),
                !is_windows(os@),
                views(pc@) == unix_components(path@),
                views(rc@) == unix_components(root@),
                forall|j: int| 0 <= j < i ==> pc@[j]@ == rc@[j]@,
            decreases rc.len() - i,
        {
            if !str_eq(pc[i].as_str(), rc[i].as_str()) {
                assert(views(pc@)[i as int] != views(rc@)[i as int]);
                return false;
            }
            i += 1;
        }
        assert forall|j: int| 0 <= j < rc@.len() implies views(pc@)[j] == views(rc@)[j] by {}
        true
    }
}

proof fn lemma_trim_end_seps(s: Seq<char>, e: int)
    requires
        0 <= e <= s.len(),
        forall|j: int| e <= j < s.len() ==> (s[j] == '\\' || s[j] == '/'),
        e == 0 || !(s[e - 1] == '\\' || s[e - 1] == '/'),
    ensures
        trim_end_seps(s) == s.subrange(0, e),
    decreases s.len() - e,
{
    if e < s.len() {
        lemma_trim_end_seps(s.drop_last(), e);
        assert(s.drop_last().subrange(0, e) =~= s.subrange(0, e));
    } else {
        assert(s.subrange(0, s.len() as int) =~= s);
    }
}

/// `s` without trailing `\` and `/`.
pub fn trim_end_seps_exec(s: &str) -> (r: String)
    ensures
        r@ == trim_end_seps(s@),
{
    let v = chars_of(s);
    let mut e: usize = v.len();
    while e > 0 && (v[e - 1] == '\\' || v[e - 1] == '/')
        invariant
            e <= v.len(),
            forall|j: int| e <= j < v.len() ==> (v@[j] == '\\' || v@[j] == '/'),
        decreases e,
    {
        e -= 1;
    }
    proof {
        lemma_trim_end_seps(v@, e as int);
    }
    crate::text::string_from_range(&v, 0, e)
}

// ---------------------------------------------------------------------------
// Executable names
// ---------------------------------------------------------------------------

/// The part of `s` after its last `\` or `/`.
pub open spec fn last_segment(s: Seq<char>) -> Seq<char>
    decreases s.len(),
{
    if s.len() == 0 {
        s
    } else if s.last() == '\\' || s.last() == '/' {
        Seq::empty()
    } else {
        last_segment(s.drop_last()).push(s.last())
    }
}

/// The last component of a path.
pub fn last_segment_exec(s: &str) -> (r: String)
    ensures
        r@ == last_segment(s@),
{
    let v = chars_of(s);
    let mut out: Vec<char> = Vec::new();
    let mut i: usize = 0;
    while i < v.len()
        invariant
            i <= v.len(),
            out@ == last_segment(v@.subrange(0, i as int)),
        decreases v.len() - i,
    {
        assert(v@.subrange(0, i + 1).drop_last() == v@.subrange(0, i as int));
        if v[i] == '\\' || v[i] == '/' {
            out = Vec::new();
        } else {
            out.push(v[i]);
        }
        i += 1;
    }
    assert(v@.subrange(0, v.len() as int) == v@);
    string_from_chars(&out)
}

/// Whether a path is the Microsoft Store stub of Python in `WindowsApps`,
/// which opens the Store instead of running Python.
pub open spec fn store_alias(path: Seq<char>) -> bool {
    let l = lower_seq(path);
    let name = last_segment(l);
    &&& seq_contains(l, "\\windowsapps\\"@)
    &&& seq_ends_with(l, ".exe"@)
    &&& (name == "python.exe"@ || name == "python3.exe"@ || name == "pythonw.exe"@ || name
        == "python3w.exe"@)
}

/// Whether a path is a Microsoft Store alias of Python.
pub fn is_windows_store_alias(path: &str) -> (r: bool)
    ensures
        r == store_alias(path@),
{
    let lowered = to_ascii_lowercase(path);
    let l = lowered.as_str();
    if !crate::text::contains(l, "\\windowsapps\\") || !ends_with(l, ".exe") {
        return false;
    }
    let name = last_segment_exec(l);
    let n = name.as_str();
    str_eq(n, "python.exe") || str_eq(n, "python3.exe") || str_eq(n, "pythonw.exe") || str_eq(
        n,
        "python3w.exe",
    )
}

pub open spec fn executable_path(path: Seq<char>) -> bool {
    let l = lower_seq(path);
    ||| seq_ends_with(l, ".exe"@)
    ||| seq_ends_with(l, ".cmd"@)
    ||| seq_ends_with(l, ".bat"@)
    ||| seq_ends_with(l, ".com"@)
    ||| seq_ends_with(l, ".ps1"@)
}

/// Whether a path has an executable extension on Windows.
pub fn is_windows_executable_path(path: &str) -> (r: bool)
    ensures
        r == executable_path(path@),
{
    let lowered = to_ascii_lowercase(path);
    let l = lowered.as_str();
    ends_with(l, ".exe") || ends_with(l, ".cmd") || ends_with(l, ".bat") || ends_with(l, ".com")
        || ends_with(l, ".ps1")
}

pub open spec fn batch_path(path: Seq<char>) -> bool {
    seq_ends_with(lower_seq(path), ".cmd"@) || seq_ends_with(lower_seq(path), ".bat"@)
}

/// Whether a path is a batch file.
pub fn is_windows_batch_path(path: &str) -> (r: bool)
    ensures
        r == batch_path(path@),
{
    let lowered = to_ascii_lowercase(path);
    ends_with(lowered.as_str(), ".cmd") || ends_with(lowered.as_str(), ".bat")
}

/// Whether a path is a PowerShell script.
pub fn is_windows_powershell_script_path(path: &str) -> (r: bool)
    ensures
        r == seq_ends_with(lower_seq(path@), ".ps1"@),
{
    let lowered = to_ascii_lowercase(path);
    ends_with(lowered.as_str(), ".ps1")
}

/// Whether a command names a path rather than a bare program name. (Every
/// absolute path holds a separator, so std's `is_absolute` adds nothing.)
pub fn command_has_path_separator(command: &str) -> (r: bool)
    ensures
        r == (has_char(command@, '\\') || has_char(command@, '/')),
{
    crate::text::contains_char(command, '\\') || crate::text::contains_char(command, '/')
}

/// The file name of a Windows path: its last component after dropping
/// trailing separators.
pub open spec fn file_name_of(s: Seq<char>) -> Seq<char> {
    last_segment(trim_end_seps(s))
}

/// Whether the file name has an extension, as std's `Path::extension` sees it:
/// a `.` after the first character, and the name is not `..`.
pub open spec fn has_extension(s: Seq<char>) -> bool {
    let name = file_name_of(s);
    name != ".."@ && exists|i: int| 0 < i < name.len() && name[i] == '.'
}

/// Whether a path's file name has an extension.
pub fn has_extension_exec(s: &str) -> (r: bool)
    ensures
        r == has_extension(s@),
{
    let t = trim_end_seps_exec(s);
    let name = last_segment_exec(t.as_str());
    if str_eq(name.as_str(), "..") {
        return false;
    }
    let v = chars_of(name.as_str());
    let mut i: usize = 1;
    while i < v.len()
        invariant
            1 <= i,
            v@ == file_name_of(s@),
            v@ != ".."@,
            forall|j: int| 0 < j < i && j < v@.len() ==> v@[j] != '.',
        decreases v.len() - i,
    {
        if v[i] == '.' {
            return true;
        }
        i += 1;
    }
    false
}

/// The extensions always tried, in order.
pub open spec fn base_extensions() -> Seq<Seq<char>> {
    seq![".exe"@, ".cmd"@, ".bat"@, ".com"@, ".ps1"@]
}

/// A `PATHEXT` entry as an extension: trimmed, lower-cased, with a leading dot.
pub open spec fn normalize_ext(piece: Seq<char>) -> Seq<char> {
    let t = trim_seq(piece);
    if t.len() > 0 && t[0] == '.' {
        lower_seq(t)
    } else {
        seq!['.'] + lower_seq(t)
    }
}

/// The non-blank entries of `PATHEXT`, normalized.
pub open spec fn pathext_extensions(pathext: Option<Seq<char>>) -> Seq<Seq<char>> {
    match pathext {
        None => Seq::empty(),
        Some(v) => keep(split_by(v, is_char(';')), nonblank_pred()).map_values(
            |p: Seq<char>| normalize_ext(p),
        ),
    }
}

pub open spec fn nonblank_pred() -> spec_fn(Seq<char>) -> bool {
    |p: Seq<char>| trim_seq(p).len() > 0
}

/// The executable extensions to try on Windows: the usual ones, then those of
/// `PATHEXT`, each once.
pub open spec fn executable_extensions(pathext: Option<Seq<char>>) -> Seq<Seq<char>> {
    crate::seqs::dedup_seq(base_extensions() + pathext_extensions(pathext))
}


/// Appends the strings of `b` to `a` unless a string with the same key is
/// already there; `key` is ASCII lower-casing when `fold_case`, else identity.
fn push_unique_by_key(out: &mut Vec<String>, keys: &mut Vec<String>, item: String, fold_case: bool)
    requires
        views(old(keys)@) == views(old(out)@).map_values(key_fn(fold_case)),
    ensures
        views(final(keys)@) == views(final(out)@).map_values(key_fn(fold_case)),
        views(old(out)@).map_values(key_fn(fold_case)).contains(key_fn(fold_case)(item@))
            ==> views(final(out)@) == views(old(out)@),
        !views(old(out)@).map_values(key_fn(fold_case)).contains(key_fn(fold_case)(item@))
            ==> views(final(out)@) == views(old(out)@).push(item@),
{
    let key = if fold_case {
        to_ascii_lowercase(item.as_str())
    } else {
        owned(item.as_str())
    };
    assert(key@ == key_fn(fold_case)(item@));
    if !crate::catalog::contains_string(keys, key.as_str()) {
        let ghost old_out = out@;
        let ghost old_keys = keys@;
        out.push(item);
        keys.push(key);
        assert(views(out@) =~= views(old_out).push(item@));
        assert(views(keys@) =~= views(old_keys).push(key@));
        assert(views(out@).map_values(key_fn(fold_case)) =~= views(old_out).map_values(
            key_fn(fold_case),
        ).push(key@));
    }
}

/// ASCII lower-casing when `fold_case`, else the identity.
pub open spec fn key_fn(fold_case: bool) -> spec_fn(Seq<char>) -> Seq<char> {
    |s: Seq<char>| if fold_case {
        lower_seq(s)
    } else {
        s
    }
}

/// Keeps the first of the strings with equal keys.
pub fn dedup_strings_by_key(items: &Vec<String>, fold_case: bool) -> (r: Vec<String>)
    ensures
        views(r@) == crate::seqs::dedup_by(views(items@), key_fn(fold_case)),
{
    let mut out: Vec<String> = Vec::new();
    let mut keys: Vec<String> = Vec::new();
    let mut i: usize = 0;
    while i < items.len()
        invariant
            i <= items.len(),
            views(keys@) == views(out@).map_values(key_fn(fold_case)),
            views(out@) == crate::seqs::dedup_by(
                views(items@).subrange(0, i as int),
                key_fn(fold_case),
            ),
        decreases items.len() - i,
    {
        assert(views(items@).subrange(0, i + 1).drop_last() == views(items@).subrange(0, i as int));
        assert(views(items@).subrange(0, i + 1).last() == items@[i as int]@);
        push_unique_by_key(&mut out, &mut keys, items[i].clone(), fold_case);
        i += 1;
    }
    assert(views(items@).subrange(0, items.len() as int) == views(items@));
    out
}

/// The normalized `PATHEXT` entries.
pub fn pathext_extension_list(pathext: Option<&str>) -> (r: Vec<String>)
    ensures
        views(r@) == pathext_extensions(
            match pathext {
                Some(v) => Some(v@),
                None => None,
            },
        ),
{
    let mut out: Vec<String> = Vec::new();
    let value = match pathext {
        Some(v) => v,
        None => return out,
    };
    let pieces = split_char(value, ';');
    let ghost ps = views(pieces@);
    let ghost nonblank = nonblank_pred();
    let mut i: usize = 0;
    while i < pieces.len()
        invariant
            i <= pieces.len(),
            ps == views(pieces@),
            nonblank == nonblank_pred(),
            views(out@) == keep(ps.subrange(0, i as int), nonblank).map_values(
                |p: Seq<char>| normalize_ext(p),
            ),
        decreases pieces.len() - i,
    {
        let ghost pre = ps.subrange(0, i as int);
        let ghost next = ps.subrange(0, i + 1);
        assert(next.drop_last() == pre);
        assert(next.last() == pieces@[i as int]@);
        let t = trim(pieces[i].as_str());
        if t.as_str().unicode_len() > 0 {
            let lowered = to_ascii_lowercase(t.as_str());
            let normalized = if t.as_str().get_char(0) == '.' {
                lowered
            } else {
                proof {
                    reveal_strlit(".");
                }
                concat2(".", lowered.as_str())
            };
            proof {
                reveal_strlit(".");
                if t@[0] != '.' {
                    assert(normalized@ =~= seq!['.'] + lower_seq(t@));
                }
                assert(normalized@ == normalize_ext(next.last()));
            }
            let ghost old_out = out@;
            out.push(normalized);
            assert(views(out@) =~= views(old_out).push(normalized@));
            assert(keep(next, nonblank) == keep(pre, nonblank).push(next.last()));
            assert(keep(next, nonblank).map_values(|p: Seq<char>| normalize_ext(p)) =~= keep(
                pre,
                nonblank,
            ).map_values(|p: Seq<char>| normalize_ext(p)).push(normalize_ext(next.last())));
        }
        i += 1;
    }
    assert(ps.subrange(0, pieces.len() as int) == ps);
    out
}

/// The executable extensions to try on Windows.
pub fn windows_executable_extensions(pathext: Option<&str>) -> (r: Vec<String>)
    ensures
        views(r@) == executable_extensions(
            match pathext {
                Some(v) => Some(v@),
                None => None,
            },
        ),
{
    let mut all: Vec<String> = Vec::new();
    all.push(owned(".exe"));
    all.push(owned(".cmd"));
    all.push(owned(".bat"));
    all.push(owned(".com"));
    all.push(owned(".ps1"));
    assert(views(all@) =~= base_extensions());
    let extra = pathext_extension_list(pathext);
    let ghost base = all@;
    crate::catalog::extend_strings(&mut all, &extra);
    assert(views(all@) =~= views(base) + views(extra@));
    let r = dedup_strings_by_key(&all, false);
    proof {
        lemma_dedup_by_identity(views(all@));
    }
    r
}

proof fn lemma_dedup_by_identity(s: Seq<Seq<char>>)
    ensures
        crate::seqs::dedup_by(s, key_fn(false)) == crate::seqs::dedup_seq(s),
    decreases s.len(),
{
    if s.len() > 0 {
        lemma_dedup_by_identity(s.drop_last());
        let d = crate::seqs::dedup_seq(s.drop_last());
        assert(d.map_values(key_fn(false)) =~= d);
    }
}

/// The file names to look for when resolving a bare command: on Windows, when
/// the command has no extension, the command with each executable extension
/// and then the command itself, each once ignoring ASCII case; otherwise just
/// the command.
pub open spec fn candidate_names_spec(command: Seq<char>, os: Seq<char>, pathext: Option<Seq<char>>) -> Seq<
    Seq<char>,
> {
    if !is_windows(os) || has_extension(command) {
        seq![command]
    } else {
        crate::seqs::dedup_by(
            executable_extensions(pathext).map_values(|e: Seq<char>| command + e).push(command),
            key_fn(true),
        )
    }
}

/// On Windows a bare command is looked up with each executable extension
/// before the name itself: the name comes last, and every candidate before
/// it is the name with an extension appended.
pub proof fn law_bare_command_checked_last(command: Seq<char>, pathext: Option<Seq<char>>)
    requires
        !has_extension(command),
    ensures
        ({
            let c = candidate_names_spec(command, "windows"@, pathext);
            &&& c.len() >= 1
            &&& c.last() == command
            &&& forall|i: int| 0 <= i < c.len() - 1 ==> (#[trigger] c[i]).len() > command.len()
        }),
{
    reveal_strlit(".exe");
    reveal_strlit(".cmd");
    reveal_strlit(".bat");
    reveal_strlit(".com");
    reveal_strlit(".ps1");
    let pe = pathext_extensions(pathext);
    let all = base_extensions() + pe;
    let exts = executable_extensions(pathext);
    assert forall|k: int| 0 <= k < pe.len() implies (#[trigger] pe[k]).len() > 0 by {
        let pieces = keep(split_by(pathext->0, is_char(';')), nonblank_pred());
        let t = trim_seq(pieces[k]);
        assert(pe[k] == normalize_ext(pieces[k]));
        if !(t.len() > 0 && t[0] == '.') {
            assert((seq!['.'] + lower_seq(t)).len() >= 1);
        }
    }
    assert forall|k: int| 0 <= k < all.len() implies (#[trigger] all[k]).len() > 0 by {
        if k >= base_extensions().len() {
            assert(all[k] == pe[k - base_extensions().len()]);
        }
    }
    crate::seqs::lemma_dedup(all);
    assert forall|k: int| 0 <= k < exts.len() implies (#[trigger] exts[k]).len() > 0 by {
        assert(exts.contains(exts[k]));
        assert(all.contains(exts[k]));
    }
    let with_ext = exts.map_values(|e: Seq<char>| command + e);
    let key = key_fn(true);
    crate::seqs::lemma_dedup_by_from(with_ext, key);
    let d = crate::seqs::dedup_by(with_ext, key);
    assert forall|k: int| 0 <= k < d.len() implies (#[trigger] d[k]).len() > command.len() by {
        assert(with_ext.contains(d[k]));
        let j = choose|j: int| 0 <= j < with_ext.len() && with_ext[j] == d[k];
        assert(with_ext[j] == command + exts[j]);
    }
    assert(!d.map_values(key).contains(key(command))) by {
        if d.map_values(key).contains(key(command)) {
            let j = choose|j: int| 0 <= j < d.map_values(key).len() && d.map_values(key)[j] == key(command);
            assert(d.map_values(key)[j] == lower_seq(d[j]));
            assert(lower_seq(d[j]).len() == d[j].len());
            assert(lower_seq(command).len() == command.len());
        }
    }
    assert(with_ext.push(command).drop_last() == with_ext);
    assert(crate::seqs::dedup_by(with_ext.push(command), key) == d.push(command));
}

/// The file names tried for a command.
pub fn command_candidate_names(command: &str, os: &str, pathext: Option<&str>) -> (r: Vec<String>)
    ensures
        views(r@) == candidate_names_spec(
            command@,
            os@,
            match pathext {
                Some(v) => Some(v@),
                None => None,
            },
        ),
{
    if !os_is_windows(os) || has_extension_exec(command) {
        let mut one: Vec<String> = Vec::new();
        one.push(owned(command));
        assert(views(one@) =~= seq![command@]);
        return one;
    }
    let exts = windows_executable_extensions(pathext);
    let mut names: Vec<String> = Vec::new();
    let mut i: usize = 0;
    while i < exts.len()
        invariant
            i <= exts.len(),
            views(names@) == views(exts@).subrange(0, i as int).map_values(
                |e: Seq<char>| command@ + e,
            ),
        decreases exts.len() - i,
    {
        let ghost old_names = names@;
        let name = concat2(command, exts[i].as_str());
        names.push(name);
        assert(views(names@) =~= views(old_names).push(name@));
        assert(views(exts@).subrange(0, i + 1).map_values(|e: Seq<char>| command@ + e) =~= views(
            exts@,
        ).subrange(0, i as int).map_values(|e: Seq<char>| command@ + e).push(command@ + exts@[i as int]@));
        i += 1;
    }
    assert(views(exts@).subrange(0, exts.len() as int) == views(exts@));
    let ghost before = names@;
    names.push(owned(command));
    assert(views(names@) =~= views(before).push(command@));
    dedup_strings_by_key(&names, true)
}

/// `s` without leading and trailing double quotes.
pub open spec fn trim_quotes(s: Seq<char>) -> Seq<char> {
    trim_end_quotes(trim_start_quotes(s))
}

pub open spec fn trim_start_quotes(s: Seq<char>) -> Seq<char>
    decreases s.len(),
{
    if s.len() > 0 && s[0] == '"' {
        trim_start_quotes(s.drop_first())
    } else {
        s
    }
}

pub open spec fn trim_end_quotes(s: Seq<char>) -> Seq<char>
    decreases s.len(),
{
    if s.len() > 0 && s.last() == '"' {
        trim_end_quotes(s.drop_last())
    } else {
        s
    }
}

proof fn lemma_trim_start_quotes(s: Seq<char>, i: int)
    requires
        0 <= i <= s.len(),
        forall|j: int| 0 <= j < i ==> s[j] == '"',
        i == s.len() || s[i] != '"',
    ensures
        trim_start_quotes(s) == s.subrange(i, s.len() as int),
    decreases i,
{
    if i > 0 {
        lemma_trim_start_quotes(s.drop_first(), i - 1);
        assert(s.drop_first().subrange(i - 1, s.drop_first().len() as int) =~= s.subrange(
            i,
            s.len() as int,
        ));
    } else {
        assert(s.subrange(0, s.len() as int) =~= s);
    }
}

proof fn lemma_trim_end_quotes(s: Seq<char>, e: int)
    requires
        0 <= e <= s.len(),
        forall|j: int| e <= j < s.len() ==> s[j] == '"',
        e == 0 || s[e - 1] != '"',
    ensures
        trim_end_quotes(s) == s.subrange(0, e),
    decreases s.len() - e,
{
    if e < s.len() {
        lemma_trim_end_quotes(s.drop_last(), e);
        assert(s.drop_last().subrange(0, e) =~= s.subrange(0, e));
    } else {
        assert(s.subrange(0, s.len() as int) =~= s);
    }
}

/// std's `trim_matches('"')`.
pub fn trim_quotes_exec(s: &str) -> (r: String)
    ensures
        r@ == trim_quotes(s@),
{
    let v = chars_of(s);
    let n = v.len();
    let mut i: usize = 0;
    while i < n && v[i] == '"'
        invariant
            n == v@.len(),
            i <= n,
            forall|j: int| 0 <= j < i ==> v@[j] == '"',
        decreases n - i,
    {
        i += 1;
    }
    proof {
        lemma_trim_start_quotes(v@, i as int);
    }
    let mut e: usize = n;
    while e > i && v[e - 1] == '"'
        invariant
            n == v@.len(),
            i <= e <= n,
            forall|j: int| e <= j < n ==> v@[j] == '"',
        decreases e,
    {
        e -= 1;
    }
    proof {
        let t = v@.subrange(i as int, n as int);
        lemma_trim_end_quotes(t, (e - i) as int);
        assert(t.subrange(0, (e - i) as int) =~= v@.subrange(i as int, e as int));
    }
    crate::text::string_from_range(&v, i, e)
}

/// The paths without surrounding quotes, the empty ones dropped and each kept
/// once (ignoring ASCII case on Windows).
pub open spec fn dedupe_paths_spec(paths: Seq<Seq<char>>, os: Seq<char>) -> Seq<Seq<char>> {
    crate::seqs::dedup_by(
        keep(paths.map_values(|p: Seq<char>| trim_quotes(p)), nonempty_pred()),
        key_fn(is_windows(os)),
    )
}

/// Search directories without quotes, empty entries and repeats.
pub fn dedupe_paths(paths: &Vec<String>, os: &str) -> (r: Vec<String>)
    ensures
        views(r@) == dedupe_paths_spec(views(paths@), os@),
{
    let ghost trimmed_all = views(paths@).map_values(|p: Seq<char>| trim_quotes(p));
    let mut kept: Vec<String> = Vec::new();
    let mut i: usize = 0;
    while i < paths.len()
        invariant
            i <= paths.len(),
            trimmed_all == views(paths@).map_values(|p: Seq<char>| trim_quotes(p)),
            views(kept@) == keep(trimmed_all.subrange(0, i as int), nonempty_pred()),
        decreases paths.len() - i,
    {
        assert(trimmed_all.subrange(0, i + 1).drop_last() == trimmed_all.subrange(0, i as int));
        assert(trimmed_all.subrange(0, i + 1).last() == trim_quotes(paths@[i as int]@));
        let t = trim_quotes_exec(paths[i].as_str());
        if t.as_str().unicode_len() > 0 {
            let ghost old_kept = kept@;
            kept.push(t);
            assert(views(kept@) =~= views(old_kept).push(t@));
        }
        i += 1;
    }
    assert(trimmed_all.subrange(0, paths.len() as int) == trimmed_all);
    dedup_strings_by_key(&kept, os_is_windows(os))
}

/// A found command path, when it exists and (on Windows) is a real executable
/// and not the Store stub.
pub open spec fn valid_resolved_spec(path: Seq<char>, exists: bool, os: Seq<char>) -> Option<Seq<char>> {
    if !exists {
        None
    } else if is_windows(os) && (store_alias(path) || !executable_path(path)) {
        None
    } else {
        Some(path)
    }
}

/// The last component of a path is a suffix of it.
proof fn lemma_last_segment_suffix(s: Seq<char>)
    ensures
        last_segment(s).len() <= s.len(),
        s.subrange(s.len() - last_segment(s).len(), s.len() as int) == last_segment(s),
    decreases s.len(),
{
    if s.len() > 0 && !(s.last() == '\\' || s.last() == '/') {
        let t = s.drop_last();
        lemma_last_segment_suffix(t);
        assert(s.subrange(s.len() - last_segment(s).len(), s.len() as int) =~= t.subrange(
            t.len() - last_segment(t).len(),
            t.len() as int,
        ).push(s.last()));
    } else if s.len() > 0 {
        assert(s.subrange(s.len() as int, s.len() as int) =~= Seq::<char>::empty());
    }
}

/// A file whose name ends in `.exe` gives its path that ending.
proof fn lemma_exe_name_ends_path(l: Seq<char>)
    requires
        seq_ends_with(last_segment(l), ".exe"@),
    ensures
        seq_ends_with(l, ".exe"@),
{
    lemma_last_segment_suffix(l);
    let n = last_segment(l);
    reveal_strlit(".exe");
    assert(l.subrange(l.len() - 4, l.len() as int) =~= n.subrange(n.len() - 4, n.len() as int));
}

/// A resolved command path is the found path itself, and only when it
/// exists; on Windows it is never the Microsoft Store stub of Python and
/// always has an executable extension, whether or not the stub exists.
pub proof fn law_resolved_path_is_never_store_stub(path: Seq<char>, exists: bool, os: Seq<char>)
    ensures
        is_windows(os) && store_alias(path) ==> valid_resolved_spec(path, exists, os) is None,
        is_windows(os) && !executable_path(path) ==> valid_resolved_spec(path, exists, os) is None,
        !exists ==> valid_resolved_spec(path, exists, os) is None,
        valid_resolved_spec(path, exists, os) matches Some(p) ==> p == path,
        exists && !is_windows(os) ==> valid_resolved_spec(path, exists, os) == Some(path),
        exists && is_windows(os) && !store_alias(path) && executable_path(path)
            ==> valid_resolved_spec(path, exists, os) == Some(path),
        is_windows(os) && seq_contains(lower_seq(path), "\\windowsapps\\"@) && ({
            let name = last_segment(lower_seq(path));
            name == "python.exe"@ || name == "python3.exe"@ || name == "pythonw.exe"@ || name
                == "python3w.exe"@
        }) ==> valid_resolved_spec(path, exists, os) is None,
{
    let l = lower_seq(path);
    let name = last_segment(l);
    if name == "python.exe"@ || name == "python3.exe"@ || name == "pythonw.exe"@ || name
        == "python3w.exe"@ {
        reveal_strlit("python.exe");
        reveal_strlit("python3.exe");
        reveal_strlit("pythonw.exe");
        reveal_strlit("python3w.exe");
        reveal_strlit(".exe");
        assert(name.subrange(name.len() - 4, name.len() as int) =~= ".exe"@);
        lemma_exe_name_ends_path(l);
    }
}

/// A found path, when it may be run.
pub fn valid_resolved_command_path(path: &str, exists: bool, os: &str) -> (r: Option<String>)
    ensures
        match valid_resolved_spec(path@, exists, os@) {
            Some(p) => r matches Some(s) && s@ == p,
            None => r is None,
        },
{
    if !exists {
        return None;
    }
    if os_is_windows(os) && (is_windows_store_alias(path) || !is_windows_executable_path(path)) {
        return None;
    }
    Some(owned(path))
}

/// The first path that a `which` or `where` lookup printed that is usable:
/// not the Store stub, and on Windows an executable.
pub open spec fn fallback_pred(os: Seq<char>) -> spec_fn(String) -> bool {
    |p: String| !store_alias(p@) && (!is_windows(os) || executable_path(p@))
}

/// The first usable path that the system lookup printed.
pub fn fallback_command_path(paths: &Vec<String>, os: &str) -> (r: Option<String>)
    ensures
        find_first(paths@, fallback_pred(os@)) < 0 ==> r is None,
        find_first(paths@, fallback_pred(os@)) >= 0 ==> r == Some(
            paths@[find_first(paths@, fallback_pred(os@))],
        ),
{
    let windows = os_is_windows(os);
    let mut i: usize = 0;
    while i < paths.len()
        invariant
            i <= paths.len(),
            windows == is_windows(os@),
            find_first(paths@, fallback_pred(os@)) == find_from(paths@, fallback_pred(os@), i as int),
        decreases paths.len() - i,
    {
        let p = paths[i].as_str();
        if !is_windows_store_alias(p) && (!windows || is_windows_executable_path(p)) {
            return Some(paths[i].clone());
        }
        i += 1;
    }
    None
}

pub open spec fn trimmed_lines(s: Seq<char>) -> Seq<Seq<char>> {
    keep(split_by(s, is_char('\n')).map_values(|l: Seq<char>| trim_seq(l)), nonempty_pred())
}

/// The non-blank lines of a lookup's output, trimmed.
pub fn lookup_output_paths(stdout: &str) -> (r: Vec<String>)
    ensures
        views(r@) == trimmed_lines(stdout@),
{
    let lines = split_char(stdout, '\n');
    let ghost all = views(lines@).map_values(|l: Seq<char>| trim_seq(l));
    let mut out: Vec<String> = Vec::new();
    let mut i: usize = 0;
    while i < lines.len()
        invariant
            i <= lines.len(),
            all == views(lines@).map_values(|l: Seq<char>| trim_seq(l)),
            views(out@) == keep(all.subrange(0, i as int), nonempty_pred()),
        decreases lines.len() - i,
    {
        assert(all.subrange(0, i + 1).drop_last() == all.subrange(0, i as int));
        assert(all.subrange(0, i + 1).last() == trim_seq(lines@[i as int]@));
        let t = trim(lines[i].as_str());
        if t.as_str().unicode_len() > 0 {
            let ghost old_out = out@;
            out.push(t);
            assert(views(out@) =~= views(old_out).push(t@));
        }
        i += 1;
    }
    assert(all.subrange(0, lines.len() as int) == all);
    out
}


// ---------------------------------------------------------------------------
// Search paths
// ---------------------------------------------------------------------------

/// std's `env::split_paths` on Windows: entries separated by `;`, where double
/// quotes (dropped from the result) protect the `;` between them. Also gives
/// whether a quote is open at the end.
pub open spec fn win_split_state(s: Seq<char>) -> (Seq<Seq<char>>, bool)
    decreases s.len(),
{
    if s.len() == 0 {
        (seq![Seq::empty()], false)
    } else {
        let (parts, q) = win_split_state(s.drop_last());
        let c = s.last();
        if c == '"' {
            (parts, !q)
        } else if c == ';' && !q {
            (parts.push(Seq::empty()), q)
        } else {
            (parts.update(parts.len() - 1, parts.last().push(c)), q)
        }
    }
}

proof fn lemma_win_split_nonempty(s: Seq<char>)
    ensures
        win_split_state(s).0.len() >= 1,
    decreases s.len(),
{
    if s.len() > 0 {
        lemma_win_split_nonempty(s.drop_last());
    }
}

/// The entries of a `PATH`-like value (std's `env::split_paths`).
pub open spec fn split_paths_spec(value: Seq<char>, os: Seq<char>) -> Seq<Seq<char>> {
    if is_windows(os) {
        win_split_state(value).0
    } else {
        split_by(value, is_char(':'))
    }
}

/// The entries of a `PATH`-style value.
pub fn split_paths(value: &str, os: &str) -> (r: Vec<String>)
    ensures
        views(r@) == split_paths_spec(value@, os@),
{
    if !os_is_windows(os) {
        return split_char(value, ':');
    }
    let v = chars_of(value);
    let mut parts: Vec<String> = Vec::new();
    let mut cur: Vec<char> = Vec::new();
    let mut in_quote = false;
    let mut i: usize = 0;
    while i < v.len()
        invariant
            i <= v.len(),
            v@ == value@,
            views(parts@).push(cur@) == win_split_state(v@.subrange(0, i as int)).0,
            in_quote == win_split_state(v@.subrange(0, i as int)).1,
        decreases v.len() - i,
    {
        let ghost pre = v@.subrange(0, i as int);
        let ghost next = v@.subrange(0, i + 1);
        assert(next.drop_last() == pre);
        assert(next.last() == v@[i as int]);
        let c = v[i];
        if c == '"' {
            in_quote = !in_quote;
        } else if c == ';' && !in_quote {
            let piece = string_from_chars(&cur);
            let ghost old_parts = parts@;
            parts.push(piece);
            cur = Vec::new();
            assert(views(parts@) =~= views(old_parts).push(piece@));
        } else {
            let ghost old_cur = cur@;
            cur.push(c);
            let ghost st = win_split_state(pre).0;
            assert(views(parts@).push(cur@) =~= st.update(st.len() - 1, st.last().push(c)));
        }
        i += 1;
    }
    assert(v@.subrange(0, v.len() as int) == v@);
    let piece = string_from_chars(&cur);
    let ghost old_parts = parts@;
    parts.push(piece);
    assert(views(parts@) =~= views(old_parts).push(piece@));
    parts
}

/// Appends the entries of a `PATH`-like value to `out`.
fn extend_split(out: &mut Vec<String>, value: &str, os: &str)
    ensures
        views(final(out)@) == views(old(out)@) + split_paths_spec(value@, os@),
{
    let pieces = split_paths(value, os);
    let ghost before = out@;
    crate::catalog::extend_strings(out, &pieces);
    assert(views(out@) =~= views(before) + views(pieces@));
}

/// The directories searched for commands: those of `PATH`, then on Windows
/// those of the registry's `Path` values and the usual install directories;
/// without quotes, empty entries and repeats.
pub open spec fn search_paths_spec(
    path_env: Option<Seq<char>>,
    os: Seq<char>,
    registry_values: Seq<Seq<char>>,
    common_paths: Seq<Seq<char>>,
) -> Seq<Seq<char>> {
    let from_env = match path_env {
        Some(v) => split_paths_spec(v, os),
        None => Seq::empty(),
    };
    let all = if is_windows(os) {
        from_env + crate::seqs::flatten(
            registry_values.map_values(|v: Seq<char>| split_paths_spec(v, os)),
        ) + common_paths
    } else {
        from_env
    };
    dedupe_paths_spec(all, os)
}

/// The command search never lists a directory twice: no two of its entries
/// are equal (ignoring ASCII case on Windows).
pub proof fn law_search_paths_unique(
    path_env: Option<Seq<char>>,
    os: Seq<char>,
    registry_values: Seq<Seq<char>>,
    common_paths: Seq<Seq<char>>,
)
    ensures
        ({
            let r = search_paths_spec(path_env, os, registry_values, common_paths);
            forall|i: int, j: int|
                0 <= i < j < r.len() ==> key_fn(is_windows(os))(#[trigger] r[i]) != key_fn(
                    is_windows(os),
                )(#[trigger] r[j])
        }),
{
    let from_env = match path_env {
        Some(v) => split_paths_spec(v, os),
        None => Seq::empty(),
    };
    let all = if is_windows(os) {
        from_env + crate::seqs::flatten(
            registry_values.map_values(|v: Seq<char>| split_paths_spec(v, os)),
        ) + common_paths
    } else {
        from_env
    };
    crate::seqs::lemma_dedup_by_unique(
        keep(all.map_values(|p: Seq<char>| trim_quotes(p)), nonempty_pred()),
        key_fn(is_windows(os)),
    );
}

/// The directories searched for commands.
pub fn command_search_paths(
    path_env: Option<&str>,
    os: &str,
    registry_values: &Vec<String>,
    common_paths: &Vec<String>,
) -> (r: Vec<String>)
    ensures
        views(r@) == search_paths_spec(
            match path_env {
                Some(v) => Some(v@),
                None => None,
            },
            os@,
            views(registry_values@),
            views(common_paths@),
        ),
{
    let mut all: Vec<String> = Vec::new();
    match path_env {
        Some(v) => extend_split(&mut all, v, os),
        None => {},
    }
    let ghost from_env = views(all@);
    if os_is_windows(os) {
        let ghost lists = views(registry_values@).map_values(
            |v: Seq<char>| split_paths_spec(v, os@),
        );
        let mut i: usize = 0;
        while i < registry_values.len()
            invariant
                i <= registry_values.len(),
                lists == views(registry_values@).map_values(
                    |v: Seq<char>| split_paths_spec(v, os@),
                ),
                views(all@) == from_env + crate::seqs::flatten(lists.subrange(0, i as int)),
            decreases registry_values.len() - i,
        {
            assert(lists.subrange(0, i + 1).drop_last() == lists.subrange(0, i as int));
            assert(lists.subrange(0, i + 1).last() == split_paths_spec(
                registry_values@[i as int]@,
                os@,
            ));
            extend_split(&mut all, registry_values[i].as_str(), os);
            i += 1;
        }
        assert(lists.subrange(0, registry_values.len() as int) == lists);
        let ghost before = all@;
        crate::catalog::extend_strings(&mut all, common_paths);
        assert(views(all@) =~= views(before) + views(common_paths@));
    }
    dedupe_paths(&all, os)
}

/// How a command is to be found.
#[derive(Debug, Clone, PartialEq, Eq)]
pub enum ResolvePlan {
    /// The command is blank: nothing to find.
    NotFound,
    /// The command names a path: check that one.
    CheckPath(String),
    /// Check these paths in order; if none is valid, ask the system lookup.
    Search(Vec<String>),
}

/// Every directory joined with every candidate name, directory by directory.
pub open spec fn search_candidates_spec(
    dirs: Seq<Seq<char>>,
    names: Seq<Seq<char>>,
    os: Seq<char>,
) -> Seq<Seq<char>> {
    crate::seqs::flatten(
        dirs.map_values(|d: Seq<char>| names.map_values(|n: Seq<char>| join_spec(d, n, os))),
    )
}

/// Resolves commands against a list of directories.
#[derive(Debug, Clone, PartialEq, Eq)]
pub struct CommandResolver {
    pub search_paths: Vec<String>,
}

impl CommandResolver {
    /// A resolver over the search paths that the environment gives.
    pub fn new(
        path_env: Option<&str>,
        os: &str,
        registry_values: &Vec<String>,
        common_paths: &Vec<String>,
    ) -> (r: CommandResolver)
        ensures
            views(r.search_paths@) == search_paths_spec(
                match path_env {
                    Some(v) => Some(v@),
                    None => None,
                },
                os@,
                views(registry_values@),
                views(common_paths@),
            ),
    {
        CommandResolver {
            search_paths: command_search_paths(path_env, os, registry_values, common_paths),
        }
    }

    /// A resolver over given directories.
    pub fn from_search_paths(search_paths: Vec<String>) -> (r: CommandResolver)
        ensures
            r.search_paths@ == search_paths@,
    {
        CommandResolver { search_paths }
    }

    /// How to find `command`: nothing for a blank command, the trimmed command
    /// itself when it holds a separator, otherwise each search directory joined
    /// with each candidate name.
    pub fn resolve(&self, command: &str, os: &str, pathext: Option<&str>) -> (r: ResolvePlan)
        ensures
            ({
                let t = trim_seq(command@);
                &&& t.len() == 0 ==> r is NotFound
                &&& (t.len() > 0 && (has_char(t, '\\') || has_char(t, '/'))) ==> (r matches ResolvePlan::CheckPath(p) && p@ == t)
                &&& (t.len() > 0 && !(has_char(t, '\\') || has_char(t, '/'))) ==> (r matches ResolvePlan::Search(c) && views(c@)
                    == search_candidates_spec(
                    views(self.search_paths@),
                    candidate_names_spec(
                        t,
                        os@,
                        match pathext {
                            Some(v) => Some(v@),
                            None => None,
                        },
                    ),
                    os@,
                ))
            }),
    {
        let trimmed = trim(command);
        let t = trimmed.as_str();
        if t.unicode_len() == 0 {
            return ResolvePlan::NotFound;
        }
        if command_has_path_separator(t) {
            return ResolvePlan::CheckPath(owned(t));
        }
        ResolvePlan::Search(resolve_command_path_in_dirs(t, &self.search_paths, os, pathext))
    }
}

/// The paths to check, in order, for a bare command.
pub fn resolve_command_path_in_dirs(
    command: &str,
    search_paths: &Vec<String>,
    os: &str,
    pathext: Option<&str>,
) -> (r: Vec<String>)
    ensures
        views(r@) == search_candidates_spec(
            views(search_paths@),
            candidate_names_spec(
                command@,
                os@,
                match pathext {
                    Some(v) => Some(v@),
                    None => None,
                },
            ),
            os@,
        ),
{
    let names = command_candidate_names(command, os, pathext);
    let ghost nv = views(names@);
    let ghost lists = views(search_paths@).map_values(
        |d: Seq<char>| nv.map_values(|n: Seq<char>| join_spec(d, n, os@)),
    );
    let mut out: Vec<String> = Vec::new();
    let mut i: usize = 0;
    while i < search_paths.len()
        invariant
            i <= search_paths.len(),
            nv == views(names@),
            lists == views(search_paths@).map_values(
                |d: Seq<char>| nv.map_values(|n: Seq<char>| join_spec(d, n, os@)),
            ),
            views(out@) == crate::seqs::flatten(lists.subrange(0, i as int)),
        decreases search_paths.len() - i,
    {
        assert(lists.subrange(0, i + 1).drop_last() == lists.subrange(0, i as int));
        let dir = search_paths[i].as_str();
        let ghost d = search_paths@[i as int]@;
        let ghost before = views(out@);
        let mut k: usize = 0;
        while k < names.len()
            invariant
                k <= names.len(),
                nv == views(names@),
                d == dir@,
                views(out@) == before + nv.subrange(0, k as int).map_values(
                    |n: Seq<char>| join_spec(d, n, os@),
                ),
            decreases names.len() - k,
        {
            let joined = join_path(dir, names[k].as_str(), os);
            let ghost old_out = views(out@);
            out.push(joined);
            assert(views(out@) =~= old_out.push(joined@));
            assert(nv.subrange(0, k + 1).map_values(|n: Seq<char>| join_spec(d, n, os@)) =~= nv.subrange(
                0,
                k as int,
            ).map_values(|n: Seq<char>| join_spec(d, n, os@)).push(join_spec(d, nv[k as int], os@)));
            k += 1;
        }
        assert(nv.subrange(0, names.len() as int) == nv);
        assert(lists.subrange(0, i + 1).last() == nv.map_values(
            |n: Seq<char>| join_spec(d, n, os@),
        ));
        i += 1;
    }
    assert(lists.subrange(0, search_paths.len() as int) == lists);
    out
}

} // verus!
