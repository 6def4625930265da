use vstd::prelude::*;

use crate::environment::{to_lowercase, unicode_lowercase};
use crate::paths::{dedupe_paths, dedupe_paths_spec, join_path, join_spec};
use crate::seqs::find_from;
use crate::text::{
    chars_of, eq_ignore_ascii_case, is_char, join, join_seq, lower_seq, owned, push_char,
    seq_starts_with, split_by, split_char, split_whitespace, starts_with, str_eq, string_from_range, trim,
    trim_seq, views, words,
};

verus! {

// ---------------------------------------------------------------------------
// Windows install directories
// ---------------------------------------------------------------------------

/// A Windows path join.
pub open spec fn wjoin(base: Seq<char>, part: Seq<char>) -> Seq<char> {
    join_spec(base, part, "windows"@)
}

fn wj(base: &str, part: &str) -> (r: String)
    ensures
        r@ == wjoin(base@, part@),
{
    join_path(base, part, "windows")
}

fn push_path(v: &mut Vec<String>, s: String)
    ensures
        views(final(v)@) == views(old(v)@).push(s@),
{
    let ghost before = v@;
    v.push(s);
    assert(views(v@) =~= views(before).push(s@));
}

/// The `Common7\IDE` directory of a Visual Studio 2022 edition.
pub open spec fn vs_ide_dir(program_files: Seq<char>, edition: Seq<char>) -> Seq<char> {
    wjoin(
        wjoin(
            wjoin(wjoin(wjoin(program_files, "Microsoft Visual Studio"@), "2022"@), edition),
            "Common7"@,
        ),
        "IDE"@,
    )
}

/// The directories where Windows developer tools usually install their
/// launchers, in the order they are searched.
pub open spec fn common_command_dirs(
    home: Seq<char>,
    local_app_data: Seq<char>,
    app_data: Seq<char>,
    program_files: Seq<char>,
    program_files_x86: Seq<char>,
    program_data: Seq<char>,
    system_root: Seq<char>,
) -> Seq<Seq<char>> {
    let sys32 = wjoin(system_root, "System32"@);
    let programs = wjoin(local_app_data, "Programs"@);
    let pf = program_files;
    seq![
        sys32,
        system_root,
        wjoin(sys32, "Wbem"@),
        wjoin(wjoin(sys32, "WindowsPowerShell"@), "v1.0"@),
        wjoin(wjoin(local_app_data, "Microsoft"@), "WindowsApps"@),
        wjoin(wjoin(programs, "Python"@), "Launcher"@),
        wjoin(wjoin(programs, "Microsoft VS Code"@), "bin"@),
        wjoin(wjoin(programs, "Git"@), "cmd"@),
        wjoin(wjoin(programs, "Git"@), "bin"@),
        wjoin(app_data, "npm"@),
        wjoin(wjoin(home, ".cargo"@), "bin"@),
        wjoin(wjoin(home, "go"@), "bin"@),
        wjoin(wjoin(home, ".deno"@), "bin"@),
        wjoin(wjoin(home, ".bun"@), "bin"@),
        wjoin(wjoin(pf, "Git"@), "cmd"@),
        wjoin(wjoin(pf, "Git"@), "bin"@),
        wjoin(pf, "nodejs"@),
        wjoin(wjoin(pf, "Go"@), "bin"@),
        wjoin(pf, "GitHub CLI"@),
        wjoin(wjoin(wjoin(wjoin(pf, "Docker"@), "Docker"@), "resources"@), "bin"@),
        wjoin(wjoin(pf, "PowerShell"@), "7"@),
        wjoin(wjoin(pf, "Microsoft VS Code"@), "bin"@),
        vs_ide_dir(pf, "Community"@),
        vs_ide_dir(pf, "BuildTools"@),
        vs_ide_dir(program_files_x86, "Community"@),
        vs_ide_dir(program_files_x86, "BuildTools"@),
        wjoin(wjoin(program_data, "chocolatey"@), "bin"@),
    ]
}

fn vs_ide(program_files: &str, edition: &str) -> (r: String)
    ensures
        r@ == vs_ide_dir(program_files@, edition@),
{
    let a = wj(program_files, "Microsoft Visual Studio");
    let b = wj(a.as_str(), "2022");
    let c = wj(b.as_str(), edition);
    let d = wj(c.as_str(), "Common7");
    wj(d.as_str(), "IDE")
}

fn wj2(base: &str, a: &str, b: &str) -> (r: String)
    ensures
        r@ == wjoin(wjoin(base@, a@), b@),
{
    let first = wj(base, a);
    wj(first.as_str(), b)
}

/// The usual Windows command directories for the given locations, without
/// quotes, empty entries and repeats (ignoring ASCII case).
pub fn windows_common_command_paths_for(
    home: &str,
    local_app_data: &str,
    app_data: &str,
    program_files: &str,
    program_files_x86: &str,
    program_data: &str,
    system_root: &str,
) -> (r: Vec<String>)
    ensures
        views(r@) == dedupe_paths_spec(
            common_command_dirs(
                home@,
                local_app_data@,
                app_data@,
                program_files@,
                program_files_x86@,
                program_data@,
                system_root@,
            ),
            "windows"@,
        ),
{
    let sys32 = wj(system_root, "System32");
    let programs = wj(local_app_data, "Programs");
    let pf = program_files;
    let mut v: Vec<String> = Vec::new();
    push_path(&mut v, sys32.clone());
    push_path(&mut v, owned(system_root));
    push_path(&mut v, wj(sys32.as_str(), "Wbem"));
    push_path(&mut v, wj2(sys32.as_str(), "WindowsPowerShell", "v1.0"));
    push_path(&mut v, wj2(local_app_data, "Microsoft", "WindowsApps"));
    push_path(&mut v, wj2(programs.as_str(), "Python", "Launcher"));
    push_path(&mut v, wj2(programs.as_str(), "Microsoft VS Code", "bin"));
    push_path(&mut v, wj2(programs.as_str(), "Git", "cmd"));
    push_path(&mut v, wj2(programs.as_str(), "Git", "bin"));
    push_path(&mut v, wj(app_data, "npm"));
    push_path(&mut v, wj2(home, ".cargo", "bin"));
    push_path(&mut v, wj2(home, "go", "bin"));
    push_path(&mut v, wj2(home, ".deno", "bin"));
    push_path(&mut v, wj2(home, ".bun", "bin"));
    push_path(&mut v, wj2(pf, "Git", "cmd"));
    push_path(&mut v, wj2(pf, "Git", "bin"));
    push_path(&mut v, wj(pf, "nodejs"));
    push_path(&mut v, wj2(pf, "Go", "bin"));
    push_path(&mut v, wj(pf, "GitHub CLI"));
    let docker = wj2(pf, "Docker", "Docker");
    push_path(&mut v, wj2(docker.as_str(), "resources", "bin"));
    push_path(&mut v, wj2(pf, "PowerShell", "7"));
    push_path(&mut v, wj2(pf, "Microsoft VS Code", "bin"));
    push_path(&mut v, vs_ide(pf, "Community"));
    push_path(&mut v, vs_ide(pf, "BuildTools"));
    push_path(&mut v, vs_ide(program_files_x86, "Community"));
    push_path(&mut v, vs_ide(program_files_x86, "BuildTools"));
    push_path(&mut v, wj2(program_data, "chocolatey", "bin"));
    assert(views(v@) == common_command_dirs(
        home@,
        local_app_data@,
        app_data@,
        program_files@,
        program_files_x86@,
        program_data@,
        system_root@,
    ));
    dedupe_paths(&v, "windows")
}

/// `<system root>\System32\<name>`.
pub fn windows_system32_executable(system_root: &str, name: &str) -> (r: String)
    ensures
        r@ == wjoin(wjoin(system_root@, "System32"@), name@),
{
    wj2(system_root, "System32", name)
}

/// `cmd.exe` under System32 when that file exists, else the bare name for
/// the system to look up.
pub fn windows_cmd_executable(system_root: &str, system_copy_exists: bool) -> (r: String)
    ensures
        system_copy_exists ==> r@ == wjoin(wjoin(system_root@, "System32"@), "cmd.exe"@),
        !system_copy_exists ==> r@ == "cmd.exe"@,
{
    if system_copy_exists {
        windows_system32_executable(system_root, "cmd.exe")
    } else {
        owned("cmd.exe")
    }
}

/// The Windows PowerShell path under the system root.
pub open spec fn system_powershell_path(system_root: Seq<char>) -> Seq<char> {
    wjoin(
        wjoin(wjoin(wjoin(system_root, "System32"@), "WindowsPowerShell"@), "v1.0"@),
        "powershell.exe"@,
    )
}

/// Windows PowerShell under the system root when that file exists, else the
/// bare name for the system to look up.
pub fn windows_powershell_executable(system_root: &str, system_copy_exists: bool) -> (r: String)
    ensures
        system_copy_exists ==> r@ == system_powershell_path(system_root@),
        !system_copy_exists ==> r@ == "powershell.exe"@,
{
    if system_copy_exists {
        let a = wj2(system_root, "System32", "WindowsPowerShell");
        wj2(a.as_str(), "v1.0", "powershell.exe")
    } else {
        owned("powershell.exe")
    }
}

// ---------------------------------------------------------------------------
// Files under the home directory
// ---------------------------------------------------------------------------

/// The directory that holds this application's own files.
pub open spec fn app_dir(home: Seq<char>, os: Seq<char>) -> Seq<char> {
    join_spec(home, ".devenv-manager"@, os)
}

/// Where moved-away entries are kept; an error without a home directory.
pub fn quarantine_dir(home: Option<&str>, os: &str) -> (r: Result<String, String>)
    ensures
        home is None ==> (r matches Err(e) && e@ == "Unable to resolve home directory"@),
        home matches Some(h) ==> (r matches Ok(p) && p@ == join_spec(
            app_dir(h@, os@),
            "quarantine"@,
            os@,
        )),
{
    match home {
        None => Err(owned("Unable to resolve home directory")),
        Some(h) => {
            let base = join_path(h, ".devenv-manager", os);
            Ok(join_path(base.as_str(), "quarantine", os))
        },
    }
}

/// The home directory, or `.` without one.
pub open spec fn home_or_dot(home: Option<&str>) -> Seq<char> {
    match home {
        Some(h) => h@,
        None => "."@,
    }
}

/// The file that lists the moved-away entries.
pub fn quarantine_manifest(home: Option<&str>, os: &str) -> (r: String)
    ensures
        r@ == join_spec(app_dir(home_or_dot(home), os@), "quarantine.json"@, os@),
{
    let base = match home {
        Some(h) => h,
        None => ".",
    };
    let dir = join_path(base, ".devenv-manager", os);
    join_path(dir.as_str(), "quarantine.json", os)
}

/// The file that holds the audit log.
pub fn audit_log_path(home: Option<&str>, os: &str) -> (r: String)
    ensures
        r@ == join_spec(app_dir(home_or_dot(home), os@), "audit-log.json"@, os@),
{
    let base = match home {
        Some(h) => h,
        None => ".",
    };
    let dir = join_path(base, ".devenv-manager", os);
    join_path(dir.as_str(), "audit-log.json", os)
}

/// The desktop when it exists, else the home directory; nothing without a
/// home directory.
pub fn desktop_dir(home: Option<&str>, desktop_exists: bool, os: &str) -> (r: Option<String>)
    ensures
        home is None ==> r is None,
        home matches Some(h) ==> (r matches Some(p) && p@ == (if desktop_exists {
            join_spec(h@, "Desktop"@, os@)
        } else {
            h@
        })),
{
    match home {
        None => None,
        Some(h) => {
            if desktop_exists {
                Some(join_path(h, "Desktop", os))
            } else {
                Some(owned(h))
            }
        },
    }
}

// ---------------------------------------------------------------------------
// Scan roots
// ---------------------------------------------------------------------------

/// A root as typed: trimmed, and a bare drive such as `D:` completed to `D:\`.
pub open spec fn root_text_spec(value: Seq<char>) -> Seq<char> {
    let t = trim_seq(value);
    if t.len() == 2 && t[0] <= '\u{7f}' && t[1] == ':' {
        t.push('\\')
    } else {
        t
    }
}

/// A root as typed, completed to a drive root where needed.
pub fn normalize_root_text(value: &str) -> (r: String)
    ensures
        r@ == root_text_spec(value@),
{
    let mut t = trim(value);
    let n = t.as_str().unicode_len();
    if n == 2 && t.as_str().get_char(0) <= '\u{7f}' && t.as_str().get_char(1) == ':' {
        push_char(&mut t, '\\');
    }
    t
}

/// A scan root: the completed text when that path exists, else an error.
pub fn normalize_root(value: &str, exists: bool) -> (r: Result<String, String>)
    ensures
        exists ==> (r matches Ok(p) && p@ == root_text_spec(value@)),
        !exists ==> (r matches Err(e) && e@ == "Drive does not exist"@),
{
    if !exists {
        return Err(owned("Drive does not exist"));
    }
    Ok(normalize_root_text(value))
}

/// The drive letters a Windows machine may have.
pub open spec fn drive_letters() -> Seq<char> {
    "ABCDEFGHIJKLMNOPQRSTUVWXYZ"@
}

/// The root of a drive, such as `C:\`.
pub open spec fn drive_root(letter: char) -> Seq<char> {
    seq![letter, ':', '\\']
}

/// The items whose flag is set; an item without a flag is left out.
pub open spec fn keep_flagged(s: Seq<Seq<char>>, flags: Seq<bool>) -> Seq<Seq<char>>
    decreases s.len(),
{
    if s.len() == 0 {
        Seq::empty()
    } else {
        let prev = keep_flagged(s.drop_last(), flags);
        let i = s.len() - 1;
        if i < flags.len() && flags[i] {
            prev.push(s.last())
        } else {
            prev
        }
    }
}

/// The roots a drive scan may choose: on Windows the drives whose root
/// exists (`exists[i]` for the i-th letter), elsewhere `/`.
pub open spec fn available_roots_spec(os: Seq<char>, exists: Seq<bool>) -> Seq<Seq<char>> {
    if crate::update::is_windows(os) {
        keep_flagged(drive_letters().map_values(|c: char| drive_root(c)), exists)
    } else {
        seq!["/"@]
    }
}

/// The roots a full scan covers.
pub fn available_roots(os: &str, exists: &Vec<bool>) -> (r: Vec<String>)
    ensures
        views(r@) == available_roots_spec(os@, exists@),
{
    let mut out: Vec<String> = Vec::new();
    if !crate::update::os_is_windows(os) {
        push_path(&mut out, owned("/"));
        return out;
    }
    let letters = chars_of("ABCDEFGHIJKLMNOPQRSTUVWXYZ");
    let ghost roots = drive_letters().map_values(|c: char| drive_root(c));
    let mut i: usize = 0;
    while i < letters.len()
        invariant
            i <= letters.len(),
            letters@ == drive_letters(),
            roots == drive_letters().map_values(|c: char| drive_root(c)),
            views(out@) == keep_flagged(roots.subrange(0, i as int), exists@),
        decreases letters.len() - i,
    {
        assert(roots.subrange(0, i + 1).drop_last() == roots.subrange(0, i as int));
        if i < exists.len() && exists[i] {
            let mut root = String::new();
            push_char(&mut root, letters[i]);
            push_char(&mut root, ':');
            push_char(&mut root, '\\');
            assert(root@ =~= drive_root(letters@[i as int]));
            push_path(&mut out, root);
        }
        i += 1;
    }
    assert(roots.subrange(0, letters.len() as int) == roots);
    out
}

// ---------------------------------------------------------------------------
// Environment variables in registry values
// ---------------------------------------------------------------------------

/// The value of the first variable whose name matches, ignoring case: the
/// two names are compared by their Unicode lower case. Windows compares
/// variable names through its own upper-case table, which can differ from
/// this on a few letters (the Kelvin sign, for one); this rule is not
/// bound to that table.
pub open spec fn env_lookup(vars: Seq<(String, String)>, name: Seq<char>) -> Option<Seq<char>>
    decreases vars.len(),
{
    if vars.len() == 0 {
        None
    } else if unicode_lowercase(vars[0].0@) == unicode_lowercase(name) {
        Some(vars[0].1@)
    } else {
        env_lookup(vars.drop_first(), name)
    }
}

/// What `%name%` expands to: the variable's value, or the text unchanged.
pub open spec fn env_replacement(vars: Seq<(String, String)>, name: Seq<char>) -> Seq<char> {
    match env_lookup(vars, name) {
        Some(v) => v,
        None => seq!['%'] + name + seq!['%'],
    }
}

/// `s[i..]` with each `%name%` expanded; an unpaired `%` and what follows it
/// stay as they are.
pub open spec fn expand_from(s: Seq<char>, i: int, vars: Seq<(String, String)>) -> Seq<char>
    decreases s.len() - i,
{
    if i < 0 || i >= s.len() {
        Seq::empty()
    } else if s[i] != '%' {
        seq![s[i]] + expand_from(s, i + 1, vars)
    } else {
        let e = find_from(s, is_char('%'), i + 1);
        if e < i + 1 || e >= s.len() {
            s.subrange(i, s.len() as int)
        } else {
            env_replacement(vars, s.subrange(i + 1, e)) + expand_from(s, e + 1, vars)
        }
    }
}

pub open spec fn expand_env_spec(s: Seq<char>, vars: Seq<(String, String)>) -> Seq<char> {
    expand_from(s, 0, vars)
}

/// The next `c` at or after `from`, or `v.len()` when there is none.
fn find_char_from(v: &Vec<char>, c: char, from: usize) -> (r: usize)
    requires
        from <= v.len(),
    ensures
        from <= r <= v.len(),
        r < v.len() ==> find_from(v@, is_char(c), from as int) == r,
        r == v.len() ==> find_from(v@, is_char(c), from as int) == -1,
{
    let mut j = from;
    while j < v.len() && v[j] != c
        invariant
            from <= j <= v.len(),
            find_from(v@, is_char(c), from as int) == find_from(v@, is_char(c), j as int),
        decreases v.len() - j,
    {
        j += 1;
    }
    j
}

fn lookup_var(vars: &Vec<(String, String)>, name: &str) -> (r: Option<String>)
    ensures
        r matches Some(v) ==> env_lookup(vars@, name@) == Some(v@),
        r is None ==> env_lookup(vars@, name@) is None,
{
    let wanted = to_lowercase(name);
    let mut i: usize = 0;
    assert(vars@.subrange(0, vars.len() as int) == vars@);
    while i < vars.len()
        invariant
            i <= vars.len(),
            wanted@ == unicode_lowercase(name@),
            env_lookup(vars@, name@) == env_lookup(vars@.subrange(i as int, vars.len() as int), name@),
        decreases vars.len() - i,
    {
        let ghost rest = vars@.subrange(i as int, vars.len() as int);
        assert(rest.drop_first() == vars@.subrange(i + 1, vars.len() as int));
        let lowered = to_lowercase(vars[i].0.as_str());
        if str_eq(lowered.as_str(), wanted.as_str()) {
            return Some(vars[i].1.clone());
        }
        i += 1;
    }
    None
}

/// Expands `%name%` references in a registry value from the given variables.
pub fn expand_windows_env_vars(value: &str, vars: &Vec<(String, String)>) -> (r: String)
    ensures
        r@ == expand_env_spec(value@, vars@),
{
    let v = chars_of(value);
    let n = v.len();
    let mut out = String::new();
    let mut i: usize = 0;
    while i < n
        invariant
            n == v.len(),
            v@ == value@,
            i <= n,
            expand_from(v@, 0, vars@) == out@ + expand_from(v@, i as int, vars@),
        decreases n - i,
    {
        if v[i] != '%' {
            let ghost before = out@;
            push_char(&mut out, v[i]);
            assert(out@ + expand_from(v@, i + 1, vars@) =~= before + (seq![v@[i as int]]
                + expand_from(v@, i + 1, vars@)));
            i += 1;
        } else {
            let e = find_char_from(&v, '%', i + 1);
            if e == n {
                let rest = string_from_range(&v, i, n);
                let ghost before = out@;
                out.append(rest.as_str());
                assert(out@ =~= before + expand_from(v@, i as int, vars@));
                return out;
            }
            let name = string_from_range(&v, i + 1, e);
            let ghost before = out@;
            match lookup_var(vars, name.as_str()) {
                Some(val) => {
                    out.append(val.as_str());
                },
                None => {
                    push_char(&mut out, '%');
                    out.append(name.as_str());
                    push_char(&mut out, '%');
                },
            }
            assert(out@ =~= before + env_replacement(vars@, name@));
            assert(before + expand_from(v@, i as int, vars@) =~= out@ + expand_from(
                v@,
                e + 1,
                vars@,
            ));
            i = e + 1;
        }
    }
    assert(expand_from(v@, n as int, vars@) == Seq::<char>::empty());
    assert(out@ =~= out@ + expand_from(v@, n as int, vars@));
    out
}


// ---------------------------------------------------------------------------
// Registry PATH values
// ---------------------------------------------------------------------------

/// The registry keys whose `Path` value extends the command search on
/// Windows: the user's environment, then the machine's.
pub fn windows_registry_path_keys() -> (r: Vec<String>)
    ensures
        views(r@) == seq![
            "HKCU\\Environment"@,
            "HKLM\\SYSTEM\\CurrentControlSet\\Control\\Session Manager\\Environment"@,
        ],
{
    let mut v: Vec<String> = Vec::new();
    push_path(&mut v, owned("HKCU\\Environment"));
    push_path(
        &mut v,
        owned("HKLM\\SYSTEM\\CurrentControlSet\\Control\\Session Manager\\Environment"),
    );
    v
}

/// The value on one line of `reg query` output: the line's words are the
/// value's name (ignoring ASCII case), a `REG_` type, and the data, whose
/// words are joined by single spaces.
pub open spec fn registry_line_value(line: Seq<char>, name: Seq<char>) -> Option<Seq<char>> {
    let w = words(line);
    if w.len() >= 3 && lower_seq(w[0]) == lower_seq(name) && seq_starts_with(w[1], "REG_"@) {
        Some(join_seq(w.skip(2), " "@))
    } else {
        None
    }
}

pub open spec fn registry_value_from(lines: Seq<Seq<char>>, name: Seq<char>) -> Option<Seq<char>>
    decreases lines.len(),
{
    if lines.len() == 0 {
        None
    } else {
        match registry_line_value(lines[0], name) {
            Some(v) => Some(v),
            None => registry_value_from(lines.drop_first(), name),
        }
    }
}

/// The value that a successful `reg query` printed first.
pub open spec fn registry_value_spec(success: bool, stdout: Seq<char>, name: Seq<char>) -> Option<
    Seq<char>,
> {
    if !success {
        None
    } else {
        registry_value_from(split_by(stdout, is_char('\n')), name)
    }
}

/// The value that `reg query` printed, if it succeeded.
pub fn parse_registry_query_output(success: bool, stdout: &str, value_name: &str) -> (r: Option<
    String,
>)
    ensures
        match registry_value_spec(success, stdout@, value_name@) {
            Some(v) => r matches Some(s) && s@ == v,
            None => r is None,
        },
{
    if !success {
        return None;
    }
    let lines = split_char(stdout, '\n');
    let ghost lv = views(lines@);
    let mut i: usize = 0;
    assert(lv.skip(0) == lv);
    while i < lines.len()
        invariant
            i <= lines@.len(),
            lv == views(lines@),
            lv == split_by(stdout@, is_char('\n')),
            success,
            registry_value_from(lv, value_name@) == registry_value_from(lv.skip(i as int), value_name@),
        decreases lines.len() - i,
    {
        assert(lv.skip(i as int).drop_first() == lv.skip(i + 1));
        assert(lv.skip(i as int)[0] == lines@[i as int]@);
        let w = split_whitespace(lines[i].as_str());
        if w.len() >= 3 && eq_ignore_ascii_case(w[0].as_str(), value_name) && starts_with(
            w[1].as_str(),
            "REG_",
        ) {
            let mut rest: Vec<String> = Vec::new();
            let mut k: usize = 2;
            while k < w.len()
                invariant
                    2 <= k <= w@.len(),
                    views(rest@) == views(w@).subrange(2, k as int),
                decreases w.len() - k,
            {
                let ghost before = views(rest@);
                rest.push(w[k].clone());
                assert(views(rest@) =~= before.push(w@[k as int]@));
                assert(views(w@).subrange(2, k + 1) =~= views(w@).subrange(2, k as int).push(
                    w@[k as int]@,
                ));
                k += 1;
            }
            assert(views(w@).subrange(2, w.len() as int) == views(w@).skip(2));
            assert(views(w@)[0] == w@[0]@ && views(w@)[1] == w@[1]@);
            assert(registry_line_value(lines@[i as int]@, value_name@) == Some(
                join_seq(views(w@).skip(2), " "@),
            ));
            assert(registry_value_from(lv.skip(i as int), value_name@) == Some(
                join_seq(views(w@).skip(2), " "@),
            ));
            assert(lv == split_by(stdout@, is_char('\n')));
            let joined = join(&rest, " ");
            return Some(joined);
        }
        i += 1;
    }
    None
}

/// The registry `Path` values that were read (`None` for a key that gave
/// none), each with its `%name%` references expanded; none off Windows.
pub open spec fn registry_path_values_spec(
    os: Seq<char>,
    queried: Seq<Option<String>>,
    vars: Seq<(String, String)>,
) -> Seq<Seq<char>>
    decreases queried.len(),
{
    if !crate::update::is_windows(os) || queried.len() == 0 {
        Seq::empty()
    } else {
        let prev = registry_path_values_spec(os, queried.drop_last(), vars);
        match queried.last() {
            Some(v) => prev.push(expand_env_spec(v@, vars)),
            None => prev,
        }
    }
}

/// The registry `Path` values with their variables expanded.
pub fn windows_registry_path_values(
    os: &str,
    queried: &Vec<Option<String>>,
    vars: &Vec<(String, String)>,
) -> (r: Vec<String>)
    ensures
        views(r@) == registry_path_values_spec(os@, queried@, vars@),
{
    let mut out: Vec<String> = Vec::new();
    if !crate::update::os_is_windows(os) {
        return out;
    }
    let mut i: usize = 0;
    while i < queried.len()
        invariant
            i <= queried@.len(),
            crate::update::is_windows(os@),
            views(out@) == registry_path_values_spec(os@, queried@.take(i as int), vars@),
        decreases queried.len() - i,
    {
        assert(queried@.take(i + 1).drop_last() == queried@.take(i as int));
        assert(queried@.take(i + 1).last() == queried@[i as int]);
        match &queried[i] {
            Some(v) => {
                push_path(&mut out, expand_windows_env_vars(v.as_str(), vars));
            },
            None => {},
        }
        i += 1;
    }
    assert(queried@.take(queried.len() as int) == queried@);
    out
}

} // verus!
