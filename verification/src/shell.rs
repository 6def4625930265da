use vstd::prelude::*;

use crate::paths::{batch_path, command_has_path_separator, is_windows_batch_path, is_windows_powershell_script_path};
use crate::text::{
    concat2, concat3, has_char, is_alnum, join, join_seq, owned, replace_all, replace_seq,
    seq_ends_with, seq_starts_with, starts_with, trim, trim_seq, views, lower_seq,
};
use crate::update::{is_macos, is_windows, os_is_macos, os_is_windows};

verus! {

// ---------------------------------------------------------------------------
// Quoting
// ---------------------------------------------------------------------------

/// A character that a shell word may hold without quotes.
pub open spec fn shell_safe(c: char) -> bool {
    is_alnum(c) || c == '.' || c == '-' || c == '_' || c == ':' || c == '/' || c == '\\'
}

/// A word as it is shown in a command line: as it is when every character
/// is safe, else in double quotes with inner double quotes escaped.
pub open spec fn shell_word(part: Seq<char>) -> Seq<char> {
    if forall|i: int| 0 <= i < part.len() ==> shell_safe(#[trigger] part[i]) {
        part
    } else {
        seq!['"'] + replace_seq(part, "\""@, "\\\""@) + seq!['"']
    }
}

/// The words of a command, each quoted as needed, separated by spaces.
pub open spec fn shell_join_spec(command: Seq<Seq<char>>) -> Seq<char> {
    join_seq(command.map_values(|p: Seq<char>| shell_word(p)), " "@)
}

fn all_safe(s: &str) -> (r: bool)
    ensures
        r == (forall|i: int| 0 <= i < s@.len() ==> shell_safe(#[trigger] s@[i])),
{
    let n = s.unicode_len();
    let mut i: usize = 0;
    while i < n
        invariant
            n == s@.len(),
            i <= n,
            forall|k: int| 0 <= k < i ==> shell_safe(#[trigger] s@[k]),
        decreases n - i,
    {
        let c = s.get_char(i);
        if !(crate::text::is_ascii_alnum_char(c) || c == '.' || c == '-' || c == '_' || c == ':'
            || c == '/' || c == '\\') {
            return false;
        }
        i += 1;
    }
    true
}

fn shell_word_exec(part: &str) -> (r: String)
    ensures
        r@ == shell_word(part@),
{
    if all_safe(part) {
        owned(part)
    } else {
        proof {
            reveal_strlit("\"");
        }
        let escaped = replace_all(part, "\"", "\\\"");
        let r = concat3("\"", escaped.as_str(), "\"");
        proof {
            reveal_strlit("\"");
        }
        assert(r@ =~= seq!['"'] + escaped@ + seq!['"']);
        r
    }
}

/// A command as one line for display.
pub fn shell_join(command: &Vec<String>) -> (r: String)
    ensures
        r@ == shell_join_spec(views(command@)),
{
    let mut words: Vec<String> = Vec::new();
    let mut i: usize = 0;
    while i < command.len()
        invariant
            i <= command.len(),
            views(words@) == views(command@).take(i as int).map_values(|p: Seq<char>| shell_word(p)),
        decreases command.len() - i,
    {
        let w = shell_word_exec(command[i].as_str());
        let ghost before = views(words@);
        words.push(w);
        assert(views(words@) =~= before.push(w@));
        assert(views(command@).take(i + 1).map_values(|p: Seq<char>| shell_word(p))
            =~= views(command@).take(i as int).map_values(|p: Seq<char>| shell_word(p)).push(
            shell_word(command@[i as int]@),
        ));
        i += 1;
    }
    assert(views(command@).take(command.len() as int) == views(command@));
    join(&words, " ")
}

/// A text in POSIX single quotes.
pub open spec fn single_quote_spec(value: Seq<char>) -> Seq<char> {
    seq!['\''] + replace_seq(value, "'"@, "'\\''"@) + seq!['\'']
}

/// A text in POSIX single quotes.
pub fn shell_single_quote(value: &str) -> (r: String)
    ensures
        r@ == single_quote_spec(value@),
{
    proof {
        reveal_strlit("'");
    }
    let inner = replace_all(value, "'", "'\\''");
    let r = concat3("'", inner.as_str(), "'");
    assert(r@ =~= single_quote_spec(value@));
    r
}

/// A text in PowerShell single quotes.
pub open spec fn powershell_quote_spec(value: Seq<char>) -> Seq<char> {
    seq!['\''] + replace_seq(value, "'"@, "''"@) + seq!['\'']
}

/// A text in PowerShell single quotes.
pub fn powershell_quote(value: &str) -> (r: String)
    ensures
        r@ == powershell_quote_spec(value@),
{
    proof {
        reveal_strlit("'");
    }
    let inner = replace_all(value, "'", "''");
    let r = concat3("'", inner.as_str(), "'");
    assert(r@ =~= powershell_quote_spec(value@));
    r
}

/// A text escaped for `cmd`'s `echo`: `^` first, then `&`, `|`, `<`, `>` get
/// a `^` and `%` is doubled.
pub open spec fn cmd_echo_escape_spec(value: Seq<char>) -> Seq<char> {
    replace_seq(
        replace_seq(
            replace_seq(
                replace_seq(
                    replace_seq(replace_seq(value, "^"@, "^^"@), "&"@, "^&"@),
                    "|"@,
                    "^|"@,
                ),
                "<"@,
                "^<"@,
            ),
            ">"@,
            "^>"@,
        ),
        "%"@,
        "%%"@,
    )
}

/// A text escaped for `cmd`'s `echo`.
pub fn cmd_echo_escape(value: &str) -> (r: String)
    ensures
        r@ == cmd_echo_escape_spec(value@),
{
    proof {
        reveal_strlit("^");
        reveal_strlit("&");
        reveal_strlit("|");
        reveal_strlit("<");
        reveal_strlit(">");
        reveal_strlit("%");
    }
    let a = replace_all(value, "^", "^^");
    let b = replace_all(a.as_str(), "&", "^&");
    let c = replace_all(b.as_str(), "|", "^|");
    let d = replace_all(c.as_str(), "<", "^<");
    let e = replace_all(d.as_str(), ">", "^>");
    replace_all(e.as_str(), "%", "%%")
}

// ---------------------------------------------------------------------------
// Launching
// ---------------------------------------------------------------------------

/// A program to start and its arguments.
#[derive(Debug, Clone, PartialEq, Eq)]
pub struct Launch {
    pub program: String,
    pub args: Vec<String>,
}

fn strings2(a: String, b: String) -> (r: Vec<String>)
    ensures
        views(r@) == seq![a@, b@],
{
    let mut v: Vec<String> = Vec::new();
    v.push(a);
    v.push(b);
    assert(views(v@) =~= seq![a@, b@]);
    v
}

/// The shell line that shows a command and waits in a new terminal.
pub open spec fn posix_terminal_line(text: Seq<char>) -> Seq<char> {
    "printf '%s\\n' "@ + single_quote_spec(text) + "; printf '%s\\n' 'Run the command above when ready.'"@
}

/// The AppleScript that opens Terminal with the line.
pub open spec fn terminal_script(text: Seq<char>) -> Seq<char> {
    "tell application \"Terminal\" to do script \""@ + replace_seq(
        replace_seq(posix_terminal_line(text), "\\"@, "\\\\"@),
        "\""@,
        "\\\""@,
    ) + "\""@
}

/// How a terminal showing a command is opened: `cmd` on Windows, Terminal
/// through `osascript` on macOS, elsewhere `x-terminal-emulator` through
/// `sh`; an error for an empty command.
pub open spec fn terminal_launch_ok(
    r: Launch,
    command: Seq<Seq<char>>,
    os: Seq<char>,
    cmd_exe: Seq<char>,
) -> bool {
    let text = shell_join_spec(command);
    if is_windows(os) {
        &&& r.program@ == cmd_exe
        &&& views(r.args@) == seq![
            "/C"@,
            "start"@,
            "cmd.exe"@,
            "/K"@,
            "echo "@ + cmd_echo_escape_spec(text) + " && echo. && echo Run the command above when ready."@,
        ]
    } else if is_macos(os) {
        &&& r.program@ == "osascript"@
        &&& views(r.args@) == seq!["-e"@, terminal_script(text)]
    } else {
        &&& r.program@ == "sh"@
        &&& views(r.args@) == seq![
            "-c"@,
            "x-terminal-emulator -e sh -lc "@ + single_quote_spec(
                posix_terminal_line(text) + "; exec sh"@,
            ),
        ]
    }
}

/// How a terminal showing a command is opened.
pub fn terminal_launch(command: &Vec<String>, os: &str, cmd_exe: &str) -> (r: Result<Launch, String>)
    ensures
        command@.len() == 0 ==> (r matches Err(e) && e@ == "Install command is empty"@),
        command@.len() > 0 ==> (r matches Ok(l) && terminal_launch_ok(l, views(command@), os@, cmd_exe@)),
{
    if command.len() == 0 {
        return Err(owned("Install command is empty"));
    }
    let text = shell_join(command);
    if os_is_windows(os) {
        let display = concat3(
            "echo ",
            cmd_echo_escape(text.as_str()).as_str(),
            " && echo. && echo Run the command above when ready.",
        );
        let mut args: Vec<String> = Vec::new();
        args.push(owned("/C"));
        args.push(owned("start"));
        args.push(owned("cmd.exe"));
        args.push(owned("/K"));
        args.push(display);
        assert(views(args@) =~= seq![
            "/C"@,
            "start"@,
            "cmd.exe"@,
            "/K"@,
            "echo "@ + cmd_echo_escape_spec(text@) + " && echo. && echo Run the command above when ready."@,
        ]);
        return Ok(Launch { program: owned(cmd_exe), args });
    }
    let quoted = shell_single_quote(text.as_str());
    let line = concat3(
        "printf '%s\\n' ",
        quoted.as_str(),
        "; printf '%s\\n' 'Run the command above when ready.'",
    );
    if os_is_macos(os) {
        proof {
            reveal_strlit("\\");
            reveal_strlit("\"");
        }
        let a = replace_all(line.as_str(), "\\", "\\\\");
        let b = replace_all(a.as_str(), "\"", "\\\"");
        let script = concat3("tell application \"Terminal\" to do script \"", b.as_str(), "\"");
        return Ok(Launch { program: owned("osascript"), args: strings2(owned("-e"), script) });
    }
    let with_shell = concat2(line.as_str(), "; exec sh");
    let inner = concat2("x-terminal-emulator -e sh -lc ", shell_single_quote(with_shell.as_str()).as_str());
    Ok(Launch { program: owned("sh"), args: strings2(owned("-c"), inner) })
}

/// Only `https://` and `http://` links (after trimming) may be opened: with
/// `cmd /C start ""` on Windows, `open` on macOS, else `xdg-open`.
pub fn url_launch(url: &str, os: &str, cmd_exe: &str) -> (r: Result<Launch, String>)
    ensures
        ({
            let t = trim_seq(url@);
            &&& !(seq_starts_with(t, "https://"@) || seq_starts_with(t, "http://"@)) ==> (r matches Err(
                e,
            ) && e@ == "Only HTTP or HTTPS links can be opened."@)
            &&& (seq_starts_with(t, "https://"@) || seq_starts_with(t, "http://"@)) ==> (r matches Ok(
                l,
            ) && if is_windows(os@) {
                l.program@ == cmd_exe@ && views(l.args@) == seq!["/C"@, "start"@, ""@, t]
            } else if is_macos(os@) {
                l.program@ == "open"@ && views(l.args@) == seq![t]
            } else {
                l.program@ == "xdg-open"@ && views(l.args@) == seq![t]
            })
        }),
{
    let t = trim(url);
    if !starts_with(t.as_str(), "https://") && !starts_with(t.as_str(), "http://") {
        return Err(owned("Only HTTP or HTTPS links can be opened."));
    }
    let mut args: Vec<String> = Vec::new();
    if os_is_windows(os) {
        args.push(owned("/C"));
        args.push(owned("start"));
        args.push(owned(""));
        args.push(t);
        assert(views(args@) =~= seq!["/C"@, "start"@, ""@, trim_seq(url@)]);
        return Ok(Launch { program: owned(cmd_exe), args });
    }
    let program = if os_is_macos(os) {
        owned("open")
    } else {
        owned("xdg-open")
    };
    args.push(t);
    assert(views(args@) =~= seq![trim_seq(url@)]);
    Ok(Launch { program, args })
}

/// How a path is shown in the file manager: a directory itself, a file's
/// parent; with `explorer.exe` on Windows, `open` on macOS, else `xdg-open`.
pub fn path_launch(path: &str, exists: bool, is_dir: bool, parent: Option<&str>, os: &str) -> (r:
    Result<Launch, String>)
    ensures
        !exists ==> (r matches Err(e) && e@ == "Path does not exist"@),
        exists && !is_dir && parent is None ==> (r matches Err(e) && e@
            == "Unable to resolve parent directory"@),
        exists && (is_dir || parent is Some) ==> (r matches Ok(l) && {
            let target = if is_dir {
                path@
            } else {
                parent->0@
            };
            &&& views(l.args@) == seq![target]
            &&& l.program@ == if is_windows(os@) {
                "explorer.exe"@
            } else if is_macos(os@) {
                "open"@
            } else {
                "xdg-open"@
            }
        }),
{
    if !exists {
        return Err(owned("Path does not exist"));
    }
    let target = if is_dir {
        owned(path)
    } else {
        match parent {
            Some(p) => owned(p),
            None => {
                return Err(owned("Unable to resolve parent directory"));
            },
        }
    };
    let program = if os_is_windows(os) {
        owned("explorer.exe")
    } else if os_is_macos(os) {
        owned("open")
    } else {
        owned("xdg-open")
    };
    let mut args: Vec<String> = Vec::new();
    args.push(target);
    assert(views(args@) =~= seq![args@[0]@]);
    Ok(Launch { program, args })
}

/// What a command name runs: itself when it holds a separator, else what
/// the resolver found, else the bare name.
pub fn run_target(command: &str, resolved: Option<&str>) -> (r: String)
    ensures
        (has_char(command@, '\\') || has_char(command@, '/')) ==> r@ == command@,
        !(has_char(command@, '\\') || has_char(command@, '/')) ==> r@ == match resolved {
            Some(p) => p@,
            None => command@,
        },
{
    if command_has_path_separator(command) {
        return owned(command);
    }
    match resolved {
        Some(p) => owned(p),
        None => owned(command),
    }
}

/// How a resolved command is started: on Windows a batch file through
/// `cmd /C call "..."` and a PowerShell script through PowerShell with
/// `-File`, anything else directly; the arguments follow.
pub open spec fn process_launch_ok(
    r: Launch,
    target: Seq<char>,
    args: Seq<Seq<char>>,
    os: Seq<char>,
    cmd_exe: Seq<char>,
    powershell_exe: Seq<char>,
) -> bool {
    let lowered = lower_seq(target);
    if is_windows(os) && batch_path(target) {
        &&& r.program@ == cmd_exe
        &&& views(r.args@) == seq!["/C"@, "call \""@ + replace_seq(target, "\""@, "\"\""@) + "\""@]
            + args
    } else if is_windows(os) && seq_ends_with(lowered, ".ps1"@) {
        &&& r.program@ == powershell_exe
        &&& views(r.args@) == seq!["-NoProfile"@, "-ExecutionPolicy"@, "Bypass"@, "-File"@, target]
            + args
    } else {
        &&& r.program@ == target
        &&& views(r.args@) == args
    }
}

/// How a resolved command is started with its arguments.
pub fn process_launch(
    target: &str,
    args: &Vec<String>,
    os: &str,
    cmd_exe: &str,
    powershell_exe: &str,
) -> (r: Launch)
    ensures
        process_launch_ok(r, target@, views(args@), os@, cmd_exe@, powershell_exe@),
{
    let windows = os_is_windows(os);
    let mut out: Vec<String> = Vec::new();
    let program = if windows && is_windows_batch_path(target) {
        proof {
            reveal_strlit("\"");
        }
        let escaped = replace_all(target, "\"", "\"\"");
        out.push(owned("/C"));
        out.push(concat3("call \"", escaped.as_str(), "\""));
        assert(views(out@) =~= seq!["/C"@, "call \""@ + replace_seq(target@, "\""@, "\"\""@) + "\""@]);
        owned(cmd_exe)
    } else if windows && is_windows_powershell_script_path(target) {
        out.push(owned("-NoProfile"));
        out.push(owned("-ExecutionPolicy"));
        out.push(owned("Bypass"));
        out.push(owned("-File"));
        out.push(owned(target));
        assert(views(out@) =~= seq!["-NoProfile"@, "-ExecutionPolicy"@, "Bypass"@, "-File"@, target@]);
        owned(powershell_exe)
    } else {
        assert(views(out@) =~= Seq::<Seq<char>>::empty());
        owned(target)
    };
    let ghost head = views(out@);
    crate::catalog::extend_strings(&mut out, args);
    assert(views(out@) =~= head + views(args@));
    Launch { program, args: out }
}


// ---------------------------------------------------------------------------
// Fetching release information
// ---------------------------------------------------------------------------

/// The PowerShell line that prints a web page's content.
pub open spec fn web_request_script(url: Seq<char>, timeout_secs: Seq<char>) -> Seq<char> {
    "$ProgressPreference='SilentlyContinue'; [Net.ServicePointManager]::SecurityProtocol=[Net.SecurityProtocolType]::Tls12; (Invoke-WebRequest -UseBasicParsing -Headers @{'User-Agent'='DevEnv Manager'} -Uri "@
        + powershell_quote_spec(url) + " -TimeoutSec "@ + timeout_secs + ").Content"@
}

/// How a web page is fetched: through PowerShell on Windows, else `curl`;
/// the timeout is given in whole seconds, at least one.
pub fn fetch_launch(url: &str, timeout_secs: u64, os: &str, powershell_exe: &str) -> (r: Launch)
    ensures
        ({
            let secs = crate::text::decimal(
                if timeout_secs < 1 {
                    1nat
                } else {
                    timeout_secs as nat
                },
            );
            if is_windows(os@) {
                &&& r.program@ == powershell_exe@
                &&& views(r.args@) == seq![
                    "-NoProfile"@,
                    "-ExecutionPolicy"@,
                    "Bypass"@,
                    "-Command"@,
                    web_request_script(url@, secs),
                ]
            } else {
                &&& r.program@ == "curl"@
                &&& views(r.args@) == seq![
                    "-fsSL"@,
                    "--max-time"@,
                    secs,
                    "-H"@,
                    "User-Agent: DevEnv Manager"@,
                    url@,
                ]
            }
        }),
{
    let secs = crate::text::u64_to_string(if timeout_secs < 1 {
        1
    } else {
        timeout_secs
    });
    let mut args: Vec<String> = Vec::new();
    if os_is_windows(os) {
        let mut script = owned(
            "$ProgressPreference='SilentlyContinue'; [Net.ServicePointManager]::SecurityProtocol=[Net.SecurityProtocolType]::Tls12; (Invoke-WebRequest -UseBasicParsing -Headers @{'User-Agent'='DevEnv Manager'} -Uri ",
        );
        script.append(powershell_quote(url).as_str());
        script.append(" -TimeoutSec ");
        script.append(secs.as_str());
        script.append(").Content");
        args.push(owned("-NoProfile"));
        args.push(owned("-ExecutionPolicy"));
        args.push(owned("Bypass"));
        args.push(owned("-Command"));
        args.push(script);
        assert(views(args@) =~= seq![
            "-NoProfile"@,
            "-ExecutionPolicy"@,
            "Bypass"@,
            "-Command"@,
            web_request_script(url@, secs@),
        ]);
        return Launch { program: owned(powershell_exe), args };
    }
    args.push(owned("-fsSL"));
    args.push(owned("--max-time"));
    args.push(secs);
    args.push(owned("-H"));
    args.push(owned("User-Agent: DevEnv Manager"));
    args.push(owned(url));
    assert(views(args@) =~= seq![
        "-fsSL"@,
        "--max-time"@,
        args@[2]@,
        "-H"@,
        "User-Agent: DevEnv Manager"@,
        url@,
    ]);
    Launch { program: owned("curl"), args }
}

/// The error of a failed fetch: what the program reported on standard error,
/// trimmed, or a general message when that is blank.
pub fn fetch_failure_message(stderr: &str) -> (r: String)
    ensures
        trim_seq(stderr@).len() == 0 ==> r@ == "Unable to request GitHub release information."@,
        trim_seq(stderr@).len() > 0 ==> r@ == trim_seq(stderr@),
{
    let t = trim(stderr);
    if t.as_str().unicode_len() == 0 {
        owned("Unable to request GitHub release information.")
    } else {
        t
    }
}

/// The error of a release answer that could not be read.
pub fn release_parse_error(detail: &str) -> (r: String)
    ensures
        r@ == "Unable to parse GitHub release response: "@ + detail@,
{
    concat2("Unable to parse GitHub release response: ", detail)
}

} // verus!
