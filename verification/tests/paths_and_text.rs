use devenv_manager::locations::{
    audit_log_path, available_roots, desktop_dir, expand_windows_env_vars, normalize_root,
    normalize_root_text, parse_registry_query_output, quarantine_dir, quarantine_manifest,
    windows_cmd_executable, windows_common_command_paths_for, windows_powershell_executable,
    windows_registry_path_keys, windows_registry_path_values, windows_system32_executable,
};
use devenv_manager::paths::{
    command_search_paths, dedupe_paths, join_path, split_paths, CommandResolver, ResolvePlan,
};
use devenv_manager::shell::{
    cmd_echo_escape, fetch_failure_message, fetch_launch, release_parse_error, path_launch, powershell_quote, process_launch, run_target, shell_join,
    shell_single_quote, terminal_launch, url_launch,
};
use devenv_manager::text::{join, replace_all, split_whitespace, to_ascii_lowercase, trim, u64_to_string};
use devenv_manager::update::{update_asset_score, version_is_newer, version_parts};

fn strings(items: &[&str]) -> Vec<String> {
    items.iter().map(|s| s.to_string()).collect()
}

fn vars(pairs: &[(&str, &str)]) -> Vec<(String, String)> {
    pairs.iter().map(|(a, b)| (a.to_string(), b.to_string())).collect()
}

#[test]
fn text_helpers_build_strings_character_by_character() {
    assert_eq!(to_ascii_lowercase("AbC-ß"), "abc-ß");
    assert_eq!(trim("  \t hi there \n"), "hi there");
    assert_eq!(replace_all("a-b-c", "-", "--"), "a--b--c");
    assert_eq!(join(&strings(&["a", "b", "c"]), " / "), "a / b / c");
    assert_eq!(split_whitespace("  one two\tthree "), strings(&["one", "two", "three"]));
    assert_eq!(u64_to_string(0), "0");
    assert_eq!(u64_to_string(18446744073709551615), "18446744073709551615");
}

#[test]
fn join_path_follows_platform_separators() {
    assert_eq!(join_path("/home/dev", ".cargo", "linux"), "/home/dev/.cargo");
    assert_eq!(join_path("/", "tmp", "linux"), "/tmp");
    assert_eq!(join_path(r"C:\Users", "dev", "windows"), r"C:\Users\dev");
    assert_eq!(join_path("C:", "Windows", "windows"), "C:Windows");
    assert_eq!(join_path("", "x", "windows"), "x");
}

#[test]
fn windows_split_paths_honours_quotes() {
    assert_eq!(
        split_paths(r#"C:\a;"C:\b;c";;D:\d"#, "windows"),
        strings(&[r"C:\a", r"C:\b;c", "", r"D:\d"])
    );
    assert_eq!(split_paths("/usr/bin:/bin", "linux"), strings(&["/usr/bin", "/bin"]));
}

#[test]
fn dedupe_paths_ignores_case_only_on_windows() {
    let input = strings(&[r"C:\Tools", r"c:\tools", "\"C:\\Other\"", ""]);
    assert_eq!(dedupe_paths(&input, "windows"), strings(&[r"C:\Tools", r"C:\Other"]));
    let unix = strings(&["/opt/Bin", "/opt/bin", "/opt/Bin"]);
    assert_eq!(dedupe_paths(&unix, "linux"), strings(&["/opt/Bin", "/opt/bin"]));
}

#[test]
fn search_paths_never_repeat_a_directory() {
    let found = command_search_paths(
        Some(r"C:\Tools;c:\tools;C:\Bin"),
        "windows",
        &strings(&[r"C:\Bin;D:\Reg"]),
        &strings(&[r"d:\reg", r"E:\Common"]),
    );
    assert_eq!(found, strings(&[r"C:\Tools", r"C:\Bin", r"D:\Reg", r"E:\Common"]));
    let unix = command_search_paths(Some("/usr/bin:/bin:/usr/bin"), "linux", &Vec::new(), &strings(&["/ignored"]));
    assert_eq!(unix, strings(&["/usr/bin", "/bin"]));
}

#[test]
fn resolver_plans_cmd_launcher_lookup_without_path_env() {
    let resolver = CommandResolver::from_search_paths(strings(&[r"C:\Temp\resolver"]));
    match resolver.resolve("fake-dev-tool", "windows", Some(".COM;.EXE;.BAT;.CMD")) {
        ResolvePlan::Search(candidates) => {
            assert!(candidates.iter().any(|c| c == r"C:\Temp\resolver\fake-dev-tool.cmd"));
        }
        other => panic!("unexpected plan {other:?}"),
    }
    assert_eq!(resolver.resolve("   ", "windows", None), ResolvePlan::NotFound);
    assert_eq!(
        resolver.resolve(r" C:\bin\tool.exe ", "windows", None),
        ResolvePlan::CheckPath(r"C:\bin\tool.exe".to_string())
    );
}

#[test]
fn common_windows_paths_are_listed_once_in_search_order() {
    let paths = windows_common_command_paths_for(
        r"C:\Users\dev",
        r"C:\Users\dev\AppData\Local",
        r"C:\Users\dev\AppData\Roaming",
        r"C:\Program Files",
        r"C:\Program Files (x86)",
        r"C:\ProgramData",
        r"C:\Windows",
    );
    assert_eq!(paths.len(), 27);
    assert_eq!(paths[0], r"C:\Windows\System32");
    assert_eq!(paths[1], r"C:\Windows");
    assert_eq!(paths[26], r"C:\ProgramData\chocolatey\bin");
    assert!(paths.contains(&r"C:\Program Files (x86)\Microsoft Visual Studio\2022\BuildTools\Common7\IDE".to_string()));
    // The same directory given twice (ignoring case) is kept once.
    let same = windows_common_command_paths_for(
        r"C:\P", r"C:\P", r"C:\P", r"C:\P", r"c:\p", r"C:\P", r"C:\P",
    );
    let lowered: Vec<String> = same.iter().map(|p| p.to_ascii_lowercase()).collect();
    for (i, a) in lowered.iter().enumerate() {
        assert!(!lowered[i + 1..].contains(a), "repeated {a}");
    }
}

#[test]
fn system_executables_fall_back_to_bare_names() {
    assert_eq!(windows_system32_executable(r"C:\Windows", "where.exe"), r"C:\Windows\System32\where.exe");
    assert_eq!(windows_cmd_executable(r"C:\Windows", true), r"C:\Windows\System32\cmd.exe");
    assert_eq!(windows_cmd_executable(r"C:\Windows", false), "cmd.exe");
    assert_eq!(
        windows_powershell_executable(r"D:\Win", true),
        r"D:\Win\System32\WindowsPowerShell\v1.0\powershell.exe"
    );
    assert_eq!(windows_powershell_executable(r"D:\Win", false), "powershell.exe");
}

#[test]
fn home_files_and_missing_home() {
    assert_eq!(
        quarantine_dir(Some("/home/dev"), "linux"),
        Ok("/home/dev/.devenv-manager/quarantine".to_string())
    );
    assert_eq!(quarantine_dir(None, "linux"), Err("Unable to resolve home directory".to_string()));
    assert_eq!(quarantine_manifest(None, "linux"), "./.devenv-manager/quarantine.json");
    assert_eq!(
        audit_log_path(Some(r"C:\Users\dev"), "windows"),
        r"C:\Users\dev\.devenv-manager\audit-log.json"
    );
    assert_eq!(desktop_dir(Some("/home/dev"), true, "linux"), Some("/home/dev/Desktop".to_string()));
    assert_eq!(desktop_dir(Some("/home/dev"), false, "linux"), Some("/home/dev".to_string()));
    assert_eq!(desktop_dir(None, true, "linux"), None);
}

#[test]
fn roots_are_completed_and_checked() {
    assert_eq!(normalize_root_text("  D: "), r"D:\");
    assert_eq!(normalize_root_text("/mnt/data"), "/mnt/data");
    assert_eq!(normalize_root_text("é:"), "é:");
    assert_eq!(normalize_root("E:", true), Ok(r"E:\".to_string()));
    assert_eq!(normalize_root("E:", false), Err("Drive does not exist".to_string()));
    let mut present = vec![false; 26];
    present[2] = true;
    present[3] = true;
    assert_eq!(available_roots("windows", &present), strings(&[r"C:\", r"D:\"]));
    assert_eq!(available_roots("windows", &vec![true]), strings(&[r"A:\"]));
    assert_eq!(available_roots("linux", &Vec::new()), strings(&["/"]));
}

#[test]
fn windows_variables_expand_case_insensitively() {
    let env = vars(&[("USERPROFILE", r"C:\Users\dev"), ("SystemRoot", r"C:\Windows")]);
    assert_eq!(
        expand_windows_env_vars(r"%UserProfile%\bin;%SYSTEMROOT%\System32", &env),
        r"C:\Users\dev\bin;C:\Windows\System32"
    );
    assert_eq!(expand_windows_env_vars("%MISSING%\\x", &env), "%MISSING%\\x");
    assert_eq!(expand_windows_env_vars("50% off", &env), "50% off");
    assert_eq!(expand_windows_env_vars("a%%b", &env), "a%%b");
    let accented = vars(&[("ÄPFEL_DIR", r"D:\obst")]);
    assert_eq!(expand_windows_env_vars(r"%äpfel_dir%\x", &accented), r"D:\obst\x");
}

#[test]
fn registry_output_is_parsed() {
    let stdout = "\r\nHKEY_CURRENT_USER\\Environment\r\n    Path    REG_EXPAND_SZ    %USERPROFILE%\\bin;C:\\Program Files\\x\r\n\r\n";
    assert_eq!(
        parse_registry_query_output(true, stdout, "path"),
        Some("%USERPROFILE%\\bin;C:\\Program Files\\x".to_string())
    );
    assert_eq!(parse_registry_query_output(false, stdout, "Path"), None);
    assert_eq!(parse_registry_query_output(true, "Path REG_SZ", "Path"), None);
    assert_eq!(windows_registry_path_keys().len(), 2);
    let env = vars(&[("USERPROFILE", r"C:\Users\dev")]);
    let values = vec![Some(r"%USERPROFILE%\bin".to_string()), None, Some("D:\\x".to_string())];
    assert_eq!(
        windows_registry_path_values("windows", &values, &env),
        strings(&[r"C:\Users\dev\bin", r"D:\x"])
    );
    assert!(windows_registry_path_values("linux", &values, &env).is_empty());
}

#[test]
fn shell_quoting() {
    assert_eq!(shell_join(&strings(&["winget", "install", "--id", "Git.Git"])), "winget install --id Git.Git");
    assert_eq!(shell_join(&strings(&["echo", "a b", "say \"hi\""])), "echo \"a b\" \"say \\\"hi\\\"\"");
    assert_eq!(shell_single_quote("it's"), "'it'\\''s'");
    assert_eq!(powershell_quote("it's"), "'it''s'");
    assert_eq!(cmd_echo_escape("a&b|c<d>e^f%g"), "a^&b^|c^<d^>e^^f%%g");
}

#[test]
fn terminal_launches_per_platform() {
    assert_eq!(terminal_launch(&Vec::new(), "linux", "cmd.exe"), Err("Install command is empty".to_string()));
    let cmd = strings(&["brew", "install", "git"]);
    let win = terminal_launch(&cmd, "windows", r"C:\Windows\System32\cmd.exe").unwrap();
    assert_eq!(win.program, r"C:\Windows\System32\cmd.exe");
    assert_eq!(
        win.args,
        strings(&["/C", "start", "cmd.exe", "/K", "echo brew install git && echo. && echo Run the command above when ready."])
    );
    let mac = terminal_launch(&cmd, "macos", "cmd.exe").unwrap();
    assert_eq!(mac.program, "osascript");
    assert_eq!(
        mac.args[1],
        "tell application \"Terminal\" to do script \"printf '%s\\\\n' 'brew install git'; printf '%s\\\\n' 'Run the command above when ready.'\""
    );
    let linux = terminal_launch(&cmd, "linux", "cmd.exe").unwrap();
    assert_eq!(linux.program, "sh");
    assert_eq!(linux.args[0], "-c");
    assert!(linux.args[1].starts_with("x-terminal-emulator -e sh -lc '"));
}

#[test]
fn only_web_links_are_opened() {
    assert_eq!(
        url_launch("file:///etc/passwd", "linux", "cmd.exe"),
        Err("Only HTTP or HTTPS links can be opened.".to_string())
    );
    let l = url_launch("  https://example.test/x ", "linux", "cmd.exe").unwrap();
    assert_eq!((l.program.as_str(), l.args), ("xdg-open", strings(&["https://example.test/x"])));
    let w = url_launch("http://a.test", "windows", "cmd.exe").unwrap();
    assert_eq!(w.args, strings(&["/C", "start", "", "http://a.test"]));
}

#[test]
fn paths_open_in_the_file_manager() {
    assert_eq!(path_launch("/x", false, false, None, "linux"), Err("Path does not exist".to_string()));
    assert_eq!(
        path_launch("/", true, false, None, "linux"),
        Err("Unable to resolve parent directory".to_string())
    );
    let f = path_launch("/home/a.txt", true, false, Some("/home"), "macos").unwrap();
    assert_eq!((f.program.as_str(), f.args), ("open", strings(&["/home"])));
    let d = path_launch(r"C:\x", true, true, None, "windows").unwrap();
    assert_eq!((d.program.as_str(), d.args), ("explorer.exe", strings(&[r"C:\x"])));
}

#[test]
fn scripts_run_through_their_interpreters() {
    let args = strings(&["--version"]);
    let bat = process_launch(r#"C:\tools\np"m.cmd"#, &args, "windows", "cmd.exe", "powershell.exe");
    assert_eq!(bat.program, "cmd.exe");
    assert_eq!(bat.args, strings(&["/C", r#"call "C:\tools\np""m.cmd""#, "--version"]));
    let ps = process_launch(r"C:\tools\x.PS1", &args, "windows", "cmd.exe", "pwsh.exe");
    assert_eq!(ps.program, "pwsh.exe");
    assert_eq!(ps.args, strings(&["-NoProfile", "-ExecutionPolicy", "Bypass", "-File", r"C:\tools\x.PS1", "--version"]));
    let plain = process_launch("/usr/bin/x.cmd", &args, "linux", "cmd.exe", "pwsh.exe");
    assert_eq!((plain.program.as_str(), plain.args), ("/usr/bin/x.cmd", args.clone()));
    assert_eq!(run_target("/usr/bin/git", Some("/other")), "/usr/bin/git");
    assert_eq!(run_target("git", Some("/usr/bin/git")), "/usr/bin/git");
    assert_eq!(run_target("git", None), "git");
}

#[test]
fn version_comparison_laws_hold_on_examples() {
    assert_eq!(version_parts(" v1.20.3-rc.1 "), vec![1, 20, 3]);
    assert!(!version_is_newer("1.2.0", "1.2.0"));
    assert!(version_is_newer("1.3", "1.2.9") && !version_is_newer("1.2.9", "1.3"));
    assert!(!version_is_newer("1.2.0", "1.2") && !version_is_newer("1.2", "1.2.0"));
    assert!(update_asset_score("DevEnv-Manager_0.2.0_x64-setup.exe", "windows") > 0);
}

#[test]
fn release_fetches_per_platform() {
    let l = fetch_launch("https://api.test/x", 0, "linux", "powershell.exe");
    assert_eq!(l.program, "curl");
    assert_eq!(l.args, strings(&["-fsSL", "--max-time", "1", "-H", "User-Agent: DevEnv Manager", "https://api.test/x"]));
    let w = fetch_launch("https://api.test/it's", 12, "windows", "ps.exe");
    assert_eq!(w.program, "ps.exe");
    assert_eq!(w.args.len(), 5);
    assert!(w.args[4].contains("-Uri 'https://api.test/it''s' -TimeoutSec 12).Content"));
    assert_eq!(fetch_failure_message("  \n"), "Unable to request GitHub release information.");
    assert_eq!(fetch_failure_message(" curl: (6) no host \n"), "curl: (6) no host");
    assert_eq!(release_parse_error("eof"), "Unable to parse GitHub release response: eof");
}

#[test]
fn bare_windows_commands_are_tried_last() {
    let names = devenv_manager::paths::command_candidate_names("npm", "windows", Some(".JS;;.EXE"));
    assert_eq!(names.last().map(|s| s.as_str()), Some("npm"));
    assert!(names[..names.len() - 1].iter().all(|n| n.len() > 3));
    assert!(names.contains(&"npm.js".to_string()));
    assert_eq!(names.iter().filter(|n| n.as_str() == "npm.exe").count(), 1);
    assert_eq!(devenv_manager::paths::command_candidate_names("npm.cmd", "windows", None), strings(&["npm.cmd"]));
    assert_eq!(devenv_manager::paths::command_candidate_names("npm", "linux", None), strings(&["npm"]));
}
