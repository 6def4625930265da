use devenv_manager::catalog::build_pending_environment_report;
use devenv_manager::checks::{probe_command_with_resolver, CommandOutput};
use devenv_manager::detail::{
    build_tool_detail_metadata, clean_optional_url, command_detail_metadata,
    download_detail_metadata, normalize_descriptions, normalize_links, normalize_package,
    quality_metadata, source_detail_metadata, tool_detail, version_detail_metadata,
};
use devenv_manager::environment::{build_environment_report, record_tool_check, sort_tool_checks};
use devenv_manager::managers::{
    detect_install_managers, install_manager_candidates, manager_names_distinct, manager_probe_command,
    package_manager_status_text, tool_manager_candidates,
};
use devenv_manager::model::{
    CatalogToolFile, CatalogToolSpec, ToolCommandSpec, ToolRequirementSpec, DevToolCheck, EnvironmentData, IdentityFile, OnlineCommandSpec,
    OnlineDownloadSpec, OnlineMetadataFile, OnlineQualitySpec, OnlineScanSpec, OnlineSourceSpec,
    OnlineToolSpec, OnlineVerifySpec, OnlineVersionSpec, PlatformSourcePolicy, SourcePolicyFile,
    ToolDependenciesMetadata, ToolDescriptions, ToolDetectionSpec, ToolLifecycleMetadata,
    ToolLinks, ToolNotesMetadata, ToolPackageMetadata, ToolRiskMetadata, ToolUsageMetadata,
};
use devenv_manager::sorting::{sort_strings, str_le};

fn strings(items: &[&str]) -> Vec<String> {
    items.iter().map(|s| s.to_string()).collect()
}

fn quality(score: i32) -> OnlineQualitySpec {
    OnlineQualitySpec {
        confidence: "high".to_string(),
        score,
        official: true,
        last_successful_scan_at: None,
        failure_count: 0,
        stale_after_days: Some(30),
    }
}

fn links(home: Option<&str>) -> ToolLinks {
    ToolLinks { homepage: home.map(|s| s.to_string()), download: Some("   ".to_string()), releases: None, docs: None }
}

fn descriptions() -> ToolDescriptions {
    ToolDescriptions {
        short: Some("s".to_string()),
        long: None,
        source: None,
        homepage: Some(" https://h.test ".to_string()),
        last_updated_at: None,
    }
}

fn command(action: &str, manager: &str, platform: &str) -> OnlineCommandSpec {
    OnlineCommandSpec {
        action: action.to_string(),
        manager: manager.to_string(),
        platform: platform.to_string(),
        version: None,
        requires_admin: false,
        supports_version: false,
        shell: "argv".to_string(),
        command: strings(&[manager, action, "x"]),
        template: Vec::new(),
    }
}

fn download(id: &str, platform: &str) -> OnlineDownloadSpec {
    OnlineDownloadSpec {
        id: id.to_string(),
        version: None,
        platform: platform.to_string(),
        architecture: None,
        kind: " ".to_string(),
        url: Some(" https://d.test/x ".to_string()),
        url_type: "direct".to_string(),
        direct: true,
        sha256: None,
        size_bytes: Some(3),
    }
}

fn version(v: &str) -> OnlineVersionSpec {
    OnlineVersionSpec {
        version: v.to_string(),
        channel: "stable".to_string(),
        latest: false,
        prerelease: false,
        lts: None,
        release_date: None,
        eol_date: None,
        changelog_url: Some("".to_string()),
    }
}

fn source(id: &str, manager: &str, platforms: &[&str], score: i32, official: bool, priority: i32) -> OnlineSourceSpec {
    OnlineSourceSpec {
        id: id.to_string(),
        manager: manager.to_string(),
        package_id: None,
        platforms: strings(platforms),
        official,
        priority,
        scan: OnlineScanSpec { status: "ok".to_string(), scanned_at: None, errors: Vec::new() },
        package: ToolPackageMetadata {
            name: None,
            publisher: None,
            author: None,
            description: None,
            license: None,
            license_url: Some("\thttps://l.test\n".to_string()),
            tags: strings(&["t"]),
        },
        links: links(Some("https://src.test")),
        descriptions: descriptions(),
        usage: ToolUsageMetadata { primary_use_cases: Vec::new(), keywords: Vec::new(), related_tools: Vec::new() },
        notes: ToolNotesMetadata { install: Vec::new(), upgrade: Vec::new(), known_issues: Vec::new() },
        versions: Vec::new(),
        downloads: Vec::new(),
        commands: Vec::new(),
        quality: quality(score),
        verify: OnlineVerifySpec { commands: Vec::new() },
    }
}

fn tool(id: &str, sources: Vec<OnlineSourceSpec>) -> OnlineToolSpec {
    OnlineToolSpec {
        id: id.to_string(),
        name: id.to_string(),
        category_id: "c".to_string(),
        aliases: strings(&["alias"]),
        tags: Vec::new(),
        platforms: strings(&["windows", "linux"]),
        lifecycle: ToolLifecycleMetadata { status: None, deprecated: false, replaced_by: None },
        links: links(None),
        descriptions: descriptions(),
        usage: ToolUsageMetadata { primary_use_cases: Vec::new(), keywords: Vec::new(), related_tools: Vec::new() },
        notes: ToolNotesMetadata { install: Vec::new(), upgrade: Vec::new(), known_issues: Vec::new() },
        detection: ToolDetectionSpec { commands: Vec::new() },
        verify: OnlineVerifySpec { commands: Vec::new() },
        dependencies: ToolDependenciesMetadata {
            required: false,
            required_by_suites: Vec::new(),
            depends_on: Vec::new(),
            optional_dependencies: Vec::new(),
        },
        risk: ToolRiskMetadata { requires_admin: false, portable: true, system_critical: false },
        quality: quality(70),
        sources,
    }
}

fn data(tools: Vec<OnlineToolSpec>) -> EnvironmentData {
    EnvironmentData {
        catalog: CatalogToolFile { tools: Vec::new(), suites: Vec::new() },
        metadata: OnlineMetadataFile { tools },
        policy: SourcePolicyFile {
            platforms: vec![
                (
                    "windows".to_string(),
                    PlatformSourcePolicy { manager_priority: strings(&["winget", "scoop"]), minimum_quality_score: 45 },
                ),
                (
                    "macos".to_string(),
                    PlatformSourcePolicy { manager_priority: strings(&["homebrew", "winget"]), minimum_quality_score: 45 },
                ),
            ],
        },
        identities: IdentityFile { identities: Vec::new() },
    }
}

fn check(name: &str, required: bool) -> DevToolCheck {
    DevToolCheck {
        id: name.to_lowercase(),
        name: name.to_string(),
        summary: None,
        description: None,
        command: String::new(),
        installed: false,
        version: None,
        source: "PATH".to_string(),
        status: "missing".to_string(),
        required,
        category: "c".to_string(),
        install_plan: None,
        uninstall_plan: None,
        version_options: Vec::new(),
        detail: None,
    }
}

#[test]
fn urls_are_trimmed_and_blank_ones_dropped() {
    assert_eq!(clean_optional_url(&Some("  https://x.test  ".to_string())), Some("https://x.test".to_string()));
    assert_eq!(clean_optional_url(&Some(" \t ".to_string())), None);
    assert_eq!(clean_optional_url(&None), None);
    let l = normalize_links(&links(Some(" https://a.test")));
    assert_eq!((l.homepage.as_deref(), l.download), (Some("https://a.test"), None));
    assert_eq!(normalize_descriptions(&descriptions()).homepage.as_deref(), Some("https://h.test"));
    let src = source("s", "winget", &["windows"], 80, true, 1);
    let p = normalize_package(&src.package);
    assert_eq!((p.license_url.as_deref(), p.tags), (Some("https://l.test"), strings(&["t"])));
}

#[test]
fn detail_records_copy_and_default_fields() {
    let q = quality_metadata(&quality(77));
    assert_eq!((q.score, q.stale_after_days, q.confidence.as_str()), (77, Some(30), "high"));
    let v = version_detail_metadata(&version("1.0"));
    assert_eq!((v.version.as_str(), v.changelog_url), ("1.0", None));
    let d = download_detail_metadata(&download("  ", "windows"));
    assert_eq!((d.id.as_str(), d.kind.as_str(), d.url.as_deref()), ("default", "package", Some("https://d.test/x")));
    let named = download_detail_metadata(&download("zip", "windows"));
    assert_eq!(named.id, "zip");
    let c = command_detail_metadata(&command("install", "winget", "windows"));
    assert_eq!((c.action.as_str(), c.command), ("install", strings(&["winget", "install", "x"])));
}

#[test]
fn source_details_show_bounded_platform_lists() {
    let mut s = source("s", "winget", &["windows"], 80, true, 1);
    s.versions = (0..70).map(|i| version(&format!("1.{i}"))).collect();
    s.downloads = (0..20)
        .map(|i| download(&format!("d{i}"), if i % 2 == 0 { "windows" } else { "linux" }))
        .collect();
    s.downloads.push(download("any", "all"));
    s.commands = vec![command("install", "winget", "windows"), command("install", "winget", "linux")];
    let d = source_detail_metadata(&s, "windows");
    assert_eq!(d.versions.len(), 60);
    assert_eq!(d.versions[59].version, "1.59");
    assert_eq!(d.downloads.len(), 10 + 1);
    assert_eq!(d.downloads[10].id, "any");
    assert_eq!(d.commands.len(), 1);
    assert_eq!(d.commands[0].platform, "windows");
    let few = source_detail_metadata(&s, "linux");
    assert_eq!(few.downloads.len(), 11);
    s.downloads = (0..20).map(|i| download(&format!("w{i}"), "windows")).collect();
    assert_eq!(source_detail_metadata(&s, "windows").downloads.len(), 12);
}

#[test]
fn tool_details_rank_sources() {
    let t = tool(
        "git",
        vec![
            source("low", "scoop", &["windows"], 60, true, 1),
            source("b_unofficial", "winget", &["windows"], 90, false, 1),
            source("z_official", "zz", &["windows"], 90, true, 5),
            source("a_official", "aa", &["windows"], 90, true, 5),
            source("first_priority", "mm", &["windows"], 90, true, 2),
            source("mac", "homebrew", &["macos"], 99, true, 0),
        ],
    );
    let d = build_tool_detail_metadata(&t, "windows");
    let order: Vec<&str> = d.sources.iter().map(|s| s.id.as_str()).collect();
    assert_eq!(order, vec!["first_priority", "a_official", "z_official", "b_unofficial", "low"]);
    assert_eq!(d.aliases, strings(&["alias"]));
    assert_eq!(d.descriptions.homepage.as_deref(), Some("https://h.test"));
    let env = data(vec![t.clone()]);
    assert!(tool_detail(&env, "git", "windows").is_some());
    assert!(tool_detail(&env, "git", "macos").is_none());
    assert!(tool_detail(&env, "nope", "windows").is_none());
}

#[test]
fn managers_are_found_and_described() {
    assert_eq!(manager_probe_command("homebrew"), Some(("brew".to_string(), "--version".to_string())));
    assert_eq!(manager_probe_command("winget"), Some(("winget".to_string(), "--version".to_string())));
    assert_eq!(manager_probe_command("apt"), None);
    let mut s1 = source("a", "choco", &["windows"], 80, true, 1);
    s1.commands = vec![command("install", "choco", "windows")];
    let mut s2 = source("b", "winget", &["windows"], 80, true, 1);
    s2.commands = vec![command("install", "winget", "linux")];
    let s3 = source("c", "apt", &["linux"], 80, true, 1);
    let env = data(vec![tool("git", vec![s1, s2, s3])]);
    assert_eq!(install_manager_candidates(&env), strings(&["winget", "scoop", "homebrew", "choco", "apt"]));
    assert_eq!(tool_manager_candidates(&env, "git", "windows"), strings(&["choco"]));
    assert!(tool_manager_candidates(&env, "nope", "windows").is_empty());
    let found = detect_install_managers(
        &strings(&["winget", "apt", "scoop", "choco"]),
        &vec![Some("1.9".to_string()), Some("2".to_string()), None],
    );
    assert_eq!(found, vec![("winget".to_string(), "1.9".to_string())]);
    assert_eq!(package_manager_status_text(&Vec::new()), None);
    let text = package_manager_status_text(&vec![
        ("winget".to_string(), "1.9".to_string()),
        ("choco".to_string(), "2.0".to_string()),
        ("scoop".to_string(), "0.5".to_string()),
    ]);
    assert_eq!(text.as_deref(), Some("choco 2.0 / scoop 0.5 / winget 1.9"));
}

#[test]
fn text_order_and_sorting() {
    assert!(str_le("abc", "abd") && str_le("ab", "abc") && str_le("", "a") && !str_le("b", "a"));
    assert!(str_le("Z", "a"));
    assert_eq!(sort_strings(strings(&["b", "a", "B", "a"])), strings(&["B", "a", "a", "b"]));
}

#[test]
fn probes_report_versions() {
    let ok = CommandOutput {
        success: true,
        exit_code: Some(0),
        stdout: "  git version 2.45.1 \nmore".to_string(),
        stderr: String::new(),
    };
    assert_eq!(probe_command_with_resolver(None, "git", "--version", "linux", Some(&ok)), None);
    assert_eq!(
        probe_command_with_resolver(Some("/usr/bin/git"), "git", "--version", "linux", Some(&ok)),
        Some("git version 2.45.1".to_string())
    );
    assert_eq!(
        probe_command_with_resolver(Some(r"C:\wt.exe"), "WT", "--version", "windows", None),
        Some("installed".to_string())
    );
    assert_eq!(
        probe_command_with_resolver(Some("/usr/bin/x"), "x", "  ", "linux", None),
        Some("installed".to_string())
    );
    assert_eq!(probe_command_with_resolver(Some("/usr/bin/x"), "x", "-v", "linux", None), None);
    let failed = CommandOutput { success: false, ..ok };
    assert_eq!(probe_command_with_resolver(Some("/usr/bin/git"), "git", "--version", "linux", Some(&failed)), None);
}

#[test]
fn reports_put_required_tools_first_then_names_ignoring_case() {
    let sorted = sort_tool_checks(vec![check("B-tool", false), check("a-tool", false), check("Zed", true), check("c", true)]);
    let names: Vec<&str> = sorted.iter().map(|c| c.name.as_str()).collect();
    assert_eq!(names, vec!["c", "Zed", "a-tool", "B-tool"]);
    let env = data(Vec::new());
    let report = build_environment_report(
        &env,
        "linux",
        &vec![("homebrew".to_string(), "4.0".to_string())],
        vec![check("b", false), check("A", true)],
    );
    assert_eq!(report.tools.iter().map(|c| c.name.as_str()).collect::<Vec<_>>(), vec!["A", "b"]);
    assert_eq!(report.package_manager_version.as_deref(), Some("homebrew 4.0"));
    assert!(report.package_manager_available && report.package_manager_checked && report.completed);
    assert_eq!((report.required_missing, report.optional_missing, report.total_tools), (1, 1, 2));
    assert_eq!((report.checked_tools, report.pending_tools), (2, 0));
}

#[test]
fn recording_a_check_replaces_the_pending_tool() {
    let mut env = data(Vec::new());
    env.catalog.tools = vec![CatalogToolSpec {
        id: "git".to_string(),
        name: "Git".to_string(),
        category_id: "vcs".to_string(),
        summary: None,
        description: None,
        platforms: strings(&["linux"]),
        detection: ToolDetectionSpec {
            commands: vec![ToolCommandSpec { command: "git".to_string(), version_arg: "--version".to_string() }],
        },
        requirements: ToolRequirementSpec { required: true, requires_admin: false },
    }];
    let pending = build_pending_environment_report(&env, None, true, "linux");
    assert_eq!((pending.pending_tools, pending.completed), (1, false));
    let mut done = check("Git", true);
    done.id = pending.tools[0].id.clone();
    done.status = "installed".to_string();
    let r = record_tool_check(pending.clone(), done, &env);
    assert_eq!((r.checked_tools, r.pending_tools, r.completed, r.required_missing), (1, 0, true, 0));
    let unknown = record_tool_check(pending.clone(), check("Other", false), &env);
    assert_eq!(unknown.tools, pending.tools);
}

#[test]
fn the_best_eligible_source_is_selected() {
    let mut choco = source("c", "choco", &["windows"], 90, true, 5);
    choco.commands = vec![command("install", "choco", "windows")];
    let mut winget = source("w", "winget", &["windows"], 80, true, 1);
    winget.commands = vec![command("install", "winget", "windows")];
    let mut scoop = source("s", "scoop", &["windows"], 99, true, 1);
    scoop.commands = vec![command("install", "scoop", "windows")];
    let t = tool("git", vec![winget.clone(), choco.clone(), scoop]);
    let env = data(vec![t.clone()]);
    // scoop scores best but is not installed, so it is not eligible.
    let known = vec![("winget".to_string(), "1".to_string()), ("choco".to_string(), "2".to_string())];
    let chosen = devenv_manager::sources::selected_source(&t, &env, &known, "windows").unwrap();
    assert_eq!(chosen.id, "c");
    // Equal ranks: the first one wins.
    let twin = tool("git", vec![winget.clone(), winget.clone()]);
    let only_winget = vec![("winget".to_string(), "1".to_string())];
    let first = devenv_manager::sources::selected_source(&twin, &env, &only_winget, "windows").unwrap();
    assert!(std::ptr::eq(first, &twin.sources[0]));
    assert!(devenv_manager::sources::selected_source(&t, &env, &Vec::new(), "windows").is_none());
}

#[test]
fn detected_managers_are_named_once() {
    let pair = |m: &str, v: &str| (m.to_string(), v.to_string());
    assert!(manager_names_distinct(&Vec::new()));
    assert!(manager_names_distinct(&vec![pair("winget", "1.9"), pair("choco", "2.0")]));
    assert!(!manager_names_distinct(&vec![pair("apt", "2"), pair("choco", "2.0"), pair("apt", "3")]));
    let found = detect_install_managers(
        &strings(&["winget", "choco"]),
        &vec![Some("1.9".to_string()), Some("2.0".to_string())],
    );
    assert!(manager_names_distinct(&found));
}
