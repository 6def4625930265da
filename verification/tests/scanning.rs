use devenv_manager::paths::path_starts_with;
use devenv_manager::records::quarantine_target_check;
use devenv_manager::scan::{deep_child_limit, deep_scan_entry, DeepChild};
use devenv_manager::scan::{startup_estimate, StartupEstimate};
use devenv_manager::records::{
    add_quarantine_item, append_audit_entry, moved_detail, quarantine_entry_plan, quarantine_item,
    restored_detail, take_quarantine_item, AuditLogEntry, QuarantineItem,
};
use devenv_manager::report::{
    export_file_name, export_report_target, html_escape, render_html_report, tr, tr_risk,
};
use devenv_manager::scan::{
    build_scan_report, calculate_risk, child_limits, deep_child_entry, deep_limits,
    delete_entry_plan, detection_timeout, environment_specs, estimate_report_memory,
    expand_rule_path, file_estimate, filter_specs_by_roots, manager_detection_timeout,
    path_entries, path_entry_texts, preview_cleanup, rule_path_for_os, sanitize_id,
    sanitize_window_label, scan_mode_name, scan_spec_fast, scan_specs, should_estimate_on_startup,
    sort_by_size_desc, spec_owned, startup_size_limits, tool_insights, total_size_bytes,
    walk_start_estimate, walker_threads, Category, EnvEntry, EnvSpec, PathContext, PathEntry,
    RiskModel, Risk, RootKind, RuleFile, RuleSpec, ScanLimits, ScanMode, ScanRequest,
    SizeEstimate, SizeWalk, WalkEntry, WalkStep,
};

fn strings(items: &[&str]) -> Vec<String> {
    items.iter().map(|s| s.to_string()).collect()
}

fn model() -> RiskModel {
    RiskModel {
        default: Risk::Caution,
        factors: vec![
            ("cache".to_string(), 30),
            ("rebuildable".to_string(), 10),
            ("userConfig".to_string(), -40),
            ("sdk".to_string(), -5),
        ],
    }
}

fn rule(id: &str, category: Category, paths: &[(&str, &str)], factors: &[&str]) -> RuleSpec {
    RuleSpec {
        id: id.to_string(),
        name_key: format!("env.{id}"),
        category,
        path_by_platform: paths.iter().map(|(k, v)| (k.to_string(), v.to_string())).collect(),
        risk_factors: strings(factors),
        depends_on: Vec::new(),
    }
}

fn ctx(os: &str) -> PathContext {
    PathContext {
        home: if os == "windows" { r"C:\Users\dev".to_string() } else { "/home/dev".to_string() },
        local_app_data: None,
        app_data: Some(r"C:\Users\dev\AppData\Roaming".to_string()),
        program_data: None,
        temp: if os == "windows" { r"C:\Temp".to_string() } else { "/tmp".to_string() },
        os: os.to_string(),
    }
}

fn entry(id: &str, size: u64, exists: bool, risk: Risk, category: Category) -> EnvEntry {
    EnvEntry {
        id: id.to_string(),
        name_key: format!("env.{id}"),
        path: format!("/p/{id}"),
        category,
        risk,
        size_bytes: size,
        exists,
        description_key: format!("desc.{id}"),
        modified: None,
        file_count: 1,
        dir_count: 0,
        size_approximate: false,
    }
}

#[test]
fn risk_scores_follow_the_thresholds() {
    let m = model();
    let r = |factors: &[&str]| calculate_risk(&rule("x", Category::Cache, &[], factors), &m);
    assert_eq!(r(&["cache"]), Risk::Cleanable); // 80
    assert_eq!(r(&["cache", "sdk"]), Risk::Cleanable); // exactly 75
    assert_eq!(r(&["rebuildable"]), Risk::Caution); // 60: the default
    assert_eq!(r(&["userConfig"]), Risk::Keep); // 10
    assert_eq!(r(&["unknown"]), Risk::Caution); // unknown factors count nothing
    assert_eq!(r(&["userConfig", "rebuildable"]), Risk::Keep); // exactly 20
}

#[test]
fn rule_paths_prefer_the_platform_then_all() {
    let r = rule("x", Category::Cache, &[("windows", "W"), ("all", "A")], &[]);
    assert_eq!(rule_path_for_os(&r, "windows"), Some("W".to_string()));
    assert_eq!(rule_path_for_os(&r, "linux"), Some("A".to_string()));
    let none = rule("y", Category::Cache, &[("macos", "M")], &[]);
    assert_eq!(rule_path_for_os(&none, "linux"), None);
}

#[test]
fn templates_expand_places() {
    assert_eq!(expand_rule_path("{home}/.cargo", &ctx("linux")), "/home/dev/.cargo");
    assert_eq!(
        expand_rule_path("{local}/npm-cache", &ctx("windows")),
        r"C:\Users\dev\AppData\Local\npm-cache"
    );
    assert_eq!(
        expand_rule_path("{roaming}/Code/{temp}", &ctx("windows")),
        r"C:\Users\dev\AppData\Roaming\Code\C:\Temp"
    );
    assert_eq!(expand_rule_path("{programData}/chocolatey", &ctx("windows")), r"C:\ProgramData\chocolatey");
}

#[test]
fn specs_come_from_rules_with_paths() {
    let file = RuleFile {
        risk_model: model(),
        rules: vec![
            rule("cargo_home", Category::Toolchain, &[("all", "{home}/.cargo")], &[]),
            rule("mac_only", Category::Cache, &[("macos", "{home}/Library/Caches")], &["cache"]),
            rule("npm_cache", Category::Cache, &[("all", "{home}/.npm")], &["cache"]),
        ],
    };
    let specs = environment_specs(&file, &ctx("linux"));
    assert_eq!(specs.len(), 2);
    assert_eq!(specs[0].id, "cargo_home");
    assert_eq!(specs[0].path, "/home/dev/.cargo");
    assert_eq!(specs[0].risk, Risk::Caution);
    assert_eq!(specs[0].description_key, "desc.cargo_home");
    assert_eq!(specs[1].risk, Risk::Cleanable);

    let req = |mode, drive: Option<&str>| ScanRequest { mode, drive: drive.map(|d| d.to_string()) };
    assert_eq!(
        scan_specs(&req(ScanMode::Drive, None), &file, &ctx("linux"), true, &Vec::new()),
        Err("Drive is required".to_string())
    );
    assert_eq!(
        scan_specs(&req(ScanMode::Drive, Some("/mnt")), &file, &ctx("linux"), false, &Vec::new()),
        Err("Drive does not exist".to_string())
    );
    let none = scan_specs(&req(ScanMode::Drive, Some("/mnt")), &file, &ctx("linux"), true, &Vec::new()).unwrap();
    assert!(none.is_empty());
    let full = scan_specs(&req(ScanMode::Full, None), &file, &ctx("linux"), true, &strings(&["/"])).unwrap();
    assert_eq!(full.len(), 2);
    let dev = scan_specs(&req(ScanMode::Developer, None), &file, &ctx("linux"), false, &Vec::new()).unwrap();
    assert_eq!(dev, specs);
}

#[test]
fn root_filter_keeps_only_specs_under_roots() {
    let spec = |id: &str, path: &str| spec_owned(
        id.to_string(),
        id.to_string(),
        path.to_string(),
        Category::Cache,
        Risk::Caution,
        String::new(),
    );
    let specs: Vec<EnvSpec> = vec![
        spec("a", r"C:\Users\dev\.cargo"),
        spec("b", r"D:\cache"),
        spec("c", r"c:\tools"),
    ];
    let kept = filter_specs_by_roots(&specs, &strings(&[r"C:"]), "windows");
    assert_eq!(kept.iter().map(|s| s.id.as_str()).collect::<Vec<_>>(), vec!["a", "c"]);
}

#[test]
fn limits_and_threads() {
    assert_eq!(deep_limits(), ScanLimits { max_entries: 600_000, max_duration_ms: 10_000 });
    assert_eq!(child_limits(), ScanLimits { max_entries: 12_000, max_duration_ms: 420 });
    assert_eq!(startup_size_limits(), ScanLimits { max_entries: 900, max_duration_ms: 18 });
    assert_eq!(detection_timeout(), 900);
    assert_eq!(manager_detection_timeout(), 650);
    assert_eq!(walker_threads(startup_size_limits(), Some(16)), 1);
    assert_eq!(walker_threads(deep_limits(), Some(16)), 8);
    assert_eq!(walker_threads(deep_limits(), Some(1)), 2);
    assert_eq!(walker_threads(child_limits(), None), 4);
}

#[test]
fn size_walk_counts_until_its_limits() {
    let limits = ScanLimits { max_entries: 3, max_duration_ms: 100 };
    let mut walk = SizeWalk::new();
    assert_eq!(walk.step(limits, 0, WalkEntry::File(Some(10))), WalkStep::Continue);
    assert_eq!(walk.step(limits, 1, WalkEntry::Dir), WalkStep::Continue);
    assert_eq!(walk.step(limits, 2, WalkEntry::File(None)), WalkStep::Continue);
    assert_eq!(walk.estimate(), SizeEstimate { bytes: 10, files: 1, dirs: 1, truncated: false });
    assert_eq!(walk.step(limits, 3, WalkEntry::File(Some(5))), WalkStep::Quit);
    assert!(walk.estimate().truncated);
    let before = walk;
    assert_eq!(walk.step(limits, 4, WalkEntry::Dir), WalkStep::Quit);
    assert_eq!(walk, before);
    let mut slow = SizeWalk::new();
    assert_eq!(slow.step(limits, 100, WalkEntry::Dir), WalkStep::Quit);
    assert_eq!(slow.estimate(), SizeEstimate { bytes: 0, files: 0, dirs: 0, truncated: true });
    let mut big = SizeWalk { bytes: u64::MAX, files: 0, dirs: 0, visited: 0, truncated: false };
    big.step(ScanLimits { max_entries: 10, max_duration_ms: 10 }, 0, WalkEntry::File(Some(2)));
    assert_eq!(big.bytes, 1);
}

#[test]
fn start_estimates_and_file_estimates() {
    assert_eq!(walk_start_estimate(RootKind::Unreadable), Some(SizeEstimate { bytes: 0, files: 0, dirs: 0, truncated: false }));
    assert_eq!(walk_start_estimate(RootKind::Symlink), Some(SizeEstimate { bytes: 0, files: 0, dirs: 0, truncated: true }));
    assert_eq!(walk_start_estimate(RootKind::File(7)), Some(SizeEstimate { bytes: 7, files: 1, dirs: 0, truncated: false }));
    assert_eq!(walk_start_estimate(RootKind::Other), None);
    assert_eq!(file_estimate(Some(42), false), SizeEstimate { bytes: 42, files: 1, dirs: 0, truncated: false });
    assert_eq!(file_estimate(None, true), SizeEstimate { bytes: 0, files: 0, dirs: 1, truncated: true });
    assert_eq!(file_estimate(None, false), SizeEstimate { bytes: 0, files: 0, dirs: 0, truncated: false });
}

#[test]
fn scanned_entries_and_reports() {
    let spec = spec_owned(
        "npm".to_string(),
        "env.npmCache".to_string(),
        "/home/dev/.npm".to_string(),
        Category::Cache,
        Risk::Caution,
        "desc.npm".to_string(),
    );
    assert!(should_estimate_on_startup(&spec));
    let est = SizeEstimate { bytes: 100, files: 3, dirs: 2, truncated: true };
    let missing = scan_spec_fast(spec.clone(), false, est, Some("1".to_string()));
    assert_eq!((missing.size_bytes, missing.modified.clone(), missing.exists), (0, None, false));
    let found = scan_spec_fast(spec, true, est, Some("1".to_string()));
    assert_eq!((found.size_bytes, found.file_count, found.dir_count, found.size_approximate), (100, 3, 2, true));
    assert_eq!(sanitize_id("a b/ü-1"), "a_b___1");
    assert_eq!(sanitize_window_label("tool:a-b c"), "tool:a-b_c");
    let entries = vec![found.clone(), entry("x", 5, true, Risk::Keep, Category::Config)];
    assert_eq!(total_size_bytes(&entries), 105);
    // 128 + id + name key + path + description key (+ modified), in bytes.
    assert_eq!(estimate_report_memory(&vec![found.clone()]), 128 + 3 + 12 + 14 + 8 + 1);
    let report = build_scan_report("/home/dev".to_string(), "linux".to_string(), entries, Vec::new(), ScanMode::Full, 7);
    assert_eq!((report.total_size_bytes, report.scan_mode.as_str()), (105, "full"));
    assert_eq!(scan_mode_name(ScanMode::Developer), "developer");
}

#[test]
fn path_entries_are_trimmed_and_flagged() {
    assert_eq!(path_entry_texts(" C:\\a ;;C:\\b", "windows"), strings(&["C:\\a", "C:\\b"]));
    let e = path_entries("/usr/bin: /opt/x :", "linux", &vec![true]);
    assert_eq!(e.len(), 2);
    assert_eq!((e[0].path.as_str(), e[0].exists, e[0].source.as_str()), ("/usr/bin", true, "PATH"));
    assert_eq!((e[1].path.as_str(), e[1].exists), ("/opt/x", false));
}

#[test]
fn insights_count_existing_entries() {
    let entries = vec![
        entry("a", 1, true, Risk::Cleanable, Category::Cache),
        entry("b", 1, false, Risk::Cleanable, Category::Toolchain),
        entry("c", 1, true, Risk::Keep, Category::Toolchain),
        entry("d", 1, true, Risk::Caution, Category::AiTool),
    ];
    let report = build_scan_report(
        String::new(),
        String::new(),
        entries,
        vec![
            PathEntry { path: "/a".to_string(), exists: false, source: "PATH".to_string() },
            PathEntry { path: "/b".to_string(), exists: true, source: "PATH".to_string() },
        ],
        ScanMode::Developer,
        0,
    );
    let mut r = rule("r", Category::Cache, &[], &[]);
    r.depends_on = strings(&["x", "y"]);
    let file = RuleFile { risk_model: model(), rules: vec![r.clone(), r] };
    let i = tool_insights(&report, &file);
    assert_eq!(
        (i.cleanable_count, i.toolchain_count, i.ai_tool_count, i.broken_path_count, i.config_rule_count, i.dependency_edge_count),
        (1, 1, 1, 1, 2, 4)
    );
}

#[test]
fn only_cleanable_entries_are_acted_on() {
    let est = SizeEstimate { bytes: 9, files: 1, dirs: 0, truncated: false };
    let p = preview_cleanup("/x".to_string(), Risk::Cleanable, true, est);
    assert!(p.allowed);
    assert_eq!(p.reason, "cleanable rule");
    let q = preview_cleanup("/x".to_string(), Risk::Keep, true, est);
    assert!(!q.allowed);
    assert_eq!(q.reason, "not cleanable or missing");
    let gone = preview_cleanup("/x".to_string(), Risk::Cleanable, false, est);
    assert_eq!((gone.allowed, gone.estimate.bytes), (false, 0));

    assert_eq!(
        delete_entry_plan("/x".to_string(), Risk::Caution, true),
        Err("Only cleanable entries can be deleted from this build".to_string())
    );
    let missing = delete_entry_plan("/x".to_string(), Risk::Cleanable, false).unwrap().unwrap();
    assert!(!missing.deleted);
    assert_eq!(delete_entry_plan("/x".to_string(), Risk::Cleanable, true), Ok(None));

    assert_eq!(
        quarantine_entry_plan(Risk::Keep, true, Some("/h"), Some("x"), 1, "linux"),
        Err("Only cleanable entries can be quarantined".to_string())
    );
    assert_eq!(
        quarantine_entry_plan(Risk::Cleanable, false, Some("/h"), Some("x"), 1, "linux"),
        Err("Path does not exist".to_string())
    );
    assert_eq!(
        quarantine_entry_plan(Risk::Cleanable, true, None, Some("x"), 1, "linux"),
        Err("Unable to resolve home directory".to_string())
    );
    let plan = quarantine_entry_plan(Risk::Cleanable, true, Some("/h"), Some("npm cache"), 1700, "linux").unwrap();
    assert_eq!(plan.root, "/h/.devenv-manager/quarantine");
    assert_eq!(plan.id, "1700_npm_cache");
    assert_eq!(plan.target, "/h/.devenv-manager/quarantine/1700_npm_cache");
    let unnamed = quarantine_entry_plan(Risk::Cleanable, true, Some("/h"), None, 5, "linux").unwrap();
    assert_eq!(unnamed.id, "5_item");
}

#[test]
fn restoring_takes_back_what_was_quarantined() {
    let plan = quarantine_entry_plan(Risk::Cleanable, true, Some("/h"), Some("cache"), 10, "linux").unwrap();
    let item = quarantine_item("/data/cache".to_string(), &plan, 11);
    assert_eq!(item.created, "11");
    let mut items = vec![QuarantineItem {
        id: "1_old".to_string(),
        original_path: "/old".to_string(),
        quarantine_path: "/h/q/1_old".to_string(),
        created: "1".to_string(),
    }];
    let before = items.clone();
    add_quarantine_item(&mut items, item.clone());
    assert_eq!(take_quarantine_item(&mut items, "10_cache"), Ok(item));
    assert_eq!(items, before);
    assert_eq!(take_quarantine_item(&mut items, "nope"), Err("Quarantine item not found".to_string()));
    assert_eq!(items, before);
    assert_eq!(moved_detail("/q/x"), "Moved to /q/x");
    assert_eq!(restored_detail("/q/x"), "Restored from /q/x");
}

#[test]
fn audit_log_keeps_the_newest_three_hundred() {
    let mut log: Vec<AuditLogEntry> = Vec::new();
    append_audit_entry(&mut log, 5, "delete-entry", "/x", "success", "gone");
    assert_eq!(log.len(), 1);
    assert_eq!(log[0].id, "5_delete_entry");
    assert_eq!(log[0].created, "5");
    for t in 0..400u64 {
        append_audit_entry(&mut log, t, "a", "/t", "success", "");
    }
    assert_eq!(log.len(), 300);
    assert_eq!(log[0].created, "399");
    assert_eq!(log[299].created, "100");
}

#[test]
fn deep_children_are_sorted_largest_first_and_stably() {
    let est = |b: u64| SizeEstimate { bytes: b, files: 0, dirs: 0, truncated: false };
    let child = deep_child_entry(3, "my dir", "/x/my dir".to_string(), true, est(4), None);
    assert_eq!(child.id, "deep_child_3_my_dir");
    assert_eq!(child.name_key, "literal:my dir");
    assert_eq!((child.category, child.risk), (Category::Cache, Risk::Caution));
    let items = vec![
        entry("a", 5, true, Risk::Caution, Category::Cache),
        entry("b", 9, true, Risk::Caution, Category::Cache),
        entry("c", 5, true, Risk::Caution, Category::Cache),
        entry("d", 1, true, Risk::Caution, Category::Cache),
    ];
    let sorted = sort_by_size_desc(&items);
    assert_eq!(sorted.iter().map(|e| e.id.as_str()).collect::<Vec<_>>(), vec!["b", "a", "c", "d"]);
}

#[test]
fn report_texts_and_html() {
    assert_eq!(html_escape("<a href=\"x\">&</a>"), "&lt;a href=&quot;x&quot;&gt;&amp;&lt;/a&gt;");
    assert_eq!(tr("env.cargoHome", "en-US"), "Cargo Home");
    assert_eq!(tr("env.cargoHome", "zh-CN"), "Cargo 主目录");
    assert_eq!(tr("drive:C:\\", "en-US"), "Drive root C:\\");
    assert_eq!(tr("literal:build", "zh-CN"), "磁盘根目录 build");
    assert_eq!(tr("env.nothing", "en-US"), "Unknown");
    assert_eq!(tr_risk(Risk::Cleanable, "zh-CN"), "可清理");
    assert_eq!(tr_risk(Risk::Keep, "en-US"), "Keep");
    assert_eq!(export_file_name("en-US"), "devenv-manager-report.html");
    assert_eq!(
        export_report_target(Some("/home/dev/Desktop"), "en-US", "linux"),
        Ok("/home/dev/Desktop/devenv-manager-report.html".to_string())
    );
    assert_eq!(export_report_target(None, "en-US", "linux"), Err("Unable to resolve desktop directory".to_string()));

    let mut shown = entry("cargoHome", 2048, true, Risk::Keep, Category::Toolchain);
    shown.path = "/home/<dev>".to_string();
    shown.size_approximate = true;
    let hidden = entry("npmCache", 1, false, Risk::Cleanable, Category::Cache);
    let report = build_scan_report("/home/dev".to_string(), "linux".to_string(), vec![hidden, shown], Vec::new(), ScanMode::Developer, 0);
    let html = render_html_report(&report, "en-US", &strings(&["1 B", "2.0 KB"]), "2.0 KB");
    assert!(html.starts_with("<!doctype html>\n<html lang=\"en-US\">"));
    assert!(html.contains("<title>DevEnv Manager Report</title>"));
    assert!(html.contains("<tbody><tr><td>Cargo Home</td><td><code>/home/&lt;dev&gt;</code></td><td>2.0 KB</td><td>Estimated</td><td>Keep</td></tr></tbody>"));
    assert!(!html.contains("npm"));
    assert!(html.contains("Total size: 2.0 KB"));
    assert!(html.contains("body{font-family:"));
    let zh = render_html_report(&report, "zh-CN", &Vec::new(), "0 B");
    assert!(zh.contains("<h1>开发环境管家报告</h1>"));
    assert!(zh.contains("<td></td><td>估算</td><td>保留</td>"));
}

#[test]
fn bounds_checks_match_the_arithmetic() {
    let fine = RuleFile { risk_model: model(), rules: vec![rule("a", Category::Cache, &[], &["cache", "sdk"])] };
    assert!(devenv_manager::scan::rules_are_within_bounds(&fine));
    let huge = RuleFile {
        risk_model: RiskModel { default: Risk::Caution, factors: vec![("big".to_string(), i32::MAX)] },
        rules: vec![rule("b", Category::Cache, &[], &["big"])],
    };
    assert!(!devenv_manager::scan::rules_are_within_bounds(&huge));
    let back = RuleFile {
        risk_model: RiskModel {
            default: Risk::Caution,
            factors: vec![("big".to_string(), i32::MAX - 40), ("neg".to_string(), -100)],
        },
        rules: vec![rule("c", Category::Cache, &[], &["big", "neg"])],
    };
    // A running total past i32::MAX fails even when the final score would fit.
    assert!(!devenv_manager::scan::rules_are_within_bounds(&back));
    assert!(devenv_manager::scan::dependency_edges_fit(&fine));
    let small = vec![entry("a", 10, true, Risk::Keep, Category::Cache)];
    assert!(devenv_manager::scan::report_totals_fit(&small));
    let big = vec![
        entry("a", u64::MAX, true, Risk::Keep, Category::Cache),
        entry("b", 1, true, Risk::Keep, Category::Cache),
    ];
    assert!(!devenv_manager::scan::report_totals_fit(&big));
}

#[test]
fn startup_estimates_are_chosen_by_risk_and_category() {
    let mk = |risk, category| spec_owned(
        "x".to_string(), "x".to_string(), "/x".to_string(), category, risk, String::new(),
    );
    assert_eq!(startup_estimate(&mk(Risk::Keep, Category::Cache), false), StartupEstimate::Missing);
    assert_eq!(
        startup_estimate(&mk(Risk::Keep, Category::Cache), true),
        StartupEstimate::Walk(ScanLimits { max_entries: 900, max_duration_ms: 18 })
    );
    assert_eq!(
        startup_estimate(&mk(Risk::Cleanable, Category::Config), true),
        StartupEstimate::Walk(startup_size_limits())
    );
    assert_eq!(startup_estimate(&mk(Risk::Keep, Category::Toolchain), true), StartupEstimate::PathOnly);
}

#[test]
fn a_startup_walk_counts_at_most_its_entry_limit() {
    let limits = startup_size_limits();
    let mut walk = SizeWalk::new();
    let mut steps = 0;
    while walk.step(limits, 0, if steps % 2 == 0 { WalkEntry::Dir } else { WalkEntry::File(Some(1)) })
        == WalkStep::Continue
    {
        steps += 1;
    }
    let e = walk.estimate();
    assert!(e.truncated);
    assert_eq!(e.files + e.dirs, 900);
}

#[test]
fn deep_scans_cap_and_sort_children() {
    let est = |b: u64| SizeEstimate { bytes: b, files: 1, dirs: 0, truncated: false };
    let child = |name: &str, b: u64| DeepChild {
        name: name.to_string(),
        exists: true,
        estimate: est(b),
        modified: None,
    };
    assert_eq!(
        deep_scan_entry("/gone", false, false, est(0), Vec::new(), "linux"),
        Err("Path does not exist".to_string())
    );
    let file = deep_scan_entry("/f.txt", true, false, est(5), vec![child("x", 1)], "linux").unwrap();
    assert!(file.children.is_empty());
    assert_eq!(file.estimate, est(5));
    let many: Vec<DeepChild> = (0..100u64).map(|i| child(&format!("c{i}"), i % 7)).collect();
    let r = deep_scan_entry("/d", true, true, est(9), many, "linux").unwrap();
    assert_eq!(deep_child_limit(), 80);
    assert_eq!(r.children.len(), 80);
    assert!(r.children.windows(2).all(|w| w[0].size_bytes >= w[1].size_bytes));
    assert!(r.children.iter().all(|c| c.path.starts_with("/d/c")));
    assert!(!r.children.iter().any(|c| c.name_key == "literal:c80"));
    let first_six: Vec<&str> = r.children.iter().filter(|c| c.size_bytes == 6).map(|c| c.id.as_str()).take(2).collect();
    assert_eq!(first_six, vec!["deep_child_6_c6", "deep_child_13_c13"]);
}

#[test]
fn quarantine_deletes_stay_inside_quarantine() {
    assert!(path_starts_with("/home/dev/.devenv-manager/quarantine/1_x", "/home/dev/.devenv-manager/quarantine", "linux"));
    assert!(!path_starts_with("/home/dev/.devenv-manager/quarantine2/x", "/home/dev/.devenv-manager/quarantine", "linux"));
    assert!(path_starts_with("/a//b/./c", "/a/b", "linux"));
    assert!(!path_starts_with("a/b", "/a", "linux"));
    assert!(path_starts_with(r"\\?\C:\Users\q\1_x", r"\\?\c:\Users\q", "windows"));
    assert!(!path_starts_with(r"\\?\C:\Users\Q\1_x", r"\\?\C:\Users\q", "windows"));
    assert!(path_starts_with("C:/Users/q/x", r"C:\Users\q", "windows"));
    assert_eq!(quarantine_target_check("/q/1_x", "/q", "linux"), Ok(()));
    assert_eq!(
        quarantine_target_check("/etc/passwd", "/q", "linux"),
        Err("Refusing to delete a file outside quarantine".to_string())
    );
}
