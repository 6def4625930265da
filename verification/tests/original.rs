use devenv_manager::catalog::{
    default_minimum_quality_score, suite_required_tool_ids, suite_tool_ids, tool_is_required,
};
use devenv_manager::locations::windows_common_command_paths_for;
use devenv_manager::model::{
    CatalogSuiteSpec, CatalogToolFile, CatalogToolSpec, EnvironmentData, IdentityFile,
    OnlineCommandSpec, OnlineMetadataFile, OnlineQualitySpec, OnlineScanSpec, OnlineSourceSpec,
    OnlineToolSpec, OnlineVerifySpec, OnlineVersionSpec, PlatformSourcePolicy, SourcePolicyFile,
    ToolCommandSpec, ToolDependenciesMetadata, ToolDescriptions, ToolDetectionSpec,
    ToolLifecycleMetadata, ToolLinks, ToolNotesMetadata, ToolPackageMetadata,
    ToolRequirementSpec, ToolRiskMetadata, ToolUsageMetadata,
};
use devenv_manager::paths::{
    command_candidate_names, is_windows_batch_path, is_windows_executable_path,
    is_windows_store_alias, path_is_under_root,
};
use devenv_manager::scan::{
    scan_specs, Category, PathContext, RiskModel, Risk, RuleFile, RuleSpec, ScanMode, ScanRequest,
};
use devenv_manager::sources::{
    build_install_plan_from_metadata, build_uninstall_plan_from_metadata,
    build_version_options_from_source, selected_source,
};
use devenv_manager::update::{select_update_asset, version_is_newer, GithubReleaseAsset};

fn strings(items: &[&str]) -> Vec<String> {
    items.iter().map(|s| s.to_string()).collect()
}

fn quality(score: i32) -> OnlineQualitySpec {
    OnlineQualitySpec {
        confidence: "high".to_string(),
        score,
        official: true,
        last_successful_scan_at: None,
        failure_count: 0,
        stale_after_days: None,
    }
}

fn command(action: &str, manager: &str, platform: &str, argv: &[&str], template: &[&str]) -> OnlineCommandSpec {
    OnlineCommandSpec {
        action: action.to_string(),
        manager: manager.to_string(),
        platform: platform.to_string(),
        version: None,
        requires_admin: false,
        supports_version: !template.is_empty(),
        shell: "argv".to_string(),
        command: strings(argv),
        template: strings(template),
    }
}

fn version(v: &str, latest: bool) -> OnlineVersionSpec {
    OnlineVersionSpec {
        version: v.to_string(),
        channel: "stable".to_string(),
        latest,
        prerelease: false,
        lts: None,
        release_date: None,
        eol_date: None,
        changelog_url: None,
    }
}

fn descriptions() -> ToolDescriptions {
    ToolDescriptions { short: None, long: None, source: None, homepage: None, last_updated_at: None }
}

fn links() -> ToolLinks {
    ToolLinks { homepage: None, download: None, releases: None, docs: None }
}

fn usage() -> ToolUsageMetadata {
    ToolUsageMetadata { primary_use_cases: Vec::new(), keywords: Vec::new(), related_tools: Vec::new() }
}

fn notes() -> ToolNotesMetadata {
    ToolNotesMetadata { install: Vec::new(), upgrade: Vec::new(), known_issues: Vec::new() }
}

fn source(
    id: &str,
    manager: &str,
    package: &str,
    platforms: &[&str],
    commands: Vec<OnlineCommandSpec>,
    versions: Vec<OnlineVersionSpec>,
) -> OnlineSourceSpec {
    OnlineSourceSpec {
        id: id.to_string(),
        manager: manager.to_string(),
        package_id: Some(package.to_string()),
        platforms: strings(platforms),
        official: true,
        priority: 10,
        scan: OnlineScanSpec { status: "ok".to_string(), scanned_at: None, errors: Vec::new() },
        package: ToolPackageMetadata {
            name: None,
            publisher: None,
            author: None,
            description: None,
            license: None,
            license_url: None,
            tags: Vec::new(),
        },
        links: links(),
        descriptions: descriptions(),
        usage: usage(),
        notes: notes(),
        versions,
        downloads: Vec::new(),
        commands,
        quality: quality(85),
        verify: OnlineVerifySpec { commands: Vec::new() },
    }
}

fn online_tool(id: &str, name: &str, sources: Vec<OnlineSourceSpec>) -> OnlineToolSpec {
    OnlineToolSpec {
        id: id.to_string(),
        name: name.to_string(),
        category_id: "vcs".to_string(),
        aliases: Vec::new(),
        tags: Vec::new(),
        platforms: strings(&["windows", "macos", "linux"]),
        lifecycle: ToolLifecycleMetadata { status: None, deprecated: false, replaced_by: None },
        links: links(),
        descriptions: descriptions(),
        usage: usage(),
        notes: notes(),
        detection: ToolDetectionSpec { commands: Vec::new() },
        verify: OnlineVerifySpec { commands: Vec::new() },
        dependencies: ToolDependenciesMetadata {
            required: false,
            required_by_suites: Vec::new(),
            depends_on: Vec::new(),
            optional_dependencies: Vec::new(),
        },
        risk: ToolRiskMetadata { requires_admin: false, portable: false, system_critical: false },
        quality: quality(90),
        sources,
    }
}

fn catalog_tool(id: &str, name: &str, command: &str) -> CatalogToolSpec {
    CatalogToolSpec {
        id: id.to_string(),
        name: name.to_string(),
        category_id: "vcs".to_string(),
        summary: None,
        description: None,
        platforms: strings(&["windows", "macos", "linux"]),
        detection: ToolDetectionSpec {
            commands: vec![ToolCommandSpec {
                command: command.to_string(),
                version_arg: "--version".to_string(),
            }],
        },
        requirements: ToolRequirementSpec { required: false, requires_admin: false },
    }
}

/// A small stand-in for the embedded catalog: git and git LFS, each with a
/// winget source for Windows and a Homebrew source for macOS.
fn environment_data() -> EnvironmentData {
    let git = online_tool(
        "git",
        "Git",
        vec![
            source(
                "git_winget",
                "winget",
                "Git.Git",
                &["windows"],
                vec![command(
                    "install",
                    "winget",
                    "windows",
                    &["winget", "install", "--id", "Git.Git", "-e"],
                    &["winget", "install", "--id", "Git.Git", "-e", "--version", "{{version}}"],
                )],
                vec![version("2.45.1", true), version("2.44.0", false)],
            ),
            source(
                "git_homebrew",
                "homebrew",
                "git",
                &["macos"],
                vec![command("install", "homebrew", "macos", &["brew", "install", "git"], &[])],
                Vec::new(),
            ),
        ],
    );
    let git_lfs = online_tool(
        "git_lfs",
        "Git LFS",
        vec![
            source(
                "git_lfs_winget",
                "winget",
                "GitHub.GitLFS",
                &["windows"],
                vec![
                    command("install", "winget", "windows", &["winget", "install", "--id", "GitHub.GitLFS", "-e"], &[]),
                    command("uninstall", "winget", "windows", &["winget", "uninstall", "--id", "GitHub.GitLFS", "-e"], &[]),
                ],
                Vec::new(),
            ),
            source(
                "git_lfs_homebrew",
                "homebrew",
                "git-lfs",
                &["macos"],
                vec![
                    command("install", "homebrew", "macos", &["brew", "install", "git-lfs"], &[]),
                    command("uninstall", "homebrew", "macos", &["brew", "uninstall", "git-lfs"], &[]),
                ],
                Vec::new(),
            ),
        ],
    );
    EnvironmentData {
        catalog: CatalogToolFile {
            tools: vec![catalog_tool("git", "Git", "git"), catalog_tool("git_lfs", "Git LFS", "git-lfs")],
            suites: Vec::new(),
        },
        metadata: OnlineMetadataFile { tools: vec![git, git_lfs] },
        policy: SourcePolicyFile {
            platforms: vec![
                (
                    "windows".to_string(),
                    PlatformSourcePolicy {
                        manager_priority: strings(&["winget", "scoop", "choco"]),
                        minimum_quality_score: 45,
                    },
                ),
                (
                    "macos".to_string(),
                    PlatformSourcePolicy {
                        manager_priority: strings(&["homebrew"]),
                        minimum_quality_score: 45,
                    },
                ),
            ],
        },
        identities: IdentityFile { identities: Vec::new() },
    }
}

fn check_install_source_and_versions(os: &str) {
    let data = environment_data();
    let manager = if os == "windows" { "winget" } else { "homebrew" };
    let manager_versions = vec![(manager.to_string(), "test-version".to_string())];
    let catalog_tool = data
        .catalog
        .tools
        .iter()
        .find(|tool| tool.id == "git")
        .expect("catalog should include git");
    let online_tool = data
        .metadata
        .tools
        .iter()
        .find(|tool| tool.id == "git")
        .expect("online metadata should include git");

    let source = selected_source(online_tool, &data, &manager_versions, os)
        .expect("policy should select an install source");
    let plan = build_install_plan_from_metadata(online_tool, catalog_tool, &data, &manager_versions, os)
        .expect("selected source should produce install plan");
    let options = build_version_options_from_source(source, &plan, os);

    assert_eq!(source.manager, manager);
    assert!(!plan.command.is_empty());
    assert!(plan.source_quality >= default_minimum_quality_score());
    assert!(options.iter().any(|option| option.id.ends_with(":default")));
    if source
        .commands
        .iter()
        .any(|command| command.action == "install" && command.supports_version)
    {
        assert!(
            options.iter().any(|option| {
                option.command.iter().any(|part| {
                    part != "{{version}}" && part.chars().any(|ch| ch.is_ascii_digit())
                })
            }),
            "version-capable source should expose version install options"
        );
    }
}

#[test]
fn embedded_online_metadata_selects_install_source_and_versions() {
    check_install_source_and_versions("windows");
    check_install_source_and_versions("macos");
}

fn check_uninstall_plan(os: &str) {
    let data = environment_data();
    let manager = if os == "windows" { "winget" } else { "homebrew" };
    let manager_versions = vec![(manager.to_string(), "test-version".to_string())];
    let catalog_tool = data
        .catalog
        .tools
        .iter()
        .find(|tool| tool.id == "git_lfs")
        .expect("catalog should include git lfs");
    let online_tool = data
        .metadata
        .tools
        .iter()
        .find(|tool| tool.id == "git_lfs")
        .expect("online metadata should include git lfs");

    let plan = build_uninstall_plan_from_metadata(online_tool, catalog_tool, &data, &manager_versions, os)
        .expect("selected source should produce uninstall plan");

    assert_eq!(plan.package_manager, manager);
    assert!(plan.command.iter().any(|part| part == "uninstall"));
}

#[test]
fn embedded_online_metadata_exposes_uninstall_plan() {
    check_uninstall_plan("windows");
    check_uninstall_plan("macos");
}

#[test]
fn suite_required_tool_ids_drive_required_status() {
    let suite = CatalogSuiteSpec {
        id: "frontend".to_string(),
        name: "Frontend".to_string(),
        description: String::new(),
        tool_ids: vec!["node_lts".to_string(), "vscode".to_string()],
        required_tool_ids: vec!["node_lts".to_string(), "git".to_string()],
        optional_tool_ids: vec![
            "vscode".to_string(),
            "pnpm".to_string(),
            "yarn".to_string(),
            "bun".to_string(),
        ],
    };
    let identities = IdentityFile { identities: Vec::new() };
    let required = suite_required_tool_ids(&vec![suite.clone()], &identities);
    let node = CatalogToolSpec {
        id: "node_lts".to_string(),
        name: "Node.js LTS".to_string(),
        category_id: "javascript".to_string(),
        summary: None,
        description: None,
        platforms: vec!["windows".to_string()],
        detection: ToolDetectionSpec {
            commands: vec![ToolCommandSpec {
                command: "node".to_string(),
                version_arg: "--version".to_string(),
            }],
        },
        requirements: ToolRequirementSpec { required: false, requires_admin: false },
    };

    assert!(tool_is_required(&node, &identities, &required));
    assert_eq!(
        suite_tool_ids(&suite, &identities),
        vec!["node_lts", "git", "vscode", "pnpm", "yarn", "bun"]
    );
}

#[test]
fn version_comparison_handles_multi_digit_segments() {
    assert!(version_is_newer("v1.10.0", "1.2.9"));
    assert!(version_is_newer("2.0.0", "1.99.99"));
    assert!(!version_is_newer("v1.2.0", "1.2.0"));
    assert!(!version_is_newer("v1.2.0-beta.1", "1.2.0"));
}

fn check_update_asset(os: &str) {
    let assets = vec![
        GithubReleaseAsset {
            name: "devenv-manager-source.zip".to_string(),
            browser_download_url: "https://example.test/source.zip".to_string(),
        },
        GithubReleaseAsset {
            name: if os == "windows" {
                "DevEnv-Manager_0.2.0_x64-setup.exe"
            } else if os == "macos" {
                "DevEnv-Manager_0.2.0_universal.dmg"
            } else {
                "devenv-manager_0.2.0_amd64.AppImage"
            }
            .to_string(),
            browser_download_url: "https://example.test/installer".to_string(),
        },
    ];

    let selected = select_update_asset(&assets, os).expect("asset should be selected");

    assert_eq!(selected.browser_download_url, "https://example.test/installer");
}

#[test]
fn update_asset_selection_prefers_platform_installers() {
    check_update_asset("windows");
    check_update_asset("macos");
    check_update_asset("linux");
}

fn rule(id: &str, category: Category, paths: &[(&str, &str)], factors: &[&str]) -> RuleSpec {
    RuleSpec {
        id: id.to_string(),
        name_key: format!("env.{id}"),
        category,
        path_by_platform: paths.iter().map(|(k, v)| (k.to_string(), v.to_string())).collect(),
        risk_factors: strings(factors),
        depends_on: Vec::new(),
    }
}

/// A small stand-in for the embedded scan rules.
fn rule_file() -> RuleFile {
    RuleFile {
        risk_model: RiskModel {
            default: Risk::Caution,
            factors: vec![
                ("cache".to_string(), 30),
                ("rebuildable".to_string(), 10),
                ("userConfig".to_string(), -40),
            ],
        },
        rules: vec![
            rule(
                "cargo_home",
                Category::Toolchain,
                &[("windows", "{home}/.cargo"), ("all", "{home}/.cargo")],
                &[],
            ),
            rule("npm_cache", Category::Cache, &[("all", "{home}/.npm")], &["cache", "rebuildable"]),
            rule("config_home", Category::Config, &[("linux", "{home}/.config")], &["userConfig"]),
        ],
    }
}

fn check_drive_scan(os: &str) {
    let home = if os == "windows" { r"C:\Users\dev" } else { "/home/dev" };
    let drive = if os == "windows" { r"C:\" } else { "/" };
    let request = ScanRequest { mode: ScanMode::Drive, drive: Some(drive.to_string()) };
    let ctx = PathContext {
        home: home.to_string(),
        local_app_data: None,
        app_data: None,
        program_data: None,
        temp: if os == "windows" { r"C:\Temp".to_string() } else { "/tmp".to_string() },
        os: os.to_string(),
    };

    let specs = scan_specs(&request, &rule_file(), &ctx, true, &Vec::new())
        .expect("drive scan specs should build");

    assert!(
        specs.iter().any(|spec| spec.id == "cargo_home"),
        "drive scan should include configured developer environment rules"
    );
    assert!(
        !specs.iter().any(|spec| spec.id.starts_with("drive_")),
        "drive scan should not replace developer rules with drive summary placeholders"
    );
}

#[test]
fn drive_scan_uses_developer_rules_in_selected_root() {
    check_drive_scan("windows");
    check_drive_scan("linux");
}

#[test]
fn root_filter_does_not_match_similar_prefixes() {
    assert!(path_is_under_root(r"C:\Users\dev\.cargo", r"C:\", "windows"));
    assert!(!path_is_under_root(r"D:\Users\dev\.cargo", r"C:\", "windows"));
    assert!(path_is_under_root("/home/dev/.cargo", "/", "linux"));
    assert!(!path_is_under_root("/mnt/dev/.cargo", "/home", "linux"));
}

#[test]
fn windows_store_alias_is_not_treated_as_installed_tool() {
    assert!(is_windows_store_alias(
        r"C:\Users\dev\AppData\Local\Microsoft\WindowsApps\python.exe"
    ));
    assert!(!is_windows_store_alias(r"C:\Program Files\Python313\python.exe"));
}

#[test]
fn winget_in_windows_apps_is_not_filtered_as_store_alias() {
    assert!(!is_windows_store_alias(
        r"C:\Users\dev\AppData\Local\Microsoft\WindowsApps\winget.exe"
    ));
}

#[test]
fn windows_batch_paths_are_executable_candidates() {
    assert!(is_windows_executable_path(r"C:\Program Files\nodejs\npm.cmd"));
    assert!(is_windows_batch_path(r"C:\Program Files\nodejs\npm.cmd"));
    assert!(!is_windows_batch_path(r"C:\Program Files\nodejs\node.exe"));
}

#[test]
fn windows_command_candidates_prefer_real_launchers() {
    let candidates = command_candidate_names("npm", "windows", None);

    assert!(candidates.iter().any(|name| name == "npm.exe"));
    assert!(candidates.iter().any(|name| name == "npm.cmd"));
    assert!(
        candidates.iter().position(|name| name == "npm.cmd").unwrap()
            < candidates.iter().position(|name| name == "npm").unwrap(),
        "extension-qualified launchers should be checked before extensionless shims"
    );
}

#[test]
fn common_windows_paths_cover_gui_process_path_gaps() {
    let paths = windows_common_command_paths_for(
        r"C:\Users\dev",
        r"C:\Users\dev\AppData\Local",
        r"C:\Users\dev\AppData\Roaming",
        r"C:\Program Files",
        r"C:\Program Files (x86)",
        r"C:\ProgramData",
        r"C:\Windows",
    )
    .into_iter()
    .map(|path| path.to_ascii_lowercase())
    .collect::<Vec<_>>();

    for expected in [
        r"c:\users\dev\appdata\local\microsoft\windowsapps",
        r"c:\program files\git\cmd",
        r"c:\program files\nodejs",
        r"c:\users\dev\.cargo\bin",
        r"c:\program files\github cli",
    ] {
        assert!(paths.iter().any(|path| path == expected), "missing {expected}");
    }
}
