use vstd::prelude::*;

verus! {

// ---------------------------------------------------------------------------
// Catalog data
// ---------------------------------------------------------------------------

/// A command whose presence (and version output) shows that a tool is installed.
#[derive(Debug, Clone, PartialEq, Eq)]
pub struct ToolCommandSpec {
    pub command: String,
    pub version_arg: String,
}

#[derive(Debug, Clone, PartialEq, Eq)]
pub struct ToolDetectionSpec {
    pub commands: Vec<ToolCommandSpec>,
}

#[derive(Debug, Clone, PartialEq, Eq)]
pub struct ToolRequirementSpec {
    pub required: bool,
    pub requires_admin: bool,
}

/// A tool of the built-in catalog.
#[derive(Debug, Clone, PartialEq, Eq)]
pub struct CatalogToolSpec {
    pub id: String,
    pub name: String,
    pub category_id: String,
    pub summary: Option<String>,
    pub description: Option<String>,
    pub platforms: Vec<String>,
    pub detection: ToolDetectionSpec,
    pub requirements: ToolRequirementSpec,
}

/// A named group of tools that is installed together.
#[derive(Debug, Clone, PartialEq, Eq)]
pub struct CatalogSuiteSpec {
    pub id: String,
    pub name: String,
    pub description: String,
    pub tool_ids: Vec<String>,
    pub required_tool_ids: Vec<String>,
    pub optional_tool_ids: Vec<String>,
}

#[derive(Debug, Clone, PartialEq, Eq)]
pub struct CatalogToolFile {
    pub tools: Vec<CatalogToolSpec>,
    pub suites: Vec<CatalogSuiteSpec>,
}

/// Maps earlier tool ids to the stable id that reports use.
#[derive(Debug, Clone, PartialEq, Eq)]
pub struct ToolIdentitySpec {
    pub stable_id: String,
    pub current_id: String,
    pub current_name: String,
}

#[derive(Debug, Clone, PartialEq, Eq)]
pub struct IdentityFile {
    pub identities: Vec<ToolIdentitySpec>,
}

/// How install sources are chosen on one platform.
#[derive(Debug, Clone, PartialEq, Eq)]
pub struct PlatformSourcePolicy {
    pub manager_priority: Vec<String>,
    pub minimum_quality_score: i32,
}

/// The source policy of each platform, keyed by platform name: a name's
/// first entry is the one read.
#[derive(Debug, Clone, PartialEq, Eq)]
pub struct SourcePolicyFile {
    pub platforms: Vec<(String, PlatformSourcePolicy)>,
}

// ---------------------------------------------------------------------------
// Online metadata
// ---------------------------------------------------------------------------

#[derive(Debug, Clone, PartialEq, Eq)]
pub struct ToolLifecycleMetadata {
    pub status: Option<String>,
    pub deprecated: bool,
    pub replaced_by: Option<String>,
}

#[derive(Debug, Clone, PartialEq, Eq)]
pub struct ToolDescriptions {
    pub short: Option<String>,
    pub long: Option<String>,
    pub source: Option<String>,
    pub homepage: Option<String>,
    pub last_updated_at: Option<String>,
}

#[derive(Debug, Clone, PartialEq, Eq)]
pub struct ToolUsageMetadata {
    pub primary_use_cases: Vec<String>,
    pub keywords: Vec<String>,
    pub related_tools: Vec<String>,
}

#[derive(Debug, Clone, PartialEq, Eq)]
pub struct ToolNotesMetadata {
    pub install: Vec<String>,
    pub upgrade: Vec<String>,
    pub known_issues: Vec<String>,
}

#[derive(Debug, Clone, PartialEq, Eq)]
pub struct ToolLinks {
    pub homepage: Option<String>,
    pub download: Option<String>,
    pub releases: Option<String>,
    pub docs: Option<String>,
}

#[derive(Debug, Clone, PartialEq, Eq)]
pub struct ToolDependenciesMetadata {
    pub required: bool,
    pub required_by_suites: Vec<String>,
    pub depends_on: Vec<String>,
    pub optional_dependencies: Vec<String>,
}

#[derive(Debug, Clone, PartialEq, Eq)]
pub struct ToolRiskMetadata {
    pub requires_admin: bool,
    pub portable: bool,
    pub system_critical: bool,
}

#[derive(Debug, Clone, PartialEq, Eq)]
pub struct ToolQualityMetadata {
    pub confidence: String,
    pub score: i32,
    pub official: bool,
    pub last_successful_scan_at: Option<String>,
    pub failure_count: u32,
    pub stale_after_days: Option<u32>,
}

#[derive(Debug, Clone, PartialEq, Eq)]
pub struct ToolVerifyCommand {
    pub command: String,
    pub args: Vec<String>,
    pub expected_pattern: String,
}

#[derive(Debug, Clone, PartialEq, Eq)]
pub struct ToolScanMetadata {
    pub status: String,
    pub scanned_at: Option<String>,
    pub errors: Vec<String>,
}

#[derive(Debug, Clone, PartialEq, Eq)]
pub struct ToolPackageMetadata {
    pub name: Option<String>,
    pub publisher: Option<String>,
    pub author: Option<String>,
    pub description: Option<String>,
    pub license: Option<String>,
    pub license_url: Option<String>,
    pub tags: Vec<String>,
}

#[derive(Debug, Clone, PartialEq, Eq)]
pub struct OnlineScanSpec {
    pub status: String,
    pub scanned_at: Option<String>,
    pub errors: Vec<String>,
}

#[derive(Debug, Clone, PartialEq, Eq)]
pub struct OnlineQualitySpec {
    pub confidence: String,
    pub score: i32,
    pub official: bool,
    pub last_successful_scan_at: Option<String>,
    pub failure_count: u32,
    pub stale_after_days: Option<u32>,
}

#[derive(Debug, Clone, PartialEq, Eq)]
pub struct OnlineVersionSpec {
    pub version: String,
    pub channel: String,
    pub latest: bool,
    pub prerelease: bool,
    pub lts: Option<bool>,
    pub release_date: Option<String>,
    pub eol_date: Option<String>,
    pub changelog_url: Option<String>,
}

#[derive(Debug, Clone, PartialEq, Eq)]
pub struct OnlineDownloadSpec {
    pub id: String,
    pub version: Option<String>,
    pub platform: String,
    pub architecture: Option<String>,
    pub kind: String,
    pub url: Option<String>,
    pub url_type: String,
    pub direct: bool,
    pub sha256: Option<String>,
    pub size_bytes: Option<u64>,
}

/// A package-manager command line for one action on one platform.
#[derive(Debug, Clone, PartialEq, Eq)]
pub struct OnlineCommandSpec {
    pub action: String,
    pub manager: String,
    pub platform: String,
    pub version: Option<String>,
    pub requires_admin: bool,
    pub supports_version: bool,
    pub shell: String,
    pub command: Vec<String>,
    pub template: Vec<String>,
}

#[derive(Debug, Clone, PartialEq, Eq)]
pub struct OnlineVerifySpec {
    pub commands: Vec<ToolVerifyCommand>,
}

/// One way to obtain a tool (a package-manager package, a download page...).
#[derive(Debug, Clone, PartialEq, Eq)]
pub struct OnlineSourceSpec {
    pub id: String,
    pub manager: String,
    pub package_id: Option<String>,
    pub platforms: Vec<String>,
    pub official: bool,
    pub priority: i32,
    pub scan: OnlineScanSpec,
    pub package: ToolPackageMetadata,
    pub links: ToolLinks,
    pub descriptions: ToolDescriptions,
    pub usage: ToolUsageMetadata,
    pub notes: ToolNotesMetadata,
    pub versions: Vec<OnlineVersionSpec>,
    pub downloads: Vec<OnlineDownloadSpec>,
    pub commands: Vec<OnlineCommandSpec>,
    pub quality: OnlineQualitySpec,
    pub verify: OnlineVerifySpec,
}

/// The online metadata of one tool.
#[derive(Debug, Clone, PartialEq, Eq)]
pub struct OnlineToolSpec {
    pub id: String,
    pub name: String,
    pub category_id: String,
    pub aliases: Vec<String>,
    pub tags: Vec<String>,
    pub platforms: Vec<String>,
    pub lifecycle: ToolLifecycleMetadata,
    pub links: ToolLinks,
    pub descriptions: ToolDescriptions,
    pub usage: ToolUsageMetadata,
    pub notes: ToolNotesMetadata,
    pub detection: ToolDetectionSpec,
    pub verify: OnlineVerifySpec,
    pub dependencies: ToolDependenciesMetadata,
    pub risk: ToolRiskMetadata,
    pub quality: OnlineQualitySpec,
    pub sources: Vec<OnlineSourceSpec>,
}

#[derive(Debug, Clone, PartialEq, Eq)]
pub struct OnlineMetadataFile {
    pub tools: Vec<OnlineToolSpec>,
}

/// All data that the environment check reads.
#[derive(Debug, Clone, PartialEq, Eq)]
pub struct EnvironmentData {
    pub catalog: CatalogToolFile,
    pub metadata: OnlineMetadataFile,
    pub policy: SourcePolicyFile,
    pub identities: IdentityFile,
}

// ---------------------------------------------------------------------------
// Environment check results
// ---------------------------------------------------------------------------

/// How to install (or uninstall) a tool.
#[derive(Debug, Clone, PartialEq, Eq)]
pub struct InstallPlan {
    pub package_manager: String,
    pub package_id: String,
    pub command: Vec<String>,
    pub needs_admin: bool,
    pub notes: String,
    pub source_id: String,
    pub source_quality: i32,
    pub download_url: Option<String>,
}

/// One version that the user may pick when installing.
#[derive(Debug, Clone, PartialEq, Eq)]
pub struct InstallVersionOption {
    pub id: String,
    pub label: String,
    pub package_id: String,
    pub command: Vec<String>,
    pub needs_admin: bool,
    pub source_id: String,
    pub manager: String,
    pub quality_score: i32,
    pub download_url: Option<String>,
}

#[derive(Debug, Clone, PartialEq, Eq)]
pub struct ToolVersionDetail {
    pub version: String,
    pub channel: String,
    pub latest: bool,
    pub prerelease: bool,
    pub lts: Option<bool>,
    pub release_date: Option<String>,
    pub eol_date: Option<String>,
    pub changelog_url: Option<String>,
}

#[derive(Debug, Clone, PartialEq, Eq)]
pub struct ToolDownloadDetail {
    pub id: String,
    pub version: Option<String>,
    pub platform: String,
    pub architecture: Option<String>,
    pub kind: String,
    pub url: Option<String>,
    pub url_type: String,
    pub direct: bool,
    pub sha256: Option<String>,
    pub size_bytes: Option<u64>,
}

#[derive(Debug, Clone, PartialEq, Eq)]
pub struct ToolCommandDetail {
    pub action: String,
    pub manager: String,
    pub platform: String,
    pub version: Option<String>,
    pub requires_admin: bool,
    pub supports_version: bool,
    pub shell: String,
    pub command: Vec<String>,
    pub template: Vec<String>,
}

#[derive(Debug, Clone, PartialEq, Eq)]
pub struct ToolSourceDetail {
    pub id: String,
    pub manager: String,
    pub package_id: Option<String>,
    pub official: bool,
    pub priority: i32,
    pub platforms: Vec<String>,
    pub scan: ToolScanMetadata,
    pub package: ToolPackageMetadata,
    pub descriptions: ToolDescriptions,
    pub usage: ToolUsageMetadata,
    pub notes: ToolNotesMetadata,
    pub links: ToolLinks,
    pub quality: ToolQualityMetadata,
    pub versions: Vec<ToolVersionDetail>,
    pub downloads: Vec<ToolDownloadDetail>,
    pub commands: Vec<ToolCommandDetail>,
    pub verify_commands: Vec<ToolVerifyCommand>,
}

#[derive(Debug, Clone, PartialEq, Eq)]
pub struct ToolDetailMetadata {
    pub aliases: Vec<String>,
    pub tags: Vec<String>,
    pub platforms: Vec<String>,
    pub lifecycle: ToolLifecycleMetadata,
    pub descriptions: ToolDescriptions,
    pub usage: ToolUsageMetadata,
    pub notes: ToolNotesMetadata,
    pub links: ToolLinks,
    pub dependencies: ToolDependenciesMetadata,
    pub risk: ToolRiskMetadata,
    pub quality: ToolQualityMetadata,
    pub verify_commands: Vec<ToolVerifyCommand>,
    pub sources: Vec<ToolSourceDetail>,
}

/// The check result of one tool.
#[derive(Debug, Clone, PartialEq, Eq)]
pub struct DevToolCheck {
    pub id: String,
    pub name: String,
    pub summary: Option<String>,
    pub description: Option<String>,
    pub command: String,
    pub installed: bool,
    pub version: Option<String>,
    pub source: String,
    pub status: String,
    pub required: bool,
    pub category: String,
    pub install_plan: Option<InstallPlan>,
    pub uninstall_plan: Option<InstallPlan>,
    pub version_options: Vec<InstallVersionOption>,
    pub detail: Option<ToolDetailMetadata>,
}

/// A suite together with the state of its tools.
#[derive(Debug, Clone, PartialEq, Eq)]
pub struct EnvironmentSuite {
    pub id: String,
    pub name: String,
    pub description: String,
    pub tool_ids: Vec<String>,
    pub required_count: usize,
    pub installed_count: usize,
    pub missing_count: usize,
    pub admin_required: bool,
}

/// The report of a (possibly still running) environment check.
#[derive(Debug, Clone, PartialEq, Eq)]
pub struct EnvironmentCheckReport {
    pub platform: String,
    pub package_manager_available: bool,
    pub package_manager_version: Option<String>,
    pub package_manager_checked: bool,
    pub required_missing: usize,
    pub optional_missing: usize,
    pub checked_tools: usize,
    pub pending_tools: usize,
    pub total_tools: usize,
    pub completed: bool,
    pub tools: Vec<DevToolCheck>,
    pub suites: Vec<EnvironmentSuite>,
}

/// The outcome of an install or uninstall command.
#[derive(Debug, Clone, PartialEq, Eq)]
pub struct InstallResult {
    pub tool_id: String,
    pub status: String,
    pub exit_code: Option<i32>,
    pub output: String,
}

} // verus!
