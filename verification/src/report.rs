use vstd::prelude::*;

use crate::scan::{EnvEntry, Risk, ScanReport};
use crate::seqs::find_first;
use crate::text::{
    chars_of, concat2, is_char, join, join_seq, owned, replace_all, replace_seq, str_eq,
    string_from_range, views,
};

verus! {

// ---------------------------------------------------------------------------
// Text
// ---------------------------------------------------------------------------

/// Whether the report is in Chinese.
pub open spec fn is_zh(locale: Seq<char>) -> bool {
    locale == "zh-CN"@
}

/// A text made safe inside HTML: `&`, `<`, `>` and `"` become entities
/// (`&` first).
pub open spec fn html_escape_spec(value: Seq<char>) -> Seq<char> {
    replace_seq(
        replace_seq(replace_seq(replace_seq(value, "&"@, "&amp;"@), "<"@, "&lt;"@), ">"@, "&gt;"@),
        "\""@,
        "&quot;"@,
    )
}

/// A text made safe inside HTML.
pub fn html_escape(value: &str) -> (r: String)
    ensures
        r@ == html_escape_spec(value@),
{
    proof {
        reveal_strlit("&");
        reveal_strlit("<");
        reveal_strlit(">");
        reveal_strlit("\"");
    }
    let a = replace_all(value, "&", "&amp;");
    let b = replace_all(a.as_str(), "<", "&lt;");
    let c = replace_all(b.as_str(), ">", "&gt;");
    replace_all(c.as_str(), "\"", "&quot;")
}

/// The name of a risk level.
pub open spec fn tr_risk_spec(risk: Risk, locale: Seq<char>) -> Seq<char> {
    match risk {
        Risk::Keep => if is_zh(locale) {
            "保留"@
        } else {
            "Keep"@
        },
        Risk::Caution => if is_zh(locale) {
            "谨慎"@
        } else {
            "Caution"@
        },
        Risk::Cleanable => if is_zh(locale) {
            "可清理"@
        } else {
            "Cleanable"@
        },
    }
}

/// Risk names tell the levels apart: in every locale two different levels
/// have different names, and in English each level is called by its own
/// name (`Keep`, `Caution`, `Cleanable`).
pub proof fn law_risk_names_tell_levels_apart(a: Risk, b: Risk, locale: Seq<char>)
    ensures
        a != b ==> tr_risk_spec(a, locale) != tr_risk_spec(b, locale),
        !is_zh(locale) ==> tr_risk_spec(Risk::Keep, locale) == "Keep"@,
        !is_zh(locale) ==> tr_risk_spec(Risk::Caution, locale) == "Caution"@,
        !is_zh(locale) ==> tr_risk_spec(Risk::Cleanable, locale) == "Cleanable"@,
{
    reveal_strlit("Keep");
    reveal_strlit("Caution");
    reveal_strlit("Cleanable");
    reveal_strlit("保留");
    reveal_strlit("谨慎");
    reveal_strlit("可清理");
    assert("保留"@[0] != "谨慎"@[0]);
    assert("Keep"@.len() != "Caution"@.len());
    assert("Keep"@.len() != "Cleanable"@.len());
    assert("Caution"@.len() != "Cleanable"@.len());
    assert("保留"@.len() != "可清理"@.len());
    assert("谨慎"@.len() != "可清理"@.len());
}

/// The display name of a risk level.
pub fn tr_risk(risk: Risk, locale: &str) -> (r: String)
    ensures
        r@ == tr_risk_spec(risk, locale@),
{
    let zh = str_eq(locale, "zh-CN");
    match risk {
        Risk::Keep => if zh {
            owned("保留")
        } else {
            owned("Keep")
        },
        Risk::Caution => if zh {
            owned("谨慎")
        } else {
            owned("Caution")
        },
        Risk::Cleanable => if zh {
            owned("可清理")
        } else {
            owned("Cleanable")
        },
    }
}

/// The display names of the scanned locations: key, Chinese, English.
pub open spec fn tr_table() -> Seq<(Seq<char>, Seq<char>, Seq<char>)> {
    seq![
        ("env.codexHome"@, "Codex 主目录"@, "Codex Home"@),
        ("env.codexSkills"@, "Codex Skills"@, "Codex Skills"@),
        ("env.codexCache"@, "Codex 运行时缓存"@, "Codex Runtime Cache"@),
        ("env.generalCache"@, "通用缓存"@, "General Cache"@),
        ("env.cargoHome"@, "Cargo 主目录"@, "Cargo Home"@),
        ("env.cargoBin"@, "Cargo 命令入口"@, "Cargo Binaries"@),
        ("env.rustupHome"@, "Rustup 主目录"@, "Rustup Home"@),
        ("env.rustToolchains"@, "Rust 工具链"@, "Rust Toolchains"@),
        ("env.openclawHome"@, "OpenClaw"@, "OpenClaw"@),
        ("env.qclawHome"@, "QClaw"@, "QClaw"@),
        ("env.codeiumHome"@, "Codeium/Windsurf"@, "Codeium/Windsurf"@),
        ("env.configHome"@, "配置目录"@, "Config Home"@),
        ("env.goPath"@, "Go 工作区"@, "Go Workspace"@),
        ("env.goCache"@, "Go 构建缓存"@, "Go Build Cache"@),
        ("env.mavenHome"@, "Maven 本地仓库"@, "Maven Local Repository"@),
        ("env.gradleHome"@, "Gradle 主目录"@, "Gradle Home"@),
        ("env.ivyHome"@, "Ivy 缓存"@, "Ivy Cache"@),
        ("env.sbtHome"@, "sbt 缓存"@, "sbt Cache"@),
        ("env.denoHome"@, "Deno"@, "Deno"@),
        ("env.bunHome"@, "Bun"@, "Bun"@),
        ("env.pnpmHome"@, "pnpm Store"@, "pnpm Store"@),
        ("env.yarnCache"@, "Yarn 缓存"@, "Yarn Cache"@),
        ("env.poetryCache"@, "Poetry 缓存"@, "Poetry Cache"@),
        ("env.uvCache"@, "uv 缓存"@, "uv Cache"@),
        ("env.condaHome"@, "Conda"@, "Conda"@),
        ("env.dockerHome"@, "Docker 配置"@, "Docker Config"@),
        ("env.vscodeHome"@, "VS Code 配置"@, "VS Code Config"@),
        ("env.androidHome"@, "Android 配置"@, "Android Config"@),
        ("env.androidGradle"@, "Android/Gradle 缓存"@, "Android/Gradle Cache"@),
        ("env.flutterHome"@, "Flutter 配置"@, "Flutter Config"@),
        ("env.npmGlobal"@, "npm 全局目录"@, "npm Global"@),
        ("env.npmCache"@, "npm 缓存"@, "npm Cache"@),
        ("env.pythonPrograms"@, "Python 安装"@, "Python Programs"@),
        ("env.pipCache"@, "pip 缓存"@, "pip Cache"@),
        ("env.openaiLocal"@, "OpenAI 本地数据"@, "OpenAI Local Data"@),
        ("env.pnpmLocal"@, "pnpm 本地数据"@, "pnpm Local Data"@),
        ("env.yarnLocalCache"@, "Yarn 本地缓存"@, "Yarn Local Cache"@),
        ("env.dockerDesktop"@, "Docker Desktop"@, "Docker Desktop"@),
        ("env.jetbrainsCache"@, "JetBrains 数据"@, "JetBrains Data"@),
        ("env.vscodeRoaming"@, "VS Code 用户数据"@, "VS Code User Data"@),
        ("env.visualStudioCache"@, "Visual Studio 数据"@, "Visual Studio Data"@),
        ("env.nugetCache"@, "NuGet 包缓存"@, "NuGet Package Cache"@),
        ("env.androidSdk"@, "Android SDK"@, "Android SDK"@),
        ("env.wingetCache"@, "winget 缓存"@, "winget Cache"@),
        ("env.temp"@, "临时目录"@, "Temporary Files"@),
        ("env.driveUsers"@, "用户目录集合"@, "Users"@),
        ("env.programFiles"@, "Program Files"@, "Program Files"@),
        ("env.programFilesX86"@, "Program Files (x86)"@, "Program Files (x86)"@),
        ("env.programData"@, "ProgramData"@, "ProgramData"@),
        ("env.vscodeExtensions"@, "VS Code 扩展"@, "VS Code Extensions"@),
        ("env.nodeGlobalModules"@, "Node 全局模块"@, "Node Global Modules"@),
        ("env.goModuleCache"@, "Go 模块缓存"@, "Go Module Cache"@),
        ("env.cargoRegistry"@, "Cargo Registry"@, "Cargo Registry"@),
        ("env.cargoGitCache"@, "Cargo Git 缓存"@, "Cargo Git Cache"@),
        ("env.rustTargetCache"@, "Rust 构建产物"@, "Rust Build Artifacts"@),
        ("env.dockerWslData"@, "Docker WSL 数据"@, "Docker WSL Data"@),
        ("env.visualStudioPackages"@, "Visual Studio 安装包缓存"@, "Visual Studio Package Cache"@),
        ("env.dotnetTools"@, ".NET 全局工具"@, ".NET Global Tools"@),
        ("env.denoCache"@, "Deno 缓存"@, "Deno Cache"@),
        ("env.bunInstallCache"@, "Bun 安装缓存"@, "Bun Install Cache"@),
        ("env.androidBuildCache"@, "Android 构建缓存"@, "Android Build Cache"@),
        ("env.windowsTemp"@, "Windows 临时目录"@, "Windows Temp"@),
        ("env.windowsDownloaded"@, "Windows 更新缓存"@, "Windows Update Cache"@),
    ]
}

/// The names stored under the first entry with this key.
pub open spec fn table_lookup(t: Seq<(Seq<char>, Seq<char>, Seq<char>)>, key: Seq<char>) -> Option<
    (Seq<char>, Seq<char>),
>
    decreases t.len(),
{
    if t.len() == 0 {
        None
    } else if t[0].0 == key {
        Some((t[0].1, t[0].2))
    } else {
        table_lookup(t.drop_first(), key)
    }
}

/// A name key for display: a key holding `:` names a drive root by what
/// follows its first `:`; a known key its name; anything else `Unknown`.
pub open spec fn tr_spec(key: Seq<char>, locale: Seq<char>) -> Seq<char> {
    let c = find_first(key, is_char(':'));
    if 0 <= c < key.len() {
        (if is_zh(locale) {
            "磁盘根目录 "@
        } else {
            "Drive root "@
        }) + key.skip(c + 1)
    } else {
        match table_lookup(tr_table(), key) {
            Some((z, e)) => if is_zh(locale) {
                z
            } else {
                e
            },
            None => "Unknown"@,
        }
    }
}

pub open spec fn table_views(t: Seq<(&str, &str, &str)>) -> Seq<(Seq<char>, Seq<char>, Seq<char>)> {
    t.map_values(|e: (&str, &str, &str)| (e.0@, e.1@, e.2@))
}

fn push_entry(
    t: &mut Vec<(&'static str, &'static str, &'static str)>,
    key: &'static str,
    zh: &'static str,
    en: &'static str,
)
    ensures
        table_views(final(t)@) == table_views(old(t)@).push((key@, zh@, en@)),
{
    let ghost before = t@;
    t.push((key, zh, en));
    assert(table_views(t@) =~= table_views(before).push((key@, zh@, en@)));
}

#[verifier::rlimit(40)]
fn tr_entries() -> (r: Vec<(&'static str, &'static str, &'static str)>)
    ensures
        table_views(r@) == tr_table(),
{
    let mut t: Vec<(&'static str, &'static str, &'static str)> = Vec::new();
    push_entry(&mut t, "env.codexHome", "Codex 主目录", "Codex Home");
    push_entry(&mut t, "env.codexSkills", "Codex Skills", "Codex Skills");
    push_entry(&mut t, "env.codexCache", "Codex 运行时缓存", "Codex Runtime Cache");
    push_entry(&mut t, "env.generalCache", "通用缓存", "General Cache");
    push_entry(&mut t, "env.cargoHome", "Cargo 主目录", "Cargo Home");
    push_entry(&mut t, "env.cargoBin", "Cargo 命令入口", "Cargo Binaries");
    push_entry(&mut t, "env.rustupHome", "Rustup 主目录", "Rustup Home");
    push_entry(&mut t, "env.rustToolchains", "Rust 工具链", "Rust Toolchains");
    push_entry(&mut t, "env.openclawHome", "OpenClaw", "OpenClaw");
    push_entry(&mut t, "env.qclawHome", "QClaw", "QClaw");
    push_entry(&mut t, "env.codeiumHome", "Codeium/Windsurf", "Codeium/Windsurf");
    push_entry(&mut t, "env.configHome", "配置目录", "Config Home");
    push_entry(&mut t, "env.goPath", "Go 工作区", "Go Workspace");
    push_entry(&mut t, "env.goCache", "Go 构建缓存", "Go Build Cache");
    push_entry(&mut t, "env.mavenHome", "Maven 本地仓库", "Maven Local Repository");
    push_entry(&mut t, "env.gradleHome", "Gradle 主目录", "Gradle Home");
    push_entry(&mut t, "env.ivyHome", "Ivy 缓存", "Ivy Cache");
    push_entry(&mut t, "env.sbtHome", "sbt 缓存", "sbt Cache");
    push_entry(&mut t, "env.denoHome", "Deno", "Deno");
    push_entry(&mut t, "env.bunHome", "Bun", "Bun");
    push_entry(&mut t, "env.pnpmHome", "pnpm Store", "pnpm Store");
    push_entry(&mut t, "env.yarnCache", "Yarn 缓存", "Yarn Cache");
    push_entry(&mut t, "env.poetryCache", "Poetry 缓存", "Poetry Cache");
    push_entry(&mut t, "env.uvCache", "uv 缓存", "uv Cache");
    push_entry(&mut t, "env.condaHome", "Conda", "Conda");
    push_entry(&mut t, "env.dockerHome", "Docker 配置", "Docker Config");
    push_entry(&mut t, "env.vscodeHome", "VS Code 配置", "VS Code Config");
    push_entry(&mut t, "env.androidHome", "Android 配置", "Android Config");
    push_entry(&mut t, "env.androidGradle", "Android/Gradle 缓存", "Android/Gradle Cache");
    push_entry(&mut t, "env.flutterHome", "Flutter 配置", "Flutter Config");
    push_entry(&mut t, "env.npmGlobal", "npm 全局目录", "npm Global");
    push_entry(&mut t, "env.npmCache", "npm 缓存", "npm Cache");
    push_entry(&mut t, "env.pythonPrograms", "Python 安装", "Python Programs");
    push_entry(&mut t, "env.pipCache", "pip 缓存", "pip Cache");
    push_entry(&mut t, "env.openaiLocal", "OpenAI 本地数据", "OpenAI Local Data");
    push_entry(&mut t, "env.pnpmLocal", "pnpm 本地数据", "pnpm Local Data");
    push_entry(&mut t, "env.yarnLocalCache", "Yarn 本地缓存", "Yarn Local Cache");
    push_entry(&mut t, "env.dockerDesktop", "Docker Desktop", "Docker Desktop");
    push_entry(&mut t, "env.jetbrainsCache", "JetBrains 数据", "JetBrains Data");
    push_entry(&mut t, "env.vscodeRoaming", "VS Code 用户数据", "VS Code User Data");
    push_entry(&mut t, "env.visualStudioCache", "Visual Studio 数据", "Visual Studio Data");
    push_entry(&mut t, "env.nugetCache", "NuGet 包缓存", "NuGet Package Cache");
    push_entry(&mut t, "env.androidSdk", "Android SDK", "Android SDK");
    push_entry(&mut t, "env.wingetCache", "winget 缓存", "winget Cache");
    push_entry(&mut t, "env.temp", "临时目录", "Temporary Files");
    push_entry(&mut t, "env.driveUsers", "用户目录集合", "Users");
    push_entry(&mut t, "env.programFiles", "Program Files", "Program Files");
    push_entry(&mut t, "env.programFilesX86", "Program Files (x86)", "Program Files (x86)");
    push_entry(&mut t, "env.programData", "ProgramData", "ProgramData");
    push_entry(&mut t, "env.vscodeExtensions", "VS Code 扩展", "VS Code Extensions");
    push_entry(&mut t, "env.nodeGlobalModules", "Node 全局模块", "Node Global Modules");
    push_entry(&mut t, "env.goModuleCache", "Go 模块缓存", "Go Module Cache");
    push_entry(&mut t, "env.cargoRegistry", "Cargo Registry", "Cargo Registry");
    push_entry(&mut t, "env.cargoGitCache", "Cargo Git 缓存", "Cargo Git Cache");
    push_entry(&mut t, "env.rustTargetCache", "Rust 构建产物", "Rust Build Artifacts");
    push_entry(&mut t, "env.dockerWslData", "Docker WSL 数据", "Docker WSL Data");
    push_entry(&mut t, "env.visualStudioPackages", "Visual Studio 安装包缓存", "Visual Studio Package Cache");
    push_entry(&mut t, "env.dotnetTools", ".NET 全局工具", ".NET Global Tools");
    push_entry(&mut t, "env.denoCache", "Deno 缓存", "Deno Cache");
    push_entry(&mut t, "env.bunInstallCache", "Bun 安装缓存", "Bun Install Cache");
    push_entry(&mut t, "env.androidBuildCache", "Android 构建缓存", "Android Build Cache");
    push_entry(&mut t, "env.windowsTemp", "Windows 临时目录", "Windows Temp");
    push_entry(&mut t, "env.windowsDownloaded", "Windows 更新缓存", "Windows Update Cache");
    t
}

/// The first index of `c` in `v`, or `v.len()`.
fn find_char(v: &Vec<char>, c: char) -> (r: usize)
    ensures
        r <= v@.len(),
        r < v@.len() ==> find_first(v@, is_char(c)) == r,
        r == v@.len() ==> find_first(v@, is_char(c)) == -1,
{
    let mut j: usize = 0;
    while j < v.len() && v[j] != c
        invariant
            j <= v@.len(),
            find_first(v@, is_char(c)) == crate::seqs::find_from(v@, is_char(c), j as int),
        decreases v.len() - j,
    {
        j += 1;
    }
    j
}

/// The display name of a name key.
pub fn tr(key: &str, locale: &str) -> (r: String)
    ensures
        r@ == tr_spec(key@, locale@),
{
    let zh = str_eq(locale, "zh-CN");
    let v = chars_of(key);
    let c = find_char(&v, ':');
    if c < v.len() {
        let rest = string_from_range(&v, c + 1, v.len());
        assert(rest@ == key@.skip(c + 1));
        return if zh {
            concat2("磁盘根目录 ", rest.as_str())
        } else {
            concat2("Drive root ", rest.as_str())
        };
    }
    let t = tr_entries();
    let ghost tv = table_views(t@);
    let mut i: usize = 0;
    assert(tv.skip(0) == tv);
    while i < t.len()
        invariant
            i <= t@.len(),
            tv == table_views(t@),
            tv == tr_table(),
            zh == is_zh(locale@),
            find_first(key@, is_char(':')) == -1,
            table_lookup(tv, key@) == table_lookup(tv.skip(i as int), key@),
        decreases t.len() - i,
    {
        assert(tv.skip(i as int).drop_first() == tv.skip(i + 1));
        assert(tv.skip(i as int)[0] == (t@[i as int].0@, t@[i as int].1@, t@[i as int].2@));
        if str_eq(t[i].0, key) {
            return if zh {
                owned(t[i].1)
            } else {
                owned(t[i].2)
            };
        }
        i += 1;
    }
    owned("Unknown")
}

// ---------------------------------------------------------------------------
// The HTML report
// ---------------------------------------------------------------------------

/// The file name an exported report gets.
pub open spec fn export_file_name_spec(locale: Seq<char>) -> Seq<char> {
    if is_zh(locale) {
        "开发环境管家报告.html"@
    } else {
        "devenv-manager-report.html"@
    }
}

/// The file name an exported report gets.
pub fn export_file_name(locale: &str) -> (r: String)
    ensures
        r@ == export_file_name_spec(locale@),
{
    if str_eq(locale, "zh-CN") {
        owned("开发环境管家报告.html")
    } else {
        owned("devenv-manager-report.html")
    }
}

/// Where an exported report is written: on the desktop; an error without
/// one.
pub fn export_report_target(desktop: Option<&str>, locale: &str, os: &str) -> (r: Result<
    String,
    String,
>)
    ensures
        desktop is None ==> (r matches Err(e) && e@ == "Unable to resolve desktop directory"@),
        desktop matches Some(d) ==> (r matches Ok(p) && p@ == crate::paths::join_spec(
            d@,
            export_file_name_spec(locale@),
            os@,
        )),
{
    match desktop {
        None => Err(owned("Unable to resolve desktop directory")),
        Some(d) => {
            let name = export_file_name(locale);
            Ok(crate::paths::join_path(d, name.as_str(), os))
        },
    }
}

/// The size text shown for the i-th entry (none when not given).
pub open spec fn size_text(sizes: Seq<String>, i: int) -> Seq<char> {
    if 0 <= i < sizes.len() {
        sizes[i]@
    } else {
        Seq::empty()
    }
}

/// The table row of an entry.
pub open spec fn row_spec(e: EnvEntry, size: Seq<char>, locale: Seq<char>) -> Seq<char> {
    "<tr><td>"@ + tr_spec(e.name_key@, locale) + "</td><td><code>"@ + html_escape_spec(e.path@)
        + "</code></td><td>"@ + size + "</td><td>"@ + (if e.size_approximate {
        if is_zh(locale) {
            "估算"@
        } else {
            "Estimated"@
        }
    } else {
        if is_zh(locale) {
            "精确"@
        } else {
            "Exact"@
        }
    }) + "</td><td>"@ + tr_risk_spec(e.risk, locale) + "</td></tr>"@
}

/// The rows of the first `n` entries that exist.
pub open spec fn rows_upto(entries: Seq<EnvEntry>, sizes: Seq<String>, locale: Seq<char>, n: int) -> Seq<
    Seq<char>,
>
    decreases n,
{
    if n <= 0 {
        Seq::empty()
    } else {
        let prev = rows_upto(entries, sizes, locale, n - 1);
        if entries[n - 1].exists {
            prev.push(row_spec(entries[n - 1], size_text(sizes, n - 1), locale))
        } else {
            prev
        }
    }
}

fn row(e: &EnvEntry, size: &str, locale: &str) -> (r: String)
    ensures
        r@ == row_spec(*e, size@, locale@),
{
    let zh = str_eq(locale, "zh-CN");
    let accuracy = if e.size_approximate {
        if zh {
            "估算"
        } else {
            "Estimated"
        }
    } else {
        if zh {
            "精确"
        } else {
            "Exact"
        }
    };
    let mut out = owned("<tr><td>");
    out.append(tr(e.name_key.as_str(), locale).as_str());
    out.append("</td><td><code>");
    out.append(html_escape(e.path.as_str()).as_str());
    out.append("</code></td><td>");
    out.append(size);
    out.append("</td><td>");
    out.append(accuracy);
    out.append("</td><td>");
    out.append(tr_risk(e.risk, locale).as_str());
    out.append("</td></tr>");
    out
}

fn pick(zh: bool, a: &'static str, b: &'static str) -> (r: &'static str)
    ensures
        r == if zh {
            a
        } else {
            b
        },
{
    if zh {
        a
    } else {
        b
    }
}

/// The report page; `sizes[i]` is the size text of the i-th entry and
/// `total_size` that of the whole.
pub open spec fn report_html_spec(
    report: ScanReport,
    locale: Seq<char>,
    sizes: Seq<String>,
    total_size: Seq<char>,
) -> Seq<char> {
    let zh = is_zh(locale);
    let title = if zh {
        "开发环境管家报告"@
    } else {
        "DevEnv Manager Report"@
    };
    let rows = join_seq(
        rows_upto(report.entries@, sizes, locale, report.entries@.len() as int),
        "\n"@,
    );
    "<!doctype html>\n<html lang=\""@
        + locale
        + "\">\n<head>\n<meta charset=\"utf-8\">\n<title>"@
        + title
        + "</title>\n<style>\nbody{font-family:Segoe UI,Microsoft YaHei,Arial,sans-serif;margin:28px;background:#f6f8fb;color:#182235}\nmain{max-width:1180px;margin:0 auto}\ntable{width:100%;border-collapse:collapse;background:#fff;border:1px solid #d9e0ea}\nth,td{padding:10px;border-bottom:1px solid #d9e0ea;text-align:left;vertical-align:top}\nth{background:#edf3f8}\ncode{background:#eef5ff;border:1px solid #d6e6fb;border-radius:6px;padding:2px 5px}\n.muted{color:#637083}\n</style>\n</head>\n<body><main>\n<h1>"@
        + title
        + "</h1>\n<p class=\"muted\">"@
        + (if zh { "用户目录"@ } else { "Home"@ })
        + ": <code>"@
        + html_escape_spec(report.home_dir@)
        + "</code> · "@
        + (if zh { "平台"@ } else { "Platform"@ })
        + ": "@
        + html_escape_spec(report.platform@)
        + " · "@
        + (if zh { "总大小"@ } else { "Total size"@ })
        + ": "@
        + total_size
        + "</p>\n<table>\n<thead><tr><th>"@
        + (if zh { "名称"@ } else { "Name"@ })
        + "</th><th>"@
        + (if zh { "路径"@ } else { "Path"@ })
        + "</th><th>"@
        + (if zh { "大小"@ } else { "Size"@ })
        + "</th><th>"@
        + (if zh { "精度"@ } else { "Accuracy"@ })
        + "</th><th>"@
        + (if zh { "风险"@ } else { "Risk"@ })
        + "</th></tr></thead>\n<tbody>"@
        + rows
        + "</tbody>\n</table>\n</main></body></html>"@
}

/// The HTML page of a scan report.
pub fn render_html_report(report: &ScanReport, locale: &str, sizes: &Vec<String>, total_size: &str) -> (r:
    String)
    ensures
        r@ == report_html_spec(*report, locale@, sizes@, total_size@),
{
    let zh = str_eq(locale, "zh-CN");
    let title = pick(zh, "开发环境管家报告", "DevEnv Manager Report");
    let mut row_texts: Vec<String> = Vec::new();
    let mut i: usize = 0;
    while i < report.entries.len()
        invariant
            i <= report.entries@.len(),
            views(row_texts@) == rows_upto(report.entries@, sizes@, locale@, i as int),
        decreases report.entries.len() - i,
    {
        let e = &report.entries[i];
        if e.exists {
            let size = if i < sizes.len() {
                sizes[i].as_str()
            } else {
                ""
            };
            proof {
                reveal_strlit("");
            }
            assert(size@ == size_text(sizes@, i as int));
            let text = row(e, size, locale);
            let ghost before = views(row_texts@);
            row_texts.push(text);
            assert(views(row_texts@) =~= before.push(text@));
        }
        i += 1;
    }
    let rows = join(&row_texts, "\n");
    let home_dir = html_escape(report.home_dir.as_str());
    let platform = html_escape(report.platform.as_str());
    let mut out = String::new();
    out.append("<!doctype html>\n<html lang=\"");
    out.append(locale);
    out.append("\">\n<head>\n<meta charset=\"utf-8\">\n<title>");
    out.append(title);
    out.append("</title>\n<style>\nbody{font-family:Segoe UI,Microsoft YaHei,Arial,sans-serif;margin:28px;background:#f6f8fb;color:#182235}\nmain{max-width:1180px;margin:0 auto}\ntable{width:100%;border-collapse:collapse;background:#fff;border:1px solid #d9e0ea}\nth,td{padding:10px;border-bottom:1px solid #d9e0ea;text-align:left;vertical-align:top}\nth{background:#edf3f8}\ncode{background:#eef5ff;border:1px solid #d6e6fb;border-radius:6px;padding:2px 5px}\n.muted{color:#637083}\n</style>\n</head>\n<body><main>\n<h1>");
    out.append(title);
    out.append("</h1>\n<p class=\"muted\">");
    out.append(pick(zh, "用户目录", "Home"));
    out.append(": <code>");
    out.append(home_dir.as_str());
    out.append("</code> · ");
    out.append(pick(zh, "平台", "Platform"));
    out.append(": ");
    out.append(platform.as_str());
    out.append(" · ");
    out.append(pick(zh, "总大小", "Total size"));
    out.append(": ");
    out.append(total_size);
    out.append("</p>\n<table>\n<thead><tr><th>");
    out.append(pick(zh, "名称", "Name"));
    out.append("</th><th>");
    out.append(pick(zh, "路径", "Path"));
    out.append("</th><th>");
    out.append(pick(zh, "大小", "Size"));
    out.append("</th><th>");
    out.append(pick(zh, "精度", "Accuracy"));
    out.append("</th><th>");
    out.append(pick(zh, "风险", "Risk"));
    out.append("</th></tr></thead>\n<tbody>");
    out.append(rows.as_str());
    out.append("</tbody>\n</table>\n</main></body></html>");
    assert(out@ =~= report_html_spec(*report, locale@, sizes@, total_size@));
    out
}

} // verus!
