use vstd::prelude::*;

use crate::catalog::{clone_opt, clone_strings, platform_matches, platform_ok};
use crate::model::{
    OnlineCommandSpec, OnlineDownloadSpec, OnlineQualitySpec, OnlineSourceSpec, OnlineToolSpec,
    OnlineVersionSpec, ToolCommandDetail, ToolDependenciesMetadata, ToolDescriptions,
    ToolDetailMetadata, ToolDownloadDetail, ToolLifecycleMetadata, ToolLinks, ToolNotesMetadata,
    ToolPackageMetadata, ToolQualityMetadata, ToolRiskMetadata, ToolScanMetadata,
    ToolSourceDetail, ToolUsageMetadata, ToolVerifyCommand, ToolVersionDetail,
};
use crate::seqs::keep;
use crate::sorting::{
    arrange, lemma_insert_stable, lemma_lex_total, lemma_lex_trans, lex_le, prefix_order,
    stable_order, str_le, total_preorder,
};
use crate::text::{is_blank, owned, str_eq, trim, trim_seq};

verus! {

// ---------------------------------------------------------------------------
// Copies
// ---------------------------------------------------------------------------

/// A field-by-field copy.
pub fn copy_lifecycle(x: &ToolLifecycleMetadata) -> (r: ToolLifecycleMetadata)
    ensures
        r == *x,
{
    ToolLifecycleMetadata {
        status: clone_opt(&x.status),
        deprecated: x.deprecated,
        replaced_by: clone_opt(&x.replaced_by),
    }
}

pub open spec fn same_usage(a: ToolUsageMetadata, b: ToolUsageMetadata) -> bool {
    &&& a.primary_use_cases@ == b.primary_use_cases@
    &&& a.keywords@ == b.keywords@
    &&& a.related_tools@ == b.related_tools@
}

/// A field-by-field copy.
pub fn copy_usage(x: &ToolUsageMetadata) -> (r: ToolUsageMetadata)
    ensures
        same_usage(r, *x),
{
    ToolUsageMetadata {
        primary_use_cases: clone_strings(&x.primary_use_cases),
        keywords: clone_strings(&x.keywords),
        related_tools: clone_strings(&x.related_tools),
    }
}

pub open spec fn same_notes(a: ToolNotesMetadata, b: ToolNotesMetadata) -> bool {
    &&& a.install@ == b.install@
    &&& a.upgrade@ == b.upgrade@
    &&& a.known_issues@ == b.known_issues@
}

/// A field-by-field copy.
pub fn copy_notes(x: &ToolNotesMetadata) -> (r: ToolNotesMetadata)
    ensures
        same_notes(r, *x),
{
    ToolNotesMetadata {
        install: clone_strings(&x.install),
        upgrade: clone_strings(&x.upgrade),
        known_issues: clone_strings(&x.known_issues),
    }
}

pub open spec fn same_dependencies(a: ToolDependenciesMetadata, b: ToolDependenciesMetadata) -> bool {
    &&& a.required == b.required
    &&& a.required_by_suites@ == b.required_by_suites@
    &&& a.depends_on@ == b.depends_on@
    &&& a.optional_dependencies@ == b.optional_dependencies@
}

/// A field-by-field copy.
pub fn copy_dependencies(x: &ToolDependenciesMetadata) -> (r: ToolDependenciesMetadata)
    ensures
        same_dependencies(r, *x),
{
    ToolDependenciesMetadata {
        required: x.required,
        required_by_suites: clone_strings(&x.required_by_suites),
        depends_on: clone_strings(&x.depends_on),
        optional_dependencies: clone_strings(&x.optional_dependencies),
    }
}

/// A field-by-field copy.
pub fn copy_risk(x: &ToolRiskMetadata) -> (r: ToolRiskMetadata)
    ensures
        r == *x,
{
    ToolRiskMetadata {
        requires_admin: x.requires_admin,
        portable: x.portable,
        system_critical: x.system_critical,
    }
}

pub open spec fn same_verify(a: ToolVerifyCommand, b: ToolVerifyCommand) -> bool {
    &&& a.command == b.command
    &&& a.args@ == b.args@
    &&& a.expected_pattern == b.expected_pattern
}

pub open spec fn same_verify_list(a: Seq<ToolVerifyCommand>, b: Seq<ToolVerifyCommand>) -> bool {
    &&& a.len() == b.len()
    &&& forall|i: int| 0 <= i < a.len() ==> same_verify(#[trigger] a[i], b[i])
}

/// A field-by-field copy of each verify command.
pub fn copy_verify_commands(v: &Vec<ToolVerifyCommand>) -> (r: Vec<ToolVerifyCommand>)
    ensures
        same_verify_list(r@, v@),
{
    let mut out: Vec<ToolVerifyCommand> = Vec::new();
    let mut i: usize = 0;
    while i < v.len()
        invariant
            i <= v.len(),
            out@.len() == i,
            forall|k: int| 0 <= k < i ==> same_verify(#[trigger] out@[k], v@[k]),
        decreases v.len() - i,
    {
        let c = &v[i];
        out.push(
            ToolVerifyCommand {
                command: c.command.clone(),
                args: clone_strings(&c.args),
                expected_pattern: c.expected_pattern.clone(),
            },
        );
        i += 1;
    }
    out
}

// ---------------------------------------------------------------------------
// URLs and normalizing
// ---------------------------------------------------------------------------

pub open spec fn opt_view(o: Option<String>) -> Option<Seq<char>> {
    match o {
        Some(s) => Some(s@),
        None => None,
    }
}

/// A URL without surrounding whitespace; none when it is blank.
pub open spec fn clean_url_spec(value: Option<Seq<char>>) -> Option<Seq<char>> {
    match value {
        Some(u) => if trim_seq(u).len() == 0 {
            None
        } else {
            Some(trim_seq(u))
        },
        None => None,
    }
}

/// A URL trimmed, or none when blank.
pub fn clean_optional_url(value: &Option<String>) -> (r: Option<String>)
    ensures
        opt_view(r) == clean_url_spec(opt_view(*value)),
{
    match value {
        Some(url) => {
            let t = trim(url.as_str());
            if t.as_str().unicode_len() == 0 {
                None
            } else {
                Some(t)
            }
        },
        None => None,
    }
}

/// Descriptions with the homepage URL cleaned.
pub fn normalize_descriptions(d: &ToolDescriptions) -> (r: ToolDescriptions)
    ensures
        r.short == d.short,
        r.long == d.long,
        r.source == d.source,
        opt_view(r.homepage) == clean_url_spec(opt_view(d.homepage)),
        r.last_updated_at == d.last_updated_at,
{
    ToolDescriptions {
        short: clone_opt(&d.short),
        long: clone_opt(&d.long),
        source: clone_opt(&d.source),
        homepage: clean_optional_url(&d.homepage),
        last_updated_at: clone_opt(&d.last_updated_at),
    }
}

/// Links with every URL cleaned.
pub fn normalize_links(links: &ToolLinks) -> (r: ToolLinks)
    ensures
        opt_view(r.homepage) == clean_url_spec(opt_view(links.homepage)),
        opt_view(r.download) == clean_url_spec(opt_view(links.download)),
        opt_view(r.releases) == clean_url_spec(opt_view(links.releases)),
        opt_view(r.docs) == clean_url_spec(opt_view(links.docs)),
{
    ToolLinks {
        homepage: clean_optional_url(&links.homepage),
        download: clean_optional_url(&links.download),
        releases: clean_optional_url(&links.releases),
        docs: clean_optional_url(&links.docs),
    }
}

/// Package metadata with the license URL cleaned.
pub fn normalize_package(p: &ToolPackageMetadata) -> (r: ToolPackageMetadata)
    ensures
        r.name == p.name,
        r.publisher == p.publisher,
        r.author == p.author,
        r.description == p.description,
        r.license == p.license,
        opt_view(r.license_url) == clean_url_spec(opt_view(p.license_url)),
        r.tags@ == p.tags@,
{
    ToolPackageMetadata {
        name: clone_opt(&p.name),
        publisher: clone_opt(&p.publisher),
        author: clone_opt(&p.author),
        description: clone_opt(&p.description),
        license: clone_opt(&p.license),
        license_url: clean_optional_url(&p.license_url),
        tags: clone_strings(&p.tags),
    }
}

// ---------------------------------------------------------------------------
// Details
// ---------------------------------------------------------------------------

pub open spec fn quality_ok(r: ToolQualityMetadata, q: OnlineQualitySpec) -> bool {
    &&& r.confidence == q.confidence
    &&& r.score == q.score
    &&& r.official == q.official
    &&& r.last_successful_scan_at == q.last_successful_scan_at
    &&& r.failure_count == q.failure_count
    &&& r.stale_after_days == q.stale_after_days
}

/// Quality metadata as the detail view shows it.
pub fn quality_metadata(q: &OnlineQualitySpec) -> (r: ToolQualityMetadata)
    ensures
        quality_ok(r, *q),
{
    ToolQualityMetadata {
        confidence: q.confidence.clone(),
        score: q.score,
        official: q.official,
        last_successful_scan_at: clone_opt(&q.last_successful_scan_at),
        failure_count: q.failure_count,
        stale_after_days: q.stale_after_days,
    }
}

pub open spec fn version_detail_ok(r: ToolVersionDetail, v: OnlineVersionSpec) -> bool {
    &&& r.version == v.version
    &&& r.channel == v.channel
    &&& r.latest == v.latest
    &&& r.prerelease == v.prerelease
    &&& r.lts == v.lts
    &&& r.release_date == v.release_date
    &&& r.eol_date == v.eol_date
    &&& opt_view(r.changelog_url) == clean_url_spec(opt_view(v.changelog_url))
}

/// A version as the detail view shows it.
pub fn version_detail_metadata(v: &OnlineVersionSpec) -> (r: ToolVersionDetail)
    ensures
        version_detail_ok(r, *v),
{
    ToolVersionDetail {
        version: v.version.clone(),
        channel: v.channel.clone(),
        latest: v.latest,
        prerelease: v.prerelease,
        lts: v.lts,
        release_date: clone_opt(&v.release_date),
        eol_date: clone_opt(&v.eol_date),
        changelog_url: clean_optional_url(&v.changelog_url),
    }
}

/// A blank text is replaced by a default.
pub open spec fn or_default(s: Seq<char>, default: Seq<char>) -> Seq<char> {
    if trim_seq(s).len() == 0 {
        default
    } else {
        s
    }
}

pub open spec fn download_detail_ok(r: ToolDownloadDetail, d: OnlineDownloadSpec) -> bool {
    &&& r.id@ == or_default(d.id@, "default"@)
    &&& r.version == d.version
    &&& r.platform == d.platform
    &&& r.architecture == d.architecture
    &&& r.kind@ == or_default(d.kind@, "package"@)
    &&& opt_view(r.url) == clean_url_spec(opt_view(d.url))
    &&& r.url_type == d.url_type
    &&& r.direct == d.direct
    &&& r.sha256 == d.sha256
    &&& r.size_bytes == d.size_bytes
}

/// A download as the detail view shows it, with defaults for a blank id and kind.
pub fn download_detail_metadata(d: &OnlineDownloadSpec) -> (r: ToolDownloadDetail)
    ensures
        download_detail_ok(r, *d),
{
    ToolDownloadDetail {
        id: if is_blank(d.id.as_str()) {
            owned("default")
        } else {
            d.id.clone()
        },
        version: clone_opt(&d.version),
        platform: d.platform.clone(),
        architecture: clone_opt(&d.architecture),
        kind: if is_blank(d.kind.as_str()) {
            owned("package")
        } else {
            d.kind.clone()
        },
        url: clean_optional_url(&d.url),
        url_type: d.url_type.clone(),
        direct: d.direct,
        sha256: clone_opt(&d.sha256),
        size_bytes: d.size_bytes,
    }
}

pub open spec fn command_detail_ok(r: ToolCommandDetail, c: OnlineCommandSpec) -> bool {
    &&& r.action == c.action
    &&& r.manager == c.manager
    &&& r.platform == c.platform
    &&& r.version == c.version
    &&& r.requires_admin == c.requires_admin
    &&& r.supports_version == c.supports_version
    &&& r.shell == c.shell
    &&& r.command@ == c.command@
    &&& r.template@ == c.template@
}

/// A command as the detail view shows it.
pub fn command_detail_metadata(c: &OnlineCommandSpec) -> (r: ToolCommandDetail)
    ensures
        command_detail_ok(r, *c),
{
    ToolCommandDetail {
        action: c.action.clone(),
        manager: c.manager.clone(),
        platform: c.platform.clone(),
        version: clone_opt(&c.version),
        requires_admin: c.requires_admin,
        supports_version: c.supports_version,
        shell: c.shell.clone(),
        command: clone_strings(&c.command),
        template: clone_strings(&c.template),
    }
}

/// How many versions and downloads a source detail shows at most.
pub open spec fn shown_versions() -> int {
    60
}

pub open spec fn shown_downloads() -> int {
    12
}

pub open spec fn download_on_pred(os: Seq<char>) -> spec_fn(OnlineDownloadSpec) -> bool {
    |d: OnlineDownloadSpec| d.platform@ == os || d.platform@ == "all"@
}

pub open spec fn command_on_pred(os: Seq<char>) -> spec_fn(OnlineCommandSpec) -> bool {
    |c: OnlineCommandSpec| c.platform@ == os
}

pub open spec fn min_int(a: int, b: int) -> int {
    if a <= b {
        a
    } else {
        b
    }
}

/// A source as the detail view shows it: its first 60 versions, its first
/// 12 downloads for the platform, its commands for the platform, and its
/// URLs cleaned.
pub open spec fn source_detail_ok(r: ToolSourceDetail, s: OnlineSourceSpec, os: Seq<char>) -> bool {
    let downloads = keep(s.downloads@, download_on_pred(os));
    let commands = keep(s.commands@, command_on_pred(os));
    &&& r.id == s.id
    &&& r.manager == s.manager
    &&& r.package_id == s.package_id
    &&& r.official == s.official
    &&& r.priority == s.priority
    &&& r.platforms@ == s.platforms@
    &&& r.scan.status == s.scan.status && r.scan.scanned_at == s.scan.scanned_at
        && r.scan.errors@ == s.scan.errors@
    &&& r.package.name == s.package.name && r.package.license == s.package.license
        && r.package.publisher == s.package.publisher && r.package.author == s.package.author
        && r.package.description == s.package.description && r.package.tags@ == s.package.tags@
        && opt_view(r.package.license_url) == clean_url_spec(opt_view(s.package.license_url))
    &&& r.descriptions.short == s.descriptions.short && r.descriptions.long == s.descriptions.long
        && r.descriptions.source == s.descriptions.source
        && r.descriptions.last_updated_at == s.descriptions.last_updated_at
        && opt_view(r.descriptions.homepage) == clean_url_spec(opt_view(s.descriptions.homepage))
    &&& same_usage(r.usage, s.usage)
    &&& same_notes(r.notes, s.notes)
    &&& opt_view(r.links.homepage) == clean_url_spec(opt_view(s.links.homepage))
        && opt_view(r.links.download) == clean_url_spec(opt_view(s.links.download))
        && opt_view(r.links.releases) == clean_url_spec(opt_view(s.links.releases))
        && opt_view(r.links.docs) == clean_url_spec(opt_view(s.links.docs))
    &&& quality_ok(r.quality, s.quality)
    &&& r.versions@.len() == min_int(s.versions@.len() as int, shown_versions())
    &&& forall|i: int| 0 <= i < r.versions@.len() ==> version_detail_ok(#[trigger] r.versions@[i], s.versions@[i])
    &&& r.downloads@.len() == min_int(downloads.len() as int, shown_downloads())
    &&& forall|i: int| 0 <= i < r.downloads@.len() ==> download_detail_ok(#[trigger] r.downloads@[i], downloads[i])
    &&& r.commands@.len() == commands.len()
    &&& forall|i: int| 0 <= i < r.commands@.len() ==> command_detail_ok(#[trigger] r.commands@[i], commands[i])
    &&& same_verify_list(r.verify_commands@, s.verify.commands@)
}

fn version_details(s: &OnlineSourceSpec) -> (r: Vec<ToolVersionDetail>)
    ensures
        r@.len() == min_int(s.versions@.len() as int, shown_versions()),
        forall|i: int| 0 <= i < r@.len() ==> version_detail_ok(#[trigger] r@[i], s.versions@[i]),
{
    let mut out: Vec<ToolVersionDetail> = Vec::new();
    let mut i: usize = 0;
    while i < s.versions.len() && i < 60
        invariant
            i <= s.versions@.len(),
            i <= 60,
            out@.len() == i,
            forall|k: int| 0 <= k < i ==> version_detail_ok(#[trigger] out@[k], s.versions@[k]),
        decreases s.versions.len() - i,
    {
        out.push(version_detail_metadata(&s.versions[i]));
        i += 1;
    }
    out
}

fn download_details(s: &OnlineSourceSpec, os: &str) -> (r: Vec<ToolDownloadDetail>)
    ensures
        r@.len() == min_int(keep(s.downloads@, download_on_pred(os@)).len() as int, shown_downloads()),
        forall|i: int|
            0 <= i < r@.len() ==> download_detail_ok(
                #[trigger] r@[i],
                keep(s.downloads@, download_on_pred(os@))[i],
            ),
{
    let ghost all = keep(s.downloads@, download_on_pred(os@));
    let mut out: Vec<ToolDownloadDetail> = Vec::new();
    let mut i: usize = 0;
    while i < s.downloads.len() && out.len() < 12
        invariant
            i <= s.downloads@.len(),
            out@.len() <= 12,
            all == keep(s.downloads@, download_on_pred(os@)),
            out@.len() == keep(s.downloads@.take(i as int), download_on_pred(os@)).len(),
            forall|k: int|
                0 <= k < out@.len() ==> download_detail_ok(
                    #[trigger] out@[k],
                    keep(s.downloads@.take(i as int), download_on_pred(os@))[k],
                ),
        decreases s.downloads.len() - i,
    {
        assert(s.downloads@.take(i + 1).drop_last() == s.downloads@.take(i as int));
        assert(s.downloads@.take(i + 1).last() == s.downloads@[i as int]);
        let d = &s.downloads[i];
        if str_eq(d.platform.as_str(), os) || str_eq(d.platform.as_str(), "all") {
            out.push(download_detail_metadata(d));
        }
        i += 1;
    }
    proof {
        lemma_keep_prefix(s.downloads@, download_on_pred(os@), i as int);
        if i == s.downloads@.len() {
            assert(s.downloads@.take(i as int) == s.downloads@);
        }
    }
    out
}

/// Keeping from a prefix gives a prefix of keeping from the whole.
pub proof fn lemma_keep_prefix<T>(s: Seq<T>, p: spec_fn(T) -> bool, i: int)
    requires
        0 <= i <= s.len(),
    ensures
        keep(s.take(i), p).len() <= keep(s, p).len(),
        keep(s.take(i), p) == keep(s, p).take(keep(s.take(i), p).len() as int),
    decreases s.len() - i,
{
    if i < s.len() {
        lemma_keep_prefix(s, p, i + 1);
        assert(s.take(i + 1).drop_last() == s.take(i));
        let a = keep(s.take(i), p);
        let b = keep(s.take(i + 1), p);
        if p(s[i]) {
            assert(b == a.push(s[i]));
            assert(a =~= b.take(a.len() as int));
            assert(keep(s, p).take(b.len() as int).take(a.len() as int) =~= keep(s, p).take(
                a.len() as int,
            ));
        } else {
            assert(b == a);
        }
    } else {
        assert(s.take(i) == s);
        assert(keep(s, p).take(keep(s, p).len() as int) == keep(s, p));
    }
}

fn command_details(s: &OnlineSourceSpec, os: &str) -> (r: Vec<ToolCommandDetail>)
    ensures
        r@.len() == keep(s.commands@, command_on_pred(os@)).len(),
        forall|i: int|
            0 <= i < r@.len() ==> command_detail_ok(
                #[trigger] r@[i],
                keep(s.commands@, command_on_pred(os@))[i],
            ),
{
    let mut out: Vec<ToolCommandDetail> = Vec::new();
    let mut i: usize = 0;
    while i < s.commands.len()
        invariant
            i <= s.commands@.len(),
            out@.len() == keep(s.commands@.take(i as int), command_on_pred(os@)).len(),
            forall|k: int|
                0 <= k < out@.len() ==> command_detail_ok(
                    #[trigger] out@[k],
                    keep(s.commands@.take(i as int), command_on_pred(os@))[k],
                ),
        decreases s.commands.len() - i,
    {
        assert(s.commands@.take(i + 1).drop_last() == s.commands@.take(i as int));
        assert(s.commands@.take(i + 1).last() == s.commands@[i as int]);
        let c = &s.commands[i];
        if str_eq(c.platform.as_str(), os) {
            out.push(command_detail_metadata(c));
        }
        i += 1;
    }
    assert(s.commands@.take(s.commands.len() as int) == s.commands@);
    out
}

/// A source as the detail view shows it on a platform.
pub fn source_detail_metadata(s: &OnlineSourceSpec, os: &str) -> (r: ToolSourceDetail)
    ensures
        source_detail_ok(r, *s, os@),
{
    ToolSourceDetail {
        id: s.id.clone(),
        manager: s.manager.clone(),
        package_id: clone_opt(&s.package_id),
        official: s.official,
        priority: s.priority,
        platforms: clone_strings(&s.platforms),
        scan: ToolScanMetadata {
            status: s.scan.status.clone(),
            scanned_at: clone_opt(&s.scan.scanned_at),
            errors: clone_strings(&s.scan.errors),
        },
        package: normalize_package(&s.package),
        descriptions: normalize_descriptions(&s.descriptions),
        usage: copy_usage(&s.usage),
        notes: copy_notes(&s.notes),
        links: normalize_links(&s.links),
        quality: quality_metadata(&s.quality),
        versions: version_details(s),
        downloads: download_details(s, os),
        commands: command_details(s, os),
        verify_commands: copy_verify_commands(&s.verify.commands),
    }
}


// ---------------------------------------------------------------------------
// Tool details
// ---------------------------------------------------------------------------

/// The order of sources in a detail view: higher quality score first, then
/// official ones, then lower priority numbers, then by manager name.
pub open spec fn source_key_le() -> spec_fn(ToolSourceDetail, ToolSourceDetail) -> bool {
    |a: ToolSourceDetail, b: ToolSourceDetail|
        if a.quality.score != b.quality.score {
            a.quality.score > b.quality.score
        } else if a.official != b.official {
            a.official
        } else if a.priority != b.priority {
            a.priority < b.priority
        } else {
            lex_le(a.manager@, b.manager@)
        }
}

pub proof fn lemma_source_key_preorder()
    ensures
        total_preorder(source_key_le()),
{
    let le = source_key_le();
    assert forall|a: ToolSourceDetail, b: ToolSourceDetail| #[trigger] le(a, b) || le(b, a) by {
        lemma_lex_total(a.manager@, b.manager@);
    }
    assert forall|a: ToolSourceDetail, b: ToolSourceDetail, c: ToolSourceDetail|
        #[trigger] le(a, b) && #[trigger] le(b, c) implies le(a, c) by {
        if a.quality.score == b.quality.score && b.quality.score == c.quality.score
            && a.official == b.official && b.official == c.official && a.priority == b.priority
            && b.priority == c.priority {
            lemma_lex_trans(a.manager@, b.manager@, c.manager@);
        }
    }
}

fn source_key_le_exec(a: &ToolSourceDetail, b: &ToolSourceDetail) -> (r: bool)
    ensures
        r == source_key_le()(*a, *b),
{
    if a.quality.score != b.quality.score {
        a.quality.score > b.quality.score
    } else if a.official != b.official {
        a.official
    } else if a.priority != b.priority {
        a.priority < b.priority
    } else {
        str_le(a.manager.as_str(), b.manager.as_str())
    }
}

/// Source details in detail-view order, equal keys keeping their order.
pub fn sort_source_details(items: Vec<ToolSourceDetail>) -> (r: Vec<ToolSourceDetail>)
    ensures
        exists|order: Seq<usize>|
            stable_order(order, items@, source_key_le()) && r@ == arrange(order, items@),
{
    proof {
        lemma_source_key_preorder();
    }
    let ghost all = items@;
    let mut rest = items;
    let mut out: Vec<ToolSourceDetail> = Vec::new();
    let ghost mut order: Seq<usize> = Seq::empty();
    let mut i: usize = 0;
    let n = rest.len();
    while i < n
        invariant
            n == all.len(),
            i <= n,
            rest@ == all.skip(i as int),
            total_preorder(source_key_le()),
            prefix_order(order, all, source_key_le(), i as int),
            out@ == arrange(order, all),
        decreases n - i,
    {
        let x = rest.remove(0);
        assert(x == all[i as int]);
        assert(all.skip(i as int).remove(0) =~= all.skip(i + 1));
        let mut p: usize = 0;
        while p < out.len() && source_key_le_exec(&out[p], &x)
            invariant
                p <= out@.len(),
                out@ == arrange(order, all),
                x == all[i as int],
                forall|k: int| 0 <= k < p ==> source_key_le()(all[#[trigger] order[k] as int], x),
            decreases out@.len() - p,
        {
            p += 1;
        }
        proof {
            lemma_insert_stable(order, all, source_key_le(), i as int, p as int);
        }
        out.insert(p, x);
        proof {
            assert(out@ =~= arrange(order.insert(p as int, i), all));
            order = order.insert(p as int, i);
        }
        i += 1;
    }
    assert(stable_order(order, all, source_key_le()));
    out
}

pub open spec fn source_on_pred(os: Seq<char>) -> spec_fn(OnlineSourceSpec) -> bool {
    |s: OnlineSourceSpec| platform_ok(s.platforms@, os)
}

/// The detail view of a tool: its own metadata (URLs cleaned) and the
/// details of its sources for the platform, best first.
pub open spec fn tool_detail_ok(r: ToolDetailMetadata, tool: OnlineToolSpec, os: Seq<char>) -> bool {
    let sources = keep(tool.sources@, source_on_pred(os));
    &&& r.aliases@ == tool.aliases@
    &&& r.tags@ == tool.tags@
    &&& r.platforms@ == tool.platforms@
    &&& r.lifecycle == tool.lifecycle
    &&& r.descriptions.short == tool.descriptions.short
    &&& r.descriptions.long == tool.descriptions.long
    &&& r.descriptions.source == tool.descriptions.source
    &&& r.descriptions.last_updated_at == tool.descriptions.last_updated_at
    &&& opt_view(r.descriptions.homepage) == clean_url_spec(opt_view(tool.descriptions.homepage))
    &&& same_usage(r.usage, tool.usage)
    &&& same_notes(r.notes, tool.notes)
    &&& opt_view(r.links.homepage) == clean_url_spec(opt_view(tool.links.homepage))
    &&& opt_view(r.links.download) == clean_url_spec(opt_view(tool.links.download))
    &&& opt_view(r.links.releases) == clean_url_spec(opt_view(tool.links.releases))
    &&& opt_view(r.links.docs) == clean_url_spec(opt_view(tool.links.docs))
    &&& same_dependencies(r.dependencies, tool.dependencies)
    &&& r.risk == tool.risk
    &&& quality_ok(r.quality, tool.quality)
    &&& same_verify_list(r.verify_commands@, tool.verify.commands@)
    &&& exists|details: Seq<ToolSourceDetail>, order: Seq<usize>|
        {
            &&& details.len() == sources.len()
            &&& forall|i: int| 0 <= i < details.len() ==> source_detail_ok(#[trigger] details[i], sources[i], os)
            &&& stable_order(order, details, source_key_le())
            &&& r.sources@ == arrange(order, details)
        }
}

/// The detail view of a tool on a platform.
pub fn build_tool_detail_metadata(tool: &OnlineToolSpec, os: &str) -> (r: ToolDetailMetadata)
    ensures
        tool_detail_ok(r, *tool, os@),
{
    let ghost sources = keep(tool.sources@, source_on_pred(os@));
    let mut details: Vec<ToolSourceDetail> = Vec::new();
    let mut i: usize = 0;
    while i < tool.sources.len()
        invariant
            i <= tool.sources@.len(),
            details@.len() == keep(tool.sources@.take(i as int), source_on_pred(os@)).len(),
            forall|k: int|
                0 <= k < details@.len() ==> source_detail_ok(
                    #[trigger] details@[k],
                    keep(tool.sources@.take(i as int), source_on_pred(os@))[k],
                    os@,
                ),
        decreases tool.sources.len() - i,
    {
        assert(tool.sources@.take(i + 1).drop_last() == tool.sources@.take(i as int));
        assert(tool.sources@.take(i + 1).last() == tool.sources@[i as int]);
        let src = &tool.sources[i];
        if platform_matches(&src.platforms, os) {
            details.push(source_detail_metadata(src, os));
        }
        i += 1;
    }
    assert(tool.sources@.take(tool.sources.len() as int) == tool.sources@);
    let ghost unsorted = details@;
    let sorted = sort_source_details(details);
    ToolDetailMetadata {
        aliases: clone_strings(&tool.aliases),
        tags: clone_strings(&tool.tags),
        platforms: clone_strings(&tool.platforms),
        lifecycle: copy_lifecycle(&tool.lifecycle),
        descriptions: normalize_descriptions(&tool.descriptions),
        usage: copy_usage(&tool.usage),
        notes: copy_notes(&tool.notes),
        links: normalize_links(&tool.links),
        dependencies: copy_dependencies(&tool.dependencies),
        risk: copy_risk(&tool.risk),
        quality: quality_metadata(&tool.quality),
        verify_commands: copy_verify_commands(&tool.verify.commands),
        sources: sorted,
    }
}

/// The detail view of a catalog tool, from its online metadata for the
/// platform when there is some.
pub fn tool_detail(data: &crate::model::EnvironmentData, spec_id: &str, os: &str) -> (r: Option<
    ToolDetailMetadata,
>)
    ensures
        crate::checks::metadata_index(*data, spec_id@, os@) < 0 ==> r is None,
        crate::checks::metadata_index(*data, spec_id@, os@) >= 0 ==> (r matches Some(d)
            && tool_detail_ok(
            d,
            data.metadata.tools@[crate::checks::metadata_index(*data, spec_id@, os@)],
            os@,
        )),
{
    match crate::checks::metadata_for(data, spec_id, os) {
        Some(tool) => Some(build_tool_detail_metadata(tool, os)),
        None => None,
    }
}

} // verus!
