use vstd::prelude::*;

use crate::catalog::{clone_opt, clone_strings, default_minimum_quality_score, platform_ok};
use crate::model::{
    CatalogToolSpec, DevToolCheck, EnvironmentData, InstallPlan, InstallVersionOption,
    OnlineCommandSpec, OnlineDownloadSpec, OnlineSourceSpec, OnlineToolSpec, OnlineVersionSpec,
    PlatformSourcePolicy, SourcePolicyFile,
};
use crate::seqs::{find_first, find_from, keep, lemma_find_from, lemma_keep_len};
use crate::text::{
    concat2, concat3, decimal_int, i32_to_string, is_blank, owned, str_eq, trim_seq, views,
};

verus! {

// ---------------------------------------------------------------------------
// Lookups
// ---------------------------------------------------------------------------

pub open spec fn policy_key_pred(os: Seq<char>) -> spec_fn((String, PlatformSourcePolicy)) -> bool {
    |e: (String, PlatformSourcePolicy)| e.0@ == os
}

/// The source policy of platform `os`: that of the first entry named `os`.
pub open spec fn policy_spec(policy: SourcePolicyFile, os: Seq<char>) -> Option<PlatformSourcePolicy> {
    let k = find_first(policy.platforms@, policy_key_pred(os));
    if k >= 0 {
        Some(policy.platforms@[k].1)
    } else {
        None
    }
}

/// The source policy of a platform.
pub fn policy_for<'a>(policy: &'a SourcePolicyFile, os: &str) -> (r: Option<
    &'a PlatformSourcePolicy,
>)
    ensures
        match policy_spec(*policy, os@) {
            Some(p) => r matches Some(q) && *q == p,
            None => r is None,
        },
{
    let entries = &policy.platforms;
    let mut i: usize = 0;
    while i < entries.len()
        invariant
            entries == &policy.platforms,
            i <= entries.len(),
            find_first(entries@, policy_key_pred(os@)) == find_from(
                entries@,
                policy_key_pred(os@),
                i as int,
            ),
        decreases entries.len() - i,
    {
        if str_eq(entries[i].0.as_str(), os) {
            return Some(&entries[i].1);
        }
        i += 1;
    }
    None
}

/// Whether a manager has a detected version.
pub open spec fn manager_known(managers: Seq<(String, String)>, manager: Seq<char>) -> bool {
    exists|i: int| 0 <= i < managers.len() && managers[i].0@ == manager
}

/// Whether a package manager was detected.
pub fn manager_is_known(managers: &Vec<(String, String)>, manager: &str) -> (r: bool)
    ensures
        r == manager_known(managers@, manager@),
{
    let mut i: usize = 0;
    while i < managers.len()
        invariant
            i <= managers.len(),
            forall|j: int| 0 <= j < i ==> managers@[j].0@ != manager@,
        decreases managers.len() - i,
    {
        if str_eq(managers[i].0.as_str(), manager) {
            return true;
        }
        i += 1;
    }
    false
}

/// Whether a command of a source can run `action` on `os`.
pub open spec fn command_pred(manager: Seq<char>, action: Seq<char>, os: Seq<char>) -> spec_fn(
    OnlineCommandSpec,
) -> bool {
    |c: OnlineCommandSpec|
        c.action@ == action && c.manager@ == manager && c.shell@ == "argv"@ && c.command@.len() > 0
            && c.platform@ == os
}

/// The index of the first command of `source` that performs `action` on `os`
/// through the source's own manager as an argument vector, or -1.
pub open spec fn command_index(source: OnlineSourceSpec, action: Seq<char>, os: Seq<char>) -> int {
    find_first(source.commands@, command_pred(source.manager@, action, os))
}

/// The command of a source for an action on a platform.
pub fn command_for_source<'a>(source: &'a OnlineSourceSpec, action: &str, os: &str) -> (r: Option<
    &'a OnlineCommandSpec,
>)
    ensures
        command_index(*source, action@, os@) < 0 ==> r is None,
        command_index(*source, action@, os@) >= 0 ==> (r matches Some(c) && *c
            == source.commands@[command_index(*source, action@, os@)]),
{
    let cmds = &source.commands;
    let mut i: usize = 0;
    while i < cmds.len()
        invariant
            cmds == &source.commands,
            i <= cmds.len(),
            command_index(*source, action@, os@) == find_from(
                cmds@,
                command_pred(source.manager@, action@, os@),
                i as int,
            ),
        decreases cmds.len() - i,
    {
        let c = &cmds[i];
        if str_eq(c.action.as_str(), action) && str_eq(c.manager.as_str(), source.manager.as_str())
            && str_eq(c.shell.as_str(), "argv") && c.command.len() > 0 && str_eq(
            c.platform.as_str(),
            os,
        ) {
            return Some(c);
        }
        i += 1;
    }
    None
}

/// The install command of a source on a platform.
pub fn install_command_for_source<'a>(source: &'a OnlineSourceSpec, os: &str) -> (r: Option<
    &'a OnlineCommandSpec,
>)
    ensures
        command_index(*source, "install"@, os@) < 0 ==> r is None,
        command_index(*source, "install"@, os@) >= 0 ==> (r matches Some(c) && *c
            == source.commands@[command_index(*source, "install"@, os@)]),
{
    command_for_source(source, "install", os)
}

/// The uninstall command of a source on a platform.
pub fn uninstall_command_for_source<'a>(source: &'a OnlineSourceSpec, os: &str) -> (r: Option<
    &'a OnlineCommandSpec,
>)
    ensures
        command_index(*source, "uninstall"@, os@) < 0 ==> r is None,
        command_index(*source, "uninstall"@, os@) >= 0 ==> (r matches Some(c) && *c
            == source.commands@[command_index(*source, "uninstall"@, os@)]),
{
    command_for_source(source, "uninstall", os)
}

// ---------------------------------------------------------------------------
// Choosing a source
// ---------------------------------------------------------------------------

/// The position of `manager` in the priority list, or 99, as std's `as i32`
/// gives it.
pub open spec fn manager_rank_spec(policy: Option<PlatformSourcePolicy>, manager: Seq<char>) -> int {
    match policy {
        Some(p) => {
            let k = find_first(p.manager_priority@, |m: String| m@ == manager);
            if k >= 0 {
                (k as i32) as int
            } else {
                99
            }
        },
        None => 99,
    }
}

/// The ranking key of a source: better tool quality, then better source
/// quality, then official sources, then lower priority, then the manager's
/// place in the platform policy; smaller is better.
pub open spec fn rank_spec(
    source: OnlineSourceSpec,
    tool: OnlineToolSpec,
    policy: Option<PlatformSourcePolicy>,
) -> (int, int, int, int, int) {
    (
        -(tool.quality.score as int),
        -(source.quality.score as int),
        if source.official {
            0
        } else {
            1
        },
        source.priority as int,
        manager_rank_spec(policy, source.manager@),
    )
}

/// Lexicographic order on ranking keys.
pub open spec fn rank_lt(a: (int, int, int, int, int), b: (int, int, int, int, int)) -> bool {
    ||| a.0 < b.0
    ||| (a.0 == b.0 && a.1 < b.1)
    ||| (a.0 == b.0 && a.1 == b.1 && a.2 < b.2)
    ||| (a.0 == b.0 && a.1 == b.1 && a.2 == b.2 && a.3 < b.3)
    ||| (a.0 == b.0 && a.1 == b.1 && a.2 == b.2 && a.3 == b.3 && a.4 < b.4)
}

/// The ranking key of a source.
pub fn source_rank(
    source: &OnlineSourceSpec,
    tool: &OnlineToolSpec,
    policy: Option<&PlatformSourcePolicy>,
) -> (r: (i64, i64, i64, i64, i64))
    ensures
        (r.0 as int, r.1 as int, r.2 as int, r.3 as int, r.4 as int) == rank_spec(
            *source,
            *tool,
            match policy {
                Some(p) => Some(*p),
                None => None,
            },
        ),
{
    let manager_rank: i64 = match policy {
        Some(p) => match position_of(&p.manager_priority, source.manager.as_str()) {
            Some(k) => (k as i32) as i64,
            None => 99,
        },
        None => 99,
    };
    let official: i64 = if source.official {
        0
    } else {
        1
    };
    (
        -(tool.quality.score as i64),
        -(source.quality.score as i64),
        official,
        source.priority as i64,
        manager_rank,
    )
}

/// The index of the first string equal to `s`.
pub fn position_of(list: &Vec<String>, s: &str) -> (r: Option<usize>)
    ensures
        match r {
            Some(k) => k as int == find_first(list@, |m: String| m@ == s@),
            None => find_first(list@, |m: String| m@ == s@) < 0,
        },
{
    let mut i: usize = 0;
    while i < list.len()
        invariant
            i <= list.len(),
            find_first(list@, |m: String| m@ == s@) == find_from(
                list@,
                |m: String| m@ == s@,
                i as int,
            ),
        decreases list.len() - i,
    {
        if str_eq(list[i].as_str(), s) {
            return Some(i);
        }
        i += 1;
    }
    None
}

fn rank_less(a: (i64, i64, i64, i64, i64), b: (i64, i64, i64, i64, i64)) -> (r: bool)
    ensures
        r == rank_lt(
            (a.0 as int, a.1 as int, a.2 as int, a.3 as int, a.4 as int),
            (b.0 as int, b.1 as int, b.2 as int, b.3 as int, b.4 as int),
        ),
{
    a.0 < b.0 || (a.0 == b.0 && a.1 < b.1) || (a.0 == b.0 && a.1 == b.1 && a.2 < b.2) || (a.0
        == b.0 && a.1 == b.1 && a.2 == b.2 && a.3 < b.3) || (a.0 == b.0 && a.1 == b.1 && a.2
        == b.2 && a.3 == b.3 && a.4 < b.4)
}

/// The quality score a source needs on `os`.
pub open spec fn min_score_spec(policy: Option<PlatformSourcePolicy>) -> int {
    match policy {
        Some(p) => p.minimum_quality_score as int,
        None => 45,
    }
}

/// Whether a source may be used for `action` on `os`.
pub open spec fn eligible(
    source: OnlineSourceSpec,
    policy: Option<PlatformSourcePolicy>,
    managers: Seq<(String, String)>,
    action: Seq<char>,
    os: Seq<char>,
) -> bool {
    &&& platform_ok(source.platforms@, os)
    &&& source.scan.status@ != "failed"@
    &&& source.quality.confidence@ != "low"@
    &&& source.quality.score as int >= min_score_spec(policy)
    &&& manager_known(managers, source.manager@)
    &&& command_index(source, action, os) >= 0
}

/// The index of the best eligible source among the first `n`: the first one
/// with the smallest rank; -1 when none is eligible.
pub open spec fn best_source_upto(
    tool: OnlineToolSpec,
    policy: Option<PlatformSourcePolicy>,
    managers: Seq<(String, String)>,
    action: Seq<char>,
    os: Seq<char>,
    n: int,
) -> int
    decreases n,
{
    if n <= 0 {
        -1
    } else {
        let i = best_source_upto(tool, policy, managers, action, os, n - 1);
        let s = tool.sources@[n - 1];
        if eligible(s, policy, managers, action, os) && (i < 0 || rank_lt(
            rank_spec(s, tool, policy),
            rank_spec(tool.sources@[i], tool, policy),
        )) {
            n - 1
        } else {
            i
        }
    }
}

pub open spec fn best_source(
    tool: OnlineToolSpec,
    policy: SourcePolicyFile,
    managers: Seq<(String, String)>,
    action: Seq<char>,
    os: Seq<char>,
) -> int {
    best_source_upto(
        tool,
        policy_spec(policy, os),
        managers,
        action,
        os,
        tool.sources@.len() as int,
    )
}

proof fn lemma_best_source_bounds(
    tool: OnlineToolSpec,
    policy: Option<PlatformSourcePolicy>,
    managers: Seq<(String, String)>,
    action: Seq<char>,
    os: Seq<char>,
    n: int,
)
    requires
        0 <= n <= tool.sources@.len(),
    ensures
        -1 <= best_source_upto(tool, policy, managers, action, os, n) < n,
        best_source_upto(tool, policy, managers, action, os, n) >= 0 ==> eligible(
            tool.sources@[best_source_upto(tool, policy, managers, action, os, n)],
            policy,
            managers,
            action,
            os,
        ),
    decreases n,
{
    if n > 0 {
        lemma_best_source_bounds(tool, policy, managers, action, os, n - 1);
    }
}

proof fn lemma_rank_lt_trans(a: (int, int, int, int, int), b: (int, int, int, int, int), c: (int, int, int, int, int))
    requires
        rank_lt(a, b),
        rank_lt(b, c),
    ensures
        rank_lt(a, c),
{
}

/// Whether the j-th source of a tool may be used.
pub open spec fn source_ok(
    tool: OnlineToolSpec,
    policy: Option<PlatformSourcePolicy>,
    managers: Seq<(String, String)>,
    action: Seq<char>,
    os: Seq<char>,
    j: int,
) -> bool {
    eligible(tool.sources@[j], policy, managers, action, os)
}

/// The rank of the j-th source of a tool.
pub open spec fn source_rank_at(tool: OnlineToolSpec, policy: Option<PlatformSourcePolicy>, j: int) -> (
    int,
    int,
    int,
    int,
    int,
) {
    rank_spec(tool.sources@[j], tool, policy)
}

proof fn lemma_best_source_optimal(
    tool: OnlineToolSpec,
    policy: Option<PlatformSourcePolicy>,
    managers: Seq<(String, String)>,
    action: Seq<char>,
    os: Seq<char>,
    n: int,
)
    requires
        0 <= n <= tool.sources@.len(),
    ensures
        ({
            let b = best_source_upto(tool, policy, managers, action, os, n);
            &&& b < 0 ==> forall|j: int|
                0 <= j < n ==> !#[trigger] source_ok(tool, policy, managers, action, os, j)
            &&& b >= 0 ==> forall|j: int|
                0 <= j < n && #[trigger] source_ok(tool, policy, managers, action, os, j) ==> !rank_lt(
                    source_rank_at(tool, policy, j),
                    source_rank_at(tool, policy, b),
                )
            &&& b >= 0 ==> forall|j: int|
                0 <= j < b && #[trigger] source_ok(tool, policy, managers, action, os, j)
                    ==> source_rank_at(tool, policy, j) != source_rank_at(tool, policy, b)
        }),
    decreases n,
{
    if n > 0 {
        lemma_best_source_optimal(tool, policy, managers, action, os, n - 1);
        lemma_best_source_bounds(tool, policy, managers, action, os, n - 1);
        let i = best_source_upto(tool, policy, managers, action, os, n - 1);
        if source_ok(tool, policy, managers, action, os, n - 1) && i >= 0 && rank_lt(
            source_rank_at(tool, policy, n - 1),
            source_rank_at(tool, policy, i),
        ) {
            assert forall|j: int|
                0 <= j < n && #[trigger] source_ok(tool, policy, managers, action, os, j) implies !rank_lt(
                source_rank_at(tool, policy, j),
                source_rank_at(tool, policy, n - 1),
            ) by {
                if j < n - 1 && rank_lt(source_rank_at(tool, policy, j), source_rank_at(tool, policy, n - 1)) {
                    lemma_rank_lt_trans(
                        source_rank_at(tool, policy, j),
                        source_rank_at(tool, policy, n - 1),
                        source_rank_at(tool, policy, i),
                    );
                }
            }
            assert forall|j: int|
                0 <= j < n - 1 && #[trigger] source_ok(tool, policy, managers, action, os, j)
                    implies source_rank_at(tool, policy, j) != source_rank_at(tool, policy, n - 1) by {
                if source_rank_at(tool, policy, j) == source_rank_at(tool, policy, n - 1) {
                    assert(rank_lt(source_rank_at(tool, policy, j), source_rank_at(tool, policy, i)));
                }
            }
        }
    }
}

/// The source chosen for an action is eligible, no eligible source ranks
/// better, and every eligible source before it ranks worse (the first of the
/// best); when none is chosen, no source is eligible.
pub proof fn law_selected_source_is_best(
    tool: OnlineToolSpec,
    policy: SourcePolicyFile,
    managers: Seq<(String, String)>,
    action: Seq<char>,
    os: Seq<char>,
)
    ensures
        ({
            let p = policy_spec(policy, os);
            let b = best_source(tool, policy, managers, action, os);
            &&& b < 0 ==> forall|j: int|
                0 <= j < tool.sources@.len() ==> !#[trigger] source_ok(tool, p, managers, action, os, j)
            &&& b >= 0 ==> b < tool.sources@.len() && source_ok(tool, p, managers, action, os, b)
            &&& b >= 0 ==> forall|j: int|
                0 <= j < tool.sources@.len() && #[trigger] source_ok(tool, p, managers, action, os, j)
                    ==> !rank_lt(source_rank_at(tool, p, j), source_rank_at(tool, p, b))
            &&& b >= 0 ==> forall|j: int|
                0 <= j < b && #[trigger] source_ok(tool, p, managers, action, os, j) ==> rank_lt(
                    source_rank_at(tool, p, b),
                    source_rank_at(tool, p, j),
                )
        }),
{
    let p = policy_spec(policy, os);
    let n = tool.sources@.len() as int;
    lemma_best_source_bounds(tool, p, managers, action, os, n);
    lemma_best_source_optimal(tool, p, managers, action, os, n);
}

/// The chosen source is one of the best by the stated preferences: no usable
/// source has a higher quality score; among usable sources of the chosen
/// one's score, an official one is chosen whenever any is official; and
/// among those of equal score and the same official standing, none has a
/// lower priority number. When no source is chosen, none is usable.
pub proof fn law_selected_source_prefers_quality_then_official(
    tool: OnlineToolSpec,
    policy: SourcePolicyFile,
    managers: Seq<(String, String)>,
    action: Seq<char>,
    os: Seq<char>,
)
    ensures
        ({
            let b = best_source(tool, policy, managers, action, os);
            let s = tool.sources@;
            &&& b < 0 ==> forall|j: int|
                0 <= j < s.len() ==> !eligible(#[trigger] s[j], policy_spec(policy, os), managers, action, os)
            &&& b >= 0 ==> 0 <= b < s.len() && eligible(s[b], policy_spec(policy, os), managers, action, os)
            &&& b >= 0 ==> forall|j: int|
                0 <= j < s.len() && eligible(#[trigger] s[j], policy_spec(policy, os), managers, action, os) ==> {
                    &&& s[j].quality.score <= s[b].quality.score
                    &&& (s[j].quality.score == s[b].quality.score && s[j].official) ==> s[b].official
                    &&& (s[j].quality.score == s[b].quality.score && s[j].official == s[b].official)
                        ==> s[b].priority <= s[j].priority
                }
        }),
{
    let p = policy_spec(policy, os);
    let b = best_source(tool, policy, managers, action, os);
    let s = tool.sources@;
    law_selected_source_is_best(tool, policy, managers, action, os);
    if b < 0 {
        assert forall|j: int| 0 <= j < s.len() implies !eligible(#[trigger] s[j], p, managers, action, os) by {
            assert(!source_ok(tool, p, managers, action, os, j));
        }
    } else {
        assert(source_ok(tool, p, managers, action, os, b));
        assert forall|j: int|
            0 <= j < s.len() && eligible(#[trigger] s[j], p, managers, action, os) implies {
                &&& s[j].quality.score <= s[b].quality.score
                &&& (s[j].quality.score == s[b].quality.score && s[j].official) ==> s[b].official
                &&& (s[j].quality.score == s[b].quality.score && s[j].official == s[b].official)
                    ==> s[b].priority <= s[j].priority
            } by {
            assert(source_ok(tool, p, managers, action, os, j));
            assert(!rank_lt(source_rank_at(tool, p, j), source_rank_at(tool, p, b)));
        }
    }
}

fn is_eligible(
    source: &OnlineSourceSpec,
    policy: Option<&PlatformSourcePolicy>,
    managers: &Vec<(String, String)>,
    action: &str,
    os: &str,
) -> (r: bool)
    ensures
        r == eligible(
            *source,
            match policy {
                Some(p) => Some(*p),
                None => None,
            },
            managers@,
            action@,
            os@,
        ),
{
    let min_score = match policy {
        Some(p) => p.minimum_quality_score,
        None => default_minimum_quality_score(),
    };
    crate::catalog::platform_matches(&source.platforms, os) && !str_eq(
        source.scan.status.as_str(),
        "failed",
    ) && !str_eq(source.quality.confidence.as_str(), "low") && source.quality.score >= min_score
        && manager_is_known(managers, source.manager.as_str()) && command_for_source(
        source,
        action,
        os,
    ).is_some()
}

/// The source used for `action`: among the eligible sources, the first with
/// the smallest rank.
pub fn selected_source_for_action<'a>(
    tool: &'a OnlineToolSpec,
    data: &EnvironmentData,
    manager_versions: &Vec<(String, String)>,
    action: &str,
    os: &str,
) -> (r: Option<&'a OnlineSourceSpec>)
    ensures
        best_source(*tool, data.policy, manager_versions@, action@, os@) < 0 ==> r is None,
        best_source(*tool, data.policy, manager_versions@, action@, os@) >= 0 ==> (r matches Some(
            s,
        ) && *s == tool.sources@[best_source(*tool, data.policy, manager_versions@, action@, os@)]),
{
    let policy = policy_for(&data.policy, os);
    let ghost pol = policy_spec(data.policy, os@);
    let sources = &tool.sources;
    let mut best: usize = 0;
    let mut best_rank: (i64, i64, i64, i64, i64) = (0, 0, 0, 0, 0);
    let mut found = false;
    let mut i: usize = 0;
    while i < sources.len()
        invariant
            sources == &tool.sources,
            i <= sources.len(),
            pol == policy_spec(data.policy, os@),
            pol == (match policy {
                Some(p) => Some(*p),
                None => None,
            }),
            found == (best_source_upto(*tool, pol, manager_versions@, action@, os@, i as int)
                >= 0),
            found ==> best as int == best_source_upto(
                *tool,
                pol,
                manager_versions@,
                action@,
                os@,
                i as int,
            ),
            found ==> best < i,
            found ==> (best_rank.0 as int, best_rank.1 as int, best_rank.2 as int, best_rank.3 as int, best_rank.4 as int)
                == rank_spec(sources@[best as int], *tool, pol),
        decreases sources.len() - i,
    {
        proof {
            lemma_best_source_bounds(*tool, pol, manager_versions@, action@, os@, i as int);
        }
        let s = &sources[i];
        if is_eligible(s, policy, manager_versions, action, os) {
            let rank = source_rank(s, tool, policy);
            if !found || rank_less(rank, best_rank) {
                best = i;
                best_rank = rank;
                found = true;
            }
        }
        i += 1;
    }
    if found {
        Some(&sources[best])
    } else {
        None
    }
}

/// The source used for installing.
pub fn selected_source<'a>(
    tool: &'a OnlineToolSpec,
    data: &EnvironmentData,
    manager_versions: &Vec<(String, String)>,
    os: &str,
) -> (r: Option<&'a OnlineSourceSpec>)
    ensures
        best_source(*tool, data.policy, manager_versions@, "install"@, os@) < 0 ==> r is None,
        best_source(*tool, data.policy, manager_versions@, "install"@, os@) >= 0 ==> (r matches Some(
            s,
        ) && *s == tool.sources@[best_source(
            *tool,
            data.policy,
            manager_versions@,
            "install"@,
            os@,
        )]),
{
    selected_source_for_action(tool, data, manager_versions, "install", os)
}

// ---------------------------------------------------------------------------
// Downloads and notes
// ---------------------------------------------------------------------------

/// Whether a download is offered for `os` as a direct file or a download page.
pub open spec fn download_ok_pred(os: Seq<char>) -> spec_fn(OnlineDownloadSpec) -> bool {
    |d: OnlineDownloadSpec|
        (d.platform@ == os || d.platform@ == "all"@) && (d.direct || d.url_type@
            == "download-page"@)
}

/// Like `download_ok_pred`, and of version `version` when one is asked for.
pub open spec fn download_version_pred(os: Seq<char>, version: Option<Seq<char>>) -> spec_fn(
    OnlineDownloadSpec,
) -> bool {
    |d: OnlineDownloadSpec|
        download_ok_pred(os)(d) && match version {
            None => true,
            Some(v) => d.version matches Some(dv) && dv@ == v,
        }
}

/// The URL of the first suitable download of the asked version, or else of the
/// first suitable download of any version.
pub open spec fn download_url_spec(
    source: OnlineSourceSpec,
    version: Option<Seq<char>>,
    os: Seq<char>,
) -> Option<String> {
    let k1 = find_first(source.downloads@, download_version_pred(os, version));
    let k0 = find_first(source.downloads@, download_ok_pred(os));
    if k1 >= 0 {
        source.downloads@[k1].url
    } else if k0 >= 0 {
        source.downloads@[k0].url
    } else {
        None
    }
}

fn download_ok(d: &OnlineDownloadSpec, os: &str) -> (r: bool)
    ensures
        r == download_ok_pred(os@)(*d),
{
    (str_eq(d.platform.as_str(), os) || str_eq(d.platform.as_str(), "all")) && (d.direct
        || str_eq(d.url_type.as_str(), "download-page"))
}

/// The download URL of a source for a platform and version.
pub fn download_url_for_source(
    source: &OnlineSourceSpec,
    version: Option<&str>,
    os: &str,
) -> (r: Option<String>)
    ensures
        r == download_url_spec(
            *source,
            match version {
                Some(v) => Some(v@),
                None => None,
            },
            os@,
        ),
{
    let ghost ver = match version {
        Some(v) => Some(v@),
        None => None,
    };
    let ds = &source.downloads;
    let mut i: usize = 0;
    while i < ds.len()
        invariant
            ds == &source.downloads,
            i <= ds.len(),
            ver == (match version {
                Some(v) => Some(v@),
                None => None,
            }),
            find_first(ds@, download_version_pred(os@, ver)) == find_from(
                ds@,
                download_version_pred(os@, ver),
                i as int,
            ),
        decreases ds.len() - i,
    {
        let d = &ds[i];
        let version_matches = match version {
            None => true,
            Some(v) => match &d.version {
                Some(dv) => str_eq(dv.as_str(), v),
                None => false,
            },
        };
        if download_ok(d, os) && version_matches {
            return clone_opt(&d.url);
        }
        i += 1;
    }
    let mut j: usize = 0;
    while j < ds.len()
        invariant
            ds == &source.downloads,
            j <= ds.len(),
            ver == (match version {
                Some(v) => Some(v@),
                None => None,
            }),
            find_first(ds@, download_version_pred(os@, ver)) < 0,
            find_first(ds@, download_ok_pred(os@)) == find_from(
                ds@,
                download_ok_pred(os@),
                j as int,
            ),
        decreases ds.len() - j,
    {
        if download_ok(&ds[j], os) {
            return clone_opt(&ds[j].url);
        }
        j += 1;
    }
    None
}

/// The notes of an install plan: the tool's description (or summary) followed
/// by the source's manager and quality.
pub open spec fn tool_notes_spec(tool: CatalogToolSpec, source: OnlineSourceSpec) -> Seq<char> {
    let base = match tool.description {
        Some(d) => d@,
        None => match tool.summary {
            Some(s) => s@,
            None => Seq::empty(),
        },
    };
    let source_text = "Source: "@ + source.manager@ + " / quality "@ + decimal_int(
        source.quality.score as int,
    );
    if trim_seq(base).len() == 0 {
        source_text
    } else {
        base + " "@ + source_text
    }
}

/// The notes a plan carries.
pub fn tool_notes(tool: &CatalogToolSpec, source: &OnlineSourceSpec) -> (r: String)
    ensures
        r@ == tool_notes_spec(*tool, *source),
{
    let base: String = match &tool.description {
        Some(d) => d.clone(),
        None => match &tool.summary {
            Some(s) => s.clone(),
            None => String::new(),
        },
    };
    let score = i32_to_string(source.quality.score);
    let mut source_text = concat3("Source: ", source.manager.as_str(), " / quality ");
    source_text.append(score.as_str());
    if is_blank(base.as_str()) {
        source_text
    } else {
        concat3(base.as_str(), " ", source_text.as_str())
    }
}

// ---------------------------------------------------------------------------
// Plans
// ---------------------------------------------------------------------------

/// What a plan built from a source and one of its commands holds.
pub open spec fn command_plan_ok(
    r: InstallPlan,
    catalog_tool: CatalogToolSpec,
    source: OnlineSourceSpec,
    command: OnlineCommandSpec,
    download_version: Option<Seq<char>>,
    os: Seq<char>,
) -> bool {
    &&& r.package_manager == source.manager
    &&& r.package_id == (match source.package_id {
        Some(p) => p,
        None => source.id,
    })
    &&& r.command@ == command.command@
    &&& r.needs_admin == (command.requires_admin || catalog_tool.requirements.requires_admin)
    &&& r.notes@ == tool_notes_spec(catalog_tool, source)
    &&& r.source_id == source.id
    &&& r.source_quality == source.quality.score
    &&& r.download_url == download_url_spec(source, download_version, os)
}

/// The plan built from a source and one of its commands.
pub fn build_command_plan(
    catalog_tool: &CatalogToolSpec,
    source: &OnlineSourceSpec,
    command: &OnlineCommandSpec,
    download_version: Option<&str>,
    os: &str,
) -> (r: Option<InstallPlan>)
    ensures
        r matches Some(p) && command_plan_ok(
            p,
            *catalog_tool,
            *source,
            *command,
            match download_version {
                Some(v) => Some(v@),
                None => None,
            },
            os@,
        ),
{
    let package_id = match &source.package_id {
        Some(p) => p.clone(),
        None => source.id.clone(),
    };
    Some(
        InstallPlan {
            package_manager: source.manager.clone(),
            package_id,
            command: clone_strings(&command.command),
            needs_admin: command.requires_admin || catalog_tool.requirements.requires_admin,
            notes: tool_notes(catalog_tool, source),
            source_id: source.id.clone(),
            source_quality: source.quality.score,
            download_url: download_url_for_source(source, download_version, os),
        },
    )
}

/// The plan for `action` on `os`, when a source is selected and has the
/// command for it.
pub open spec fn action_plan_ok(
    r: Option<InstallPlan>,
    tool: OnlineToolSpec,
    catalog_tool: CatalogToolSpec,
    data: EnvironmentData,
    managers: Seq<(String, String)>,
    action: Seq<char>,
    os: Seq<char>,
) -> bool {
    let b = best_source(tool, data.policy, managers, action, os);
    if b < 0 {
        r is None
    } else {
        let s = tool.sources@[b];
        let c = command_index(s, action, os);
        if c < 0 {
            r is None
        } else {
            r matches Some(p) && command_plan_ok(p, catalog_tool, s, s.commands@[c], None, os)
        }
    }
}

/// The install plan of a tool on a platform.
pub fn build_install_plan_from_metadata(
    tool: &OnlineToolSpec,
    catalog_tool: &CatalogToolSpec,
    data: &EnvironmentData,
    manager_versions: &Vec<(String, String)>,
    os: &str,
) -> (r: Option<InstallPlan>)
    ensures
        action_plan_ok(r, *tool, *catalog_tool, *data, manager_versions@, "install"@, os@),
{
    let source = match selected_source(tool, data, manager_versions, os) {
        Some(s) => s,
        None => return None,
    };
    let command = match install_command_for_source(source, os) {
        Some(c) => c,
        None => return None,
    };
    build_command_plan(catalog_tool, source, command, None, os)
}

/// The uninstall plan of a tool on a platform.
pub fn build_uninstall_plan_from_metadata(
    tool: &OnlineToolSpec,
    catalog_tool: &CatalogToolSpec,
    data: &EnvironmentData,
    manager_versions: &Vec<(String, String)>,
    os: &str,
) -> (r: Option<InstallPlan>)
    ensures
        action_plan_ok(r, *tool, *catalog_tool, *data, manager_versions@, "uninstall"@, os@),
{
    let source = match selected_source_for_action(tool, data, manager_versions, "uninstall", os) {
        Some(s) => s,
        None => return None,
    };
    let command = match uninstall_command_for_source(source, os) {
        Some(c) => c,
        None => return None,
    };
    build_command_plan(catalog_tool, source, command, None, os)
}

// ---------------------------------------------------------------------------
// Version options
// ---------------------------------------------------------------------------

pub open spec fn not_prerelease() -> spec_fn(OnlineVersionSpec) -> bool {
    |v: OnlineVersionSpec| !v.prerelease
}

/// The versions offered for picking: the first 30 that are not pre-releases.
pub open spec fn offered_versions(source: OnlineSourceSpec) -> Seq<OnlineVersionSpec> {
    let k = keep(source.versions@, not_prerelease());
    if k.len() > 30 {
        k.take(30)
    } else {
        k
    }
}

/// Whether a source's install command takes a version through its template.
pub open spec fn versioned_install(source: OnlineSourceSpec, os: Seq<char>) -> bool {
    let c = command_index(source, "install"@, os);
    c >= 0 && source.commands@[c].supports_version && views(
        source.commands@[c].template@,
    ).contains("{{version}}"@)
}

/// The template with every `{{version}}` part replaced by `version`.
pub open spec fn fill_template(template: Seq<Seq<char>>, version: Seq<char>) -> Seq<Seq<char>> {
    template.map_values(|p: Seq<char>| if p == "{{version}}"@ {
        version
    } else {
        p
    })
}

pub open spec fn version_suffix(v: OnlineVersionSpec) -> Seq<char> {
    if v.latest {
        "latest"@
    } else if v.channel@.len() == 0 {
        "stable"@
    } else {
        v.channel@
    }
}

/// What the option for one offered version holds.
pub open spec fn version_option_ok(
    o: InstallVersionOption,
    source: OnlineSourceSpec,
    plan: InstallPlan,
    v: OnlineVersionSpec,
    os: Seq<char>,
) -> bool {
    let c = command_index(source, "install"@, os);
    &&& o.id@ == source.id@ + ":"@ + v.version@
    &&& o.label@ == v.version@ + " ("@ + version_suffix(v) + ")"@
    &&& o.package_id == plan.package_id
    &&& views(o.command@) == fill_template(views(source.commands@[c].template@), v.version@)
    &&& o.needs_admin == plan.needs_admin
    &&& o.source_id == source.id
    &&& o.manager == source.manager
    &&& o.quality_score == source.quality.score
    &&& o.download_url == download_url_spec(source, Some(v.version@), os)
}

/// What the default option holds.
pub open spec fn default_option_ok(
    o: InstallVersionOption,
    source: OnlineSourceSpec,
    plan: InstallPlan,
) -> bool {
    &&& o.id@ == source.id@ + ":default"@
    &&& o.label@ == "Default / latest"@
    &&& o.package_id == plan.package_id
    &&& o.command@ == plan.command@
    &&& o.needs_admin == plan.needs_admin
    &&& o.source_id == source.id
    &&& o.manager == source.manager
    &&& o.quality_score == source.quality.score
    &&& o.download_url == plan.download_url
}

fn template_has_version(template: &Vec<String>) -> (r: bool)
    ensures
        r == views(template@).contains("{{version}}"@),
{
    crate::catalog::contains_string(template, "{{version}}")
}

fn fill_template_exec(template: &Vec<String>, version: &str) -> (r: Vec<String>)
    ensures
        views(r@) == fill_template(views(template@), version@),
{
    let mut out: Vec<String> = Vec::new();
    let mut i: usize = 0;
    while i < template.len()
        invariant
            i <= template.len(),
            views(out@) == fill_template(views(template@.subrange(0, i as int)), version@),
        decreases template.len() - i,
    {
        let part = if str_eq(template[i].as_str(), "{{version}}") {
            owned(version)
        } else {
            template[i].clone()
        };
        let ghost old_out = out@;
        out.push(part);
        assert(views(template@.subrange(0, i + 1)) == views(template@.subrange(0, i as int)).push(
            template@[i as int]@,
        ));
        assert(views(out@) == views(old_out).push(part@));
        i += 1;
    }
    assert(template@.subrange(0, template.len() as int) == template@);
    out
}

fn version_option(
    source: &OnlineSourceSpec,
    plan: &InstallPlan,
    command: &OnlineCommandSpec,
    v: &OnlineVersionSpec,
    os: &str,
) -> (r: InstallVersionOption)
    requires
        command_index(*source, "install"@, os@) >= 0,
        *command == source.commands@[command_index(*source, "install"@, os@)],
    ensures
        version_option_ok(r, *source, *plan, *v, os@),
{
    let suffix: String = if v.latest {
        owned("latest")
    } else if v.channel.as_str().unicode_len() == 0 {
        owned("stable")
    } else {
        v.channel.clone()
    };
    let id = concat3(source.id.as_str(), ":", v.version.as_str());
    let mut label = concat3(v.version.as_str(), " (", suffix.as_str());
    label.append(")");
    InstallVersionOption {
        id,
        label,
        package_id: plan.package_id.clone(),
        command: fill_template_exec(&command.template, v.version.as_str()),
        needs_admin: plan.needs_admin,
        source_id: source.id.clone(),
        manager: source.manager.clone(),
        quality_score: source.quality.score,
        download_url: download_url_for_source(source, Some(v.version.as_str()), os),
    }
}

/// What the install options of a source hold.
pub open spec fn version_options_ok(
    r: Seq<InstallVersionOption>,
    source: OnlineSourceSpec,
    plan: InstallPlan,
    os: Seq<char>,
) -> bool {
    &&& r.len() >= 1
    &&& default_option_ok(r[0], source, plan)
    &&& !versioned_install(source, os) ==> r.len() == 1
    &&& versioned_install(source, os) ==> r.len() == 1 + offered_versions(source).len()
    &&& versioned_install(source, os) ==> forall|i: int|
        1 <= i < r.len() ==> version_option_ok(
            #[trigger] r[i],
            source,
            plan,
            offered_versions(source)[i - 1],
            os,
        )
}

/// The install options of a source: the default plan first, then (when the
/// install command takes a version) one option per offered version.
pub fn build_version_options_from_source(
    source: &OnlineSourceSpec,
    plan: &InstallPlan,
    os: &str,
) -> (r: Vec<InstallVersionOption>)
    ensures
        version_options_ok(r@, *source, *plan, os@),
        r@.len() >= 1,
        default_option_ok(r@[0], *source, *plan),
        !versioned_install(*source, os@) ==> r@.len() == 1,
        versioned_install(*source, os@) ==> r@.len() == 1 + offered_versions(*source).len(),
        versioned_install(*source, os@) ==> forall|i: int|
            1 <= i < r@.len() ==> version_option_ok(
                #[trigger] r@[i],
                *source,
                *plan,
                offered_versions(*source)[i - 1],
                os@,
            ),
{
    let mut options: Vec<InstallVersionOption> = Vec::new();
    options.push(
        InstallVersionOption {
            id: concat2(source.id.as_str(), ":default"),
            label: owned("Default / latest"),
            package_id: plan.package_id.clone(),
            command: clone_strings(&plan.command),
            needs_admin: plan.needs_admin,
            source_id: source.id.clone(),
            manager: source.manager.clone(),
            quality_score: source.quality.score,
            download_url: clone_opt(&plan.download_url),
        },
    );
    let command = match install_command_for_source(source, os) {
        Some(c) => c,
        None => return options,
    };
    if !command.supports_version || !template_has_version(&command.template) {
        return options;
    }
    let ghost kept = keep(source.versions@, not_prerelease());
    let versions = &source.versions;
    let mut taken: usize = 0;
    let mut i: usize = 0;
    while i < versions.len() && taken < 30
        invariant
            versions == &source.versions,
            kept == keep(source.versions@, not_prerelease()),
            versioned_install(*source, os@),
            command_index(*source, "install"@, os@) >= 0,
            *command == source.commands@[command_index(*source, "install"@, os@)],
            i <= versions.len(),
            taken <= 30,
            taken == keep(versions@.subrange(0, i as int), not_prerelease()).len(),
            options@.len() == 1 + taken,
            default_option_ok(options@[0], *source, *plan),
            forall|j: int|
                1 <= j < options@.len() ==> version_option_ok(
                    #[trigger] options@[j],
                    *source,
                    *plan,
                    keep(versions@.subrange(0, i as int), not_prerelease())[j - 1],
                    os@,
                ),
        decreases versions.len() - i,
    {
        let ghost pre = versions@.subrange(0, i as int);
        let ghost next = versions@.subrange(0, i + 1);
        assert(next.drop_last() == pre);
        assert(next.last() == versions@[i as int]);
        if !versions[i].prerelease {
            let o = version_option(source, plan, command, &versions[i], os);
            options.push(o);
            taken += 1;
            assert(keep(next, not_prerelease()) == keep(pre, not_prerelease()).push(
                versions@[i as int],
            ));
        }
        i += 1;
    }
    proof {
        lemma_keep_prefix(versions@, not_prerelease(), i as int);
        if taken < 30 {
            assert(versions@.subrange(0, i as int) == versions@);
        }
    }
    options
}

/// Keeping from a prefix gives a prefix of what is kept from the whole.
proof fn lemma_keep_prefix<T>(s: Seq<T>, p: spec_fn(T) -> bool, i: int)
    requires
        0 <= i <= s.len(),
    ensures
        keep(s.subrange(0, i), p).len() <= keep(s, p).len(),
        forall|j: int|
            0 <= j < keep(s.subrange(0, i), p).len() ==> keep(s.subrange(0, i), p)[j] == keep(
                s,
                p,
            )[j],
    decreases s.len() - i,
{
    if i < s.len() {
        lemma_keep_prefix(s, p, i + 1);
        let pre = s.subrange(0, i);
        let next = s.subrange(0, i + 1);
        assert(next.drop_last() == pre);
    } else {
        assert(s.subrange(0, i) == s);
    }
}

/// The plan of the version option whose id (or package id) is `option_id`.
pub fn install_plan_for_package(tool: &DevToolCheck, option_id: &str) -> (r: Result<
    Option<InstallPlan>,
    String,
>)
    ensures
        ({
            let k = find_first(
                tool.version_options@,
                |o: InstallVersionOption| o.id@ == option_id@ || o.package_id@ == option_id@,
            );
            &&& k < 0 ==> (r matches Err(e) && e@ == "Unknown install version"@)
            &&& k >= 0 ==> (r matches Ok(Some(p)) && {
                let o = tool.version_options@[k];
                &&& p.package_manager == o.manager
                &&& p.package_id == o.package_id
                &&& p.command@ == o.command@
                &&& p.needs_admin == o.needs_admin
                &&& p.notes@ == (match tool.install_plan {
                    Some(q) => q.notes@,
                    None => Seq::<char>::empty(),
                })
                &&& p.source_id == o.source_id
                &&& p.source_quality == o.quality_score
                &&& p.download_url == o.download_url
            })
        }),
{
    let opts = &tool.version_options;
    let mut i: usize = 0;
    while i < opts.len()
        invariant
            opts == &tool.version_options,
            i <= opts.len(),
            find_first(
                opts@,
                |o: InstallVersionOption| o.id@ == option_id@ || o.package_id@ == option_id@,
            ) == find_from(
                opts@,
                |o: InstallVersionOption| o.id@ == option_id@ || o.package_id@ == option_id@,
                i as int,
            ),
        decreases opts.len() - i,
    {
        let o = &opts[i];
        if str_eq(o.id.as_str(), option_id) || str_eq(o.package_id.as_str(), option_id) {
            let notes = match &tool.install_plan {
                Some(q) => q.notes.clone(),
                None => String::new(),
            };
            return Ok(
                Some(
                    InstallPlan {
                        package_manager: o.manager.clone(),
                        package_id: o.package_id.clone(),
                        command: clone_strings(&o.command),
                        needs_admin: o.needs_admin,
                        notes,
                        source_id: o.source_id.clone(),
                        source_quality: o.quality_score,
                        download_url: clone_opt(&o.download_url),
                    },
                ),
            );
        }
        i += 1;
    }
    Err(owned("Unknown install version"))
}

} // verus!
