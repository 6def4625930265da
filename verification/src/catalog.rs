use vstd::prelude::*;

use crate::model::{
    CatalogSuiteSpec, CatalogToolSpec, DevToolCheck, EnvironmentCheckReport, EnvironmentData,
    EnvironmentSuite, IdentityFile, InstallPlan, ToolIdentitySpec,
};
use crate::seqs::{
    count_where, dedup_seq, find_first, find_from, flatten, keep, lemma_count_bound,
    lemma_count_disjoint_union, lemma_count_split, lemma_dedup, lemma_find_from, lemma_keep_len,
    no_duplicates,
};
use crate::text::{is_blank, owned, str_eq, trim_seq, views};

verus! {

// ---------------------------------------------------------------------------
// Small copying helpers
// ---------------------------------------------------------------------------

/// A copy of an optional string.
pub fn clone_opt(o: &Option<String>) -> (r: Option<String>)
    ensures
        r == *o,
{
    match o {
        Some(s) => Some(s.clone()),
        None => None,
    }
}

/// A copy of a list of strings.
pub fn clone_strings(v: &Vec<String>) -> (r: Vec<String>)
    ensures
        r@ == v@,
{
    let mut out: Vec<String> = Vec::new();
    let mut i: usize = 0;
    while i < v.len()
        invariant
            i <= v.len(),
            out@ == v@.subrange(0, i as int),
        decreases v.len() - i,
    {
        out.push(v[i].clone());
        assert(v@.subrange(0, i + 1) == v@.subrange(0, i as int).push(v@[i as int]));
        i += 1;
    }
    assert(v@.subrange(0, v.len() as int) == v@);
    out
}

/// Appends copies of the strings of `b` to `a`.
pub fn extend_strings(a: &mut Vec<String>, b: &Vec<String>)
    ensures
        final(a)@ == old(a)@ + b@,
{
    let mut i: usize = 0;
    while i < b.len()
        invariant
            i <= b.len(),
            a@ == old(a)@ + b@.subrange(0, i as int),
        decreases b.len() - i,
    {
        a.push(b[i].clone());
        assert(b@.subrange(0, i + 1) == b@.subrange(0, i as int).push(b@[i as int]));
        i += 1;
    }
    assert(b@.subrange(0, b.len() as int) == b@);
}

/// Whether the list holds a string equal to `s`.
pub fn contains_string(v: &Vec<String>, s: &str) -> (r: bool)
    ensures
        r == views(v@).contains(s@),
{
    let mut i: usize = 0;
    while i < v.len()
        invariant
            i <= v.len(),
            forall|j: int| 0 <= j < i ==> v@[j]@ != s@,
        decreases v.len() - i,
    {
        if str_eq(v[i].as_str(), s) {
            assert(views(v@)[i as int] == s@);
            return true;
        }
        i += 1;
    }
    assert(!views(v@).contains(s@)) by {
        if views(v@).contains(s@) {
            let k = choose|k: int| 0 <= k < views(v@).len() && views(v@)[k] == s@;
            assert(v@[k]@ == s@);
        }
    }
    false
}

// ---------------------------------------------------------------------------
// Platforms
// ---------------------------------------------------------------------------

/// Whether a platform list names `platform` or `all`.
pub open spec fn platform_ok(platforms: Seq<String>, platform: Seq<char>) -> bool {
    exists|i: int| 0 <= i < platforms.len() && (platforms[i]@ == platform || platforms[i]@ == "all"@)
}

/// Whether a platform list names the platform or `all`.
pub fn platform_matches(platforms: &Vec<String>, platform: &str) -> (r: bool)
    ensures
        r == platform_ok(platforms@, platform@),
{
    let mut i: usize = 0;
    while i < platforms.len()
        invariant
            i <= platforms.len(),
            forall|j: int| 0 <= j < i ==> !(platforms@[j]@ == platform@ || platforms@[j]@ == "all"@),
        decreases platforms.len() - i,
    {
        if str_eq(platforms[i].as_str(), platform) || str_eq(platforms[i].as_str(), "all") {
            return true;
        }
        i += 1;
    }
    false
}

pub open spec fn tool_on_platform(os: Seq<char>) -> spec_fn(CatalogToolSpec) -> bool {
    |t: CatalogToolSpec| platform_ok(t.platforms@, os)
}

/// The catalog tools that run on `os`, in catalog order.
pub fn platform_catalog_tools<'a>(data: &'a EnvironmentData, os: &str) -> (r: Vec<
    &'a CatalogToolSpec,
>)
    ensures
        r@.len() == keep(data.catalog.tools@, tool_on_platform(os@)).len(),
        forall|i: int|
            0 <= i < r@.len() ==> *r@[i] == keep(data.catalog.tools@, tool_on_platform(os@))[i],
{
    let tools = &data.catalog.tools;
    let mut out: Vec<&'a CatalogToolSpec> = Vec::new();
    let mut i: usize = 0;
    while i < tools.len()
        invariant
            tools == &data.catalog.tools,
            i <= tools.len(),
            out@.len() == keep(tools@.subrange(0, i as int), tool_on_platform(os@)).len(),
            forall|j: int|
                0 <= j < out@.len() ==> *out@[j] == keep(
                    tools@.subrange(0, i as int),
                    tool_on_platform(os@),
                )[j],
        decreases tools.len() - i,
    {
        let ghost pre = tools@.subrange(0, i as int);
        let ghost next = tools@.subrange(0, i + 1);
        assert(next.drop_last() == pre);
        assert(next.last() == tools@[i as int]);
        if platform_matches(&tools[i].platforms, os) {
            out.push(&tools[i]);
        }
        i += 1;
    }
    assert(tools@.subrange(0, tools.len() as int) == tools@);
    out
}

/// The number of threads that check tools: between 1 and 8.
pub fn environment_scan_worker_count(total: usize) -> (r: usize)
    ensures
        r == (if total < 1 {
            1
        } else if total > 8 {
            8
        } else {
            total
        }),
{
    if total < 1 {
        1
    } else if total > 8 {
        8
    } else {
        total
    }
}

/// The quality score below which an install source is not used, when the
/// platform policy names none.
pub fn default_minimum_quality_score() -> (r: i32)
    ensures
        r == 45,
{
    45
}

// ---------------------------------------------------------------------------
// Identities
// ---------------------------------------------------------------------------

pub open spec fn identity_pred(id: Seq<char>) -> spec_fn(ToolIdentitySpec) -> bool {
    |x: ToolIdentitySpec| x.current_id@ == id || x.stable_id@ == id
}

/// The stable id of a tool id: that of the first identity that names it, or
/// the id itself.
pub open spec fn stable_id_spec(identities: Seq<ToolIdentitySpec>, id: Seq<char>) -> Seq<char> {
    let k = find_first(identities, identity_pred(id));
    if k >= 0 {
        identities[k].stable_id@
    } else {
        id
    }
}

/// The stable id that reports use for a tool id.
pub fn stable_id_for(identities: &IdentityFile, id: &str) -> (r: String)
    ensures
        r@ == stable_id_spec(identities.identities@, id@),
{
    let ids = &identities.identities;
    let mut i: usize = 0;
    while i < ids.len()
        invariant
            ids == &identities.identities,
            i <= ids.len(),
            find_first(ids@, identity_pred(id@)) == find_from(ids@, identity_pred(id@), i as int),
        decreases ids.len() - i,
    {
        if str_eq(ids[i].current_id.as_str(), id) || str_eq(ids[i].stable_id.as_str(), id) {
            return ids[i].stable_id.clone();
        }
        i += 1;
    }
    owned(id)
}

/// The current display name of a tool id, from the first identity that names
/// it, when that name is not blank.
pub open spec fn identity_name_spec(identities: Seq<ToolIdentitySpec>, id: Seq<char>) -> Option<
    String,
> {
    let k = find_first(identities, identity_pred(id));
    if k >= 0 && trim_seq(identities[k].current_name@).len() > 0 {
        Some(identities[k].current_name)
    } else {
        None
    }
}

/// The current name recorded for a tool id, if any.
pub fn identity_name_for(identities: &IdentityFile, id: &str) -> (r: Option<String>)
    ensures
        r == identity_name_spec(identities.identities@, id@),
{
    let ids = &identities.identities;
    let mut i: usize = 0;
    while i < ids.len()
        invariant
            ids == &identities.identities,
            i <= ids.len(),
            find_first(ids@, identity_pred(id@)) == find_from(ids@, identity_pred(id@), i as int),
        decreases ids.len() - i,
    {
        if str_eq(ids[i].current_id.as_str(), id) || str_eq(ids[i].stable_id.as_str(), id) {
            if is_blank(ids[i].current_name.as_str()) {
                return None;
            }
            return Some(ids[i].current_name.clone());
        }
        i += 1;
    }
    None
}

/// The stable ids of `ids`, each kept at its first occurrence.
pub open spec fn unique_stable_spec(ids: Seq<Seq<char>>, identities: Seq<ToolIdentitySpec>) -> Seq<
    Seq<char>,
> {
    dedup_seq(ids.map_values(|id: Seq<char>| stable_id_spec(identities, id)))
}

/// The stable ids of `ids` in order, without repeats.
pub fn unique_stable_ids(ids: &Vec<String>, identities: &IdentityFile) -> (r: Vec<String>)
    ensures
        views(r@) == unique_stable_spec(views(ids@), identities.identities@),
{
    let ghost mapped = views(ids@).map_values(
        |id: Seq<char>| stable_id_spec(identities.identities@, id),
    );
    let mut out: Vec<String> = Vec::new();
    let mut i: usize = 0;
    while i < ids.len()
        invariant
            i <= ids.len(),
            mapped == views(ids@).map_values(
                |id: Seq<char>| stable_id_spec(identities.identities@, id),
            ),
            views(out@) == dedup_seq(mapped.subrange(0, i as int)),
        decreases ids.len() - i,
    {
        let sid = stable_id_for(identities, ids[i].as_str());
        let ghost pre = mapped.subrange(0, i as int);
        let ghost next = mapped.subrange(0, i + 1);
        assert(next.drop_last() == pre);
        assert(next.last() == sid@);
        if !contains_string(&out, sid.as_str()) {
            let ghost old_out = out@;
            out.push(sid);
            assert(views(out@) == views(old_out).push(out@.last()@));
        }
        i += 1;
    }
    assert(mapped.subrange(0, ids.len() as int) == mapped);
    out
}

/// The tool ids of a suite: its required and optional ids, or its plain id
/// list when both are empty; as unique stable ids.
pub open spec fn suite_tool_ids_spec(suite: CatalogSuiteSpec, identities: Seq<ToolIdentitySpec>) -> Seq<
    Seq<char>,
> {
    if suite.required_tool_ids@.len() == 0 && suite.optional_tool_ids@.len() == 0 {
        unique_stable_spec(views(suite.tool_ids@), identities)
    } else {
        unique_stable_spec(
            views(suite.required_tool_ids@ + suite.optional_tool_ids@),
            identities,
        )
    }
}

/// The stable ids of a suite's tools: listed, required and optional ones, each once.
pub fn suite_tool_ids(suite: &CatalogSuiteSpec, identities: &IdentityFile) -> (r: Vec<String>)
    ensures
        views(r@) == suite_tool_ids_spec(*suite, identities.identities@),
{
    if suite.required_tool_ids.len() == 0 && suite.optional_tool_ids.len() == 0 {
        return unique_stable_ids(&suite.tool_ids, identities);
    }
    let mut all = clone_strings(&suite.required_tool_ids);
    extend_strings(&mut all, &suite.optional_tool_ids);
    unique_stable_ids(&all, identities)
}

/// The stable ids of a suite's required tools, each once.
pub fn suite_required_ids(suite: &CatalogSuiteSpec, identities: &IdentityFile) -> (r: Vec<String>)
    ensures
        views(r@) == unique_stable_spec(views(suite.required_tool_ids@), identities.identities@),
{
    unique_stable_ids(&suite.required_tool_ids, identities)
}

/// The required tool ids of all suites, in suite order.
pub open spec fn all_required_ids(suites: Seq<CatalogSuiteSpec>) -> Seq<String> {
    flatten(suites.map_values(|s: CatalogSuiteSpec| s.required_tool_ids@))
}

/// The stable ids that some suite requires, each once.
pub fn suite_required_tool_ids(suites: &Vec<CatalogSuiteSpec>, identities: &IdentityFile) -> (r: Vec<
    String,
>)
    ensures
        views(r@) == unique_stable_spec(views(all_required_ids(suites@)), identities.identities@),
        no_duplicates(views(r@)),
{
    let ghost lists = suites@.map_values(|s: CatalogSuiteSpec| s.required_tool_ids@);
    let mut all: Vec<String> = Vec::new();
    let mut i: usize = 0;
    while i < suites.len()
        invariant
            i <= suites.len(),
            lists == suites@.map_values(|s: CatalogSuiteSpec| s.required_tool_ids@),
            all@ == flatten(lists.subrange(0, i as int)),
        decreases suites.len() - i,
    {
        assert(lists.subrange(0, i + 1).drop_last() == lists.subrange(0, i as int));
        extend_strings(&mut all, &suites[i].required_tool_ids);
        i += 1;
    }
    assert(lists.subrange(0, suites.len() as int) == lists);
    let r = unique_stable_ids(&all, identities);
    proof {
        lemma_dedup(
            views(all@).map_values(|id: Seq<char>| stable_id_spec(identities.identities@, id)),
        );
    }
    r
}

/// Whether a catalog tool counts as required: by itself or through a suite.
pub open spec fn tool_required_spec(
    tool: CatalogToolSpec,
    identities: Seq<ToolIdentitySpec>,
    suite_required: Seq<Seq<char>>,
) -> bool {
    tool.requirements.required || suite_required.contains(
        stable_id_spec(identities, tool.id@),
    )
}

/// Whether a tool is required by itself or by a suite.
pub fn tool_is_required(
    tool: &CatalogToolSpec,
    identities: &IdentityFile,
    suite_required: &Vec<String>,
) -> (r: bool)
    ensures
        r == tool_required_spec(*tool, identities.identities@, views(suite_required@)),
{
    if tool.requirements.required {
        return true;
    }
    let sid = stable_id_for(identities, tool.id.as_str());
    contains_string(suite_required, sid.as_str())
}

// ---------------------------------------------------------------------------
// Tool checks and reports
// ---------------------------------------------------------------------------

/// What a not yet checked tool looks like in a report.
pub open spec fn pending_check_ok(
    c: DevToolCheck,
    spec: CatalogToolSpec,
    identities: Seq<ToolIdentitySpec>,
    suite_required: Seq<Seq<char>>,
) -> bool {
    &&& c.id@ == stable_id_spec(identities, spec.id@)
    &&& c.name == (match identity_name_spec(identities, spec.id@) {
        Some(n) => n,
        None => spec.name,
    })
    &&& c.summary == spec.summary
    &&& c.description == spec.description
    &&& c.command@ == (if spec.detection.commands@.len() > 0 {
        spec.detection.commands@[0].command@
    } else {
        "PATH"@
    })
    &&& !c.installed
    &&& c.version is None
    &&& c.source@ == "pending"@
    &&& c.status@ == "pending"@
    &&& c.required == tool_required_spec(spec, identities, suite_required)
    &&& c.category == spec.category_id
    &&& c.install_plan is None
    &&& c.uninstall_plan is None
    &&& c.version_options@.len() == 0
    &&& c.detail is None
}

/// The check of a tool that has not been probed yet.
pub fn pending_tool_check(
    spec: &CatalogToolSpec,
    data: &EnvironmentData,
    suite_required: &Vec<String>,
) -> (r: DevToolCheck)
    ensures
        pending_check_ok(r, *spec, data.identities.identities@, views(suite_required@)),
{
    let name = match identity_name_for(&data.identities, spec.id.as_str()) {
        Some(n) => n,
        None => spec.name.clone(),
    };
    let command = if spec.detection.commands.len() > 0 {
        spec.detection.commands[0].command.clone()
    } else {
        owned("PATH")
    };
    DevToolCheck {
        id: stable_id_for(&data.identities, spec.id.as_str()),
        name,
        summary: clone_opt(&spec.summary),
        description: clone_opt(&spec.description),
        command,
        installed: false,
        version: None,
        source: owned("pending"),
        status: owned("pending"),
        required: tool_is_required(spec, &data.identities, suite_required),
        category: spec.category_id.clone(),
        install_plan: None,
        uninstall_plan: None,
        version_options: Vec::new(),
        detail: None,
    }
}

pub open spec fn tool_id_pred(id: Seq<char>) -> spec_fn(DevToolCheck) -> bool {
    |t: DevToolCheck| t.id@ == id
}

/// For each id, the first tool check with that id; ids without one are skipped.
pub open spec fn suite_tools_spec(ids: Seq<Seq<char>>, tools: Seq<DevToolCheck>) -> Seq<
    DevToolCheck,
>
    decreases ids.len(),
{
    if ids.len() == 0 {
        Seq::empty()
    } else {
        let rest = suite_tools_spec(ids.drop_last(), tools);
        let k = find_first(tools, tool_id_pred(ids.last()));
        if k >= 0 {
            rest.push(tools[k])
        } else {
            rest
        }
    }
}

pub open spec fn installed_pred() -> spec_fn(DevToolCheck) -> bool {
    |t: DevToolCheck| t.installed
}

pub open spec fn missing_pred() -> spec_fn(DevToolCheck) -> bool {
    |t: DevToolCheck| t.status@ == "missing"@
}

pub open spec fn admin_pred() -> spec_fn(DevToolCheck) -> bool {
    |t: DevToolCheck|
        match t.install_plan {
            Some(p) => p.needs_admin,
            None => false,
        }
}

/// What the summary of one suite holds.
pub open spec fn suite_summary_ok(
    r: EnvironmentSuite,
    suite: CatalogSuiteSpec,
    tools: Seq<DevToolCheck>,
    identities: Seq<ToolIdentitySpec>,
) -> bool {
    let ids = suite_tool_ids_spec(suite, identities);
    let st = suite_tools_spec(ids, tools);
    &&& r.id == suite.id
    &&& r.name == suite.name
    &&& r.description == suite.description
    &&& views(r.tool_ids@) == ids
    &&& r.required_count == unique_stable_spec(views(suite.required_tool_ids@), identities).len()
    &&& r.installed_count == count_where(st, installed_pred())
    &&& r.missing_count == count_where(st, missing_pred())
    &&& r.admin_required == (count_where(st, admin_pred()) > 0)
}

/// Some element satisfies `p` exactly when the count is positive.
proof fn lemma_count_positive<T>(s: Seq<T>, p: spec_fn(T) -> bool)
    ensures
        (count_where(s, p) > 0) == (exists|k: int| 0 <= k < s.len() && #[trigger] p(s[k])),
    decreases s.len(),
{
    if s.len() > 0 {
        let t = s.drop_last();
        lemma_count_positive(t, p);
        if exists|k: int| 0 <= k < t.len() && #[trigger] p(t[k]) {
            let k = choose|k: int| 0 <= k < t.len() && #[trigger] p(t[k]);
            assert(s[k] == t[k]);
        }
        if exists|k: int| 0 <= k < s.len() && #[trigger] p(s[k]) {
            let k = choose|k: int| 0 <= k < s.len() && #[trigger] p(s[k]);
            if k < t.len() {
                assert(t[k] == s[k]);
            }
        }
    }
}

/// Each tool of a suite is one of the checks, and its id is one of the
/// suite's ids.
proof fn lemma_suite_tools_from(ids: Seq<Seq<char>>, tools: Seq<DevToolCheck>)
    ensures
        forall|k: int| 0 <= k < suite_tools_spec(ids, tools).len() ==> tools.contains(
            #[trigger] suite_tools_spec(ids, tools)[k],
        ) && ids.contains(suite_tools_spec(ids, tools)[k].id@),
    decreases ids.len(),
{
    if ids.len() > 0 {
        let rest_ids = ids.drop_last();
        lemma_suite_tools_from(rest_ids, tools);
        let rest = suite_tools_spec(rest_ids, tools);
        let st = suite_tools_spec(ids, tools);
        let k0 = find_first(tools, tool_id_pred(ids.last()));
        lemma_find_from(tools, tool_id_pred(ids.last()), 0);
        assert forall|k: int| 0 <= k < st.len() implies tools.contains(#[trigger] st[k])
            && ids.contains(st[k].id@) by {
            if k < rest.len() {
                assert(st[k] == rest[k]);
                let m = choose|m: int| 0 <= m < rest_ids.len() && rest_ids[m] == rest[k].id@;
                assert(ids[m] == rest_ids[m]);
            } else {
                assert(st[k] == tools[k0]);
                assert(ids[ids.len() - 1] == ids.last());
            }
        }
    }
}

/// A suite needs administrator rights exactly when the install plan of one
/// of its tools does: a tool without a plan, or whose plan runs without
/// them, never makes the suite need them.
pub proof fn law_suite_admin_only_from_plans(
    r: EnvironmentSuite,
    suite: CatalogSuiteSpec,
    tools: Seq<DevToolCheck>,
    identities: Seq<ToolIdentitySpec>,
)
    requires
        suite_summary_ok(r, suite, tools, identities),
    ensures
        ({
            let st = suite_tools_spec(suite_tool_ids_spec(suite, identities), tools);
            &&& r.admin_required == exists|k: int|
                0 <= k < st.len() && (#[trigger] st[k].install_plan matches Some(p) && p.needs_admin)
            &&& forall|k: int| 0 <= k < st.len() ==> tools.contains(#[trigger] st[k])
                && suite_tool_ids_spec(suite, identities).contains(st[k].id@)
        }),
{
    let st = suite_tools_spec(suite_tool_ids_spec(suite, identities), tools);
    lemma_suite_tools_from(suite_tool_ids_spec(suite, identities), tools);
    lemma_count_positive(st, admin_pred());
    assert forall|k: int| 0 <= k < st.len() implies admin_pred()(st[k]) == (
        #[trigger] st[k].install_plan matches Some(p) && p.needs_admin) by {}
}

fn find_tool_index(tools: &Vec<DevToolCheck>, id: &str) -> (r: Option<usize>)
    ensures
        match r {
            Some(k) => k < tools@.len() && k as int == find_first(tools@, tool_id_pred(id@)),
            None => find_first(tools@, tool_id_pred(id@)) < 0,
        },
{
    let mut i: usize = 0;
    while i < tools.len()
        invariant
            i <= tools.len(),
            find_first(tools@, tool_id_pred(id@)) == find_from(tools@, tool_id_pred(id@), i as int),
        decreases tools.len() - i,
    {
        if str_eq(tools[i].id.as_str(), id) {
            return Some(i);
        }
        i += 1;
    }
    None
}

fn plan_needs_admin(p: &Option<InstallPlan>) -> (r: bool)
    ensures
        r == (match *p {
            Some(p) => p.needs_admin,
            None => false,
        }),
{
    match p {
        Some(p) => p.needs_admin,
        None => false,
    }
}

/// The summary of one suite over the current tool checks.
pub fn suite_summary(
    suite: &CatalogSuiteSpec,
    tools: &Vec<DevToolCheck>,
    identities: &IdentityFile,
) -> (r: EnvironmentSuite)
    ensures
        suite_summary_ok(r, *suite, tools@, identities.identities@),
{
    let tool_ids = suite_tool_ids(suite, identities);
    let ghost ids = views(tool_ids@);
    let mut installed: usize = 0;
    let mut missing: usize = 0;
    let mut admin = false;
    let mut i: usize = 0;
    while i < tool_ids.len()
        invariant
            i <= tool_ids.len(),
            ids == views(tool_ids@),
            installed == count_where(
                suite_tools_spec(ids.subrange(0, i as int), tools@),
                installed_pred(),
            ),
            missing == count_where(
                suite_tools_spec(ids.subrange(0, i as int), tools@),
                missing_pred(),
            ),
            admin == (count_where(
                suite_tools_spec(ids.subrange(0, i as int), tools@),
                admin_pred(),
            ) > 0),
            installed <= i,
            missing <= i,
        decreases tool_ids.len() - i,
    {
        let ghost pre = ids.subrange(0, i as int);
        let ghost next = ids.subrange(0, i + 1);
        assert(next.drop_last() == pre);
        assert(next.last() == tool_ids@[i as int]@);
        match find_tool_index(tools, tool_ids[i].as_str()) {
            Some(k) => {
                let ghost st = suite_tools_spec(pre, tools@);
                assert(suite_tools_spec(next, tools@) == st.push(tools@[k as int]));
                assert(st.push(tools@[k as int]).drop_last() == st);
                if tools[k].installed {
                    installed += 1;
                }
                if str_eq(tools[k].status.as_str(), "missing") {
                    missing += 1;
                }
                if plan_needs_admin(&tools[k].install_plan) {
                    admin = true;
                }
            },
            None => {},
        }
        i += 1;
    }
    assert(ids.subrange(0, tool_ids.len() as int) == ids);
    let required = suite_required_ids(suite, identities);
    EnvironmentSuite {
        id: suite.id.clone(),
        name: suite.name.clone(),
        description: suite.description.clone(),
        tool_ids,
        required_count: required.len(),
        installed_count: installed,
        missing_count: missing,
        admin_required: admin,
    }
}

pub open spec fn suites_ok(
    r: Seq<EnvironmentSuite>,
    suites: Seq<CatalogSuiteSpec>,
    tools: Seq<DevToolCheck>,
    identities: Seq<ToolIdentitySpec>,
) -> bool {
    &&& r.len() == suites.len()
    &&& forall|i: int| 0 <= i < r.len() ==> suite_summary_ok(r[i], suites[i], tools, identities)
}

/// One summary per catalog suite, in catalog order.
pub fn build_environment_suites(
    suites: &Vec<CatalogSuiteSpec>,
    tools: &Vec<DevToolCheck>,
    identities: &IdentityFile,
) -> (r: Vec<EnvironmentSuite>)
    ensures
        suites_ok(r@, suites@, tools@, identities.identities@),
{
    let mut out: Vec<EnvironmentSuite> = Vec::new();
    let mut i: usize = 0;
    while i < suites.len()
        invariant
            i <= suites.len(),
            out@.len() == i,
            forall|j: int|
                0 <= j < i ==> suite_summary_ok(
                    #[trigger] out@[j],
                    suites@[j],
                    tools@,
                    identities.identities@,
                ),
        decreases suites.len() - i,
    {
        out.push(suite_summary(&suites[i], tools, identities));
        i += 1;
    }
    out
}

pub open spec fn required_missing_pred() -> spec_fn(DevToolCheck) -> bool {
    |t: DevToolCheck| t.required && t.status@ == "missing"@
}

pub open spec fn optional_missing_pred() -> spec_fn(DevToolCheck) -> bool {
    |t: DevToolCheck| !t.required && t.status@ == "missing"@
}

pub open spec fn checked_pred() -> spec_fn(DevToolCheck) -> bool {
    |t: DevToolCheck| t.status@ != "pending"@
}

pub open spec fn pending_pred() -> spec_fn(DevToolCheck) -> bool {
    |t: DevToolCheck| t.status@ == "pending"@
}

/// The totals of a report as they follow from its tools.
pub open spec fn totals_ok(
    r: EnvironmentCheckReport,
    report: EnvironmentCheckReport,
    data: EnvironmentData,
) -> bool {
    &&& r.platform == report.platform
    &&& r.package_manager_available == report.package_manager_available
    &&& r.package_manager_version == report.package_manager_version
    &&& r.package_manager_checked == report.package_manager_checked
    &&& r.tools == report.tools
    &&& r.required_missing == count_where(r.tools@, required_missing_pred())
    &&& r.optional_missing == count_where(r.tools@, optional_missing_pred())
    &&& r.checked_tools == count_where(r.tools@, checked_pred())
    &&& r.pending_tools == r.tools@.len() - r.checked_tools
    &&& r.total_tools == r.tools@.len()
    &&& r.completed == (r.pending_tools == 0 && r.package_manager_checked)
    &&& suites_ok(r.suites@, data.catalog.suites@, r.tools@, data.identities.identities@)
}

fn count_required_missing(tools: &Vec<DevToolCheck>, want_required: bool) -> (r: usize)
    ensures
        want_required ==> r == count_where(tools@, required_missing_pred()),
        !want_required ==> r == count_where(tools@, optional_missing_pred()),
        r <= tools@.len(),
{
    let mut n: usize = 0;
    let mut i: usize = 0;
    while i < tools.len()
        invariant
            i <= tools.len(),
            n <= i,
            want_required ==> n == count_where(
                tools@.subrange(0, i as int),
                required_missing_pred(),
            ),
            !want_required ==> n == count_where(
                tools@.subrange(0, i as int),
                optional_missing_pred(),
            ),
        decreases tools.len() - i,
    {
        assert(tools@.subrange(0, i + 1).drop_last() == tools@.subrange(0, i as int));
        if tools[i].required == want_required && str_eq(tools[i].status.as_str(), "missing") {
            n += 1;
        }
        i += 1;
    }
    assert(tools@.subrange(0, tools.len() as int) == tools@);
    n
}

fn count_checked(tools: &Vec<DevToolCheck>) -> (r: usize)
    ensures
        r == count_where(tools@, checked_pred()),
        r <= tools@.len(),
{
    let mut n: usize = 0;
    let mut i: usize = 0;
    while i < tools.len()
        invariant
            i <= tools.len(),
            n <= i,
            n == count_where(tools@.subrange(0, i as int), checked_pred()),
        decreases tools.len() - i,
    {
        assert(tools@.subrange(0, i + 1).drop_last() == tools@.subrange(0, i as int));
        if !str_eq(tools[i].status.as_str(), "pending") {
            n += 1;
        }
        i += 1;
    }
    assert(tools@.subrange(0, tools.len() as int) == tools@);
    n
}

/// Recomputes the counters, completion and suite summaries of a report from
/// its tool checks.
pub fn rebuild_environment_report_totals(
    report: EnvironmentCheckReport,
    data: &EnvironmentData,
) -> (r: EnvironmentCheckReport)
    ensures
        totals_ok(r, report, *data),
        r.required_missing + r.optional_missing == count_where(r.tools@, missing_pred()),
        r.checked_tools + r.pending_tools == r.total_tools,
        r.pending_tools == count_where(r.tools@, pending_pred()),
{
    let mut report = report;
    let required_missing = count_required_missing(&report.tools, true);
    let optional_missing = count_required_missing(&report.tools, false);
    let checked = count_checked(&report.tools);
    let total = report.tools.len();
    let suites = build_environment_suites(&data.catalog.suites, &report.tools, &data.identities);
    report.required_missing = required_missing;
    report.optional_missing = optional_missing;
    report.checked_tools = checked;
    report.pending_tools = total - checked;
    report.total_tools = total;
    report.completed = report.pending_tools == 0 && report.package_manager_checked;
    report.suites = suites;
    proof {
        lemma_count_disjoint_union(
            report.tools@,
            required_missing_pred(),
            optional_missing_pred(),
            missing_pred(),
        );
        lemma_count_split(report.tools@, checked_pred(), pending_pred());
    }
    report
}

/// A report in which every tool of the platform is still pending.
pub fn build_pending_environment_report(
    data: &EnvironmentData,
    package_manager_version: Option<String>,
    package_manager_checked: bool,
    os: &str,
) -> (r: EnvironmentCheckReport)
    ensures
        r.platform@ == os@,
        r.package_manager_available == package_manager_version is Some,
        r.package_manager_version == package_manager_version,
        r.package_manager_checked == package_manager_checked,
        r.tools@.len() == keep(data.catalog.tools@, tool_on_platform(os@)).len(),
        forall|i: int|
            0 <= i < r.tools@.len() ==> pending_check_ok(
                #[trigger] r.tools@[i],
                keep(data.catalog.tools@, tool_on_platform(os@))[i],
                data.identities.identities@,
                unique_stable_spec(
                    views(all_required_ids(data.catalog.suites@)),
                    data.identities.identities@,
                ),
            ),
        r.total_tools == r.tools@.len(),
        r.required_missing == count_where(r.tools@, required_missing_pred()),
        r.optional_missing == count_where(r.tools@, optional_missing_pred()),
        r.checked_tools == count_where(r.tools@, checked_pred()),
        r.pending_tools == r.tools@.len() - r.checked_tools,
        r.completed == (r.pending_tools == 0 && package_manager_checked),
        suites_ok(r.suites@, data.catalog.suites@, r.tools@, data.identities.identities@),
{
    let suite_required = suite_required_tool_ids(&data.catalog.suites, &data.identities);
    let platform_tools = platform_catalog_tools(data, os);
    let mut tools: Vec<DevToolCheck> = Vec::new();
    let mut i: usize = 0;
    while i < platform_tools.len()
        invariant
            i <= platform_tools.len(),
            platform_tools@.len() == keep(data.catalog.tools@, tool_on_platform(os@)).len(),
            forall|j: int|
                0 <= j < platform_tools@.len() ==> *platform_tools@[j] == keep(
                    data.catalog.tools@,
                    tool_on_platform(os@),
                )[j],
            views(suite_required@) == unique_stable_spec(
                views(all_required_ids(data.catalog.suites@)),
                data.identities.identities@,
            ),
            tools@.len() == i,
            forall|j: int|
                0 <= j < i ==> pending_check_ok(
                    #[trigger] tools@[j],
                    keep(data.catalog.tools@, tool_on_platform(os@))[j],
                    data.identities.identities@,
                    views(suite_required@),
                ),
        decreases platform_tools.len() - i,
    {
        tools.push(pending_tool_check(platform_tools[i], data, &suite_required));
        i += 1;
    }
    let total = tools.len();
    let available = package_manager_version.is_some();
    let report = EnvironmentCheckReport {
        platform: owned(os),
        package_manager_available: available,
        package_manager_version,
        package_manager_checked,
        required_missing: 0,
        optional_missing: 0,
        checked_tools: 0,
        pending_tools: total,
        total_tools: total,
        completed: false,
        suites: Vec::new(),
        tools,
    };
    rebuild_environment_report_totals(report, data)
}

} // verus!
