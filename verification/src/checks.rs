use vstd::prelude::*;

use crate::catalog::{
    clone_opt, identity_name_for, identity_name_spec, platform_matches, platform_ok,
    stable_id_for, stable_id_spec, suite_required_tool_ids, suite_tool_ids,
    suite_tool_ids_spec, tool_is_required, tool_required_spec, unique_stable_spec,
    all_required_ids,
};
use crate::model::{
    CatalogSuiteSpec, CatalogToolSpec, DevToolCheck, EnvironmentData, InstallPlan, InstallResult,
    OnlineToolSpec, ToolCommandSpec,
};
use crate::seqs::{find_first, find_from};
use crate::sources::{
    action_plan_ok, best_source, build_install_plan_from_metadata,
    build_uninstall_plan_from_metadata, build_version_options_from_source, selected_source,
    version_options_ok,
};
use crate::text::{
    concat2, concat3, eq_ignore_ascii_case, is_blank, lower_seq, owned, str_eq, trim, trim_seq,
    views,
};
use crate::update::{is_windows, os_is_windows};

verus! {

/// The index of the online metadata of a catalog tool on `os`, or -1.
pub open spec fn metadata_index(data: EnvironmentData, id: Seq<char>, os: Seq<char>) -> int {
    find_first(
        data.metadata.tools@,
        |t: OnlineToolSpec| t.id@ == id && platform_ok(t.platforms@, os),
    )
}

/// The online metadata of the tool `id` on `os`.
pub fn metadata_for<'a>(data: &'a EnvironmentData, id: &str, os: &str) -> (r: Option<
    &'a OnlineToolSpec,
>)
    ensures
        metadata_index(*data, id@, os@) < 0 ==> r is None,
        metadata_index(*data, id@, os@) >= 0 ==> (r matches Some(t) && *t
            == data.metadata.tools@[metadata_index(*data, id@, os@)]),
{
    let tools = &data.metadata.tools;
    let mut i: usize = 0;
    while i < tools.len()
        invariant
            tools == &data.metadata.tools,
            i <= tools.len(),
            metadata_index(*data, id@, os@) == find_from(
                tools@,
                |t: OnlineToolSpec| t.id@ == id@ && platform_ok(t.platforms@, os@),
                i as int,
            ),
        decreases tools.len() - i,
    {
        if str_eq(tools[i].id.as_str(), id) && platform_matches(&tools[i].platforms, os) {
            return Some(&tools[i]);
        }
        i += 1;
    }
    None
}

fn clone_command_spec(c: &ToolCommandSpec) -> (r: ToolCommandSpec)
    ensures
        r == *c,
{
    ToolCommandSpec { command: c.command.clone(), version_arg: c.version_arg.clone() }
}

fn extend_commands(a: &mut Vec<ToolCommandSpec>, b: &Vec<ToolCommandSpec>)
    ensures
        final(a)@ == old(a)@ + b@,
{
    let mut i: usize = 0;
    while i < b.len()
        invariant
            i <= b.len(),
            a@ == old(a)@ + b@.subrange(0, i as int),
        decreases b.len() - i,
    {
        a.push(clone_command_spec(&b[i]));
        assert(b@.subrange(0, i + 1) == b@.subrange(0, i as int).push(b@[i as int]));
        i += 1;
    }
    assert(b@.subrange(0, b.len() as int) == b@);
}

/// The commands to probe, in order, to detect a catalog tool: its own
/// detection commands, then those of its online metadata. The first one that
/// answers decides the version.
pub open spec fn detection_candidates_spec(
    spec: CatalogToolSpec,
    data: EnvironmentData,
    os: Seq<char>,
) -> Seq<ToolCommandSpec> {
    let m = metadata_index(data, spec.id@, os);
    if m >= 0 {
        spec.detection.commands@ + data.metadata.tools@[m].detection.commands@
    } else {
        spec.detection.commands@
    }
}

/// The commands that may show a tool is installed, catalog ones first.
pub fn detection_candidates(spec: &CatalogToolSpec, data: &EnvironmentData, os: &str) -> (r: Vec<
    ToolCommandSpec,
>)
    ensures
        r@ == detection_candidates_spec(*spec, *data, os@),
{
    let mut out: Vec<ToolCommandSpec> = Vec::new();
    extend_commands(&mut out, &spec.detection.commands);
    assert(out@ == spec.detection.commands@);
    match metadata_for(data, spec.id.as_str(), os) {
        Some(t) => extend_commands(&mut out, &t.detection.commands),
        None => {},
    }
    out
}

/// A successful detection: the command that answered and the version it
/// printed.
#[derive(Debug, Clone, PartialEq, Eq)]
pub struct Detection {
    pub command: String,
    pub version: String,
}

/// What the check of one tool holds, given what detection found.
pub open spec fn tool_check_ok(
    c: DevToolCheck,
    spec: CatalogToolSpec,
    data: EnvironmentData,
    managers: Seq<(String, String)>,
    detected: Option<Detection>,
    os: Seq<char>,
) -> bool {
    let m = metadata_index(data, spec.id@, os);
    let suite_required = unique_stable_spec(
        views(all_required_ids(data.catalog.suites@)),
        data.identities.identities@,
    );
    &&& c.id@ == stable_id_spec(data.identities.identities@, spec.id@)
    &&& c.name == (if m >= 0 {
        data.metadata.tools@[m].name
    } else {
        match identity_name_spec(data.identities.identities@, spec.id@) {
            Some(n) => n,
            None => spec.name,
        }
    })
    &&& c.summary == spec.summary
    &&& c.description == spec.description
    &&& c.installed == detected is Some
    &&& c.source@ == (match detected {
        Some(d) => d.command@,
        None => "PATH"@,
    })
    &&& c.command@ == c.source@
    &&& c.version == (match detected {
        Some(d) => Some(d.version),
        None => None,
    })
    &&& c.status@ == (if detected is Some {
        "installed"@
    } else {
        "missing"@
    })
    &&& c.required == tool_required_spec(spec, data.identities.identities@, suite_required)
    &&& c.category == (if m >= 0 {
        data.metadata.tools@[m].category_id
    } else {
        spec.category_id
    })
    &&& (m < 0 ==> c.install_plan is None)
    &&& (m >= 0 ==> action_plan_ok(
        c.install_plan,
        data.metadata.tools@[m],
        spec,
        data,
        managers,
        "install"@,
        os,
    ))
    &&& ((m < 0 || detected is None) ==> c.uninstall_plan is None)
    &&& ((m >= 0 && detected is Some) ==> action_plan_ok(
        c.uninstall_plan,
        data.metadata.tools@[m],
        spec,
        data,
        managers,
        "uninstall"@,
        os,
    ))
    &&& (c.install_plan is None ==> c.version_options@.len() == 0)
    &&& (c.install_plan matches Some(plan) ==> {
        let t = data.metadata.tools@[m];
        let b = best_source(t, data.policy, managers, "install"@, os);
        version_options_ok(c.version_options@, t.sources@[b], plan, os)
    })
    &&& c.detail is None
}

/// The check of one catalog tool, given the outcome of probing its detection
/// candidates (`None` when none answered).
pub fn build_tool_check_with_resolver(
    spec: &CatalogToolSpec,
    data: &EnvironmentData,
    manager_versions: &Vec<(String, String)>,
    detected: Option<Detection>,
    os: &str,
) -> (r: DevToolCheck)
    ensures
        tool_check_ok(r, *spec, *data, manager_versions@, detected, os@),
{
    let ghost det = detected;
    let (source, version) = match detected {
        Some(d) => (d.command, Some(d.version)),
        None => (owned("PATH"), None),
    };
    let installed = version.is_some();
    let status = if installed {
        owned("installed")
    } else {
        owned("missing")
    };
    let suite_required = suite_required_tool_ids(&data.catalog.suites, &data.identities);
    let metadata = metadata_for(data, spec.id.as_str(), os);
    let install_plan = match metadata {
        Some(tool) => build_install_plan_from_metadata(tool, spec, data, manager_versions, os),
        None => None,
    };
    let uninstall_plan = if installed {
        match metadata {
            Some(tool) => build_uninstall_plan_from_metadata(
                tool,
                spec,
                data,
                manager_versions,
                os,
            ),
            None => None,
        }
    } else {
        None
    };
    let version_options = match &install_plan {
        Some(plan) => match metadata {
            Some(tool) => match selected_source(tool, data, manager_versions, os) {
                Some(source) => build_version_options_from_source(source, plan, os),
                None => Vec::new(),
            },
            None => Vec::new(),
        },
        None => Vec::new(),
    };
    let name = match metadata {
        Some(tool) => tool.name.clone(),
        None => match identity_name_for(&data.identities, spec.id.as_str()) {
            Some(n) => n,
            None => spec.name.clone(),
        },
    };
    let category = match metadata {
        Some(tool) => tool.category_id.clone(),
        None => spec.category_id.clone(),
    };
    DevToolCheck {
        id: stable_id_for(&data.identities, spec.id.as_str()),
        name,
        summary: clone_opt(&spec.summary),
        description: clone_opt(&spec.description),
        command: source.clone(),
        installed,
        version,
        source,
        status,
        required: tool_is_required(spec, &data.identities, &suite_required),
        category,
        install_plan,
        uninstall_plan,
        version_options,
        detail: None,
    }
}

// ---------------------------------------------------------------------------
// Probing
// ---------------------------------------------------------------------------

/// Whether the version argument of a command is run at all: not for Windows
/// Terminal (`wt`) on Windows, nor when the argument is blank.
pub open spec fn probe_runs_spec(command: Seq<char>, version_arg: Seq<char>, os: Seq<char>) -> bool {
    !(is_windows(os) && lower_seq(command) == lower_seq("wt"@)) && trim_seq(version_arg).len() > 0
}

/// Whether a detection probe runs the version argument.
pub fn should_execute_version_probe(command: &str, version_arg: &str, os: &str) -> (r: bool)
    ensures
        r == probe_runs_spec(command@, version_arg@, os@),
{
    if os_is_windows(os) && eq_ignore_ascii_case(command, "wt") {
        return false;
    }
    !is_blank(version_arg)
}

/// The characters of `s` before its first line feed.
pub open spec fn first_line(s: Seq<char>) -> Seq<char>
    decreases s.len(),
{
    if s.len() == 0 || s[0] == '\n' {
        Seq::empty()
    } else {
        seq![s[0]] + first_line(s.drop_first())
    }
}

proof fn lemma_first_line(s: Seq<char>, e: int)
    requires
        0 <= e <= s.len(),
        forall|j: int| 0 <= j < e ==> s[j] != '\n',
        e == s.len() || s[e] == '\n',
    ensures
        first_line(s) == s.subrange(0, e),
    decreases e,
{
    if e > 0 {
        lemma_first_line(s.drop_first(), e - 1);
        assert(seq![s[0]] + s.drop_first().subrange(0, e - 1) =~= s.subrange(0, e));
    } else {
        assert(s.subrange(0, 0) =~= Seq::<char>::empty());
    }
}

/// The version a probe reports: the trimmed first line of its standard output
/// followed by its standard error, when the command succeeded and that line is
/// not blank.
pub open spec fn probe_version_spec(success: bool, stdout: Seq<char>, stderr: Seq<char>) -> Option<
    Seq<char>,
> {
    let v = trim_seq(first_line(stdout + stderr));
    if !success || v.len() == 0 {
        None
    } else {
        Some(v)
    }
}

/// The version a finished probe printed, if any.
pub fn probe_version_from_output(success: bool, stdout: &str, stderr: &str) -> (r: Option<String>)
    ensures
        match probe_version_spec(success, stdout@, stderr@) {
            Some(v) => r matches Some(s) && s@ == v,
            None => r is None,
        },
{
    if !success {
        return None;
    }
    let combined = concat2(stdout, stderr);
    let v = crate::text::chars_of(combined.as_str());
    let mut e: usize = 0;
    while e < v.len() && v[e] != '\n'
        invariant
            e <= v.len(),
            forall|j: int| 0 <= j < e ==> v@[j] != '\n',
        decreases v.len() - e,
    {
        e += 1;
    }
    proof {
        lemma_first_line(v@, e as int);
    }
    let line = crate::text::string_from_range(&v, 0, e);
    let version = trim(line.as_str());
    if version.as_str().unicode_len() == 0 {
        None
    } else {
        Some(version)
    }
}

// ---------------------------------------------------------------------------
// Lookups for commands
// ---------------------------------------------------------------------------

/// The index of the first platform tool whose stable id or id is `tool_id`.
pub open spec fn platform_tool_index(data: EnvironmentData, tool_id: Seq<char>, os: Seq<char>) -> int {
    find_first(
        data.catalog.tools@,
        |t: CatalogToolSpec|
            platform_ok(t.platforms@, os) && (stable_id_spec(data.identities.identities@, t.id@)
                == tool_id || t.id@ == tool_id),
    )
}

/// The catalog tool that a detail request names.
pub fn find_platform_tool<'a>(data: &'a EnvironmentData, tool_id: &str, os: &str) -> (r: Result<
    &'a CatalogToolSpec,
    String,
>)
    ensures
        platform_tool_index(*data, tool_id@, os@) < 0 ==> (r matches Err(e) && e@ == "Unknown tool"@),
        platform_tool_index(*data, tool_id@, os@) >= 0 ==> (r matches Ok(t) && *t
            == data.catalog.tools@[platform_tool_index(*data, tool_id@, os@)]),
{
    let tools = &data.catalog.tools;
    let mut i: usize = 0;
    while i < tools.len()
        invariant
            tools == &data.catalog.tools,
            i <= tools.len(),
            platform_tool_index(*data, tool_id@, os@) == find_from(
                tools@,
                |t: CatalogToolSpec|
                    platform_ok(t.platforms@, os@) && (stable_id_spec(
                        data.identities.identities@,
                        t.id@,
                    ) == tool_id@ || t.id@ == tool_id@),
                i as int,
            ),
        decreases tools.len() - i,
    {
        let t = &tools[i];
        if platform_matches(&t.platforms, os) {
            let sid = stable_id_for(&data.identities, t.id.as_str());
            if str_eq(sid.as_str(), tool_id) || str_eq(t.id.as_str(), tool_id) {
                return Ok(t);
            }
        }
        i += 1;
    }
    Err(owned("Unknown tool"))
}

/// The index of the first catalog suite with id `suite_id`.
pub open spec fn suite_index(suites: Seq<CatalogSuiteSpec>, suite_id: Seq<char>) -> int {
    find_first(suites, |s: CatalogSuiteSpec| s.id@ == suite_id)
}

/// The suite with this id, or an error.
pub fn find_suite<'a>(suites: &'a Vec<CatalogSuiteSpec>, suite_id: &str) -> (r: Result<
    &'a CatalogSuiteSpec,
    String,
>)
    ensures
        suite_index(suites@, suite_id@) < 0 ==> (r matches Err(e) && e@ == "Unknown suite"@),
        suite_index(suites@, suite_id@) >= 0 ==> (r matches Ok(s) && *s
            == suites@[suite_index(suites@, suite_id@)]),
{
    let mut i: usize = 0;
    while i < suites.len()
        invariant
            i <= suites.len(),
            suite_index(suites@, suite_id@) == find_from(
                suites@,
                |s: CatalogSuiteSpec| s.id@ == suite_id@,
                i as int,
            ),
        decreases suites.len() - i,
    {
        if str_eq(suites[i].id.as_str(), suite_id) {
            return Ok(&suites[i]);
        }
        i += 1;
    }
    Err(owned("Unknown suite"))
}

pub open spec fn install_target_pred(id: Seq<char>) -> spec_fn(DevToolCheck) -> bool {
    |t: DevToolCheck| t.id@ == id && t.status@ == "missing"@ && t.install_plan is Some
}

/// For each tool id of the suite, the first checked tool with that id that is
/// missing and has an install plan; ids without one are skipped.
pub open spec fn install_targets_spec(ids: Seq<Seq<char>>, tools: Seq<DevToolCheck>) -> Seq<int>
    decreases ids.len(),
{
    if ids.len() == 0 {
        Seq::empty()
    } else {
        let rest = install_targets_spec(ids.drop_last(), tools);
        let k = find_first(tools, install_target_pred(ids.last()));
        if k >= 0 {
            rest.push(k)
        } else {
            rest
        }
    }
}

/// The tools (as indices into `tools`) that installing a suite runs, in order.
pub fn suite_install_targets(
    suite: &CatalogSuiteSpec,
    data: &EnvironmentData,
    tools: &Vec<DevToolCheck>,
) -> (r: Vec<usize>)
    ensures
        r@.map_values(|k: usize| k as int) == install_targets_spec(
            suite_tool_ids_spec(*suite, data.identities.identities@),
            tools@,
        ),
        forall|i: int| 0 <= i < r@.len() ==> r@[i] < tools@.len(),
{
    let ids = suite_tool_ids(suite, &data.identities);
    let ghost idv = views(ids@);
    let mut out: Vec<usize> = Vec::new();
    let mut i: usize = 0;
    while i < ids.len()
        invariant
            i <= ids.len(),
            idv == views(ids@),
            out@.map_values(|k: usize| k as int) == install_targets_spec(
                idv.subrange(0, i as int),
                tools@,
            ),
            forall|j: int| 0 <= j < out@.len() ==> out@[j] < tools@.len(),
        decreases ids.len() - i,
    {
        assert(idv.subrange(0, i + 1).drop_last() == idv.subrange(0, i as int));
        assert(idv.subrange(0, i + 1).last() == ids@[i as int]@);
        let id = ids[i].as_str();
        let mut k: usize = 0;
        let mut found = false;
        while k < tools.len() && !found
            invariant
                k <= tools.len(),
                !found ==> find_first(tools@, install_target_pred(id@)) == find_from(
                    tools@,
                    install_target_pred(id@),
                    k as int,
                ),
                found ==> k < tools.len() && find_first(tools@, install_target_pred(id@))
                    == k as int,
            decreases tools.len() - k + if found {
                0int
            } else {
                1int
            },
        {
            let t = &tools[k];
            if str_eq(t.id.as_str(), id) && str_eq(t.status.as_str(), "missing")
                && t.install_plan.is_some() {
                found = true;
            } else {
                k += 1;
            }
        }
        if found {
            let ghost old_out = out@;
            out.push(k);
            assert(out@.map_values(|k: usize| k as int) == old_out.map_values(
                |k: usize| k as int,
            ).push(k as int));
        }
        i += 1;
    }
    assert(idv.subrange(0, ids.len() as int) == idv);
    out
}

// ---------------------------------------------------------------------------
// Running install and uninstall commands
// ---------------------------------------------------------------------------

/// The plan that installing a checked tool runs.
pub fn install_tool_check(tool: &DevToolCheck) -> (r: Result<InstallPlan, String>)
    ensures
        match tool.install_plan {
            Some(p) => r matches Ok(q) && same_plan(q, p),
            None => r matches Err(e) && e@ == "No install plan is available for this tool"@,
        },
{
    match &tool.install_plan {
        Some(p) => Ok(clone_plan(p)),
        None => Err(owned("No install plan is available for this tool")),
    }
}

/// The plan that uninstalling a checked tool runs; only an installed tool can
/// be uninstalled.
pub fn uninstall_tool_check(tool: &DevToolCheck) -> (r: Result<InstallPlan, String>)
    ensures
        !tool.installed ==> (r matches Err(e) && e@ == "Tool is not installed"@),
        tool.installed ==> match tool.uninstall_plan {
            Some(p) => r matches Ok(q) && same_plan(q, p),
            None => r matches Err(e) && e@ == "No uninstall plan is available for this tool"@,
        },
{
    if !tool.installed {
        return Err(owned("Tool is not installed"));
    }
    match &tool.uninstall_plan {
        Some(p) => Ok(clone_plan(p)),
        None => Err(owned("No uninstall plan is available for this tool")),
    }
}

/// Whether two plans hold the same values.
pub open spec fn same_plan(a: InstallPlan, b: InstallPlan) -> bool {
    &&& a.package_manager == b.package_manager
    &&& a.package_id == b.package_id
    &&& a.command@ == b.command@
    &&& a.needs_admin == b.needs_admin
    &&& a.notes == b.notes
    &&& a.source_id == b.source_id
    &&& a.source_quality == b.source_quality
    &&& a.download_url == b.download_url
}

/// A copy of a plan.
pub fn clone_plan(p: &InstallPlan) -> (r: InstallPlan)
    ensures
        same_plan(r, *p),
{
    InstallPlan {
        package_manager: p.package_manager.clone(),
        package_id: p.package_id.clone(),
        command: crate::catalog::clone_strings(&p.command),
        needs_admin: p.needs_admin,
        notes: p.notes.clone(),
        source_id: p.source_id.clone(),
        source_quality: p.source_quality,
        download_url: clone_opt(&p.download_url),
    }
}

/// The program and arguments that running a plan starts.
pub fn tool_plan_invocation(plan: &InstallPlan, command_label: &str) -> (r: Result<
    (String, Vec<String>),
    String,
>)
    ensures
        plan.command@.len() == 0 ==> (r matches Err(e) && e@ == command_label@ + " is empty"@),
        plan.command@.len() > 0 ==> (r matches Ok((program, args)) && program
            == plan.command@[0] && args@ == plan.command@.drop_first()),
{
    if plan.command.len() == 0 {
        return Err(concat2(command_label, " is empty"));
    }
    let mut args: Vec<String> = Vec::new();
    let mut i: usize = 1;
    while i < plan.command.len()
        invariant
            1 <= i <= plan.command.len(),
            args@ == plan.command@.subrange(1, i as int),
        decreases plan.command.len() - i,
    {
        args.push(plan.command[i].clone());
        assert(plan.command@.subrange(1, i + 1) == plan.command@.subrange(1, i as int).push(
            plan.command@[i as int],
        ));
        i += 1;
    }
    assert(plan.command@.subrange(1, plan.command.len() as int) == plan.command@.drop_first());
    Ok((plan.command[0].clone(), args))
}

/// What a finished command printed and how it ended.
#[derive(Debug, Clone, PartialEq, Eq)]
pub struct CommandOutput {
    pub success: bool,
    pub exit_code: Option<i32>,
    pub stdout: String,
    pub stderr: String,
}

/// The result of running a plan, and the audit record it leaves.
#[derive(Debug, Clone, PartialEq, Eq)]
pub struct ToolRunOutcome {
    pub result: InstallResult,
    pub audit_action: String,
    pub audit_target: String,
    pub audit_status: String,
    pub audit_detail: String,
}

/// The outcome of running a plan for a tool: `None` when the command timed
/// out.
pub fn run_tool_plan(
    tool: &DevToolCheck,
    plan: &InstallPlan,
    output: Option<CommandOutput>,
    audit_action: &str,
    success_status: &str,
    command_label: &str,
) -> (r: Result<ToolRunOutcome, String>)
    ensures
        match output {
            None => r matches Err(e) && e@ == command_label@ + " timed out"@,
            Some(o) => r matches Ok(out) && {
                let status = if o.success {
                    success_status@
                } else {
                    "failed"@
                };
                &&& out.result.tool_id == tool.id
                &&& out.result.status@ == status
                &&& out.result.exit_code == o.exit_code
                &&& out.result.output@ == o.stdout@ + o.stderr@
                &&& out.audit_action@ == audit_action@
                &&& out.audit_target == tool.name
                &&& out.audit_status@ == status
                &&& out.audit_detail@ == plan.package_manager@ + ": "@ + trim_seq(
                    o.stdout@ + o.stderr@,
                )
            },
        },
{
    match output {
        None => Err(concat2(command_label, " timed out")),
        Some(o) => {
            let status = if o.success {
                owned(success_status)
            } else {
                owned("failed")
            };
            let combined = concat2(o.stdout.as_str(), o.stderr.as_str());
            let trimmed = trim(combined.as_str());
            let detail = concat3(plan.package_manager.as_str(), ": ", trimmed.as_str());
            Ok(
                ToolRunOutcome {
                    result: InstallResult {
                        tool_id: tool.id.clone(),
                        status: status.clone(),
                        exit_code: o.exit_code,
                        output: combined,
                    },
                    audit_action: owned(audit_action),
                    audit_target: tool.name.clone(),
                    audit_status: status,
                    audit_detail: detail,
                },
            )
        },
    }
}


/// The version a detection probe reports. `executable` is what resolving the
/// command found, `output` what running it with the version argument gave
/// (nothing when it could not run or timed out): nothing without an
/// executable, `installed` when the version argument is not to be run,
/// else the version in the output.
pub open spec fn probe_result_spec(
    executable: Option<Seq<char>>,
    command: Seq<char>,
    version_arg: Seq<char>,
    os: Seq<char>,
    output: Option<CommandOutput>,
) -> Option<Seq<char>> {
    if executable is None {
        None
    } else if !probe_runs_spec(command, version_arg, os) {
        Some("installed"@)
    } else {
        match output {
            None => None,
            Some(o) => probe_version_spec(o.success, o.stdout@, o.stderr@),
        }
    }
}

/// The version a detection probe reports, from what resolving and running it gave.
pub fn probe_command_with_resolver(
    executable: Option<&str>,
    command: &str,
    version_arg: &str,
    os: &str,
    output: Option<&CommandOutput>,
) -> (r: Option<String>)
    ensures
        match probe_result_spec(
            match executable {
                Some(e) => Some(e@),
                None => None,
            },
            command@,
            version_arg@,
            os@,
            match output {
                Some(o) => Some(*o),
                None => None,
            },
        ) {
            Some(v) => r matches Some(s) && s@ == v,
            None => r is None,
        },
{
    if executable.is_none() {
        return None;
    }
    if !should_execute_version_probe(command, version_arg, os) {
        return Some(owned("installed"));
    }
    match output {
        None => None,
        Some(o) => probe_version_from_output(o.success, o.stdout.as_str(), o.stderr.as_str()),
    }
}

} // verus!
