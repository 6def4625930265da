use vstd::prelude::*;

use crate::catalog::{platform_matches, platform_ok};
use crate::model::{EnvironmentData, OnlineSourceSpec, OnlineToolSpec, PlatformSourcePolicy};
use crate::paths::{dedup_strings_by_key, key_fn};
use crate::seqs::{dedup_by, find_first, find_from, flatten, keep, lemma_dedup_by_unique, no_duplicates};
use crate::sources::{command_index, install_command_for_source, uninstall_command_for_source};
use crate::sorting::{arrange, lex_pred, sort_strings, stable_order, string_le};
use crate::text::{concat3, join, join_seq, owned, str_eq, views};

verus! {

// ---------------------------------------------------------------------------
// Package managers
// ---------------------------------------------------------------------------

/// The command and argument that show a package manager's version.
pub open spec fn probe_spec(manager: Seq<char>) -> Option<(Seq<char>, Seq<char>)> {
    if manager == "winget"@ {
        Some(("winget"@, "--version"@))
    } else if manager == "scoop"@ {
        Some(("scoop"@, "--version"@))
    } else if manager == "choco"@ {
        Some(("choco"@, "--version"@))
    } else if manager == "homebrew"@ {
        Some(("brew"@, "--version"@))
    } else {
        None
    }
}

/// The version probe of a package manager.
pub fn manager_probe_command(manager: &str) -> (r: Option<(String, String)>)
    ensures
        match probe_spec(manager@) {
            Some((c, a)) => r matches Some((rc, ra)) && rc@ == c && ra@ == a,
            None => r is None,
        },
{
    if str_eq(manager, "winget") {
        Some((owned("winget"), owned("--version")))
    } else if str_eq(manager, "scoop") {
        Some((owned("scoop"), owned("--version")))
    } else if str_eq(manager, "choco") {
        Some((owned("choco"), owned("--version")))
    } else if str_eq(manager, "homebrew") {
        Some((owned("brew"), owned("--version")))
    } else {
        None
    }
}

/// The managers that some platform's policy ranks, in policy order.
pub open spec fn policy_managers(data: EnvironmentData) -> Seq<Seq<char>> {
    flatten(
        data.policy.platforms@.map_values(
            |e: (String, PlatformSourcePolicy)| views(e.1.manager_priority@),
        ),
    )
}

/// The managers of all sources, in metadata order.
pub open spec fn source_managers(data: EnvironmentData) -> Seq<Seq<char>> {
    flatten(
        data.metadata.tools@.map_values(
            |t: OnlineToolSpec| t.sources@.map_values(|s: OnlineSourceSpec| s.manager@),
        ),
    )
}

/// Every manager named by the policy or by a source, each once.
pub open spec fn manager_candidates_spec(data: EnvironmentData) -> Seq<Seq<char>> {
    dedup_by(policy_managers(data) + source_managers(data), key_fn(false))
}

/// Candidates kept by their first occurrence name each manager once.
proof fn lemma_candidates_distinct(s: Seq<Seq<char>>)
    ensures
        no_duplicates(dedup_by(s, key_fn(false))),
{
    lemma_dedup_by_unique(s, key_fn(false));
    let d = dedup_by(s, key_fn(false));
    assert forall|i: int, j: int| 0 <= i < j < d.len() implies d[i] != d[j] by {
        assert(key_fn(false)(d[i]) == d[i] && key_fn(false)(d[j]) == d[j]);
    }
}

/// The package managers worth probing.
pub fn install_manager_candidates(data: &EnvironmentData) -> (r: Vec<String>)
    ensures
        views(r@) == manager_candidates_spec(*data),
        no_duplicates(views(r@)),
{
    let mut all: Vec<String> = Vec::new();
    let ghost lists = data.policy.platforms@.map_values(
        |e: (String, PlatformSourcePolicy)| views(e.1.manager_priority@),
    );
    let mut i: usize = 0;
    while i < data.policy.platforms.len()
        invariant
            i <= data.policy.platforms@.len(),
            lists == data.policy.platforms@.map_values(
                |e: (String, PlatformSourcePolicy)| views(e.1.manager_priority@),
            ),
            views(all@) == flatten(lists.take(i as int)),
        decreases data.policy.platforms.len() - i,
    {
        assert(lists.take(i + 1).drop_last() == lists.take(i as int));
        let ghost before = all@;
        crate::catalog::extend_strings(&mut all, &data.policy.platforms[i].1.manager_priority);
        assert(views(all@) =~= views(before) + views(
            data.policy.platforms@[i as int].1.manager_priority@,
        ));
        i += 1;
    }
    assert(lists.take(data.policy.platforms.len() as int) == lists);
    let ghost from_policy = views(all@);
    let ghost tool_lists = data.metadata.tools@.map_values(
        |t: OnlineToolSpec| t.sources@.map_values(|s: OnlineSourceSpec| s.manager@),
    );
    let mut t: usize = 0;
    while t < data.metadata.tools.len()
        invariant
            t <= data.metadata.tools@.len(),
            tool_lists == data.metadata.tools@.map_values(
                |t: OnlineToolSpec| t.sources@.map_values(|s: OnlineSourceSpec| s.manager@),
            ),
            views(all@) == from_policy + flatten(tool_lists.take(t as int)),
        decreases data.metadata.tools.len() - t,
    {
        assert(tool_lists.take(t + 1).drop_last() == tool_lists.take(t as int));
        let sources = &data.metadata.tools[t].sources;
        let ghost before = views(all@);
        let ghost names = sources@.map_values(|s: OnlineSourceSpec| s.manager@);
        let mut k: usize = 0;
        while k < sources.len()
            invariant
                k <= sources@.len(),
                names == sources@.map_values(|s: OnlineSourceSpec| s.manager@),
                views(all@) == before + names.take(k as int),
            decreases sources.len() - k,
        {
            let ghost old_all = views(all@);
            all.push(sources[k].manager.clone());
            assert(views(all@) =~= old_all.push(sources@[k as int].manager@));
            assert(names.take(k + 1) =~= names.take(k as int).push(names[k as int]));
            k += 1;
        }
        assert(names.take(sources.len() as int) == names);
        assert(tool_lists.take(t + 1).last() == names);
        t += 1;
    }
    assert(tool_lists.take(data.metadata.tools.len() as int) == tool_lists);
    proof {
        lemma_candidates_distinct(views(all@));
    }
    dedup_strings_by_key(&all, false)
}

/// The managers found: each candidate that has a version probe and whose
/// probe reported a version (`versions[i]` for the i-th candidate).
pub open spec fn detected_spec(candidates: Seq<Seq<char>>, versions: Seq<Option<String>>) -> Seq<
    (Seq<char>, Seq<char>),
>
    decreases candidates.len(),
{
    if candidates.len() == 0 {
        Seq::empty()
    } else {
        let prev = detected_spec(candidates.drop_last(), versions);
        let i = candidates.len() - 1;
        if probe_spec(candidates[i]) is Some && i < versions.len() && versions[i] is Some {
            prev.push((candidates[i], versions[i]->0@))
        } else {
            prev
        }
    }
}

pub open spec fn pair_views(v: Seq<(String, String)>) -> Seq<(Seq<char>, Seq<char>)> {
    v.map_values(|p: (String, String)| (p.0@, p.1@))
}

/// The managers found, with their versions.
pub fn detect_install_managers(candidates: &Vec<String>, versions: &Vec<Option<String>>) -> (r: Vec<
    (String, String),
>)
    ensures
        pair_views(r@) == detected_spec(views(candidates@), versions@),
        no_duplicates(views(candidates@)) ==> names_distinct(r@),
{
    let mut out: Vec<(String, String)> = Vec::new();
    let mut i: usize = 0;
    while i < candidates.len()
        invariant
            i <= candidates@.len(),
            pair_views(out@) == detected_spec(views(candidates@).take(i as int), versions@),
        decreases candidates.len() - i,
    {
        assert(views(candidates@).take(i + 1).drop_last() == views(candidates@).take(i as int));
        assert(views(candidates@).take(i + 1)[i as int] == candidates@[i as int]@);
        let probe = manager_probe_command(candidates[i].as_str());
        if probe.is_some() && i < versions.len() {
            match &versions[i] {
                Some(v) => {
                    let ghost before = out@;
                    out.push((candidates[i].clone(), v.clone()));
                    assert(pair_views(out@) =~= pair_views(before).push(
                        (candidates@[i as int]@, v@),
                    ));
                },
                None => {},
            }
        }
        i += 1;
    }
    assert(views(candidates@).take(candidates.len() as int) == views(candidates@));
    proof {
        lemma_detected_names(views(candidates@), versions@);
        if no_duplicates(views(candidates@)) {
            assert forall|a: int, b: int| 0 <= a < b < out@.len() implies out@[a].0@
                != out@[b].0@ by {
                assert(pair_views(out@)[a] == (out@[a].0@, out@[a].1@));
                assert(pair_views(out@)[b] == (out@[b].0@, out@[b].1@));
                let d = detected_spec(views(candidates@), versions@);
                assert(d[a].0 != d[b].0);
            }
        }
    }
    out
}

/// No manager is named twice: the managers and their versions form a map
/// from name to version.
pub open spec fn names_distinct(managers: Seq<(String, String)>) -> bool {
    forall|i: int, j: int| 0 <= i < j < managers.len() ==> managers[i].0@ != managers[j].0@
}

/// Whether no manager is named twice.
pub fn manager_names_distinct(managers: &Vec<(String, String)>) -> (r: bool)
    ensures
        r == names_distinct(managers@),
{
    let mut j: usize = 0;
    while j < managers.len()
        invariant
            j <= managers@.len(),
            forall|a: int, b: int| 0 <= a < b < j ==> managers@[a].0@ != managers@[b].0@,
        decreases managers.len() - j,
    {
        let mut i: usize = 0;
        while i < j
            invariant
                i <= j < managers@.len(),
                forall|a: int| 0 <= a < i ==> managers@[a].0@ != managers@[j as int].0@,
            decreases j - i,
        {
            if str_eq(managers[i].0.as_str(), managers[j].0.as_str()) {
                return false;
            }
            i += 1;
        }
        j += 1;
    }
    true
}

/// Each detected manager is a candidate, and distinct candidates give
/// distinct managers.
proof fn lemma_detected_names(c: Seq<Seq<char>>, v: Seq<Option<String>>)
    ensures
        forall|i: int| 0 <= i < detected_spec(c, v).len() ==> c.contains(
            #[trigger] detected_spec(c, v)[i].0,
        ),
        no_duplicates(c) ==> forall|i: int, j: int|
            0 <= i < j < detected_spec(c, v).len() ==> #[trigger] detected_spec(c, v)[i].0
                != #[trigger] detected_spec(c, v)[j].0,
    decreases c.len(),
{
    if c.len() > 0 {
        let t = c.drop_last();
        lemma_detected_names(t, v);
        let prev = detected_spec(t, v);
        let d = detected_spec(c, v);
        assert forall|i: int| 0 <= i < d.len() implies c.contains(#[trigger] d[i].0) by {
            if i < prev.len() {
                assert(d[i] == prev[i]);
                let k = choose|k: int| 0 <= k < t.len() && t[k] == prev[i].0;
                assert(c[k] == t[k]);
            } else {
                assert(d[i].0 == c[c.len() - 1]);
            }
        }
        if no_duplicates(c) {
            assert(no_duplicates(t)) by {
                assert forall|i: int, j: int| 0 <= i < j < t.len() implies t[i] != t[j] by {
                    assert(c[i] == t[i] && c[j] == t[j]);
                }
            }
            assert forall|i: int, j: int| 0 <= i < j < d.len() implies #[trigger] d[i].0
                != #[trigger] d[j].0 by {
                if j < prev.len() {
                    assert(d[i] == prev[i] && d[j] == prev[j]);
                } else {
                    assert(d[i] == prev[i]);
                    assert(d[j].0 == c.last());
                    let k = choose|k: int| 0 <= k < t.len() && t[k] == prev[i].0;
                    assert(c[k] == prev[i].0);
                    assert(c[k] != c[c.len() - 1]);
                }
            }
        }
    }
}

/// The sources of a tool that can install or uninstall it on the platform.
pub open spec fn actionable_pred(os: Seq<char>) -> spec_fn(OnlineSourceSpec) -> bool {
    |s: OnlineSourceSpec|
        platform_ok(s.platforms@, os) && (command_index(s, "install"@, os) >= 0 || command_index(
            s,
            "uninstall"@,
            os,
        ) >= 0)
}

/// The index of the first metadata tool with this id (on any platform), or -1.
pub open spec fn any_metadata_index(data: EnvironmentData, id: Seq<char>) -> int {
    find_first(data.metadata.tools@, |t: OnlineToolSpec| t.id@ == id)
}

/// The managers worth probing for one tool: those of its sources that can
/// act on the platform, each once; none without metadata.
pub open spec fn tool_candidates_spec(data: EnvironmentData, id: Seq<char>, os: Seq<char>) -> Seq<
    Seq<char>,
> {
    let k = any_metadata_index(data, id);
    if k < 0 {
        Seq::empty()
    } else {
        dedup_by(
            keep(data.metadata.tools@[k].sources@, actionable_pred(os)).map_values(
                |s: OnlineSourceSpec| s.manager@,
            ),
            key_fn(false),
        )
    }
}

/// The package managers worth probing for one tool.
pub fn tool_manager_candidates(data: &EnvironmentData, id: &str, os: &str) -> (r: Vec<String>)
    ensures
        views(r@) == tool_candidates_spec(*data, id@, os@),
        no_duplicates(views(r@)),
{
    let tools = &data.metadata.tools;
    let ghost p = |t: OnlineToolSpec| t.id@ == id@;
    let mut i: usize = 0;
    while i < tools.len() && !str_eq(tools[i].id.as_str(), id)
        invariant
            tools == &data.metadata.tools,
            i <= tools@.len(),
            p == (|t: OnlineToolSpec| t.id@ == id@),
            any_metadata_index(*data, id@) == find_from(tools@, p, i as int),
        decreases tools.len() - i,
    {
        i += 1;
    }
    if i == tools.len() {
        let none: Vec<String> = Vec::new();
        assert(views(none@) =~= Seq::<Seq<char>>::empty());
        return none;
    }
    let sources = &tools[i].sources;
    let ghost pred = actionable_pred(os@);
    let mut names: Vec<String> = Vec::new();
    let mut k: usize = 0;
    while k < sources.len()
        invariant
            k <= sources@.len(),
            pred == actionable_pred(os@),
            views(names@) == keep(sources@.take(k as int), pred).map_values(
                |s: OnlineSourceSpec| s.manager@,
            ),
        decreases sources.len() - k,
    {
        assert(sources@.take(k + 1).drop_last() == sources@.take(k as int));
        assert(sources@.take(k + 1).last() == sources@[k as int]);
        let s = &sources[k];
        if platform_matches(&s.platforms, os) && (install_command_for_source(s, os).is_some()
            || uninstall_command_for_source(s, os).is_some()) {
            let ghost before = views(names@);
            names.push(s.manager.clone());
            assert(views(names@) =~= before.push(s.manager@));
            assert(keep(sources@.take(k + 1), pred) == keep(sources@.take(k as int), pred).push(
                *s,
            ));
            assert(keep(sources@.take(k + 1), pred).map_values(|s: OnlineSourceSpec| s.manager@)
                =~= keep(sources@.take(k as int), pred).map_values(
                |s: OnlineSourceSpec| s.manager@,
            ).push(s.manager@));
        }
        k += 1;
    }
    assert(sources@.take(sources.len() as int) == sources@);
    proof {
        lemma_candidates_distinct(views(names@));
    }
    dedup_strings_by_key(&names, false)
}

/// The texts `manager version` of detected managers.
pub open spec fn status_pairs(managers: Seq<(String, String)>) -> Seq<Seq<char>> {
    managers.map_values(|p: (String, String)| p.0@ + " "@ + p.1@)
}

/// The detected managers as one line: their `manager version` texts in text
/// order, separated by ` / `; nothing when none was found.
pub open spec fn status_text_ok(r: Option<String>, managers: Seq<(String, String)>) -> bool {
    if managers.len() == 0 {
        r is None
    } else {
        r matches Some(t) && exists|order: Seq<usize>|
            stable_order(order, status_pairs(managers), lex_pred()) && t@ == join_seq(
                arrange(order, status_pairs(managers)),
                " / "@,
            )
    }
}

/// The detected managers as one line.
pub fn package_manager_status_text(managers: &Vec<(String, String)>) -> (r: Option<String>)
    requires
        names_distinct(managers@),
    ensures
        status_text_ok(r, managers@),
{
    if managers.len() == 0 {
        return None;
    }
    let mut pairs: Vec<String> = Vec::new();
    let mut i: usize = 0;
    while i < managers.len()
        invariant
            i <= managers@.len(),
            views(pairs@) == status_pairs(managers@).take(i as int),
        decreases managers.len() - i,
    {
        let text = concat3(managers[i].0.as_str(), " ", managers[i].1.as_str());
        let ghost before = views(pairs@);
        pairs.push(text);
        assert(views(pairs@) =~= before.push(text@));
        assert(status_pairs(managers@).take(i + 1) =~= status_pairs(managers@).take(i as int).push(
            status_pairs(managers@)[i as int],
        ));
        i += 1;
    }
    assert(status_pairs(managers@).take(managers.len() as int) == status_pairs(managers@));
    let ghost texts = pairs@;
    let sorted = sort_strings(pairs);
    let ghost order = choose|order: Seq<usize>|
        stable_order(order, texts, string_le()) && sorted@ == arrange(order, texts);
    proof {
        crate::sorting::lemma_views_order(order, texts);
    }
    let line = join(&sorted, " / ");
    assert(views(sorted@) == arrange(order, views(texts)));
    Some(line)
}

} // verus!
