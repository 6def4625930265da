use vstd::prelude::*;

use crate::catalog::{rebuild_environment_report_totals, totals_ok};
use crate::managers::{names_distinct, package_manager_status_text, status_text_ok};
use crate::model::{DevToolCheck, EnvironmentCheckReport, EnvironmentData};
use crate::sorting::{
    arrange, lemma_insert_stable, lemma_lex_total, lemma_lex_trans, lex_le, prefix_order,
    stable_order, str_le, total_preorder,
};
use crate::text::owned;

verus! {

/// What std's `str::to_lowercase` gives for a text: its Unicode lower case.
pub uninterp spec fn unicode_lowercase(s: Seq<char>) -> Seq<char>;

/// std's `str::to_lowercase`; its result is only named here.
#[verifier::external_body]
pub(crate) fn to_lowercase(s: &str) -> (r: String)
    ensures
        r@ == unicode_lowercase(s@),
{
    s.to_lowercase()
}

/// The order of tools in a report: required ones first, then by name
/// ignoring case.
pub open spec fn tool_order_le() -> spec_fn(DevToolCheck, DevToolCheck) -> bool {
    |a: DevToolCheck, b: DevToolCheck|
        if a.required != b.required {
            a.required
        } else {
            lex_le(unicode_lowercase(a.name@), unicode_lowercase(b.name@))
        }
}

pub proof fn lemma_tool_order_preorder()
    ensures
        total_preorder(tool_order_le()),
{
    let le = tool_order_le();
    assert forall|a: DevToolCheck, b: DevToolCheck| #[trigger] le(a, b) || le(b, a) by {
        lemma_lex_total(unicode_lowercase(a.name@), unicode_lowercase(b.name@));
    }
    assert forall|a: DevToolCheck, b: DevToolCheck, c: DevToolCheck|
        #[trigger] le(a, b) && #[trigger] le(b, c) implies le(a, c) by {
        if a.required == b.required && b.required == c.required {
            lemma_lex_trans(
                unicode_lowercase(a.name@),
                unicode_lowercase(b.name@),
                unicode_lowercase(c.name@),
            );
        }
    }
}

fn ranks_before(a_required: bool, a_key: &str, b_required: bool, b_key: &str) -> (r: bool)
    ensures
        r == if a_required != b_required {
            a_required
        } else {
            lex_le(a_key@, b_key@)
        },
{
    if a_required != b_required {
        a_required
    } else {
        str_le(a_key, b_key)
    }
}

/// Tool checks in report order; equal keys keep their order.
pub fn sort_tool_checks(items: Vec<DevToolCheck>) -> (r: Vec<DevToolCheck>)
    ensures
        exists|order: Seq<usize>|
            stable_order(order, items@, tool_order_le()) && r@ == arrange(order, items@),
{
    proof {
        lemma_tool_order_preorder();
    }
    let ghost all = items@;
    let mut rest = items;
    let mut out: Vec<DevToolCheck> = Vec::new();
    let mut keys: Vec<String> = Vec::new();
    let ghost mut order: Seq<usize> = Seq::empty();
    let mut i: usize = 0;
    let n = rest.len();
    while i < n
        invariant
            n == all.len(),
            i <= n,
            rest@ == all.skip(i as int),
            total_preorder(tool_order_le()),
            prefix_order(order, all, tool_order_le(), i as int),
            out@ == arrange(order, all),
            keys@.len() == out@.len(),
            forall|k: int|
                0 <= k < keys@.len() ==> (#[trigger] keys@[k])@ == unicode_lowercase(
                    out@[k].name@,
                ),
        decreases n - i,
    {
        let x = rest.remove(0);
        assert(x == all[i as int]);
        assert(all.skip(i as int).remove(0) =~= all.skip(i + 1));
        let key = to_lowercase(x.name.as_str());
        let mut p: usize = 0;
        while p < out.len() && ranks_before(out[p].required, keys[p].as_str(), x.required, key.as_str())
            invariant
                p <= out@.len(),
                out@ == arrange(order, all),
                keys@.len() == out@.len(),
                forall|k: int|
                    0 <= k < keys@.len() ==> (#[trigger] keys@[k])@ == unicode_lowercase(
                        out@[k].name@,
                    ),
                key@ == unicode_lowercase(x.name@),
                x == all[i as int],
                forall|k: int| 0 <= k < p ==> tool_order_le()(all[#[trigger] order[k] as int], x),
            decreases out@.len() - p,
        {
            assert(out@[p as int] == all[order[p as int] as int]);
            p += 1;
        }
        proof {
            if p < out@.len() {
                assert(out@[p as int] == all[order[p as int] as int]);
            }
            lemma_insert_stable(order, all, tool_order_le(), i as int, p as int);
        }
        let ghost old_keys = keys@;
        let ghost old_out = out@;
        out.insert(p, x);
        keys.insert(p, key);
        proof {
            assert(out@ =~= arrange(order.insert(p as int, i), all));
            order = order.insert(p as int, i);
            assert forall|k: int| 0 <= k < keys@.len() implies (#[trigger] keys@[k])@
                == unicode_lowercase(out@[k].name@) by {
                if k < p {
                    assert(keys@[k] == old_keys[k] && out@[k] == old_out[k]);
                } else if k > p {
                    assert(keys@[k] == old_keys[k - 1] && out@[k] == old_out[k - 1]);
                }
            }
        }
        i += 1;
    }
    assert(stable_order(order, all, tool_order_le()));
    out
}

/// A finished report: the checks in report order, the detected managers,
/// and the totals that follow from the checks.
pub fn build_environment_report(
    data: &EnvironmentData,
    os: &str,
    managers: &Vec<(String, String)>,
    checks: Vec<DevToolCheck>,
) -> (r: EnvironmentCheckReport)
    requires
        names_distinct(managers@),
    ensures
        r.platform@ == os@,
        r.package_manager_available == (managers@.len() > 0),
        status_text_ok(r.package_manager_version, managers@),
        r.package_manager_checked,
        exists|order: Seq<usize>|
            stable_order(order, checks@, tool_order_le()) && r.tools@ == arrange(order, checks@),
        exists|pre: EnvironmentCheckReport| totals_ok(r, pre, *data),
{
    let ghost input = checks@;
    let tools = sort_tool_checks(checks);
    let total = tools.len();
    let report = EnvironmentCheckReport {
        platform: owned(os),
        package_manager_available: managers.len() > 0,
        package_manager_version: package_manager_status_text(managers),
        package_manager_checked: true,
        required_missing: 0,
        optional_missing: 0,
        checked_tools: total,
        pending_tools: 0,
        total_tools: total,
        completed: true,
        suites: Vec::new(),
        tools,
    };
    let ghost pre = report;
    let r = rebuild_environment_report_totals(report, data);
    assert(totals_ok(r, pre, *data));
    r
}


pub open spec fn same_id_pred(id: Seq<char>) -> spec_fn(DevToolCheck) -> bool {
    |t: DevToolCheck| t.id@ == id
}

/// Records one finished check in a running report: it replaces the first
/// tool with its id (a check of an unknown tool changes nothing), and the
/// totals are recomputed from the tools.
pub fn record_tool_check(
    report: EnvironmentCheckReport,
    checked: DevToolCheck,
    data: &EnvironmentData,
) -> (r: EnvironmentCheckReport)
    ensures
        ({
            let k = crate::seqs::find_first(report.tools@, same_id_pred(checked.id@));
            r.tools@ == if k >= 0 {
                report.tools@.update(k, checked)
            } else {
                report.tools@
            }
        }),
        r.platform == report.platform,
        r.package_manager_available == report.package_manager_available,
        r.package_manager_version == report.package_manager_version,
        r.package_manager_checked == report.package_manager_checked,
        exists|pre: EnvironmentCheckReport| totals_ok(r, pre, *data),
{
    let mut report = report;
    let ghost p = same_id_pred(checked.id@);
    let mut i: usize = 0;
    while i < report.tools.len() && !crate::text::str_eq(report.tools[i].id.as_str(), checked.id.as_str())
        invariant
            i <= report.tools@.len(),
            p == same_id_pred(checked.id@),
            crate::seqs::find_first(report.tools@, p) == crate::seqs::find_from(
                report.tools@,
                p,
                i as int,
            ),
        decreases report.tools.len() - i,
    {
        i += 1;
    }
    if i < report.tools.len() {
        report.tools.set(i, checked);
    }
    let ghost pre = report;
    let r = rebuild_environment_report_totals(report, data);
    assert(totals_ok(r, pre, *data));
    r
}


/// Records the package managers found in a running report: a manager is
/// available when any was found, the version line lists them, the managers
/// count as checked, and the totals are recomputed from the tools.
pub fn record_manager_check(
    report: EnvironmentCheckReport,
    managers: &Vec<(String, String)>,
    data: &EnvironmentData,
) -> (r: EnvironmentCheckReport)
    requires
        names_distinct(managers@),
    ensures
        r.package_manager_available == (managers@.len() > 0),
        status_text_ok(r.package_manager_version, managers@),
        r.package_manager_checked,
        r.platform == report.platform,
        r.tools == report.tools,
        exists|pre: EnvironmentCheckReport| totals_ok(r, pre, *data),
{
    let mut report = report;
    report.package_manager_available = managers.len() > 0;
    report.package_manager_version = package_manager_status_text(managers);
    report.package_manager_checked = true;
    let ghost pre = report;
    let r = rebuild_environment_report_totals(report, data);
    assert(totals_ok(r, pre, *data));
    r
}

} // verus!
