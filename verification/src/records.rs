use vstd::prelude::*;

use crate::locations::{app_dir, quarantine_dir};
use crate::paths::{join_path, join_spec};
use crate::scan::{sanitize_id, sanitize_id_spec, Risk};
use crate::text::{concat2, decimal, owned, push_char, str_eq, u64_to_string};

verus! {

// ---------------------------------------------------------------------------
// Quarantine
// ---------------------------------------------------------------------------

/// An entry that was moved into the quarantine directory.
#[derive(Debug, Clone, PartialEq, Eq)]
pub struct QuarantineItem {
    pub id: String,
    pub original_path: String,
    pub quarantine_path: String,
    pub created: String,
}

#[derive(Debug, Clone, PartialEq, Eq)]
pub struct QuarantineResult {
    pub item: QuarantineItem,
}

/// Where an entry goes when it is quarantined.
#[derive(Debug, Clone, PartialEq, Eq)]
pub struct QuarantineMove {
    /// The quarantine directory, to be created first.
    pub root: String,
    pub id: String,
    /// The path the entry is moved to.
    pub target: String,
}

/// The id of a quarantined entry: the time, `_`, and its file name (or
/// `item`) with every character but ASCII letters and digits made `_`.
pub open spec fn quarantine_id_spec(now_secs: u64, file_name: Option<&str>) -> Seq<char> {
    decimal(now_secs as nat) + seq!['_'] + sanitize_id_spec(
        match file_name {
            Some(n) => n@,
            None => "item"@,
        },
    )
}

/// Checks a quarantine request and chooses where the entry goes: only an
/// existing cleanable entry, and only with a home directory.
pub fn quarantine_entry_plan(
    risk: Risk,
    exists: bool,
    home: Option<&str>,
    file_name: Option<&str>,
    now_secs: u64,
    os: &str,
) -> (r: Result<QuarantineMove, String>)
    ensures
        risk != Risk::Cleanable ==> (r matches Err(e) && e@
            == "Only cleanable entries can be quarantined"@),
        risk == Risk::Cleanable && !exists ==> (r matches Err(e) && e@ == "Path does not exist"@),
        risk == Risk::Cleanable && exists && home is None ==> (r matches Err(e) && e@
            == "Unable to resolve home directory"@),
        risk == Risk::Cleanable && exists && home is Some ==> (r matches Ok(m) && {
            let h = home->0@;
            &&& m.root@ == join_spec(app_dir(h, os@), "quarantine"@, os@)
            &&& m.id@ == quarantine_id_spec(now_secs, file_name)
            &&& m.target@ == join_spec(m.root@, m.id@, os@)
        }),
{
    if risk != Risk::Cleanable {
        return Err(owned("Only cleanable entries can be quarantined"));
    }
    if !exists {
        return Err(owned("Path does not exist"));
    }
    let root = match quarantine_dir(home, os) {
        Ok(root) => root,
        Err(e) => {
            return Err(e);
        },
    };
    let name = match file_name {
        Some(n) => n,
        None => "item",
    };
    let mut id = u64_to_string(now_secs);
    push_char(&mut id, '_');
    id.append(sanitize_id(name).as_str());
    assert(id@ =~= quarantine_id_spec(now_secs, file_name));
    let target = join_path(root.as_str(), id.as_str(), os);
    Ok(QuarantineMove { root, id, target })
}

/// The record of an entry moved as planned.
pub fn quarantine_item(original_path: String, planned: &QuarantineMove, created_secs: u64) -> (r:
    QuarantineItem)
    ensures
        r.id == planned.id,
        r.original_path == original_path,
        r.quarantine_path == planned.target,
        r.created@ == decimal(created_secs as nat),
{
    QuarantineItem {
        id: planned.id.clone(),
        original_path,
        quarantine_path: planned.target.clone(),
        created: u64_to_string(created_secs),
    }
}

/// Records a quarantined entry at the end of the list.
pub fn add_quarantine_item(items: &mut Vec<QuarantineItem>, item: QuarantineItem)
    ensures
        final(items)@ == old(items)@.push(item),
{
    items.push(item);
}

pub open spec fn id_pred(id: Seq<char>) -> spec_fn(QuarantineItem) -> bool {
    |item: QuarantineItem| item.id@ == id
}

/// The first index of an item with this id, or -1.
pub open spec fn quarantine_index(items: Seq<QuarantineItem>, id: Seq<char>) -> int {
    crate::seqs::find_first(items, id_pred(id))
}

/// Takes the first item with this id out of the list (to restore or delete
/// it); an error, with the list unchanged, when there is none.
pub fn take_quarantine_item(items: &mut Vec<QuarantineItem>, id: &str) -> (r: Result<
    QuarantineItem,
    String,
>)
    ensures
        quarantine_index(old(items)@, id@) == -1 ==> (r matches Err(e) && e@
            == "Quarantine item not found"@ && final(items)@ == old(items)@),
        quarantine_index(old(items)@, id@) != -1 ==> (r matches Ok(item) && item == old(
            items,
        )@[quarantine_index(old(items)@, id@)] && final(items)@ == old(items)@.remove(
            quarantine_index(old(items)@, id@),
        )),
{
    let ghost p = id_pred(id@);
    let mut i: usize = 0;
    while i < items.len()
        invariant
            i <= items@.len(),
            items@ == old(items)@,
            p == id_pred(id@),
            crate::seqs::find_from(items@, p, 0) == crate::seqs::find_from(items@, p, i as int),
        decreases items.len() - i,
    {
        if str_eq(items[i].id.as_str(), id) {
            let item = items.remove(i);
            return Ok(item);
        }
        i += 1;
    }
    Err(owned("Quarantine item not found"))
}

/// The manifest round trip: after `add_quarantine_item` records an item
/// under a fresh id, `take_quarantine_item` with that id finds it (at the
/// end), gives it back, and leaves the list as it was before the addition.
pub proof fn law_take_undoes_add(items: Seq<QuarantineItem>, item: QuarantineItem)
    requires
        quarantine_index(items, item.id@) == -1,
    ensures
        quarantine_index(items.push(item), item.id@) == items.len(),
        items.push(item)[items.len() as int] == item,
        items.push(item).remove(items.len() as int) == items,
{
    let p = id_pred(item.id@);
    crate::seqs::lemma_find_from(items, p, 0);
    crate::seqs::lemma_find_from(items.push(item), p, 0);
    let s = items.push(item);
    assert forall|j: int| 0 <= j < items.len() implies !p(#[trigger] s[j]) by {
        assert(s[j] == items[j]);
    }
    assert(p(s[items.len() as int]));
    assert(s.remove(items.len() as int) =~= items);
}

/// Deleting from quarantine is refused unless the target (both paths as
/// the file system resolves them) lies within the quarantine directory.
pub fn quarantine_target_check(target: &str, root: &str, os: &str) -> (r: Result<(), String>)
    ensures
        crate::paths::components_start_with(target@, root@, os@) ==> r is Ok,
        !crate::paths::components_start_with(target@, root@, os@) ==> (r matches Err(e) && e@
            == "Refusing to delete a file outside quarantine"@),
{
    if crate::paths::path_starts_with(target, root, os) {
        Ok(())
    } else {
        Err(owned("Refusing to delete a file outside quarantine"))
    }
}

/// The audit detail of a quarantine.
pub fn moved_detail(target: &str) -> (r: String)
    ensures
        r@ == "Moved to "@ + target@,
{
    concat2("Moved to ", target)
}

/// The audit detail of a restore.
pub fn restored_detail(quarantine_path: &str) -> (r: String)
    ensures
        r@ == "Restored from "@ + quarantine_path@,
{
    concat2("Restored from ", quarantine_path)
}

// ---------------------------------------------------------------------------
// Audit log
// ---------------------------------------------------------------------------

/// One line of the audit log.
#[derive(Debug, Clone, PartialEq, Eq)]
pub struct AuditLogEntry {
    pub id: String,
    pub action: String,
    pub target_path: String,
    pub status: String,
    pub detail: String,
    pub created: String,
}

/// How many entries the audit log keeps.
pub open spec fn audit_log_limit() -> int {
    300
}

/// The entry recorded at `timestamp` for an action.
pub open spec fn audit_entry_ok(
    e: AuditLogEntry,
    timestamp: u64,
    action: Seq<char>,
    target_path: Seq<char>,
    status: Seq<char>,
    detail: Seq<char>,
) -> bool {
    &&& e.id@ == decimal(timestamp as nat) + seq!['_'] + sanitize_id_spec(action)
    &&& e.action@ == action
    &&& e.target_path@ == target_path
    &&& e.status@ == status
    &&& e.detail@ == detail
    &&& e.created@ == decimal(timestamp as nat)
}

/// Puts a new entry first and keeps the newest 300.
pub fn append_audit_entry(
    entries: &mut Vec<AuditLogEntry>,
    timestamp: u64,
    action: &str,
    target_path: &str,
    status: &str,
    detail: &str,
)
    ensures
        final(entries)@.len() == if old(entries)@.len() + 1 <= audit_log_limit() {
            old(entries)@.len() + 1 as int
        } else {
            audit_log_limit()
        },
        audit_entry_ok(final(entries)@[0], timestamp, action@, target_path@, status@, detail@),
        forall|k: int| 1 <= k < final(entries)@.len() ==> #[trigger] final(entries)@[k] == old(
            entries,
        )@[k - 1],
{
    let stamp = u64_to_string(timestamp);
    let mut id = u64_to_string(timestamp);
    push_char(&mut id, '_');
    id.append(sanitize_id(action).as_str());
    let entry = AuditLogEntry {
        id,
        action: owned(action),
        target_path: owned(target_path),
        status: owned(status),
        detail: owned(detail),
        created: stamp,
    };
    assert(entry.id@ =~= decimal(timestamp as nat) + seq!['_'] + sanitize_id_spec(action@));
    let ghost before = entries@;
    entries.insert(0, entry);
    assert(entries@[0] == entry);
    entries.truncate(300);
    assert(entries@[0] == entry);
    assert forall|k: int| 1 <= k < entries@.len() implies #[trigger] entries@[k] == before[k - 1] by {
        assert(before.insert(0, entry)[k] == before[k - 1]);
    }
}

} // verus!
