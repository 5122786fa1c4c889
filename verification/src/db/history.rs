//! Snapshots of machines, and the audit trail, to which entries are only ever appended.

use vstd::prelude::*;

use crate::db::rows::{
    AuditEvent, AuditEventView, ImportRow, ImportRowView, NewAuditEvent, NewAuditEventView,
    Snapshot, SnapshotState, SnapshotView, Timestamp,
};
use crate::db::store::{
    bounded_limit, dangling_reference, duplicate_value, earlier, empty_fault, fault_if, limit_of,
    optional_i64, optional_range_fault, plain_result, reference_error, require_changed, row_result,
    settles, unique_error, validate_non_empty, vm_with_id, Database, DatabaseView,
};
use crate::db::admins::or_value;
use crate::db::pools::{changed_presence, or_option};
use crate::db::vms::changed_document;
use crate::error::{conflict, not_found, validation, AppError, AppErrorView, AppResult};
use crate::ids::{parse_uuid, uuid_value};
use crate::json::{Document, Json};
use crate::table::{
    any, append, count_is_any, find, first_is_first, list, listing, look_up, matching, model,
    models, nothing_removed, occurs, others, remove, revise, revised, select,
};
use crate::text::{copy_option, option_is, own_option, same, trim, trim_spec, view_str};

verus! {

broadcast use vstd::string::group_string_axioms;

/// A snapshot with an identifier.
pub open spec fn snapshot_with_id(id: Seq<char>) -> spec_fn(SnapshotView) -> bool {
    |m: SnapshotView| m.id == id
}

/// A snapshot is entered, which is being made.
pub open spec fn create_snapshot_spec(
    db: DatabaseView,
    vm_id: Seq<char>,
    name: Seq<char>,
    description: Seq<char>,
    memory_included: bool,
    metadata: Json,
    id: Seq<char>,
    now: Timestamp,
) -> Result<(DatabaseView, SnapshotView), AppErrorView> {
    match empty_fault("snapshot name"@, name) {
        Some(e) => Err(e),
        None => if any(db.snapshots, snapshot_with_id(id)) {
            Err(unique_error("snapshots.id"@))
        } else if !any(db.vms, vm_with_id(vm_id)) {
            Err(reference_error())
        } else {
            let row = SnapshotView {
                id,
                vm_id,
                name: trim_spec(name),
                description,
                state: SnapshotState::Creating,
                disk_path: None,
                size_bytes: None,
                memory_included,
                metadata,
                created_at: now,
                updated_at: now,
                completed_at: None,
            };
            Ok((DatabaseView { snapshots: db.snapshots.push(row), ..db }, row))
        },
    }
}

/// A snapshot in a state.
pub open spec fn snapshot_in_state(
    state: SnapshotState,
    disk_path: Option<Seq<char>>,
    size_bytes: Option<u64>,
    metadata: Option<Json>,
    now: Timestamp,
) -> spec_fn(SnapshotView) -> SnapshotView {
    |m: SnapshotView|
        SnapshotView {
            state,
            disk_path: or_option(disk_path, m.disk_path),
            size_bytes: or_option(size_bytes, m.size_bytes),
            metadata: or_value(metadata, m.metadata),
            updated_at: now,
            completed_at: if state == SnapshotState::Ready || state == SnapshotState::Error {
                Some(now)
            } else {
                m.completed_at
            },
            ..m
        }
}

/// How a snapshot is, is recorded.
pub open spec fn update_snapshot_spec(
    db: DatabaseView,
    id: Seq<char>,
    state: SnapshotState,
    disk_path: Option<Seq<char>>,
    size_bytes: Option<u64>,
    metadata: Option<Json>,
    now: Timestamp,
) -> Result<(DatabaseView, SnapshotView), AppErrorView> {
    match optional_range_fault(size_bytes, "snapshot size"@) {
        Some(e) => Err(e),
        None => match find(db.snapshots, snapshot_with_id(id)) {
            None => Err(AppErrorView::NotFound("snapshot"@)),
            Some(m) => {
                let change = snapshot_in_state(state, disk_path, size_bytes, metadata, now);
                Ok(
                    (
                        DatabaseView {
                            snapshots: revised(db.snapshots, snapshot_with_id(id), change),
                            ..db
                        },
                        change(m),
                    ),
                )
            },
        },
    }
}

/// A snapshot of a machine to be listed.
pub open spec fn listed_snapshot(vm_id: Seq<char>) -> spec_fn(SnapshotView) -> bool {
    |m: SnapshotView| m.vm_id == vm_id
}

/// The newest snapshots first.
pub open spec fn newest_snapshot_first() -> spec_fn(SnapshotView, SnapshotView) -> bool {
    |a: SnapshotView, b: SnapshotView| a.created_at >= b.created_at
}

/// A snapshot is forgotten.
pub open spec fn delete_snapshot_spec(db: DatabaseView, id: Seq<char>) -> Result<
    (DatabaseView, ()),
    AppErrorView,
> {
    if !any(db.snapshots, snapshot_with_id(id)) {
        Err(AppErrorView::NotFound("snapshot"@))
    } else {
        Ok((DatabaseView { snapshots: others(db.snapshots, snapshot_with_id(id)), ..db }, ()))
    }
}

/// An entry of the audit trail.
pub open spec fn audit_entry(event: NewAuditEventView, id: i64, now: Timestamp) -> AuditEventView {
    AuditEventView {
        id,
        occurred_at: now,
        actor_type: event.actor_type,
        actor_id: event.actor_id,
        action: event.action,
        resource_type: event.resource_type,
        resource_id: event.resource_id,
        request_id: event.request_id,
        source_ip: event.source_ip,
        user_agent: event.user_agent,
        success: event.success,
        details: event.details,
    }
}

/// The faults of an entry to be appended.
pub open spec fn audit_fault(event: NewAuditEventView) -> Option<AppErrorView> {
    earlier(
        empty_fault("audit action"@, event.action),
        empty_fault("audit resource type"@, event.resource_type),
    )
}

/// The next entry is appended to the audit trail.
pub open spec fn appended_audit(db: DatabaseView, event: NewAuditEventView, now: Timestamp) -> Result<
    (DatabaseView, AuditEventView),
    AppErrorView,
> {
    if db.last_audit_id == i64::MAX {
        Err(AppErrorView::Database("database or disk is full"@))
    } else {
        let row = audit_entry(event, (db.last_audit_id + 1) as i64, now);
        Ok((DatabaseView { audit: db.audit.push(row), last_audit_id: row.id, ..db }, row))
    }
}

/// An entry with an action and a kind of resource is appended to the audit trail.
pub open spec fn append_audit_spec(db: DatabaseView, event: NewAuditEventView, now: Timestamp) -> Result<
    (DatabaseView, AuditEventView),
    AppErrorView,
> {
    match audit_fault(event) {
        Some(e) => Err(e),
        None => appended_audit(db, event, now),
    }
}

/// The end of an update.
pub open spec fn is_terminal_outcome(outcome: Seq<char>) -> bool {
    outcome == "succeeded"@ || outcome == "failed"@ || outcome == "rolled_back"@ || outcome
        == "needs_intervention"@
}

/// An update whose end is in the audit trail.
pub open spec fn import_of(request_id: Seq<char>) -> spec_fn(ImportRowView) -> bool {
    |m: ImportRowView| m.request_id == request_id
}

/// The first fault of an entry for the end of an update.
pub open spec fn import_fault(
    request_id: Seq<char>,
    outcome: Seq<char>,
    event: NewAuditEventView,
) -> Option<AppErrorView> {
    earlier(
        earlier(
            fault_if(
                uuid_value(request_id) is None,
                AppErrorView::Validation("update request ID is invalid"@),
            ),
            earlier(
                fault_if(
                    !is_terminal_outcome(outcome),
                    AppErrorView::Validation("update outcome is not terminal"@),
                ),
                audit_fault(event),
            ),
        ),
        earlier(
            earlier(
                fault_if(
                    event.resource_id != Some(request_id),
                    AppErrorView::Validation("update audit resource must match its request ID"@),
                ),
                fault_if(
                    event.request_id != Some(request_id),
                    AppErrorView::Validation(
                        "update audit correlation ID must match its request ID"@,
                    ),
                ),
            ),
            fault_if(
                event.success != (outcome == "succeeded"@),
                AppErrorView::Validation(
                    "update audit success flag does not match its terminal outcome"@,
                ),
            ),
        ),
    )
}

/// The end of an update goes into the audit trail once; the same end again changes
/// nothing, and another end is refused.
pub open spec fn import_spec(
    db: DatabaseView,
    request_id: Seq<char>,
    outcome: Seq<char>,
    event: NewAuditEventView,
    now: Timestamp,
) -> Result<(DatabaseView, bool), AppErrorView> {
    match import_fault(request_id, outcome, event) {
        Some(e) => Err(e),
        None => match find(db.imports, import_of(request_id)) {
            Some(m) => if m.outcome != outcome {
                Err(
                    AppErrorView::Conflict(
                        "terminal update status changed after it was audited"@,
                    ),
                )
            } else {
                Ok((db, false))
            },
            None => match appended_audit(db, event, now) {
                Err(e) => Err(e),
                Ok((after, _)) => Ok(
                    (
                        DatabaseView {
                            imports: db.imports.push(
                                ImportRowView { request_id, outcome, imported_at: now },
                            ),
                            ..after
                        },
                        true,
                    ),
                ),
            },
        },
    }
}

/// An entry to be listed.
pub open spec fn listed_audit(
    before_id: Option<i64>,
    resource_type: Option<Seq<char>>,
    resource_id: Option<Seq<char>>,
) -> spec_fn(AuditEventView) -> bool {
    |m: AuditEventView|
        (before_id is None || m.id < before_id->0) && (resource_type is None || m.resource_type
            == resource_type->0) && (resource_id is None || m.resource_id == resource_id)
}

/// The last entry first.
pub open spec fn last_entry_first() -> spec_fn(AuditEventView, AuditEventView) -> bool {
    |a: AuditEventView, b: AuditEventView| a.id >= b.id
}

impl Database {
    /// Enters a snapshot that is being made.
    pub fn create_snapshot(
        &mut self,
        vm_id: &str,
        name: &str,
        description: &str,
        memory_included: bool,
        metadata: &Document,
        id: &str,
        now: Timestamp,
    ) -> (r: AppResult<Snapshot>)
        ensures
            settles(
                create_snapshot_spec(
                    old(self)@,
                    vm_id@,
                    name@,
                    description@,
                    memory_included,
                    metadata@,
                    id@,
                    now,
                ),
                old(self)@,
                final(self)@,
                row_result(r),
            ),
    {
        match validate_non_empty("snapshot name", name) {
            Err(e) => {
                return Err(e);
            },
            Ok(v) => v,
        };
        let test = |x: &Snapshot| -> (b: bool)
            ensures
                b == snapshot_with_id(id@)(x@),
            { same(x.id.as_str(), id) };
        if occurs(&self.snapshots, test, Ghost(snapshot_with_id(id@))) {
            return Err(duplicate_value("snapshots.id"));
        }
        if !self.has_vm(vm_id) {
            return Err(dangling_reference());
        }
        let row = Snapshot {
            id: id.to_owned(),
            vm_id: vm_id.to_owned(),
            name: trim(name),
            description: description.to_owned(),
            state: SnapshotState::Creating,
            disk_path: None,
            size_bytes: None,
            memory_included,
            metadata: metadata.clone(),
            created_at: now,
            updated_at: now,
            completed_at: None,
        };
        let shown = row.clone();
        append(&mut self.snapshots, row);
        Ok(shown)
    }

    /// Records how a snapshot is.
    pub fn update_snapshot(
        &mut self,
        id: &str,
        state: SnapshotState,
        disk_path: Option<&str>,
        size_bytes: Option<u64>,
        metadata: &Option<Document>,
        now: Timestamp,
    ) -> (r: AppResult<Snapshot>)
        ensures
            settles(
                update_snapshot_spec(
                    old(self)@,
                    id@,
                    state,
                    view_str(disk_path),
                    size_bytes,
                    model(*metadata),
                    now,
                ),
                old(self)@,
                final(self)@,
                row_result(r),
            ),
    {
        let _ = match optional_i64(size_bytes, "snapshot size") {
            Err(e) => {
                return Err(e);
            },
            Ok(v) => v,
        };
        let chosen = |x: &Snapshot| -> (b: bool)
            ensures
                b == snapshot_with_id(id@)(x@),
            { same(x.id.as_str(), id) };
        let row = match look_up(&self.snapshots, chosen, Ghost(snapshot_with_id(id@))) {
            None => {
                return Err(not_found("snapshot"));
            },
            Some(row) => row,
        };
        let path = own_option(disk_path);
        let ghost f = snapshot_in_state(
            state,
            view_str(disk_path),
            size_bytes,
            model(*metadata),
            now,
        );
        let change = |x: &Snapshot| -> (y: Snapshot)
            ensures
                y@ == f(x@),
            { {
            let mut y = x.clone();
            y.state = state;
            y.disk_path = changed_presence(&path, &x.disk_path);
            y.size_bytes = match size_bytes {
                Some(n) => Some(n),
                None => x.size_bytes,
            };
            y.metadata = changed_document(metadata, &x.metadata);
            y.updated_at = now;
            if state == SnapshotState::Ready || state == SnapshotState::Error {
                y.completed_at = Some(now);
            }
            y
        } };
        let shown = change(&row);
        let _ = revise(&mut self.snapshots, chosen, change, Ghost(snapshot_with_id(id@)), Ghost(f));
        Ok(shown)
    }

    /// The snapshots of a machine, the newest first.
    pub fn list_snapshots(&self, vm_id: &str) -> (r: AppResult<Vec<Snapshot>>)
        ensures
            r is Ok,
            listing(
                models(r->Ok_0@),
                matching(self@.snapshots, listed_snapshot(vm_id@)),
                newest_snapshot_first(),
                usize::MAX as int,
            ),
    {
        let test = |x: &Snapshot| -> (b: bool)
            ensures
                b == listed_snapshot(vm_id@)(x@),
            { same(x.vm_id.as_str(), vm_id) };
        let rows = select(&self.snapshots, test, Ghost(listed_snapshot(vm_id@)));
        let le = |a: &Snapshot, c: &Snapshot| -> (b: bool)
            ensures
                b == newest_snapshot_first()(a@, c@),
            { a.created_at >= c.created_at };
        Ok(list(rows, le, usize::MAX, Ghost(newest_snapshot_first())))
    }

    /// Forgets a snapshot.
    pub fn delete_snapshot_record(&mut self, id: &str) -> (r: AppResult<()>)
        ensures
            settles(delete_snapshot_spec(old(self)@, id@), old(self)@, final(self)@, plain_result(r)),
    {
        let chosen = |x: &Snapshot| -> (b: bool)
            ensures
                b == snapshot_with_id(id@)(x@),
            { same(x.id.as_str(), id) };
        let n: usize = remove(&mut self.snapshots, chosen, Ghost(snapshot_with_id(id@)));
        proof {
            count_is_any(old(self)@.snapshots, snapshot_with_id(id@));
            nothing_removed(old(self)@.snapshots, snapshot_with_id(id@));
        }
        require_changed(n, "snapshot")
    }

    fn push_audit(&mut self, event: &NewAuditEvent, now: Timestamp) -> (r: AppResult<AuditEvent>)
        ensures
            settles(
                appended_audit(old(self)@, event@, now),
                old(self)@,
                final(self)@,
                row_result(r),
            ),
    {
        if self.last_audit_id == i64::MAX {
            return Err(AppError::Database("database or disk is full".to_owned()));
        }
        let id: i64 = self.last_audit_id + 1;
        let row = AuditEvent {
            id,
            occurred_at: now,
            actor_type: event.actor_type.clone(),
            actor_id: copy_option(&event.actor_id),
            action: event.action.clone(),
            resource_type: event.resource_type.clone(),
            resource_id: copy_option(&event.resource_id),
            request_id: copy_option(&event.request_id),
            source_ip: copy_option(&event.source_ip),
            user_agent: copy_option(&event.user_agent),
            success: event.success,
            details: event.details.clone(),
        };
        let shown = row.clone();
        append(&mut self.audit, row);
        self.last_audit_id = id;
        Ok(shown)
    }

    /// Appends an entry to the audit trail.
    pub fn append_audit(&mut self, event: &NewAuditEvent, now: Timestamp) -> (r: AppResult<
        AuditEvent,
    >)
        ensures
            settles(
                append_audit_spec(old(self)@, event@, now),
                old(self)@,
                final(self)@,
                row_result(r),
            ),
    {
        match validate_non_empty("audit action", event.action.as_str()) {
            Err(e) => {
                return Err(e);
            },
            Ok(v) => v,
        };
        match validate_non_empty("audit resource type", event.resource_type.as_str()) {
            Err(e) => {
                return Err(e);
            },
            Ok(v) => v,
        };
        self.push_audit(event, now)
    }

    /// Takes the end of an update into the audit trail, and says whether it was not there
    /// yet.
    pub fn import_update_status_audit(
        &mut self,
        request_id: &str,
        outcome: &str,
        event: &NewAuditEvent,
        now: Timestamp,
    ) -> (r: AppResult<bool>)
        ensures
            settles(
                import_spec(old(self)@, request_id@, outcome@, event@, now),
                old(self)@,
                final(self)@,
                plain_result(r),
            ),
    {
        if parse_uuid(request_id).is_none() {
            return Err(validation("update request ID is invalid"));
        }
        let succeeded = same(outcome, "succeeded");
        if !succeeded && !same(outcome, "failed") && !same(outcome, "rolled_back") && !same(
            outcome,
            "needs_intervention",
        ) {
            return Err(validation("update outcome is not terminal"));
        }
        match validate_non_empty("audit action", event.action.as_str()) {
            Err(e) => {
                return Err(e);
            },
            Ok(v) => v,
        };
        match validate_non_empty("audit resource type", event.resource_type.as_str()) {
            Err(e) => {
                return Err(e);
            },
            Ok(v) => v,
        };
        if !option_is(&event.resource_id, request_id) {
            return Err(validation("update audit resource must match its request ID"));
        }
        if !option_is(&event.request_id, request_id) {
            return Err(validation("update audit correlation ID must match its request ID"));
        }
        if event.success != succeeded {
            return Err(
                validation("update audit success flag does not match its terminal outcome"),
            );
        }
        let test = |x: &ImportRow| -> (b: bool)
            ensures
                b == import_of(request_id@)(x@),
            { same(x.request_id.as_str(), request_id) };
        match look_up(&self.imports, test, Ghost(import_of(request_id@))) {
            Some(row) => {
                if !same(row.outcome.as_str(), outcome) {
                    return Err(conflict("terminal update status changed after it was audited"));
                }
                Ok(false)
            },
            None => {
                let _ = match self.push_audit(event, now) {
                    Err(e) => {
                        return Err(e);
                    },
                    Ok(v) => v,
                };
                append(
                    &mut self.imports,
                    ImportRow {
                        request_id: request_id.to_owned(),
                        outcome: outcome.to_owned(),
                        imported_at: now,
                    },
                );
                Ok(true)
            },
        }
    }

    /// Entries of the audit trail before an entry and about a resource, the last first.
    pub fn list_audit(
        &self,
        before_id: Option<i64>,
        resource_type: Option<&str>,
        resource_id: Option<&str>,
        limit: usize,
    ) -> (r: AppResult<Vec<AuditEvent>>)
        ensures
            r is Ok,
            listing(
                models(r->Ok_0@),
                matching(
                    self@.audit,
                    listed_audit(before_id, view_str(resource_type), view_str(resource_id)),
                ),
                last_entry_first(),
                limit_of(limit, 1000),
            ),
    {
        let n: usize = bounded_limit(limit, 1000);
        let ghost p = listed_audit(before_id, view_str(resource_type), view_str(resource_id));
        let test = |x: &AuditEvent| -> (b: bool)
            ensures
                b == p(x@),
            { (match before_id {
            None => true,
            Some(b) => x.id < b,
        }) && (match resource_type {
            None => true,
            Some(t) => same(x.resource_type.as_str(), t),
        }) && (match resource_id {
            None => true,
            Some(t) => option_is(&x.resource_id, t),
        }) };
        let rows = select(&self.audit, test, Ghost(p));
        let le = |a: &AuditEvent, c: &AuditEvent| -> (b: bool)
            ensures
                b == last_entry_first()(a@, c@),
            { a.id >= c.id };
        Ok(list(rows, le, n, Ghost(last_entry_first())))
    }
}

/// The end of an update is taken into the audit trail once: the same end again adds
/// nothing, and a different end is refused.
pub proof fn an_update_is_audited_once(
    db: DatabaseView,
    request_id: Seq<char>,
    outcome: Seq<char>,
    event: NewAuditEventView,
    now: Timestamp,
    again: Seq<char>,
    other: NewAuditEventView,
    later: Timestamp,
)
    ensures
        import_spec(db, request_id, outcome, event, now) matches Ok(done) ==> {
            &&& any(done.0.imports, import_of(request_id))
            &&& (import_spec(done.0, request_id, again, other, later) matches Ok(second)
                ==> second == (done.0, false))
            &&& again != find(done.0.imports, import_of(request_id))->0.outcome ==> import_spec(
                done.0,
                request_id,
                again,
                other,
                later,
            ) is Err
        },
{
    if import_spec(db, request_id, outcome, event, now) is Ok {
        let after = import_spec(db, request_id, outcome, event, now)->Ok_0.0.imports;
        let p = import_of(request_id);
        first_is_first(after, p);
        first_is_first(db.imports, p);
        if !any(db.imports, p) {
            assert(p(after[after.len() - 1]));
        }
    }
}

/// The audit trail only grows: an entry stays, in its place and as it is.
pub proof fn the_audit_trail_only_grows(
    db: DatabaseView,
    request_id: Seq<char>,
    outcome: Seq<char>,
    event: NewAuditEventView,
    now: Timestamp,
    i: int,
)
    requires
        0 <= i < db.audit.len(),
    ensures
        append_audit_spec(db, event, now) matches Ok(done) ==> i < done.0.audit.len()
            && done.0.audit[i] == db.audit[i],
        import_spec(db, request_id, outcome, event, now) matches Ok(done) ==> i
            < done.0.audit.len() && done.0.audit[i] == db.audit[i],
{
}

} // verus!
