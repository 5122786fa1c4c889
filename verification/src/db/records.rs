//! What is kept on record: snapshots, the audit trail, settings, images, what the host is and
//! what was measured. Stated over the fields of the rows.

use vstd::prelude::*;

use crate::db::rows::{
    AuditEventView, HostInventoryView, HostMetricView, ImportRowView, IsoImageView,
    NewAuditEventView, SettingRecordView, SnapshotState, SnapshotView, Timestamp, VmMetricView,
    VmRowView, VmView,
};
use crate::db::store::{vm_with_id, DatabaseView};
use crate::db::access::is_admin;
use crate::db::admins::admin_with_id;
use crate::db::history::{
    append_audit_spec, create_snapshot_spec, delete_snapshot_spec, import_of, import_spec,
    snapshot_in_state, snapshot_with_id, update_snapshot_spec,
};
use crate::db::metrics::{
    bucket_of, host_at, host_before, host_since, host_time, insert_host_metric_spec,
    insert_vm_metric_spec, larger, later_in_stretch, latest_of, stands_for, vm_at, vm_before,
};
use crate::db::protection::takes;
use crate::db::queue::is_machine_of;
use crate::db::rotation::is_refused;
use crate::db::settings::{
    canonical_ips, delete_iso_spec, iso_called, iso_with_id, reentered_iso, set_setting_spec,
    setting_with_key, upsert_inventory_spec, upsert_iso_spec, with_value,
};
use crate::error::AppErrorView;
use crate::ids::{new_id, uuid_value};
use crate::json::Json;
use crate::net::canonical_ip_spec;
use crate::table::{
    any, count, count_is_any, find, first, first_is_first, matching, matching_has, others,
    others_has, replaced_by, revised,
};
use crate::text::{equal_ignoring_case, trim_spec};

verus! {

broadcast use vstd::string::group_string_axioms;

/// Some snapshot has an identifier.
pub open spec fn is_snapshot(db: DatabaseView, id: Seq<char>) -> bool {
    exists|k: int| 0 <= k < db.snapshots.len() && (#[trigger] db.snapshots[k]).id == id
}

proof fn snapshot_is_found(db: DatabaseView, id: Seq<char>, vm_id: Seq<char>)
    ensures
        any(db.snapshots, snapshot_with_id(id)) == is_snapshot(db, id),
        any(db.vms, vm_with_id(vm_id)) == is_machine_of(db, vm_id),
{
    let p = snapshot_with_id(id);
    first_is_first(db.snapshots, p);
    if is_snapshot(db, id) {
        let k = choose|k: int| 0 <= k < db.snapshots.len() && (#[trigger] db.snapshots[k]).id == id;
        assert(p(db.snapshots[k]));
    }
    if any(db.snapshots, p) {
        assert(db.snapshots[first(db.snapshots, p)->0].id == id);
    }
    let q = vm_with_id(vm_id);
    first_is_first(db.vms, q);
    if is_machine_of(db, vm_id) {
        let k = choose|k: int| 0 <= k < db.vms.len() && (#[trigger] db.vms[k]).vm.id == vm_id;
        assert(q(db.vms[k]));
    }
    if any(db.vms, q) {
        assert(db.vms[first(db.vms, q)->0].vm.id == vm_id);
    }
}

/// A snapshot is entered as being made, for a machine that is there and under a new
/// identifier; else nothing changes.
pub proof fn a_snapshot_is_entered(
    db: DatabaseView,
    vm_id: Seq<char>,
    name: Seq<char>,
    description: Seq<char>,
    memory_included: bool,
    metadata: Json,
    id: Seq<char>,
    now: Timestamp,
)
    ensures
        ({
            let fit = trim_spec(name).len() > 0 && is_machine_of(db, vm_id) && !is_snapshot(db, id);
            let done = create_snapshot_spec(
                db,
                vm_id,
                name,
                description,
                memory_included,
                metadata,
                id,
                now,
            );
            &&& !fit ==> is_refused(done, db)
            &&& fit ==> {
                let r = done->Ok_0.1;
                &&& done is Ok
                &&& done->Ok_0.0 == (DatabaseView { snapshots: db.snapshots.push(r), ..db })
                &&& r.id == id
                &&& r.vm_id == vm_id
                &&& r.name == trim_spec(name)
                &&& r.description == description
                &&& r.state == SnapshotState::Creating
                &&& r.disk_path is None
                &&& r.size_bytes is None
                &&& r.memory_included == memory_included
                &&& r.metadata == metadata
                &&& r.created_at == now
                &&& r.updated_at == now
                &&& r.completed_at is None
            }
        }),
{
    snapshot_is_found(db, id, vm_id);
}

/// A snapshot is in the state that is told, and keeps what is not told; it is complete once it
/// is ready or has failed. Only that snapshot changes, and only that one is removed.
pub proof fn a_snapshot_is_followed(
    db: DatabaseView,
    id: Seq<char>,
    state: SnapshotState,
    disk_path: Option<Seq<char>>,
    size_bytes: Option<u64>,
    metadata: Option<Json>,
    now: Timestamp,
    i: int,
)
    requires
        0 <= i < db.snapshots.len(),
        db.snapshots[i].id == id,
        forall|j: int|
            0 <= j < db.snapshots.len() && (#[trigger] db.snapshots[j]).id == id ==> j == i,
        size_bytes is Some ==> size_bytes->0 <= i64::MAX,
    ensures
        ({
            let m = db.snapshots[i];
            let done = update_snapshot_spec(db, id, state, disk_path, size_bytes, metadata, now);
            let gone = delete_snapshot_spec(db, id);
            let r = done->Ok_0.1;
            &&& done is Ok
            &&& done->Ok_0.0 == (DatabaseView { snapshots: db.snapshots.update(i, r), ..db })
            &&& r == (SnapshotView {
                state,
                disk_path: r.disk_path,
                size_bytes: r.size_bytes,
                metadata: r.metadata,
                updated_at: now,
                completed_at: r.completed_at,
                ..m
            })
            &&& r.disk_path == (if disk_path is Some {
                disk_path
            } else {
                m.disk_path
            })
            &&& r.size_bytes == (if size_bytes is Some {
                size_bytes
            } else {
                m.size_bytes
            })
            &&& takes(metadata, m.metadata, r.metadata)
            &&& state == SnapshotState::Ready || state == SnapshotState::Error ==> r.completed_at
                == Some(now)
            &&& state != SnapshotState::Ready && state != SnapshotState::Error ==> r.completed_at
                == m.completed_at
            &&& gone is Ok
            &&& gone->Ok_0.0 == (DatabaseView { snapshots: gone->Ok_0.0.snapshots, ..db })
            &&& forall|s: SnapshotView| #[trigger]
                gone->Ok_0.0.snapshots.contains(s) <==> db.snapshots.contains(s) && s.id != id
        }),
{
    let p = snapshot_with_id(id);
    first_is_first(db.snapshots, p);
    assert(p(db.snapshots[i]));
    let f = snapshot_in_state(state, disk_path, size_bytes, metadata, now);
    assert(revised(db.snapshots, p, f) =~= db.snapshots.update(i, f(db.snapshots[i])));
    assert forall|s: SnapshotView| #[trigger]
        others(db.snapshots, p).contains(s) <==> db.snapshots.contains(s) && s.id != id by {
        others_has(db.snapshots, p, s);
    }
}

/// A snapshot that is not there is neither changed nor removed.
pub proof fn without_a_snapshot_all_is_refused(
    db: DatabaseView,
    id: Seq<char>,
    state: SnapshotState,
    disk_path: Option<Seq<char>>,
    size_bytes: Option<u64>,
    metadata: Option<Json>,
    now: Timestamp,
)
    requires
        !is_snapshot(db, id),
    ensures
        is_refused(
            update_snapshot_spec(db, id, state, disk_path, size_bytes, metadata, now),
            db,
        ),
        is_refused(delete_snapshot_spec(db, id), db),
{
    snapshot_is_found(db, id, Seq::empty());
}

/// An entry of the audit trail says what it is told, when and under the next number.
pub open spec fn is_entry_of(
    r: AuditEventView,
    db: DatabaseView,
    event: NewAuditEventView,
    now: Timestamp,
) -> bool {
    &&& r.id == db.last_audit_id + 1
    &&& r.occurred_at == now
    &&& r.actor_type == event.actor_type
    &&& r.actor_id == event.actor_id
    &&& r.action == event.action
    &&& r.resource_type == event.resource_type
    &&& r.resource_id == event.resource_id
    &&& r.request_id == event.request_id
    &&& r.source_ip == event.source_ip
    &&& r.user_agent == event.user_agent
    &&& r.success == event.success
    &&& r.details == event.details
}

/// An entry is appended to the audit trail as it is told, where it says what was done to what
/// kind of thing and where a number is left; else nothing changes.
pub proof fn an_entry_is_appended(db: DatabaseView, event: NewAuditEventView, now: Timestamp)
    ensures
        ({
            let fit = trim_spec(event.action).len() > 0 && trim_spec(event.resource_type).len() > 0
                && db.last_audit_id < i64::MAX;
            let done = append_audit_spec(db, event, now);
            &&& !fit ==> is_refused(done, db)
            &&& fit ==> {
                let r = done->Ok_0.1;
                &&& done is Ok
                &&& is_entry_of(r, db, event, now)
                &&& done->Ok_0.0 == (DatabaseView {
                    audit: db.audit.push(r),
                    last_audit_id: r.id,
                    ..db
                })
            }
        }),
{
}

/// The end of an update is audited once: an entry is appended, and the request and its outcome
/// are remembered. The same outcome again changes nothing; another outcome is refused.
pub proof fn the_end_of_an_update_is_audited(
    db: DatabaseView,
    request_id: Seq<char>,
    outcome: Seq<char>,
    event: NewAuditEventView,
    now: Timestamp,
)
    requires
        uuid_value(request_id) is Some,
        outcome == "succeeded"@ || outcome == "failed"@ || outcome == "rolled_back"@ || outcome
            == "needs_intervention"@,
        trim_spec(event.action).len() > 0,
        trim_spec(event.resource_type).len() > 0,
        event.resource_id == Some(request_id),
        event.request_id == Some(request_id),
        event.success == (outcome == "succeeded"@),
        db.last_audit_id < i64::MAX,
        forall|i: int, j: int|
            0 <= i < db.imports.len() && 0 <= j < db.imports.len() && (
            #[trigger] db.imports[i]).request_id == (#[trigger] db.imports[j]).request_id ==> i
                == j,
    ensures
        ({
            let done = import_spec(db, request_id, outcome, event, now);
            &&& (forall|k: int|
                0 <= k < db.imports.len() ==> (#[trigger] db.imports[k]).request_id != request_id)
                ==> {
                let after = done->Ok_0.0;
                &&& done is Ok
                &&& done->Ok_0.1
                &&& is_entry_of(after.audit.last(), db, event, now)
                &&& after == (DatabaseView {
                    audit: db.audit.push(after.audit.last()),
                    last_audit_id: after.audit.last().id,
                    imports: db.imports.push(
                        ImportRowView { request_id, outcome, imported_at: now },
                    ),
                    ..db
                })
            }
            &&& forall|k: int|
                0 <= k < db.imports.len() && (#[trigger] db.imports[k]).request_id == request_id
                    ==> (if db.imports[k].outcome == outcome {
                    done == Ok::<(DatabaseView, bool), AppErrorView>((db, false))
                } else {
                    is_refused(done, db)
                })
        }),
{
    let p = import_of(request_id);
    first_is_first(db.imports, p);
    assert forall|k: int|
        0 <= k < db.imports.len() && (#[trigger] db.imports[k]).request_id == request_id implies (
    if db.imports[k].outcome == outcome {
        import_spec(db, request_id, outcome, event, now) == Ok::<
            (DatabaseView, bool),
            AppErrorView,
        >((db, false))
    } else {
        is_refused(import_spec(db, request_id, outcome, event, now), db)
    }) by {
        assert(p(db.imports[k]));
        let f = first(db.imports, p)->0;
        assert(db.imports[f].request_id == db.imports[k].request_id);
    }
}

/// An end of an update that is none, or that the entry does not go with, is refused.
pub proof fn only_the_end_of_an_update_is_audited(
    db: DatabaseView,
    request_id: Seq<char>,
    outcome: Seq<char>,
    event: NewAuditEventView,
    now: Timestamp,
)
    requires
        uuid_value(request_id) is None || (outcome != "succeeded"@ && outcome != "failed"@
            && outcome != "rolled_back"@ && outcome != "needs_intervention"@) || event.resource_id
            != Some(request_id) || event.request_id != Some(request_id) || event.success != (
        outcome == "succeeded"@),
    ensures
        is_refused(import_spec(db, request_id, outcome, event, now), db),
{
}

/// A setting gets a value: the row with its key takes it, or a row with it is entered last.
/// One who is said to have changed it must be there, and a blank key is refused.
pub proof fn a_setting_gets_a_value(
    db: DatabaseView,
    key: Seq<char>,
    value: Json,
    encrypted: bool,
    updated_by: Option<Seq<char>>,
    now: Timestamp,
    i: Option<int>,
)
    requires
        i is Some ==> 0 <= i->0 < db.settings.len() && db.settings[i->0].key == key,
        forall|j: int|
            0 <= j < db.settings.len() && (#[trigger] db.settings[j]).key == key ==> i == Some(j),
    ensures
        ({
            let fit = trim_spec(key).len() > 0 && (updated_by is Some ==> is_admin(
                db,
                updated_by->0,
            ));
            let row = SettingRecordView { key, value, encrypted, updated_by, updated_at: now };
            let done = set_setting_spec(db, key, value, encrypted, updated_by, now);
            &&& !fit ==> is_refused(done, db)
            &&& fit ==> done == Ok::<(DatabaseView, SettingRecordView), AppErrorView>(
                (
                    DatabaseView {
                        settings: if i is Some {
                            db.settings.update(i->0, row)
                        } else {
                            db.settings.push(row)
                        },
                        ..db
                    },
                    row,
                ),
            )
        }),
{
    if updated_by is Some {
        let id = updated_by->0;
        let p = admin_with_id(id);
        first_is_first(db.admins, p);
        if is_admin(db, id) {
            let a = choose|a: int|
                0 <= a < db.admins.len() && (#[trigger] db.admins[a]).admin.id == id;
            assert(p(db.admins[a]));
        }
        if any(db.admins, p) {
            assert(db.admins[first(db.admins, p)->0].admin.id == id);
        }
    }
    let q = setting_with_key(key);
    first_is_first(db.settings, q);
    if i is Some {
        assert(q(db.settings[i->0]));
        let row = SettingRecordView { key, value, encrypted, updated_by, updated_at: now };
        assert(revised(db.settings, q, with_value(value, encrypted, updated_by, now))
            =~= db.settings.update(i->0, row));
    }
}

/// A setting is found by its key; with a key go exactly the settings that have it.
pub proof fn settings_are_found_and_removed(
    rows: Seq<SettingRecordView>,
    key: Seq<char>,
    m: SettingRecordView,
)
    ensures
        find(rows, setting_with_key(key)) is Some <==> exists|k: int|
            0 <= k < rows.len() && (#[trigger] rows[k]).key == key,
        find(rows, setting_with_key(key)) is Some ==> find(rows, setting_with_key(key))->0.key == key
            && rows.contains(find(rows, setting_with_key(key))->0),
        others(rows, setting_with_key(key)).contains(m) <==> rows.contains(m) && m.key != key,
        count(rows, setting_with_key(key)) > 0 <==> exists|k: int|
            0 <= k < rows.len() && (#[trigger] rows[k]).key == key,
{
    let p = setting_with_key(key);
    first_is_first(rows, p);
    others_has(rows, p, m);
    count_is_any(rows, p);
    if any(rows, p) {
        assert(rows[first(rows, p)->0].key == key);
    }
    if exists|k: int| 0 <= k < rows.len() && (#[trigger] rows[k]).key == key {
        let k = choose|k: int| 0 <= k < rows.len() && (#[trigger] rows[k]).key == key;
        assert(p(rows[k]));
    }
}

/// An image is entered as it is told, or replaces the one with its identifier and keeps when
/// that one was entered. One without an identifier gets a new one; one without a time of
/// entry is entered now.
pub proof fn an_image_is_entered(
    db: DatabaseView,
    image: IsoImageView,
    new_id: Seq<char>,
    now: Timestamp,
    i: Option<int>,
)
    requires
        ({
            let id = if trim_spec(image.id).len() == 0 {
                new_id
            } else {
                image.id
            };
            &&& i is Some ==> 0 <= i->0 < db.isos.len() && db.isos[i->0].id == id
            &&& forall|j: int|
                0 <= j < db.isos.len() && (#[trigger] db.isos[j]).id == id ==> i == Some(j)
        }),
    ensures
        ({
            let fit = trim_spec(image.slug).len() > 0 && trim_spec(image.name).len() > 0 && (
            image.source_url is Some || image.local_path is Some) && (image.size_bytes is Some
                ==> image.size_bytes->0 <= i64::MAX);
            let done = upsert_iso_spec(db, image, new_id, now);
            &&& !fit ==> is_refused(done, db)
            &&& fit ==> {
                let r = done->Ok_0.1;
                &&& done is Ok
                &&& r == (IsoImageView {
                    id: r.id,
                    slug: trim_spec(image.slug),
                    name: trim_spec(image.name),
                    created_at: r.created_at,
                    updated_at: now,
                    ..image
                })
                &&& trim_spec(image.id).len() == 0 ==> r.id == new_id
                &&& trim_spec(image.id).len() > 0 ==> r.id == image.id
                &&& i is Some ==> r.created_at == db.isos[i->0].created_at
                &&& i is None && image.created_at > 0 ==> r.created_at == image.created_at
                &&& i is None && image.created_at <= 0 ==> r.created_at == now
                &&& done->Ok_0.0 == (DatabaseView {
                    isos: if i is Some {
                        db.isos.update(i->0, r)
                    } else {
                        db.isos.push(r)
                    },
                    ..db
                })
            }
        }),
{
    let id = if trim_spec(image.id).len() == 0 {
        new_id
    } else {
        image.id
    };
    let p = iso_with_id(id);
    first_is_first(db.isos, p);
    if i is Some {
        assert(p(db.isos[i->0]));
        let row = IsoImageView {
            id,
            slug: trim_spec(image.slug),
            name: trim_spec(image.name),
            created_at: if image.created_at <= 0 {
                now
            } else {
                image.created_at
            },
            updated_at: now,
            ..image
        };
        assert(revised(db.isos, p, reentered_iso(row)) =~= db.isos.update(
            i->0,
            reentered_iso(row)(db.isos[i->0]),
        ));
    }
}

/// An image is found by its identifier or by its short name, whatever the case, and so it is
/// removed; one that is not there is refused.
pub proof fn an_image_is_removed(db: DatabaseView, id_or_slug: Seq<char>)
    ensures
        ({
            let there = exists|k: int|
                0 <= k < db.isos.len() && ((#[trigger] db.isos[k]).id == id_or_slug
                    || equal_ignoring_case(db.isos[k].slug, id_or_slug));
            let done = delete_iso_spec(db, id_or_slug);
            &&& find(db.isos, iso_called(id_or_slug)) is Some <==> there
            &&& there ==> {
                let m = find(db.isos, iso_called(id_or_slug))->0;
                &&& db.isos.contains(m)
                &&& m.id == id_or_slug || equal_ignoring_case(m.slug, id_or_slug)
            }
            &&& !there ==> is_refused(done, db)
            &&& there ==> {
                &&& done is Ok
                &&& done->Ok_0.0 == (DatabaseView { isos: done->Ok_0.0.isos, ..db })
                &&& forall|m: IsoImageView| #[trigger]
                    done->Ok_0.0.isos.contains(m) <==> db.isos.contains(m) && m.id != id_or_slug
                        && !equal_ignoring_case(m.slug, id_or_slug)
            }
        }),
{
    let p = iso_called(id_or_slug);
    first_is_first(db.isos, p);
    if any(db.isos, p) {
        let k = first(db.isos, p)->0;
        assert(db.isos[k].id == id_or_slug || equal_ignoring_case(db.isos[k].slug, id_or_slug));
    }
    if exists|k: int|
        0 <= k < db.isos.len() && ((#[trigger] db.isos[k]).id == id_or_slug || equal_ignoring_case(
            db.isos[k].slug,
            id_or_slug,
        )) {
        let k = choose|k: int|
            0 <= k < db.isos.len() && ((#[trigger] db.isos[k]).id == id_or_slug
                || equal_ignoring_case(db.isos[k].slug, id_or_slug));
        assert(p(db.isos[k]));
    }
    assert forall|m: IsoImageView| #[trigger]
        others(db.isos, p).contains(m) <==> db.isos.contains(m) && m.id != id_or_slug
            && !equal_ignoring_case(m.slug, id_or_slug) by {
        others_has(db.isos, p, m);
    }
}

proof fn addresses_in_usual_form(addresses: Seq<Seq<char>>)
    ensures
        canonical_ips(addresses) is Ok <==> forall|i: int|
            0 <= i < addresses.len() ==> canonical_ip_spec(#[trigger] addresses[i]) is Ok,
        canonical_ips(addresses) is Ok ==> {
            &&& canonical_ips(addresses)->Ok_0.len() == addresses.len()
            &&& forall|i: int|
                0 <= i < addresses.len() ==> (#[trigger] canonical_ips(addresses)->Ok_0[i])
                    == canonical_ip_spec(addresses[i])->Ok_0
        },
    decreases addresses.len(),
{
    if addresses.len() > 0 {
        let front = addresses.drop_last();
        addresses_in_usual_form(front);
        let n = addresses.len() - 1;
        assert(addresses[n] == addresses.last());
        if forall|i: int|
            0 <= i < addresses.len() ==> canonical_ip_spec(#[trigger] addresses[i]) is Ok {
            assert forall|i: int| 0 <= i < front.len() implies canonical_ip_spec(
                #[trigger] front[i],
            ) is Ok by {
                assert(front[i] == addresses[i]);
            }
        }
        if canonical_ips(addresses) is Ok {
            assert forall|i: int| 0 <= i < addresses.len() implies canonical_ip_spec(
                #[trigger] addresses[i],
            ) is Ok by {
                if i < n {
                    assert(front[i] == addresses[i]);
                }
            }
            assert forall|i: int| 0 <= i < addresses.len() implies (
            #[trigger] canonical_ips(addresses)->Ok_0[i]) == canonical_ip_spec(addresses[i])->Ok_0 by {
                if i < n {
                    assert(front[i] == addresses[i]);
                    assert(canonical_ips(front)->Ok_0[i] == canonical_ip_spec(front[i])->Ok_0);
                }
            }
        }
    }
}

/// What the host is replaces what was known of it, with its addresses in their usual form and
/// in their order. A host without processors or without a port, an address that cannot be
/// read, and a size that the tables cannot hold are refused.
pub proof fn what_the_host_is(db: DatabaseView, inventory: HostInventoryView)
    ensures
        ({
            let fit = inventory.cpu_cores > 0 && inventory.listen_port > 0 && (forall|i: int|
                0 <= i < inventory.detected_addresses.len() ==> canonical_ip_spec(
                    #[trigger] inventory.detected_addresses[i],
                ) is Ok) && inventory.memory_total_bytes <= i64::MAX
                && inventory.root_disk_total_bytes <= i64::MAX;
            let done = upsert_inventory_spec(db, inventory);
            &&& !fit ==> is_refused(done, db)
            &&& fit ==> {
                let r = done->Ok_0.0.inventory->0;
                &&& done is Ok
                &&& done->Ok_0.0 == (DatabaseView { inventory: Some(r), ..db })
                &&& r == (HostInventoryView {
                    detected_addresses: r.detected_addresses,
                    ..inventory
                })
                &&& r.detected_addresses.len() == inventory.detected_addresses.len()
                &&& forall|i: int|
                    0 <= i < r.detected_addresses.len() ==> (#[trigger] r.detected_addresses[i])
                        == canonical_ip_spec(inventory.detected_addresses[i])->Ok_0
            }
        }),
{
    addresses_in_usual_form(inventory.detected_addresses);
}

/// The numbers of a measurement of the host are within what the tables hold.
pub open spec fn host_numbers_fit(m: HostMetricView) -> bool {
    &&& m.memory_total_bytes <= i64::MAX
    &&& m.memory_used_bytes <= i64::MAX
    &&& m.swap_total_bytes <= i64::MAX
    &&& m.swap_used_bytes <= i64::MAX
    &&& m.disk_total_bytes <= i64::MAX
    &&& m.disk_used_bytes <= i64::MAX
    &&& m.network_rx_bytes <= i64::MAX
    &&& m.network_tx_bytes <= i64::MAX
    &&& m.uptime_seconds <= i64::MAX
}

/// The numbers of a measurement of a machine are within what the tables hold.
pub open spec fn machine_numbers_fit(m: VmMetricView) -> bool {
    &&& m.memory_used_bytes <= i64::MAX
    &&& m.memory_total_bytes <= i64::MAX
    &&& m.disk_read_bytes <= i64::MAX
    &&& m.disk_write_bytes <= i64::MAX
    &&& m.network_rx_bytes <= i64::MAX
    &&& m.network_tx_bytes <= i64::MAX
    &&& m.traffic_used_bytes <= i64::MAX
    &&& m.traffic_limit_bytes is Some ==> m.traffic_limit_bytes->0 <= i64::MAX
}

/// A measurement of the host is kept as it is; one of the same time is replaced by it.
pub proof fn a_measurement_of_the_host_is_kept(
    db: DatabaseView,
    m: HostMetricView,
    i: Option<int>,
)
    requires
        i is Some ==> 0 <= i->0 < db.host_metrics.len() && db.host_metrics[i->0].sampled_at
            == m.sampled_at,
        forall|j: int|
            0 <= j < db.host_metrics.len() && (#[trigger] db.host_metrics[j]).sampled_at
                == m.sampled_at ==> i == Some(j),
    ensures
        !host_numbers_fit(m) ==> is_refused(insert_host_metric_spec(db, m), db),
        host_numbers_fit(m) ==> insert_host_metric_spec(db, m) == Ok::<
            (DatabaseView, ()),
            AppErrorView,
        >(
            (
                DatabaseView {
                    host_metrics: if i is Some {
                        db.host_metrics.update(i->0, m)
                    } else {
                        db.host_metrics.push(m)
                    },
                    ..db
                },
                (),
            ),
        ),
{
    let p = host_at(m.sampled_at);
    first_is_first(db.host_metrics, p);
    if i is Some {
        assert(p(db.host_metrics[i->0]));
        assert(revised(db.host_metrics, p, replaced_by(m)) =~= db.host_metrics.update(i->0, m));
    }
}

/// A measurement of a machine is kept as it is; one of the same machine and time is replaced
/// by it. The machine has then used the traffic that was measured, and its time does not go
/// back. A machine that is not there is refused.
pub proof fn a_measurement_of_a_machine_is_kept(
    db: DatabaseView,
    m: VmMetricView,
    i: Option<int>,
    k: int,
)
    requires
        i is Some ==> 0 <= i->0 < db.vm_metrics.len() && db.vm_metrics[i->0].vm_id == m.vm_id
            && db.vm_metrics[i->0].sampled_at == m.sampled_at,
        forall|j: int|
            0 <= j < db.vm_metrics.len() && (#[trigger] db.vm_metrics[j]).vm_id == m.vm_id
                && db.vm_metrics[j].sampled_at == m.sampled_at ==> i == Some(j),
        0 <= k < db.vms.len(),
    ensures
        ({
            let fit = machine_numbers_fit(m) && is_machine_of(db, m.vm_id);
            let done = insert_vm_metric_spec(db, m);
            &&& !fit ==> is_refused(done, db)
            &&& fit ==> {
                let after = done->Ok_0.0;
                &&& done is Ok
                &&& after == (DatabaseView {
                    vm_metrics: if i is Some {
                        db.vm_metrics.update(i->0, m)
                    } else {
                        db.vm_metrics.push(m)
                    },
                    vms: after.vms,
                    ..db
                })
                &&& after.vms.len() == db.vms.len()
                &&& after.vms[k] == (if db.vms[k].vm.id == m.vm_id {
                    VmRowView {
                        vm: VmView {
                            traffic_used_bytes: m.traffic_used_bytes,
                            updated_at: if m.sampled_at > db.vms[k].vm.updated_at {
                                m.sampled_at
                            } else {
                                db.vms[k].vm.updated_at
                            },
                            ..db.vms[k].vm
                        },
                        ..db.vms[k]
                    }
                } else {
                    db.vms[k]
                })
            }
        }),
{
    snapshot_is_found(db, Seq::empty(), m.vm_id);
    let p = vm_at(m.vm_id, m.sampled_at);
    first_is_first(db.vm_metrics, p);
    if i is Some {
        assert(p(db.vm_metrics[i->0]));
        assert(revised(db.vm_metrics, p, replaced_by(m)) =~= db.vm_metrics.update(i->0, m));
    }
}

/// Exactly the measurements from before a time are removed.
pub proof fn old_measurements_are_removed(
    db: DatabaseView,
    before: Timestamp,
    h: HostMetricView,
    v: VmMetricView,
)
    ensures
        others(db.host_metrics, host_before(before)).contains(h) <==> db.host_metrics.contains(h)
            && h.sampled_at >= before,
        others(db.vm_metrics, vm_before(before)).contains(v) <==> db.vm_metrics.contains(v)
            && v.sampled_at >= before,
{
    others_has(db.host_metrics, host_before(before), h);
    others_has(db.vm_metrics, vm_before(before), v);
}

/// The last time of a window is the time of a row in it, and no row in it is later.
pub proof fn the_last_is_the_latest<M>(
    rows: Seq<M>,
    p: spec_fn(M) -> bool,
    t: spec_fn(M) -> Timestamp,
)
    ensures
        latest_of(rows, p, t) is None <==> forall|k: int|
            0 <= k < rows.len() ==> !p(#[trigger] rows[k]),
        latest_of(rows, p, t) is Some ==> {
            &&& exists|k: int|
                0 <= k < rows.len() && p(#[trigger] rows[k]) && t(rows[k]) == latest_of(
                    rows,
                    p,
                    t,
                )->0
            &&& forall|k: int|
                0 <= k < rows.len() && p(#[trigger] rows[k]) ==> t(rows[k]) <= latest_of(
                    rows,
                    p,
                    t,
                )->0
        },
    decreases rows.len(),
{
    if rows.len() > 0 {
        let front = rows.drop_last();
        let n = rows.len() - 1;
        the_last_is_the_latest(front, p, t);
        assert(rows[n] == rows.last());
        assert forall|k: int| 0 <= k < n implies #[trigger] rows[k] == front[k] by {}
        let best = latest_of(front, p, t);
        if best is Some {
            let k = choose|k: int|
                0 <= k < front.len() && p(#[trigger] front[k]) && t(front[k]) == best->0;
            assert(rows[k] == front[k]);
        }
        assert forall|k: int| 0 <= k < front.len() implies #[trigger] front[k] == rows[k] by {}
    }
}

/// A point of a chart of the host stands for its stretch of time: it is in the window, and no
/// measurement of the same stretch is later.
pub proof fn a_point_is_the_last_of_its_stretch(
    rows: Seq<HostMetricView>,
    since: Timestamp,
    bucket: int,
    m: HostMetricView,
)
    requires
        rows.contains(m),
        bucket >= 1,
    ensures
        matching(rows, stands_for(rows, host_since(since), host_time(), since, bucket)).contains(m)
            <==> m.sampled_at >= since && forall|k: int|
            0 <= k < rows.len() && (#[trigger] rows[k]).sampled_at > m.sampled_at ==> (
            rows[k].sampled_at - since) / bucket != (m.sampled_at - since) / bucket,
{
    let p = host_since(since);
    let q = later_in_stretch(p, host_time(), since, bucket, m.sampled_at);
    matching_has(rows, stands_for(rows, p, host_time(), since, bucket), m);
    first_is_first(rows, q);
    if any(rows, q) {
        let k = first(rows, q)->0;
        assert(rows[k].sampled_at > m.sampled_at);
    }
    if m.sampled_at >= since && exists|k: int|
        0 <= k < rows.len() && (#[trigger] rows[k]).sampled_at > m.sampled_at && (rows[k].sampled_at
            - since) / bucket == (m.sampled_at - since) / bucket {
        let k = choose|k: int|
            0 <= k < rows.len() && (#[trigger] rows[k]).sampled_at > m.sampled_at && (
            rows[k].sampled_at - since) / bucket == (m.sampled_at - since) / bucket;
        assert(q(rows[k]));
    }
}

/// The stretches of a chart are the shortest with which the window has no more of them than
/// points are asked for.
pub proof fn stretches_are_as_short_as_can_be(
    since: Timestamp,
    latest: Timestamp,
    limit: int,
)
    requires
        latest >= since,
        limit >= 1,
        latest - since + limit <= i64::MAX,
    ensures
        ({
            let bucket = bucket_of(since, Some(latest), limit);
            &&& bucket >= 1
            &&& bucket * limit >= latest - since + 1
            &&& bucket > 1 ==> (bucket - 1) * limit < latest - since + 1
        }),
{
    let span: int = latest - since + 1;
    let bucket = bucket_of(since, Some(latest), limit);
    assert(bucket == larger((span + limit - 1) / limit, 1));
    let q = (span + limit - 1) / limit;
    assert(q * limit <= span + limit - 1 < q * limit + limit) by (nonlinear_arith)
        requires
            limit >= 1,
            q == (span + limit - 1) / limit,
    ;
    assert(q >= 1) by (nonlinear_arith)
        requires
            limit >= 1,
            span >= 1,
            span + limit - 1 < q * limit + limit,
    ;
    assert((q - 1) * limit == q * limit - limit) by (nonlinear_arith);
}

} // verus!
