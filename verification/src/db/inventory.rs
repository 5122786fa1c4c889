//! What the inventory of addresses is for: an address goes to one machine at a time, a barred
//! one to none, and ranges do not overlap. Stated over the fields of the rows.

use vstd::prelude::*;

use crate::db::rows::{
    DnsServerView, IpAbuseRecordView, IpAddressRecordView, IpBlacklistEntryView,
    IpBlacklistPatchView, IpPoolView, IpScope, IpStatus, NewIpAbuseRecordView, NewIpAddressView,
    NewIpBlacklistEntryView, NewIpPoolView, Timestamp,
};
use crate::db::store::{vm_with_id, DatabaseView};
use crate::db::addresses::{
    address_called, address_is, address_with_id, assign_spec, assigned_rows, delete_address_spec,
    pool_fault, release_spec, set_status_spec, unassigned, upsert_spec, usage_is_assignment,
    used_address,
};
use crate::db::blacklist::{
    abuse_with_id, blacklisted_spec, create_entry_spec, delete_entry_spec, entry_called,
    entry_with_id, patch_entry_spec, patched_entry, record_abuse_spec, resolve_abuse_spec, resolved,
};
use crate::db::keys::{
    addresses_are_distinct, id_of_abuse, id_of_address, id_of_entry, id_of_pool, text_of_address,
};
use crate::db::pools::{
    address_in_pool, create_pool_spec, delete_pool_spec, delete_pool_with_addresses_spec,
    dns_of_pool, overlap_fault, pool_with_id, protected_in_pool,
};
use crate::db::queue::is_machine_of;
use crate::db::rotation::is_refused;
use crate::db::settings::{dns_rows, dns_scope, replace_dns_spec};
use crate::error::AppErrorView;
use crate::net::{
    dns_addresses, ip_text, ip_value, net_text, net_value, overlap, overlap_is_a_common_address,
    truncation_keeps_the_network, AddressFamily, Ip, Net,
};
use crate::table::{any, distinct_by, find, first, first_is_first, others, others_has, revised};
use crate::text::trim_spec;

verus! {

broadcast use vstd::string::group_string_axioms;

/// Every stored network can be read, and each entry has the family of its network.
pub open spec fn entries_are_sound(entries: Seq<IpBlacklistEntryView>) -> bool {
    forall|i: int|
        0 <= i < entries.len() ==> net_value((#[trigger] entries[i]).cidr) is Some && (
        entries[i].family == AddressFamily::V6 <==> net_value(entries[i].cidr)->0.ip.v6)
}

/// Some entry at any position is enabled, has not expired, and its network holds the address.
pub open spec fn is_barred(entries: Seq<IpBlacklistEntryView>, ip: Ip, at: Timestamp) -> bool {
    exists|i: int|
        0 <= i < entries.len() && (#[trigger] entries[i]).enabled && (entries[i].expires_at is None
            || entries[i].expires_at->0 > at) && net_value(entries[i].cidr)->0.covers(ip)
}

/// An address is barred exactly where some entry, at any position, is enabled, has not
/// expired, and holds it.
pub proof fn any_entry_bars_an_address(
    entries: Seq<IpBlacklistEntryView>,
    ip: Ip,
    at: Timestamp,
)
    requires
        entries_are_sound(entries),
    ensures
        blacklisted_spec(entries, ip, at) == Ok::<bool, AppErrorView>(is_barred(entries, ip, at)),
    decreases entries.len(),
{
    if entries.len() > 0 {
        let rest = entries.drop_first();
        assert forall|i: int| 0 <= i < rest.len() implies net_value((#[trigger] rest[i]).cidr)
            is Some && (rest[i].family == AddressFamily::V6 <==> net_value(rest[i].cidr)->0.ip.v6) by {
            assert(rest[i] == entries[i + 1]);
        }
        any_entry_bars_an_address(rest, ip, at);
        assert(net_value(entries[0].cidr) is Some);
        if is_barred(rest, ip, at) {
            let i = choose|i: int|
                0 <= i < rest.len() && (#[trigger] rest[i]).enabled && (rest[i].expires_at is None
                    || rest[i].expires_at->0 > at) && net_value(rest[i].cidr)->0.covers(ip);
            assert(entries[i + 1] == rest[i]);
        }
        if is_barred(entries, ip, at) {
            let i = choose|i: int|
                0 <= i < entries.len() && (#[trigger] entries[i]).enabled && (entries[i].expires_at
                    is None || entries[i].expires_at->0 > at) && net_value(
                    entries[i].cidr,
                )->0.covers(ip);
            if i > 0 {
                assert(rest[i - 1] == entries[i]);
            }
        }
    }
}

/// An address of the inventory: its row, which no identifier is mistaken for.
pub open spec fn holds_address(
    rows: Seq<IpAddressRecordView>,
    i: int,
    address: Seq<char>,
    ip: Ip,
) -> bool {
    &&& addresses_are_distinct(rows)
    &&& ip_value(trim_spec(address)) == Some(ip)
    &&& ip_value(ip_text(ip)) == Some(ip)
    &&& 0 <= i < rows.len()
    &&& rows[i].address == ip_text(ip)
    &&& forall|j: int| 0 <= j < rows.len() ==> (#[trigger] rows[j]).id != ip_text(ip)
}

/// The range of an address may be used: there is none, or it is there and enabled.
pub open spec fn range_is_open(db: DatabaseView, pool_id: Option<Seq<char>>) -> bool {
    pool_id is None || exists|k: int|
        0 <= k < db.ip_pools.len() && (#[trigger] db.ip_pools[k]).id == pool_id->0
            && db.ip_pools[k].enabled
}

proof fn the_row_is_found(rows: Seq<IpAddressRecordView>, i: int, address: Seq<char>, ip: Ip)
    requires
        holds_address(rows, i, address, ip),
    ensures
        first(rows, address_called(ip_text(ip))) == Some(i),
        first(rows, address_is(ip_text(ip))) == Some(i),
        forall|j: int|
            0 <= j < rows.len() && (#[trigger] rows[j]).address == ip_text(ip) ==> j == i,
{
    let p = address_called(ip_text(ip));
    let q = address_is(ip_text(ip));
    first_is_first(rows, p);
    first_is_first(rows, q);
    assert(p(rows[i]) && q(rows[i]));
    assert forall|j: int| 0 <= j < rows.len() && (#[trigger] rows[j]).address == ip_text(
        ip,
    ) implies j == i by {
        assert(text_of_address()(rows[j]) == text_of_address()(rows[i]));
    }
}

/// An address that another machine has, or that is not free for any other reason, is not
/// assigned; nor is one that is barred or whose range is closed. Then nothing changes.
pub proof fn only_a_free_address_is_assigned(
    db: DatabaseView,
    address: Seq<char>,
    ip: Ip,
    i: int,
    vm_id: Seq<char>,
    primary: bool,
    now: Timestamp,
)
    requires
        holds_address(db.ip_addresses, i, address, ip),
        entries_are_sound(db.ip_blacklist),
        distinct_by(db.ip_pools, id_of_pool()),
        db.ip_addresses[i].assigned_vm_id != Some(vm_id),
    ensures
        db.ip_addresses[i].status != IpStatus::Free ==> is_refused(
            assign_spec(db, address, vm_id, primary, now),
            db,
        ),
        usage_is_assignment(db.ip_addresses) && db.ip_addresses[i].assigned_vm_id is Some
            ==> is_refused(assign_spec(db, address, vm_id, primary, now), db),
        is_barred(db.ip_blacklist, ip, now) ==> is_refused(
            assign_spec(db, address, vm_id, primary, now),
            db,
        ),
        !range_is_open(db, db.ip_addresses[i].pool_id) ==> is_refused(
            assign_spec(db, address, vm_id, primary, now),
            db,
        ),
{
    the_row_is_found(db.ip_addresses, i, address, ip);
    any_entry_bars_an_address(db.ip_blacklist, ip, now);
    ranges_are_found(db, db.ip_addresses[i].pool_id);
}

proof fn ranges_are_found(db: DatabaseView, pool_id: Option<Seq<char>>)
    requires
        distinct_by(db.ip_pools, id_of_pool()),
    ensures
        pool_id is Some ==> (range_is_open(db, pool_id) <==> (find(
            db.ip_pools,
            pool_with_id(pool_id->0),
        ) matches Some(m) && m.enabled)),
{
    if pool_id is Some {
        let p = pool_with_id(pool_id->0);
        first_is_first(db.ip_pools, p);
        if any(db.ip_pools, p) {
            let k = first(db.ip_pools, p)->0;
            assert(db.ip_pools[k].id == pool_id->0);
            assert forall|j: int|
                0 <= j < db.ip_pools.len() && (#[trigger] db.ip_pools[j]).id
                    == pool_id->0 implies j == k by {
                assert(id_of_pool()(db.ip_pools[j]) == id_of_pool()(db.ip_pools[k]));
            }
        } else if range_is_open(db, pool_id) {
            let k = choose|k: int|
                0 <= k < db.ip_pools.len() && (#[trigger] db.ip_pools[k]).id == pool_id->0
                    && db.ip_pools[k].enabled;
            assert(!p(db.ip_pools[k]));
        }
    }
}

/// A free address of an open range that is not barred goes to the machine that asks for it,
/// and one that the machine has already stays with it. A new primary address takes the place
/// of the primary address of its family; no other address changes.
pub proof fn a_free_address_goes_to_the_machine(
    db: DatabaseView,
    address: Seq<char>,
    ip: Ip,
    i: int,
    vm_id: Seq<char>,
    primary: bool,
    now: Timestamp,
)
    requires
        holds_address(db.ip_addresses, i, address, ip),
        entries_are_sound(db.ip_blacklist),
        distinct_by(db.ip_pools, id_of_pool()),
        is_machine_of(db, vm_id),
        db.ip_addresses[i].assigned_vm_id == Some(vm_id) || db.ip_addresses[i].status
            == IpStatus::Free && range_is_open(db, db.ip_addresses[i].pool_id) && !is_barred(
            db.ip_blacklist,
            ip,
            now,
        ),
    ensures
        assign_spec(db, address, vm_id, primary, now) matches Ok(done) && done.1 == (
        IpAddressRecordView {
            status: IpStatus::Used,
            assigned_vm_id: Some(vm_id),
            primary_for_vm: primary,
            updated_at: now,
            ..db.ip_addresses[i]
        }) && done.0 == (DatabaseView { ip_addresses: done.0.ip_addresses, ..db })
            && done.0.ip_addresses.len() == db.ip_addresses.len() && done.0.ip_addresses[i]
            == done.1 && (forall|j: int|
            0 <= j < db.ip_addresses.len() && j != i ==> #[trigger] done.0.ip_addresses[j] == (
            if primary && db.ip_addresses[j].assigned_vm_id == Some(vm_id)
                && db.ip_addresses[j].family == db.ip_addresses[i].family {
                IpAddressRecordView {
                    primary_for_vm: false,
                    updated_at: now,
                    ..db.ip_addresses[j]
                }
            } else {
                db.ip_addresses[j]
            })),
{
    let rows = db.ip_addresses;
    the_row_is_found(rows, i, address, ip);
    any_entry_bars_an_address(db.ip_blacklist, ip, now);
    ranges_are_found(db, rows[i].pool_id);
    let q = vm_with_id(vm_id);
    first_is_first(db.vms, q);
    let k = choose|k: int| 0 <= k < db.vms.len() && (#[trigger] db.vms[k]).vm.id == vm_id;
    assert(q(db.vms[k]));
    let text = ip_text(ip);
    let after = assigned_rows(rows, text, vm_id, primary, rows[i].family, now);
    assert(after.len() == rows.len());
    assert forall|j: int| 0 <= j < rows.len() implies (#[trigger] after[j]).address
        == rows[j].address && after[j].id == rows[j].id by {}
    first_is_first(after, address_called(text));
    assert(address_called(text)(after[i]));
    let found = first(after, address_called(text))->0;
    assert(after[found].address == text || after[found].id == text);
    assert(rows[found].id != text);
    assert(found == i);
}

/// An address that is in use is released to be free again, and no other address changes;
/// one that is not in use cannot be released.
pub proof fn a_used_address_is_released(
    db: DatabaseView,
    address: Seq<char>,
    ip: Ip,
    i: int,
    now: Timestamp,
)
    requires
        holds_address(db.ip_addresses, i, address, ip),
    ensures
        db.ip_addresses[i].status != IpStatus::Used ==> (release_spec(
            db,
            address,
            now,
        ) matches Err(e) && e is Conflict),
        db.ip_addresses[i].status == IpStatus::Used ==> (release_spec(
            db,
            address,
            now,
        ) matches Ok(done) && done.1 == (IpAddressRecordView {
            status: IpStatus::Free,
            assigned_vm_id: None,
            primary_for_vm: false,
            updated_at: now,
            ..db.ip_addresses[i]
        }) && done.0 == (DatabaseView {
            ip_addresses: db.ip_addresses.update(i, done.1),
            ..db
        })),
{
    let rows = db.ip_addresses;
    let text = ip_text(ip);
    the_row_is_found(rows, i, address, ip);
    let p = used_address(text);
    first_is_first(rows, p);
    if rows[i].status == IpStatus::Used {
        assert(p(rows[i]));
        let after = revised(rows, p, unassigned(IpStatus::Free, now));
        assert(after =~= rows.update(i, after[i]));
        first_is_first(after, address_called(text));
        assert(address_called(text)(after[i]));
        let found = first(after, address_called(text))->0;
        assert(after[found].address == text || after[found].id == text);
        assert(rows[found].id != text);
    } else if any(rows, p) {
        let k = first(rows, p)->0;
        assert(rows[k].address == text);
    }
}

/// The status of an address is set, and with it the address belongs to no machine; only an
/// assignment puts it to use, and the host's own address keeps its status.
pub proof fn a_status_releases_the_address(
    db: DatabaseView,
    address: Seq<char>,
    ip: Ip,
    i: int,
    status: IpStatus,
    now: Timestamp,
)
    requires
        holds_address(db.ip_addresses, i, address, ip),
    ensures
        status == IpStatus::Used || (db.ip_addresses[i].status == IpStatus::Main && status
            != IpStatus::Main) ==> set_status_spec(db, address, status, now) is Err,
        status != IpStatus::Used && (db.ip_addresses[i].status == IpStatus::Main ==> status
            == IpStatus::Main) ==> (set_status_spec(db, address, status, now) matches Ok(done)
            && done.1 == (IpAddressRecordView {
            status,
            assigned_vm_id: None,
            primary_for_vm: false,
            updated_at: now,
            ..db.ip_addresses[i]
        }) && done.0 == (DatabaseView {
            ip_addresses: db.ip_addresses.update(i, done.1),
            ..db
        })),
{
    let rows = db.ip_addresses;
    let text = ip_text(ip);
    the_row_is_found(rows, i, address, ip);
    let after = revised(rows, address_is(text), unassigned(status, now));
    assert(after =~= rows.update(i, after[i]));
    first_is_first(after, address_called(text));
    assert(address_called(text)(after[i]));
    let found = first(after, address_called(text))->0;
    assert(after[found].address == text || after[found].id == text);
    assert(rows[found].id != text);
}

/// An address is removed where it is neither assigned nor the host's own, by its text or its
/// identifier; every other address stays.
pub proof fn an_idle_address_is_removed(db: DatabaseView, i: int)
    requires
        addresses_are_distinct(db.ip_addresses),
        0 <= i < db.ip_addresses.len(),
        forall|j: int, k: int|
            0 <= j < db.ip_addresses.len() && 0 <= k < db.ip_addresses.len() ==> (
            #[trigger] db.ip_addresses[j]).id != (#[trigger] db.ip_addresses[k]).address,
    ensures
        ({
            let m = db.ip_addresses[i];
            let by_text = delete_address_spec(db, m.address);
            let by_id = delete_address_spec(db, m.id);
            &&& by_text == by_id
            &&& m.status == IpStatus::Main || m.assigned_vm_id is Some ==> (by_text matches Err(e)
                && e is Conflict)
            &&& m.status != IpStatus::Main && m.assigned_vm_id is None ==> (by_text matches Ok(
                done,
            ) && done.0 == (DatabaseView { ip_addresses: done.0.ip_addresses, ..db }) && (forall|
                n: IpAddressRecordView,
            | #[trigger]
                done.0.ip_addresses.contains(n) <==> db.ip_addresses.contains(n) && n.id != m.id))
        }),
{
    let rows = db.ip_addresses;
    let m = rows[i];
    let p = address_called(m.address);
    let q = address_called(m.id);
    first_is_first(rows, p);
    first_is_first(rows, q);
    assert(p(rows[i]) && q(rows[i]));
    let a = first(rows, p)->0;
    let b = first(rows, q)->0;
    assert(rows[a].address == m.address || rows[a].id == m.address);
    assert(rows[a].id != rows[i].address);
    assert(text_of_address()(rows[a]) == text_of_address()(rows[i]));
    assert(rows[b].address == m.id || rows[b].id == m.id);
    assert(rows[i].id != rows[b].address);
    assert(id_of_address()(rows[b]) == id_of_address()(rows[i]));
    assert(a == i && b == i);
    assert forall|n: IpAddressRecordView| #[trigger]
        others(rows, address_with_id(m.id)).contains(n) <==> rows.contains(n) && n.id != m.id by {
        others_has(rows, address_with_id(m.id), n);
    }
}

/// An address that is not in the inventory is entered as it was asked for, for no machine;
/// an address that a machine has cannot be entered anew, nor can one be entered as in use.
pub proof fn an_address_is_entered_for_no_machine(
    db: DatabaseView,
    spec: NewIpAddressView,
    ip: Ip,
    id: Seq<char>,
    now: Timestamp,
)
    requires
        ip_value(spec.address) == Some(ip),
        spec.gateway is None,
        spec.pool_id is None,
        spec.prefix_length <= (if ip.v6 {
            128int
        } else {
            32
        }),
    ensures
        spec.status == IpStatus::Used ==> upsert_spec(db, spec, false, id, now) is Err,
        (exists|j: int|
            0 <= j < db.ip_addresses.len() && (#[trigger] db.ip_addresses[j]).address == ip_text(ip)
                && (db.ip_addresses[j].assigned_vm_id is Some || db.ip_addresses[j].status
                == IpStatus::Used)) && addresses_are_distinct(db.ip_addresses) && (forall|j: int|
            0 <= j < db.ip_addresses.len() ==> (#[trigger] db.ip_addresses[j]).id != ip_text(ip))
            ==> upsert_spec(db, spec, false, id, now) is Err,
        spec.status != IpStatus::Used && (forall|j: int|
            0 <= j < db.ip_addresses.len() ==> (#[trigger] db.ip_addresses[j]).address != ip_text(
                ip,
            ) && db.ip_addresses[j].id != ip_text(ip) && db.ip_addresses[j].id != id) ==> (
        upsert_spec(db, spec, false, id, now) matches Ok(done) && done.0 == (DatabaseView {
            ip_addresses: db.ip_addresses.push(done.1),
            ..db
        }) && done.1 == (IpAddressRecordView {
            id,
            pool_id: None,
            address: ip_text(ip),
            family: if ip.v6 {
                AddressFamily::V6
            } else {
                AddressFamily::V4
            },
            prefix_length: spec.prefix_length,
            scope: spec.scope,
            status: spec.status,
            gateway: None,
            assigned_vm_id: None,
            primary_for_vm: false,
            reverse_dns: spec.reverse_dns,
            metadata: spec.metadata,
            created_at: now,
            updated_at: now,
        })),
{
    let rows = db.ip_addresses;
    let text = ip_text(ip);
    first_is_first(rows, address_called(text));
    first_is_first(rows, address_is(text));
    first_is_first(rows, address_with_id(id));
    if exists|j: int|
        0 <= j < rows.len() && (#[trigger] rows[j]).address == text && (rows[j].assigned_vm_id
            is Some || rows[j].status == IpStatus::Used) {
        let j = choose|j: int|
            0 <= j < rows.len() && (#[trigger] rows[j]).address == text && (rows[j].assigned_vm_id
                is Some || rows[j].status == IpStatus::Used);
        assert(address_called(text)(rows[j]));
        let k = first(rows, address_called(text))->0;
        assert(rows[k].address == text || rows[k].id == text);
        if addresses_are_distinct(rows) && rows[k].address == text {
            assert(text_of_address()(rows[j]) == text_of_address()(rows[k]));
        }
    }
}

/// An address that is entered for a range belongs to it: the range is there, has its family
/// and scope and holds it, and the prefix of the address is no broader.
pub proof fn an_address_lies_in_its_range(
    db: DatabaseView,
    spec: NewIpAddressView,
    id: Seq<char>,
    now: Timestamp,
)
    requires
        spec.pool_id is Some,
    ensures
        upsert_spec(db, spec, false, id, now) matches Ok(done) ==> exists|k: int|
            0 <= k < db.ip_pools.len() && (#[trigger] db.ip_pools[k]).id == spec.pool_id->0
                && db.ip_pools[k].scope == spec.scope && db.ip_pools[k].family == done.1.family
                && (net_value(db.ip_pools[k].cidr) matches Some(net) && (ip_value(
                spec.address,
            ) matches Some(ip) && net.covers(ip)) && net.prefix <= spec.prefix_length)
                && done.1.pool_id == spec.pool_id && done.1.assigned_vm_id is None
                && done.1.status == spec.status && done.1.status != IpStatus::Used,
{
    let done = upsert_spec(db, spec, false, id, now);
    if done is Ok {
        let p = pool_with_id(spec.pool_id->0);
        first_is_first(db.ip_pools, p);
        let k = first(db.ip_pools, p)->0;
        assert(db.ip_pools[k].id == spec.pool_id->0);
    }
}

/// Every stored range can be read.
pub open spec fn ranges_are_sound(pools: Seq<IpPoolView>) -> bool {
    forall|i: int|
        0 <= i < pools.len() ==> (net_value((#[trigger] pools[i]).cidr) matches Some(net)
            && net.wf())
}

/// Some stored range has an address in common with a network.
pub open spec fn is_taken(pools: Seq<IpPoolView>, net: Net) -> bool {
    exists|i: int, ip: Ip|
        #![trigger pools[i], net.covers(ip)]
        0 <= i < pools.len() && ip.wf() && net.covers(ip) && net_value(pools[i].cidr)->0.covers(ip)
}

proof fn taken_ranges_are_refused(pools: Seq<IpPoolView>, net: Net)
    requires
        ranges_are_sound(pools),
        net.wf(),
    ensures
        overlap_fault(pools, net) is Some <==> is_taken(pools, net),
    decreases pools.len(),
{
    if pools.len() > 0 {
        let rest = pools.drop_first();
        assert forall|i: int| 0 <= i < rest.len() implies (net_value(
            (#[trigger] rest[i]).cidr,
        ) matches Some(n) && n.wf()) by {
            assert(rest[i] == pools[i + 1]);
        }
        taken_ranges_are_refused(rest, net);
        let other = net_value(pools[0].cidr)->0;
        assert(net_value(pools[0].cidr) is Some && other.wf());
        overlap_is_a_common_address(net, other);
        if overlap(net, other) {
            let ip = choose|ip: Ip| ip.wf() && #[trigger] net.covers(ip) && other.covers(ip);
            assert(pools[0].cidr == pools[0].cidr && net.covers(ip));
        }
        if is_taken(rest, net) {
            let (i, ip) = choose|i: int, ip: Ip|
                #![trigger rest[i], net.covers(ip)]
                0 <= i < rest.len() && ip.wf() && net.covers(ip) && net_value(
                    rest[i].cidr,
                )->0.covers(ip);
            assert(pools[i + 1] == rest[i] && net.covers(ip));
        }
        if is_taken(pools, net) {
            let (i, ip) = choose|i: int, ip: Ip|
                #![trigger pools[i], net.covers(ip)]
                0 <= i < pools.len() && ip.wf() && net.covers(ip) && net_value(
                    pools[i].cidr,
                )->0.covers(ip);
            if i > 0 {
                assert(rest[i - 1] == pools[i] && net.covers(ip));
            } else {
                assert(net.covers(ip) && other.covers(ip));
            }
        }
    }
}

/// A range is entered only where no stored range has an address in common with it, and where
/// its gateway, if it has one, lies in it; then it is entered as it was asked for.
pub proof fn ranges_do_not_overlap(
    db: DatabaseView,
    spec: NewIpPoolView,
    net: Net,
    id: Seq<char>,
    now: Timestamp,
)
    requires
        ranges_are_sound(db.ip_pools),
        net_value(spec.cidr) == Some(net),
        net.wf(),
    ensures
        is_taken(db.ip_pools, net) ==> create_pool_spec(db, spec, id, now) is Err,
        create_pool_spec(db, spec, id, now) matches Ok(done) ==> {
            &&& done.0 == (DatabaseView { ip_pools: db.ip_pools.push(done.1), ..db })
            &&& done.1.id == id && done.1.cidr == net_text(net) && done.1.name == trim_spec(
                spec.name,
            ) && done.1.scope == spec.scope && done.1.enabled == spec.enabled && done.1.bridge
                == spec.bridge && done.1.vlan_id == spec.vlan_id && done.1.mtu == spec.mtu
            &&& (done.1.family == AddressFamily::V6 <==> net.ip.v6)
            &&& done.1.gateway matches Some(text) ==> (ip_value(text) matches Some(ip)
                && net.covers(ip))
        },
        trim_spec(spec.name).len() > 0 && spec.gateway is None && !is_taken(db.ip_pools, net)
            && !(exists|j: int| 0 <= j < db.ip_pools.len() && (#[trigger] db.ip_pools[j]).id == id)
            ==> create_pool_spec(db, spec, id, now) is Ok,
{
    taken_ranges_are_refused(db.ip_pools, net);
    let p = pool_with_id(id);
    first_is_first(db.ip_pools, p);
    if any(db.ip_pools, p) {
        assert(db.ip_pools[first(db.ip_pools, p)->0].id == id);
    }
}

/// A range goes only where nothing hangs on it: without its addresses it is removed where
/// none is stored for it, with them where none of them is assigned or the host's own. Its
/// name servers go with it; other ranges, addresses and name servers stay.
pub proof fn a_range_is_removed_where_nothing_hangs_on_it(db: DatabaseView, id: Seq<char>)
    ensures
        (exists|j: int|
            0 <= j < db.ip_addresses.len() && (#[trigger] db.ip_addresses[j]).pool_id == Some(id))
            ==> delete_pool_spec(db, id) is Err,
        (exists|j: int|
            0 <= j < db.ip_addresses.len() && (#[trigger] db.ip_addresses[j]).pool_id == Some(id)
                && (db.ip_addresses[j].assigned_vm_id is Some || db.ip_addresses[j].status
                == IpStatus::Main)) ==> delete_pool_with_addresses_spec(db, id) is Err,
        delete_pool_spec(db, id) matches Ok(done) ==> done.0.ip_addresses == db.ip_addresses && (
        forall|m: IpPoolView| #[trigger]
            done.0.ip_pools.contains(m) <==> db.ip_pools.contains(m) && m.id != id) && (forall|
            m: DnsServerView,
        | #[trigger]
            done.0.dns_servers.contains(m) <==> db.dns_servers.contains(m) && m.pool_id != Some(id)),
        delete_pool_with_addresses_spec(db, id) matches Ok(done) ==> (forall|
            m: IpAddressRecordView,
        | #[trigger]
            done.0.ip_addresses.contains(m) <==> db.ip_addresses.contains(m) && m.pool_id != Some(
                id,
            )) && (forall|m: IpPoolView| #[trigger]
            done.0.ip_pools.contains(m) <==> db.ip_pools.contains(m) && m.id != id),
        delete_pool_spec(db, id) is Ok || delete_pool_with_addresses_spec(db, id) is Ok
            ==> exists|j: int| 0 <= j < db.ip_pools.len() && (#[trigger] db.ip_pools[j]).id == id,
        (exists|j: int| 0 <= j < db.ip_pools.len() && (#[trigger] db.ip_pools[j]).id == id) && !(
        exists|j: int|
            0 <= j < db.ip_addresses.len() && (#[trigger] db.ip_addresses[j]).pool_id == Some(id))
            ==> delete_pool_spec(db, id) is Ok && delete_pool_with_addresses_spec(db, id) is Ok,
{
    let p = address_in_pool(id);
    let q = protected_in_pool(id);
    let r = pool_with_id(id);
    first_is_first(db.ip_addresses, p);
    first_is_first(db.ip_addresses, q);
    first_is_first(db.ip_pools, r);
    if any(db.ip_pools, r) {
        assert(db.ip_pools[first(db.ip_pools, r)->0].id == id);
    }
    if any(db.ip_addresses, p) {
        assert(db.ip_addresses[first(db.ip_addresses, p)->0].pool_id == Some(id));
    } else {
        assert forall|j: int| 0 <= j < db.ip_addresses.len() implies (
        #[trigger] db.ip_addresses[j]).pool_id != Some(id) by {
            assert(!p(db.ip_addresses[j]));
        }
    }
    if any(db.ip_addresses, q) {
        assert(db.ip_addresses[first(db.ip_addresses, q)->0].pool_id == Some(id));
    } else {
        assert forall|j: int| 0 <= j < db.ip_addresses.len() implies !((
        #[trigger] db.ip_addresses[j]).pool_id == Some(id) && (db.ip_addresses[j].assigned_vm_id
            is Some || db.ip_addresses[j].status == IpStatus::Main)) by {
            assert(!q(db.ip_addresses[j]));
        }
    }
    assert forall|m: IpPoolView| #[trigger]
        others(db.ip_pools, r).contains(m) <==> db.ip_pools.contains(m) && m.id != id by {
        others_has(db.ip_pools, r, m);
    }
    assert forall|m: DnsServerView| #[trigger]
        others(db.dns_servers, dns_of_pool(id)).contains(m) <==> db.dns_servers.contains(m)
            && m.pool_id != Some(id) by {
        others_has(db.dns_servers, dns_of_pool(id), m);
    }
    assert forall|m: IpAddressRecordView| #[trigger]
        others(db.ip_addresses, p).contains(m) <==> db.ip_addresses.contains(m) && m.pool_id
            != Some(id) by {
        others_has(db.ip_addresses, p, m);
    }
}

/// A network is barred as it was asked for, named by its first address; an entry that would
/// have expired already is refused.
pub proof fn a_network_is_barred(
    db: DatabaseView,
    spec: NewIpBlacklistEntryView,
    net: Net,
    id: Seq<char>,
    now: Timestamp,
    ip: Ip,
)
    requires
        net_value(trim_spec(spec.cidr)) == Some(net),
        net.wf(),
        trim_spec(spec.reason).len() > 0,
        trim_spec(spec.source).len() > 0,
        forall|j: int| 0 <= j < db.ip_blacklist.len() ==> (#[trigger] db.ip_blacklist[j]).id != id,
    ensures
        spec.expires_at is Some && spec.expires_at->0 <= now ==> create_entry_spec(
            db,
            spec,
            id,
            now,
        ) is Err,
        spec.expires_at is None || spec.expires_at->0 > now ==> (create_entry_spec(
            db,
            spec,
            id,
            now,
        ) matches Ok(done) && done.0 == (DatabaseView {
            ip_blacklist: db.ip_blacklist.push(done.1),
            ..db
        }) && done.1.id == id && done.1.cidr == net_text(net.truncated()) && done.1.enabled
            == spec.enabled && done.1.expires_at == spec.expires_at && done.1.reason == trim_spec(
            spec.reason,
        ) && done.1.source == trim_spec(spec.source) && (done.1.family == AddressFamily::V6
            <==> net.ip.v6) && net.truncated().covers(ip) == net.covers(ip) && done.1.created_at
            == now && done.1.created_by == spec.created_by && done.1.metadata == spec.metadata),
{
    first_is_first(db.ip_blacklist, entry_with_id(id));
    truncation_keeps_the_network(net, ip);
}

/// An entry is changed where the change says so, and stays what it bars; an entry that is
/// removed is gone, and it alone.
pub proof fn an_entry_keeps_what_it_bars(
    db: DatabaseView,
    i: int,
    patch: IpBlacklistPatchView,
    now: Timestamp,
)
    requires
        distinct_by(db.ip_blacklist, id_of_entry()),
        0 <= i < db.ip_blacklist.len(),
        forall|j: int|
            0 <= j < db.ip_blacklist.len() ==> (#[trigger] db.ip_blacklist[j]).cidr
                != db.ip_blacklist[i].id,
    ensures
        patch_entry_spec(db, db.ip_blacklist[i].id, patch, now) matches Ok(done) ==> {
            let m = db.ip_blacklist[i];
            &&& done.1.id == m.id && done.1.cidr == m.cidr && done.1.family == m.family
                && done.1.created_at == m.created_at && done.1.created_by == m.created_by
            &&& done.1.enabled == (match patch.enabled {
                Some(b) => b,
                None => m.enabled,
            })
            &&& done.1.expires_at == (match patch.expires_at {
                Some(t) => t,
                None => m.expires_at,
            })
            &&& done.0 == (DatabaseView { ip_blacklist: db.ip_blacklist.update(i, done.1), ..db })
        },
        delete_entry_spec(db, db.ip_blacklist[i].id) matches Ok(done) && (forall|
            m: IpBlacklistEntryView,
        | #[trigger]
            done.0.ip_blacklist.contains(m) <==> db.ip_blacklist.contains(m) && m.id
                != db.ip_blacklist[i].id),
{
    let rows = db.ip_blacklist;
    let id = rows[i].id;
    let p = entry_called(id);
    first_is_first(rows, p);
    assert(p(rows[i]));
    let k = first(rows, p)->0;
    assert(rows[k].cidr != id && rows[k].id == id);
    assert(id_of_entry()(rows[k]) == id_of_entry()(rows[i]));
    first_is_first(rows, entry_with_id(id));
    assert(entry_with_id(id)(rows[i]));
    let after = revised(rows, entry_with_id(id), patched_entry(patch, now));
    assert forall|j: int| 0 <= j < rows.len() && j != i implies #[trigger] rows[j].id != id by {
        assert(id_of_entry()(rows[j]) != id_of_entry()(rows[i]));
    }
    assert(after =~= rows.update(i, after[i]));
    assert(rows.update(i, rows[i]) =~= rows);
    assert forall|m: IpBlacklistEntryView| #[trigger]
        others(rows, entry_with_id(id)).contains(m) <==> rows.contains(m) && m.id != id by {
        others_has(rows, entry_with_id(id), m);
    }
}

/// A complaint is entered open, and resolved once with what was done about it: the time of
/// its first resolution stays.
pub proof fn a_complaint_is_entered_and_resolved(
    db: DatabaseView,
    spec: NewIpAbuseRecordView,
    id: Seq<char>,
    resolved_by: Option<Seq<char>>,
    resolution: Seq<char>,
    now: Timestamp,
    i: int,
)
    ensures
        spec.severity < 1 || spec.severity > 10 ==> record_abuse_spec(db, spec, id, now) is Err,
        record_abuse_spec(db, spec, id, now) matches Ok(done) ==> (ip_value(
            trim_spec(spec.address),
        ) matches Some(ip) && done.1.address == ip_text(ip)) && done.0 == (DatabaseView {
            ip_abuse: db.ip_abuse.push(done.1),
            ..db
        }) && done.1.id == id && done.1.vm_id == spec.vm_id && done.1.severity == spec.severity
            && done.1.resolved_at is None && done.1.resolution is None && done.1.reported_at == now
            && done.1.observed_at == (match spec.observed_at {
            Some(t) => t,
            None => now,
        }),
        trim_spec(resolution).len() == 0 ==> resolve_abuse_spec(
            db,
            id,
            resolved_by,
            resolution,
            now,
        ) is Err,
        0 <= i < db.ip_abuse.len() && distinct_by(db.ip_abuse, id_of_abuse()) && db.ip_abuse[i].id
            == id && trim_spec(resolution).len() > 0 ==> (resolve_abuse_spec(
            db,
            id,
            resolved_by,
            resolution,
            now,
        ) matches Ok(done) && done.1 == (IpAbuseRecordView {
            resolved_at: Some(
                match db.ip_abuse[i].resolved_at {
                    Some(t) => t,
                    None => now,
                },
            ),
            resolved_by,
            resolution: Some(trim_spec(resolution)),
            ..db.ip_abuse[i]
        }) && done.0 == (DatabaseView { ip_abuse: db.ip_abuse.update(i, done.1), ..db })),
{
    let rows = db.ip_abuse;
    let p = abuse_with_id(id);
    first_is_first(rows, p);
    if 0 <= i < rows.len() && distinct_by(rows, id_of_abuse()) && rows[i].id == id {
        assert(p(rows[i]));
        let k = first(rows, p)->0;
        assert(id_of_abuse()(rows[k]) == id_of_abuse()(rows[i]));
        let after = revised(rows, p, resolved(resolved_by, resolution, now));
        assert forall|j: int| 0 <= j < rows.len() && j != i implies #[trigger] rows[j].id != id by {
            assert(id_of_abuse()(rows[j]) != id_of_abuse()(rows[i]));
        }
        assert(after =~= rows.update(i, after[i]));
    }
}

/// The name servers of a scope are replaced by the given ones, in their order, and by no
/// other; the name servers of other scopes stay.
pub proof fn name_servers_are_replaced(
    db: DatabaseView,
    pool_id: Option<Seq<char>>,
    vm_id: Option<Seq<char>>,
    addresses: Seq<Seq<char>>,
)
    ensures
        pool_id is Some && vm_id is Some ==> replace_dns_spec(db, pool_id, vm_id, addresses)
            is Err,
        addresses.len() > 32 ==> replace_dns_spec(db, pool_id, vm_id, addresses) is Err,
        replace_dns_spec(db, pool_id, vm_id, addresses) matches Ok(done) ==> {
            let given = dns_addresses(addresses)->Ok_0;
            let kept = done.0.dns_servers.len() - given.len();
            &&& kept >= 0
            &&& forall|i: int|
                0 <= i < given.len() ==> (#[trigger] given[i], done.0.dns_servers[kept + i].address,
                    done.0.dns_servers[kept + i].priority, done.0.dns_servers[kept + i].pool_id,
                    done.0.dns_servers[kept + i].vm_id) == (given[i], given[i], i as i64, pool_id,
                    vm_id)
            &&& forall|m: DnsServerView| #[trigger]
                done.0.dns_servers.take(kept).contains(m) <==> db.dns_servers.contains(m) && !(
                m.pool_id == pool_id && m.vm_id == vm_id)
        },
{
    let done = replace_dns_spec(db, pool_id, vm_id, addresses);
    if done is Ok {
        let given = dns_addresses(addresses)->Ok_0;
        let p = dns_scope(pool_id, vm_id);
        let rest = others(db.dns_servers, p);
        let after = done->Ok_0.0.dns_servers;
        let rows = dns_rows(given, db.last_dns_id, pool_id, vm_id);
        assert(after == rest + rows);
        let kept = after.len() - given.len();
        assert(after.take(kept) =~= rest);
        assert forall|i: int| 0 <= i < given.len() implies (#[trigger] given[i],
            after[kept + i].address, after[kept + i].priority, after[kept + i].pool_id,
            after[kept + i].vm_id) == (given[i], given[i], i as i64, pool_id, vm_id) by {
            assert(after[kept + i] == rows[i]);
        }
        assert forall|m: DnsServerView| #[trigger]
            after.take(kept).contains(m) <==> db.dns_servers.contains(m) && !(m.pool_id == pool_id
                && m.vm_id == vm_id) by {
            others_has(db.dns_servers, p, m);
        }
    }
}

/// An address fits a range exactly where it is of its family and its scope, lies in it, and
/// has no shorter prefix; one that is entered for no range fits, and a range that is not
/// there cannot be named.
pub proof fn which_addresses_fit_a_range(
    pools: Seq<IpPoolView>,
    i: int,
    net: Net,
    ip: Ip,
    scope: IpScope,
    prefix: u8,
    id: Seq<char>,
)
    requires
        0 <= i < pools.len(),
        forall|j: int| 0 <= j < i ==> (#[trigger] pools[j]).id != pools[i].id,
        net_value(pools[i].cidr) == Some(net),
    ensures
        pool_fault(pools, Some(pools[i].id), ip, scope, prefix) is None <==> (pools[i].family
            == AddressFamily::V6 <==> ip.v6) && pools[i].scope == scope && net.covers(ip) && prefix
            >= net.prefix,
        pool_fault(pools, None, ip, scope, prefix) is None,
        (forall|j: int| 0 <= j < pools.len() ==> (#[trigger] pools[j]).id != id) ==> (pool_fault(
            pools,
            Some(id),
            ip,
            scope,
            prefix,
        ) matches Some(e) && e is NotFound),
{
    first_is_first(pools, pool_with_id(pools[i].id));
    assert(pool_with_id(pools[i].id)(pools[i]));
    let at = first(pools, pool_with_id(pools[i].id))->0;
    assert(pools[at].id == pools[i].id);
    assert(at == i);
    first_is_first(pools, pool_with_id(id));
}

} // verus!
