//! Ranges of addresses.

use vstd::prelude::*;

use crate::db::rows::{
    DnsServer, DnsServerView, IpAddressRecord, IpAddressRecordView, IpPool, IpPoolPatch,
    IpPoolPatchView, IpPoolView, IpScope, IpStatus, NewIpPool, NewIpPoolView, Timestamp,
};
use crate::db::store::{
    duplicate_value, earlier, empty_fault, fault_if, fault_of, folded_in_order, folded_le,
    folded_le_orders, option_result, plain_result, row_result, settles, unique_error,
    validate_non_empty, Database, DatabaseView,
};
use crate::db::admins::or_value;
use crate::db::vms::{changed, changed_text};
use crate::error::{conflict, internal, not_found, validation, AppError, AppErrorView, AppResult};
use crate::net::{
    canonical_optional_ip, canonical_optional_ip_spec, contains, family_for_ip, ip_value,
    net_string, net_text, net_value, networks_overlap, overlap, parse_ip, parse_net, AddressFamily,
    Net,
};
use crate::table::{
    all, all_match, any, append, find, list, listing, look_up, model, models, occurs, others,
    remove, revise, revised, select,
};
use crate::text::{copy_option, join3, option_is, same, trim, trim_spec, view_option};

verus! {

broadcast use vstd::string::group_string_axioms;

/// A range with an identifier.
pub open spec fn pool_with_id(id: Seq<char>) -> spec_fn(IpPoolView) -> bool {
    |m: IpPoolView| m.id == id
}

/// The fault of a gateway that is not in its network.
pub open spec fn gateway_fault(net: Net, gateway: Option<Seq<char>>) -> Option<AppErrorView> {
    match gateway {
        None => None,
        Some(text) => match ip_value(text) {
            None => Some(AppErrorView::Validation("gateway is invalid"@)),
            Some(ip) => fault_if(
                !net.covers(ip),
                AppErrorView::Validation("IP pool gateway must be inside its CIDR"@),
            ),
        },
    }
}

/// The fault of a range that overlaps a stored one.
pub open spec fn overlap_fault(pools: Seq<IpPoolView>, net: Net) -> Option<AppErrorView>
    decreases pools.len(),
{
    if pools.len() == 0 {
        None
    } else {
        match net_value(pools[0].cidr) {
            None => Some(AppErrorView::Internal("stored IP pool CIDR is invalid"@)),
            Some(other) => if overlap(net, other) {
                Some(
                    AppErrorView::Conflict(
                        "IP pool "@ + pools[0].cidr + " overlaps an existing range"@,
                    ),
                )
            } else {
                overlap_fault(pools.drop_first(), net)
            },
        }
    }
}

/// A range is entered where it overlaps no other.
pub open spec fn create_pool_spec(
    db: DatabaseView,
    spec: NewIpPoolView,
    id: Seq<char>,
    now: Timestamp,
) -> Result<(DatabaseView, IpPoolView), AppErrorView> {
    match empty_fault("IP pool name"@, spec.name) {
        Some(e) => Err(e),
        None => match net_value(spec.cidr) {
            None => Err(AppErrorView::Validation("IP pool CIDR is invalid"@)),
            Some(net) => match canonical_optional_ip_spec(
                spec.gateway,
                Some(AddressFamily::of(net.ip)),
            ) {
                Err(e) => Err(e),
                Ok(gateway) => match earlier(
                    gateway_fault(net, gateway),
                    overlap_fault(db.ip_pools, net),
                ) {
                    Some(e) => Err(e),
                    None => if any(db.ip_pools, pool_with_id(id)) {
                        Err(unique_error("ip_pools.id"@))
                    } else {
                        let row = IpPoolView {
                            id,
                            name: trim_spec(spec.name),
                            cidr: net_text(net),
                            family: AddressFamily::of(net.ip),
                            scope: spec.scope,
                            gateway,
                            bridge: spec.bridge,
                            vlan_id: spec.vlan_id,
                            mtu: spec.mtu,
                            enabled: spec.enabled,
                            created_at: now,
                            updated_at: now,
                        };
                        Ok((DatabaseView { ip_pools: db.ip_pools.push(row), ..db }, row))
                    },
                },
            },
        },
    }
}

/// The place of a scope in the order of its name.
pub open spec fn scope_rank(s: IpScope) -> int {
    match s {
        IpScope::Private => 0,
        IpScope::Public => 1,
    }
}

/// The number of a family.
pub open spec fn family_rank(f: AddressFamily) -> int {
    match f {
        AddressFamily::V4 => 4,
        AddressFamily::V6 => 6,
    }
}

/// By scope, then family, then name.
pub open spec fn by_scope_and_name() -> spec_fn(IpPoolView, IpPoolView) -> bool {
    |a: IpPoolView, b: IpPoolView|
        scope_rank(a.scope) < scope_rank(b.scope) || (a.scope == b.scope && (family_rank(a.family)
            < family_rank(b.family) || (a.family == b.family && folded_le(a.name, b.name))))
}

/// An optional value, or another one where it is absent.
pub open spec fn or_option<T>(o: Option<T>, other: Option<T>) -> Option<T> {
    match o {
        Some(v) => Some(v),
        None => other,
    }
}

/// A range with a change.
pub open spec fn patched_pool(
    patch: IpPoolPatchView,
    name: Seq<char>,
    gateway: Option<Seq<char>>,
    now: Timestamp,
) -> spec_fn(IpPoolView) -> IpPoolView {
    |m: IpPoolView|
        IpPoolView {
            name,
            scope: or_value(patch.scope, m.scope),
            gateway,
            bridge: or_option(patch.bridge, m.bridge),
            vlan_id: or_option(patch.vlan_id, m.vlan_id),
            mtu: or_value(patch.mtu, m.mtu),
            enabled: or_value(patch.enabled, m.enabled),
            updated_at: now,
            ..m
        }
}

/// A range is changed; its addresses stay what they are.
pub open spec fn patch_pool_spec(
    db: DatabaseView,
    id: Seq<char>,
    patch: IpPoolPatchView,
    now: Timestamp,
) -> Result<(DatabaseView, IpPoolView), AppErrorView> {
    match find(db.ip_pools, pool_with_id(id)) {
        None => Err(AppErrorView::NotFound("IP pool"@)),
        Some(m) => {
            let name = trim_spec(or_value(patch.name, m.name));
            match empty_fault("IP pool name"@, name) {
                Some(e) => Err(e),
                None => match net_value(m.cidr) {
                    None => Err(AppErrorView::Validation("stored IP pool CIDR is invalid"@)),
                    Some(net) => match canonical_optional_ip_spec(
                        or_option(patch.gateway, m.gateway),
                        Some(AddressFamily::of(net.ip)),
                    ) {
                        Err(e) => Err(e),
                        Ok(gateway) => match earlier(
                            gateway_fault(net, gateway),
                            fault_if(
                                !(576 <= or_value(patch.mtu, m.mtu) <= 9216),
                                AppErrorView::Validation("MTU must be between 576 and 9216"@),
                            ),
                        ) {
                            Some(e) => Err(e),
                            None => {
                                let change = patched_pool(patch, name, gateway, now);
                                Ok(
                                    (
                                        DatabaseView {
                                            ip_pools: revised(
                                                db.ip_pools,
                                                pool_with_id(id),
                                                change,
                                            ),
                                            ..db
                                        },
                                        change(m),
                                    ),
                                )
                            },
                        },
                    },
                },
            }
        },
    }
}

/// An address of a range.
pub open spec fn address_in_pool(id: Seq<char>) -> spec_fn(IpAddressRecordView) -> bool {
    |m: IpAddressRecordView| m.pool_id == Some(id)
}

/// An address of a range that is assigned or belongs to the host.
pub open spec fn protected_in_pool(id: Seq<char>) -> spec_fn(IpAddressRecordView) -> bool {
    |m: IpAddressRecordView|
        m.pool_id == Some(id) && (m.status == IpStatus::Used || m.status == IpStatus::Main
            || m.assigned_vm_id is Some)
}

/// A name server of a range.
pub open spec fn dns_of_pool(id: Seq<char>) -> spec_fn(DnsServerView) -> bool {
    |m: DnsServerView| m.pool_id == Some(id)
}

/// A range and its name servers are removed where it has no addresses.
pub open spec fn delete_pool_spec(db: DatabaseView, id: Seq<char>) -> Result<
    (DatabaseView, ()),
    AppErrorView,
> {
    if any(db.ip_addresses, address_in_pool(id)) {
        Err(
            AppErrorView::Conflict("remove the pool's explicit addresses before deleting it"@),
        )
    } else if !any(db.ip_pools, pool_with_id(id)) {
        Err(AppErrorView::NotFound("IP pool"@))
    } else {
        Ok(
            (
                DatabaseView {
                    ip_pools: others(db.ip_pools, pool_with_id(id)),
                    dns_servers: others(db.dns_servers, dns_of_pool(id)),
                    ..db
                },
                (),
            ),
        )
    }
}

/// A range, its addresses and its name servers are removed where none of the addresses is
/// assigned or belongs to the host.
pub open spec fn delete_pool_with_addresses_spec(db: DatabaseView, id: Seq<char>) -> Result<
    (DatabaseView, ()),
    AppErrorView,
> {
    if any(db.ip_addresses, protected_in_pool(id)) {
        Err(AppErrorView::Conflict("pool contains an assigned or host-owned address"@))
    } else if !any(db.ip_pools, pool_with_id(id)) {
        Err(AppErrorView::NotFound("IP pool"@))
    } else {
        Ok(
            (
                DatabaseView {
                    ip_addresses: others(db.ip_addresses, address_in_pool(id)),
                    ip_pools: others(db.ip_pools, pool_with_id(id)),
                    dns_servers: others(db.dns_servers, dns_of_pool(id)),
                    ..db
                },
                (),
            ),
        )
    }
}

/// Refuses a gateway that is not in its network.
fn check_gateway(net: Net, gateway: &Option<String>) -> (r: AppResult<()>)
    requires
        net.wf(),
    ensures
        fault_of(r) == gateway_fault(net, view_option(*gateway)),
{
    match gateway {
        None => Ok(()),
        Some(text) => match parse_ip(text.as_str()) {
            None => Err(validation("gateway is invalid")),
            Some(ip) => {
                if !contains(net, ip) {
                    Err(validation("IP pool gateway must be inside its CIDR"))
                } else {
                    Ok(())
                }
            },
        },
    }
}

fn scope_place(s: IpScope) -> (r: u8)
    ensures
        r == scope_rank(s),
{
    match s {
        IpScope::Private => 0,
        IpScope::Public => 1,
    }
}

fn family_place(f: AddressFamily) -> (r: u8)
    ensures
        r == family_rank(f),
{
    match f {
        AddressFamily::V4 => 4,
        AddressFamily::V6 => 6,
    }
}

impl Database {
    pub(crate) fn find_pool(&self, id: &str) -> (r: Option<IpPool>)
        ensures
            model(r) == find(self@.ip_pools, pool_with_id(id@)),
    {
        let test = |x: &IpPool| -> (b: bool)
            ensures
                b == pool_with_id(id@)(x@),
            { same(x.id.as_str(), id) };
        look_up(&self.ip_pools, test, Ghost(pool_with_id(id@)))
    }

    /// Refuses a range that overlaps a stored one.
    #[verifier::loop_isolation(false)]
    fn check_overlap(&self, net: Net) -> (r: AppResult<()>)
        requires
            net.wf(),
        ensures
            fault_of(r) == overlap_fault(self@.ip_pools, net),
    {
        let ghost ps = self@.ip_pools;
        let mut i: usize = 0;
        proof {
            assert(ps.skip(0) =~= ps);
        }
        while i < self.ip_pools.len()
            invariant
                i <= self.ip_pools@.len(),
                overlap_fault(ps, net) == overlap_fault(ps.skip(i as int), net),
            decreases self.ip_pools@.len() - i,
        {
            proof {
                assert(ps.skip(i as int)[0] == self.ip_pools@[i as int]@);
                assert(ps.skip(i as int).drop_first() =~= ps.skip(i as int + 1));
            }
            let stored = self.ip_pools[i].cidr.as_str();
            match parse_net(stored) {
                None => {
                    return Err(internal("stored IP pool CIDR is invalid"));
                },
                Some(other) => {
                    if networks_overlap(net, other) {
                        return Err(
                            AppError::Conflict(
                                join3("IP pool ", stored, " overlaps an existing range"),
                            ),
                        );
                    }
                },
            }
            i = i + 1;
        }
        Ok(())
    }

    /// Enters a range of addresses.
    pub fn create_ip_pool(&mut self, spec: &NewIpPool, id: &str, now: Timestamp) -> (r: AppResult<
        IpPool,
    >)
        ensures
            settles(
                create_pool_spec(old(self)@, spec@, id@, now),
                old(self)@,
                final(self)@,
                row_result(r),
            ),
            pools_are_disjoint(old(self)@.ip_pools) ==> pools_are_disjoint(final(self)@.ip_pools),
    {
        let ghost before = self@;
        match validate_non_empty("IP pool name", spec.name.as_str()) {
            Err(e) => {
                return Err(e);
            },
            Ok(v) => v,
        };
        let net = match parse_net(spec.cidr.as_str()) {
            None => {
                return Err(validation("IP pool CIDR is invalid"));
            },
            Some(net) => net,
        };
        let family = family_for_ip(net.ip);
        let gateway = match canonical_optional_ip(&spec.gateway, Some(family)) {
            Err(e) => {
                return Err(e);
            },
            Ok(v) => v,
        };
        match check_gateway(net, &gateway) {
            Err(e) => {
                return Err(e);
            },
            Ok(v) => v,
        };
        match self.check_overlap(net) {
            Err(e) => {
                return Err(e);
            },
            Ok(v) => v,
        };
        let test = |x: &IpPool| -> (b: bool)
            ensures
                b == pool_with_id(id@)(x@),
            { same(x.id.as_str(), id) };
        if occurs(&self.ip_pools, test, Ghost(pool_with_id(id@))) {
            return Err(duplicate_value("ip_pools.id"));
        }
        let row = IpPool {
            id: id.to_owned(),
            name: trim(spec.name.as_str()),
            cidr: net_string(net),
            family,
            scope: spec.scope,
            gateway,
            bridge: copy_option(&spec.bridge),
            vlan_id: spec.vlan_id,
            mtu: spec.mtu,
            enabled: spec.enabled,
            created_at: now,
            updated_at: now,
        };
        let shown = row.clone();
        append(&mut self.ip_pools, row);
        proof {
            if pools_are_disjoint(before.ip_pools) {
                new_range_is_disjoint(before, spec@, id@, now);
            }
        }
        Ok(shown)
    }

    /// All ranges by scope, then family, then name.
    pub fn list_ip_pools(&self) -> (r: AppResult<Vec<IpPool>>)
        ensures
            r is Ok,
            listing(
                models(r->Ok_0@),
                self@.ip_pools,
                by_scope_and_name(),
                self@.ip_pools.len() as int,
            ),
    {
        let test = |x: &IpPool| -> (b: bool)
            ensures
                b == all::<IpPoolView>()(x@),
            { true };
        let rows = select(&self.ip_pools, test, Ghost(all()));
        proof {
            all_match(self@.ip_pools);
            folded_le_orders();
        }
        let le = |a: &IpPool, c: &IpPool| -> (b: bool)
            ensures
                b == by_scope_and_name()(a@, c@),
            { {
            let (p, q) = (scope_place(a.scope), scope_place(c.scope));
            let (s, t) = (family_place(a.family), family_place(c.family));
            p < q || (p == q && (s < t || (s == t && folded_in_order(
                a.name.as_str(),
                c.name.as_str(),
            ))))
        } };
        let n: usize = rows.len();
        Ok(list(rows, le, n, Ghost(by_scope_and_name())))
    }

    /// The range with an identifier.
    pub fn get_ip_pool(&self, id: &str) -> (r: AppResult<Option<IpPool>>)
        ensures
            option_result(r) == Ok::<Option<IpPoolView>, AppErrorView>(
                find(self@.ip_pools, pool_with_id(id@)),
            ),
    {
        Ok(self.find_pool(id))
    }

    /// Changes a range.
    pub fn patch_ip_pool(&mut self, id: &str, patch: &IpPoolPatch, now: Timestamp) -> (r: AppResult<
        IpPool,
    >)
        ensures
            settles(
                patch_pool_spec(old(self)@, id@, patch@, now),
                old(self)@,
                final(self)@,
                row_result(r),
            ),
    {
        let current = match self.find_pool(id) {
            None => {
                return Err(not_found("IP pool"));
            },
            Some(row) => row,
        };
        let name = trim(changed_text(&patch.name, &current.name).as_str());
        match validate_non_empty("IP pool name", name.as_str()) {
            Err(e) => {
                return Err(e);
            },
            Ok(v) => v,
        };
        let net = match parse_net(current.cidr.as_str()) {
            None => {
                return Err(validation("stored IP pool CIDR is invalid"));
            },
            Some(net) => net,
        };
        let wanted = changed_presence(&patch.gateway, &current.gateway);
        let gateway = match canonical_optional_ip(&wanted, Some(family_for_ip(net.ip))) {
            Err(e) => {
                return Err(e);
            },
            Ok(v) => v,
        };
        match check_gateway(net, &gateway) {
            Err(e) => {
                return Err(e);
            },
            Ok(v) => v,
        };
        let mtu: u32 = changed(patch.mtu, current.mtu);
        if !(576 <= mtu && mtu <= 9216) {
            return Err(validation("MTU must be between 576 and 9216"));
        }
        let ghost f = patched_pool(patch@, name@, view_option(gateway), now);
        let chosen = |x: &IpPool| -> (b: bool)
            ensures
                b == pool_with_id(id@)(x@),
            { same(x.id.as_str(), id) };
        let change = |x: &IpPool| -> (y: IpPool)
            ensures
                y@ == f(x@),
            { IpPool {
            id: x.id.clone(),
            name: name.clone(),
            cidr: x.cidr.clone(),
            family: x.family,
            scope: changed(patch.scope, x.scope),
            gateway: copy_option(&gateway),
            bridge: changed_presence(&patch.bridge, &x.bridge),
            vlan_id: match patch.vlan_id {
                Some(v) => Some(v),
                None => x.vlan_id,
            },
            mtu: changed(patch.mtu, x.mtu),
            enabled: changed(patch.enabled, x.enabled),
            created_at: x.created_at,
            updated_at: now,
        } };
        let shown = change(&current);
        let _ = revise(&mut self.ip_pools, chosen, change, Ghost(pool_with_id(id@)), Ghost(f));
        Ok(shown)
    }

    /// Removes a range without addresses.
    pub fn delete_ip_pool(&mut self, id: &str) -> (r: AppResult<()>)
        ensures
            settles(delete_pool_spec(old(self)@, id@), old(self)@, final(self)@, plain_result(r)),
    {
        let inside = |x: &IpAddressRecord| -> (b: bool)
            ensures
                b == address_in_pool(id@)(x@),
            { option_is(&x.pool_id, id) };
        if occurs(&self.ip_addresses, inside, Ghost(address_in_pool(id@))) {
            return Err(conflict("remove the pool's explicit addresses before deleting it"));
        }
        let chosen = |x: &IpPool| -> (b: bool)
            ensures
                b == pool_with_id(id@)(x@),
            { same(x.id.as_str(), id) };
        if !occurs(&self.ip_pools, chosen, Ghost(pool_with_id(id@))) {
            return Err(not_found("IP pool"));
        }
        let dns = |x: &DnsServer| -> (b: bool)
            ensures
                b == dns_of_pool(id@)(x@),
            { option_is(&x.pool_id, id) };
        let _ = remove(&mut self.ip_pools, chosen, Ghost(pool_with_id(id@)));
        let _ = remove(&mut self.dns_servers, dns, Ghost(dns_of_pool(id@)));
        Ok(())
    }

    /// Removes a range and its addresses, none of which is assigned or belongs to the host.
    pub fn delete_ip_pool_with_unassigned_addresses(&mut self, id: &str) -> (r: AppResult<()>)
        ensures
            settles(
                delete_pool_with_addresses_spec(old(self)@, id@),
                old(self)@,
                final(self)@,
                plain_result(r),
            ),
    {
        let held = |x: &IpAddressRecord| -> (b: bool)
            ensures
                b == protected_in_pool(id@)(x@),
            {
                option_is(&x.pool_id, id)
                    && (x.status == IpStatus::Used
                        || x.status == IpStatus::Main
                        || x.assigned_vm_id.is_some())
            };
        if occurs(&self.ip_addresses, held, Ghost(protected_in_pool(id@))) {
            return Err(conflict("pool contains an assigned or host-owned address"));
        }
        let chosen = |x: &IpPool| -> (b: bool)
            ensures
                b == pool_with_id(id@)(x@),
            { same(x.id.as_str(), id) };
        if !occurs(&self.ip_pools, chosen, Ghost(pool_with_id(id@))) {
            return Err(not_found("IP pool"));
        }
        let inside = |x: &IpAddressRecord| -> (b: bool)
            ensures
                b == address_in_pool(id@)(x@),
            { option_is(&x.pool_id, id) };
        let dns = |x: &DnsServer| -> (b: bool)
            ensures
                b == dns_of_pool(id@)(x@),
            { option_is(&x.pool_id, id) };
        let _ = remove(&mut self.ip_addresses, inside, Ghost(address_in_pool(id@)));
        let _ = remove(&mut self.ip_pools, chosen, Ghost(pool_with_id(id@)));
        let _ = remove(&mut self.dns_servers, dns, Ghost(dns_of_pool(id@)));
        Ok(())
    }
}

/// An optional text, or another one where it is absent.
pub fn changed_presence(o: &Option<String>, other: &Option<String>) -> (r: Option<String>)
    ensures
        view_option(r) == or_option(view_option(*o), view_option(*other)),
{
    match o {
        Some(v) => Some(v.clone()),
        None => copy_option(other),
    }
}

/// The stored ranges are networks, and no two of them have an address in common.
pub open spec fn pools_are_disjoint(pools: Seq<IpPoolView>) -> bool {
    &&& forall|i: int| 0 <= i < pools.len() ==> net_value((#[trigger] pools[i]).cidr) is Some
    &&& forall|i: int, j: int|
        0 <= i < j < pools.len() ==> !overlap(
            net_value((#[trigger] pools[i]).cidr)->0,
            net_value((#[trigger] pools[j]).cidr)->0,
        )
}

proof fn no_overlap_fault(pools: Seq<IpPoolView>, net: Net)
    requires
        overlap_fault(pools, net) is None,
    ensures
        forall|i: int|
            0 <= i < pools.len() ==> net_value((#[trigger] pools[i]).cidr) is Some && !overlap(
                net,
                net_value(pools[i].cidr)->0,
            ),
    decreases pools.len(),
{
    if pools.len() > 0 {
        no_overlap_fault(pools.drop_first(), net);
        assert forall|i: int| 0 <= i < pools.len() implies net_value((#[trigger] pools[i]).cidr)
            is Some && !overlap(net, net_value(pools[i].cidr)->0) by {
            if i > 0 {
                assert(pools.drop_first()[i - 1] == pools[i]);
            }
        }
    }
}

/// A range that is entered overlaps no other; its text writes its network again.
proof fn new_range_is_disjoint(
    db: DatabaseView,
    spec: NewIpPoolView,
    id: Seq<char>,
    now: Timestamp,
)
    requires
        pools_are_disjoint(db.ip_pools),
        net_value(spec.cidr) is Some ==> net_value(net_text(net_value(spec.cidr)->0)) == net_value(
            spec.cidr,
        ),
    ensures
        create_pool_spec(db, spec, id, now) matches Ok(done) ==> pools_are_disjoint(
            done.0.ip_pools,
        ),
{
    if create_pool_spec(db, spec, id, now) is Ok {
        let net = net_value(spec.cidr)->0;
        no_overlap_fault(db.ip_pools, net);
        let after = create_pool_spec(db, spec, id, now)->Ok_0.0.ip_pools;
        assert forall|i: int, j: int| 0 <= i < j < after.len() implies !overlap(
            net_value((#[trigger] after[i]).cidr)->0,
            net_value((#[trigger] after[j]).cidr)->0,
        ) by {
            assert(after[i] == db.ip_pools[i]);
            if j < db.ip_pools.len() {
                assert(after[j] == db.ip_pools[j]);
            }
        }
        assert forall|i: int| 0 <= i < after.len() implies net_value((#[trigger] after[i]).cidr)
            is Some by {
            if i < db.ip_pools.len() {
                assert(after[i] == db.ip_pools[i]);
            }
        }
    }
}

/// Ranges stay disjoint under a change, which moves none of them.
pub proof fn a_change_moves_no_range(
    db: DatabaseView,
    id: Seq<char>,
    patch: IpPoolPatchView,
    now: Timestamp,
)
    requires
        pools_are_disjoint(db.ip_pools),
    ensures
        patch_pool_spec(db, id, patch, now) matches Ok(done) ==> pools_are_disjoint(
            done.0.ip_pools,
        ),
{
    if patch_pool_spec(db, id, patch, now) is Ok {
        let after = patch_pool_spec(db, id, patch, now)->Ok_0.0.ip_pools;
        assert forall|i: int| 0 <= i < after.len() implies (#[trigger] after[i]).cidr
            == db.ip_pools[i].cidr by {}
        assert forall|i: int, j: int| 0 <= i < j < after.len() implies !overlap(
            net_value((#[trigger] after[i]).cidr)->0,
            net_value((#[trigger] after[j]).cidr)->0,
        ) by {
            assert(after[i].cidr == db.ip_pools[i].cidr && after[j].cidr == db.ip_pools[j].cidr);
        }
    }
}

} // verus!
