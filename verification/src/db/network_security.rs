//! The network policies of machines and of the host, firewall rules, and whether the link
//! of a machine is cut.
//!
//! A policy has a revision, which grows with every change. Whoever applies a policy names
//! the revision that was applied, so that a change in between is noticed.

use vstd::prelude::*;

use crate::db::rows::{
    copy_ports, view_ports_change, FirewallDirection, HypervisorNetworkSecurity,
    HypervisorNetworkSecurityPatch, HypervisorNetworkSecurityPatchView,
    HypervisorNetworkSecurityView, NewVmFirewallRule, NewVmFirewallRuleView, PortRange, Timestamp,
    VmFirewallRule, VmFirewallRulePatch, VmFirewallRulePatchView, VmFirewallRuleView,
    VmNetworkSecurity, VmNetworkSecurityPatch, VmNetworkSecurityPatchView, VmNetworkSecurityView,
    VmTrafficEnforcement, VmTrafficEnforcementView,
};
use crate::db::store::{
    checked_i64, dangling_reference, duplicate_value, earlier, fault_if, fault_of, option_result,
    plain_result, range_fault, reference_error, row_result, settles, text_le_orders,
    text_option_result, unique_error, vm_with_id, Database, DatabaseView,
};
use crate::db::admins::or_value;
use crate::db::vms::{changed, changed_option, changed_text};
use crate::db::blacklist::{canonical_ip_network, canonical_network_spec};
use crate::error::{conflict, not_found, validation, AppError, AppErrorView, AppResult};
use crate::net::{net_string, net_text};
use crate::numbers::{decimal, decimal_text};
use crate::table::{
    any, append, count, find, first, first_is_first, first_survives, list, listing, look_up,
    matching, model, models, occurs, others, others_has, remove, replaced_by, revise, revised,
    select,
};
use crate::text::{copy_option, in_order, join3, own_option, same, text_le, view_option, view_str};

verus! {

broadcast use vstd::string::group_string_axioms;

/// The policy of a machine.
pub open spec fn policy_of(vm_id: Seq<char>) -> spec_fn(VmNetworkSecurityView) -> bool {
    |m: VmNetworkSecurityView| m.vm_id == vm_id
}

/// A change of a policy asks for nothing.
pub open spec fn policy_patch_is_empty(p: VmNetworkSecurityPatchView) -> bool {
    p.firewall_enabled is None && p.ddos_enabled is None && p.default_ingress_action is None
        && p.default_egress_action is None && p.syn_rate_limit_pps is None && p.udp_rate_limit_pps
        is None && p.icmp_rate_limit_pps is None && p.new_connection_limit_pps is None
        && p.concurrent_connection_limit is None && p.port_scan_protection is None
        && p.drop_invalid_packets is None
}

/// A policy with a change, before it is accepted.
pub open spec fn merged_policy(
    m: VmNetworkSecurityView,
    p: VmNetworkSecurityPatchView,
) -> VmNetworkSecurityView {
    VmNetworkSecurityView {
        firewall_enabled: or_value(p.firewall_enabled, m.firewall_enabled),
        ddos_enabled: or_value(p.ddos_enabled, m.ddos_enabled),
        default_ingress_action: or_value(p.default_ingress_action, m.default_ingress_action),
        default_egress_action: or_value(p.default_egress_action, m.default_egress_action),
        syn_rate_limit_pps: or_value(p.syn_rate_limit_pps, m.syn_rate_limit_pps),
        udp_rate_limit_pps: or_value(p.udp_rate_limit_pps, m.udp_rate_limit_pps),
        icmp_rate_limit_pps: or_value(p.icmp_rate_limit_pps, m.icmp_rate_limit_pps),
        new_connection_limit_pps: or_value(
            p.new_connection_limit_pps,
            m.new_connection_limit_pps,
        ),
        concurrent_connection_limit: or_value(
            p.concurrent_connection_limit,
            m.concurrent_connection_limit,
        ),
        port_scan_protection: or_value(p.port_scan_protection, m.port_scan_protection),
        drop_invalid_packets: or_value(p.drop_invalid_packets, m.drop_invalid_packets),
        ..m
    }
}

/// A policy of the next revision.
pub open spec fn bumped(now: Timestamp) -> spec_fn(VmNetworkSecurityView) -> VmNetworkSecurityView {
    |m: VmNetworkSecurityView|
        VmNetworkSecurityView {
            revision: (m.revision + 1) as u64,
            last_error: None,
            updated_at: now,
            ..m
        }
}

/// A policy with an accepted change.
pub open spec fn patched_policy(p: VmNetworkSecurityPatchView, now: Timestamp) -> spec_fn(
    VmNetworkSecurityView,
) -> VmNetworkSecurityView {
    |m: VmNetworkSecurityView| bumped(now)(merged_policy(m, p))
}

/// A policy that has no next revision.
pub open spec fn last_revision(vm_id: Seq<char>) -> spec_fn(VmNetworkSecurityView) -> bool {
    |m: VmNetworkSecurityView| m.vm_id == vm_id && m.revision >= i64::MAX
}

/// The fault of a revision that cannot grow.
pub open spec fn growth_fault(db: DatabaseView, vm_id: Seq<char>) -> Option<AppErrorView> {
    fault_if(
        any(db.network_security, last_revision(vm_id)),
        AppErrorView::Database("integer overflow"@),
    )
}

/// The policy of a machine is changed where the change makes a valid policy; a change that
/// asks for nothing touches nothing.
pub open spec fn patch_policy_spec(
    db: DatabaseView,
    vm_id: Seq<char>,
    patch: VmNetworkSecurityPatchView,
    verdict: Option<AppErrorView>,
    now: Timestamp,
) -> Result<(DatabaseView, VmNetworkSecurityView), AppErrorView> {
    match find(db.network_security, policy_of(vm_id)) {
        None => Err(AppErrorView::NotFound("VM network security profile"@)),
        Some(m) => if policy_patch_is_empty(patch) {
            Ok((db, m))
        } else {
            match earlier(verdict, growth_fault(db, vm_id)) {
                Some(e) => Err(e),
                None => Ok(
                    (
                        DatabaseView {
                            network_security: revised(
                                db.network_security,
                                policy_of(vm_id),
                                patched_policy(patch, now),
                            ),
                            ..db
                        },
                        patched_policy(patch, now)(m),
                    ),
                ),
            }
        },
    }
}

/// A policy after it was applied, or after an attempt.
pub open spec fn applied(revision: u64, error: Option<Seq<char>>, now: Timestamp) -> spec_fn(
    VmNetworkSecurityView,
) -> VmNetworkSecurityView {
    |m: VmNetworkSecurityView|
        VmNetworkSecurityView {
            applied_revision: if error is None {
                Some(revision)
            } else {
                m.applied_revision
            },
            last_applied_at: if error is None {
                Some(now)
            } else {
                m.last_applied_at
            },
            last_error: error,
            updated_at: now,
            ..m
        }
}

/// An application of exactly the current revision is recorded.
pub open spec fn mark_applied_spec(
    db: DatabaseView,
    vm_id: Seq<char>,
    revision: u64,
    error: Option<Seq<char>>,
    now: Timestamp,
) -> Result<(DatabaseView, VmNetworkSecurityView), AppErrorView> {
    match range_fault(revision, "network security revision"@) {
        Some(e) => Err(e),
        None => match find(db.network_security, policy_of(vm_id)) {
            None => Err(AppErrorView::NotFound("VM network security profile"@)),
            Some(m) => if m.revision != revision {
                Err(
                    AppErrorView::Conflict(
                        "network security policy changed before it could be applied"@,
                    ),
                )
            } else {
                Ok(
                    (
                        DatabaseView {
                            network_security: revised(
                                db.network_security,
                                policy_of(vm_id),
                                applied(revision, error, now),
                            ),
                            ..db
                        },
                        applied(revision, error, now)(m),
                    ),
                )
            },
        },
    }
}

/// An optional network in its usual form.
pub open spec fn optional_network(o: Option<Seq<char>>) -> Result<Option<Seq<char>>, AppErrorView> {
    match o {
        None => Ok(None),
        Some(s) => match canonical_network_spec(s) {
            Ok(net) => Ok(Some(net_text(net))),
            Err(e) => Err(e),
        },
    }
}

/// A rule with its networks in their usual form.
pub open spec fn normalized_rule(spec: NewVmFirewallRuleView) -> Result<
    NewVmFirewallRuleView,
    AppErrorView,
> {
    match optional_network(spec.source_cidr) {
        Err(e) => Err(e),
        Ok(source_cidr) => match optional_network(spec.destination_cidr) {
            Err(e) => Err(e),
            Ok(destination_cidr) => Ok(
                NewVmFirewallRuleView { source_cidr, destination_cidr, ..spec },
            ),
        },
    }
}

/// A rule of a machine.
pub open spec fn rule_of(vm_id: Seq<char>) -> spec_fn(VmFirewallRuleView) -> bool {
    |m: VmFirewallRuleView| m.vm_id == vm_id
}

/// The rule of a machine with an identifier.
pub open spec fn rule_called(vm_id: Seq<char>, rule_id: Seq<char>) -> spec_fn(
    VmFirewallRuleView,
) -> bool {
    |m: VmFirewallRuleView| m.vm_id == vm_id && m.id == rule_id
}

/// A rule with an identifier.
pub open spec fn rule_with_id(id: Seq<char>) -> spec_fn(VmFirewallRuleView) -> bool {
    |m: VmFirewallRuleView| m.id == id
}

/// A new rule.
pub open spec fn new_rule(
    id: Seq<char>,
    vm_id: Seq<char>,
    spec: NewVmFirewallRuleView,
    owner_type: Seq<char>,
    owner_id: Option<Seq<char>>,
    now: Timestamp,
) -> VmFirewallRuleView {
    VmFirewallRuleView {
        id,
        vm_id,
        priority: spec.priority,
        direction: spec.direction,
        action: spec.action,
        protocol: spec.protocol,
        source_cidr: spec.source_cidr,
        destination_cidr: spec.destination_cidr,
        source_ports: spec.source_ports,
        destination_ports: spec.destination_ports,
        log: spec.log,
        enabled: spec.enabled,
        description: spec.description,
        owner_type,
        owner_id,
        created_at: now,
        updated_at: now,
    }
}

/// A rule is entered for an owner, and the policy of the machine grows a revision.
pub open spec fn create_rule_spec(
    db: DatabaseView,
    vm_id: Seq<char>,
    spec: NewVmFirewallRuleView,
    owner_type: Seq<char>,
    owner_id: Option<Seq<char>>,
    limit: u64,
    id: Seq<char>,
    now: Timestamp,
) -> Result<(DatabaseView, VmFirewallRuleView), AppErrorView> {
    if owner_type != "admin"@ && owner_type != "customer_token"@ && owner_type != "system"@ {
        Err(AppErrorView::Validation("firewall rule owner type is invalid"@))
    } else if owner_type == "customer_token"@ && owner_id is None {
        Err(AppErrorView::Validation("customer firewall rules require an owner ID"@))
    } else {
        match normalized_rule(spec) {
            Err(e) => Err(e),
            Ok(rule) => if !any(db.network_security, policy_of(vm_id)) {
                Err(AppErrorView::NotFound("VM network security profile"@))
            } else if count(db.firewall_rules, rule_of(vm_id)) >= limit {
                Err(
                    AppErrorView::Conflict(
                        "a VM cannot have more than "@ + decimal_text(limit as nat)
                            + " firewall rules"@,
                    ),
                )
            } else if any(db.firewall_rules, rule_with_id(id)) {
                Err(unique_error("vm_firewall_rules.id"@))
            } else {
                match growth_fault(db, vm_id) {
                    Some(e) => Err(e),
                    None => {
                        let row = new_rule(id, vm_id, rule, owner_type, owner_id, now);
                        Ok(
                            (
                                DatabaseView {
                                    firewall_rules: db.firewall_rules.push(row),
                                    network_security: revised(
                                        db.network_security,
                                        policy_of(vm_id),
                                        bumped(now),
                                    ),
                                    ..db
                                },
                                row,
                            ),
                        )
                    },
                }
            },
        }
    }
}

/// The place of a direction in the order of its name.
pub open spec fn direction_rank(d: FirewallDirection) -> int {
    match d {
        FirewallDirection::Egress => 0,
        FirewallDirection::Ingress => 1,
    }
}

/// By direction, then priority, then time of entry, then identifier.
pub open spec fn by_rule_order() -> spec_fn(VmFirewallRuleView, VmFirewallRuleView) -> bool {
    |a: VmFirewallRuleView, b: VmFirewallRuleView|
        direction_rank(a.direction) < direction_rank(b.direction) || (direction_rank(a.direction)
            == direction_rank(b.direction) && (a.priority < b.priority || (a.priority == b.priority
            && (a.created_at < b.created_at || (a.created_at == b.created_at && text_le(
            a.id,
            b.id,
        ))))))
}

/// A change of a rule asks for nothing.
pub open spec fn rule_patch_is_empty(p: VmFirewallRulePatchView) -> bool {
    p.priority is None && p.direction is None && p.action is None && p.protocol is None
        && p.source_cidr is None && p.destination_cidr is None && p.source_ports is None
        && p.destination_ports is None && p.log is None && p.enabled is None && p.description
        is None
}

/// What a rule is to become.
pub open spec fn merged_rule(
    m: VmFirewallRuleView,
    p: VmFirewallRulePatchView,
) -> NewVmFirewallRuleView {
    NewVmFirewallRuleView {
        priority: or_value(p.priority, m.priority),
        direction: or_value(p.direction, m.direction),
        action: or_value(p.action, m.action),
        protocol: or_value(p.protocol, m.protocol),
        source_cidr: or_value(p.source_cidr, m.source_cidr),
        destination_cidr: or_value(p.destination_cidr, m.destination_cidr),
        source_ports: or_value(p.source_ports, m.source_ports),
        destination_ports: or_value(p.destination_ports, m.destination_ports),
        log: or_value(p.log, m.log),
        enabled: or_value(p.enabled, m.enabled),
        description: or_value(p.description, m.description),
    }
}

/// A rule with other contents; its machine and its owner stay.
pub open spec fn with_rule(spec: NewVmFirewallRuleView, now: Timestamp) -> spec_fn(
    VmFirewallRuleView,
) -> VmFirewallRuleView {
    |m: VmFirewallRuleView|
        VmFirewallRuleView {
            priority: spec.priority,
            direction: spec.direction,
            action: spec.action,
            protocol: spec.protocol,
            source_cidr: spec.source_cidr,
            destination_cidr: spec.destination_cidr,
            source_ports: spec.source_ports,
            destination_ports: spec.destination_ports,
            log: spec.log,
            enabled: spec.enabled,
            description: spec.description,
            updated_at: now,
            ..m
        }
}

/// The fault of a policy that cannot grow a revision.
pub open spec fn bump_fault(db: DatabaseView, vm_id: Seq<char>) -> Option<AppErrorView> {
    earlier(
        fault_if(
            !any(db.network_security, policy_of(vm_id)),
            AppErrorView::NotFound("VM network security profile"@),
        ),
        growth_fault(db, vm_id),
    )
}

/// A rule of a machine is changed, and the policy of the machine grows a revision; a change
/// that asks for nothing touches nothing.
pub open spec fn patch_rule_spec(
    db: DatabaseView,
    vm_id: Seq<char>,
    rule_id: Seq<char>,
    patch: VmFirewallRulePatchView,
    now: Timestamp,
) -> Result<(DatabaseView, VmFirewallRuleView), AppErrorView> {
    match find(db.firewall_rules, rule_called(vm_id, rule_id)) {
        None => Err(AppErrorView::NotFound("VM firewall rule"@)),
        Some(m) => if rule_patch_is_empty(patch) {
            Ok((db, m))
        } else {
            match normalized_rule(merged_rule(m, patch)) {
                Err(e) => Err(e),
                Ok(spec) => match bump_fault(db, vm_id) {
                    Some(e) => Err(e),
                    None => Ok(
                        (
                            DatabaseView {
                                firewall_rules: revised(
                                    db.firewall_rules,
                                    rule_called(vm_id, rule_id),
                                    with_rule(spec, now),
                                ),
                                network_security: revised(
                                    db.network_security,
                                    policy_of(vm_id),
                                    bumped(now),
                                ),
                                ..db
                            },
                            with_rule(spec, now)(m),
                        ),
                    ),
                },
            }
        },
    }
}

/// A rule of a machine is removed, and the policy of the machine grows a revision.
pub open spec fn delete_rule_spec(
    db: DatabaseView,
    vm_id: Seq<char>,
    rule_id: Seq<char>,
    now: Timestamp,
) -> Result<(DatabaseView, ()), AppErrorView> {
    if !any(db.firewall_rules, rule_called(vm_id, rule_id)) {
        Err(AppErrorView::NotFound("VM firewall rule"@))
    } else {
        match bump_fault(db, vm_id) {
            Some(e) => Err(e),
            None => Ok(
                (
                    DatabaseView {
                        firewall_rules: others(db.firewall_rules, rule_called(vm_id, rule_id)),
                        network_security: revised(
                            db.network_security,
                            policy_of(vm_id),
                            bumped(now),
                        ),
                        ..db
                    },
                    (),
                ),
            ),
        }
    }
}

/// The policy of the host is changed; where it is that way already, nothing is touched.
pub open spec fn patch_host_spec(
    db: DatabaseView,
    patch: HypervisorNetworkSecurityPatchView,
    updated_by: Option<Seq<char>>,
    now: Timestamp,
) -> Result<(DatabaseView, HypervisorNetworkSecurityView), AppErrorView> {
    let current = db.hypervisor;
    if patch.bcp38_enabled is None || patch.bcp38_enabled->0 == current.bcp38_enabled {
        Ok((db, current))
    } else if current.revision >= i64::MAX {
        Err(AppErrorView::Database("integer overflow"@))
    } else {
        let row = HypervisorNetworkSecurityView {
            bcp38_enabled: patch.bcp38_enabled->0,
            revision: (current.revision + 1) as u64,
            last_error: None,
            updated_by,
            updated_at: now,
            ..current
        };
        Ok((DatabaseView { hypervisor: row, ..db }, row))
    }
}

/// An application of exactly the current revision of the host's policy is recorded.
pub open spec fn mark_host_applied_spec(
    db: DatabaseView,
    revision: u64,
    error: Option<Seq<char>>,
    now: Timestamp,
) -> Result<(DatabaseView, HypervisorNetworkSecurityView), AppErrorView> {
    let current = db.hypervisor;
    match range_fault(revision, "hypervisor network security revision"@) {
        Some(e) => Err(e),
        None => if current.revision != revision {
            Err(
                AppErrorView::Conflict(
                    "hypervisor network security policy changed before it could be applied"@,
                ),
            )
        } else {
            let row = HypervisorNetworkSecurityView {
                applied_revision: if error is None {
                    Some(revision)
                } else {
                    current.applied_revision
                },
                last_applied_at: if error is None {
                    Some(now)
                } else {
                    current.last_applied_at
                },
                last_error: error,
                updated_at: now,
                ..current
            };
            Ok((DatabaseView { hypervisor: row, ..db }, row))
        },
    }
}

/// A policy that nobody has edited and that drops invalid packets.
pub open spec fn untouched_preset() -> spec_fn(VmNetworkSecurityView) -> bool {
    |m: VmNetworkSecurityView| m.revision == 0 && m.drop_invalid_packets
}

/// A policy that lets invalid packets pass.
pub open spec fn safe_default() -> spec_fn(VmNetworkSecurityView) -> VmNetworkSecurityView {
    |m: VmNetworkSecurityView| VmNetworkSecurityView { drop_invalid_packets: false, ..m }
}

/// The link of a machine.
pub open spec fn link_of(vm_id: Seq<char>) -> spec_fn(VmTrafficEnforcementView) -> bool {
    |m: VmTrafficEnforcementView| m.vm_id == vm_id
}

/// Since when a link is cut: a link that was cut before keeps its time.
pub open spec fn cut_since(
    before: Option<VmTrafficEnforcementView>,
    now: Timestamp,
) -> Option<Timestamp> {
    match before {
        Some(m) => Some(or_value(m.blocked_at, now)),
        None => Some(now),
    }
}

/// What is recorded of a link after a transition: whether it is cut and since when. A failed
/// transition leaves both as they were; a link of which nothing was recorded was not cut.
pub open spec fn link_state(
    before: Option<VmTrafficEnforcementView>,
    blocked: bool,
    failed: bool,
    now: Timestamp,
) -> (bool, Option<Timestamp>) {
    if failed {
        match before {
            Some(m) => (m.blocked, m.blocked_at),
            None => (false, None),
        }
    } else if blocked {
        (true, cut_since(before, now))
    } else {
        (false, None)
    }
}

/// The transition of the link of a machine is recorded.
pub open spec fn set_traffic_spec(
    db: DatabaseView,
    vm_id: Seq<char>,
    blocked: bool,
    last_error: Option<Seq<char>>,
    now: Timestamp,
) -> Result<(DatabaseView, VmTrafficEnforcementView), AppErrorView> {
    if !any(db.vms, vm_with_id(vm_id)) {
        Err(reference_error())
    } else {
        let before = find(db.traffic, link_of(vm_id));
        let (blocked, blocked_at) = link_state(before, blocked, last_error is Some, now);
        let row = VmTrafficEnforcementView {
            vm_id,
            blocked,
            blocked_at,
            last_error,
            updated_at: now,
        };
        Ok(
            (
                DatabaseView {
                    traffic: if before is Some {
                        revised(db.traffic, link_of(vm_id), replaced_by(row))
                    } else {
                        db.traffic.push(row)
                    },
                    ..db
                },
                row,
            ),
        )
    }
}

/// A policy with a change, before it is accepted.
pub fn merge_network_security(m: &VmNetworkSecurity, p: &VmNetworkSecurityPatch) -> (r:
    VmNetworkSecurity)
    ensures
        r@ == merged_policy(m@, p@),
{
    VmNetworkSecurity {
        vm_id: m.vm_id.clone(),
        firewall_enabled: changed(p.firewall_enabled, m.firewall_enabled),
        ddos_enabled: changed(p.ddos_enabled, m.ddos_enabled),
        default_ingress_action: changed(p.default_ingress_action, m.default_ingress_action),
        default_egress_action: changed(p.default_egress_action, m.default_egress_action),
        syn_rate_limit_pps: changed(p.syn_rate_limit_pps, m.syn_rate_limit_pps),
        udp_rate_limit_pps: changed(p.udp_rate_limit_pps, m.udp_rate_limit_pps),
        icmp_rate_limit_pps: changed(p.icmp_rate_limit_pps, m.icmp_rate_limit_pps),
        new_connection_limit_pps: changed(p.new_connection_limit_pps, m.new_connection_limit_pps),
        concurrent_connection_limit: changed(
            p.concurrent_connection_limit,
            m.concurrent_connection_limit,
        ),
        port_scan_protection: changed(p.port_scan_protection, m.port_scan_protection),
        drop_invalid_packets: changed(p.drop_invalid_packets, m.drop_invalid_packets),
        revision: m.revision,
        applied_revision: m.applied_revision,
        last_applied_at: m.last_applied_at,
        last_error: copy_option(&m.last_error),
        created_at: m.created_at,
        updated_at: m.updated_at,
    }
}

fn bump(m: &VmNetworkSecurity, now: Timestamp) -> (r: VmNetworkSecurity)
    requires
        m@.revision < i64::MAX,
    ensures
        r@ == bumped(now)(m@),
{
    let mut y = m.clone();
    y.revision = m.revision + 1;
    y.last_error = None;
    y.updated_at = now;
    y
}

fn canonical_optional_network(o: &Option<String>) -> (r: AppResult<Option<String>>)
    ensures
        text_option_result(r) == optional_network(view_option(*o)),
{
    match o {
        None => Ok(None),
        Some(s) => {
            let net = match canonical_ip_network(s.as_str()) {
                Err(e) => {
                    return Err(e);
                },
                Ok(v) => v,
            };
            Ok(Some(net_string(net)))
        },
    }
}

/// A rule with its networks in their usual form. It is taken as given that nothing else in a
/// rule is rewritten, and that whether its protocol and ports go together was judged before.
pub fn normalize_firewall_rule(spec: &NewVmFirewallRule) -> (r: AppResult<NewVmFirewallRule>)
    ensures
        row_result(r) == normalized_rule(spec@),
{
    let source_cidr = match canonical_optional_network(&spec.source_cidr) {
        Err(e) => {
            return Err(e);
        },
        Ok(v) => v,
    };
    let destination_cidr = match canonical_optional_network(&spec.destination_cidr) {
        Err(e) => {
            return Err(e);
        },
        Ok(v) => v,
    };
    let mut r = spec.clone();
    r.source_cidr = source_cidr;
    r.destination_cidr = destination_cidr;
    Ok(r)
}

fn changed_ports(o: &Option<Vec<PortRange>>, other: &Vec<PortRange>) -> (r: Vec<PortRange>)
    ensures
        r@ == or_value(view_ports_change(*o), other@),
{
    match o {
        Some(v) => copy_ports(v),
        None => copy_ports(other),
    }
}

fn merge_rule(m: &VmFirewallRule, p: &VmFirewallRulePatch) -> (r: NewVmFirewallRule)
    ensures
        r@ == merged_rule(m@, p@),
{
    NewVmFirewallRule {
        priority: changed(p.priority, m.priority),
        direction: changed(p.direction, m.direction),
        action: changed(p.action, m.action),
        protocol: changed(p.protocol, m.protocol),
        source_cidr: changed_option(&p.source_cidr, &m.source_cidr),
        destination_cidr: changed_option(&p.destination_cidr, &m.destination_cidr),
        source_ports: changed_ports(&p.source_ports, &m.source_ports),
        destination_ports: changed_ports(&p.destination_ports, &m.destination_ports),
        log: changed(p.log, m.log),
        enabled: changed(p.enabled, m.enabled),
        description: changed_text(&p.description, &m.description),
    }
}

fn direction_place(d: FirewallDirection) -> (r: u8)
    ensures
        r == direction_rank(d),
{
    match d {
        FirewallDirection::Egress => 0,
        FirewallDirection::Ingress => 1,
    }
}

impl Database {
    fn find_policy(&self, vm_id: &str) -> (r: Option<VmNetworkSecurity>)
        ensures
            model(r) == find(self@.network_security, policy_of(vm_id@)),
    {
        let test = |x: &VmNetworkSecurity| -> (b: bool)
            ensures
                b == policy_of(vm_id@)(x@),
            { same(x.vm_id.as_str(), vm_id) };
        look_up(&self.network_security, test, Ghost(policy_of(vm_id@)))
    }

    fn check_growth(&self, vm_id: &str) -> (r: AppResult<()>)
        ensures
            fault_of(r) == growth_fault(self@, vm_id@),
    {
        let test = |x: &VmNetworkSecurity| -> (b: bool)
            ensures
                b == last_revision(vm_id@)(x@),
            { same(x.vm_id.as_str(), vm_id) && x.revision >= i64::MAX as u64 };
        if occurs(&self.network_security, test, Ghost(last_revision(vm_id@))) {
            Err(AppError::Database("integer overflow".to_owned()))
        } else {
            Ok(())
        }
    }

    fn bump_vm_network_security_revision(&mut self, vm_id: &str, now: Timestamp)
        requires
            growth_fault(old(self)@, vm_id@) is None,
        ensures
            final(self)@ == (DatabaseView {
                network_security: revised(
                    old(self)@.network_security,
                    policy_of(vm_id@),
                    bumped(now),
                ),
                ..old(self)@
            }),
    {
        let ghost rows = self@.network_security;
        let ghost p = policy_of(vm_id@);
        let ghost f = bumped(now);
        let mut i: usize = 0;
        proof {
            first_is_first(rows, last_revision(vm_id@));
            assert(models(self.network_security@) =~= rows);
        }
        while i < self.network_security.len()
            invariant
                i <= self.network_security@.len(),
                self.network_security@.len() == rows.len(),
                p == policy_of(vm_id@),
                f == bumped(now),
                forall|j: int| 0 <= j < rows.len() ==> !last_revision(vm_id@)(#[trigger] rows[j]),
                forall|j: int| 0 <= j < i ==> (#[trigger] self.network_security@[j])@ == revised(
                    rows,
                    p,
                    f,
                )[j],
                forall|j: int|
                    i <= j < rows.len() ==> (#[trigger] self.network_security@[j])@ == rows[j],
                self@ == (DatabaseView {
                    network_security: models(self.network_security@),
                    ..old(self)@
                }),
            decreases self.network_security@.len() - i,
        {
            proof {
                assert(!last_revision(vm_id@)(rows[i as int]));
            }
            if same(self.network_security[i].vm_id.as_str(), vm_id) {
                let y = bump(&self.network_security[i], now);
                self.network_security.set(i, y);
            }
            i = i + 1;
        }
        proof {
            assert(models(self.network_security@) =~= revised(rows, p, f));
        }
    }

    /// The policy of a machine.
    pub fn vm_network_security(&self, vm_id: &str) -> (r: AppResult<Option<VmNetworkSecurity>>)
        ensures
            option_result(r) == Ok::<Option<VmNetworkSecurityView>, AppErrorView>(
                find(self@.network_security, policy_of(vm_id@)),
            ),
    {
        Ok(self.find_policy(vm_id))
    }

    /// Changes the policy of a machine; the verdict is on the policy with the change.
    pub fn patch_vm_network_security(
        &mut self,
        vm_id: &str,
        patch: &VmNetworkSecurityPatch,
        verdict: AppResult<()>,
        now: Timestamp,
    ) -> (r: AppResult<VmNetworkSecurity>)
        ensures
            settles(
                patch_policy_spec(old(self)@, vm_id@, patch@, fault_of(verdict), now),
                old(self)@,
                final(self)@,
                row_result(r),
            ),
    {
        let current = match self.find_policy(vm_id) {
            None => {
                return Err(not_found("VM network security profile"));
            },
            Some(row) => row,
        };
        if patch.firewall_enabled.is_none() && patch.ddos_enabled.is_none()
            && patch.default_ingress_action.is_none() && patch.default_egress_action.is_none()
            && patch.syn_rate_limit_pps.is_none() && patch.udp_rate_limit_pps.is_none()
            && patch.icmp_rate_limit_pps.is_none() && patch.new_connection_limit_pps.is_none()
            && patch.concurrent_connection_limit.is_none() && patch.port_scan_protection.is_none()
            && patch.drop_invalid_packets.is_none() {
            return Ok(current);
        }
        match verdict {
            Err(e) => {
                return Err(e);
            },
            Ok(v) => v,
        };
        match self.check_growth(vm_id) {
            Err(e) => {
                return Err(e);
            },
            Ok(v) => v,
        };
        let ghost rows = self@.network_security;
        proof {
            first_is_first(rows, last_revision(vm_id@));
            first_is_first(rows, policy_of(vm_id@));
            let k = first(rows, policy_of(vm_id@))->0;
            assert(!last_revision(vm_id@)(rows[k]));
        }
        let shown = bump(&merge_network_security(&current, patch), now);
        self.merge_policies(vm_id, patch);
        proof {
            let merged = self@.network_security;
            merging_grows_nothing(rows, vm_id@, patch@);
            bumping_merged(rows, vm_id@, patch@, now);
        }
        self.bump_vm_network_security_revision(vm_id, now);
        Ok(shown)
    }

    fn merge_policies(&mut self, vm_id: &str, patch: &VmNetworkSecurityPatch)
        ensures
            final(self)@ == (DatabaseView {
                network_security: revised(
                    old(self)@.network_security,
                    policy_of(vm_id@),
                    merging(patch@),
                ),
                ..old(self)@
            }),
    {
        let chosen = |x: &VmNetworkSecurity| -> (b: bool)
            ensures
                b == policy_of(vm_id@)(x@),
            { same(x.vm_id.as_str(), vm_id) };
        let change = |x: &VmNetworkSecurity| -> (y: VmNetworkSecurity)
            ensures
                y@ == merging(patch@)(x@),
            { merge_network_security(x, patch) };
        let _ = revise(
            &mut self.network_security,
            chosen,
            change,
            Ghost(policy_of(vm_id@)),
            Ghost(merging(patch@)),
        );
    }

    /// Records that exactly this revision of a machine's policy was applied, or why not.
    pub fn mark_vm_network_security_applied(
        &mut self,
        vm_id: &str,
        revision: u64,
        error: Option<&str>,
        now: Timestamp,
    ) -> (r: AppResult<VmNetworkSecurity>)
        ensures
            settles(
                mark_applied_spec(old(self)@, vm_id@, revision, view_str(error), now),
                old(self)@,
                final(self)@,
                row_result(r),
            ),
    {
        let _ = match checked_i64(revision, "network security revision") {
            Err(e) => {
                return Err(e);
            },
            Ok(v) => v,
        };
        let current = match self.find_policy(vm_id) {
            None => {
                return Err(not_found("VM network security profile"));
            },
            Some(row) => row,
        };
        if current.revision != revision {
            return Err(conflict("network security policy changed before it could be applied"));
        }
        let ghost f = applied(revision, view_str(error), now);
        let chosen = |x: &VmNetworkSecurity| -> (b: bool)
            ensures
                b == policy_of(vm_id@)(x@),
            { same(x.vm_id.as_str(), vm_id) };
        let change = |x: &VmNetworkSecurity| -> (y: VmNetworkSecurity)
            ensures
                y@ == f(x@),
            { {
            let mut y = x.clone();
            if error.is_none() {
                y.applied_revision = Some(revision);
                y.last_applied_at = Some(now);
            }
            y.last_error = own_option(error);
            y.updated_at = now;
            y
        } };
        let shown = change(&current);
        let _ = revise(
            &mut self.network_security,
            chosen,
            change,
            Ghost(policy_of(vm_id@)),
            Ghost(f),
        );
        Ok(shown)
    }

    /// Enters a firewall rule of the administrators; a machine has at most `limit` rules.
    pub fn create_vm_firewall_rule(
        &mut self,
        vm_id: &str,
        spec: &NewVmFirewallRule,
        limit: u64,
        id: &str,
        now: Timestamp,
    ) -> (r: AppResult<VmFirewallRule>)
        ensures
            settles(
                create_rule_spec(old(self)@, vm_id@, spec@, "admin"@, None, limit, id@, now),
                old(self)@,
                final(self)@,
                row_result(r),
            ),
    {
        self.create_vm_firewall_rule_owned(vm_id, spec, "admin", None, limit, id, now)
    }

    /// Enters a firewall rule; a machine has at most `limit` rules.
    pub fn create_vm_firewall_rule_owned(
        &mut self,
        vm_id: &str,
        spec: &NewVmFirewallRule,
        owner_type: &str,
        owner_id: Option<&str>,
        limit: u64,
        id: &str,
        now: Timestamp,
    ) -> (r: AppResult<VmFirewallRule>)
        ensures
            settles(
                create_rule_spec(
                    old(self)@,
                    vm_id@,
                    spec@,
                    owner_type@,
                    view_str(owner_id),
                    limit,
                    id@,
                    now,
                ),
                old(self)@,
                final(self)@,
                row_result(r),
            ),
    {
        if !same(owner_type, "admin") && !same(owner_type, "customer_token") && !same(
            owner_type,
            "system",
        ) {
            return Err(validation("firewall rule owner type is invalid"));
        }
        if same(owner_type, "customer_token") && owner_id.is_none() {
            return Err(validation("customer firewall rules require an owner ID"));
        }
        let rule = match normalize_firewall_rule(spec) {
            Err(e) => {
                return Err(e);
            },
            Ok(v) => v,
        };
        if self.find_policy(vm_id).is_none() {
            return Err(not_found("VM network security profile"));
        }
        let theirs = |x: &VmFirewallRule| -> (b: bool)
            ensures
                b == rule_of(vm_id@)(x@),
            { same(x.vm_id.as_str(), vm_id) };
        let rules = select(&self.firewall_rules, theirs, Ghost(rule_of(vm_id@)));
        if rules.len() as u64 >= limit {
            return Err(
                AppError::Conflict(
                    join3(
                        "a VM cannot have more than ",
                        decimal(limit).as_str(),
                        " firewall rules",
                    ),
                ),
            );
        }
        let test = |x: &VmFirewallRule| -> (b: bool)
            ensures
                b == rule_with_id(id@)(x@),
            { same(x.id.as_str(), id) };
        if occurs(&self.firewall_rules, test, Ghost(rule_with_id(id@))) {
            return Err(duplicate_value("vm_firewall_rules.id"));
        }
        match self.check_growth(vm_id) {
            Err(e) => {
                return Err(e);
            },
            Ok(v) => v,
        };
        let row = VmFirewallRule {
            id: id.to_owned(),
            vm_id: vm_id.to_owned(),
            priority: rule.priority,
            direction: rule.direction,
            action: rule.action,
            protocol: rule.protocol,
            source_cidr: rule.source_cidr,
            destination_cidr: rule.destination_cidr,
            source_ports: rule.source_ports,
            destination_ports: rule.destination_ports,
            log: rule.log,
            enabled: rule.enabled,
            description: rule.description,
            owner_type: owner_type.to_owned(),
            owner_id: own_option(owner_id),
            created_at: now,
            updated_at: now,
        };
        let shown = row.clone();
        append(&mut self.firewall_rules, row);
        self.bump_vm_network_security_revision(vm_id, now);
        Ok(shown)
    }

    /// The rules of a machine by direction, then priority, then time of entry.
    pub fn list_vm_firewall_rules(&self, vm_id: &str) -> (r: AppResult<Vec<VmFirewallRule>>)
        ensures
            r is Ok,
            listing(
                models(r->Ok_0@),
                matching(self@.firewall_rules, rule_of(vm_id@)),
                by_rule_order(),
                usize::MAX as int,
            ),
    {
        let theirs = |x: &VmFirewallRule| -> (b: bool)
            ensures
                b == rule_of(vm_id@)(x@),
            { same(x.vm_id.as_str(), vm_id) };
        let rules = select(&self.firewall_rules, theirs, Ghost(rule_of(vm_id@)));
        proof {
            text_le_orders();
        }
        let le = |a: &VmFirewallRule, c: &VmFirewallRule| -> (b: bool)
            ensures
                b == by_rule_order()(a@, c@),
            { {
            let (p, q) = (direction_place(a.direction), direction_place(c.direction));
            p < q || (p == q && (a.priority < c.priority || (a.priority == c.priority && (
            a.created_at < c.created_at || (a.created_at == c.created_at && in_order(
                a.id.as_str(),
                c.id.as_str(),
            ))))))
        } };
        Ok(list(rules, le, usize::MAX, Ghost(by_rule_order())))
    }

    /// The rule of a machine with an identifier.
    pub fn get_vm_firewall_rule(&self, vm_id: &str, rule_id: &str) -> (r: AppResult<
        Option<VmFirewallRule>,
    >)
        ensures
            option_result(r) == Ok::<Option<VmFirewallRuleView>, AppErrorView>(
                find(self@.firewall_rules, rule_called(vm_id@, rule_id@)),
            ),
    {
        let ghost p = rule_called(vm_id@, rule_id@);
        let test = |x: &VmFirewallRule| -> (b: bool)
            ensures
                b == p(x@),
            { same(x.vm_id.as_str(), vm_id) && same(x.id.as_str(), rule_id) };
        Ok(look_up(&self.firewall_rules, test, Ghost(p)))
    }

    /// Changes a rule of a machine.
    pub fn patch_vm_firewall_rule(
        &mut self,
        vm_id: &str,
        rule_id: &str,
        patch: &VmFirewallRulePatch,
        now: Timestamp,
    ) -> (r: AppResult<VmFirewallRule>)
        ensures
            settles(
                patch_rule_spec(old(self)@, vm_id@, rule_id@, patch@, now),
                old(self)@,
                final(self)@,
                row_result(r),
            ),
    {
        let ghost p = rule_called(vm_id@, rule_id@);
        let chosen = |x: &VmFirewallRule| -> (b: bool)
            ensures
                b == p(x@),
            { same(x.vm_id.as_str(), vm_id) && same(x.id.as_str(), rule_id) };
        let current = match look_up(&self.firewall_rules, chosen, Ghost(p)) {
            None => {
                return Err(not_found("VM firewall rule"));
            },
            Some(row) => row,
        };
        if patch.priority.is_none() && patch.direction.is_none() && patch.action.is_none()
            && patch.protocol.is_none() && patch.source_cidr.is_none()
            && patch.destination_cidr.is_none() && patch.source_ports.is_none()
            && patch.destination_ports.is_none() && patch.log.is_none() && patch.enabled.is_none()
            && patch.description.is_none() {
            return Ok(current);
        }
        let rule = match normalize_firewall_rule(&merge_rule(&current, patch)) {
            Err(e) => {
                return Err(e);
            },
            Ok(v) => v,
        };
        if self.find_policy(vm_id).is_none() {
            return Err(not_found("VM network security profile"));
        }
        match self.check_growth(vm_id) {
            Err(e) => {
                return Err(e);
            },
            Ok(v) => v,
        };
        let ghost f = with_rule(rule@, now);
        let change = |x: &VmFirewallRule| -> (y: VmFirewallRule)
            ensures
                y@ == f(x@),
            { VmFirewallRule {
            id: x.id.clone(),
            vm_id: x.vm_id.clone(),
            priority: rule.priority,
            direction: rule.direction,
            action: rule.action,
            protocol: rule.protocol,
            source_cidr: copy_option(&rule.source_cidr),
            destination_cidr: copy_option(&rule.destination_cidr),
            source_ports: copy_ports(&rule.source_ports),
            destination_ports: copy_ports(&rule.destination_ports),
            log: rule.log,
            enabled: rule.enabled,
            description: rule.description.clone(),
            owner_type: x.owner_type.clone(),
            owner_id: copy_option(&x.owner_id),
            created_at: x.created_at,
            updated_at: now,
        } };
        let shown = change(&current);
        let _ = revise(&mut self.firewall_rules, chosen, change, Ghost(p), Ghost(f));
        self.bump_vm_network_security_revision(vm_id, now);
        Ok(shown)
    }

    /// Removes a rule of a machine.
    pub fn delete_vm_firewall_rule(&mut self, vm_id: &str, rule_id: &str, now: Timestamp) -> (r:
        AppResult<()>)
        ensures
            settles(
                delete_rule_spec(old(self)@, vm_id@, rule_id@, now),
                old(self)@,
                final(self)@,
                plain_result(r),
            ),
    {
        let ghost p = rule_called(vm_id@, rule_id@);
        let chosen = |x: &VmFirewallRule| -> (b: bool)
            ensures
                b == p(x@),
            { same(x.vm_id.as_str(), vm_id) && same(x.id.as_str(), rule_id) };
        if !occurs(&self.firewall_rules, chosen, Ghost(p)) {
            return Err(not_found("VM firewall rule"));
        }
        if self.find_policy(vm_id).is_none() {
            return Err(not_found("VM network security profile"));
        }
        match self.check_growth(vm_id) {
            Err(e) => {
                return Err(e);
            },
            Ok(v) => v,
        };
        let _ = remove(&mut self.firewall_rules, chosen, Ghost(p));
        self.bump_vm_network_security_revision(vm_id, now);
        Ok(())
    }

    /// The policy of the host.
    pub fn hypervisor_network_security(&self) -> (r: AppResult<HypervisorNetworkSecurity>)
        ensures
            row_result(r) == Ok::<HypervisorNetworkSecurityView, AppErrorView>(self@.hypervisor),
    {
        Ok(self.hypervisor.clone())
    }

    /// Changes the policy of the host.
    pub fn patch_hypervisor_network_security(
        &mut self,
        patch: &HypervisorNetworkSecurityPatch,
        updated_by: Option<&str>,
        now: Timestamp,
    ) -> (r: AppResult<HypervisorNetworkSecurity>)
        ensures
            settles(
                patch_host_spec(old(self)@, patch@, view_str(updated_by), now),
                old(self)@,
                final(self)@,
                row_result(r),
            ),
    {
        let enabled = match patch.bcp38_enabled {
            None => {
                return Ok(self.hypervisor.clone());
            },
            Some(b) => b,
        };
        if enabled == self.hypervisor.bcp38_enabled {
            return Ok(self.hypervisor.clone());
        }
        if self.hypervisor.revision >= i64::MAX as u64 {
            return Err(AppError::Database("integer overflow".to_owned()));
        }
        let mut row = self.hypervisor.clone();
        row.bcp38_enabled = enabled;
        row.revision = self.hypervisor.revision + 1;
        row.last_error = None;
        row.updated_by = own_option(updated_by);
        row.updated_at = now;
        let shown = row.clone();
        self.hypervisor = row;
        Ok(shown)
    }

    /// Records that exactly this revision of the host's policy was applied, or why not.
    pub fn mark_hypervisor_network_security_applied(
        &mut self,
        revision: u64,
        error: Option<&str>,
        now: Timestamp,
    ) -> (r: AppResult<HypervisorNetworkSecurity>)
        ensures
            settles(
                mark_host_applied_spec(old(self)@, revision, view_str(error), now),
                old(self)@,
                final(self)@,
                row_result(r),
            ),
    {
        let _ = match checked_i64(revision, "hypervisor network security revision") {
            Err(e) => {
                return Err(e);
            },
            Ok(v) => v,
        };
        if self.hypervisor.revision != revision {
            return Err(
                conflict("hypervisor network security policy changed before it could be applied"),
            );
        }
        let mut row = self.hypervisor.clone();
        if error.is_none() {
            row.applied_revision = Some(revision);
            row.last_applied_at = Some(now);
        }
        row.last_error = own_option(error);
        row.updated_at = now;
        let shown = row.clone();
        self.hypervisor = row;
        Ok(shown)
    }

    /// Lets invalid packets pass where the preset was never edited.
    pub fn apply_safe_network_defaults(&mut self)
        ensures
            final(self)@ == (DatabaseView {
                network_security: revised(
                    old(self)@.network_security,
                    untouched_preset(),
                    safe_default(),
                ),
                ..old(self)@
            }),
    {
        let chosen = |x: &VmNetworkSecurity| -> (b: bool)
            ensures
                b == untouched_preset()(x@),
            { x.revision == 0 && x.drop_invalid_packets };
        let change = |x: &VmNetworkSecurity| -> (y: VmNetworkSecurity)
            ensures
                y@ == safe_default()(x@),
            { {
            let mut y = x.clone();
            y.drop_invalid_packets = false;
            y
        } };
        let _ = revise(
            &mut self.network_security,
            chosen,
            change,
            Ghost(untouched_preset()),
            Ghost(safe_default()),
        );
    }

    /// Whether the link of a machine is cut.
    pub fn vm_traffic_enforcement(&self, vm_id: &str) -> (r: AppResult<
        Option<VmTrafficEnforcement>,
    >)
        ensures
            option_result(r) == Ok::<Option<VmTrafficEnforcementView>, AppErrorView>(
                find(self@.traffic, link_of(vm_id@)),
            ),
    {
        let test = |x: &VmTrafficEnforcement| -> (b: bool)
            ensures
                b == link_of(vm_id@)(x@),
            { same(x.vm_id.as_str(), vm_id) };
        Ok(look_up(&self.traffic, test, Ghost(link_of(vm_id@))))
    }

    /// Records the state of a machine's link that was actually applied. A failed transition
    /// leaves `blocked` unchanged, so that a later reconciliation retries it.
    pub fn set_vm_traffic_enforcement(
        &mut self,
        vm_id: &str,
        blocked: bool,
        last_error: Option<&str>,
        now: Timestamp,
    ) -> (r: AppResult<VmTrafficEnforcement>)
        ensures
            settles(
                set_traffic_spec(old(self)@, vm_id@, blocked, view_str(last_error), now),
                old(self)@,
                final(self)@,
                row_result(r),
            ),
    {
        if !self.has_vm(vm_id) {
            return Err(dangling_reference());
        }
        let chosen = |x: &VmTrafficEnforcement| -> (b: bool)
            ensures
                b == link_of(vm_id@)(x@),
            { same(x.vm_id.as_str(), vm_id) };
        let before = look_up(&self.traffic, chosen, Ghost(link_of(vm_id@)));
        let (blocked, blocked_at): (bool, Option<i64>) = match (&before, last_error.is_some()) {
            (Some(m), true) => (m.blocked, m.blocked_at),
            (None, true) => (false, None),
            (Some(m), false) => (
                blocked,
                if blocked {
                    Some(changed(m.blocked_at, now))
                } else {
                    None
                },
            ),
            (None, false) => (
                blocked,
                if blocked {
                    Some(now)
                } else {
                    None
                },
            ),
        };
        let row = VmTrafficEnforcement {
            vm_id: vm_id.to_owned(),
            blocked,
            blocked_at,
            last_error: own_option(last_error),
            updated_at: now,
        };
        let shown = row.clone();
        if before.is_some() {
            let ghost f = replaced_by(row@);
            let change = |x: &VmTrafficEnforcement| -> (y: VmTrafficEnforcement)
                ensures
                    y@ == f(x@),
                { row.clone() };
            let _ = revise(&mut self.traffic, chosen, change, Ghost(link_of(vm_id@)), Ghost(f));
        } else {
            append(&mut self.traffic, row);
        }
        Ok(shown)
    }
}

/// A failed transition of a machine's link leaves what is recorded of the link as it was: it
/// is still to be done.
pub proof fn failed_transitions_are_retried(
    db: DatabaseView,
    vm_id: Seq<char>,
    blocked: bool,
    error: Seq<char>,
    now: Timestamp,
)
    requires
        any(db.vms, vm_with_id(vm_id)),
    ensures
        ({
            let before = find(db.traffic, link_of(vm_id));
            let result = set_traffic_spec(db, vm_id, blocked, Some(error), now);
            &&& result is Ok
            &&& result->Ok_0.1.last_error == Some(error)
            &&& before matches Some(m) ==> result->Ok_0.1.blocked == m.blocked
                && result->Ok_0.1.blocked_at == m.blocked_at
            &&& before is None ==> !result->Ok_0.1.blocked
            &&& find(result->Ok_0.0.traffic, link_of(vm_id)) == Some(result->Ok_0.1)
        }),
{
    let p = link_of(vm_id);
    let after = set_traffic_spec(db, vm_id, blocked, Some(error), now)->Ok_0.0.traffic;
    first_is_first(db.traffic, p);
    first_is_first(after, p);
    match first(db.traffic, p) {
        Some(k) => {
            assert(p(after[k]));
        },
        None => {
            assert(p(after[after.len() - 1]));
        },
    }
}

/// A policy with a change, of the same revision.
pub open spec fn merging(p: VmNetworkSecurityPatchView) -> spec_fn(
    VmNetworkSecurityView,
) -> VmNetworkSecurityView {
    |m: VmNetworkSecurityView| merged_policy(m, p)
}

proof fn merging_grows_nothing(
    rows: Seq<VmNetworkSecurityView>,
    vm_id: Seq<char>,
    patch: VmNetworkSecurityPatchView,
)
    ensures
        first(revised(rows, policy_of(vm_id), merging(patch)), last_revision(vm_id)) == first(
            rows,
            last_revision(vm_id),
        ),
{
    first_survives(rows, policy_of(vm_id), merging(patch), last_revision(vm_id));
}

proof fn bumping_merged(
    rows: Seq<VmNetworkSecurityView>,
    vm_id: Seq<char>,
    patch: VmNetworkSecurityPatchView,
    now: Timestamp,
)
    ensures
        revised(revised(rows, policy_of(vm_id), merging(patch)), policy_of(vm_id), bumped(now))
            == revised(rows, policy_of(vm_id), patched_policy(patch, now)),
{
    assert(revised(
        revised(rows, policy_of(vm_id), merging(patch)),
        policy_of(vm_id),
        bumped(now),
    ) =~= revised(rows, policy_of(vm_id), patched_policy(patch, now)));
}

/// No policy counts as applied in a revision that it does not have yet.
pub open spec fn nothing_applied_early(rows: Seq<VmNetworkSecurityView>) -> bool {
    forall|i: int|
        0 <= i < rows.len() ==> match (#[trigger] rows[i]).applied_revision {
            Some(r) => r <= rows[i].revision,
            None => true,
        }
}

/// No two policies are of the same machine.
pub open spec fn policies_distinct(rows: Seq<VmNetworkSecurityView>) -> bool {
    forall|i: int, j: int|
        0 <= i < j < rows.len() ==> (#[trigger] rows[i]).vm_id != (#[trigger] rows[j]).vm_id
}

/// Whoever applied an older revision cannot mark a newer policy as applied, and no change
/// or mark leaves a policy that counts as applied in a revision it does not have.
pub proof fn stale_applications_are_refused(
    db: DatabaseView,
    vm_id: Seq<char>,
    patch: VmNetworkSecurityPatchView,
    revision: u64,
    error: Option<Seq<char>>,
    now: Timestamp,
)
    requires
        nothing_applied_early(db.network_security),
        policies_distinct(db.network_security),
    ensures
        find(db.network_security, policy_of(vm_id)) matches Some(m) ==> m.revision != revision
            ==> mark_applied_spec(db, vm_id, revision, error, now) is Err,
        mark_applied_spec(db, vm_id, revision, error, now) matches Ok(done)
            ==> nothing_applied_early(done.0.network_security),
        patch_policy_spec(db, vm_id, patch, None, now) matches Ok(done) ==> nothing_applied_early(
            done.0.network_security,
        ),
{
    let rows = db.network_security;
    let p = policy_of(vm_id);
    first_is_first(rows, p);
    first_is_first(rows, last_revision(vm_id));
    if mark_applied_spec(db, vm_id, revision, error, now) is Ok {
        let after = revised(rows, p, applied(revision, error, now));
        let k = first(rows, p)->0;
        assert forall|i: int| 0 <= i < after.len() implies match (#[trigger] after[i]).applied_revision {
            Some(r) => r <= after[i].revision,
            None => true,
        } by {
            if p(rows[i]) && i != k {
                if i < k {
                    assert(rows[i].vm_id != rows[k].vm_id);
                } else {
                    assert(rows[k].vm_id != rows[i].vm_id);
                }
            }
        }
    }
    if patch_policy_spec(db, vm_id, patch, None, now) is Ok && !policy_patch_is_empty(patch) {
        let after = revised(rows, p, patched_policy(patch, now));
        assert forall|i: int| 0 <= i < after.len() implies match (#[trigger] after[i]).applied_revision {
            Some(r) => r <= after[i].revision,
            None => true,
        } by {
            if p(rows[i]) {
                assert(!last_revision(vm_id)(rows[i]));
            }
        }
    }
}

/// Every accepted change of a policy or its rules makes it exactly one revision newer.
pub proof fn changes_are_counted(
    db: DatabaseView,
    vm_id: Seq<char>,
    patch: VmNetworkSecurityPatchView,
    verdict: Option<AppErrorView>,
    spec: NewVmFirewallRuleView,
    owner_type: Seq<char>,
    owner_id: Option<Seq<char>>,
    limit: u64,
    rule_id: Seq<char>,
    rule_patch: VmFirewallRulePatchView,
    now: Timestamp,
    i: int,
)
    requires
        0 <= i < db.network_security.len(),
        db.network_security[i].vm_id == vm_id,
    ensures
        patch_policy_spec(db, vm_id, patch, verdict, now) matches Ok(done)
            ==> done.0.network_security[i].revision == db.network_security[i].revision + (
        if policy_patch_is_empty(patch) {
            0int
        } else {
            1
        }),
        create_rule_spec(db, vm_id, spec, owner_type, owner_id, limit, rule_id, now) matches Ok(
            done,
        ) ==> done.0.network_security[i].revision == db.network_security[i].revision + 1,
        patch_rule_spec(db, vm_id, rule_id, rule_patch, now) matches Ok(done)
            ==> done.0.network_security[i].revision == db.network_security[i].revision + (
        if rule_patch_is_empty(rule_patch) {
            0int
        } else {
            1
        }),
        delete_rule_spec(db, vm_id, rule_id, now) matches Ok(done)
            ==> done.0.network_security[i].revision == db.network_security[i].revision + 1,
{
    first_is_first(db.network_security, last_revision(vm_id));
}

/// A rule is changed and removed only through its own machine, and a change leaves its
/// owner as it is.
pub proof fn rules_stay_with_their_machine(
    db: DatabaseView,
    vm_id: Seq<char>,
    rule_id: Seq<char>,
    patch: VmFirewallRulePatchView,
    now: Timestamp,
    i: int,
)
    requires
        0 <= i < db.firewall_rules.len(),
    ensures
        patch_rule_spec(db, vm_id, rule_id, patch, now) matches Ok(done) ==> {
            &&& done.0.firewall_rules[i].vm_id == db.firewall_rules[i].vm_id
            &&& done.0.firewall_rules[i].owner_type == db.firewall_rules[i].owner_type
            &&& done.0.firewall_rules[i].owner_id == db.firewall_rules[i].owner_id
            &&& db.firewall_rules[i].vm_id != vm_id ==> done.0.firewall_rules[i]
                == db.firewall_rules[i]
        },
        delete_rule_spec(db, vm_id, rule_id, now) matches Ok(done) ==> db.firewall_rules[i].vm_id
            != vm_id ==> done.0.firewall_rules.contains(db.firewall_rules[i]),
{
    assert(db.firewall_rules.contains(db.firewall_rules[i]));
    others_has(db.firewall_rules, rule_called(vm_id, rule_id), db.firewall_rules[i]);
}

} // verus!
