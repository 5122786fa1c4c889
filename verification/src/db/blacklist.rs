//! Networks whose addresses may not be assigned, and complaints about addresses.

use vstd::prelude::*;

use crate::db::rows::{
    IpAbuseRecord, IpAbuseRecordView, IpBlacklistEntry, IpBlacklistEntryView, IpBlacklistPatch,
    IpBlacklistPatchView, NewIpAbuseRecord, NewIpAbuseRecordView, NewIpBlacklistEntry,
    NewIpBlacklistEntryView, Timestamp,
};
use crate::db::store::{
    bounded_limit, dangling_reference, duplicate_value, earlier, empty_fault, fault_if, limit_of,
    option_result, plain_result, reference_error, refers_to_vm, require_changed, row_result,
    settles, text_le_orders, unique_error, validate_non_empty, Database, DatabaseView,
};
use crate::db::admins::{or_value, trim_option};
use crate::db::vms::{changed, changed_document, changed_trimmed};
use crate::error::{not_found, validation, AppError, AppErrorView, AppResult};
use crate::net::{
    canonical_ip, canonical_ip_spec, contains, family_for_ip, ip_string, ip_text, ip_value,
    net_string, net_text, net_value, parse_ip, parse_net, truncate, AddressFamily, Ip, Net,
};
use crate::table::{
    any, append, count_is_any, find, list, listing, look_up, matching, model, models,
    nothing_removed, occurs, others, remove, revise, revised, select,
};
use crate::text::{
    copy_option, in_order, join2, option_is, own_option, same, text_le, trim, trim_spec,
    view_option, view_str,
};

verus! {

broadcast use vstd::string::group_string_axioms;

/// The network that a text writes, named by its first address.
pub open spec fn canonical_network_spec(value: Seq<char>) -> Result<Net, AppErrorView> {
    match net_value(trim_spec(value)) {
        Some(net) => Ok(net.truncated()),
        None => Err(AppErrorView::Validation("IP network CIDR is invalid"@)),
    }
}

/// The network that a text writes, named by its first address. It is taken as given that
/// nothing more is asked of a network that is barred: white space around the text does not
/// count, and a prefix of any length will do.
pub fn canonical_ip_network(value: &str) -> (r: AppResult<Net>)
    ensures
        plain_result(r) == canonical_network_spec(value@),
        r matches Ok(net) ==> net.wf(),
{
    let text = trim(value);
    match parse_net(text.as_str()) {
        Some(net) => Ok(truncate(net)),
        None => Err(validation("IP network CIDR is invalid")),
    }
}

/// An entry with an identifier or a network.
pub open spec fn entry_called(id_or_cidr: Seq<char>) -> spec_fn(IpBlacklistEntryView) -> bool {
    |m: IpBlacklistEntryView| m.id == id_or_cidr || m.cidr == id_or_cidr
}

/// An entry with an identifier.
pub open spec fn entry_with_id(id: Seq<char>) -> spec_fn(IpBlacklistEntryView) -> bool {
    |m: IpBlacklistEntryView| m.id == id
}

/// A network is barred.
pub open spec fn create_entry_spec(
    db: DatabaseView,
    spec: NewIpBlacklistEntryView,
    id: Seq<char>,
    now: Timestamp,
) -> Result<(DatabaseView, IpBlacklistEntryView), AppErrorView> {
    match earlier(
        empty_fault("blacklist reason"@, spec.reason),
        empty_fault("blacklist source"@, spec.source),
    ) {
        Some(e) => Err(e),
        None => match canonical_network_spec(spec.cidr) {
            Err(e) => Err(e),
            Ok(net) => if spec.expires_at is Some && spec.expires_at->0 <= now {
                Err(AppErrorView::Validation("blacklist expiration must be in the future"@))
            } else if any(db.ip_blacklist, entry_with_id(id)) {
                Err(unique_error("ip_blacklist.id"@))
            } else {
                let row = IpBlacklistEntryView {
                    id,
                    cidr: net_text(net),
                    family: AddressFamily::of(net.ip),
                    reason: trim_spec(spec.reason),
                    source: trim_spec(spec.source),
                    enabled: spec.enabled,
                    expires_at: spec.expires_at,
                    created_by: spec.created_by,
                    metadata: spec.metadata,
                    created_at: now,
                    updated_at: now,
                };
                Ok((DatabaseView { ip_blacklist: db.ip_blacklist.push(row), ..db }, row))
            },
        },
    }
}

/// What an identifier or a network is looked up as: a network in its usual form.
pub open spec fn entry_key(id_or_cidr: Seq<char>) -> Seq<char> {
    match canonical_network_spec(id_or_cidr) {
        Ok(net) => net_text(net),
        Err(_) => id_or_cidr,
    }
}

/// An entry that is enabled and has not expired.
pub open spec fn in_force(m: IpBlacklistEntryView, now: Timestamp) -> bool {
    m.enabled && match m.expires_at {
        Some(t) => t > now,
        None => true,
    }
}

/// An entry to be listed.
pub open spec fn listed_entry(active_only: bool, now: Timestamp) -> spec_fn(
    IpBlacklistEntryView,
) -> bool {
    |m: IpBlacklistEntryView| !active_only || in_force(m, now)
}

/// Enabled entries first, then the newest, then in the order of the networks' texts.
pub open spec fn enabled_and_newest_first() -> spec_fn(
    IpBlacklistEntryView,
    IpBlacklistEntryView,
) -> bool {
    |a: IpBlacklistEntryView, b: IpBlacklistEntryView|
        (a.enabled && !b.enabled) || (a.enabled == b.enabled && (a.created_at > b.created_at || (
        a.created_at == b.created_at && text_le(a.cidr, b.cidr))))
}

/// A change asks for nothing.
pub open spec fn entry_patch_is_empty(patch: IpBlacklistPatchView) -> bool {
    patch.reason is None && patch.source is None && patch.enabled is None && patch.expires_at
        is None && patch.metadata is None
}

/// The first fault of a change of an entry.
pub open spec fn entry_patch_fault(m: IpBlacklistEntryView, patch: IpBlacklistPatchView) -> Option<
    AppErrorView,
> {
    earlier(
        match patch.reason {
            Some(s) => empty_fault("blacklist reason"@, s),
            None => None,
        },
        earlier(
            match patch.source {
                Some(s) => empty_fault("blacklist source"@, s),
                None => None,
            },
            match patch.expires_at {
                Some(Some(t)) => fault_if(
                    t <= m.created_at,
                    AppErrorView::Validation(
                        "blacklist expiration must be after its creation time"@,
                    ),
                ),
                _ => None,
            },
        ),
    )
}

/// An entry with a change.
pub open spec fn patched_entry(patch: IpBlacklistPatchView, now: Timestamp) -> spec_fn(
    IpBlacklistEntryView,
) -> IpBlacklistEntryView {
    |m: IpBlacklistEntryView|
        IpBlacklistEntryView {
            reason: or_value(trim_option(patch.reason), m.reason),
            source: or_value(trim_option(patch.source), m.source),
            enabled: or_value(patch.enabled, m.enabled),
            expires_at: or_value(patch.expires_at, m.expires_at),
            metadata: or_value(patch.metadata, m.metadata),
            updated_at: now,
            ..m
        }
}

/// An entry is changed; a change that asks for nothing touches nothing.
pub open spec fn patch_entry_spec(
    db: DatabaseView,
    id: Seq<char>,
    patch: IpBlacklistPatchView,
    now: Timestamp,
) -> Result<(DatabaseView, IpBlacklistEntryView), AppErrorView> {
    match find(db.ip_blacklist, entry_called(id)) {
        None => Err(AppErrorView::NotFound("IP blacklist entry"@)),
        Some(m) => if entry_patch_is_empty(patch) {
            Ok((db, m))
        } else {
            match entry_patch_fault(m, patch) {
                Some(e) => Err(e),
                None => {
                    let change = patched_entry(patch, now);
                    Ok(
                        (
                            DatabaseView {
                                ip_blacklist: revised(
                                    db.ip_blacklist,
                                    entry_with_id(m.id),
                                    change,
                                ),
                                ..db
                            },
                            change(m),
                        ),
                    )
                },
            }
        },
    }
}

/// An entry is removed.
pub open spec fn delete_entry_spec(db: DatabaseView, id: Seq<char>) -> Result<
    (DatabaseView, ()),
    AppErrorView,
> {
    if !any(db.ip_blacklist, entry_with_id(id)) {
        Err(AppErrorView::NotFound("IP blacklist entry"@))
    } else {
        Ok((DatabaseView { ip_blacklist: others(db.ip_blacklist, entry_with_id(id)), ..db }, ()))
    }
}

/// An address is barred where a network in force has it.
pub open spec fn blacklisted_spec(
    entries: Seq<IpBlacklistEntryView>,
    ip: Ip,
    at: Timestamp,
) -> Result<bool, AppErrorView>
    decreases entries.len(),
{
    if entries.len() == 0 {
        Ok(false)
    } else {
        let m = entries[0];
        if in_force(m, at) && m.family == AddressFamily::of(ip) {
            match net_value(m.cidr) {
                None => Err(
                    AppErrorView::Internal("stored blacklist CIDR is invalid: "@ + m.cidr),
                ),
                Some(net) => if net.covers(ip) {
                    Ok(true)
                } else {
                    blacklisted_spec(entries.drop_first(), ip, at)
                },
            }
        } else {
            blacklisted_spec(entries.drop_first(), ip, at)
        }
    }
}

/// A complaint with an identifier.
pub open spec fn abuse_with_id(id: Seq<char>) -> spec_fn(IpAbuseRecordView) -> bool {
    |m: IpAbuseRecordView| m.id == id
}

/// A complaint is entered.
pub open spec fn record_abuse_spec(
    db: DatabaseView,
    spec: NewIpAbuseRecordView,
    id: Seq<char>,
    now: Timestamp,
) -> Result<(DatabaseView, IpAbuseRecordView), AppErrorView> {
    match earlier(
        earlier(
            empty_fault("abuse category"@, spec.category),
            empty_fault("abuse summary"@, spec.summary),
        ),
        fault_if(
            !(1 <= spec.severity <= 10),
            AppErrorView::Validation("abuse severity must be between 1 and 10"@),
        ),
    ) {
        Some(e) => Err(e),
        None => match ip_value(trim_spec(spec.address)) {
            None => Err(AppErrorView::Validation("invalid IP address: "@ + spec.address)),
            Some(ip) => if any(db.ip_abuse, abuse_with_id(id)) {
                Err(unique_error("ip_abuse_records.id"@))
            } else if !refers_to_vm(db, spec.vm_id) {
                Err(reference_error())
            } else {
                let row = IpAbuseRecordView {
                    id,
                    address: ip_text(ip),
                    family: AddressFamily::of(ip),
                    vm_id: spec.vm_id,
                    category: trim_spec(spec.category),
                    severity: spec.severity,
                    summary: trim_spec(spec.summary),
                    reporter: spec.reporter,
                    provider_reference: spec.provider_reference,
                    observed_at: or_value(spec.observed_at, now),
                    reported_at: now,
                    resolved_at: None,
                    resolved_by: None,
                    resolution: None,
                    metadata: spec.metadata,
                };
                Ok((DatabaseView { ip_abuse: db.ip_abuse.push(row), ..db }, row))
            },
        },
    }
}

/// A complaint to be listed.
pub open spec fn listed_abuse(
    address: Option<Seq<char>>,
    vm_id: Option<Seq<char>>,
    unresolved_only: bool,
) -> spec_fn(IpAbuseRecordView) -> bool {
    |m: IpAbuseRecordView|
        (address is None || m.address == address->0) && (vm_id is None || m.vm_id == vm_id) && (
        !unresolved_only || m.resolved_at is None)
}

/// Observed last, then reported last.
pub open spec fn observed_last() -> spec_fn(IpAbuseRecordView, IpAbuseRecordView) -> bool {
    |a: IpAbuseRecordView, b: IpAbuseRecordView|
        a.observed_at > b.observed_at || (a.observed_at == b.observed_at && a.reported_at
            >= b.reported_at)
}

/// The canonical form of an optional address.
pub open spec fn optional_canonical_ip(o: Option<Seq<char>>) -> Result<
    Option<Seq<char>>,
    AppErrorView,
> {
    match o {
        None => Ok(None),
        Some(s) => match canonical_ip_spec(s) {
            Ok(t) => Ok(Some(t)),
            Err(e) => Err(e),
        },
    }
}

/// A complaint that is resolved; the time of an earlier resolution stays.
pub open spec fn resolved(
    resolved_by: Option<Seq<char>>,
    resolution: Seq<char>,
    now: Timestamp,
) -> spec_fn(IpAbuseRecordView) -> IpAbuseRecordView {
    |m: IpAbuseRecordView|
        IpAbuseRecordView {
            resolved_at: Some(or_value(m.resolved_at, now)),
            resolved_by,
            resolution: Some(trim_spec(resolution)),
            ..m
        }
}

/// A complaint is resolved.
pub open spec fn resolve_abuse_spec(
    db: DatabaseView,
    id: Seq<char>,
    resolved_by: Option<Seq<char>>,
    resolution: Seq<char>,
    now: Timestamp,
) -> Result<(DatabaseView, IpAbuseRecordView), AppErrorView> {
    match empty_fault("abuse resolution"@, resolution) {
        Some(e) => Err(e),
        None => match find(db.ip_abuse, abuse_with_id(id)) {
            None => Err(AppErrorView::NotFound("IP abuse record"@)),
            Some(m) => {
                let change = resolved(resolved_by, resolution, now);
                Ok(
                    (
                        DatabaseView {
                            ip_abuse: revised(db.ip_abuse, abuse_with_id(id), change),
                            ..db
                        },
                        change(m),
                    ),
                )
            },
        },
    }
}

fn is_in_force(row: &IpBlacklistEntry, now: Timestamp) -> (r: bool)
    ensures
        r == in_force(row@, now),
{
    row.enabled && match row.expires_at {
        Some(t) => t > now,
        None => true,
    }
}

impl Database {
    /// Bars a network.
    pub fn create_ip_blacklist_entry(
        &mut self,
        spec: &NewIpBlacklistEntry,
        id: &str,
        now: Timestamp,
    ) -> (r: AppResult<IpBlacklistEntry>)
        ensures
            settles(
                create_entry_spec(old(self)@, spec@, id@, now),
                old(self)@,
                final(self)@,
                row_result(r),
            ),
    {
        match validate_non_empty("blacklist reason", spec.reason.as_str()) {
            Err(e) => {
                return Err(e);
            },
            Ok(v) => v,
        };
        match validate_non_empty("blacklist source", spec.source.as_str()) {
            Err(e) => {
                return Err(e);
            },
            Ok(v) => v,
        };
        let net = match canonical_ip_network(spec.cidr.as_str()) {
            Err(e) => {
                return Err(e);
            },
            Ok(v) => v,
        };
        match spec.expires_at {
            Some(t) => {
                if t <= now {
                    return Err(validation("blacklist expiration must be in the future"));
                }
            },
            None => {},
        }
        let test = |x: &IpBlacklistEntry| -> (b: bool)
            ensures
                b == entry_with_id(id@)(x@),
            { same(x.id.as_str(), id) };
        if occurs(&self.ip_blacklist, test, Ghost(entry_with_id(id@))) {
            return Err(duplicate_value("ip_blacklist.id"));
        }
        let row = IpBlacklistEntry {
            id: id.to_owned(),
            cidr: net_string(net),
            family: family_for_ip(net.ip),
            reason: trim(spec.reason.as_str()),
            source: trim(spec.source.as_str()),
            enabled: spec.enabled,
            expires_at: spec.expires_at,
            created_by: copy_option(&spec.created_by),
            metadata: spec.metadata.clone(),
            created_at: now,
            updated_at: now,
        };
        let shown = row.clone();
        append(&mut self.ip_blacklist, row);
        Ok(shown)
    }

    fn find_entry(&self, id_or_cidr: &str) -> (r: Option<IpBlacklistEntry>)
        ensures
            model(r) == find(self@.ip_blacklist, entry_called(id_or_cidr@)),
    {
        let test = |x: &IpBlacklistEntry| -> (b: bool)
            ensures
                b == entry_called(id_or_cidr@)(x@),
            { same(x.id.as_str(), id_or_cidr) || same(x.cidr.as_str(), id_or_cidr) };
        look_up(&self.ip_blacklist, test, Ghost(entry_called(id_or_cidr@)))
    }

    /// The entry with an identifier or a network, in whatever form it is written.
    pub fn get_ip_blacklist_entry(&self, id_or_cidr: &str) -> (r: AppResult<
        Option<IpBlacklistEntry>,
    >)
        ensures
            option_result(r) == Ok::<Option<IpBlacklistEntryView>, AppErrorView>(
                find(self@.ip_blacklist, entry_called(entry_key(id_or_cidr@))),
            ),
    {
        match canonical_ip_network(id_or_cidr) {
            Ok(net) => {
                let text = net_string(net);
                Ok(self.find_entry(text.as_str()))
            },
            Err(_) => Ok(self.find_entry(id_or_cidr)),
        }
    }

    /// The entries, or those in force: enabled ones first, then the newest.
    pub fn list_ip_blacklist_entries(&self, active_only: bool, now: Timestamp) -> (r: AppResult<
        Vec<IpBlacklistEntry>,
    >)
        ensures
            r is Ok,
            listing(
                models(r->Ok_0@),
                matching(self@.ip_blacklist, listed_entry(active_only, now)),
                enabled_and_newest_first(),
                usize::MAX as int,
            ),
    {
        let test = |x: &IpBlacklistEntry| -> (b: bool)
            ensures
                b == listed_entry(active_only, now)(x@),
            { !active_only || is_in_force(x, now) };
        let rows = select(&self.ip_blacklist, test, Ghost(listed_entry(active_only, now)));
        proof {
            text_le_orders();
        }
        let le = |a: &IpBlacklistEntry, c: &IpBlacklistEntry| -> (b: bool)
            ensures
                b == enabled_and_newest_first()(a@, c@),
            {
                (a.enabled && !c.enabled)
                    || (a.enabled == c.enabled
                        && (a.created_at > c.created_at || (a.created_at == c.created_at && in_order(a.cidr.as_str(), c.cidr.as_str()))))
            };
        Ok(list(rows, le, usize::MAX, Ghost(enabled_and_newest_first())))
    }

    /// Changes an entry.
    pub fn patch_ip_blacklist_entry(
        &mut self,
        id: &str,
        patch: &IpBlacklistPatch,
        now: Timestamp,
    ) -> (r: AppResult<IpBlacklistEntry>)
        ensures
            settles(
                patch_entry_spec(old(self)@, id@, patch@, now),
                old(self)@,
                final(self)@,
                row_result(r),
            ),
    {
        let entry = match self.find_entry(id) {
            None => {
                return Err(not_found("IP blacklist entry"));
            },
            Some(row) => row,
        };
        if patch.reason.is_none() && patch.source.is_none() && patch.enabled.is_none()
            && patch.expires_at.is_none() && patch.metadata.is_none() {
            return Ok(entry);
        }
        match &patch.reason {
            Some(s) => {
                match validate_non_empty("blacklist reason", s.as_str()) {
                    Err(e) => {
                        return Err(e);
                    },
                    Ok(v) => v,
                };
            },
            None => {},
        }
        match &patch.source {
            Some(s) => {
                match validate_non_empty("blacklist source", s.as_str()) {
                    Err(e) => {
                        return Err(e);
                    },
                    Ok(v) => v,
                };
            },
            None => {},
        }
        match patch.expires_at {
            Some(Some(t)) => {
                if t <= entry.created_at {
                    return Err(
                        validation("blacklist expiration must be after its creation time"),
                    );
                }
            },
            _ => {},
        }
        let key = entry.id.as_str();
        let ghost f = patched_entry(patch@, now);
        let chosen = |x: &IpBlacklistEntry| -> (b: bool)
            ensures
                b == entry_with_id(key@)(x@),
            { same(x.id.as_str(), key) };
        let change = |x: &IpBlacklistEntry| -> (y: IpBlacklistEntry)
            ensures
                y@ == f(x@),
            { IpBlacklistEntry {
            id: x.id.clone(),
            cidr: x.cidr.clone(),
            family: x.family,
            reason: changed_trimmed(&patch.reason, &x.reason),
            source: changed_trimmed(&patch.source, &x.source),
            enabled: changed(patch.enabled, x.enabled),
            expires_at: changed(patch.expires_at, x.expires_at),
            created_by: copy_option(&x.created_by),
            metadata: changed_document(&patch.metadata, &x.metadata),
            created_at: x.created_at,
            updated_at: now,
        } };
        let shown = change(&entry);
        let _ = revise(&mut self.ip_blacklist, chosen, change, Ghost(entry_with_id(key@)), Ghost(f));
        Ok(shown)
    }

    /// Removes an entry.
    pub fn delete_ip_blacklist_entry(&mut self, id: &str) -> (r: AppResult<()>)
        ensures
            settles(delete_entry_spec(old(self)@, id@), old(self)@, final(self)@, plain_result(r)),
    {
        let chosen = |x: &IpBlacklistEntry| -> (b: bool)
            ensures
                b == entry_with_id(id@)(x@),
            { same(x.id.as_str(), id) };
        let n: usize = remove(&mut self.ip_blacklist, chosen, Ghost(entry_with_id(id@)));
        proof {
            count_is_any(old(self)@.ip_blacklist, entry_with_id(id@));
            nothing_removed(old(self)@.ip_blacklist, entry_with_id(id@));
        }
        require_changed(n, "IP blacklist entry")
    }

    /// Whether an address is barred at a time.
    pub fn ip_is_blacklisted(&self, address: &str, at: Timestamp) -> (r: AppResult<bool>)
        ensures
            plain_result(r) == (match ip_value(trim_spec(address@)) {
                None => Err(AppErrorView::Validation("IP address is invalid"@)),
                Some(ip) => blacklisted_spec(self@.ip_blacklist, ip, at),
            }),
    {
        let text = trim(address);
        match parse_ip(text.as_str()) {
            None => Err(validation("IP address is invalid")),
            Some(ip) => self.check_blacklist(ip, at),
        }
    }

    #[verifier::loop_isolation(false)]
    pub(crate) fn check_blacklist(&self, ip: Ip, at: Timestamp) -> (r: AppResult<bool>)
        requires
            ip.wf(),
        ensures
            plain_result(r) == blacklisted_spec(self@.ip_blacklist, ip, at),
    {
        let ghost es = self@.ip_blacklist;
        let family = family_for_ip(ip);
        let mut i: usize = 0;
        proof {
            assert(es.skip(0) =~= es);
        }
        while i < self.ip_blacklist.len()
            invariant
                i <= self.ip_blacklist@.len(),
                blacklisted_spec(es, ip, at) == blacklisted_spec(es.skip(i as int), ip, at),
            decreases self.ip_blacklist@.len() - i,
        {
            proof {
                assert(es.skip(i as int)[0] == self.ip_blacklist@[i as int]@);
                assert(es.skip(i as int).drop_first() =~= es.skip(i as int + 1));
            }
            let row = &self.ip_blacklist[i];
            if is_in_force(row, at) && row.family == family {
                match parse_net(row.cidr.as_str()) {
                    None => {
                        return Err(
                            AppError::Internal(
                                join2("stored blacklist CIDR is invalid: ", row.cidr.as_str()),
                            ),
                        );
                    },
                    Some(net) => {
                        if contains(net, ip) {
                            return Ok(true);
                        }
                    },
                }
            }
            i = i + 1;
        }
        Ok(false)
    }

    /// Enters a complaint about an address.
    pub fn record_ip_abuse(&mut self, spec: &NewIpAbuseRecord, id: &str, now: Timestamp) -> (r:
        AppResult<IpAbuseRecord>)
        ensures
            settles(
                record_abuse_spec(old(self)@, spec@, id@, now),
                old(self)@,
                final(self)@,
                row_result(r),
            ),
    {
        match validate_non_empty("abuse category", spec.category.as_str()) {
            Err(e) => {
                return Err(e);
            },
            Ok(v) => v,
        };
        match validate_non_empty("abuse summary", spec.summary.as_str()) {
            Err(e) => {
                return Err(e);
            },
            Ok(v) => v,
        };
        if !(1 <= spec.severity && spec.severity <= 10) {
            return Err(validation("abuse severity must be between 1 and 10"));
        }
        let text = trim(spec.address.as_str());
        let ip = match parse_ip(text.as_str()) {
            None => {
                return Err(
                    AppError::Validation(join2("invalid IP address: ", spec.address.as_str())),
                );
            },
            Some(ip) => ip,
        };
        let test = |x: &IpAbuseRecord| -> (b: bool)
            ensures
                b == abuse_with_id(id@)(x@),
            { same(x.id.as_str(), id) };
        if occurs(&self.ip_abuse, test, Ghost(abuse_with_id(id@))) {
            return Err(duplicate_value("ip_abuse_records.id"));
        }
        if !self.has_optional_vm(&spec.vm_id) {
            return Err(dangling_reference());
        }
        let row = IpAbuseRecord {
            id: id.to_owned(),
            address: ip_string(ip),
            family: family_for_ip(ip),
            vm_id: copy_option(&spec.vm_id),
            category: trim(spec.category.as_str()),
            severity: spec.severity,
            summary: trim(spec.summary.as_str()),
            reporter: copy_option(&spec.reporter),
            provider_reference: copy_option(&spec.provider_reference),
            observed_at: changed(spec.observed_at, now),
            reported_at: now,
            resolved_at: None,
            resolved_by: None,
            resolution: None,
            metadata: spec.metadata.clone(),
        };
        let shown = row.clone();
        append(&mut self.ip_abuse, row);
        Ok(shown)
    }

    /// The complaint with an identifier.
    pub fn get_ip_abuse_record(&self, id: &str) -> (r: AppResult<Option<IpAbuseRecord>>)
        ensures
            option_result(r) == Ok::<Option<IpAbuseRecordView>, AppErrorView>(
                find(self@.ip_abuse, abuse_with_id(id@)),
            ),
    {
        let test = |x: &IpAbuseRecord| -> (b: bool)
            ensures
                b == abuse_with_id(id@)(x@),
            { same(x.id.as_str(), id) };
        Ok(look_up(&self.ip_abuse, test, Ghost(abuse_with_id(id@))))
    }

    /// Complaints about an address or a machine, those observed last first.
    pub fn list_ip_abuse_records(
        &self,
        address: Option<&str>,
        vm_id: Option<&str>,
        unresolved_only: bool,
        limit: usize,
    ) -> (r: AppResult<Vec<IpAbuseRecord>>)
        ensures
            match r {
                Err(e) => optional_canonical_ip(view_str(address)) == Err::<
                    Option<Seq<char>>,
                    AppErrorView,
                >(e@),
                Ok(rows) => optional_canonical_ip(view_str(address)) is Ok && listing(
                    models(rows@),
                    matching(
                        self@.ip_abuse,
                        listed_abuse(
                            optional_canonical_ip(view_str(address))->Ok_0,
                            view_str(vm_id),
                            unresolved_only,
                        ),
                    ),
                    observed_last(),
                    limit_of(limit, 5000),
                ),
            },
    {
        let wanted: Option<String> = match address {
            None => None,
            Some(s) => {
                let text = match canonical_ip(s) {
                    Err(e) => {
                        return Err(e);
                    },
                    Ok(v) => v,
                };
                Some(text)
            },
        };
        let n: usize = bounded_limit(limit, 5000);
        let ghost p = listed_abuse(view_option(wanted), view_str(vm_id), unresolved_only);
        let test = |x: &IpAbuseRecord| -> (b: bool)
            ensures
                b == p(x@),
            { (match &wanted {
            None => true,
            Some(s) => same(x.address.as_str(), s.as_str()),
        }) && (match vm_id {
            None => true,
            Some(v) => option_is(&x.vm_id, v),
        }) && (!unresolved_only || x.resolved_at.is_none()) };
        let rows = select(&self.ip_abuse, test, Ghost(p));
        let le = |a: &IpAbuseRecord, c: &IpAbuseRecord| -> (b: bool)
            ensures
                b == observed_last()(a@, c@),
            {
                a.observed_at > c.observed_at
                    || (a.observed_at == c.observed_at && a.reported_at >= c.reported_at)
            };
        Ok(list(rows, le, n, Ghost(observed_last())))
    }

    /// Resolves a complaint.
    pub fn resolve_ip_abuse_record(
        &mut self,
        id: &str,
        resolved_by: Option<&str>,
        resolution: &str,
        now: Timestamp,
    ) -> (r: AppResult<IpAbuseRecord>)
        ensures
            settles(
                resolve_abuse_spec(old(self)@, id@, view_str(resolved_by), resolution@, now),
                old(self)@,
                final(self)@,
                row_result(r),
            ),
    {
        match validate_non_empty("abuse resolution", resolution) {
            Err(e) => {
                return Err(e);
            },
            Ok(v) => v,
        };
        let chosen = |x: &IpAbuseRecord| -> (b: bool)
            ensures
                b == abuse_with_id(id@)(x@),
            { same(x.id.as_str(), id) };
        let row = match look_up(&self.ip_abuse, chosen, Ghost(abuse_with_id(id@))) {
            None => {
                return Err(not_found("IP abuse record"));
            },
            Some(row) => row,
        };
        let ghost f = resolved(view_str(resolved_by), resolution@, now);
        let change = |x: &IpAbuseRecord| -> (y: IpAbuseRecord)
            ensures
                y@ == f(x@),
            { {
            let mut y = x.clone();
            y.resolved_at = Some(changed(x.resolved_at, now));
            y.resolved_by = own_option(resolved_by);
            y.resolution = Some(trim(resolution));
            y
        } };
        let shown = change(&row);
        let _ = revise(&mut self.ip_abuse, chosen, change, Ghost(abuse_with_id(id@)), Ghost(f));
        Ok(shown)
    }
}

} // verus!
