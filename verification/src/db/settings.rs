//! Settings, name servers, installation images and the inventory of the host.

use vstd::prelude::*;

use crate::db::rows::{
    DnsServer, DnsServerView, HostInventory, HostInventoryView, IsoImage, IsoImageView,
    SettingRecord, SettingRecordView, Timestamp,
};
use crate::db::store::{
    checked_i64, dangling_reference, earlier, empty_fault, fault_if, folded_in_order, folded_le,
    folded_le_orders, option_result, optional_i64, optional_range_fault, plain_result, range_fault,
    reference_error, refers_to_vm, require_changed, row_result, settles, text_le_orders,
    validate_non_empty, Database, DatabaseView,
};
use crate::db::admins::admin_with_id;
use crate::db::pools::pool_with_id;
use crate::error::{validation, AppError, AppErrorView, AppResult};
use crate::json::{texts_json, Document, Json};
use crate::net::{
    canonical_ip, canonical_ip_spec, dns_addresses, family_for_ip, ip_value,
    normalize_dns_addresses, parse_ip, AddressFamily,
};
use crate::table::{
    all, any, append, count, count_is_any, find, list, listing, look_up, matching, models,
    nothing_removed, occurs, orders, others, remove, revise, revised, select,
};
use crate::text::{
    copy_option, eq_ignore_ascii_case, equal_ignoring_case, in_order, own_option, same, same_option,
    text_le, trim, trim_spec, view_str, views,
};

verus! {

broadcast use vstd::string::group_string_axioms;

/// A name server of a range, of a machine, or of neither.
pub open spec fn dns_scope(pool_id: Option<Seq<char>>, vm_id: Option<Seq<char>>) -> spec_fn(
    DnsServerView,
) -> bool {
    |m: DnsServerView| m.pool_id == pool_id && m.vm_id == vm_id
}

/// By priority, then in the order of entry.
pub open spec fn by_priority() -> spec_fn(DnsServerView, DnsServerView) -> bool {
    |a: DnsServerView, b: DnsServerView|
        a.priority < b.priority || (a.priority == b.priority && a.id <= b.id)
}

/// Some text is no address.
pub open spec fn has_non_address(addresses: Seq<Seq<char>>) -> bool {
    exists|i: int| 0 <= i < addresses.len() && ip_value(#[trigger] addresses[i]) is None
}

/// The rows of some name servers, in the order of their priority.
pub open spec fn dns_rows(
    addresses: Seq<Seq<char>>,
    last_id: i64,
    pool_id: Option<Seq<char>>,
    vm_id: Option<Seq<char>>,
) -> Seq<DnsServerView> {
    Seq::new(
        addresses.len(),
        |i: int|
            DnsServerView {
                id: (last_id + 1 + i) as i64,
                address: addresses[i],
                family: AddressFamily::of(ip_value(addresses[i])->0),
                priority: i as i64,
                pool_id,
                vm_id,
            },
    )
}

/// The name servers of a scope are replaced by others.
pub open spec fn replaced_dns(
    db: DatabaseView,
    pool_id: Option<Seq<char>>,
    vm_id: Option<Seq<char>>,
    addresses: Seq<Seq<char>>,
) -> Result<(DatabaseView, ()), AppErrorView> {
    if addresses.len() > 0 && ((pool_id is Some && !any(db.ip_pools, pool_with_id(pool_id->0)))
        || !refers_to_vm(db, vm_id)) {
        Err(reference_error())
    } else if has_non_address(addresses) {
        Err(AppErrorView::Validation("DNS server address is invalid"@))
    } else if db.last_dns_id + addresses.len() > i64::MAX {
        Err(AppErrorView::Database("database or disk is full"@))
    } else {
        Ok(
            (
                DatabaseView {
                    dns_servers: others(db.dns_servers, dns_scope(pool_id, vm_id)) + dns_rows(
                        addresses,
                        db.last_dns_id,
                        pool_id,
                        vm_id,
                    ),
                    last_dns_id: (db.last_dns_id + addresses.len()) as i64,
                    ..db
                },
                (),
            ),
        )
    }
}

/// The name servers of a range, of a machine, or of neither are replaced.
pub open spec fn replace_dns_spec(
    db: DatabaseView,
    pool_id: Option<Seq<char>>,
    vm_id: Option<Seq<char>>,
    addresses: Seq<Seq<char>>,
) -> Result<(DatabaseView, ()), AppErrorView> {
    if pool_id is Some && vm_id is Some {
        Err(AppErrorView::Validation("DNS scope cannot be both a pool and a VM"@))
    } else {
        match dns_addresses(addresses) {
            Err(e) => Err(e),
            Ok(list) => replaced_dns(db, pool_id, vm_id, list),
        }
    }
}

/// A setting with a key.
pub open spec fn setting_with_key(key: Seq<char>) -> spec_fn(SettingRecordView) -> bool {
    |m: SettingRecordView| m.key == key
}

/// A setting with another value.
pub open spec fn with_value(
    value: Json,
    encrypted: bool,
    updated_by: Option<Seq<char>>,
    now: Timestamp,
) -> spec_fn(SettingRecordView) -> SettingRecordView {
    |m: SettingRecordView|
        SettingRecordView { value, encrypted, updated_by, updated_at: now, ..m }
}

/// An optional reference to an administrator is to one who is there.
pub open spec fn refers_to_admin(db: DatabaseView, admin_id: Option<Seq<char>>) -> bool {
    match admin_id {
        Some(id) => any(db.admins, admin_with_id(id)),
        None => true,
    }
}

/// A setting is entered or gets another value.
pub open spec fn stored_setting(
    db: DatabaseView,
    key: Seq<char>,
    value: Json,
    encrypted: bool,
    updated_by: Option<Seq<char>>,
    now: Timestamp,
) -> Result<(DatabaseView, SettingRecordView), AppErrorView> {
    if !refers_to_admin(db, updated_by) {
        Err(reference_error())
    } else {
        let row = SettingRecordView { key, value, encrypted, updated_by, updated_at: now };
        Ok(
            (
                DatabaseView {
                    settings: if any(db.settings, setting_with_key(key)) {
                        revised(
                            db.settings,
                            setting_with_key(key),
                            with_value(value, encrypted, updated_by, now),
                        )
                    } else {
                        db.settings.push(row)
                    },
                    ..db
                },
                row,
            ),
        )
    }
}

/// A setting with a key that is not blank is entered or gets another value.
pub open spec fn set_setting_spec(
    db: DatabaseView,
    key: Seq<char>,
    value: Json,
    encrypted: bool,
    updated_by: Option<Seq<char>>,
    now: Timestamp,
) -> Result<(DatabaseView, SettingRecordView), AppErrorView> {
    match empty_fault("setting key"@, key) {
        Some(e) => Err(e),
        None => stored_setting(db, key, value, encrypted, updated_by, now),
    }
}

/// The network setting and the default name servers are replaced together, or neither is;
/// the setting names exactly these servers.
pub open spec fn set_network_spec(
    db: DatabaseView,
    network: Json,
    addresses: Seq<Seq<char>>,
    updated_by: Option<Seq<char>>,
    now: Timestamp,
) -> Result<(DatabaseView, SettingRecordView), AppErrorView> {
    match dns_addresses(addresses) {
        Err(e) => Err(e),
        Ok(list) => if !(network is Object) {
            Err(AppErrorView::Validation("network setting must be an object"@))
        } else {
            match replaced_dns(db, None, None, list) {
                Err(e) => Err(e),
                Ok((between, _)) => stored_setting(
                    between,
                    "network"@,
                    network.with_member("dns_servers"@, texts_json(list)),
                    false,
                    updated_by,
                    now,
                ),
            }
        },
    }
}

/// A setting to be listed.
pub open spec fn listed_setting(include_encrypted: bool) -> spec_fn(SettingRecordView) -> bool {
    |m: SettingRecordView| include_encrypted || !m.encrypted
}

/// In the order of the keys.
pub open spec fn by_key() -> spec_fn(SettingRecordView, SettingRecordView) -> bool {
    |a: SettingRecordView, b: SettingRecordView| text_le(a.key, b.key)
}

/// An image by its identifier or its short name; the case of the latter does not matter.
pub open spec fn iso_called(id_or_slug: Seq<char>) -> spec_fn(IsoImageView) -> bool {
    |m: IsoImageView| m.id == id_or_slug || equal_ignoring_case(m.slug, id_or_slug)
}

/// An image by its identifier.
pub open spec fn iso_with_id(id: Seq<char>) -> spec_fn(IsoImageView) -> bool {
    |m: IsoImageView| m.id == id
}

/// An image that is entered anew; the time of its first entry stays.
pub open spec fn reentered_iso(image: IsoImageView) -> spec_fn(IsoImageView) -> IsoImageView {
    |m: IsoImageView| IsoImageView { created_at: m.created_at, ..image }
}

/// An image is entered, or one with its identifier is entered anew.
pub open spec fn upsert_iso_spec(
    db: DatabaseView,
    image: IsoImageView,
    new_id: Seq<char>,
    now: Timestamp,
) -> Result<(DatabaseView, IsoImageView), AppErrorView> {
    match earlier(
        earlier(empty_fault("ISO slug"@, image.slug), empty_fault("ISO name"@, image.name)),
        earlier(
            fault_if(
                image.source_url is None && image.local_path is None,
                AppErrorView::Validation("an ISO needs a source URL or local path"@),
            ),
            optional_range_fault(image.size_bytes, "ISO size"@),
        ),
    ) {
        Some(e) => Err(e),
        None => {
            let id = if trim_spec(image.id).len() == 0 {
                new_id
            } else {
                image.id
            };
            let row = IsoImageView {
                id,
                slug: trim_spec(image.slug),
                name: trim_spec(image.name),
                created_at: if image.created_at <= 0 {
                    now
                } else {
                    image.created_at
                },
                updated_at: now,
                ..image
            };
            match find(db.isos, iso_with_id(id)) {
                None => Ok((DatabaseView { isos: db.isos.push(row), ..db }, row)),
                Some(m) => Ok(
                    (
                        DatabaseView {
                            isos: revised(db.isos, iso_with_id(id), reentered_iso(row)),
                            ..db
                        },
                        reentered_iso(row)(m),
                    ),
                ),
            }
        },
    }
}

/// An image to be listed.
pub open spec fn listed_iso(include_disabled: bool) -> spec_fn(IsoImageView) -> bool {
    |m: IsoImageView| include_disabled || m.enabled
}

/// By family, then name, then version.
pub open spec fn by_family_name_version() -> spec_fn(IsoImageView, IsoImageView) -> bool {
    |a: IsoImageView, b: IsoImageView|
        !text_le(b.os_family, a.os_family) || (text_le(a.os_family, b.os_family) && (!folded_le(
            b.name,
            a.name,
        ) || (folded_le(a.name, b.name) && text_le(a.version, b.version))))
}

/// An image is removed.
pub open spec fn delete_iso_spec(db: DatabaseView, id_or_slug: Seq<char>) -> Result<
    (DatabaseView, ()),
    AppErrorView,
> {
    if !any(db.isos, iso_called(id_or_slug)) {
        Err(AppErrorView::NotFound("ISO"@))
    } else {
        Ok((DatabaseView { isos: others(db.isos, iso_called(id_or_slug)), ..db }, ()))
    }
}

/// The canonical forms of some addresses.
pub open spec fn canonical_ips(addresses: Seq<Seq<char>>) -> Result<Seq<Seq<char>>, AppErrorView>
    decreases addresses.len(),
{
    if addresses.len() == 0 {
        Ok(Seq::empty())
    } else {
        match canonical_ips(addresses.drop_last()) {
            Err(e) => Err(e),
            Ok(front) => match canonical_ip_spec(addresses.last()) {
                Err(e) => Err(e),
                Ok(ip) => Ok(front.push(ip)),
            },
        }
    }
}

/// What was detected of the host is recorded.
pub open spec fn upsert_inventory_spec(db: DatabaseView, inventory: HostInventoryView) -> Result<
    (DatabaseView, ()),
    AppErrorView,
> {
    if inventory.cpu_cores == 0 || inventory.listen_port == 0 {
        Err(AppErrorView::Validation("host inventory needs CPU cores and a listen port"@))
    } else {
        match canonical_ips(inventory.detected_addresses) {
            Err(e) => Err(e),
            Ok(list) => match earlier(
                range_fault(inventory.memory_total_bytes, "host memory"@),
                range_fault(inventory.root_disk_total_bytes, "host disk"@),
            ) {
                Some(e) => Err(e),
                None => Ok(
                    (
                        DatabaseView {
                            inventory: Some(
                                HostInventoryView { detected_addresses: list, ..inventory },
                            ),
                            ..db
                        },
                        (),
                    ),
                ),
            },
        }
    }
}

proof fn bad_address_stays(addresses: Seq<Seq<char>>, n: int)
    requires
        0 <= n <= addresses.len(),
        canonical_ips(addresses.take(n)) is Err,
    ensures
        canonical_ips(addresses) == canonical_ips(addresses.take(n)),
    decreases addresses.len(),
{
    if n == addresses.len() {
        assert(addresses.take(n) =~= addresses);
    } else {
        let front = addresses.drop_last();
        assert(front.take(n) =~= addresses.take(n));
        bad_address_stays(front, n);
    }
}

/// The canonical forms of some addresses.
#[verifier::loop_isolation(false)]
fn canonicalize(addresses: &Vec<String>) -> (r: AppResult<Vec<String>>)
    ensures
        match r {
            Ok(list) => canonical_ips(views(addresses@)) == Ok::<Seq<Seq<char>>, AppErrorView>(
                views(list@),
            ),
            Err(e) => canonical_ips(views(addresses@)) == Err::<Seq<Seq<char>>, AppErrorView>(e@),
        },
{
    let ghost all = views(addresses@);
    let mut r: Vec<String> = Vec::new();
    let mut i: usize = 0;
    proof {
        assert(all.take(0) =~= Seq::<Seq<char>>::empty());
        assert(views(r@) =~= Seq::<Seq<char>>::empty());
    }
    while i < addresses.len()
        invariant
            i <= addresses@.len(),
            canonical_ips(all.take(i as int)) == Ok::<Seq<Seq<char>>, AppErrorView>(views(r@)),
        decreases addresses@.len() - i,
    {
        proof {
            assert(all.take(i as int + 1).drop_last() =~= all.take(i as int));
            assert(all.take(i as int + 1).last() == addresses@[i as int]@);
        }
        match canonical_ip(addresses[i].as_str()) {
            Err(e) => {
                proof {
                    bad_address_stays(all, i as int + 1);
                }
                return Err(e);
            },
            Ok(text) => {
                let ghost before = r@;
                let ghost t = text@;
                r.push(text);
                proof {
                    assert(views(r@) =~= views(before).push(t));
                }
            },
        }
        i = i + 1;
    }
    proof {
        assert(all.take(all.len() as int) =~= all);
    }
    Ok(r)
}

/// Whether some text is no address.
#[verifier::loop_isolation(false)]
fn lists_non_address(addresses: &Vec<String>) -> (r: bool)
    ensures
        r == has_non_address(views(addresses@)),
{
    let ghost all = views(addresses@);
    let mut i: usize = 0;
    while i < addresses.len()
        invariant
            i <= addresses@.len(),
            forall|j: int| 0 <= j < i ==> ip_value(#[trigger] all[j]) is Some,
        decreases addresses@.len() - i,
    {
        proof {
            assert(all[i as int] == addresses@[i as int]@);
        }
        if parse_ip(addresses[i].as_str()).is_none() {
            return true;
        }
        i = i + 1;
    }
    false
}

impl Database {
    fn has_optional_admin(&self, id: Option<&str>) -> (r: bool)
        ensures
            r == refers_to_admin(self@, view_str(id)),
    {
        match id {
            Some(id) => self.has_admin(id),
            None => true,
        }
    }

    #[verifier::loop_isolation(false)]
    fn replace_dns(&mut self, pool_id: Option<&str>, vm_id: Option<&str>, list: &Vec<String>) -> (r:
        AppResult<()>)
        requires
            list@.len() <= 32,
        ensures
            settles(
                replaced_dns(old(self)@, view_str(pool_id), view_str(vm_id), views(list@)),
                old(self)@,
                final(self)@,
                plain_result(r),
            ),
    {
        let ghost addresses = views(list@);
        proof {
            assert(addresses.len() == list@.len());
        }
        if list.len() > 0 {
            match pool_id {
                Some(id) => {
                    if self.find_pool(id).is_none() {
                        return Err(dangling_reference());
                    }
                },
                None => {},
            }
            let vm = own_option(vm_id);
            if !self.has_optional_vm(&vm) {
                return Err(dangling_reference());
            }
        }
        if lists_non_address(list) {
            return Err(validation("DNS server address is invalid"));
        }
        let n: usize = list.len();
        if self.last_dns_id > i64::MAX - n as i64 {
            return Err(AppError::Database("database or disk is full".to_owned()));
        }
        let ghost p = dns_scope(view_str(pool_id), view_str(vm_id));
        let pool = own_option(pool_id);
        let vm = own_option(vm_id);
        let chosen = |x: &DnsServer| -> (b: bool)
            ensures
                b == p(x@),
            { same_option(&x.pool_id, &pool) && same_option(&x.vm_id, &vm) };
        let _ = remove(&mut self.dns_servers, chosen, Ghost(p));
        let ghost kept = models(self.dns_servers@);
        let ghost rows = dns_rows(addresses, self.last_dns_id, view_str(pool_id), view_str(vm_id));
        let last: i64 = self.last_dns_id;
        let mut i: usize = 0;
        proof {
            assert(kept + rows.take(0) =~= kept);
        }
        while i < list.len()
            invariant
                i <= list@.len() == n,
                models(self.dns_servers@) == kept + rows.take(i as int),
                self@ == (DatabaseView { dns_servers: models(self.dns_servers@), ..old(self)@ }),
            decreases list@.len() - i,
        {
            proof {
                assert(addresses[i as int] == list@[i as int]@);
                assert(ip_value(addresses[i as int]) is Some);
                assert(rows.take(i as int + 1) =~= rows.take(i as int).push(rows[i as int]));
            }
            let family = match parse_ip(list[i].as_str()) {
                Some(ip) => family_for_ip(ip),
                None => AddressFamily::V4,
            };
            let ghost before = models(self.dns_servers@);
            append(
                &mut self.dns_servers,
                DnsServer {
                    id: last + 1 + i as i64,
                    address: list[i].clone(),
                    family,
                    priority: i as i64,
                    pool_id: copy_option(&pool),
                    vm_id: copy_option(&vm),
                },
            );
            proof {
                assert(models(self.dns_servers@) =~= kept + rows.take(i as int + 1));
            }
            i = i + 1;
        }
        self.last_dns_id = last + n as i64;
        proof {
            assert(rows.take(rows.len() as int) =~= rows);
        }
        Ok(())
    }

    /// The name servers of a range, of a machine, or of neither, by priority.
    pub fn dns_servers(&self, pool_id: Option<&str>, vm_id: Option<&str>) -> (r: AppResult<
        Vec<DnsServer>,
    >)
        ensures
            r is Ok,
            listing(
                models(r->Ok_0@),
                matching(self@.dns_servers, dns_scope(view_str(pool_id), view_str(vm_id))),
                by_priority(),
                usize::MAX as int,
            ),
    {
        let ghost p = dns_scope(view_str(pool_id), view_str(vm_id));
        let pool = own_option(pool_id);
        let vm = own_option(vm_id);
        let chosen = |x: &DnsServer| -> (b: bool)
            ensures
                b == p(x@),
            { same_option(&x.pool_id, &pool) && same_option(&x.vm_id, &vm) };
        let rows = select(&self.dns_servers, chosen, Ghost(p));
        let le = |a: &DnsServer, c: &DnsServer| -> (b: bool)
            ensures
                b == by_priority()(a@, c@),
            { a.priority < c.priority || (a.priority == c.priority && a.id <= c.id) };
        Ok(list(rows, le, usize::MAX, Ghost(by_priority())))
    }

    /// Replaces the name servers of a range, of a machine, or of neither.
    pub fn replace_dns_servers(
        &mut self,
        pool_id: Option<&str>,
        vm_id: Option<&str>,
        addresses: &Vec<String>,
    ) -> (r: AppResult<Vec<DnsServer>>)
        ensures
            settles(
                replace_dns_spec(old(self)@, view_str(pool_id), view_str(vm_id), views(addresses@)),
                old(self)@,
                final(self)@,
                match r {
                    Ok(_) => Ok(()),
                    Err(e) => Err(e@),
                },
            ),
            r matches Ok(rows) ==> listing(
                models(rows@),
                matching(final(self)@.dns_servers, dns_scope(view_str(pool_id), view_str(vm_id))),
                by_priority(),
                usize::MAX as int,
            ),
    {
        if pool_id.is_some() && vm_id.is_some() {
            return Err(validation("DNS scope cannot be both a pool and a VM"));
        }
        let list = match normalize_dns_addresses(addresses) {
            Err(e) => {
                return Err(e);
            },
            Ok(v) => v,
        };
        match self.replace_dns(pool_id, vm_id, &list) {
            Err(e) => {
                return Err(e);
            },
            Ok(v) => v,
        };
        self.dns_servers(pool_id, vm_id)
    }

    fn store_setting(
        &mut self,
        key: &str,
        value: &Document,
        encrypted: bool,
        updated_by: Option<&str>,
        now: Timestamp,
    ) -> (r: AppResult<SettingRecord>)
        ensures
            settles(
                stored_setting(old(self)@, key@, value@, encrypted, view_str(updated_by), now),
                old(self)@,
                final(self)@,
                row_result(r),
            ),
    {
        if !self.has_optional_admin(updated_by) {
            return Err(dangling_reference());
        }
        let row = SettingRecord {
            key: key.to_owned(),
            value: value.clone(),
            encrypted,
            updated_by: own_option(updated_by),
            updated_at: now,
        };
        let shown = row.clone();
        let chosen = |x: &SettingRecord| -> (b: bool)
            ensures
                b == setting_with_key(key@)(x@),
            { same(x.key.as_str(), key) };
        if occurs(&self.settings, chosen, Ghost(setting_with_key(key@))) {
            let ghost f = with_value(value@, encrypted, view_str(updated_by), now);
            let change = |x: &SettingRecord| -> (y: SettingRecord)
                ensures
                    y@ == f(x@),
                { {
                let mut y = x.clone();
                y.value = value.clone();
                y.encrypted = encrypted;
                y.updated_by = own_option(updated_by);
                y.updated_at = now;
                y
            } };
            let _ = revise(
                &mut self.settings,
                chosen,
                change,
                Ghost(setting_with_key(key@)),
                Ghost(f),
            );
        } else {
            append(&mut self.settings, row);
        }
        Ok(shown)
    }

    /// Replaces the network setting and the default name servers together.
    pub fn set_network_setting_and_default_dns(
        &mut self,
        network: &Document,
        addresses: &Vec<String>,
        updated_by: Option<&str>,
        now: Timestamp,
    ) -> (r: AppResult<(SettingRecord, Vec<DnsServer>)>)
        ensures
            settles(
                set_network_spec(
                    old(self)@,
                    network@,
                    views(addresses@),
                    view_str(updated_by),
                    now,
                ),
                old(self)@,
                final(self)@,
                match r {
                    Ok(v) => Ok(v.0@),
                    Err(e) => Err(e@),
                },
            ),
            r matches Ok(v) ==> listing(
                models(v.1@),
                matching(final(self)@.dns_servers, dns_scope(None, None)),
                by_priority(),
                usize::MAX as int,
            ),
    {
        let list = match normalize_dns_addresses(addresses) {
            Err(e) => {
                return Err(e);
            },
            Ok(v) => v,
        };
        if !network.is_object() {
            return Err(validation("network setting must be an object"));
        }
        let mut value = network.clone();
        value.set("dns_servers", Document::texts(&list));
        if !self.has_optional_admin(updated_by) {
            proof {
                assert(replaced_dns(self@, None, None, views(list@)) matches Ok(done)
                    ==> stored_setting(
                    done.0,
                    "network"@,
                    value@,
                    false,
                    view_str(updated_by),
                    now,
                ) == Err::<(DatabaseView, SettingRecordView), AppErrorView>(reference_error()));
            }
            return self.refuse_network_setting(&list);
        }
        match self.replace_dns(None, None, &list) {
            Err(e) => {
                return Err(e);
            },
            Ok(v) => v,
        };
        let setting = match self.store_setting("network", &value, false, updated_by, now) {
            Err(e) => {
                return Err(e);
            },
            Ok(v) => v,
        };
        let dns = match self.dns_servers(None, None) {
            Err(e) => {
                return Err(e);
            },
            Ok(v) => v,
        };
        Ok((setting, dns))
    }

    /// The error of a network setting by an administrator who is not there.
    fn refuse_network_setting(&self, list: &Vec<String>) -> (r: AppResult<
        (SettingRecord, Vec<DnsServer>),
    >)
        requires
            list@.len() <= 32,
        ensures
            r matches Err(e) && e@ == (match replaced_dns(self@, None, None, views(list@)) {
                Ok(_) => reference_error(),
                Err(e) => e,
            }),
    {
        if lists_non_address(list) {
            return Err(validation("DNS server address is invalid"));
        }
        let n: usize = list.len();
        proof {
            assert(views(list@).len() == n);
        }
        if self.last_dns_id > i64::MAX - n as i64 {
            return Err(AppError::Database("database or disk is full".to_owned()));
        }
        Err(dangling_reference())
    }

    /// Enters a setting or gives it another value.
    pub fn set_setting(
        &mut self,
        key: &str,
        value: &Document,
        encrypted: bool,
        updated_by: Option<&str>,
        now: Timestamp,
    ) -> (r: AppResult<SettingRecord>)
        ensures
            settles(
                set_setting_spec(old(self)@, key@, value@, encrypted, view_str(updated_by), now),
                old(self)@,
                final(self)@,
                row_result(r),
            ),
    {
        match validate_non_empty("setting key", key) {
            Err(e) => {
                return Err(e);
            },
            Ok(v) => v,
        };
        self.store_setting(key, value, encrypted, updated_by, now)
    }

    /// The setting with a key.
    pub fn get_setting(&self, key: &str) -> (r: AppResult<Option<SettingRecord>>)
        ensures
            option_result(r) == Ok::<Option<SettingRecordView>, AppErrorView>(
                find(self@.settings, setting_with_key(key@)),
            ),
    {
        let test = |x: &SettingRecord| -> (b: bool)
            ensures
                b == setting_with_key(key@)(x@),
            { same(x.key.as_str(), key) };
        Ok(look_up(&self.settings, test, Ghost(setting_with_key(key@))))
    }

    /// The settings in the order of their keys, with the encrypted ones or without.
    pub fn list_settings(&self, include_encrypted: bool) -> (r: AppResult<Vec<SettingRecord>>)
        ensures
            r is Ok,
            listing(
                models(r->Ok_0@),
                matching(self@.settings, listed_setting(include_encrypted)),
                by_key(),
                usize::MAX as int,
            ),
    {
        let test = |x: &SettingRecord| -> (b: bool)
            ensures
                b == listed_setting(include_encrypted)(x@),
            { include_encrypted || !x.encrypted };
        let rows = select(&self.settings, test, Ghost(listed_setting(include_encrypted)));
        proof {
            text_le_orders();
        }
        let le = |a: &SettingRecord, c: &SettingRecord| -> (b: bool)
            ensures
                b == by_key()(a@, c@),
            { in_order(a.key.as_str(), c.key.as_str()) };
        Ok(list(rows, le, usize::MAX, Ghost(by_key())))
    }

    /// Removes a setting, and says whether there was one.
    pub fn delete_setting(&mut self, key: &str) -> (r: AppResult<bool>)
        ensures
            settles(
                Ok(
                    (
                        DatabaseView {
                            settings: others(old(self)@.settings, setting_with_key(key@)),
                            ..old(self)@
                        },
                        count(old(self)@.settings, setting_with_key(key@)) > 0,
                    ),
                ),
                old(self)@,
                final(self)@,
                plain_result(r),
            ),
    {
        let chosen = |x: &SettingRecord| -> (b: bool)
            ensures
                b == setting_with_key(key@)(x@),
            { same(x.key.as_str(), key) };
        let n: usize = remove(&mut self.settings, chosen, Ghost(setting_with_key(key@)));
        Ok(n > 0)
    }

    /// Enters an installation image, or enters the one with its identifier anew.
    pub fn upsert_iso(&mut self, image: &IsoImage, new_id: &str, now: Timestamp) -> (r: AppResult<
        IsoImage,
    >)
        ensures
            settles(
                upsert_iso_spec(old(self)@, image@, new_id@, now),
                old(self)@,
                final(self)@,
                row_result(r),
            ),
    {
        match validate_non_empty("ISO slug", image.slug.as_str()) {
            Err(e) => {
                return Err(e);
            },
            Ok(v) => v,
        };
        match validate_non_empty("ISO name", image.name.as_str()) {
            Err(e) => {
                return Err(e);
            },
            Ok(v) => v,
        };
        if image.source_url.is_none() && image.local_path.is_none() {
            return Err(validation("an ISO needs a source URL or local path"));
        }
        let _ = match optional_i64(image.size_bytes, "ISO size") {
            Err(e) => {
                return Err(e);
            },
            Ok(v) => v,
        };
        let mut row = image.clone();
        let given = trim(image.id.as_str());
        if given.as_str().is_empty() {
            row.id = new_id.to_owned();
        }
        row.slug = trim(image.slug.as_str());
        row.name = trim(image.name.as_str());
        if image.created_at <= 0 {
            row.created_at = now;
        }
        row.updated_at = now;
        let id = row.id.as_str();
        let chosen = |x: &IsoImage| -> (b: bool)
            ensures
                b == iso_with_id(id@)(x@),
            { same(x.id.as_str(), id) };
        match look_up(&self.isos, chosen, Ghost(iso_with_id(id@))) {
            None => {
                let shown = row.clone();
                append(&mut self.isos, row);
                Ok(shown)
            },
            Some(m) => {
                let ghost f = reentered_iso(row@);
                let change = |x: &IsoImage| -> (y: IsoImage)
                    ensures
                        y@ == f(x@),
                    { {
                    let mut y = row.clone();
                    y.created_at = x.created_at;
                    y
                } };
                let shown = change(&m);
                let _ = revise(&mut self.isos, chosen, change, Ghost(iso_with_id(id@)), Ghost(f));
                Ok(shown)
            },
        }
    }

    /// The image with an identifier or a short name.
    pub fn get_iso(&self, id_or_slug: &str) -> (r: AppResult<Option<IsoImage>>)
        ensures
            option_result(r) == Ok::<Option<IsoImageView>, AppErrorView>(
                find(self@.isos, iso_called(id_or_slug@)),
            ),
    {
        let test = |x: &IsoImage| -> (b: bool)
            ensures
                b == iso_called(id_or_slug@)(x@),
            {
                same(x.id.as_str(), id_or_slug)
                    || eq_ignore_ascii_case(x.slug.as_str(), id_or_slug)
            };
        Ok(look_up(&self.isos, test, Ghost(iso_called(id_or_slug@))))
    }

    /// The images by family, then name, then version, with the disabled ones or without.
    pub fn list_isos(&self, include_disabled: bool) -> (r: AppResult<Vec<IsoImage>>)
        ensures
            r is Ok,
            listing(
                models(r->Ok_0@),
                matching(self@.isos, listed_iso(include_disabled)),
                by_family_name_version(),
                usize::MAX as int,
            ),
    {
        let test = |x: &IsoImage| -> (b: bool)
            ensures
                b == listed_iso(include_disabled)(x@),
            { include_disabled || x.enabled };
        let rows = select(&self.isos, test, Ghost(listed_iso(include_disabled)));
        proof {
            iso_order();
        }
        let le = |a: &IsoImage, c: &IsoImage| -> (b: bool)
            ensures
                b == by_family_name_version()(a@, c@),
            {
                !in_order(c.os_family.as_str(), a.os_family.as_str())
                    || (in_order(a.os_family.as_str(), c.os_family.as_str())
                        && (!folded_in_order(c.name.as_str(), a.name.as_str()) || (folded_in_order(a.name.as_str(), c.name.as_str()) && in_order(a.version.as_str(), c.version.as_str()))))
            };
        Ok(list(rows, le, usize::MAX, Ghost(by_family_name_version())))
    }

    /// Removes an image.
    pub fn delete_iso(&mut self, id_or_slug: &str) -> (r: AppResult<()>)
        ensures
            settles(
                delete_iso_spec(old(self)@, id_or_slug@),
                old(self)@,
                final(self)@,
                plain_result(r),
            ),
    {
        let chosen = |x: &IsoImage| -> (b: bool)
            ensures
                b == iso_called(id_or_slug@)(x@),
            {
                same(x.id.as_str(), id_or_slug)
                    || eq_ignore_ascii_case(x.slug.as_str(), id_or_slug)
            };
        let n: usize = remove(&mut self.isos, chosen, Ghost(iso_called(id_or_slug@)));
        proof {
            count_is_any(old(self)@.isos, iso_called(id_or_slug@));
            nothing_removed(old(self)@.isos, iso_called(id_or_slug@));
        }
        require_changed(n, "ISO")
    }

    /// Records what was detected of the host.
    pub fn upsert_host_inventory(&mut self, inventory: &HostInventory) -> (r: AppResult<()>)
        ensures
            settles(
                upsert_inventory_spec(old(self)@, inventory@),
                old(self)@,
                final(self)@,
                plain_result(r),
            ),
    {
        if inventory.cpu_cores == 0 || inventory.listen_port == 0 {
            return Err(validation("host inventory needs CPU cores and a listen port"));
        }
        let list = match canonicalize(&inventory.detected_addresses) {
            Err(e) => {
                return Err(e);
            },
            Ok(v) => v,
        };
        let _ = match checked_i64(inventory.memory_total_bytes, "host memory") {
            Err(e) => {
                return Err(e);
            },
            Ok(v) => v,
        };
        let _ = match checked_i64(inventory.root_disk_total_bytes, "host disk") {
            Err(e) => {
                return Err(e);
            },
            Ok(v) => v,
        };
        let mut row = inventory.clone();
        row.detected_addresses = list;
        self.inventory = Some(row);
        Ok(())
    }

    /// What was detected of the host.
    pub fn host_inventory(&self) -> (r: AppResult<Option<HostInventory>>)
        ensures
            option_result(r) == Ok::<Option<HostInventoryView>, AppErrorView>(self@.inventory),
    {
        Ok(HostInventory::copy_of_option(&self.inventory))
    }
}

proof fn iso_order()
    ensures
        orders(by_family_name_version()),
{
    text_le_orders();
    folded_le_orders();
    let le = by_family_name_version();
    assert forall|a: IsoImageView, b: IsoImageView, c: IsoImageView|
        #[trigger] le(a, b) && #[trigger] le(b, c) implies le(a, c) by {
        assert(text_le(a.os_family, b.os_family) || text_le(b.os_family, a.os_family));
        assert(text_le(b.os_family, c.os_family) || text_le(c.os_family, b.os_family));
        assert(folded_le(a.name, b.name) || folded_le(b.name, a.name));
        assert(folded_le(b.name, c.name) || folded_le(c.name, b.name));
        if text_le(c.os_family, a.os_family) {
            assert(text_le(a.os_family, b.os_family) && text_le(b.os_family, c.os_family));
            assert(text_le(c.os_family, b.os_family)) by {
                assert(text_le(c.os_family, a.os_family) && text_le(a.os_family, b.os_family));
            }
            assert(text_le(b.os_family, a.os_family)) by {
                assert(text_le(b.os_family, c.os_family) && text_le(c.os_family, a.os_family));
            }
            if folded_le(c.name, a.name) {
                assert(folded_le(a.name, b.name) && folded_le(b.name, c.name));
                assert(folded_le(c.name, b.name)) by {
                    assert(folded_le(c.name, a.name) && folded_le(a.name, b.name));
                }
                assert(folded_le(b.name, a.name)) by {
                    assert(folded_le(b.name, c.name) && folded_le(c.name, a.name));
                }
                assert(text_le(a.version, b.version) && text_le(b.version, c.version));
            }
        }
    }
}

/// The network setting names the default name servers: what it lists is what is stored, in
/// the same order, however the servers were written.
pub proof fn network_setting_and_servers_agree(
    db: DatabaseView,
    network: Json,
    addresses: Seq<Seq<char>>,
    updated_by: Option<Seq<char>>,
    now: Timestamp,
)
    ensures
        set_network_spec(db, network, addresses, updated_by, now) matches Ok(done) ==> {
            let list = dns_addresses(addresses)->Ok_0;
            &&& done.1.value.member("dns_servers"@) == Some(texts_json(list))
            &&& done.0.dns_servers == others(db.dns_servers, dns_scope(None, None)) + dns_rows(
                list,
                db.last_dns_id,
                None,
                None,
            )
            &&& forall|i: int|
                0 <= i < list.len() ==> (#[trigger] dns_rows(list, db.last_dns_id, None, None)[i])
                    .address == list[i]
        },
{
}

} // verus!
