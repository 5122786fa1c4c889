//! The database: all tables of the controller.

use vstd::prelude::*;

use crate::db::rows::{
    AdminAuth, AdminAuthView, ApiKeyRow, ApiKeyRowView, AuditEvent, AuditEventView,
    CustomerTokenRow, CustomerTokenRowView, DnsServer, DnsServerView, GuestToolsRow,
    GuestToolsRowView, HostInventory, HostInventoryView, HostMetric, HostMetricView,
    HypervisorNetworkSecurity, HypervisorNetworkSecurityView, ImportRow, ImportRowView,
    IpAbuseRecord, IpAbuseRecordView, IpAddressRecord, IpAddressRecordView, IpBlacklistEntry,
    IpBlacklistEntryView, IpPool, IpPoolView, IsoImage, IsoImageView, Job, JobView, SessionRow,
    SessionRowView, SettingRecord, SettingRecordView, Snapshot, SnapshotView, Timestamp,
    VmFirewallRule, VmFirewallRuleView, VmMetric, VmMetricView, VmNetworkSecurity,
    VmNetworkSecurityView, VmRow, VmRowView, VmTrafficEnforcement, VmTrafficEnforcementView,
    VncTokenRow, VncTokenRowView,
};
use crate::error::{validation, AppError, AppErrorView};
use crate::ids::{is_canonical_uuid, parse_uuid, uuid_string, uuid_value};
use crate::table::{any, models, occurs};
use crate::text::{
    byte_len, byte_length, chars_of, control, equal_ignoring_case, in_order, is_control, join2,
    lowercase, same, text_le, text_le_is_total, text_le_is_transitive, to_ascii_lowercase, trim,
    trim_spec, view_option,
};

verus! {

broadcast use vstd::string::group_string_axioms;

/// The tables of the controller.
#[derive(Debug)]
pub struct Database {
    pub admins: Vec<AdminAuth>,
    pub sessions: Vec<SessionRow>,
    pub api_keys: Vec<ApiKeyRow>,
    pub vms: Vec<VmRow>,
    pub guest_tools: Vec<GuestToolsRow>,
    pub ip_pools: Vec<IpPool>,
    pub ip_addresses: Vec<IpAddressRecord>,
    pub dns_servers: Vec<DnsServer>,
    pub last_dns_id: i64,
    pub ip_blacklist: Vec<IpBlacklistEntry>,
    pub ip_abuse: Vec<IpAbuseRecord>,
    pub settings: Vec<SettingRecord>,
    pub isos: Vec<IsoImage>,
    pub inventory: Option<HostInventory>,
    pub host_metrics: Vec<HostMetric>,
    pub vm_metrics: Vec<VmMetric>,
    pub traffic: Vec<VmTrafficEnforcement>,
    pub network_security: Vec<VmNetworkSecurity>,
    pub firewall_rules: Vec<VmFirewallRule>,
    pub hypervisor: HypervisorNetworkSecurity,
    pub customer_tokens: Vec<CustomerTokenRow>,
    pub vnc_tokens: Vec<VncTokenRow>,
    pub jobs: Vec<Job>,
    pub snapshots: Vec<Snapshot>,
    pub audit: Vec<AuditEvent>,
    pub last_audit_id: i64,
    pub imports: Vec<ImportRow>,
}

/// What the tables hold.
#[verifier::ext_equal]
pub struct DatabaseView {
    pub admins: Seq<AdminAuthView>,
    pub sessions: Seq<SessionRowView>,
    pub api_keys: Seq<ApiKeyRowView>,
    pub vms: Seq<VmRowView>,
    pub guest_tools: Seq<GuestToolsRowView>,
    pub ip_pools: Seq<IpPoolView>,
    pub ip_addresses: Seq<IpAddressRecordView>,
    pub dns_servers: Seq<DnsServerView>,
    pub last_dns_id: i64,
    pub ip_blacklist: Seq<IpBlacklistEntryView>,
    pub ip_abuse: Seq<IpAbuseRecordView>,
    pub settings: Seq<SettingRecordView>,
    pub isos: Seq<IsoImageView>,
    pub inventory: Option<HostInventoryView>,
    pub host_metrics: Seq<HostMetricView>,
    pub vm_metrics: Seq<VmMetricView>,
    pub traffic: Seq<VmTrafficEnforcementView>,
    pub network_security: Seq<VmNetworkSecurityView>,
    pub firewall_rules: Seq<VmFirewallRuleView>,
    pub hypervisor: HypervisorNetworkSecurityView,
    pub customer_tokens: Seq<CustomerTokenRowView>,
    pub vnc_tokens: Seq<VncTokenRowView>,
    pub jobs: Seq<JobView>,
    pub snapshots: Seq<SnapshotView>,
    pub audit: Seq<AuditEventView>,
    pub last_audit_id: i64,
    pub imports: Seq<ImportRowView>,
}

impl View for Database {
    type V = DatabaseView;

    open spec fn view(&self) -> DatabaseView {
        DatabaseView {
            admins: models(self.admins@),
            sessions: models(self.sessions@),
            api_keys: models(self.api_keys@),
            vms: models(self.vms@),
            guest_tools: models(self.guest_tools@),
            ip_pools: models(self.ip_pools@),
            ip_addresses: models(self.ip_addresses@),
            dns_servers: models(self.dns_servers@),
            last_dns_id: self.last_dns_id,
            ip_blacklist: models(self.ip_blacklist@),
            ip_abuse: models(self.ip_abuse@),
            settings: models(self.settings@),
            isos: models(self.isos@),
            inventory: HostInventory::option_view(self.inventory),
            host_metrics: models(self.host_metrics@),
            vm_metrics: models(self.vm_metrics@),
            traffic: models(self.traffic@),
            network_security: models(self.network_security@),
            firewall_rules: models(self.firewall_rules@),
            hypervisor: self.hypervisor@,
            customer_tokens: models(self.customer_tokens@),
            vnc_tokens: models(self.vnc_tokens@),
            jobs: models(self.jobs@),
            snapshots: models(self.snapshots@),
            audit: models(self.audit@),
            last_audit_id: self.last_audit_id,
            imports: models(self.imports@),
        }
    }
}

/// The newest layout of the stored tables.
pub const SCHEMA_VERSION: i64 = 9;

/// A database without records, entered at a time.
pub open spec fn empty_database(now: Timestamp) -> DatabaseView {
    DatabaseView {
        admins: Seq::empty(),
        sessions: Seq::empty(),
        api_keys: Seq::empty(),
        vms: Seq::empty(),
        guest_tools: Seq::empty(),
        ip_pools: Seq::empty(),
        ip_addresses: Seq::empty(),
        dns_servers: Seq::empty(),
        last_dns_id: 0,
        ip_blacklist: Seq::empty(),
        ip_abuse: Seq::empty(),
        settings: Seq::empty(),
        isos: Seq::empty(),
        inventory: None,
        host_metrics: Seq::empty(),
        vm_metrics: Seq::empty(),
        traffic: Seq::empty(),
        network_security: Seq::empty(),
        firewall_rules: Seq::empty(),
        hypervisor: HypervisorNetworkSecurityView {
            bcp38_enabled: false,
            revision: 0,
            applied_revision: None,
            last_applied_at: None,
            last_error: None,
            updated_by: None,
            created_at: now,
            updated_at: now,
        },
        customer_tokens: Seq::empty(),
        vnc_tokens: Seq::empty(),
        jobs: Seq::empty(),
        snapshots: Seq::empty(),
        audit: Seq::empty(),
        last_audit_id: 0,
        imports: Seq::empty(),
    }
}

impl Database {
    /// A database without records.
    pub fn open_in_memory(now: Timestamp) -> (r: Database)
        ensures
            r@ == empty_database(now),
    {
        let r = Database {
            admins: Vec::new(),
            sessions: Vec::new(),
            api_keys: Vec::new(),
            vms: Vec::new(),
            guest_tools: Vec::new(),
            ip_pools: Vec::new(),
            ip_addresses: Vec::new(),
            dns_servers: Vec::new(),
            last_dns_id: 0,
            ip_blacklist: Vec::new(),
            ip_abuse: Vec::new(),
            settings: Vec::new(),
            isos: Vec::new(),
            inventory: None,
            host_metrics: Vec::new(),
            vm_metrics: Vec::new(),
            traffic: Vec::new(),
            network_security: Vec::new(),
            firewall_rules: Vec::new(),
            hypervisor: HypervisorNetworkSecurity {
                bcp38_enabled: false,
                revision: 0,
                applied_revision: None,
                last_applied_at: None,
                last_error: None,
                updated_by: None,
                created_at: now,
                updated_at: now,
            },
            customer_tokens: Vec::new(),
            vnc_tokens: Vec::new(),
            jobs: Vec::new(),
            snapshots: Vec::new(),
            audit: Vec::new(),
            last_audit_id: 0,
            imports: Vec::new(),
        };
        proof {
            assert(r@ =~= empty_database(now));
        }
        r
    }

    /// The layout of the stored tables.
    pub fn schema_version(&self) -> (r: i64)
        ensures
            r == SCHEMA_VERSION,
    {
        SCHEMA_VERSION
    }
}

/// The steps that bring stored tables of a layout to the newest one, in their order.
pub open spec fn migration_steps(version: i64) -> Seq<i64> {
    Seq::new(
        if version < 0 {
            SCHEMA_VERSION as nat
        } else {
            (SCHEMA_VERSION - version) as nat
        },
        |i: int|
            (i + 1 + (if version < 0 {
                0
            } else {
                version as int
            })) as i64,
    )
}

/// The decimal digits of a number, with its sign.
pub open spec fn signed_text(n: i64) -> Seq<char> {
    if n < 0 {
        "-"@ + crate::numbers::decimal_text((-n) as nat)
    } else {
        crate::numbers::decimal_text(n as nat)
    }
}

/// The steps that bring stored tables of a layout to the newest one; a newer layout than
/// the newest known one is refused.
pub fn pending_migrations(version: i64) -> (r: Result<Vec<i64>, AppError>)
    ensures
        match r {
            Ok(steps) => version <= SCHEMA_VERSION && steps@ == migration_steps(version),
            Err(e) => version > SCHEMA_VERSION && e@ == AppErrorView::Configuration(
                "database schema version "@ + signed_text(version)
                    + " is newer than supported version "@ + signed_text(SCHEMA_VERSION),
            ),
        },
{
    if version > SCHEMA_VERSION {
        let found = crate::numbers::decimal(version as u64);
        let known = crate::numbers::decimal(SCHEMA_VERSION as u64);
        let text = join2(
            join2(
                join2("database schema version ", found.as_str()).as_str(),
                " is newer than supported version ",
            ).as_str(),
            known.as_str(),
        );
        return Err(AppError::Configuration(text));
    }
    let mut steps: Vec<i64> = Vec::new();
    let start: i64 = if version < 0 {
        0
    } else {
        version
    };
    let mut at: i64 = start;
    while at < SCHEMA_VERSION
        invariant
            start <= at <= SCHEMA_VERSION,
            0 <= start,
            start == (if version < 0 {
                0
            } else {
                version
            }),
            steps@.len() == at - start,
            forall|i: int| 0 <= i < steps@.len() ==> steps@[i] == start + 1 + i,
        decreases SCHEMA_VERSION - at,
    {
        at = at + 1;
        steps.push(at);
    }
    proof {
        assert(steps@ =~= migration_steps(version));
    }
    Ok(steps)
}

/// What an operation that gives a row returned.
pub open spec fn row_result<T: View>(r: Result<T, AppError>) -> Result<T::V, AppErrorView> {
    match r {
        Ok(v) => Ok(v@),
        Err(e) => Err(e@),
    }
}

/// What an operation that may give a row returned.
pub open spec fn option_result<T: View>(r: Result<Option<T>, AppError>) -> Result<
    Option<T::V>,
    AppErrorView,
> {
    match r {
        Ok(Some(v)) => Ok(Some(v@)),
        Ok(None) => Ok(None),
        Err(e) => Err(e@),
    }
}

/// What an operation that gives a plain value returned.
pub open spec fn plain_result<T>(r: Result<T, AppError>) -> Result<T, AppErrorView> {
    match r {
        Ok(v) => Ok(v),
        Err(e) => Err(e@),
    }
}

/// What an operation that may give a text returned.
pub open spec fn text_option_result(r: Result<Option<String>, AppError>) -> Result<
    Option<Seq<char>>,
    AppErrorView,
> {
    match r {
        Ok(v) => Ok(view_option(v)),
        Err(e) => Err(e@),
    }
}

/// An operation did what was expected of it: it changed the tables and returned a value,
/// or it returned the error and left the tables as they were.
pub open spec fn settles<M>(
    expected: Result<(DatabaseView, M), AppErrorView>,
    before: DatabaseView,
    after: DatabaseView,
    got: Result<M, AppErrorView>,
) -> bool {
    match got {
        Ok(m) => expected == Ok::<(DatabaseView, M), AppErrorView>((after, m)),
        Err(e) => expected == Err::<(DatabaseView, M), AppErrorView>(e) && after == before,
    }
}

/// The fault of a check.
pub open spec fn fault_of(r: Result<(), AppError>) -> Option<AppErrorView> {
    match r {
        Ok(_) => None,
        Err(e) => Some(e@),
    }
}

/// The first of two faults.
pub open spec fn earlier(a: Option<AppErrorView>, b: Option<AppErrorView>) -> Option<
    AppErrorView,
> {
    match a {
        Some(e) => Some(e),
        None => b,
    }
}

/// A fault where a condition holds.
pub open spec fn fault_if(c: bool, e: AppErrorView) -> Option<AppErrorView> {
    if c {
        Some(e)
    } else {
        None
    }
}

/// The fault of a text that is blank.
pub open spec fn empty_fault(label: Seq<char>, value: Seq<char>) -> Option<AppErrorView> {
    fault_if(
        trim_spec(value).len() == 0,
        AppErrorView::Validation(label + " cannot be empty"@),
    )
}

/// Refuses a blank text.
pub fn validate_non_empty(label: &str, value: &str) -> (r: Result<(), AppError>)
    ensures
        fault_of(r) == empty_fault(label@, value@),
{
    let text = trim(value);
    if text.as_str().is_empty() {
        Err(AppError::Validation(join2(label, " cannot be empty")))
    } else {
        Ok(())
    }
}

/// Some character is a control character.
pub open spec fn has_control(s: Seq<char>) -> bool {
    exists|i: int| 0 <= i < s.len() && is_control(#[trigger] s[i])
}

/// Whether some character is a control character.
pub fn contains_control(s: &str) -> (r: bool)
    ensures
        r == has_control(s@),
{
    let v = chars_of(s);
    let mut i: usize = 0;
    while i < v.len()
        invariant
            i <= v@.len(),
            v@ == s@,
            forall|j: int| 0 <= j < i ==> !is_control(#[trigger] s@[j]),
        decreases v@.len() - i,
    {
        if control(v[i]) {
            proof {
                assert(is_control(s@[i as int]));
            }
            return true;
        }
        i = i + 1;
    }
    false
}

/// The fault of a version of the guest tools.
pub open spec fn version_fault(label: Seq<char>, value: Seq<char>) -> Option<AppErrorView> {
    earlier(
        empty_fault(label, value),
        fault_if(
            byte_len(value) > 64 || has_control(value),
            AppErrorView::Validation(
                label + " must contain at most 64 bytes and no control characters"@,
            ),
        ),
    )
}

/// Refuses a version of the guest tools that is blank, too long or not printable.
pub fn validate_guest_tools_version(label: &str, value: &str) -> (r: Result<(), AppError>)
    ensures
        fault_of(r) == version_fault(label@, value@),
{
    match validate_non_empty(label, value) {
        Err(e) => {
            return Err(e);
        },
        Ok(v) => v,
    };
    if byte_length(value) > 64 || contains_control(value) {
        return Err(
            AppError::Validation(
                join2(label, " must contain at most 64 bytes and no control characters"),
            ),
        );
    }
    Ok(())
}

/// The fault of the name of a rotation.
pub open spec fn generation_fault(generation: Seq<char>) -> Option<AppErrorView> {
    if uuid_value(generation) is None {
        Some(AppErrorView::Validation("guest-tools rotation generation is invalid"@))
    } else if !is_canonical_uuid(generation) {
        Some(AppErrorView::Validation("guest-tools rotation generation is not canonical"@))
    } else {
        None
    }
}

/// Refuses the name of a rotation that is no UUID in its usual form.
pub fn validate_guest_tools_rotation_generation(generation: &str) -> (r: Result<(), AppError>)
    ensures
        fault_of(r) == generation_fault(generation@),
{
    match parse_uuid(generation) {
        None => Err(validation("guest-tools rotation generation is invalid")),
        Some(v) => {
            if !same(uuid_string(v).as_str(), generation) {
                Err(validation("guest-tools rotation generation is not canonical"))
            } else {
                Ok(())
            }
        },
    }
}

/// The fault of a number that the tables cannot hold.
pub open spec fn range_fault(value: u64, label: Seq<char>) -> Option<AppErrorView> {
    fault_if(
        value > i64::MAX,
        AppErrorView::Validation(label + " exceeds SQLite integer range"@),
    )
}

/// The fault of an optional number that the tables cannot hold.
pub open spec fn optional_range_fault(value: Option<u64>, label: Seq<char>) -> Option<
    AppErrorView,
> {
    match value {
        Some(n) => range_fault(n, label),
        None => None,
    }
}

/// A number as the tables hold it.
pub fn checked_i64(value: u64, label: &str) -> (r: Result<i64, AppError>)
    ensures
        match r {
            Ok(n) => n == value && range_fault(value, label@) is None,
            Err(e) => range_fault(value, label@) == Some(e@),
        },
{
    if value > i64::MAX as u64 {
        Err(AppError::Validation(join2(label, " exceeds SQLite integer range")))
    } else {
        Ok(value as i64)
    }
}

/// An optional number as the tables hold it.
pub fn optional_i64(value: Option<u64>, label: &str) -> (r: Result<Option<i64>, AppError>)
    ensures
        match r {
            Ok(o) => optional_range_fault(value, label@) is None && match (value, o) {
                (Some(v), Some(n)) => n == v,
                (None, None) => true,
                _ => false,
            },
            Err(e) => optional_range_fault(value, label@) == Some(e@),
        },
{
    match value {
        None => Ok(None),
        Some(v) => {
            let n = match checked_i64(v, label) {
                Err(e) => {
                    return Err(e);
                },
                Ok(v) => v,
            };
            Ok(Some(n))
        },
    }
}

/// How many rows a request gets.
pub open spec fn limit_of(requested: usize, maximum: int) -> int {
    if requested == 0 {
        if maximum < 100 {
            maximum
        } else {
            100
        }
    } else if requested < maximum {
        requested as int
    } else {
        maximum
    }
}

/// How many rows a request gets: a hundred where it names no number, and never more than
/// the maximum.
pub fn bounded_limit(requested: usize, maximum: usize) -> (r: usize)
    ensures
        r == limit_of(requested, maximum as int),
        r <= maximum,
        requested > 0 && maximum > 0 ==> r > 0,
{
    if requested == 0 {
        if maximum < 100 {
            maximum
        } else {
            100
        }
    } else if requested < maximum {
        requested
    } else {
        maximum
    }
}

/// Refuses where nothing was changed.
pub fn require_changed(changed: usize, resource: &str) -> (r: Result<(), AppError>)
    ensures
        fault_of(r) == fault_if(changed == 0, AppErrorView::NotFound(resource@)),
{
    if changed == 0 {
        Err(crate::error::not_found(resource))
    } else {
        Ok(())
    }
}

/// In order, the case of ASCII letters aside.
pub open spec fn folded_le(a: Seq<char>, b: Seq<char>) -> bool {
    text_le(lowercase(a), lowercase(b))
}

/// Whether two texts are in order, the case of ASCII letters aside.
pub fn folded_in_order(a: &str, b: &str) -> (r: bool)
    ensures
        r == folded_le(a@, b@),
{
    let x = to_ascii_lowercase(a);
    let y = to_ascii_lowercase(b);
    in_order(x.as_str(), y.as_str())
}

pub proof fn folded_le_orders()
    ensures
        forall|a: Seq<char>, b: Seq<char>| #[trigger] folded_le(a, b) || folded_le(b, a),
        forall|a: Seq<char>, b: Seq<char>, c: Seq<char>|
            #[trigger] folded_le(a, b) && #[trigger] folded_le(b, c) ==> folded_le(a, c),
{
    text_le_orders();
}

pub proof fn text_le_orders()
    ensures
        forall|a: Seq<char>, b: Seq<char>| #[trigger] text_le(a, b) || text_le(b, a),
        forall|a: Seq<char>, b: Seq<char>, c: Seq<char>|
            #[trigger] text_le(a, b) && #[trigger] text_le(b, c) ==> text_le(a, c),
{
    assert forall|a: Seq<char>, b: Seq<char>| #[trigger] text_le(a, b) || text_le(b, a) by {
        text_le_is_total(a, b);
    }
    assert forall|a: Seq<char>, b: Seq<char>, c: Seq<char>|
        #[trigger] text_le(a, b) && #[trigger] text_le(b, c) implies text_le(a, c) by {
        text_le_is_transitive(a, b, c);
    }
}

/// A machine with an identifier.
pub open spec fn vm_with_id(id: Seq<char>) -> spec_fn(VmRowView) -> bool {
    |m: VmRowView| m.vm.id == id
}

/// A machine with an identifier or a name; the case of a name does not matter.
pub open spec fn vm_called(id_or_name: Seq<char>) -> spec_fn(VmRowView) -> bool {
    |m: VmRowView| m.vm.id == id_or_name || equal_ignoring_case(m.vm.name, id_or_name)
}

/// The error of a reference to a row that is not there.
pub open spec fn reference_error() -> AppErrorView {
    AppErrorView::Database("FOREIGN KEY constraint failed"@)
}

/// The error of a value that another row has already.
pub open spec fn unique_error(column: Seq<char>) -> AppErrorView {
    AppErrorView::Database("UNIQUE constraint failed: "@ + column)
}

/// The error of a reference to a row that is not there.
pub fn dangling_reference() -> (r: AppError)
    ensures
        r@ == reference_error(),
{
    AppError::Database("FOREIGN KEY constraint failed".to_owned())
}

/// The error of a value that another row has already.
pub fn duplicate_value(column: &str) -> (r: AppError)
    ensures
        r@ == unique_error(column@),
{
    AppError::Database(join2("UNIQUE constraint failed: ", column))
}

/// An optional reference to a machine is to one that is there.
pub open spec fn refers_to_vm(db: DatabaseView, vm_id: Option<Seq<char>>) -> bool {
    match vm_id {
        Some(id) => any(db.vms, vm_with_id(id)),
        None => true,
    }
}

impl Database {
    /// Whether there is a machine with an identifier.
    pub fn has_vm(&self, id: &str) -> (r: bool)
        ensures
            r == any(self@.vms, vm_with_id(id@)),
    {
        let test = |x: &VmRow| -> (b: bool)
            ensures
                b == vm_with_id(id@)(x@),
            { same(x.vm.id.as_str(), id) };
        occurs(&self.vms, test, Ghost(vm_with_id(id@)))
    }

    /// Whether an optional reference to a machine is to one that is there.
    pub fn has_optional_vm(&self, id: &Option<String>) -> (r: bool)
        ensures
            r == refers_to_vm(self@, view_option(*id)),
    {
        match id {
            Some(id) => self.has_vm(id.as_str()),
            None => true,
        }
    }
}

} // verus!
