//! The rows of the controller's tables, what callers ask to store in them, and what they
//! are shown.

use vstd::prelude::*;

use crate::json::{Document, Json};
use crate::net::AddressFamily;
use crate::table::{model, Row};
use crate::text::{copy_list, copy_option, view_option, views};

verus! {

/// Seconds since the epoch.
pub type Timestamp = i64;

/// What an administrator may do.
#[derive(Clone, Copy, Debug, PartialEq, Eq, Structural)]
pub enum AdminRole {
    SuperAdmin,
    Admin,
}

/// The state of a virtual machine.
#[derive(Clone, Copy, Debug, PartialEq, Eq, Structural)]
pub enum VmState {
    Creating,
    Running,
    Stopped,
    Reinstalling,
    Unknown,
    Error,
}

/// The operating system family that guest tools are built for.
#[derive(Clone, Copy, Debug, PartialEq, Eq, Structural)]
pub enum GuestToolsPlatform {
    Linux,
    Windows,
}

/// What brings the guest tools into a guest.
#[derive(Clone, Copy, Debug, PartialEq, Eq, Structural)]
pub enum GuestToolsProvisioner {
    CloudInit,
    CloudbaseNoCloud,
}

/// How the guest tools of a machine are.
#[derive(Clone, Copy, Debug, PartialEq, Eq, Structural)]
pub enum GuestToolsStatus {
    Pending,
    Ready,
    Error,
}

/// Where addresses are reachable from.
#[derive(Clone, Copy, Debug, PartialEq, Eq, Structural)]
pub enum IpScope {
    Public,
    Private,
}

/// What an address is used for.
#[derive(Clone, Copy, Debug, PartialEq, Eq, Structural)]
pub enum IpStatus {
    Free,
    Used,
    Reserved,
    Main,
}

/// How a job is.
#[derive(Clone, Copy, Debug, PartialEq, Eq, Structural)]
pub enum JobStatus {
    Queued,
    Running,
    Succeeded,
    Failed,
    Cancelled,
}

/// How a snapshot is.
#[derive(Clone, Copy, Debug, PartialEq, Eq, Structural)]
pub enum SnapshotState {
    Creating,
    Ready,
    Error,
}

/// The traffic that a firewall rule is about.
#[derive(Clone, Copy, Debug, PartialEq, Eq, Structural)]
pub enum FirewallDirection {
    Ingress,
    Egress,
}

/// What a firewall rule does with traffic.
#[derive(Clone, Copy, Debug, PartialEq, Eq, Structural)]
pub enum FirewallAction {
    Accept,
    Drop,
}

/// The protocol that a firewall rule is about.
#[derive(Clone, Copy, Debug, PartialEq, Eq, Structural)]
pub enum FirewallProtocol {
    Any,
    Tcp,
    Udp,
    Icmp,
}

/// A range of ports, both ends included.
#[derive(Clone, Copy, Debug, PartialEq, Eq, Structural)]
pub struct PortRange {
    pub start: u16,
    pub end: u16,
}

impl PortRange {
    /// The range of one port.
    pub fn single(port: u16) -> (r: PortRange)
        ensures
            r == (PortRange { start: port, end: port }),
    {
        PortRange { start: port, end: port }
    }
}

/// A copy of a list of port ranges.
pub fn copy_ports(ports: &Vec<PortRange>) -> (r: Vec<PortRange>)
    ensures
        r@ == ports@,
{
    let mut r: Vec<PortRange> = Vec::new();
    let mut i: usize = 0;
    while i < ports.len()
        invariant
            i <= ports@.len(),
            r@ == ports@.take(i as int),
        decreases ports@.len() - i,
    {
        proof {
            assert(ports@.take(i as int + 1) =~= ports@.take(i as int).push(ports@[i as int]));
        }
        r.push(ports[i]);
        i = i + 1;
    }
    proof {
        assert(ports@.take(ports@.len() as int) =~= ports@);
    }
    r
}

/// The bytes of an optional hash.
pub open spec fn view_hash(o: Option<[u8; 32]>) -> Option<Seq<u8>> {
    match o {
        Some(h) => Some(h@),
        None => None,
    }
}

/// What an optional change of an optional text asks for.
pub open spec fn view_text_change(o: Option<Option<String>>) -> Option<Option<Seq<char>>> {
    match o {
        Some(t) => Some(view_option(t)),
        None => None,
    }
}

/// What an optional change of port ranges asks for.
pub open spec fn view_ports_change(o: Option<Vec<PortRange>>) -> Option<Seq<PortRange>> {
    match o {
        Some(v) => Some(v@),
        None => None,
    }
}

/// A copy of an optional document.
pub fn copy_document(o: &Option<Document>) -> (r: Option<Document>)
    ensures
        model(r) == model(*o),
{
    match o {
        Some(d) => Some(d.clone()),
        None => None,
    }
}

/// Whether two hashes are equal.
pub fn same_hash(a: &[u8; 32], b: &[u8; 32]) -> (r: bool)
    ensures
        r == (a@ == b@),
{
    let mut i: usize = 0;
    while i < 32
        invariant
            i <= 32,
            a@.len() == 32,
            b@.len() == 32,
            forall|j: int| 0 <= j < i ==> a@[j] == b@[j],
        decreases 32 - i,
    {
        if a[i] != b[i] {
            return false;
        }
        i = i + 1;
    }
    proof {
        assert(a@ =~= b@);
    }
    true
}

/// Whether an optional hash is the given one.
pub fn hash_is(a: &Option<[u8; 32]>, b: &[u8; 32]) -> (r: bool)
    ensures
        r == (view_hash(*a) == Some(b@)),
{
    match a {
        Some(h) => same_hash(h, b),
        None => false,
    }
}

/// An administrator.
#[derive(Debug, PartialEq, Eq)]
pub struct Admin {
    pub id: String,
    pub username: String,
    pub role: AdminRole,
    pub enabled: bool,
    pub created_at: i64,
    pub updated_at: i64,
    pub last_login_at: Option<i64>,
}

/// What a [`Admin`] holds, with texts as character sequences.
#[verifier::ext_equal]
pub struct AdminView {
    pub id: Seq<char>,
    pub username: Seq<char>,
    pub role: AdminRole,
    pub enabled: bool,
    pub created_at: i64,
    pub updated_at: i64,
    pub last_login_at: Option<i64>,
}

impl View for Admin {
    type V = AdminView;

    open spec fn view(&self) -> AdminView {
        AdminView {
            id: self.id@,
            username: self.username@,
            role: self.role,
            enabled: self.enabled,
            created_at: self.created_at,
            updated_at: self.updated_at,
            last_login_at: self.last_login_at,
        }
    }
}

impl Clone for Admin {
    fn clone(&self) -> (r: Admin)
        ensures
            r@ == self@,
    {
        Admin {
            id: self.id.clone(),
            username: self.username.clone(),
            role: self.role,
            enabled: self.enabled,
            created_at: self.created_at,
            updated_at: self.updated_at,
            last_login_at: self.last_login_at,
        }
    }
}

impl Row for Admin {
    fn duplicate(&self) -> (r: Admin) {
        self.clone()
    }
}

/// An administrator and the hash of their password.
#[derive(Debug, PartialEq, Eq)]
pub struct AdminAuth {
    pub admin: Admin,
    pub password_hash: String,
}

/// What a [`AdminAuth`] holds, with texts as character sequences.
#[verifier::ext_equal]
pub struct AdminAuthView {
    pub admin: AdminView,
    pub password_hash: Seq<char>,
}

impl View for AdminAuth {
    type V = AdminAuthView;

    open spec fn view(&self) -> AdminAuthView {
        AdminAuthView {
            admin: self.admin@,
            password_hash: self.password_hash@,
        }
    }
}

impl Clone for AdminAuth {
    fn clone(&self) -> (r: AdminAuth)
        ensures
            r@ == self@,
    {
        AdminAuth {
            admin: self.admin.clone(),
            password_hash: self.password_hash.clone(),
        }
    }
}

impl Row for AdminAuth {
    fn duplicate(&self) -> (r: AdminAuth) {
        self.clone()
    }
}

/// A browser session of an administrator.
#[derive(Debug, PartialEq, Eq)]
pub struct SessionRow {
    pub token_hash: [u8; 32],
    pub csrf_hash: [u8; 32],
    pub admin_id: String,
    pub source_ip: Option<String>,
    pub user_agent: Option<String>,
    pub created_at: i64,
    pub expires_at: i64,
    pub last_seen_at: i64,
}

/// What a [`SessionRow`] holds, with texts as character sequences.
#[verifier::ext_equal]
pub struct SessionRowView {
    pub token_hash: Seq<u8>,
    pub csrf_hash: Seq<u8>,
    pub admin_id: Seq<char>,
    pub source_ip: Option<Seq<char>>,
    pub user_agent: Option<Seq<char>>,
    pub created_at: i64,
    pub expires_at: i64,
    pub last_seen_at: i64,
}

impl View for SessionRow {
    type V = SessionRowView;

    open spec fn view(&self) -> SessionRowView {
        SessionRowView {
            token_hash: self.token_hash@,
            csrf_hash: self.csrf_hash@,
            admin_id: self.admin_id@,
            source_ip: view_option(self.source_ip),
            user_agent: view_option(self.user_agent),
            created_at: self.created_at,
            expires_at: self.expires_at,
            last_seen_at: self.last_seen_at,
        }
    }
}

impl Clone for SessionRow {
    fn clone(&self) -> (r: SessionRow)
        ensures
            r@ == self@,
    {
        SessionRow {
            token_hash: self.token_hash,
            csrf_hash: self.csrf_hash,
            admin_id: self.admin_id.clone(),
            source_ip: copy_option(&self.source_ip),
            user_agent: copy_option(&self.user_agent),
            created_at: self.created_at,
            expires_at: self.expires_at,
            last_seen_at: self.last_seen_at,
        }
    }
}

impl Row for SessionRow {
    fn duplicate(&self) -> (r: SessionRow) {
        self.clone()
    }
}

/// A live browser session and its administrator.
#[derive(Debug, PartialEq, Eq)]
pub struct AdminSession {
    pub admin: Admin,
    pub created_at: i64,
    pub expires_at: i64,
    pub last_seen_at: i64,
    pub source_ip: Option<String>,
    pub user_agent: Option<String>,
}

/// What a [`AdminSession`] holds, with texts as character sequences.
#[verifier::ext_equal]
pub struct AdminSessionView {
    pub admin: AdminView,
    pub created_at: i64,
    pub expires_at: i64,
    pub last_seen_at: i64,
    pub source_ip: Option<Seq<char>>,
    pub user_agent: Option<Seq<char>>,
}

impl View for AdminSession {
    type V = AdminSessionView;

    open spec fn view(&self) -> AdminSessionView {
        AdminSessionView {
            admin: self.admin@,
            created_at: self.created_at,
            expires_at: self.expires_at,
            last_seen_at: self.last_seen_at,
            source_ip: view_option(self.source_ip),
            user_agent: view_option(self.user_agent),
        }
    }
}

impl Clone for AdminSession {
    fn clone(&self) -> (r: AdminSession)
        ensures
            r@ == self@,
    {
        AdminSession {
            admin: self.admin.clone(),
            created_at: self.created_at,
            expires_at: self.expires_at,
            last_seen_at: self.last_seen_at,
            source_ip: copy_option(&self.source_ip),
            user_agent: copy_option(&self.user_agent),
        }
    }
}

/// A credential of the programming interface.
#[derive(Debug, PartialEq, Eq)]
pub struct ApiKey {
    pub id: String,
    pub name: String,
    pub prefix: String,
    pub permissions: Vec<String>,
    pub ip_allowlist: Vec<String>,
    pub created_by: Option<String>,
    pub created_at: i64,
    pub expires_at: Option<i64>,
    pub last_used_at: Option<i64>,
    pub revoked_at: Option<i64>,
}

/// What a [`ApiKey`] holds, with texts as character sequences.
#[verifier::ext_equal]
pub struct ApiKeyView {
    pub id: Seq<char>,
    pub name: Seq<char>,
    pub prefix: Seq<char>,
    pub permissions: Seq<Seq<char>>,
    pub ip_allowlist: Seq<Seq<char>>,
    pub created_by: Option<Seq<char>>,
    pub created_at: i64,
    pub expires_at: Option<i64>,
    pub last_used_at: Option<i64>,
    pub revoked_at: Option<i64>,
}

impl View for ApiKey {
    type V = ApiKeyView;

    open spec fn view(&self) -> ApiKeyView {
        ApiKeyView {
            id: self.id@,
            name: self.name@,
            prefix: self.prefix@,
            permissions: views(self.permissions@),
            ip_allowlist: views(self.ip_allowlist@),
            created_by: view_option(self.created_by),
            created_at: self.created_at,
            expires_at: self.expires_at,
            last_used_at: self.last_used_at,
            revoked_at: self.revoked_at,
        }
    }
}

impl Clone for ApiKey {
    fn clone(&self) -> (r: ApiKey)
        ensures
            r@ == self@,
    {
        ApiKey {
            id: self.id.clone(),
            name: self.name.clone(),
            prefix: self.prefix.clone(),
            permissions: copy_list(&self.permissions),
            ip_allowlist: copy_list(&self.ip_allowlist),
            created_by: copy_option(&self.created_by),
            created_at: self.created_at,
            expires_at: self.expires_at,
            last_used_at: self.last_used_at,
            revoked_at: self.revoked_at,
        }
    }
}

impl Row for ApiKey {
    fn duplicate(&self) -> (r: ApiKey) {
        self.clone()
    }
}

/// A credential of the programming interface and the hash of its token.
#[derive(Debug, PartialEq, Eq)]
pub struct ApiKeyRow {
    pub key: ApiKey,
    pub token_hash: [u8; 32],
}

/// What a [`ApiKeyRow`] holds, with texts as character sequences.
#[verifier::ext_equal]
pub struct ApiKeyRowView {
    pub key: ApiKeyView,
    pub token_hash: Seq<u8>,
}

impl View for ApiKeyRow {
    type V = ApiKeyRowView;

    open spec fn view(&self) -> ApiKeyRowView {
        ApiKeyRowView {
            key: self.key@,
            token_hash: self.token_hash@,
        }
    }
}

impl Clone for ApiKeyRow {
    fn clone(&self) -> (r: ApiKeyRow)
        ensures
            r@ == self@,
    {
        ApiKeyRow {
            key: self.key.clone(),
            token_hash: self.token_hash,
        }
    }
}

impl Row for ApiKeyRow {
    fn duplicate(&self) -> (r: ApiKeyRow) {
        self.clone()
    }
}

/// A virtual machine.
#[derive(Debug, PartialEq, Eq)]
pub struct Vm {
    pub id: String,
    pub name: String,
    pub hostname: String,
    pub description: String,
    pub os_family: String,
    pub iso_id: Option<String>,
    pub state: VmState,
    pub desired_state: VmState,
    pub vcpus: u32,
    pub memory_mib: u64,
    pub disk_gib: u64,
    pub disk_format: String,
    pub firmware: String,
    pub machine_type: Option<String>,
    pub bridge: Option<String>,
    pub tap_name: Option<String>,
    pub mac_address: Option<String>,
    pub network_limit_mbps: Option<u64>,
    pub traffic_limit_bytes: Option<u64>,
    pub traffic_used_bytes: u64,
    pub root_username: String,
    pub guest_agent: bool,
    pub autostart: bool,
    pub timezone: Option<String>,
    pub libvirt_uuid: Option<String>,
    pub vnc_display: Option<i64>,
    pub metadata: Document,
    pub created_at: i64,
    pub updated_at: i64,
}

/// What a [`Vm`] holds, with texts as character sequences.
#[verifier::ext_equal]
pub struct VmView {
    pub id: Seq<char>,
    pub name: Seq<char>,
    pub hostname: Seq<char>,
    pub description: Seq<char>,
    pub os_family: Seq<char>,
    pub iso_id: Option<Seq<char>>,
    pub state: VmState,
    pub desired_state: VmState,
    pub vcpus: u32,
    pub memory_mib: u64,
    pub disk_gib: u64,
    pub disk_format: Seq<char>,
    pub firmware: Seq<char>,
    pub machine_type: Option<Seq<char>>,
    pub bridge: Option<Seq<char>>,
    pub tap_name: Option<Seq<char>>,
    pub mac_address: Option<Seq<char>>,
    pub network_limit_mbps: Option<u64>,
    pub traffic_limit_bytes: Option<u64>,
    pub traffic_used_bytes: u64,
    pub root_username: Seq<char>,
    pub guest_agent: bool,
    pub autostart: bool,
    pub timezone: Option<Seq<char>>,
    pub libvirt_uuid: Option<Seq<char>>,
    pub vnc_display: Option<i64>,
    pub metadata: Json,
    pub created_at: i64,
    pub updated_at: i64,
}

impl View for Vm {
    type V = VmView;

    open spec fn view(&self) -> VmView {
        VmView {
            id: self.id@,
            name: self.name@,
            hostname: self.hostname@,
            description: self.description@,
            os_family: self.os_family@,
            iso_id: view_option(self.iso_id),
            state: self.state,
            desired_state: self.desired_state,
            vcpus: self.vcpus,
            memory_mib: self.memory_mib,
            disk_gib: self.disk_gib,
            disk_format: self.disk_format@,
            firmware: self.firmware@,
            machine_type: view_option(self.machine_type),
            bridge: view_option(self.bridge),
            tap_name: view_option(self.tap_name),
            mac_address: view_option(self.mac_address),
            network_limit_mbps: self.network_limit_mbps,
            traffic_limit_bytes: self.traffic_limit_bytes,
            traffic_used_bytes: self.traffic_used_bytes,
            root_username: self.root_username@,
            guest_agent: self.guest_agent,
            autostart: self.autostart,
            timezone: view_option(self.timezone),
            libvirt_uuid: view_option(self.libvirt_uuid),
            vnc_display: self.vnc_display,
            metadata: self.metadata@,
            created_at: self.created_at,
            updated_at: self.updated_at,
        }
    }
}

impl Clone for Vm {
    fn clone(&self) -> (r: Vm)
        ensures
            r@ == self@,
    {
        Vm {
            id: self.id.clone(),
            name: self.name.clone(),
            hostname: self.hostname.clone(),
            description: self.description.clone(),
            os_family: self.os_family.clone(),
            iso_id: copy_option(&self.iso_id),
            state: self.state,
            desired_state: self.desired_state,
            vcpus: self.vcpus,
            memory_mib: self.memory_mib,
            disk_gib: self.disk_gib,
            disk_format: self.disk_format.clone(),
            firmware: self.firmware.clone(),
            machine_type: copy_option(&self.machine_type),
            bridge: copy_option(&self.bridge),
            tap_name: copy_option(&self.tap_name),
            mac_address: copy_option(&self.mac_address),
            network_limit_mbps: self.network_limit_mbps,
            traffic_limit_bytes: self.traffic_limit_bytes,
            traffic_used_bytes: self.traffic_used_bytes,
            root_username: self.root_username.clone(),
            guest_agent: self.guest_agent,
            autostart: self.autostart,
            timezone: copy_option(&self.timezone),
            libvirt_uuid: copy_option(&self.libvirt_uuid),
            vnc_display: self.vnc_display,
            metadata: self.metadata.clone(),
            created_at: self.created_at,
            updated_at: self.updated_at,
        }
    }
}

impl Row for Vm {
    fn duplicate(&self) -> (r: Vm) {
        self.clone()
    }
}

/// A virtual machine and its sealed password.
#[derive(Debug, PartialEq, Eq)]
pub struct VmRow {
    pub vm: Vm,
    pub password_envelope: Option<String>,
    pub password_updated_at: Option<i64>,
}

/// What a [`VmRow`] holds, with texts as character sequences.
#[verifier::ext_equal]
pub struct VmRowView {
    pub vm: VmView,
    pub password_envelope: Option<Seq<char>>,
    pub password_updated_at: Option<i64>,
}

impl View for VmRow {
    type V = VmRowView;

    open spec fn view(&self) -> VmRowView {
        VmRowView {
            vm: self.vm@,
            password_envelope: view_option(self.password_envelope),
            password_updated_at: self.password_updated_at,
        }
    }
}

impl Clone for VmRow {
    fn clone(&self) -> (r: VmRow)
        ensures
            r@ == self@,
    {
        VmRow {
            vm: self.vm.clone(),
            password_envelope: copy_option(&self.password_envelope),
            password_updated_at: self.password_updated_at,
        }
    }
}

impl Row for VmRow {
    fn duplicate(&self) -> (r: VmRow) {
        self.clone()
    }
}

/// A virtual machine to be created.
#[derive(Debug, PartialEq, Eq)]
pub struct NewVm {
    pub name: String,
    pub hostname: String,
    pub description: String,
    pub os_family: String,
    pub iso_id: Option<String>,
    pub vcpus: u32,
    pub memory_mib: u64,
    pub disk_gib: u64,
    pub disk_format: String,
    pub firmware: String,
    pub machine_type: Option<String>,
    pub bridge: Option<String>,
    pub tap_name: Option<String>,
    pub mac_address: Option<String>,
    pub network_limit_mbps: Option<u64>,
    pub traffic_limit_bytes: Option<u64>,
    pub root_username: String,
    pub guest_agent: bool,
    pub autostart: bool,
    pub timezone: Option<String>,
    pub metadata: Document,
}

/// What a [`NewVm`] holds, with texts as character sequences.
#[verifier::ext_equal]
pub struct NewVmView {
    pub name: Seq<char>,
    pub hostname: Seq<char>,
    pub description: Seq<char>,
    pub os_family: Seq<char>,
    pub iso_id: Option<Seq<char>>,
    pub vcpus: u32,
    pub memory_mib: u64,
    pub disk_gib: u64,
    pub disk_format: Seq<char>,
    pub firmware: Seq<char>,
    pub machine_type: Option<Seq<char>>,
    pub bridge: Option<Seq<char>>,
    pub tap_name: Option<Seq<char>>,
    pub mac_address: Option<Seq<char>>,
    pub network_limit_mbps: Option<u64>,
    pub traffic_limit_bytes: Option<u64>,
    pub root_username: Seq<char>,
    pub guest_agent: bool,
    pub autostart: bool,
    pub timezone: Option<Seq<char>>,
    pub metadata: Json,
}

impl View for NewVm {
    type V = NewVmView;

    open spec fn view(&self) -> NewVmView {
        NewVmView {
            name: self.name@,
            hostname: self.hostname@,
            description: self.description@,
            os_family: self.os_family@,
            iso_id: view_option(self.iso_id),
            vcpus: self.vcpus,
            memory_mib: self.memory_mib,
            disk_gib: self.disk_gib,
            disk_format: self.disk_format@,
            firmware: self.firmware@,
            machine_type: view_option(self.machine_type),
            bridge: view_option(self.bridge),
            tap_name: view_option(self.tap_name),
            mac_address: view_option(self.mac_address),
            network_limit_mbps: self.network_limit_mbps,
            traffic_limit_bytes: self.traffic_limit_bytes,
            root_username: self.root_username@,
            guest_agent: self.guest_agent,
            autostart: self.autostart,
            timezone: view_option(self.timezone),
            metadata: self.metadata@,
        }
    }
}

impl Clone for NewVm {
    fn clone(&self) -> (r: NewVm)
        ensures
            r@ == self@,
    {
        NewVm {
            name: self.name.clone(),
            hostname: self.hostname.clone(),
            description: self.description.clone(),
            os_family: self.os_family.clone(),
            iso_id: copy_option(&self.iso_id),
            vcpus: self.vcpus,
            memory_mib: self.memory_mib,
            disk_gib: self.disk_gib,
            disk_format: self.disk_format.clone(),
            firmware: self.firmware.clone(),
            machine_type: copy_option(&self.machine_type),
            bridge: copy_option(&self.bridge),
            tap_name: copy_option(&self.tap_name),
            mac_address: copy_option(&self.mac_address),
            network_limit_mbps: self.network_limit_mbps,
            traffic_limit_bytes: self.traffic_limit_bytes,
            root_username: self.root_username.clone(),
            guest_agent: self.guest_agent,
            autostart: self.autostart,
            timezone: copy_option(&self.timezone),
            metadata: self.metadata.clone(),
        }
    }
}

/// A change of a virtual machine.
#[derive(Debug, PartialEq, Eq)]
pub struct VmPatch {
    pub iso_id: Option<Option<String>>,
    pub os_family: Option<String>,
    pub root_username: Option<String>,
    pub hostname: Option<String>,
    pub description: Option<String>,
    pub state: Option<VmState>,
    pub desired_state: Option<VmState>,
    pub vcpus: Option<u32>,
    pub memory_mib: Option<u64>,
    pub disk_gib: Option<u64>,
    pub tap_name: Option<Option<String>>,
    pub network_limit_mbps: Option<Option<u64>>,
    pub traffic_limit_bytes: Option<Option<u64>>,
    pub traffic_used_bytes: Option<u64>,
    pub guest_agent: Option<bool>,
    pub autostart: Option<bool>,
    pub timezone: Option<Option<String>>,
    pub libvirt_uuid: Option<Option<String>>,
    pub vnc_display: Option<Option<i64>>,
    pub metadata: Option<Document>,
}

/// What a [`VmPatch`] holds, with texts as character sequences.
#[verifier::ext_equal]
pub struct VmPatchView {
    pub iso_id: Option<Option<Seq<char>>>,
    pub os_family: Option<Seq<char>>,
    pub root_username: Option<Seq<char>>,
    pub hostname: Option<Seq<char>>,
    pub description: Option<Seq<char>>,
    pub state: Option<VmState>,
    pub desired_state: Option<VmState>,
    pub vcpus: Option<u32>,
    pub memory_mib: Option<u64>,
    pub disk_gib: Option<u64>,
    pub tap_name: Option<Option<Seq<char>>>,
    pub network_limit_mbps: Option<Option<u64>>,
    pub traffic_limit_bytes: Option<Option<u64>>,
    pub traffic_used_bytes: Option<u64>,
    pub guest_agent: Option<bool>,
    pub autostart: Option<bool>,
    pub timezone: Option<Option<Seq<char>>>,
    pub libvirt_uuid: Option<Option<Seq<char>>>,
    pub vnc_display: Option<Option<i64>>,
    pub metadata: Option<Json>,
}

impl View for VmPatch {
    type V = VmPatchView;

    open spec fn view(&self) -> VmPatchView {
        VmPatchView {
            iso_id: view_text_change(self.iso_id),
            os_family: view_option(self.os_family),
            root_username: view_option(self.root_username),
            hostname: view_option(self.hostname),
            description: view_option(self.description),
            state: self.state,
            desired_state: self.desired_state,
            vcpus: self.vcpus,
            memory_mib: self.memory_mib,
            disk_gib: self.disk_gib,
            tap_name: view_text_change(self.tap_name),
            network_limit_mbps: self.network_limit_mbps,
            traffic_limit_bytes: self.traffic_limit_bytes,
            traffic_used_bytes: self.traffic_used_bytes,
            guest_agent: self.guest_agent,
            autostart: self.autostart,
            timezone: view_text_change(self.timezone),
            libvirt_uuid: view_text_change(self.libvirt_uuid),
            vnc_display: self.vnc_display,
            metadata: model(self.metadata),
        }
    }
}

impl Default for VmPatch {
    fn default() -> (r: VmPatch)
        ensures
            r@ == (VmPatchView {
                iso_id: None,
                os_family: None,
                root_username: None,
                hostname: None,
                description: None,
                state: None,
                desired_state: None,
                vcpus: None,
                memory_mib: None,
                disk_gib: None,
                tap_name: None,
                network_limit_mbps: None,
                traffic_limit_bytes: None,
                traffic_used_bytes: None,
                guest_agent: None,
                autostart: None,
                timezone: None,
                libvirt_uuid: None,
                vnc_display: None,
                metadata: None,
            }),
    {
        VmPatch {
            iso_id: None,
            os_family: None,
            root_username: None,
            hostname: None,
            description: None,
            state: None,
            desired_state: None,
            vcpus: None,
            memory_mib: None,
            disk_gib: None,
            tap_name: None,
            network_limit_mbps: None,
            traffic_limit_bytes: None,
            traffic_used_bytes: None,
            guest_agent: None,
            autostart: None,
            timezone: None,
            libvirt_uuid: None,
            vnc_display: None,
            metadata: None,
        }
    }
}

/// A staged channel key of the guest tools.
#[derive(Debug, PartialEq, Eq)]
pub struct PendingRotation {
    pub secret_envelope: String,
    pub platform: GuestToolsPlatform,
    pub provisioner: GuestToolsProvisioner,
    pub desired_version: String,
    pub generation: String,
    /// The key may be on the guest's disk.
    pub installed: bool,
}

/// What a [`PendingRotation`] holds, with texts as character sequences.
#[verifier::ext_equal]
pub struct PendingRotationView {
    pub secret_envelope: Seq<char>,
    pub platform: GuestToolsPlatform,
    pub provisioner: GuestToolsProvisioner,
    pub desired_version: Seq<char>,
    pub generation: Seq<char>,
    pub installed: bool,
}

impl View for PendingRotation {
    type V = PendingRotationView;

    open spec fn view(&self) -> PendingRotationView {
        PendingRotationView {
            secret_envelope: self.secret_envelope@,
            platform: self.platform,
            provisioner: self.provisioner,
            desired_version: self.desired_version@,
            generation: self.generation@,
            installed: self.installed,
        }
    }
}

impl Clone for PendingRotation {
    fn clone(&self) -> (r: PendingRotation)
        ensures
            r@ == self@,
    {
        PendingRotation {
            secret_envelope: self.secret_envelope.clone(),
            platform: self.platform,
            provisioner: self.provisioner,
            desired_version: self.desired_version.clone(),
            generation: self.generation.clone(),
            installed: self.installed,
        }
    }
}

impl PendingRotation {
    /// What an optional one holds.
    pub open spec fn option_view(o: Option<PendingRotation>) -> Option<PendingRotationView> {
        match o {
            Some(x) => Some(x@),
            None => None,
        }
    }

    /// A copy of an optional one.
    pub fn copy_of_option(o: &Option<PendingRotation>) -> (r: Option<PendingRotation>)
        ensures
            PendingRotation::option_view(r) == PendingRotation::option_view(*o),
    {
        match o {
            Some(x) => Some(x.clone()),
            None => None,
        }
    }
}

/// The guest tools of a machine, with their sealed channel keys.
#[derive(Debug, PartialEq, Eq)]
pub struct GuestToolsRow {
    pub vm_id: String,
    pub enabled: bool,
    pub platform: GuestToolsPlatform,
    pub provisioner: GuestToolsProvisioner,
    pub secret_envelope: String,
    pub desired_version: String,
    pub installed_version: Option<String>,
    pub status: GuestToolsStatus,
    pub last_seen_at: Option<i64>,
    pub last_error: Option<String>,
    pub pending: Option<PendingRotation>,
    pub created_at: i64,
    pub updated_at: i64,
}

/// What a [`GuestToolsRow`] holds, with texts as character sequences.
#[verifier::ext_equal]
pub struct GuestToolsRowView {
    pub vm_id: Seq<char>,
    pub enabled: bool,
    pub platform: GuestToolsPlatform,
    pub provisioner: GuestToolsProvisioner,
    pub secret_envelope: Seq<char>,
    pub desired_version: Seq<char>,
    pub installed_version: Option<Seq<char>>,
    pub status: GuestToolsStatus,
    pub last_seen_at: Option<i64>,
    pub last_error: Option<Seq<char>>,
    pub pending: Option<PendingRotationView>,
    pub created_at: i64,
    pub updated_at: i64,
}

impl View for GuestToolsRow {
    type V = GuestToolsRowView;

    open spec fn view(&self) -> GuestToolsRowView {
        GuestToolsRowView {
            vm_id: self.vm_id@,
            enabled: self.enabled,
            platform: self.platform,
            provisioner: self.provisioner,
            secret_envelope: self.secret_envelope@,
            desired_version: self.desired_version@,
            installed_version: view_option(self.installed_version),
            status: self.status,
            last_seen_at: self.last_seen_at,
            last_error: view_option(self.last_error),
            pending: PendingRotation::option_view(self.pending),
            created_at: self.created_at,
            updated_at: self.updated_at,
        }
    }
}

impl Clone for GuestToolsRow {
    fn clone(&self) -> (r: GuestToolsRow)
        ensures
            r@ == self@,
    {
        GuestToolsRow {
            vm_id: self.vm_id.clone(),
            enabled: self.enabled,
            platform: self.platform,
            provisioner: self.provisioner,
            secret_envelope: self.secret_envelope.clone(),
            desired_version: self.desired_version.clone(),
            installed_version: copy_option(&self.installed_version),
            status: self.status,
            last_seen_at: self.last_seen_at,
            last_error: copy_option(&self.last_error),
            pending: PendingRotation::copy_of_option(&self.pending),
            created_at: self.created_at,
            updated_at: self.updated_at,
        }
    }
}

impl Row for GuestToolsRow {
    fn duplicate(&self) -> (r: GuestToolsRow) {
        self.clone()
    }
}

/// What is shown of the guest tools of a machine.
#[derive(Debug, PartialEq, Eq)]
pub struct VmGuestTools {
    pub vm_id: String,
    pub enabled: bool,
    pub platform: GuestToolsPlatform,
    pub provisioner: GuestToolsProvisioner,
    pub desired_version: String,
    pub installed_version: Option<String>,
    pub status: GuestToolsStatus,
    pub last_seen_at: Option<i64>,
    pub last_error: Option<String>,
    pub pending_rotation: bool,
    pub pending_installed: bool,
    pub created_at: i64,
    pub updated_at: i64,
}

/// What a [`VmGuestTools`] holds, with texts as character sequences.
#[verifier::ext_equal]
pub struct VmGuestToolsView {
    pub vm_id: Seq<char>,
    pub enabled: bool,
    pub platform: GuestToolsPlatform,
    pub provisioner: GuestToolsProvisioner,
    pub desired_version: Seq<char>,
    pub installed_version: Option<Seq<char>>,
    pub status: GuestToolsStatus,
    pub last_seen_at: Option<i64>,
    pub last_error: Option<Seq<char>>,
    pub pending_rotation: bool,
    pub pending_installed: bool,
    pub created_at: i64,
    pub updated_at: i64,
}

impl View for VmGuestTools {
    type V = VmGuestToolsView;

    open spec fn view(&self) -> VmGuestToolsView {
        VmGuestToolsView {
            vm_id: self.vm_id@,
            enabled: self.enabled,
            platform: self.platform,
            provisioner: self.provisioner,
            desired_version: self.desired_version@,
            installed_version: view_option(self.installed_version),
            status: self.status,
            last_seen_at: self.last_seen_at,
            last_error: view_option(self.last_error),
            pending_rotation: self.pending_rotation,
            pending_installed: self.pending_installed,
            created_at: self.created_at,
            updated_at: self.updated_at,
        }
    }
}

impl Clone for VmGuestTools {
    fn clone(&self) -> (r: VmGuestTools)
        ensures
            r@ == self@,
    {
        VmGuestTools {
            vm_id: self.vm_id.clone(),
            enabled: self.enabled,
            platform: self.platform,
            provisioner: self.provisioner,
            desired_version: self.desired_version.clone(),
            installed_version: copy_option(&self.installed_version),
            status: self.status,
            last_seen_at: self.last_seen_at,
            last_error: copy_option(&self.last_error),
            pending_rotation: self.pending_rotation,
            pending_installed: self.pending_installed,
            created_at: self.created_at,
            updated_at: self.updated_at,
        }
    }
}

/// A rotation that a reinstall with the same request may take up again.
#[derive(Debug, PartialEq, Eq)]
pub struct ReusableVmGuestToolsRotation {
    pub generation: String,
    pub platform: GuestToolsPlatform,
    pub provisioner: GuestToolsProvisioner,
    pub desired_version: String,
    pub origin_job_id: String,
}

/// What a [`ReusableVmGuestToolsRotation`] holds, with texts as character sequences.
#[verifier::ext_equal]
pub struct ReusableVmGuestToolsRotationView {
    pub generation: Seq<char>,
    pub platform: GuestToolsPlatform,
    pub provisioner: GuestToolsProvisioner,
    pub desired_version: Seq<char>,
    pub origin_job_id: Seq<char>,
}

impl View for ReusableVmGuestToolsRotation {
    type V = ReusableVmGuestToolsRotationView;

    open spec fn view(&self) -> ReusableVmGuestToolsRotationView {
        ReusableVmGuestToolsRotationView {
            generation: self.generation@,
            platform: self.platform,
            provisioner: self.provisioner,
            desired_version: self.desired_version@,
            origin_job_id: self.origin_job_id@,
        }
    }
}

impl Clone for ReusableVmGuestToolsRotation {
    fn clone(&self) -> (r: ReusableVmGuestToolsRotation)
        ensures
            r@ == self@,
    {
        ReusableVmGuestToolsRotation {
            generation: self.generation.clone(),
            platform: self.platform,
            provisioner: self.provisioner,
            desired_version: self.desired_version.clone(),
            origin_job_id: self.origin_job_id.clone(),
        }
    }
}

/// A range of addresses.
#[derive(Debug, PartialEq, Eq)]
pub struct IpPool {
    pub id: String,
    pub name: String,
    pub cidr: String,
    pub family: AddressFamily,
    pub scope: IpScope,
    pub gateway: Option<String>,
    pub bridge: Option<String>,
    pub vlan_id: Option<u16>,
    pub mtu: u32,
    pub enabled: bool,
    pub created_at: i64,
    pub updated_at: i64,
}

/// What a [`IpPool`] holds, with texts as character sequences.
#[verifier::ext_equal]
pub struct IpPoolView {
    pub id: Seq<char>,
    pub name: Seq<char>,
    pub cidr: Seq<char>,
    pub family: AddressFamily,
    pub scope: IpScope,
    pub gateway: Option<Seq<char>>,
    pub bridge: Option<Seq<char>>,
    pub vlan_id: Option<u16>,
    pub mtu: u32,
    pub enabled: bool,
    pub created_at: i64,
    pub updated_at: i64,
}

impl View for IpPool {
    type V = IpPoolView;

    open spec fn view(&self) -> IpPoolView {
        IpPoolView {
            id: self.id@,
            name: self.name@,
            cidr: self.cidr@,
            family: self.family,
            scope: self.scope,
            gateway: view_option(self.gateway),
            bridge: view_option(self.bridge),
            vlan_id: self.vlan_id,
            mtu: self.mtu,
            enabled: self.enabled,
            created_at: self.created_at,
            updated_at: self.updated_at,
        }
    }
}

impl Clone for IpPool {
    fn clone(&self) -> (r: IpPool)
        ensures
            r@ == self@,
    {
        IpPool {
            id: self.id.clone(),
            name: self.name.clone(),
            cidr: self.cidr.clone(),
            family: self.family,
            scope: self.scope,
            gateway: copy_option(&self.gateway),
            bridge: copy_option(&self.bridge),
            vlan_id: self.vlan_id,
            mtu: self.mtu,
            enabled: self.enabled,
            created_at: self.created_at,
            updated_at: self.updated_at,
        }
    }
}

impl Row for IpPool {
    fn duplicate(&self) -> (r: IpPool) {
        self.clone()
    }
}

/// A range of addresses to be entered.
#[derive(Debug, PartialEq, Eq)]
pub struct NewIpPool {
    pub name: String,
    pub cidr: String,
    pub scope: IpScope,
    pub gateway: Option<String>,
    pub bridge: Option<String>,
    pub vlan_id: Option<u16>,
    pub mtu: u32,
    pub enabled: bool,
}

/// What a [`NewIpPool`] holds, with texts as character sequences.
#[verifier::ext_equal]
pub struct NewIpPoolView {
    pub name: Seq<char>,
    pub cidr: Seq<char>,
    pub scope: IpScope,
    pub gateway: Option<Seq<char>>,
    pub bridge: Option<Seq<char>>,
    pub vlan_id: Option<u16>,
    pub mtu: u32,
    pub enabled: bool,
}

impl View for NewIpPool {
    type V = NewIpPoolView;

    open spec fn view(&self) -> NewIpPoolView {
        NewIpPoolView {
            name: self.name@,
            cidr: self.cidr@,
            scope: self.scope,
            gateway: view_option(self.gateway),
            bridge: view_option(self.bridge),
            vlan_id: self.vlan_id,
            mtu: self.mtu,
            enabled: self.enabled,
        }
    }
}

impl Clone for NewIpPool {
    fn clone(&self) -> (r: NewIpPool)
        ensures
            r@ == self@,
    {
        NewIpPool {
            name: self.name.clone(),
            cidr: self.cidr.clone(),
            scope: self.scope,
            gateway: copy_option(&self.gateway),
            bridge: copy_option(&self.bridge),
            vlan_id: self.vlan_id,
            mtu: self.mtu,
            enabled: self.enabled,
        }
    }
}

/// A change of a range of addresses.
#[derive(Debug, PartialEq, Eq)]
pub struct IpPoolPatch {
    pub name: Option<String>,
    pub scope: Option<IpScope>,
    pub gateway: Option<String>,
    pub bridge: Option<String>,
    pub vlan_id: Option<u16>,
    pub mtu: Option<u32>,
    pub enabled: Option<bool>,
}

/// What a [`IpPoolPatch`] holds, with texts as character sequences.
#[verifier::ext_equal]
pub struct IpPoolPatchView {
    pub name: Option<Seq<char>>,
    pub scope: Option<IpScope>,
    pub gateway: Option<Seq<char>>,
    pub bridge: Option<Seq<char>>,
    pub vlan_id: Option<u16>,
    pub mtu: Option<u32>,
    pub enabled: Option<bool>,
}

impl View for IpPoolPatch {
    type V = IpPoolPatchView;

    open spec fn view(&self) -> IpPoolPatchView {
        IpPoolPatchView {
            name: view_option(self.name),
            scope: self.scope,
            gateway: view_option(self.gateway),
            bridge: view_option(self.bridge),
            vlan_id: self.vlan_id,
            mtu: self.mtu,
            enabled: self.enabled,
        }
    }
}

impl Default for IpPoolPatch {
    fn default() -> (r: IpPoolPatch)
        ensures
            r@ == (IpPoolPatchView {
                name: None,
                scope: None,
                gateway: None,
                bridge: None,
                vlan_id: None,
                mtu: None,
                enabled: None,
            }),
    {
        IpPoolPatch {
            name: None,
            scope: None,
            gateway: None,
            bridge: None,
            vlan_id: None,
            mtu: None,
            enabled: None,
        }
    }
}

/// An address of the inventory.
#[derive(Debug, PartialEq, Eq)]
pub struct IpAddressRecord {
    pub id: String,
    pub pool_id: Option<String>,
    pub address: String,
    pub family: AddressFamily,
    pub prefix_length: u8,
    pub scope: IpScope,
    pub status: IpStatus,
    pub gateway: Option<String>,
    pub assigned_vm_id: Option<String>,
    pub primary_for_vm: bool,
    pub reverse_dns: Option<String>,
    pub metadata: Document,
    pub created_at: i64,
    pub updated_at: i64,
}

/// What a [`IpAddressRecord`] holds, with texts as character sequences.
#[verifier::ext_equal]
pub struct IpAddressRecordView {
    pub id: Seq<char>,
    pub pool_id: Option<Seq<char>>,
    pub address: Seq<char>,
    pub family: AddressFamily,
    pub prefix_length: u8,
    pub scope: IpScope,
    pub status: IpStatus,
    pub gateway: Option<Seq<char>>,
    pub assigned_vm_id: Option<Seq<char>>,
    pub primary_for_vm: bool,
    pub reverse_dns: Option<Seq<char>>,
    pub metadata: Json,
    pub created_at: i64,
    pub updated_at: i64,
}

impl View for IpAddressRecord {
    type V = IpAddressRecordView;

    open spec fn view(&self) -> IpAddressRecordView {
        IpAddressRecordView {
            id: self.id@,
            pool_id: view_option(self.pool_id),
            address: self.address@,
            family: self.family,
            prefix_length: self.prefix_length,
            scope: self.scope,
            status: self.status,
            gateway: view_option(self.gateway),
            assigned_vm_id: view_option(self.assigned_vm_id),
            primary_for_vm: self.primary_for_vm,
            reverse_dns: view_option(self.reverse_dns),
            metadata: self.metadata@,
            created_at: self.created_at,
            updated_at: self.updated_at,
        }
    }
}

impl Clone for IpAddressRecord {
    fn clone(&self) -> (r: IpAddressRecord)
        ensures
            r@ == self@,
    {
        IpAddressRecord {
            id: self.id.clone(),
            pool_id: copy_option(&self.pool_id),
            address: self.address.clone(),
            family: self.family,
            prefix_length: self.prefix_length,
            scope: self.scope,
            status: self.status,
            gateway: copy_option(&self.gateway),
            assigned_vm_id: copy_option(&self.assigned_vm_id),
            primary_for_vm: self.primary_for_vm,
            reverse_dns: copy_option(&self.reverse_dns),
            metadata: self.metadata.clone(),
            created_at: self.created_at,
            updated_at: self.updated_at,
        }
    }
}

impl Row for IpAddressRecord {
    fn duplicate(&self) -> (r: IpAddressRecord) {
        self.clone()
    }
}

/// An address to be entered.
#[derive(Debug, PartialEq, Eq)]
pub struct NewIpAddress {
    pub pool_id: Option<String>,
    pub address: String,
    pub prefix_length: u8,
    pub scope: IpScope,
    pub status: IpStatus,
    pub gateway: Option<String>,
    pub reverse_dns: Option<String>,
    pub metadata: Document,
}

/// What a [`NewIpAddress`] holds, with texts as character sequences.
#[verifier::ext_equal]
pub struct NewIpAddressView {
    pub pool_id: Option<Seq<char>>,
    pub address: Seq<char>,
    pub prefix_length: u8,
    pub scope: IpScope,
    pub status: IpStatus,
    pub gateway: Option<Seq<char>>,
    pub reverse_dns: Option<Seq<char>>,
    pub metadata: Json,
}

impl View for NewIpAddress {
    type V = NewIpAddressView;

    open spec fn view(&self) -> NewIpAddressView {
        NewIpAddressView {
            pool_id: view_option(self.pool_id),
            address: self.address@,
            prefix_length: self.prefix_length,
            scope: self.scope,
            status: self.status,
            gateway: view_option(self.gateway),
            reverse_dns: view_option(self.reverse_dns),
            metadata: self.metadata@,
        }
    }
}

impl Clone for NewIpAddress {
    fn clone(&self) -> (r: NewIpAddress)
        ensures
            r@ == self@,
    {
        NewIpAddress {
            pool_id: copy_option(&self.pool_id),
            address: self.address.clone(),
            prefix_length: self.prefix_length,
            scope: self.scope,
            status: self.status,
            gateway: copy_option(&self.gateway),
            reverse_dns: copy_option(&self.reverse_dns),
            metadata: self.metadata.clone(),
        }
    }
}

/// A name server.
#[derive(Debug, PartialEq, Eq)]
pub struct DnsServer {
    pub id: i64,
    pub address: String,
    pub family: AddressFamily,
    pub priority: i64,
    pub pool_id: Option<String>,
    pub vm_id: Option<String>,
}

/// What a [`DnsServer`] holds, with texts as character sequences.
#[verifier::ext_equal]
pub struct DnsServerView {
    pub id: i64,
    pub address: Seq<char>,
    pub family: AddressFamily,
    pub priority: i64,
    pub pool_id: Option<Seq<char>>,
    pub vm_id: Option<Seq<char>>,
}

impl View for DnsServer {
    type V = DnsServerView;

    open spec fn view(&self) -> DnsServerView {
        DnsServerView {
            id: self.id,
            address: self.address@,
            family: self.family,
            priority: self.priority,
            pool_id: view_option(self.pool_id),
            vm_id: view_option(self.vm_id),
        }
    }
}

impl Clone for DnsServer {
    fn clone(&self) -> (r: DnsServer)
        ensures
            r@ == self@,
    {
        DnsServer {
            id: self.id,
            address: self.address.clone(),
            family: self.family,
            priority: self.priority,
            pool_id: copy_option(&self.pool_id),
            vm_id: copy_option(&self.vm_id),
        }
    }
}

impl Row for DnsServer {
    fn duplicate(&self) -> (r: DnsServer) {
        self.clone()
    }
}

/// A network whose addresses may not be assigned.
#[derive(Debug, PartialEq, Eq)]
pub struct IpBlacklistEntry {
    pub id: String,
    pub cidr: String,
    pub family: AddressFamily,
    pub reason: String,
    pub source: String,
    pub enabled: bool,
    pub expires_at: Option<i64>,
    pub created_by: Option<String>,
    pub metadata: Document,
    pub created_at: i64,
    pub updated_at: i64,
}

/// What a [`IpBlacklistEntry`] holds, with texts as character sequences.
#[verifier::ext_equal]
pub struct IpBlacklistEntryView {
    pub id: Seq<char>,
    pub cidr: Seq<char>,
    pub family: AddressFamily,
    pub reason: Seq<char>,
    pub source: Seq<char>,
    pub enabled: bool,
    pub expires_at: Option<i64>,
    pub created_by: Option<Seq<char>>,
    pub metadata: Json,
    pub created_at: i64,
    pub updated_at: i64,
}

impl View for IpBlacklistEntry {
    type V = IpBlacklistEntryView;

    open spec fn view(&self) -> IpBlacklistEntryView {
        IpBlacklistEntryView {
            id: self.id@,
            cidr: self.cidr@,
            family: self.family,
            reason: self.reason@,
            source: self.source@,
            enabled: self.enabled,
            expires_at: self.expires_at,
            created_by: view_option(self.created_by),
            metadata: self.metadata@,
            created_at: self.created_at,
            updated_at: self.updated_at,
        }
    }
}

impl Clone for IpBlacklistEntry {
    fn clone(&self) -> (r: IpBlacklistEntry)
        ensures
            r@ == self@,
    {
        IpBlacklistEntry {
            id: self.id.clone(),
            cidr: self.cidr.clone(),
            family: self.family,
            reason: self.reason.clone(),
            source: self.source.clone(),
            enabled: self.enabled,
            expires_at: self.expires_at,
            created_by: copy_option(&self.created_by),
            metadata: self.metadata.clone(),
            created_at: self.created_at,
            updated_at: self.updated_at,
        }
    }
}

impl Row for IpBlacklistEntry {
    fn duplicate(&self) -> (r: IpBlacklistEntry) {
        self.clone()
    }
}

/// A network to be barred.
#[derive(Debug, PartialEq, Eq)]
pub struct NewIpBlacklistEntry {
    pub cidr: String,
    pub reason: String,
    pub source: String,
    pub enabled: bool,
    pub expires_at: Option<i64>,
    pub created_by: Option<String>,
    pub metadata: Document,
}

/// What a [`NewIpBlacklistEntry`] holds, with texts as character sequences.
#[verifier::ext_equal]
pub struct NewIpBlacklistEntryView {
    pub cidr: Seq<char>,
    pub reason: Seq<char>,
    pub source: Seq<char>,
    pub enabled: bool,
    pub expires_at: Option<i64>,
    pub created_by: Option<Seq<char>>,
    pub metadata: Json,
}

impl View for NewIpBlacklistEntry {
    type V = NewIpBlacklistEntryView;

    open spec fn view(&self) -> NewIpBlacklistEntryView {
        NewIpBlacklistEntryView {
            cidr: self.cidr@,
            reason: self.reason@,
            source: self.source@,
            enabled: self.enabled,
            expires_at: self.expires_at,
            created_by: view_option(self.created_by),
            metadata: self.metadata@,
        }
    }
}

impl Clone for NewIpBlacklistEntry {
    fn clone(&self) -> (r: NewIpBlacklistEntry)
        ensures
            r@ == self@,
    {
        NewIpBlacklistEntry {
            cidr: self.cidr.clone(),
            reason: self.reason.clone(),
            source: self.source.clone(),
            enabled: self.enabled,
            expires_at: self.expires_at,
            created_by: copy_option(&self.created_by),
            metadata: self.metadata.clone(),
        }
    }
}

/// A change of a barred network.
#[derive(Debug, PartialEq, Eq)]
pub struct IpBlacklistPatch {
    pub reason: Option<String>,
    pub source: Option<String>,
    pub enabled: Option<bool>,
    pub expires_at: Option<Option<i64>>,
    pub metadata: Option<Document>,
}

/// What a [`IpBlacklistPatch`] holds, with texts as character sequences.
#[verifier::ext_equal]
pub struct IpBlacklistPatchView {
    pub reason: Option<Seq<char>>,
    pub source: Option<Seq<char>>,
    pub enabled: Option<bool>,
    pub expires_at: Option<Option<i64>>,
    pub metadata: Option<Json>,
}

impl View for IpBlacklistPatch {
    type V = IpBlacklistPatchView;

    open spec fn view(&self) -> IpBlacklistPatchView {
        IpBlacklistPatchView {
            reason: view_option(self.reason),
            source: view_option(self.source),
            enabled: self.enabled,
            expires_at: self.expires_at,
            metadata: model(self.metadata),
        }
    }
}

impl Default for IpBlacklistPatch {
    fn default() -> (r: IpBlacklistPatch)
        ensures
            r@ == (IpBlacklistPatchView {
                reason: None,
                source: None,
                enabled: None,
                expires_at: None,
                metadata: None,
            }),
    {
        IpBlacklistPatch {
            reason: None,
            source: None,
            enabled: None,
            expires_at: None,
            metadata: None,
        }
    }
}

/// A complaint about an address.
#[derive(Debug, PartialEq, Eq)]
pub struct IpAbuseRecord {
    pub id: String,
    pub address: String,
    pub family: AddressFamily,
    pub vm_id: Option<String>,
    pub category: String,
    pub severity: u8,
    pub summary: String,
    pub reporter: Option<String>,
    pub provider_reference: Option<String>,
    pub observed_at: i64,
    pub reported_at: i64,
    pub resolved_at: Option<i64>,
    pub resolved_by: Option<String>,
    pub resolution: Option<String>,
    pub metadata: Document,
}

/// What a [`IpAbuseRecord`] holds, with texts as character sequences.
#[verifier::ext_equal]
pub struct IpAbuseRecordView {
    pub id: Seq<char>,
    pub address: Seq<char>,
    pub family: AddressFamily,
    pub vm_id: Option<Seq<char>>,
    pub category: Seq<char>,
    pub severity: u8,
    pub summary: Seq<char>,
    pub reporter: Option<Seq<char>>,
    pub provider_reference: Option<Seq<char>>,
    pub observed_at: i64,
    pub reported_at: i64,
    pub resolved_at: Option<i64>,
    pub resolved_by: Option<Seq<char>>,
    pub resolution: Option<Seq<char>>,
    pub metadata: Json,
}

impl View for IpAbuseRecord {
    type V = IpAbuseRecordView;

    open spec fn view(&self) -> IpAbuseRecordView {
        IpAbuseRecordView {
            id: self.id@,
            address: self.address@,
            family: self.family,
            vm_id: view_option(self.vm_id),
            category: self.category@,
            severity: self.severity,
            summary: self.summary@,
            reporter: view_option(self.reporter),
            provider_reference: view_option(self.provider_reference),
            observed_at: self.observed_at,
            reported_at: self.reported_at,
            resolved_at: self.resolved_at,
            resolved_by: view_option(self.resolved_by),
            resolution: view_option(self.resolution),
            metadata: self.metadata@,
        }
    }
}

impl Clone for IpAbuseRecord {
    fn clone(&self) -> (r: IpAbuseRecord)
        ensures
            r@ == self@,
    {
        IpAbuseRecord {
            id: self.id.clone(),
            address: self.address.clone(),
            family: self.family,
            vm_id: copy_option(&self.vm_id),
            category: self.category.clone(),
            severity: self.severity,
            summary: self.summary.clone(),
            reporter: copy_option(&self.reporter),
            provider_reference: copy_option(&self.provider_reference),
            observed_at: self.observed_at,
            reported_at: self.reported_at,
            resolved_at: self.resolved_at,
            resolved_by: copy_option(&self.resolved_by),
            resolution: copy_option(&self.resolution),
            metadata: self.metadata.clone(),
        }
    }
}

impl Row for IpAbuseRecord {
    fn duplicate(&self) -> (r: IpAbuseRecord) {
        self.clone()
    }
}

/// A complaint to be entered.
#[derive(Debug, PartialEq, Eq)]
pub struct NewIpAbuseRecord {
    pub address: String,
    pub vm_id: Option<String>,
    pub category: String,
    pub severity: u8,
    pub summary: String,
    pub reporter: Option<String>,
    pub provider_reference: Option<String>,
    pub observed_at: Option<i64>,
    pub metadata: Document,
}

/// What a [`NewIpAbuseRecord`] holds, with texts as character sequences.
#[verifier::ext_equal]
pub struct NewIpAbuseRecordView {
    pub address: Seq<char>,
    pub vm_id: Option<Seq<char>>,
    pub category: Seq<char>,
    pub severity: u8,
    pub summary: Seq<char>,
    pub reporter: Option<Seq<char>>,
    pub provider_reference: Option<Seq<char>>,
    pub observed_at: Option<i64>,
    pub metadata: Json,
}

impl View for NewIpAbuseRecord {
    type V = NewIpAbuseRecordView;

    open spec fn view(&self) -> NewIpAbuseRecordView {
        NewIpAbuseRecordView {
            address: self.address@,
            vm_id: view_option(self.vm_id),
            category: self.category@,
            severity: self.severity,
            summary: self.summary@,
            reporter: view_option(self.reporter),
            provider_reference: view_option(self.provider_reference),
            observed_at: self.observed_at,
            metadata: self.metadata@,
        }
    }
}

impl Clone for NewIpAbuseRecord {
    fn clone(&self) -> (r: NewIpAbuseRecord)
        ensures
            r@ == self@,
    {
        NewIpAbuseRecord {
            address: self.address.clone(),
            vm_id: copy_option(&self.vm_id),
            category: self.category.clone(),
            severity: self.severity,
            summary: self.summary.clone(),
            reporter: copy_option(&self.reporter),
            provider_reference: copy_option(&self.provider_reference),
            observed_at: self.observed_at,
            metadata: self.metadata.clone(),
        }
    }
}

/// A setting.
#[derive(Debug, PartialEq, Eq)]
pub struct SettingRecord {
    pub key: String,
    pub value: Document,
    pub encrypted: bool,
    pub updated_by: Option<String>,
    pub updated_at: i64,
}

/// What a [`SettingRecord`] holds, with texts as character sequences.
#[verifier::ext_equal]
pub struct SettingRecordView {
    pub key: Seq<char>,
    pub value: Json,
    pub encrypted: bool,
    pub updated_by: Option<Seq<char>>,
    pub updated_at: i64,
}

impl View for SettingRecord {
    type V = SettingRecordView;

    open spec fn view(&self) -> SettingRecordView {
        SettingRecordView {
            key: self.key@,
            value: self.value@,
            encrypted: self.encrypted,
            updated_by: view_option(self.updated_by),
            updated_at: self.updated_at,
        }
    }
}

impl Clone for SettingRecord {
    fn clone(&self) -> (r: SettingRecord)
        ensures
            r@ == self@,
    {
        SettingRecord {
            key: self.key.clone(),
            value: self.value.clone(),
            encrypted: self.encrypted,
            updated_by: copy_option(&self.updated_by),
            updated_at: self.updated_at,
        }
    }
}

impl Row for SettingRecord {
    fn duplicate(&self) -> (r: SettingRecord) {
        self.clone()
    }
}

/// An installation image.
#[derive(Debug, PartialEq, Eq)]
pub struct IsoImage {
    pub id: String,
    pub slug: String,
    pub name: String,
    pub version: String,
    pub os_family: String,
    pub architecture: String,
    pub install_mode: String,
    pub source_url: Option<String>,
    pub local_path: Option<String>,
    pub checksum_sha256: Option<String>,
    pub size_bytes: Option<u64>,
    pub supports_guest_agent: bool,
    pub supports_cloud_init: bool,
    pub uefi: bool,
    pub enabled: bool,
    pub metadata: Document,
    pub created_at: i64,
    pub updated_at: i64,
}

/// What a [`IsoImage`] holds, with texts as character sequences.
#[verifier::ext_equal]
pub struct IsoImageView {
    pub id: Seq<char>,
    pub slug: Seq<char>,
    pub name: Seq<char>,
    pub version: Seq<char>,
    pub os_family: Seq<char>,
    pub architecture: Seq<char>,
    pub install_mode: Seq<char>,
    pub source_url: Option<Seq<char>>,
    pub local_path: Option<Seq<char>>,
    pub checksum_sha256: Option<Seq<char>>,
    pub size_bytes: Option<u64>,
    pub supports_guest_agent: bool,
    pub supports_cloud_init: bool,
    pub uefi: bool,
    pub enabled: bool,
    pub metadata: Json,
    pub created_at: i64,
    pub updated_at: i64,
}

impl View for IsoImage {
    type V = IsoImageView;

    open spec fn view(&self) -> IsoImageView {
        IsoImageView {
            id: self.id@,
            slug: self.slug@,
            name: self.name@,
            version: self.version@,
            os_family: self.os_family@,
            architecture: self.architecture@,
            install_mode: self.install_mode@,
            source_url: view_option(self.source_url),
            local_path: view_option(self.local_path),
            checksum_sha256: view_option(self.checksum_sha256),
            size_bytes: self.size_bytes,
            supports_guest_agent: self.supports_guest_agent,
            supports_cloud_init: self.supports_cloud_init,
            uefi: self.uefi,
            enabled: self.enabled,
            metadata: self.metadata@,
            created_at: self.created_at,
            updated_at: self.updated_at,
        }
    }
}

impl Clone for IsoImage {
    fn clone(&self) -> (r: IsoImage)
        ensures
            r@ == self@,
    {
        IsoImage {
            id: self.id.clone(),
            slug: self.slug.clone(),
            name: self.name.clone(),
            version: self.version.clone(),
            os_family: self.os_family.clone(),
            architecture: self.architecture.clone(),
            install_mode: self.install_mode.clone(),
            source_url: copy_option(&self.source_url),
            local_path: copy_option(&self.local_path),
            checksum_sha256: copy_option(&self.checksum_sha256),
            size_bytes: self.size_bytes,
            supports_guest_agent: self.supports_guest_agent,
            supports_cloud_init: self.supports_cloud_init,
            uefi: self.uefi,
            enabled: self.enabled,
            metadata: self.metadata.clone(),
            created_at: self.created_at,
            updated_at: self.updated_at,
        }
    }
}

impl Row for IsoImage {
    fn duplicate(&self) -> (r: IsoImage) {
        self.clone()
    }
}

/// What was detected of the host.
#[derive(Debug, PartialEq, Eq)]
pub struct HostInventory {
    pub hostname: String,
    pub architecture: String,
    pub kernel: String,
    pub cpu_model: String,
    pub cpu_cores: u32,
    pub memory_total_bytes: u64,
    pub root_disk_total_bytes: u64,
    pub listen_port: u16,
    pub public_interface: Option<String>,
    pub detected_addresses: Vec<String>,
    pub metadata: Document,
    pub updated_at: i64,
}

/// What a [`HostInventory`] holds, with texts as character sequences.
#[verifier::ext_equal]
pub struct HostInventoryView {
    pub hostname: Seq<char>,
    pub architecture: Seq<char>,
    pub kernel: Seq<char>,
    pub cpu_model: Seq<char>,
    pub cpu_cores: u32,
    pub memory_total_bytes: u64,
    pub root_disk_total_bytes: u64,
    pub listen_port: u16,
    pub public_interface: Option<Seq<char>>,
    pub detected_addresses: Seq<Seq<char>>,
    pub metadata: Json,
    pub updated_at: i64,
}

impl View for HostInventory {
    type V = HostInventoryView;

    open spec fn view(&self) -> HostInventoryView {
        HostInventoryView {
            hostname: self.hostname@,
            architecture: self.architecture@,
            kernel: self.kernel@,
            cpu_model: self.cpu_model@,
            cpu_cores: self.cpu_cores,
            memory_total_bytes: self.memory_total_bytes,
            root_disk_total_bytes: self.root_disk_total_bytes,
            listen_port: self.listen_port,
            public_interface: view_option(self.public_interface),
            detected_addresses: views(self.detected_addresses@),
            metadata: self.metadata@,
            updated_at: self.updated_at,
        }
    }
}

impl Clone for HostInventory {
    fn clone(&self) -> (r: HostInventory)
        ensures
            r@ == self@,
    {
        HostInventory {
            hostname: self.hostname.clone(),
            architecture: self.architecture.clone(),
            kernel: self.kernel.clone(),
            cpu_model: self.cpu_model.clone(),
            cpu_cores: self.cpu_cores,
            memory_total_bytes: self.memory_total_bytes,
            root_disk_total_bytes: self.root_disk_total_bytes,
            listen_port: self.listen_port,
            public_interface: copy_option(&self.public_interface),
            detected_addresses: copy_list(&self.detected_addresses),
            metadata: self.metadata.clone(),
            updated_at: self.updated_at,
        }
    }
}

impl HostInventory {
    /// What an optional one holds.
    pub open spec fn option_view(o: Option<HostInventory>) -> Option<HostInventoryView> {
        match o {
            Some(x) => Some(x@),
            None => None,
        }
    }

    /// A copy of an optional one.
    pub fn copy_of_option(o: &Option<HostInventory>) -> (r: Option<HostInventory>)
        ensures
            HostInventory::option_view(r) == HostInventory::option_view(*o),
    {
        match o {
            Some(x) => Some(x.clone()),
            None => None,
        }
    }
}

/// A measurement of the host; rates, loads and percentages are the bits of their numbers.
#[derive(Debug, PartialEq, Eq)]
pub struct HostMetric {
    pub sampled_at: i64,
    pub cpu_percent: u64,
    pub load_one: u64,
    pub load_five: u64,
    pub load_fifteen: u64,
    pub memory_total_bytes: u64,
    pub memory_used_bytes: u64,
    pub swap_total_bytes: u64,
    pub swap_used_bytes: u64,
    pub disk_total_bytes: u64,
    pub disk_used_bytes: u64,
    pub disk_read_bps: u64,
    pub disk_write_bps: u64,
    pub network_rx_bytes: u64,
    pub network_tx_bytes: u64,
    pub network_rx_bps: u64,
    pub network_tx_bps: u64,
    pub uptime_seconds: u64,
    pub metadata: Document,
}

/// What a [`HostMetric`] holds, with texts as character sequences.
#[verifier::ext_equal]
pub struct HostMetricView {
    pub sampled_at: i64,
    pub cpu_percent: u64,
    pub load_one: u64,
    pub load_five: u64,
    pub load_fifteen: u64,
    pub memory_total_bytes: u64,
    pub memory_used_bytes: u64,
    pub swap_total_bytes: u64,
    pub swap_used_bytes: u64,
    pub disk_total_bytes: u64,
    pub disk_used_bytes: u64,
    pub disk_read_bps: u64,
    pub disk_write_bps: u64,
    pub network_rx_bytes: u64,
    pub network_tx_bytes: u64,
    pub network_rx_bps: u64,
    pub network_tx_bps: u64,
    pub uptime_seconds: u64,
    pub metadata: Json,
}

impl View for HostMetric {
    type V = HostMetricView;

    open spec fn view(&self) -> HostMetricView {
        HostMetricView {
            sampled_at: self.sampled_at,
            cpu_percent: self.cpu_percent,
            load_one: self.load_one,
            load_five: self.load_five,
            load_fifteen: self.load_fifteen,
            memory_total_bytes: self.memory_total_bytes,
            memory_used_bytes: self.memory_used_bytes,
            swap_total_bytes: self.swap_total_bytes,
            swap_used_bytes: self.swap_used_bytes,
            disk_total_bytes: self.disk_total_bytes,
            disk_used_bytes: self.disk_used_bytes,
            disk_read_bps: self.disk_read_bps,
            disk_write_bps: self.disk_write_bps,
            network_rx_bytes: self.network_rx_bytes,
            network_tx_bytes: self.network_tx_bytes,
            network_rx_bps: self.network_rx_bps,
            network_tx_bps: self.network_tx_bps,
            uptime_seconds: self.uptime_seconds,
            metadata: self.metadata@,
        }
    }
}

impl Clone for HostMetric {
    fn clone(&self) -> (r: HostMetric)
        ensures
            r@ == self@,
    {
        HostMetric {
            sampled_at: self.sampled_at,
            cpu_percent: self.cpu_percent,
            load_one: self.load_one,
            load_five: self.load_five,
            load_fifteen: self.load_fifteen,
            memory_total_bytes: self.memory_total_bytes,
            memory_used_bytes: self.memory_used_bytes,
            swap_total_bytes: self.swap_total_bytes,
            swap_used_bytes: self.swap_used_bytes,
            disk_total_bytes: self.disk_total_bytes,
            disk_used_bytes: self.disk_used_bytes,
            disk_read_bps: self.disk_read_bps,
            disk_write_bps: self.disk_write_bps,
            network_rx_bytes: self.network_rx_bytes,
            network_tx_bytes: self.network_tx_bytes,
            network_rx_bps: self.network_rx_bps,
            network_tx_bps: self.network_tx_bps,
            uptime_seconds: self.uptime_seconds,
            metadata: self.metadata.clone(),
        }
    }
}

impl Row for HostMetric {
    fn duplicate(&self) -> (r: HostMetric) {
        self.clone()
    }
}

/// A measurement of a machine; rates and percentages are the bits of their numbers.
#[derive(Debug, PartialEq, Eq)]
pub struct VmMetric {
    pub vm_id: String,
    pub sampled_at: i64,
    pub cpu_percent: u64,
    pub memory_used_bytes: u64,
    pub memory_total_bytes: u64,
    pub disk_read_bytes: u64,
    pub disk_write_bytes: u64,
    pub disk_read_bps: u64,
    pub disk_write_bps: u64,
    pub network_rx_bytes: u64,
    pub network_tx_bytes: u64,
    pub network_rx_bps: u64,
    pub network_tx_bps: u64,
    pub traffic_used_bytes: u64,
    pub traffic_limit_bytes: Option<u64>,
    pub metadata: Document,
}

/// What a [`VmMetric`] holds, with texts as character sequences.
#[verifier::ext_equal]
pub struct VmMetricView {
    pub vm_id: Seq<char>,
    pub sampled_at: i64,
    pub cpu_percent: u64,
    pub memory_used_bytes: u64,
    pub memory_total_bytes: u64,
    pub disk_read_bytes: u64,
    pub disk_write_bytes: u64,
    pub disk_read_bps: u64,
    pub disk_write_bps: u64,
    pub network_rx_bytes: u64,
    pub network_tx_bytes: u64,
    pub network_rx_bps: u64,
    pub network_tx_bps: u64,
    pub traffic_used_bytes: u64,
    pub traffic_limit_bytes: Option<u64>,
    pub metadata: Json,
}

impl View for VmMetric {
    type V = VmMetricView;

    open spec fn view(&self) -> VmMetricView {
        VmMetricView {
            vm_id: self.vm_id@,
            sampled_at: self.sampled_at,
            cpu_percent: self.cpu_percent,
            memory_used_bytes: self.memory_used_bytes,
            memory_total_bytes: self.memory_total_bytes,
            disk_read_bytes: self.disk_read_bytes,
            disk_write_bytes: self.disk_write_bytes,
            disk_read_bps: self.disk_read_bps,
            disk_write_bps: self.disk_write_bps,
            network_rx_bytes: self.network_rx_bytes,
            network_tx_bytes: self.network_tx_bytes,
            network_rx_bps: self.network_rx_bps,
            network_tx_bps: self.network_tx_bps,
            traffic_used_bytes: self.traffic_used_bytes,
            traffic_limit_bytes: self.traffic_limit_bytes,
            metadata: self.metadata@,
        }
    }
}

impl Clone for VmMetric {
    fn clone(&self) -> (r: VmMetric)
        ensures
            r@ == self@,
    {
        VmMetric {
            vm_id: self.vm_id.clone(),
            sampled_at: self.sampled_at,
            cpu_percent: self.cpu_percent,
            memory_used_bytes: self.memory_used_bytes,
            memory_total_bytes: self.memory_total_bytes,
            disk_read_bytes: self.disk_read_bytes,
            disk_write_bytes: self.disk_write_bytes,
            disk_read_bps: self.disk_read_bps,
            disk_write_bps: self.disk_write_bps,
            network_rx_bytes: self.network_rx_bytes,
            network_tx_bytes: self.network_tx_bytes,
            network_rx_bps: self.network_rx_bps,
            network_tx_bps: self.network_tx_bps,
            traffic_used_bytes: self.traffic_used_bytes,
            traffic_limit_bytes: self.traffic_limit_bytes,
            metadata: self.metadata.clone(),
        }
    }
}

impl Row for VmMetric {
    fn duplicate(&self) -> (r: VmMetric) {
        self.clone()
    }
}

/// Whether the link of a machine is cut.
#[derive(Debug, PartialEq, Eq)]
pub struct VmTrafficEnforcement {
    pub vm_id: String,
    pub blocked: bool,
    pub blocked_at: Option<i64>,
    pub last_error: Option<String>,
    pub updated_at: i64,
}

/// What a [`VmTrafficEnforcement`] holds, with texts as character sequences.
#[verifier::ext_equal]
pub struct VmTrafficEnforcementView {
    pub vm_id: Seq<char>,
    pub blocked: bool,
    pub blocked_at: Option<i64>,
    pub last_error: Option<Seq<char>>,
    pub updated_at: i64,
}

impl View for VmTrafficEnforcement {
    type V = VmTrafficEnforcementView;

    open spec fn view(&self) -> VmTrafficEnforcementView {
        VmTrafficEnforcementView {
            vm_id: self.vm_id@,
            blocked: self.blocked,
            blocked_at: self.blocked_at,
            last_error: view_option(self.last_error),
            updated_at: self.updated_at,
        }
    }
}

impl Clone for VmTrafficEnforcement {
    fn clone(&self) -> (r: VmTrafficEnforcement)
        ensures
            r@ == self@,
    {
        VmTrafficEnforcement {
            vm_id: self.vm_id.clone(),
            blocked: self.blocked,
            blocked_at: self.blocked_at,
            last_error: copy_option(&self.last_error),
            updated_at: self.updated_at,
        }
    }
}

impl Row for VmTrafficEnforcement {
    fn duplicate(&self) -> (r: VmTrafficEnforcement) {
        self.clone()
    }
}

/// The network policy of a machine.
#[derive(Debug, PartialEq, Eq)]
pub struct VmNetworkSecurity {
    pub vm_id: String,
    pub firewall_enabled: bool,
    pub ddos_enabled: bool,
    pub default_ingress_action: FirewallAction,
    pub default_egress_action: FirewallAction,
    pub syn_rate_limit_pps: Option<u32>,
    pub udp_rate_limit_pps: Option<u32>,
    pub icmp_rate_limit_pps: Option<u32>,
    pub new_connection_limit_pps: Option<u32>,
    pub concurrent_connection_limit: Option<u32>,
    pub port_scan_protection: bool,
    pub drop_invalid_packets: bool,
    pub revision: u64,
    pub applied_revision: Option<u64>,
    pub last_applied_at: Option<i64>,
    pub last_error: Option<String>,
    pub created_at: i64,
    pub updated_at: i64,
}

/// What a [`VmNetworkSecurity`] holds, with texts as character sequences.
#[verifier::ext_equal]
pub struct VmNetworkSecurityView {
    pub vm_id: Seq<char>,
    pub firewall_enabled: bool,
    pub ddos_enabled: bool,
    pub default_ingress_action: FirewallAction,
    pub default_egress_action: FirewallAction,
    pub syn_rate_limit_pps: Option<u32>,
    pub udp_rate_limit_pps: Option<u32>,
    pub icmp_rate_limit_pps: Option<u32>,
    pub new_connection_limit_pps: Option<u32>,
    pub concurrent_connection_limit: Option<u32>,
    pub port_scan_protection: bool,
    pub drop_invalid_packets: bool,
    pub revision: u64,
    pub applied_revision: Option<u64>,
    pub last_applied_at: Option<i64>,
    pub last_error: Option<Seq<char>>,
    pub created_at: i64,
    pub updated_at: i64,
}

impl View for VmNetworkSecurity {
    type V = VmNetworkSecurityView;

    open spec fn view(&self) -> VmNetworkSecurityView {
        VmNetworkSecurityView {
            vm_id: self.vm_id@,
            firewall_enabled: self.firewall_enabled,
            ddos_enabled: self.ddos_enabled,
            default_ingress_action: self.default_ingress_action,
            default_egress_action: self.default_egress_action,
            syn_rate_limit_pps: self.syn_rate_limit_pps,
            udp_rate_limit_pps: self.udp_rate_limit_pps,
            icmp_rate_limit_pps: self.icmp_rate_limit_pps,
            new_connection_limit_pps: self.new_connection_limit_pps,
            concurrent_connection_limit: self.concurrent_connection_limit,
            port_scan_protection: self.port_scan_protection,
            drop_invalid_packets: self.drop_invalid_packets,
            revision: self.revision,
            applied_revision: self.applied_revision,
            last_applied_at: self.last_applied_at,
            last_error: view_option(self.last_error),
            created_at: self.created_at,
            updated_at: self.updated_at,
        }
    }
}

impl Clone for VmNetworkSecurity {
    fn clone(&self) -> (r: VmNetworkSecurity)
        ensures
            r@ == self@,
    {
        VmNetworkSecurity {
            vm_id: self.vm_id.clone(),
            firewall_enabled: self.firewall_enabled,
            ddos_enabled: self.ddos_enabled,
            default_ingress_action: self.default_ingress_action,
            default_egress_action: self.default_egress_action,
            syn_rate_limit_pps: self.syn_rate_limit_pps,
            udp_rate_limit_pps: self.udp_rate_limit_pps,
            icmp_rate_limit_pps: self.icmp_rate_limit_pps,
            new_connection_limit_pps: self.new_connection_limit_pps,
            concurrent_connection_limit: self.concurrent_connection_limit,
            port_scan_protection: self.port_scan_protection,
            drop_invalid_packets: self.drop_invalid_packets,
            revision: self.revision,
            applied_revision: self.applied_revision,
            last_applied_at: self.last_applied_at,
            last_error: copy_option(&self.last_error),
            created_at: self.created_at,
            updated_at: self.updated_at,
        }
    }
}

impl Row for VmNetworkSecurity {
    fn duplicate(&self) -> (r: VmNetworkSecurity) {
        self.clone()
    }
}

/// A change of the network policy of a machine.
#[derive(Debug, PartialEq, Eq)]
pub struct VmNetworkSecurityPatch {
    pub firewall_enabled: Option<bool>,
    pub ddos_enabled: Option<bool>,
    pub default_ingress_action: Option<FirewallAction>,
    pub default_egress_action: Option<FirewallAction>,
    pub syn_rate_limit_pps: Option<Option<u32>>,
    pub udp_rate_limit_pps: Option<Option<u32>>,
    pub icmp_rate_limit_pps: Option<Option<u32>>,
    pub new_connection_limit_pps: Option<Option<u32>>,
    pub concurrent_connection_limit: Option<Option<u32>>,
    pub port_scan_protection: Option<bool>,
    pub drop_invalid_packets: Option<bool>,
}

/// What a [`VmNetworkSecurityPatch`] holds, with texts as character sequences.
#[verifier::ext_equal]
pub struct VmNetworkSecurityPatchView {
    pub firewall_enabled: Option<bool>,
    pub ddos_enabled: Option<bool>,
    pub default_ingress_action: Option<FirewallAction>,
    pub default_egress_action: Option<FirewallAction>,
    pub syn_rate_limit_pps: Option<Option<u32>>,
    pub udp_rate_limit_pps: Option<Option<u32>>,
    pub icmp_rate_limit_pps: Option<Option<u32>>,
    pub new_connection_limit_pps: Option<Option<u32>>,
    pub concurrent_connection_limit: Option<Option<u32>>,
    pub port_scan_protection: Option<bool>,
    pub drop_invalid_packets: Option<bool>,
}

impl View for VmNetworkSecurityPatch {
    type V = VmNetworkSecurityPatchView;

    open spec fn view(&self) -> VmNetworkSecurityPatchView {
        VmNetworkSecurityPatchView {
            firewall_enabled: self.firewall_enabled,
            ddos_enabled: self.ddos_enabled,
            default_ingress_action: self.default_ingress_action,
            default_egress_action: self.default_egress_action,
            syn_rate_limit_pps: self.syn_rate_limit_pps,
            udp_rate_limit_pps: self.udp_rate_limit_pps,
            icmp_rate_limit_pps: self.icmp_rate_limit_pps,
            new_connection_limit_pps: self.new_connection_limit_pps,
            concurrent_connection_limit: self.concurrent_connection_limit,
            port_scan_protection: self.port_scan_protection,
            drop_invalid_packets: self.drop_invalid_packets,
        }
    }
}

impl Default for VmNetworkSecurityPatch {
    fn default() -> (r: VmNetworkSecurityPatch)
        ensures
            r@ == (VmNetworkSecurityPatchView {
                firewall_enabled: None,
                ddos_enabled: None,
                default_ingress_action: None,
                default_egress_action: None,
                syn_rate_limit_pps: None,
                udp_rate_limit_pps: None,
                icmp_rate_limit_pps: None,
                new_connection_limit_pps: None,
                concurrent_connection_limit: None,
                port_scan_protection: None,
                drop_invalid_packets: None,
            }),
    {
        VmNetworkSecurityPatch {
            firewall_enabled: None,
            ddos_enabled: None,
            default_ingress_action: None,
            default_egress_action: None,
            syn_rate_limit_pps: None,
            udp_rate_limit_pps: None,
            icmp_rate_limit_pps: None,
            new_connection_limit_pps: None,
            concurrent_connection_limit: None,
            port_scan_protection: None,
            drop_invalid_packets: None,
        }
    }
}

/// A firewall rule of a machine.
#[derive(Debug, PartialEq, Eq)]
pub struct VmFirewallRule {
    pub id: String,
    pub vm_id: String,
    pub priority: u16,
    pub direction: FirewallDirection,
    pub action: FirewallAction,
    pub protocol: FirewallProtocol,
    pub source_cidr: Option<String>,
    pub destination_cidr: Option<String>,
    pub source_ports: Vec<PortRange>,
    pub destination_ports: Vec<PortRange>,
    pub log: bool,
    pub enabled: bool,
    pub description: String,
    pub owner_type: String,
    pub owner_id: Option<String>,
    pub created_at: i64,
    pub updated_at: i64,
}

/// What a [`VmFirewallRule`] holds, with texts as character sequences.
#[verifier::ext_equal]
pub struct VmFirewallRuleView {
    pub id: Seq<char>,
    pub vm_id: Seq<char>,
    pub priority: u16,
    pub direction: FirewallDirection,
    pub action: FirewallAction,
    pub protocol: FirewallProtocol,
    pub source_cidr: Option<Seq<char>>,
    pub destination_cidr: Option<Seq<char>>,
    pub source_ports: Seq<PortRange>,
    pub destination_ports: Seq<PortRange>,
    pub log: bool,
    pub enabled: bool,
    pub description: Seq<char>,
    pub owner_type: Seq<char>,
    pub owner_id: Option<Seq<char>>,
    pub created_at: i64,
    pub updated_at: i64,
}

impl View for VmFirewallRule {
    type V = VmFirewallRuleView;

    open spec fn view(&self) -> VmFirewallRuleView {
        VmFirewallRuleView {
            id: self.id@,
            vm_id: self.vm_id@,
            priority: self.priority,
            direction: self.direction,
            action: self.action,
            protocol: self.protocol,
            source_cidr: view_option(self.source_cidr),
            destination_cidr: view_option(self.destination_cidr),
            source_ports: self.source_ports@,
            destination_ports: self.destination_ports@,
            log: self.log,
            enabled: self.enabled,
            description: self.description@,
            owner_type: self.owner_type@,
            owner_id: view_option(self.owner_id),
            created_at: self.created_at,
            updated_at: self.updated_at,
        }
    }
}

impl Clone for VmFirewallRule {
    fn clone(&self) -> (r: VmFirewallRule)
        ensures
            r@ == self@,
    {
        VmFirewallRule {
            id: self.id.clone(),
            vm_id: self.vm_id.clone(),
            priority: self.priority,
            direction: self.direction,
            action: self.action,
            protocol: self.protocol,
            source_cidr: copy_option(&self.source_cidr),
            destination_cidr: copy_option(&self.destination_cidr),
            source_ports: copy_ports(&self.source_ports),
            destination_ports: copy_ports(&self.destination_ports),
            log: self.log,
            enabled: self.enabled,
            description: self.description.clone(),
            owner_type: self.owner_type.clone(),
            owner_id: copy_option(&self.owner_id),
            created_at: self.created_at,
            updated_at: self.updated_at,
        }
    }
}

impl Row for VmFirewallRule {
    fn duplicate(&self) -> (r: VmFirewallRule) {
        self.clone()
    }
}

/// A firewall rule to be entered.
#[derive(Debug, PartialEq, Eq)]
pub struct NewVmFirewallRule {
    pub priority: u16,
    pub direction: FirewallDirection,
    pub action: FirewallAction,
    pub protocol: FirewallProtocol,
    pub source_cidr: Option<String>,
    pub destination_cidr: Option<String>,
    pub source_ports: Vec<PortRange>,
    pub destination_ports: Vec<PortRange>,
    pub log: bool,
    pub enabled: bool,
    pub description: String,
}

/// What a [`NewVmFirewallRule`] holds, with texts as character sequences.
#[verifier::ext_equal]
pub struct NewVmFirewallRuleView {
    pub priority: u16,
    pub direction: FirewallDirection,
    pub action: FirewallAction,
    pub protocol: FirewallProtocol,
    pub source_cidr: Option<Seq<char>>,
    pub destination_cidr: Option<Seq<char>>,
    pub source_ports: Seq<PortRange>,
    pub destination_ports: Seq<PortRange>,
    pub log: bool,
    pub enabled: bool,
    pub description: Seq<char>,
}

impl View for NewVmFirewallRule {
    type V = NewVmFirewallRuleView;

    open spec fn view(&self) -> NewVmFirewallRuleView {
        NewVmFirewallRuleView {
            priority: self.priority,
            direction: self.direction,
            action: self.action,
            protocol: self.protocol,
            source_cidr: view_option(self.source_cidr),
            destination_cidr: view_option(self.destination_cidr),
            source_ports: self.source_ports@,
            destination_ports: self.destination_ports@,
            log: self.log,
            enabled: self.enabled,
            description: self.description@,
        }
    }
}

impl Clone for NewVmFirewallRule {
    fn clone(&self) -> (r: NewVmFirewallRule)
        ensures
            r@ == self@,
    {
        NewVmFirewallRule {
            priority: self.priority,
            direction: self.direction,
            action: self.action,
            protocol: self.protocol,
            source_cidr: copy_option(&self.source_cidr),
            destination_cidr: copy_option(&self.destination_cidr),
            source_ports: copy_ports(&self.source_ports),
            destination_ports: copy_ports(&self.destination_ports),
            log: self.log,
            enabled: self.enabled,
            description: self.description.clone(),
        }
    }
}

/// A change of a firewall rule.
#[derive(Debug, PartialEq, Eq)]
pub struct VmFirewallRulePatch {
    pub priority: Option<u16>,
    pub direction: Option<FirewallDirection>,
    pub action: Option<FirewallAction>,
    pub protocol: Option<FirewallProtocol>,
    pub source_cidr: Option<Option<String>>,
    pub destination_cidr: Option<Option<String>>,
    pub source_ports: Option<Vec<PortRange>>,
    pub destination_ports: Option<Vec<PortRange>>,
    pub log: Option<bool>,
    pub enabled: Option<bool>,
    pub description: Option<String>,
}

/// What a [`VmFirewallRulePatch`] holds, with texts as character sequences.
#[verifier::ext_equal]
pub struct VmFirewallRulePatchView {
    pub priority: Option<u16>,
    pub direction: Option<FirewallDirection>,
    pub action: Option<FirewallAction>,
    pub protocol: Option<FirewallProtocol>,
    pub source_cidr: Option<Option<Seq<char>>>,
    pub destination_cidr: Option<Option<Seq<char>>>,
    pub source_ports: Option<Seq<PortRange>>,
    pub destination_ports: Option<Seq<PortRange>>,
    pub log: Option<bool>,
    pub enabled: Option<bool>,
    pub description: Option<Seq<char>>,
}

impl View for VmFirewallRulePatch {
    type V = VmFirewallRulePatchView;

    open spec fn view(&self) -> VmFirewallRulePatchView {
        VmFirewallRulePatchView {
            priority: self.priority,
            direction: self.direction,
            action: self.action,
            protocol: self.protocol,
            source_cidr: view_text_change(self.source_cidr),
            destination_cidr: view_text_change(self.destination_cidr),
            source_ports: view_ports_change(self.source_ports),
            destination_ports: view_ports_change(self.destination_ports),
            log: self.log,
            enabled: self.enabled,
            description: view_option(self.description),
        }
    }
}

impl Default for VmFirewallRulePatch {
    fn default() -> (r: VmFirewallRulePatch)
        ensures
            r@ == (VmFirewallRulePatchView {
                priority: None,
                direction: None,
                action: None,
                protocol: None,
                source_cidr: None,
                destination_cidr: None,
                source_ports: None,
                destination_ports: None,
                log: None,
                enabled: None,
                description: None,
            }),
    {
        VmFirewallRulePatch {
            priority: None,
            direction: None,
            action: None,
            protocol: None,
            source_cidr: None,
            destination_cidr: None,
            source_ports: None,
            destination_ports: None,
            log: None,
            enabled: None,
            description: None,
        }
    }
}

/// The network policy of the host.
#[derive(Debug, PartialEq, Eq)]
pub struct HypervisorNetworkSecurity {
    pub bcp38_enabled: bool,
    pub revision: u64,
    pub applied_revision: Option<u64>,
    pub last_applied_at: Option<i64>,
    pub last_error: Option<String>,
    pub updated_by: Option<String>,
    pub created_at: i64,
    pub updated_at: i64,
}

/// What a [`HypervisorNetworkSecurity`] holds, with texts as character sequences.
#[verifier::ext_equal]
pub struct HypervisorNetworkSecurityView {
    pub bcp38_enabled: bool,
    pub revision: u64,
    pub applied_revision: Option<u64>,
    pub last_applied_at: Option<i64>,
    pub last_error: Option<Seq<char>>,
    pub updated_by: Option<Seq<char>>,
    pub created_at: i64,
    pub updated_at: i64,
}

impl View for HypervisorNetworkSecurity {
    type V = HypervisorNetworkSecurityView;

    open spec fn view(&self) -> HypervisorNetworkSecurityView {
        HypervisorNetworkSecurityView {
            bcp38_enabled: self.bcp38_enabled,
            revision: self.revision,
            applied_revision: self.applied_revision,
            last_applied_at: self.last_applied_at,
            last_error: view_option(self.last_error),
            updated_by: view_option(self.updated_by),
            created_at: self.created_at,
            updated_at: self.updated_at,
        }
    }
}

impl Clone for HypervisorNetworkSecurity {
    fn clone(&self) -> (r: HypervisorNetworkSecurity)
        ensures
            r@ == self@,
    {
        HypervisorNetworkSecurity {
            bcp38_enabled: self.bcp38_enabled,
            revision: self.revision,
            applied_revision: self.applied_revision,
            last_applied_at: self.last_applied_at,
            last_error: copy_option(&self.last_error),
            updated_by: copy_option(&self.updated_by),
            created_at: self.created_at,
            updated_at: self.updated_at,
        }
    }
}

/// A change of the network policy of the host.
#[derive(Debug, PartialEq, Eq)]
pub struct HypervisorNetworkSecurityPatch {
    pub bcp38_enabled: Option<bool>,
}

/// What a [`HypervisorNetworkSecurityPatch`] holds, with texts as character sequences.
#[verifier::ext_equal]
pub struct HypervisorNetworkSecurityPatchView {
    pub bcp38_enabled: Option<bool>,
}

impl View for HypervisorNetworkSecurityPatch {
    type V = HypervisorNetworkSecurityPatchView;

    open spec fn view(&self) -> HypervisorNetworkSecurityPatchView {
        HypervisorNetworkSecurityPatchView {
            bcp38_enabled: self.bcp38_enabled,
        }
    }
}

impl Default for HypervisorNetworkSecurityPatch {
    fn default() -> (r: HypervisorNetworkSecurityPatch)
        ensures
            r@ == (HypervisorNetworkSecurityPatchView {
                bcp38_enabled: None,
            }),
    {
        HypervisorNetworkSecurityPatch {
            bcp38_enabled: None,
        }
    }
}

/// A customer's link to a machine.
#[derive(Debug, PartialEq, Eq)]
pub struct CustomerTokenRecord {
    pub id: String,
    pub vm_id: String,
    pub scopes: Vec<String>,
    pub bound_ip: Option<String>,
    pub created_at: i64,
    pub expires_at: i64,
    pub consumed_at: Option<i64>,
    pub session_expires_at: Option<i64>,
    pub last_used_at: Option<i64>,
    pub revoked_at: Option<i64>,
}

/// What a [`CustomerTokenRecord`] holds, with texts as character sequences.
#[verifier::ext_equal]
pub struct CustomerTokenRecordView {
    pub id: Seq<char>,
    pub vm_id: Seq<char>,
    pub scopes: Seq<Seq<char>>,
    pub bound_ip: Option<Seq<char>>,
    pub created_at: i64,
    pub expires_at: i64,
    pub consumed_at: Option<i64>,
    pub session_expires_at: Option<i64>,
    pub last_used_at: Option<i64>,
    pub revoked_at: Option<i64>,
}

impl View for CustomerTokenRecord {
    type V = CustomerTokenRecordView;

    open spec fn view(&self) -> CustomerTokenRecordView {
        CustomerTokenRecordView {
            id: self.id@,
            vm_id: self.vm_id@,
            scopes: views(self.scopes@),
            bound_ip: view_option(self.bound_ip),
            created_at: self.created_at,
            expires_at: self.expires_at,
            consumed_at: self.consumed_at,
            session_expires_at: self.session_expires_at,
            last_used_at: self.last_used_at,
            revoked_at: self.revoked_at,
        }
    }
}

impl Clone for CustomerTokenRecord {
    fn clone(&self) -> (r: CustomerTokenRecord)
        ensures
            r@ == self@,
    {
        CustomerTokenRecord {
            id: self.id.clone(),
            vm_id: self.vm_id.clone(),
            scopes: copy_list(&self.scopes),
            bound_ip: copy_option(&self.bound_ip),
            created_at: self.created_at,
            expires_at: self.expires_at,
            consumed_at: self.consumed_at,
            session_expires_at: self.session_expires_at,
            last_used_at: self.last_used_at,
            revoked_at: self.revoked_at,
        }
    }
}

impl Row for CustomerTokenRecord {
    fn duplicate(&self) -> (r: CustomerTokenRecord) {
        self.clone()
    }
}

/// A customer's link and the hashes of its token and of its session.
#[derive(Debug, PartialEq, Eq)]
pub struct CustomerTokenRow {
    pub token: CustomerTokenRecord,
    pub token_hash: [u8; 32],
    pub session_hash: Option<[u8; 32]>,
}

/// What a [`CustomerTokenRow`] holds, with texts as character sequences.
#[verifier::ext_equal]
pub struct CustomerTokenRowView {
    pub token: CustomerTokenRecordView,
    pub token_hash: Seq<u8>,
    pub session_hash: Option<Seq<u8>>,
}

impl View for CustomerTokenRow {
    type V = CustomerTokenRowView;

    open spec fn view(&self) -> CustomerTokenRowView {
        CustomerTokenRowView {
            token: self.token@,
            token_hash: self.token_hash@,
            session_hash: view_hash(self.session_hash),
        }
    }
}

impl Clone for CustomerTokenRow {
    fn clone(&self) -> (r: CustomerTokenRow)
        ensures
            r@ == self@,
    {
        CustomerTokenRow {
            token: self.token.clone(),
            token_hash: self.token_hash,
            session_hash: self.session_hash,
        }
    }
}

impl Row for CustomerTokenRow {
    fn duplicate(&self) -> (r: CustomerTokenRow) {
        self.clone()
    }
}

/// A link to the console of a machine.
#[derive(Debug, PartialEq, Eq)]
pub struct VncTokenRecord {
    pub id: String,
    pub vm_id: String,
    pub created_at: i64,
    pub expires_at: i64,
    pub consumed_at: Option<i64>,
    pub session_expires_at: Option<i64>,
    pub bound_ip: Option<String>,
    pub revoked_at: Option<i64>,
}

/// What a [`VncTokenRecord`] holds, with texts as character sequences.
#[verifier::ext_equal]
pub struct VncTokenRecordView {
    pub id: Seq<char>,
    pub vm_id: Seq<char>,
    pub created_at: i64,
    pub expires_at: i64,
    pub consumed_at: Option<i64>,
    pub session_expires_at: Option<i64>,
    pub bound_ip: Option<Seq<char>>,
    pub revoked_at: Option<i64>,
}

impl View for VncTokenRecord {
    type V = VncTokenRecordView;

    open spec fn view(&self) -> VncTokenRecordView {
        VncTokenRecordView {
            id: self.id@,
            vm_id: self.vm_id@,
            created_at: self.created_at,
            expires_at: self.expires_at,
            consumed_at: self.consumed_at,
            session_expires_at: self.session_expires_at,
            bound_ip: view_option(self.bound_ip),
            revoked_at: self.revoked_at,
        }
    }
}

impl Clone for VncTokenRecord {
    fn clone(&self) -> (r: VncTokenRecord)
        ensures
            r@ == self@,
    {
        VncTokenRecord {
            id: self.id.clone(),
            vm_id: self.vm_id.clone(),
            created_at: self.created_at,
            expires_at: self.expires_at,
            consumed_at: self.consumed_at,
            session_expires_at: self.session_expires_at,
            bound_ip: copy_option(&self.bound_ip),
            revoked_at: self.revoked_at,
        }
    }
}

/// A console link and the hashes of its token and of its session.
#[derive(Debug, PartialEq, Eq)]
pub struct VncTokenRow {
    pub token: VncTokenRecord,
    pub token_hash: [u8; 32],
    pub session_hash: Option<[u8; 32]>,
}

/// What a [`VncTokenRow`] holds, with texts as character sequences.
#[verifier::ext_equal]
pub struct VncTokenRowView {
    pub token: VncTokenRecordView,
    pub token_hash: Seq<u8>,
    pub session_hash: Option<Seq<u8>>,
}

impl View for VncTokenRow {
    type V = VncTokenRowView;

    open spec fn view(&self) -> VncTokenRowView {
        VncTokenRowView {
            token: self.token@,
            token_hash: self.token_hash@,
            session_hash: view_hash(self.session_hash),
        }
    }
}

impl Clone for VncTokenRow {
    fn clone(&self) -> (r: VncTokenRow)
        ensures
            r@ == self@,
    {
        VncTokenRow {
            token: self.token.clone(),
            token_hash: self.token_hash,
            session_hash: self.session_hash,
        }
    }
}

impl Row for VncTokenRow {
    fn duplicate(&self) -> (r: VncTokenRow) {
        self.clone()
    }
}

/// A durable job; its progress is the bits of a percentage.
#[derive(Debug, PartialEq, Eq)]
pub struct Job {
    pub id: String,
    pub kind: String,
    pub vm_id: Option<String>,
    pub status: JobStatus,
    pub payload: Document,
    pub result: Option<Document>,
    pub error: Option<String>,
    pub progress_percent: u64,
    pub idempotency_key: Option<String>,
    pub attempts: u32,
    pub max_attempts: u32,
    pub run_after: i64,
    pub locked_by: Option<String>,
    pub locked_at: Option<i64>,
    pub actor_type: Option<String>,
    pub actor_id: Option<String>,
    pub created_at: i64,
    pub updated_at: i64,
    pub finished_at: Option<i64>,
}

/// What a [`Job`] holds, with texts as character sequences.
#[verifier::ext_equal]
pub struct JobView {
    pub id: Seq<char>,
    pub kind: Seq<char>,
    pub vm_id: Option<Seq<char>>,
    pub status: JobStatus,
    pub payload: Json,
    pub result: Option<Json>,
    pub error: Option<Seq<char>>,
    pub progress_percent: u64,
    pub idempotency_key: Option<Seq<char>>,
    pub attempts: u32,
    pub max_attempts: u32,
    pub run_after: i64,
    pub locked_by: Option<Seq<char>>,
    pub locked_at: Option<i64>,
    pub actor_type: Option<Seq<char>>,
    pub actor_id: Option<Seq<char>>,
    pub created_at: i64,
    pub updated_at: i64,
    pub finished_at: Option<i64>,
}

impl View for Job {
    type V = JobView;

    open spec fn view(&self) -> JobView {
        JobView {
            id: self.id@,
            kind: self.kind@,
            vm_id: view_option(self.vm_id),
            status: self.status,
            payload: self.payload@,
            result: model(self.result),
            error: view_option(self.error),
            progress_percent: self.progress_percent,
            idempotency_key: view_option(self.idempotency_key),
            attempts: self.attempts,
            max_attempts: self.max_attempts,
            run_after: self.run_after,
            locked_by: view_option(self.locked_by),
            locked_at: self.locked_at,
            actor_type: view_option(self.actor_type),
            actor_id: view_option(self.actor_id),
            created_at: self.created_at,
            updated_at: self.updated_at,
            finished_at: self.finished_at,
        }
    }
}

impl Clone for Job {
    fn clone(&self) -> (r: Job)
        ensures
            r@ == self@,
    {
        Job {
            id: self.id.clone(),
            kind: self.kind.clone(),
            vm_id: copy_option(&self.vm_id),
            status: self.status,
            payload: self.payload.clone(),
            result: copy_document(&self.result),
            error: copy_option(&self.error),
            progress_percent: self.progress_percent,
            idempotency_key: copy_option(&self.idempotency_key),
            attempts: self.attempts,
            max_attempts: self.max_attempts,
            run_after: self.run_after,
            locked_by: copy_option(&self.locked_by),
            locked_at: self.locked_at,
            actor_type: copy_option(&self.actor_type),
            actor_id: copy_option(&self.actor_id),
            created_at: self.created_at,
            updated_at: self.updated_at,
            finished_at: self.finished_at,
        }
    }
}

impl Row for Job {
    fn duplicate(&self) -> (r: Job) {
        self.clone()
    }
}

/// A job to be queued.
#[derive(Debug, PartialEq, Eq)]
pub struct NewJob {
    pub kind: String,
    pub vm_id: Option<String>,
    pub payload: Document,
    pub idempotency_key: Option<String>,
    pub run_after: Option<i64>,
    pub max_attempts: u32,
    pub actor_type: Option<String>,
    pub actor_id: Option<String>,
}

/// What a [`NewJob`] holds, with texts as character sequences.
#[verifier::ext_equal]
pub struct NewJobView {
    pub kind: Seq<char>,
    pub vm_id: Option<Seq<char>>,
    pub payload: Json,
    pub idempotency_key: Option<Seq<char>>,
    pub run_after: Option<i64>,
    pub max_attempts: u32,
    pub actor_type: Option<Seq<char>>,
    pub actor_id: Option<Seq<char>>,
}

impl View for NewJob {
    type V = NewJobView;

    open spec fn view(&self) -> NewJobView {
        NewJobView {
            kind: self.kind@,
            vm_id: view_option(self.vm_id),
            payload: self.payload@,
            idempotency_key: view_option(self.idempotency_key),
            run_after: self.run_after,
            max_attempts: self.max_attempts,
            actor_type: view_option(self.actor_type),
            actor_id: view_option(self.actor_id),
        }
    }
}

impl Clone for NewJob {
    fn clone(&self) -> (r: NewJob)
        ensures
            r@ == self@,
    {
        NewJob {
            kind: self.kind.clone(),
            vm_id: copy_option(&self.vm_id),
            payload: self.payload.clone(),
            idempotency_key: copy_option(&self.idempotency_key),
            run_after: self.run_after,
            max_attempts: self.max_attempts,
            actor_type: copy_option(&self.actor_type),
            actor_id: copy_option(&self.actor_id),
        }
    }
}

/// A snapshot of a machine.
#[derive(Debug, PartialEq, Eq)]
pub struct Snapshot {
    pub id: String,
    pub vm_id: String,
    pub name: String,
    pub description: String,
    pub state: SnapshotState,
    pub disk_path: Option<String>,
    pub size_bytes: Option<u64>,
    pub memory_included: bool,
    pub metadata: Document,
    pub created_at: i64,
    pub updated_at: i64,
    pub completed_at: Option<i64>,
}

/// What a [`Snapshot`] holds, with texts as character sequences.
#[verifier::ext_equal]
pub struct SnapshotView {
    pub id: Seq<char>,
    pub vm_id: Seq<char>,
    pub name: Seq<char>,
    pub description: Seq<char>,
    pub state: SnapshotState,
    pub disk_path: Option<Seq<char>>,
    pub size_bytes: Option<u64>,
    pub memory_included: bool,
    pub metadata: Json,
    pub created_at: i64,
    pub updated_at: i64,
    pub completed_at: Option<i64>,
}

impl View for Snapshot {
    type V = SnapshotView;

    open spec fn view(&self) -> SnapshotView {
        SnapshotView {
            id: self.id@,
            vm_id: self.vm_id@,
            name: self.name@,
            description: self.description@,
            state: self.state,
            disk_path: view_option(self.disk_path),
            size_bytes: self.size_bytes,
            memory_included: self.memory_included,
            metadata: self.metadata@,
            created_at: self.created_at,
            updated_at: self.updated_at,
            completed_at: self.completed_at,
        }
    }
}

impl Clone for Snapshot {
    fn clone(&self) -> (r: Snapshot)
        ensures
            r@ == self@,
    {
        Snapshot {
            id: self.id.clone(),
            vm_id: self.vm_id.clone(),
            name: self.name.clone(),
            description: self.description.clone(),
            state: self.state,
            disk_path: copy_option(&self.disk_path),
            size_bytes: self.size_bytes,
            memory_included: self.memory_included,
            metadata: self.metadata.clone(),
            created_at: self.created_at,
            updated_at: self.updated_at,
            completed_at: self.completed_at,
        }
    }
}

impl Row for Snapshot {
    fn duplicate(&self) -> (r: Snapshot) {
        self.clone()
    }
}

/// An entry of the audit trail.
#[derive(Debug, PartialEq, Eq)]
pub struct AuditEvent {
    pub id: i64,
    pub occurred_at: i64,
    pub actor_type: String,
    pub actor_id: Option<String>,
    pub action: String,
    pub resource_type: String,
    pub resource_id: Option<String>,
    pub request_id: Option<String>,
    pub source_ip: Option<String>,
    pub user_agent: Option<String>,
    pub success: bool,
    pub details: Document,
}

/// What a [`AuditEvent`] holds, with texts as character sequences.
#[verifier::ext_equal]
pub struct AuditEventView {
    pub id: i64,
    pub occurred_at: i64,
    pub actor_type: Seq<char>,
    pub actor_id: Option<Seq<char>>,
    pub action: Seq<char>,
    pub resource_type: Seq<char>,
    pub resource_id: Option<Seq<char>>,
    pub request_id: Option<Seq<char>>,
    pub source_ip: Option<Seq<char>>,
    pub user_agent: Option<Seq<char>>,
    pub success: bool,
    pub details: Json,
}

impl View for AuditEvent {
    type V = AuditEventView;

    open spec fn view(&self) -> AuditEventView {
        AuditEventView {
            id: self.id,
            occurred_at: self.occurred_at,
            actor_type: self.actor_type@,
            actor_id: view_option(self.actor_id),
            action: self.action@,
            resource_type: self.resource_type@,
            resource_id: view_option(self.resource_id),
            request_id: view_option(self.request_id),
            source_ip: view_option(self.source_ip),
            user_agent: view_option(self.user_agent),
            success: self.success,
            details: self.details@,
        }
    }
}

impl Clone for AuditEvent {
    fn clone(&self) -> (r: AuditEvent)
        ensures
            r@ == self@,
    {
        AuditEvent {
            id: self.id,
            occurred_at: self.occurred_at,
            actor_type: self.actor_type.clone(),
            actor_id: copy_option(&self.actor_id),
            action: self.action.clone(),
            resource_type: self.resource_type.clone(),
            resource_id: copy_option(&self.resource_id),
            request_id: copy_option(&self.request_id),
            source_ip: copy_option(&self.source_ip),
            user_agent: copy_option(&self.user_agent),
            success: self.success,
            details: self.details.clone(),
        }
    }
}

impl Row for AuditEvent {
    fn duplicate(&self) -> (r: AuditEvent) {
        self.clone()
    }
}

/// An entry to be appended to the audit trail.
#[derive(Debug, PartialEq, Eq)]
pub struct NewAuditEvent {
    pub actor_type: String,
    pub actor_id: Option<String>,
    pub action: String,
    pub resource_type: String,
    pub resource_id: Option<String>,
    pub request_id: Option<String>,
    pub source_ip: Option<String>,
    pub user_agent: Option<String>,
    pub success: bool,
    pub details: Document,
}

/// What a [`NewAuditEvent`] holds, with texts as character sequences.
#[verifier::ext_equal]
pub struct NewAuditEventView {
    pub actor_type: Seq<char>,
    pub actor_id: Option<Seq<char>>,
    pub action: Seq<char>,
    pub resource_type: Seq<char>,
    pub resource_id: Option<Seq<char>>,
    pub request_id: Option<Seq<char>>,
    pub source_ip: Option<Seq<char>>,
    pub user_agent: Option<Seq<char>>,
    pub success: bool,
    pub details: Json,
}

impl View for NewAuditEvent {
    type V = NewAuditEventView;

    open spec fn view(&self) -> NewAuditEventView {
        NewAuditEventView {
            actor_type: self.actor_type@,
            actor_id: view_option(self.actor_id),
            action: self.action@,
            resource_type: self.resource_type@,
            resource_id: view_option(self.resource_id),
            request_id: view_option(self.request_id),
            source_ip: view_option(self.source_ip),
            user_agent: view_option(self.user_agent),
            success: self.success,
            details: self.details@,
        }
    }
}

impl Clone for NewAuditEvent {
    fn clone(&self) -> (r: NewAuditEvent)
        ensures
            r@ == self@,
    {
        NewAuditEvent {
            actor_type: self.actor_type.clone(),
            actor_id: copy_option(&self.actor_id),
            action: self.action.clone(),
            resource_type: self.resource_type.clone(),
            resource_id: copy_option(&self.resource_id),
            request_id: copy_option(&self.request_id),
            source_ip: copy_option(&self.source_ip),
            user_agent: copy_option(&self.user_agent),
            success: self.success,
            details: self.details.clone(),
        }
    }
}

/// An update request whose end is in the audit trail.
#[derive(Debug, PartialEq, Eq)]
pub struct ImportRow {
    pub request_id: String,
    pub outcome: String,
    pub imported_at: i64,
}

/// What a [`ImportRow`] holds, with texts as character sequences.
#[verifier::ext_equal]
pub struct ImportRowView {
    pub request_id: Seq<char>,
    pub outcome: Seq<char>,
    pub imported_at: i64,
}

impl View for ImportRow {
    type V = ImportRowView;

    open spec fn view(&self) -> ImportRowView {
        ImportRowView {
            request_id: self.request_id@,
            outcome: self.outcome@,
            imported_at: self.imported_at,
        }
    }
}

impl Clone for ImportRow {
    fn clone(&self) -> (r: ImportRow)
        ensures
            r@ == self@,
    {
        ImportRow {
            request_id: self.request_id.clone(),
            outcome: self.outcome.clone(),
            imported_at: self.imported_at,
        }
    }
}

impl Row for ImportRow {
    fn duplicate(&self) -> (r: ImportRow) {
        self.clone()
    }
}

} // verus!
