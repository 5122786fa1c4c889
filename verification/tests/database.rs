//! The controller's tables, as the rest of the program sees them.

use std::cell::RefCell;

use base64::Engine;
use serde_json::Value;
use uuid::Uuid;
use vexa_vm::db::guest_tools::VmGuestToolsClientSecret;
use vexa_vm::db::jobs::payload_without_staged_password;
use vexa_vm::db::rows::{
    Admin, AuditEvent, CustomerTokenRecord, DnsServer, FirewallAction, FirewallDirection,
    FirewallProtocol, GuestToolsPlatform, GuestToolsProvisioner, GuestToolsRow,
    GuestToolsStatus, HostMetric, HypervisorNetworkSecurity, HypervisorNetworkSecurityPatch,
    IpAbuseRecord, IpAddressRecord, IpBlacklistEntry, IpBlacklistPatch, IpPool, IpPoolPatch,
    IpScope, IpStatus, Job, JobStatus, NewAuditEvent, NewIpAbuseRecord, NewIpAddress,
    NewIpBlacklistEntry, NewIpPool, NewJob, NewVm, NewVmFirewallRule, PendingRotation,
    PortRange, ReusableVmGuestToolsRotation, SettingRecord, Snapshot, SnapshotState, Timestamp,
    Vm, VmFirewallRule, VmFirewallRulePatch, VmGuestTools, VmMetric, VmNetworkSecurity,
    VmNetworkSecurityPatch, VmPatch, VmState,
};
use vexa_vm::db::store::{pending_migrations, Database};
use vexa_vm::error::{AppError, AppResult};
use vexa_vm::ids::{new_id, unix_timestamp};
use vexa_vm::json::Document;
use vexa_vm::net::AddressFamily;

const STAGED_PASSWORD_ENVELOPE_FIELD: &str = "_staged_password_envelope";

const MAX_RULES: u64 = 128;

fn object(members: Vec<(&str, Value)>) -> Value {
    let mut map = serde_json::Map::new();
    for (key, value) in members {
        map.insert(key.to_owned(), value);
    }
    Value::Object(map)
}

/// Seals texts for a context; enough to tell envelopes from what they hold.
struct Security {
    key: [u8; 32],
}

impl Security {
    fn new(key: [u8; 32]) -> Security {
        Security { key }
    }

    fn mask(&self, context: &str) -> u8 {
        context.bytes().fold(self.key[0] | 0x80, |a, b| a.rotate_left(1) ^ b) | 0x80
    }

    fn encrypt_secret(&self, secret: &str, context: &str) -> AppResult<String> {
        let mask = self.mask(context);
        let bytes: Vec<u8> = secret.bytes().map(|b| b ^ mask).collect();
        let body = base64::engine::general_purpose::STANDARD_NO_PAD.encode(bytes);
        let seal = base64::engine::general_purpose::STANDARD_NO_PAD.encode(context);
        Ok(format!("v1.{seal}.{body}"))
    }

    fn decrypt_secret(&self, envelope: &str, context: &str) -> AppResult<String> {
        let engine = base64::engine::general_purpose::STANDARD_NO_PAD;
        let parts: Vec<&str> = envelope.split('.').collect();
        if parts.len() != 3 || parts[1] != engine.encode(context) {
            return Err(AppError::Internal("envelope belongs to another context".into()));
        }
        let mask = self.mask(context);
        let bytes = engine.decode(parts[2]).unwrap();
        Ok(String::from_utf8(bytes.into_iter().map(|b| b ^ mask).collect()).unwrap())
    }
}

fn vm_guest_tools_secret_context(vm_id: &str) -> String {
    format!("guest-tools/{vm_id}")
}

fn vm_guest_tools_pending_secret_context(vm_id: &str, generation: &str) -> String {
    format!("guest-tools/{vm_id}/{generation}")
}

/// A staged key and what it seals.
struct Seed {
    row: PendingRotation,
    generation: String,
    platform: GuestToolsPlatform,
    provisioner: GuestToolsProvisioner,
    desired_version: String,
    secret: String,
    installed: bool,
}

impl std::fmt::Debug for Seed {
    fn fmt(&self, f: &mut std::fmt::Formatter<'_>) -> std::fmt::Result {
        self.row.fmt(f)
    }
}

/// The key of a client and what it seals.
struct ClientSecret {
    row: VmGuestToolsClientSecret,
    secret: String,
    desired_version: String,
    pending_generation: Option<String>,
}

impl std::fmt::Debug for ClientSecret {
    fn fmt(&self, f: &mut std::fmt::Formatter<'_>) -> std::fmt::Result {
        self.row.fmt(f)
    }
}

/// The tables, with fresh identifiers, the clock and the seal filled in.
struct Db(RefCell<Database>);

impl Db {
    fn open() -> Db {
        Db(RefCell::new(Database::open_in_memory(unix_timestamp())))
    }

    fn schema_version(&self) -> AppResult<i64> {
        Ok(self.0.borrow().schema_version())
    }

    fn create_vm(&self, spec: &NewVm) -> AppResult<Vm> {
        self.0.borrow_mut().create_vm(spec, &new_id(), unix_timestamp())
    }

    fn get_vm(&self, id: &str) -> AppResult<Option<Vm>> {
        self.0.borrow().get_vm(id)
    }

    fn patch_vm(&self, id: &str, patch: &VmPatch) -> AppResult<Vm> {
        self.0.borrow_mut().patch_vm(id, patch, unix_timestamp())
    }

    fn delete_vm(&self, id: &str) -> AppResult<()> {
        self.0.borrow_mut().delete_vm(id, unix_timestamp())
    }

    fn set_vm_password_envelope(&self, id: &str, envelope: &str) -> AppResult<()> {
        self.0.borrow_mut().set_vm_password_envelope(id, envelope, unix_timestamp())
    }

    fn clear_vm_password(&self, id: &str) -> AppResult<()> {
        self.0.borrow_mut().clear_vm_password(id, unix_timestamp())
    }

    fn vm_password_envelope(&self, id: &str) -> AppResult<Option<String>> {
        self.0.borrow().vm_password_envelope(id)
    }

    fn tools_row(&self, vm_id: &str) -> GuestToolsRow {
        self.0.borrow().guest_tools.iter().find(|row| row.vm_id == vm_id).unwrap().clone()
    }

    fn configure_vm_guest_tools(
        &self,
        vm_id: &str,
        platform: GuestToolsPlatform,
        provisioner: GuestToolsProvisioner,
        secret: &str,
        version: &str,
        security: &Security,
    ) -> AppResult<VmGuestTools> {
        let sealed = security.encrypt_secret(secret, &vm_guest_tools_secret_context(vm_id));
        self.0.borrow_mut().configure_vm_guest_tools(
            vm_id,
            platform,
            provisioner,
            secret,
            version,
            sealed,
            unix_timestamp(),
        )
    }

    fn vm_guest_tools(&self, vm_id: &str) -> AppResult<Option<VmGuestTools>> {
        self.0.borrow().vm_guest_tools(vm_id)
    }

    fn delete_vm_guest_tools_configuration(&self, vm_id: &str) -> AppResult<()> {
        self.0.borrow_mut().delete_vm_guest_tools_configuration(vm_id)
    }

    fn decrypt_vm_guest_tools_secret(
        &self,
        vm_id: &str,
        security: &Security,
    ) -> AppResult<Option<String>> {
        match self.0.borrow().vm_guest_tools_secret_envelope(vm_id)? {
            None => Ok(None),
            Some(envelope) => security
                .decrypt_secret(&envelope, &vm_guest_tools_secret_context(vm_id))
                .map(Some),
        }
    }

    fn stage_vm_guest_tools_rotation(
        &self,
        vm_id: &str,
        platform: GuestToolsPlatform,
        provisioner: GuestToolsProvisioner,
        secret: &str,
        version: &str,
        security: &Security,
    ) -> AppResult<String> {
        let generation = new_id();
        let sealed = security
            .encrypt_secret(secret, &vm_guest_tools_pending_secret_context(vm_id, &generation));
        self.0.borrow_mut().stage_vm_guest_tools_rotation(
            vm_id,
            platform,
            provisioner,
            secret,
            version,
            &generation,
            sealed,
            unix_timestamp(),
        )
    }

    fn pending_vm_guest_tools_seed(
        &self,
        vm_id: &str,
        security: &Security,
    ) -> AppResult<Option<Seed>> {
        match self.0.borrow().pending_vm_guest_tools_seed(vm_id)? {
            None => Ok(None),
            Some(row) => {
                let context = vm_guest_tools_pending_secret_context(vm_id, &row.generation);
                let secret = security.decrypt_secret(&row.secret_envelope, &context)?;
                Ok(Some(Seed {
                    generation: row.generation.clone(),
                    platform: row.platform,
                    provisioner: row.provisioner,
                    desired_version: row.desired_version.clone(),
                    installed: row.installed,
                    secret,
                    row,
                }))
            }
        }
    }

    fn vm_guest_tools_client_secret(
        &self,
        vm_id: &str,
        security: &Security,
    ) -> AppResult<Option<ClientSecret>> {
        match self.0.borrow().vm_guest_tools_client_secret(vm_id)? {
            None => Ok(None),
            Some(row) => {
                let context = match &row.pending_generation {
                    Some(g) => vm_guest_tools_pending_secret_context(vm_id, g),
                    None => vm_guest_tools_secret_context(vm_id),
                };
                let secret = security.decrypt_secret(&row.envelope, &context)?;
                Ok(Some(ClientSecret {
                    secret,
                    desired_version: row.desired_version.clone(),
                    pending_generation: row.pending_generation.clone(),
                    row,
                }))
            }
        }
    }

    fn installed_vm_guest_tools_rotation_generation(
        &self,
        vm_id: &str,
    ) -> AppResult<Option<String>> {
        self.0.borrow().installed_vm_guest_tools_rotation_generation(vm_id)
    }

    fn reusable_vm_guest_tools_rotation(
        &self,
        vm_id: &str,
        fingerprint: &str,
    ) -> AppResult<Option<ReusableVmGuestToolsRotation>> {
        self.0.borrow().reusable_vm_guest_tools_rotation(vm_id, fingerprint)
    }

    fn mark_vm_guest_tools_rotation_installed(
        &self,
        vm_id: &str,
        generation: &str,
    ) -> AppResult<VmGuestTools> {
        let now = unix_timestamp();
        self.0.borrow_mut().mark_vm_guest_tools_rotation_installed(vm_id, generation, now)
    }

    fn promote_vm_guest_tools_rotation(
        &self,
        vm_id: &str,
        generation: &str,
        version: &str,
        security: &Security,
    ) -> AppResult<VmGuestTools> {
        let resealed = match self.pending_vm_guest_tools_seed(vm_id, security)? {
            Some(seed) => {
                security.encrypt_secret(&seed.secret, &vm_guest_tools_secret_context(vm_id))
            }
            None => Err(AppError::Internal("nothing is staged".into())),
        };
        self.0.borrow_mut().promote_vm_guest_tools_rotation(
            vm_id,
            generation,
            version,
            resealed,
            unix_timestamp(),
        )
    }

    fn discard_vm_guest_tools_rotation(
        &self,
        vm_id: &str,
        generation: &str,
    ) -> AppResult<VmGuestTools> {
        let now = unix_timestamp();
        self.0.borrow_mut().discard_vm_guest_tools_rotation(vm_id, generation, now)
    }

    fn update_vm_guest_tools_status(
        &self,
        vm_id: &str,
        status: GuestToolsStatus,
        version: Option<&str>,
        error: Option<&str>,
        contacted: bool,
    ) -> AppResult<VmGuestTools> {
        let now = unix_timestamp();
        self.0
            .borrow_mut()
            .update_vm_guest_tools_status(vm_id, status, version, error, contacted, now)
    }

    fn enqueue_job(&self, request: &NewJob) -> AppResult<Job> {
        self.0.borrow_mut().enqueue_job(request, &new_id(), unix_timestamp())
    }

    fn enqueue_guest_tools_bootstrap_job(&self, request: &NewJob) -> AppResult<Job> {
        let now = unix_timestamp();
        self.0.borrow_mut().enqueue_guest_tools_bootstrap_job(request, &new_id(), now)
    }

    fn enqueue_delete_job(&self, request: &NewJob) -> AppResult<Job> {
        self.0.borrow_mut().enqueue_delete_job(request, &new_id(), unix_timestamp())
    }

    fn enqueue_reinstall_job(
        &self,
        request: &NewJob,
        envelope: Option<&str>,
        desired_state: VmState,
    ) -> AppResult<Job> {
        let now = unix_timestamp();
        self.0
            .borrow_mut()
            .enqueue_reinstall_job(request, envelope, desired_state, &new_id(), now)
    }

    fn get_job(&self, id: &str) -> AppResult<Option<Job>> {
        self.0.borrow().get_job(id)
    }

    fn claim_next_job(&self, worker: &str, now: Timestamp) -> AppResult<Option<Job>> {
        self.0.borrow_mut().claim_next_job(worker, now)
    }

    fn fail_job(
        &self,
        id: &str,
        error: &str,
        retry_at: Option<Timestamp>,
        now: Timestamp,
    ) -> AppResult<Job> {
        self.0.borrow_mut().fail_job(id, error, retry_at, now)
    }

    fn cancel_job(&self, id: &str, now: Timestamp) -> AppResult<()> {
        self.0.borrow_mut().cancel_job(id, now)
    }

    fn recover_interrupted_jobs(&self, now: Timestamp) -> AppResult<(usize, usize)> {
        self.0.borrow_mut().recover_interrupted_jobs(now)
    }

    fn commit_reinstall_password_after_hypervisor(&self, id: &str) -> AppResult<()> {
        let now = unix_timestamp();
        self.0.borrow_mut().commit_reinstall_password_after_hypervisor(id, now)
    }

    fn create_snapshot(
        &self,
        vm_id: &str,
        name: &str,
        description: &str,
        memory: bool,
        metadata: &Document,
    ) -> AppResult<Snapshot> {
        let now = unix_timestamp();
        self.0
            .borrow_mut()
            .create_snapshot(vm_id, name, description, memory, metadata, &new_id(), now)
    }

    fn list_snapshots(&self, vm_id: &str) -> AppResult<Vec<Snapshot>> {
        self.0.borrow().list_snapshots(vm_id)
    }

    fn append_audit(&self, event: &NewAuditEvent) -> AppResult<AuditEvent> {
        self.0.borrow_mut().append_audit(event, unix_timestamp())
    }

    fn import_update_status_audit(
        &self,
        request_id: &str,
        outcome: &str,
        event: &NewAuditEvent,
    ) -> AppResult<bool> {
        let now = unix_timestamp();
        self.0.borrow_mut().import_update_status_audit(request_id, outcome, event, now)
    }

    fn list_audit(
        &self,
        before_id: Option<i64>,
        resource_type: Option<&str>,
        resource_id: Option<&str>,
        limit: usize,
    ) -> AppResult<Vec<AuditEvent>> {
        self.0.borrow().list_audit(before_id, resource_type, resource_id, limit)
    }

    fn insert_host_metric(&self, metric: &HostMetric) -> AppResult<()> {
        self.0.borrow_mut().insert_host_metric(metric)
    }

    fn host_metrics(&self, since: Timestamp, limit: usize) -> AppResult<Vec<HostMetric>> {
        self.0.borrow().host_metrics(since, limit)
    }

    fn insert_vm_metric(&self, metric: &VmMetric) -> AppResult<()> {
        self.0.borrow_mut().insert_vm_metric(metric)
    }

    fn vm_metrics(&self, vm_id: &str, since: Timestamp, limit: usize) -> AppResult<Vec<VmMetric>> {
        self.0.borrow().vm_metrics(vm_id, since, limit)
    }

    fn bootstrap_admin(&self, username: &str, hash: &str) -> AppResult<Admin> {
        self.0.borrow_mut().bootstrap_admin(username, hash, &new_id(), unix_timestamp())
    }

    fn create_admin_session(
        &self,
        admin_id: &str,
        token: &[u8; 32],
        csrf: &[u8; 32],
        expires_at: Timestamp,
        source_ip: Option<&str>,
        user_agent: Option<&str>,
    ) -> AppResult<()> {
        let now = unix_timestamp();
        self.0
            .borrow_mut()
            .create_admin_session(admin_id, token, csrf, expires_at, source_ip, user_agent, now)
    }

    fn verify_admin_session_csrf(
        &self,
        token: &[u8; 32],
        csrf: &[u8; 32],
        now: Timestamp,
    ) -> AppResult<bool> {
        self.0.borrow().verify_admin_session_csrf(token, csrf, now)
    }

    fn create_customer_token(
        &self,
        vm_id: &str,
        hash: &[u8; 32],
        scopes: &[String],
        expires_at: Timestamp,
    ) -> AppResult<CustomerTokenRecord> {
        let now = unix_timestamp();
        let scopes = scopes.to_vec();
        self.0
            .borrow_mut()
            .create_customer_token(vm_id, hash, &scopes, expires_at, &new_id(), now)
    }

    fn create_customer_link(
        &self,
        vm_id: &str,
        hash: &[u8; 32],
        scopes: &[String],
        bound_ip: Option<&str>,
        expires_at: Timestamp,
    ) -> AppResult<CustomerTokenRecord> {
        let now = unix_timestamp();
        let scopes = scopes.to_vec();
        self.0
            .borrow_mut()
            .create_customer_link(vm_id, hash, &scopes, bound_ip, expires_at, &new_id(), now)
    }

    fn exchange_customer_link(
        &self,
        link: &[u8; 32],
        session: &[u8; 32],
        source_ip: Option<&str>,
        now: Timestamp,
        ttl: u64,
    ) -> AppResult<Option<CustomerTokenRecord>> {
        self.0.borrow_mut().exchange_customer_link(link, session, source_ip, now, ttl)
    }

    fn authenticate_customer_session(
        &self,
        session: &[u8; 32],
        source_ip: Option<&str>,
        now: Timestamp,
    ) -> AppResult<Option<CustomerTokenRecord>> {
        self.0.borrow_mut().authenticate_customer_session(session, source_ip, now)
    }

    fn list_customer_tokens(&self, vm_id: &str) -> AppResult<Vec<CustomerTokenRecord>> {
        self.0.borrow().list_customer_tokens(vm_id, unix_timestamp())
    }

    fn revoke_customer_token_for_vm(
        &self,
        vm_id: &str,
        id: &str,
        now: Timestamp,
    ) -> AppResult<()> {
        self.0.borrow_mut().revoke_customer_token_for_vm(vm_id, id, now)
    }

    fn set_network_setting_and_default_dns(
        &self,
        network: &Document,
        addresses: &[String],
        updated_by: Option<&str>,
    ) -> AppResult<(SettingRecord, Vec<DnsServer>)> {
        let now = unix_timestamp();
        let addresses = addresses.to_vec();
        self.0
            .borrow_mut()
            .set_network_setting_and_default_dns(network, &addresses, updated_by, now)
    }

    fn get_setting(&self, key: &str) -> AppResult<Option<SettingRecord>> {
        self.0.borrow().get_setting(key)
    }

    fn dns_servers(&self, pool: Option<&str>, vm: Option<&str>) -> AppResult<Vec<DnsServer>> {
        self.0.borrow().dns_servers(pool, vm)
    }

    fn upsert_ip_address(&self, spec: &NewIpAddress) -> AppResult<IpAddressRecord> {
        self.0.borrow_mut().upsert_ip_address(spec, &new_id(), unix_timestamp())
    }

    fn upsert_detected_host_address(&self, spec: &NewIpAddress) -> AppResult<IpAddressRecord> {
        self.0.borrow_mut().upsert_detected_host_address(spec, &new_id(), unix_timestamp())
    }

    fn list_ip_addresses(
        &self,
        family: Option<AddressFamily>,
        scope: Option<IpScope>,
        status: Option<IpStatus>,
    ) -> AppResult<Vec<IpAddressRecord>> {
        self.0.borrow().list_ip_addresses(family, scope, status)
    }

    fn get_ip_address(&self, address: &str) -> AppResult<Option<IpAddressRecord>> {
        self.0.borrow().get_ip_address(address)
    }

    fn assign_ip(&self, address: &str, vm_id: &str, primary: bool) -> AppResult<IpAddressRecord> {
        self.0.borrow_mut().assign_ip(address, vm_id, primary, unix_timestamp())
    }

    fn create_ip_pool(&self, spec: &NewIpPool) -> AppResult<IpPool> {
        self.0.borrow_mut().create_ip_pool(spec, &new_id(), unix_timestamp())
    }

    fn get_ip_pool(&self, id: &str) -> AppResult<Option<IpPool>> {
        self.0.borrow().get_ip_pool(id)
    }

    fn patch_ip_pool(&self, id: &str, patch: &IpPoolPatch) -> AppResult<IpPool> {
        self.0.borrow_mut().patch_ip_pool(id, patch, unix_timestamp())
    }

    fn create_ip_blacklist_entry(&self, spec: &NewIpBlacklistEntry) -> AppResult<IpBlacklistEntry> {
        self.0.borrow_mut().create_ip_blacklist_entry(spec, &new_id(), unix_timestamp())
    }

    fn patch_ip_blacklist_entry(
        &self,
        id: &str,
        patch: &IpBlacklistPatch,
    ) -> AppResult<IpBlacklistEntry> {
        self.0.borrow_mut().patch_ip_blacklist_entry(id, patch, unix_timestamp())
    }

    fn ip_is_blacklisted(&self, address: &str, at: Timestamp) -> AppResult<bool> {
        self.0.borrow().ip_is_blacklisted(address, at)
    }

    fn record_ip_abuse(&self, spec: &NewIpAbuseRecord) -> AppResult<IpAbuseRecord> {
        self.0.borrow_mut().record_ip_abuse(spec, &new_id(), unix_timestamp())
    }

    fn get_ip_abuse_record(&self, id: &str) -> AppResult<Option<IpAbuseRecord>> {
        self.0.borrow().get_ip_abuse_record(id)
    }

    fn list_ip_abuse_records(
        &self,
        address: Option<&str>,
        vm_id: Option<&str>,
        unresolved_only: bool,
        limit: usize,
    ) -> AppResult<Vec<IpAbuseRecord>> {
        self.0.borrow().list_ip_abuse_records(address, vm_id, unresolved_only, limit)
    }

    fn resolve_ip_abuse_record(
        &self,
        id: &str,
        by: Option<&str>,
        resolution: &str,
    ) -> AppResult<IpAbuseRecord> {
        self.0.borrow_mut().resolve_ip_abuse_record(id, by, resolution, unix_timestamp())
    }

    fn vm_network_security(&self, vm_id: &str) -> AppResult<Option<VmNetworkSecurity>> {
        self.0.borrow().vm_network_security(vm_id)
    }

    fn patch_vm_network_security(
        &self,
        vm_id: &str,
        patch: &VmNetworkSecurityPatch,
    ) -> AppResult<VmNetworkSecurity> {
        self.0.borrow_mut().patch_vm_network_security(vm_id, patch, Ok(()), unix_timestamp())
    }

    fn mark_vm_network_security_applied(
        &self,
        vm_id: &str,
        revision: u64,
        error: Option<&str>,
    ) -> AppResult<VmNetworkSecurity> {
        let now = unix_timestamp();
        self.0.borrow_mut().mark_vm_network_security_applied(vm_id, revision, error, now)
    }

    fn hypervisor_network_security(&self) -> AppResult<HypervisorNetworkSecurity> {
        self.0.borrow().hypervisor_network_security()
    }

    fn patch_hypervisor_network_security(
        &self,
        patch: &HypervisorNetworkSecurityPatch,
        by: Option<&str>,
    ) -> AppResult<HypervisorNetworkSecurity> {
        self.0.borrow_mut().patch_hypervisor_network_security(patch, by, unix_timestamp())
    }

    fn create_vm_firewall_rule(
        &self,
        vm_id: &str,
        spec: &NewVmFirewallRule,
    ) -> AppResult<VmFirewallRule> {
        let now = unix_timestamp();
        self.0.borrow_mut().create_vm_firewall_rule(vm_id, spec, MAX_RULES, &new_id(), now)
    }

    fn create_vm_firewall_rule_owned(
        &self,
        vm_id: &str,
        spec: &NewVmFirewallRule,
        owner_type: &str,
        owner_id: Option<&str>,
    ) -> AppResult<VmFirewallRule> {
        self.0.borrow_mut().create_vm_firewall_rule_owned(
            vm_id,
            spec,
            owner_type,
            owner_id,
            MAX_RULES,
            &new_id(),
            unix_timestamp(),
        )
    }

    fn list_vm_firewall_rules(&self, vm_id: &str) -> AppResult<Vec<VmFirewallRule>> {
        self.0.borrow().list_vm_firewall_rules(vm_id)
    }

    fn get_vm_firewall_rule(&self, vm_id: &str, id: &str) -> AppResult<Option<VmFirewallRule>> {
        self.0.borrow().get_vm_firewall_rule(vm_id, id)
    }

    fn patch_vm_firewall_rule(
        &self,
        vm_id: &str,
        id: &str,
        patch: &VmFirewallRulePatch,
    ) -> AppResult<VmFirewallRule> {
        self.0.borrow_mut().patch_vm_firewall_rule(vm_id, id, patch, unix_timestamp())
    }

    fn delete_vm_firewall_rule(&self, vm_id: &str, id: &str) -> AppResult<()> {
        self.0.borrow_mut().delete_vm_firewall_rule(vm_id, id, unix_timestamp())
    }
}

fn host_metric(sampled_at: Timestamp) -> HostMetric {
    HostMetric {
        sampled_at,
        cpu_percent: ((sampled_at % 100) as f64).to_bits(),
        load_one: 0.1_f64.to_bits(),
        load_five: 0.2_f64.to_bits(),
        load_fifteen: 0.3_f64.to_bits(),
        memory_total_bytes: 1024,
        memory_used_bytes: 512,
        swap_total_bytes: 0,
        swap_used_bytes: 0,
        disk_total_bytes: 4096,
        disk_used_bytes: 1024,
        disk_read_bps: 10.0_f64.to_bits(),
        disk_write_bps: 20.0_f64.to_bits(),
        network_rx_bytes: sampled_at.max(0) as u64,
        network_tx_bytes: sampled_at.max(0) as u64,
        network_rx_bps: 30.0_f64.to_bits(),
        network_tx_bps: 40.0_f64.to_bits(),
        uptime_seconds: sampled_at.max(0) as u64,
        metadata: Document::object(),
    }
}

fn vm_metric(vm_id: &str, sampled_at: Timestamp) -> VmMetric {
    VmMetric {
        vm_id: vm_id.into(),
        sampled_at,
        cpu_percent: ((sampled_at % 100) as f64).to_bits(),
        memory_used_bytes: 512,
        memory_total_bytes: 1024,
        disk_read_bytes: sampled_at.max(0) as u64,
        disk_write_bytes: sampled_at.max(0) as u64,
        disk_read_bps: 10.0_f64.to_bits(),
        disk_write_bps: 20.0_f64.to_bits(),
        network_rx_bytes: sampled_at.max(0) as u64,
        network_tx_bytes: sampled_at.max(0) as u64,
        network_rx_bps: 30.0_f64.to_bits(),
        network_tx_bps: 40.0_f64.to_bits(),
        traffic_used_bytes: sampled_at.max(0) as u64,
        traffic_limit_bytes: None,
        metadata: Document::object(),
    }
}

fn test_vm() -> NewVm {
    NewVm {
        name: "vm-one".into(),
        hostname: "vm-one.example.test".into(),
        description: "test VM".into(),
        os_family: "linux".into(),
        iso_id: None,
        vcpus: 2,
        memory_mib: 2048,
        disk_gib: 20,
        disk_format: "qcow2".into(),
        firmware: "bios".into(),
        machine_type: None,
        bridge: Some("vexa0".into()),
        tap_name: Some("tap-vm-one".into()),
        mac_address: Some("52:54:00:00:00:01".into()),
        network_limit_mbps: Some(100),
        traffic_limit_bytes: Some(1_000_000),
        root_username: "root".into(),
        guest_agent: true,
        autostart: false,
        timezone: Some("UTC".into()),
        metadata: Document::from_value(object(vec![("purpose", Value::from("test"))])),
    }
}

fn test_vm_named(name: &str, suffix: u8) -> NewVm {
    let mut vm = test_vm();
    vm.name = name.into();
    vm.hostname = format!("{name}.example.test");
    vm.tap_name = Some(format!("tap-{name}"));
    vm.mac_address = Some(format!("52:54:00:00:00:{suffix:02x}"));
    vm
}


#[test]
fn migration_and_vm_crud_work() {
    let database = Db::open();
    assert_eq!(database.schema_version().unwrap(), 9);
    let vm = database.create_vm(&test_vm()).unwrap();
    assert_eq!(database.get_vm("vm-one").unwrap().unwrap().id, vm.id);
    database
        .patch_vm(
            &vm.id,
            &VmPatch {
                state: Some(VmState::Running),
                memory_mib: Some(4096),
                ..VmPatch::default()
            },
        )
        .unwrap();
    assert_eq!(database.get_vm(&vm.id).unwrap().unwrap().memory_mib, 4096);
}

#[test]
fn ip_inventory_is_sorted_by_numeric_address_value() {
    let database = Db::open();
    for address in [
        "203.0.113.126",
        "203.0.113.66",
        "203.0.113.100",
        "203.0.113.99",
    ] {
        database
            .upsert_ip_address(&NewIpAddress {
                pool_id: None,
                address: address.into(),
                prefix_length: 32,
                scope: IpScope::Public,
                status: IpStatus::Free,
                gateway: None,
                reverse_dns: None,
                metadata: Document::from_value(object(vec![])),
            })
            .unwrap();
    }

    let addresses = database
        .list_ip_addresses(Some(AddressFamily::V4), Some(IpScope::Public), None)
        .unwrap()
        .into_iter()
        .map(|record| record.address)
        .collect::<Vec<_>>();
    assert_eq!(
        addresses,
        [
            "203.0.113.66",
            "203.0.113.99",
            "203.0.113.100",
            "203.0.113.126",
        ]
    );
}

#[test]
fn guest_tools_secret_is_vm_bound_and_never_stored_in_plaintext() {
    let database = Db::open();
    let vm = database.create_vm(&test_vm()).unwrap();
    let security = Security::new([0x42; 32]);
    let secret = base64::engine::general_purpose::STANDARD_NO_PAD.encode([0x11_u8; 32]);
    let record = database
        .configure_vm_guest_tools(
            &vm.id,
            GuestToolsPlatform::Linux,
            GuestToolsProvisioner::CloudInit,
            &secret,
            "0.1.0",
            &security,
        )
        .unwrap();
    assert!(record.enabled);
    assert_eq!(
        database
            .decrypt_vm_guest_tools_secret(&vm.id, &security)
            .unwrap()
            .as_deref(),
        Some(secret.as_str())
    );
    let envelope = database.tools_row(&vm.id).secret_envelope;
    assert_ne!(envelope, secret);
    assert!(!envelope.contains(&secret));
}

#[test]
fn guest_tools_rotation_is_generation_bound_and_two_phase() {
    let database = Db::open();
    let vm = database.create_vm(&test_vm()).unwrap();
    let security = Security::new([0x43; 32]);
    let active_secret = base64::engine::general_purpose::STANDARD_NO_PAD.encode([0x21_u8; 32]);
    let pending_secret = base64::engine::general_purpose::STANDARD_NO_PAD.encode([0x22_u8; 32]);
    database
        .configure_vm_guest_tools(
            &vm.id,
            GuestToolsPlatform::Linux,
            GuestToolsProvisioner::CloudInit,
            &active_secret,
            "0.1.0",
            &security,
        )
        .unwrap();

    let generation = database
        .stage_vm_guest_tools_rotation(
            &vm.id,
            GuestToolsPlatform::Windows,
            GuestToolsProvisioner::CloudbaseNoCloud,
            &pending_secret,
            "0.2.0",
            &security,
        )
        .unwrap();
    let staged = database.vm_guest_tools(&vm.id).unwrap().unwrap();
    assert!(staged.pending_rotation);
    assert!(!staged.pending_installed);
    assert_eq!(staged.platform, GuestToolsPlatform::Linux);
    assert_eq!(staged.desired_version, "0.1.0");
    assert!(!format!("{staged:?}").contains(&generation));
    assert!(!format!("{staged:?}").contains("envelope"));

    let seed = database
        .pending_vm_guest_tools_seed(&vm.id, &security)
        .unwrap()
        .unwrap();
    assert_eq!(seed.generation, generation);
    assert_eq!(seed.platform, GuestToolsPlatform::Windows);
    assert_eq!(seed.provisioner, GuestToolsProvisioner::CloudbaseNoCloud);
    assert_eq!(seed.desired_version, "0.2.0");
    assert_eq!(seed.secret, pending_secret);
    assert!(!seed.installed);
    assert!(!format!("{seed:?}").contains(&pending_secret));

    let before_install = database
        .vm_guest_tools_client_secret(&vm.id, &security)
        .unwrap()
        .unwrap();
    assert_eq!(before_install.secret, active_secret);
    assert_eq!(before_install.desired_version, "0.1.0");
    assert!(before_install.pending_generation.is_none());
    assert_eq!(
        database
            .decrypt_vm_guest_tools_secret(&vm.id, &security)
            .unwrap()
            .as_deref(),
        Some(active_secret.as_str())
    );

    let wrong_generation = Uuid::new_v4().to_string();
    assert!(database
        .mark_vm_guest_tools_rotation_installed(&vm.id, &wrong_generation)
        .is_err());
    let installed = database
        .mark_vm_guest_tools_rotation_installed(&vm.id, &generation)
        .unwrap();
    assert!(installed.pending_rotation);
    assert!(installed.pending_installed);
    assert!(database
        .discard_vm_guest_tools_rotation(&vm.id, &generation)
        .is_err());
    assert!(database.delete_vm_guest_tools_configuration(&vm.id).is_err());
    let guarded = database
        .update_vm_guest_tools_status(
            &vm.id,
            GuestToolsStatus::Ready,
            Some("0.2.0"),
            None,
            true,
        )
        .unwrap();
    assert_eq!(guarded.status, GuestToolsStatus::Pending);
    assert!(guarded.installed_version.is_none());
    assert_eq!(
        database
            .installed_vm_guest_tools_rotation_generation(&vm.id)
            .unwrap()
            .as_deref(),
        Some(generation.as_str())
    );

    let after_install = database
        .vm_guest_tools_client_secret(&vm.id, &security)
        .unwrap()
        .unwrap();
    assert_eq!(after_install.secret, pending_secret);
    assert_eq!(after_install.desired_version, "0.2.0");
    assert_eq!(after_install.pending_generation.as_deref(), Some(generation.as_str()));
    assert!(!format!("{after_install:?}").contains(&pending_secret));
    // The durable active envelope is still the old one until promotion.
    assert_eq!(
        database
            .decrypt_vm_guest_tools_secret(&vm.id, &security)
            .unwrap()
            .as_deref(),
        Some(active_secret.as_str())
    );

    assert!(database
        .promote_vm_guest_tools_rotation(&vm.id, &generation, "wrong-version", &security)
        .is_err());
    assert!(database.vm_guest_tools(&vm.id).unwrap().unwrap().pending_installed);
    let promoted = database
        .promote_vm_guest_tools_rotation(&vm.id, &generation, "0.2.0", &security)
        .unwrap();
    assert!(!promoted.pending_rotation);
    assert!(!promoted.pending_installed);
    assert!(database
        .installed_vm_guest_tools_rotation_generation(&vm.id)
        .unwrap()
        .is_none());
    assert_eq!(promoted.platform, GuestToolsPlatform::Windows);
    assert_eq!(promoted.provisioner, GuestToolsProvisioner::CloudbaseNoCloud);
    assert_eq!(promoted.desired_version, "0.2.0");
    assert_eq!(promoted.installed_version.as_deref(), Some("0.2.0"));
    assert_eq!(promoted.status, GuestToolsStatus::Ready);
    assert!(promoted.last_seen_at.is_some());
    assert!(database.pending_vm_guest_tools_seed(&vm.id, &security).unwrap().is_none());
    assert_eq!(
        database
            .decrypt_vm_guest_tools_secret(&vm.id, &security)
            .unwrap()
            .as_deref(),
        Some(pending_secret.as_str())
    );
}

#[test]
fn pending_guest_tools_envelope_is_private_context_bound_and_discardable() {
    let database = Db::open();
    let vm = database.create_vm(&test_vm()).unwrap();
    let security = Security::new([0x44; 32]);
    let active_secret = "active-channel-secret";
    let pending_secret = "fresh-reinstall-channel-secret";
    database
        .configure_vm_guest_tools(
            &vm.id,
            GuestToolsPlatform::Linux,
            GuestToolsProvisioner::CloudInit,
            active_secret,
            "0.1.0",
            &security,
        )
        .unwrap();
    let generation = database
        .stage_vm_guest_tools_rotation(
            &vm.id,
            GuestToolsPlatform::Linux,
            GuestToolsProvisioner::CloudInit,
            pending_secret,
            "0.2.0",
            &security,
        )
        .unwrap();
    assert!(database
        .stage_vm_guest_tools_rotation(
            &vm.id,
            GuestToolsPlatform::Linux,
            GuestToolsProvisioner::CloudInit,
            "another-secret",
            "0.3.0",
            &security,
        )
        .is_err());

    let envelope = database.tools_row(&vm.id).pending.unwrap().secret_envelope;
    assert!(!envelope.contains(pending_secret));
    assert!(security
        .decrypt_secret(&envelope, &vm_guest_tools_secret_context(&vm.id))
        .is_err());
    assert!(security
        .decrypt_secret(
            &envelope,
            &vm_guest_tools_pending_secret_context(&vm.id, "wrong-generation"),
        )
        .is_err());
    let wrong_generation = Uuid::new_v4().to_string();
    assert!(database
        .discard_vm_guest_tools_rotation(&vm.id, &wrong_generation)
        .is_err());
    let record = database
        .discard_vm_guest_tools_rotation(&vm.id, &generation)
        .unwrap();
    assert!(!record.pending_rotation);
    assert!(!record.pending_installed);
    assert_eq!(
        database
            .vm_guest_tools_client_secret(&vm.id, &security)
            .unwrap()
            .unwrap()
            .secret,
        active_secret
    );
}

#[test]
fn configuring_guest_tools_clears_stale_pending_rotation() {
    let database = Db::open();
    let vm = database.create_vm(&test_vm()).unwrap();
    let security = Security::new([0x45; 32]);
    database
        .configure_vm_guest_tools(
            &vm.id,
            GuestToolsPlatform::Linux,
            GuestToolsProvisioner::CloudInit,
            "first-active-secret",
            "0.1.0",
            &security,
        )
        .unwrap();
    let generation = database
        .stage_vm_guest_tools_rotation(
            &vm.id,
            GuestToolsPlatform::Linux,
            GuestToolsProvisioner::CloudInit,
            "pending-secret",
            "0.2.0",
            &security,
        )
        .unwrap();
    let configured = database
        .configure_vm_guest_tools(
            &vm.id,
            GuestToolsPlatform::Windows,
            GuestToolsProvisioner::CloudbaseNoCloud,
            "replacement-active-secret",
            "0.3.0",
            &security,
        )
        .unwrap();
    assert!(!configured.pending_rotation);
    assert!(!configured.pending_installed);
    assert!(database
        .discard_vm_guest_tools_rotation(&vm.id, &generation)
        .is_err());
    database.delete_vm_guest_tools_configuration(&vm.id).unwrap();
    assert!(database.vm_guest_tools(&vm.id).unwrap().is_none());
}

#[test]
fn armed_guest_tools_rotation_cannot_be_reconfigured_or_deleted() {
    let database = Db::open();
    let vm = database.create_vm(&test_vm()).unwrap();
    let security = Security::new([0x47; 32]);
    let active_secret = "active-secret-before-reinstall";
    let pending_secret = "pending-secret-on-replacement-media";
    database
        .configure_vm_guest_tools(
            &vm.id,
            GuestToolsPlatform::Linux,
            GuestToolsProvisioner::CloudInit,
            active_secret,
            "0.1.0",
            &security,
        )
        .unwrap();
    let generation = database
        .stage_vm_guest_tools_rotation(
            &vm.id,
            GuestToolsPlatform::Linux,
            GuestToolsProvisioner::CloudInit,
            pending_secret,
            "0.2.0",
            &security,
        )
        .unwrap();
    database
        .mark_vm_guest_tools_rotation_installed(&vm.id, &generation)
        .unwrap();

    assert!(database
        .configure_vm_guest_tools(
            &vm.id,
            GuestToolsPlatform::Windows,
            GuestToolsProvisioner::CloudbaseNoCloud,
            "replacement-secret",
            "0.3.0",
            &security,
        )
        .is_err());
    assert!(database.delete_vm_guest_tools_configuration(&vm.id).is_err());
    let retained = database
        .vm_guest_tools_client_secret(&vm.id, &security)
        .unwrap()
        .unwrap();
    assert_eq!(retained.secret, pending_secret);
    assert_eq!(retained.pending_generation.as_deref(), Some(generation.as_str()));
    assert_eq!(
        database
            .decrypt_vm_guest_tools_secret(&vm.id, &security)
            .unwrap()
            .as_deref(),
        Some(active_secret)
    );
}

#[test]
fn terminal_reinstall_cleanup_is_generation_exact_and_armed_safe() {
    let database = Db::open();
    let security = Security::new([0x48; 32]);
    let fingerprint = "a".repeat(64);

    let vm = database.create_vm(&test_vm()).unwrap();
    database
        .configure_vm_guest_tools(
            &vm.id,
            GuestToolsPlatform::Linux,
            GuestToolsProvisioner::CloudInit,
            "active-one",
            "0.1.0",
            &security,
        )
        .unwrap();
    let generation = database
        .stage_vm_guest_tools_rotation(
            &vm.id,
            GuestToolsPlatform::Linux,
            GuestToolsProvisioner::CloudInit,
            "pending-one",
            "0.2.0",
            &security,
        )
        .unwrap();
    let job = database
        .enqueue_reinstall_job(
            &NewJob {
                kind: "vm.reinstall".into(),
                vm_id: Some(vm.id.clone()),
                payload: Document::from_value(object(vec![("_guest_tools_rotation_generation", Value::from(generation.clone())), ("guest_tools_new_configuration", Value::from(false)), ("request_fingerprint", Value::from(fingerprint.clone()))])),
                idempotency_key: None,
                run_after: None,
                max_attempts: 1,
                actor_type: None,
                actor_id: None,
            },
            None,
            VmState::Running,
        )
        .unwrap();
    database
        .claim_next_job("test-worker", unix_timestamp())
        .unwrap()
        .unwrap();
    database
        .fail_job(&job.id, "failed before media publish", None, unix_timestamp())
        .unwrap();
    let cleaned = database.vm_guest_tools(&vm.id).unwrap().unwrap();
    assert!(!cleaned.pending_rotation);
    assert_eq!(
        database
            .decrypt_vm_guest_tools_secret(&vm.id, &security)
            .unwrap()
            .as_deref(),
        Some("active-one")
    );

    let provisional_vm = database
        .create_vm(&test_vm_named("vm-provisional", 4))
        .unwrap();
    database
        .configure_vm_guest_tools(
            &provisional_vm.id,
            GuestToolsPlatform::Linux,
            GuestToolsProvisioner::CloudInit,
            "placeholder-never-seeded",
            "0.1.0",
            &security,
        )
        .unwrap();
    let provisional_generation = database
        .stage_vm_guest_tools_rotation(
            &provisional_vm.id,
            GuestToolsPlatform::Linux,
            GuestToolsProvisioner::CloudInit,
            "fresh-provisional-key",
            "0.1.0",
            &security,
        )
        .unwrap();
    let provisional_job = database
        .enqueue_reinstall_job(
            &NewJob {
                kind: "vm.reinstall".into(),
                vm_id: Some(provisional_vm.id.clone()),
                payload: Document::from_value(object(vec![("_guest_tools_rotation_generation", Value::from(provisional_generation)), ("guest_tools_new_configuration", Value::from(true)), ("request_fingerprint", Value::from("d".repeat(64)))])),
                idempotency_key: None,
                run_after: None,
                max_attempts: 1,
                actor_type: None,
                actor_id: None,
            },
            None,
            VmState::Running,
        )
        .unwrap();
    database
        .claim_next_job("test-worker", unix_timestamp())
        .unwrap()
        .unwrap();
    database
        .fail_job(
            &provisional_job.id,
            "failed before provisional media publish",
            None,
            unix_timestamp(),
        )
        .unwrap();
    assert!(database
        .vm_guest_tools(&provisional_vm.id)
        .unwrap()
        .is_none());

    let armed_vm = database
        .create_vm(&test_vm_named("vm-armed", 2))
        .unwrap();
    database
        .configure_vm_guest_tools(
            &armed_vm.id,
            GuestToolsPlatform::Linux,
            GuestToolsProvisioner::CloudInit,
            "active-two",
            "0.1.0",
            &security,
        )
        .unwrap();
    let armed_generation = database
        .stage_vm_guest_tools_rotation(
            &armed_vm.id,
            GuestToolsPlatform::Linux,
            GuestToolsProvisioner::CloudInit,
            "pending-two",
            "0.2.0",
            &security,
        )
        .unwrap();
    let armed_job = database
        .enqueue_reinstall_job(
            &NewJob {
                kind: "vm.reinstall".into(),
                vm_id: Some(armed_vm.id.clone()),
                payload: Document::from_value(object(vec![("_guest_tools_rotation_generation", Value::from(armed_generation.clone())), ("guest_tools_new_configuration", Value::from(false)), ("request_fingerprint", Value::from(fingerprint.clone()))])),
                idempotency_key: None,
                run_after: None,
                max_attempts: 1,
                actor_type: None,
                actor_id: None,
            },
            None,
            VmState::Running,
        )
        .unwrap();
    database
        .claim_next_job("test-worker", unix_timestamp())
        .unwrap()
        .unwrap();
    database
        .mark_vm_guest_tools_rotation_installed(&armed_vm.id, &armed_generation)
        .unwrap();
    database
        .fail_job(
            &armed_job.id,
            "failed after media publish",
            None,
            unix_timestamp(),
        )
        .unwrap();
    let armed = database.vm_guest_tools(&armed_vm.id).unwrap().unwrap();
    assert!(armed.pending_rotation);
    assert!(armed.pending_installed);
    assert!(database
        .reusable_vm_guest_tools_rotation(&armed_vm.id, &"b".repeat(64))
        .unwrap()
        .is_none());
    let reusable = database
        .reusable_vm_guest_tools_rotation(&armed_vm.id, &fingerprint)
        .unwrap()
        .unwrap();
    assert_eq!(reusable.generation, armed_generation);
    assert_eq!(reusable.origin_job_id, armed_job.id);
    assert_eq!(
        database
            .vm_guest_tools_client_secret(&armed_vm.id, &security)
            .unwrap()
            .unwrap()
            .secret,
        "pending-two"
    );

    let mismatched_vm = database
        .create_vm(&test_vm_named("vm-mismatch", 3))
        .unwrap();
    database
        .configure_vm_guest_tools(
            &mismatched_vm.id,
            GuestToolsPlatform::Linux,
            GuestToolsProvisioner::CloudInit,
            "active-three",
            "0.1.0",
            &security,
        )
        .unwrap();
    let retained_generation = database
        .stage_vm_guest_tools_rotation(
            &mismatched_vm.id,
            GuestToolsPlatform::Linux,
            GuestToolsProvisioner::CloudInit,
            "pending-three",
            "0.2.0",
            &security,
        )
        .unwrap();
    let wrong_generation = Uuid::new_v4().to_string();
    let mismatched_job = database
        .enqueue_reinstall_job(
            &NewJob {
                kind: "vm.reinstall".into(),
                vm_id: Some(mismatched_vm.id.clone()),
                payload: Document::from_value(object(vec![("_guest_tools_rotation_generation", Value::from(wrong_generation)), ("guest_tools_new_configuration", Value::from(true)), ("request_fingerprint", Value::from("c".repeat(64)))])),
                idempotency_key: None,
                run_after: None,
                max_attempts: 1,
                actor_type: None,
                actor_id: None,
            },
            None,
            VmState::Running,
        )
        .unwrap();
    database
        .claim_next_job("test-worker", unix_timestamp())
        .unwrap()
        .unwrap();
    database
        .fail_job(
            &mismatched_job.id,
            "mismatched generation",
            None,
            unix_timestamp(),
        )
        .unwrap();
    let retained = database.vm_guest_tools(&mismatched_vm.id).unwrap().unwrap();
    assert!(retained.pending_rotation);
    assert!(!retained.pending_installed);
    assert_eq!(
        database
            .pending_vm_guest_tools_seed(&mismatched_vm.id, &security)
            .unwrap()
            .unwrap()
            .generation,
        retained_generation
    );
}

#[test]
fn interrupted_reinstall_recovery_cleans_only_unarmed_exact_generation() {
    let security = Security::new([0x49; 32]);

    let unarmed = Db::open();
    let vm = unarmed.create_vm(&test_vm()).unwrap();
    unarmed
        .configure_vm_guest_tools(
            &vm.id,
            GuestToolsPlatform::Linux,
            GuestToolsProvisioner::CloudInit,
            "active-before-crash",
            "0.1.0",
            &security,
        )
        .unwrap();
    let generation = unarmed
        .stage_vm_guest_tools_rotation(
            &vm.id,
            GuestToolsPlatform::Linux,
            GuestToolsProvisioner::CloudInit,
            "unpublished-key",
            "0.2.0",
            &security,
        )
        .unwrap();
    unarmed
        .enqueue_reinstall_job(
            &NewJob {
                kind: "vm.reinstall".into(),
                vm_id: Some(vm.id.clone()),
                payload: Document::from_value(object(vec![("_guest_tools_rotation_generation", Value::from(generation)), ("guest_tools_new_configuration", Value::from(false)), ("request_fingerprint", Value::from("e".repeat(64)))])),
                idempotency_key: None,
                run_after: None,
                max_attempts: 1,
                actor_type: None,
                actor_id: None,
            },
            None,
            VmState::Running,
        )
        .unwrap();
    unarmed
        .claim_next_job("worker-before-crash", unix_timestamp())
        .unwrap()
        .unwrap();
    let orphan_vm = unarmed
        .create_vm(&test_vm_named("vm-orphan-unarmed", 5))
        .unwrap();
    unarmed
        .configure_vm_guest_tools(
            &orphan_vm.id,
            GuestToolsPlatform::Linux,
            GuestToolsProvisioner::CloudInit,
            "orphan-active",
            "0.1.0",
            &security,
        )
        .unwrap();
    unarmed
        .stage_vm_guest_tools_rotation(
            &orphan_vm.id,
            GuestToolsPlatform::Linux,
            GuestToolsProvisioner::CloudInit,
            "orphan-never-published",
            "0.2.0",
            &security,
        )
        .unwrap();
    let queued_vm = unarmed
        .create_vm(&test_vm_named("vm-queued-rotation", 7))
        .unwrap();
    unarmed
        .configure_vm_guest_tools(
            &queued_vm.id,
            GuestToolsPlatform::Linux,
            GuestToolsProvisioner::CloudInit,
            "queued-active",
            "0.1.0",
            &security,
        )
        .unwrap();
    let queued_generation = unarmed
        .stage_vm_guest_tools_rotation(
            &queued_vm.id,
            GuestToolsPlatform::Linux,
            GuestToolsProvisioner::CloudInit,
            "queued-pending",
            "0.2.0",
            &security,
        )
        .unwrap();
    unarmed
        .enqueue_reinstall_job(
            &NewJob {
                kind: "vm.reinstall".into(),
                vm_id: Some(queued_vm.id.clone()),
                payload: Document::from_value(object(vec![("_guest_tools_rotation_generation", Value::from(queued_generation)), ("guest_tools_new_configuration", Value::from(false)), ("request_fingerprint", Value::from("0".repeat(64)))])),
                idempotency_key: None,
                run_after: Some(unix_timestamp() + 60),
                max_attempts: 1,
                actor_type: None,
                actor_id: None,
            },
            None,
            VmState::Running,
        )
        .unwrap();
    let (_, failed) = unarmed
        .recover_interrupted_jobs(unix_timestamp() + 1)
        .unwrap();
    assert_eq!(failed, 1);
    assert!(!unarmed
        .vm_guest_tools(&vm.id)
        .unwrap()
        .unwrap()
        .pending_rotation);
    assert!(unarmed
        .vm_guest_tools(&queued_vm.id)
        .unwrap()
        .unwrap()
        .pending_rotation);
    assert!(!unarmed
        .vm_guest_tools(&orphan_vm.id)
        .unwrap()
        .unwrap()
        .pending_rotation);

    let armed = Db::open();
    let vm = armed.create_vm(&test_vm()).unwrap();
    armed
        .configure_vm_guest_tools(
            &vm.id,
            GuestToolsPlatform::Linux,
            GuestToolsProvisioner::CloudInit,
            "active-before-armed-crash",
            "0.1.0",
            &security,
        )
        .unwrap();
    let generation = armed
        .stage_vm_guest_tools_rotation(
            &vm.id,
            GuestToolsPlatform::Linux,
            GuestToolsProvisioner::CloudInit,
            "published-key",
            "0.2.0",
            &security,
        )
        .unwrap();
    armed
        .enqueue_reinstall_job(
            &NewJob {
                kind: "vm.reinstall".into(),
                vm_id: Some(vm.id.clone()),
                payload: Document::from_value(object(vec![("_guest_tools_rotation_generation", Value::from(generation.clone())), ("guest_tools_new_configuration", Value::from(true)), ("request_fingerprint", Value::from("f".repeat(64)))])),
                idempotency_key: None,
                run_after: None,
                max_attempts: 1,
                actor_type: None,
                actor_id: None,
            },
            None,
            VmState::Running,
        )
        .unwrap();
    armed
        .claim_next_job("worker-before-crash", unix_timestamp())
        .unwrap()
        .unwrap();
    armed
        .mark_vm_guest_tools_rotation_installed(&vm.id, &generation)
        .unwrap();
    let orphan_vm = armed
        .create_vm(&test_vm_named("vm-orphan-armed", 6))
        .unwrap();
    armed
        .configure_vm_guest_tools(
            &orphan_vm.id,
            GuestToolsPlatform::Linux,
            GuestToolsProvisioner::CloudInit,
            "orphan-armed-active",
            "0.1.0",
            &security,
        )
        .unwrap();
    let orphan_generation = armed
        .stage_vm_guest_tools_rotation(
            &orphan_vm.id,
            GuestToolsPlatform::Linux,
            GuestToolsProvisioner::CloudInit,
            "orphan-already-published",
            "0.2.0",
            &security,
        )
        .unwrap();
    armed
        .mark_vm_guest_tools_rotation_installed(&orphan_vm.id, &orphan_generation)
        .unwrap();
    armed
        .recover_interrupted_jobs(unix_timestamp() + 1)
        .unwrap();
    let retained = armed.vm_guest_tools(&vm.id).unwrap().unwrap();
    assert!(retained.pending_rotation);
    assert!(retained.pending_installed);
    assert_eq!(retained.status, GuestToolsStatus::Error);
    assert_eq!(
        armed
            .vm_guest_tools_client_secret(&vm.id, &security)
            .unwrap()
            .unwrap()
            .secret,
        "published-key"
    );
    let orphan_retained = armed.vm_guest_tools(&orphan_vm.id).unwrap().unwrap();
    assert!(orphan_retained.pending_rotation);
    assert!(orphan_retained.pending_installed);
}

#[test]
fn cancelling_reinstall_discards_unarmed_but_never_armed_rotation() {
    let security = Security::new([0x4a; 32]);
    for armed in [false, true] {
        let database = Db::open();
        let vm = database.create_vm(&test_vm()).unwrap();
        database
            .configure_vm_guest_tools(
                &vm.id,
                GuestToolsPlatform::Linux,
                GuestToolsProvisioner::CloudInit,
                "active-cancel-key",
                "0.1.0",
                &security,
            )
            .unwrap();
        let generation = database
            .stage_vm_guest_tools_rotation(
                &vm.id,
                GuestToolsPlatform::Linux,
                GuestToolsProvisioner::CloudInit,
                "pending-cancel-key",
                "0.2.0",
                &security,
            )
            .unwrap();
        let job = database
            .enqueue_reinstall_job(
                &NewJob {
                    kind: "vm.reinstall".into(),
                    vm_id: Some(vm.id.clone()),
                    payload: Document::from_value(object(vec![("_guest_tools_rotation_generation", Value::from(generation.clone())), ("guest_tools_new_configuration", Value::from(false)), ("request_fingerprint", Value::from("1".repeat(64)))])),
                    idempotency_key: None,
                    run_after: None,
                    max_attempts: 1,
                    actor_type: None,
                    actor_id: None,
                },
                None,
                VmState::Running,
            )
            .unwrap();
        if armed {
            database
                .mark_vm_guest_tools_rotation_installed(&vm.id, &generation)
                .unwrap();
        }
        database.cancel_job(&job.id, unix_timestamp()).unwrap();
        let retained = database.vm_guest_tools(&vm.id).unwrap().unwrap();
        assert_eq!(retained.pending_rotation, armed);
        assert_eq!(retained.pending_installed, armed);
        assert_eq!(
            database
                .vm_guest_tools_client_secret(&vm.id, &security)
                .unwrap()
                .unwrap()
                .secret,
            if armed {
                "pending-cancel-key"
            } else {
                "active-cancel-key"
            }
        );
    }
}

#[test]
fn guest_tools_bootstrap_jobs_are_deduplicated_per_generation() {
    let database = Db::open();
    let vm = database.create_vm(&test_vm()).unwrap();
    let first = database
        .enqueue_guest_tools_bootstrap_job(&NewJob {
            kind: "vm.guest_tools.bootstrap".into(),
            vm_id: Some(vm.id.clone()),
            payload: Document::from_value(object(vec![("expected_generation", Value::Null), ("deadline", Value::from(unix_timestamp() + 600)), ("parent_job_id", Value::from("parent-one"))])),
            idempotency_key: None,
            run_after: None,
            max_attempts: 2,
            actor_type: None,
            actor_id: None,
        })
        .unwrap();
    let duplicate = database
        .enqueue_guest_tools_bootstrap_job(&NewJob {
            kind: "vm.guest_tools.bootstrap".into(),
            vm_id: Some(vm.id.clone()),
            payload: Document::from_value(object(vec![("expected_generation", Value::Null), ("deadline", Value::from(unix_timestamp() + 1200)), ("parent_job_id", Value::from("parent-two"))])),
            idempotency_key: None,
            run_after: None,
            max_attempts: 3,
            actor_type: Some("admin".into()),
            actor_id: Some("another-actor".into()),
        })
        .unwrap();
    assert_eq!(duplicate.id, first.id);

    let generation = Uuid::new_v4().to_string();
    let rotation = database
        .enqueue_guest_tools_bootstrap_job(&NewJob {
            kind: "vm.guest_tools.bootstrap".into(),
            vm_id: Some(vm.id),
            payload: Document::from_value(object(vec![("expected_generation", Value::from(generation.clone())), ("deadline", Value::from(unix_timestamp() + 600))])),
            idempotency_key: None,
            run_after: None,
            max_attempts: 2,
            actor_type: None,
            actor_id: None,
        })
        .unwrap();
    assert_ne!(rotation.id, first.id);
}

#[test]
fn interrupted_bootstrap_does_not_overwrite_persisted_authenticated_health() {
    let database = Db::open();
    let vm = database.create_vm(&test_vm()).unwrap();
    let security = Security::new([0x4b; 32]);
    database
        .configure_vm_guest_tools(
            &vm.id,
            GuestToolsPlatform::Linux,
            GuestToolsProvisioner::CloudInit,
            "active-bootstrap-key",
            "0.1.0",
            &security,
        )
        .unwrap();
    let job = database
        .enqueue_guest_tools_bootstrap_job(&NewJob {
            kind: "vm.guest_tools.bootstrap".into(),
            vm_id: Some(vm.id.clone()),
            payload: Document::from_value(object(vec![("expected_generation", Value::Null), ("deadline", Value::from(unix_timestamp() + 600))])),
            idempotency_key: None,
            run_after: None,
            max_attempts: 1,
            actor_type: None,
            actor_id: None,
        })
        .unwrap();
    let claimed_at = unix_timestamp();
    database
        .claim_next_job("bootstrap-worker", claimed_at)
        .unwrap()
        .unwrap();
    database
        .update_vm_guest_tools_status(
            &vm.id,
            GuestToolsStatus::Ready,
            Some("0.1.0"),
            None,
            true,
        )
        .unwrap();
    database
        .recover_interrupted_jobs(claimed_at + 1)
        .unwrap();
    assert_eq!(
        database.vm_guest_tools(&vm.id).unwrap().unwrap().status,
        GuestToolsStatus::Ready
    );
    assert_eq!(
        database.get_job(&job.id).unwrap().unwrap().status,
        JobStatus::Failed
    );
}

#[test]
fn migrations_seven_through_nine_upgrade_an_existing_schema_sequentially() {
    assert_eq!(pending_migrations(6).unwrap(), vec![7, 8, 9]);
    let database = Db::open();
    assert_eq!(database.schema_version().unwrap(), 9);

    let vm = database.create_vm(&test_vm()).unwrap();
    let security = Security::new([0x46; 32]);
    let record = database
        .configure_vm_guest_tools(
            &vm.id,
            GuestToolsPlatform::Linux,
            GuestToolsProvisioner::CloudInit,
            "active-secret",
            "0.1.0",
            &security,
        )
        .unwrap();
    assert!(!record.pending_rotation);
    assert!(!record.pending_installed);
}

#[test]
fn safe_default_migration_only_clears_untouched_invalid_packet_presets() {
    let database = Db::open();
    let untouched = database.create_vm(&test_vm_named("vm-untouched", 31)).unwrap();
    let edited = database.create_vm(&test_vm_named("vm-edited", 32)).unwrap();
    for policy in database.0.borrow_mut().network_security.iter_mut() {
        policy.drop_invalid_packets = true;
        if policy.vm_id == edited.id {
            policy.revision = 1;
        }
    }
    database.0.borrow_mut().apply_safe_network_defaults();

    assert!(!database
        .vm_network_security(&untouched.id)
        .unwrap()
        .unwrap()
        .drop_invalid_packets);
    assert!(database
        .vm_network_security(&edited.id)
        .unwrap()
        .unwrap()
        .drop_invalid_packets);
    let new_vm = database.create_vm(&test_vm_named("vm-new-default", 33)).unwrap();
    assert!(!database
        .vm_network_security(&new_vm.id)
        .unwrap()
        .unwrap()
        .drop_invalid_packets);
}

#[test]
fn terminal_update_status_audit_is_imported_exactly_once() {
    let database = Db::open();
    let request_id = Uuid::new_v4().to_string();
    let event = NewAuditEvent {
        actor_type: "system".into(),
        actor_id: Some("vexa-update-helper".into()),
        action: "update.activate".into(),
        resource_type: "update_request".into(),
        resource_id: Some(request_id.clone()),
        request_id: Some(request_id.clone()),
        source_ip: None,
        user_agent: None,
        success: true,
        details: Document::from_value(object(vec![("outcome", Value::from("succeeded"))])),
    };

    assert!(database
        .import_update_status_audit(&request_id, "succeeded", &event)
        .unwrap());
    assert!(!database
        .import_update_status_audit(&request_id, "succeeded", &event)
        .unwrap());
    assert!(database
        .import_update_status_audit(&request_id, "failed", &event)
        .is_err());
    let events = database
        .list_audit(None, Some("update_request"), Some(&request_id), 10)
        .unwrap();
    assert_eq!(events.len(), 1);
    assert_eq!(events[0].action, "update.activate");

    assert_eq!(database.0.borrow().imports.len(), 1);
    assert_eq!(database.0.borrow().imports[0].outcome, "succeeded");
}

#[test]
fn host_metric_sampling_preserves_the_complete_requested_range() {
    let database = Db::open();
    let since = 1_700_000_000;
    for hour in 0..=168 {
        database
            .insert_host_metric(&host_metric(since + hour * 60 * 60))
            .unwrap();
    }

    let samples = database.host_metrics(since, 12).unwrap();
    assert!(samples.len() <= 12);
    assert_eq!(samples.first().unwrap().sampled_at, since + 7 * 24 * 60 * 60);
    assert!(samples.last().unwrap().sampled_at <= since + 14 * 60 * 60);
}

#[test]
fn old_samples_are_pruned() {
    let database = Db::open();
    let vm = database.create_vm(&test_vm()).unwrap();
    for at in [10, 20, 30] {
        database.insert_host_metric(&host_metric(at)).unwrap();
        database.insert_vm_metric(&vm_metric(&vm.id, at)).unwrap();
    }
    assert_eq!(database.0.borrow_mut().prune_metrics(10), Ok((0, 0)));
    assert_eq!(database.0.borrow_mut().prune_metrics(21), Ok((2, 2)));
    let left = database.host_metrics(0, 12).unwrap();
    assert_eq!(left.len(), 1);
    assert_eq!(left[0].sampled_at, 30);
}

#[test]
fn vm_metric_sampling_preserves_range_and_vm_identity() {
    let database = Db::open();
    let first = database.create_vm(&test_vm()).unwrap();
    let mut second_spec = test_vm();
    second_spec.name = "vm-two".into();
    second_spec.hostname = "vm-two.example.test".into();
    second_spec.tap_name = Some("tap-vm-two".into());
    second_spec.mac_address = Some("52:54:00:00:00:02".into());
    let second = database.create_vm(&second_spec).unwrap();
    let since = 1_700_000_000;
    for hour in 0..=168 {
        let sampled_at = since + hour * 60 * 60;
        database
            .insert_vm_metric(&vm_metric(&first.id, sampled_at))
            .unwrap();
        database
            .insert_vm_metric(&vm_metric(&second.id, sampled_at))
            .unwrap();
    }

    let samples = database.vm_metrics(&first.id, since, 12).unwrap();
    assert!(samples.len() <= 12);
    assert!(samples.iter().all(|sample| sample.vm_id == first.id));
    assert_eq!(samples.first().unwrap().sampled_at, since + 7 * 24 * 60 * 60);
    assert!(samples.last().unwrap().sampled_at <= since + 14 * 60 * 60);
}

#[test]
fn csrf_and_one_time_customer_exchange_are_bound() {
    let database = Db::open();
    let admin = database
        .bootstrap_admin("admin", "$argon2id$placeholder")
        .unwrap();
    let session = [1_u8; 32];
    let csrf = [2_u8; 32];
    let now = unix_timestamp();
    database
        .create_admin_session(&admin.id, &session, &csrf, now + 600, None, None)
        .unwrap();
    assert!(database.verify_admin_session_csrf(&session, &csrf, now).unwrap());
    assert!(!database
        .verify_admin_session_csrf(&session, &[3_u8; 32], now)
        .unwrap());

    let vm = database.create_vm(&test_vm()).unwrap();
    let link = [4_u8; 32];
    let cookie = [5_u8; 32];
    database
        .create_customer_token(&vm.id, &link, &["status:read".into()], now + 3600)
        .unwrap();
    assert!(database
        .exchange_customer_link(&link, &cookie, None, now, 900)
        .unwrap()
        .is_some());
    assert!(database
        .exchange_customer_link(&link, &[6_u8; 32], None, now, 900)
        .unwrap()
        .is_none());
    assert!(database
        .authenticate_customer_session(&cookie, None, now)
        .unwrap()
        .is_some());
}

#[test]
fn customer_token_revocation_is_scoped_to_its_vm() {
    let database = Db::open();
    let first_vm = database.create_vm(&test_vm()).unwrap();
    let mut second_spec = test_vm();
    second_spec.name = "vm-two".into();
    second_spec.hostname = "vm-two.example.test".into();
    second_spec.tap_name = Some("tap-vm-two".into());
    second_spec.mac_address = Some("52:54:00:00:00:02".into());
    let second_vm = database.create_vm(&second_spec).unwrap();
    let token = database
        .create_customer_link(
            &first_vm.id,
            &[9_u8; 32],
            &["read".into()],
            None,
            unix_timestamp() + 3600,
        )
        .unwrap();

    assert!(database
        .revoke_customer_token_for_vm(&second_vm.id, &token.id, unix_timestamp())
        .is_err());
    assert_eq!(database.list_customer_tokens(&first_vm.id).unwrap().len(), 1);
    database
        .revoke_customer_token_for_vm(&first_vm.id, &token.id, unix_timestamp())
        .unwrap();
    assert!(database.list_customer_tokens(&first_vm.id).unwrap().is_empty());
}

#[test]
fn interrupted_terminal_jobs_repair_dependent_resource_states() {
    let database = Db::open();
    let vm = database.create_vm(&test_vm()).unwrap();
    let reinstall = database
        .enqueue_reinstall_job(
            &NewJob {
                kind: "vm.reinstall".into(),
                vm_id: Some(vm.id.clone()),
                payload: Document::from_value(object(vec![])),
                idempotency_key: None,
                run_after: None,
                max_attempts: 1,
                actor_type: None,
                actor_id: None,
            },
            None,
            VmState::Running,
        )
        .unwrap();
    database
        .claim_next_job("test-worker", unix_timestamp())
        .unwrap()
        .unwrap();
    let (_, failed) = database.recover_interrupted_jobs(unix_timestamp() + 1).unwrap();
    assert_eq!(failed, 1);
    assert_eq!(
        database.get_job(&reinstall.id).unwrap().unwrap().status,
        JobStatus::Failed
    );
    assert_eq!(database.get_vm(&vm.id).unwrap().unwrap().state, VmState::Error);

    let snapshot = database
        .create_snapshot(&vm.id, "before-upgrade", "", false, &Document::from_value(object(vec![])))
        .unwrap();
    database
        .enqueue_job(&NewJob {
            kind: "vm.snapshot.create".into(),
            vm_id: Some(vm.id.clone()),
            payload: Document::from_value(object(vec![("snapshot_id", Value::from(snapshot.id.clone()))])),
            idempotency_key: None,
            run_after: None,
            max_attempts: 1,
            actor_type: None,
            actor_id: None,
        })
        .unwrap();
    database
        .claim_next_job("test-worker", unix_timestamp())
        .unwrap()
        .unwrap();
    database.recover_interrupted_jobs(unix_timestamp() + 1).unwrap();
    let snapshot = database
        .list_snapshots(&vm.id)
        .unwrap()
        .into_iter()
        .find(|item| item.id == snapshot.id)
        .unwrap();
    assert_eq!(snapshot.state, SnapshotState::Error);
    assert_eq!(
        snapshot.metadata.text_member("error").as_deref(),
        Some("worker interrupted before completion")
    );
}

#[test]
fn interrupted_delete_after_vm_commit_gets_a_tracked_finalizer_attempt() {
    let database = Db::open();
    let vm = database.create_vm(&test_vm()).unwrap();
    let job = database
        .enqueue_delete_job(&NewJob {
            kind: "vm.delete".into(),
            vm_id: Some(vm.id.clone()),
            payload: Document::from_value(object(vec![("delete_storage", Value::from(true)), ("target_vm_id", Value::from(vm.id.clone())), ("target_vm_name", Value::from(vm.name.clone()))])),
            idempotency_key: None,
            run_after: None,
            max_attempts: 1,
            actor_type: None,
            actor_id: None,
        })
        .unwrap();
    database
        .claim_next_job("delete-worker", unix_timestamp())
        .unwrap()
        .unwrap();

    // The production worker reaches this transaction only after the
    // domain and durable seed cleanup. ON DELETE SET NULL creates the
    // small crash window between this commit and finish_job.
    database.delete_vm(&vm.id).unwrap();
    let interrupted = database.get_job(&job.id).unwrap().unwrap();
    assert_eq!(interrupted.status, JobStatus::Running);
    assert!(interrupted.vm_id.is_none());

    let (requeued, failed) = database
        .recover_interrupted_jobs(unix_timestamp() + 1)
        .unwrap();
    assert_eq!((requeued, failed), (1, 0));
    let recovered = database.get_job(&job.id).unwrap().unwrap();
    assert_eq!(recovered.status, JobStatus::Queued);
    assert_eq!(recovered.max_attempts, 2);
    assert_eq!(
        recovered
            .payload
            .text_member("target_vm_id").as_deref(),
        Some(vm.id.as_str())
    );
}

#[test]
fn network_setting_and_default_dns_are_canonical_and_atomic() {
    let database = Db::open();
    let network = Document::from_value(object(vec![("default_bridge", Value::from("vexa0")), ("dns_servers", Value::Array(vec![]))]));
    let (_, dns) = database
        .set_network_setting_and_default_dns(
            &network,
            &["2001:0db8::1".into(), "2001:db8::1".into()],
            None,
        )
        .unwrap();
    assert_eq!(dns.len(), 1);
    assert_eq!(dns[0].address, "2001:db8::1");
    assert_eq!(
        database
            .get_setting("network")
            .unwrap()
            .unwrap()
            .value.member("dns_servers"), Some(Document::from_value(Value::from(vec![Value::from("2001:db8::1")])))
    );

    assert!(
        database
            .set_network_setting_and_default_dns(
                &network,
                &["9.9.9.9".into()],
                Some("missing-administrator"),
            )
            .is_err()
    );
    assert_eq!(
        database.dns_servers(None, None).unwrap()[0].address,
        "2001:db8::1"
    );
    assert_eq!(
        database
            .get_setting("network")
            .unwrap()
            .unwrap()
            .value.member("dns_servers"), Some(Document::from_value(Value::from(vec![Value::from("2001:db8::1")])))
    );
}

#[test]
fn reinstall_password_is_private_and_staged_until_success() {
    let database = Db::open();
    let vm = database.create_vm(&test_vm()).unwrap();
    database.set_vm_password_envelope(&vm.id, "old-envelope").unwrap();
    let request = NewJob {
        kind: "vm.reinstall".into(),
        vm_id: Some(vm.id.clone()),
        payload: Document::from_value(object(vec![("request", object(vec![("image", Value::from("test"))]))])),
        idempotency_key: Some("reinstall-once".into()),
        run_after: None,
        max_attempts: 1,
        actor_type: None,
        actor_id: None,
    };
    let mut contradictory = request.clone();
    contradictory.idempotency_key = None;
    contradictory.payload = Document::from_value(object(vec![("clear_password_after_success", Value::from(true))]));
    assert!(database
        .enqueue_reinstall_job(&contradictory, Some("must-not-be-staged"), VmState::Running,)
        .is_err());
    assert_eq!(database.get_vm(&vm.id).unwrap().unwrap().state, VmState::Creating);
    let job = database
        .enqueue_reinstall_job(&request, Some("new-envelope"), VmState::Running)
        .unwrap();
    assert_eq!(
        database.vm_password_envelope(&vm.id).unwrap().as_deref(),
        Some("old-envelope")
    );
    assert_eq!(
        job.payload
            .text_member(STAGED_PASSWORD_ENVELOPE_FIELD).as_deref(),
        Some("new-envelope")
    );
    assert!(payload_without_staged_password(&job.payload)
        .member(STAGED_PASSWORD_ENVELOPE_FIELD)
        .is_none());
    assert_eq!(
        database
            .enqueue_reinstall_job(&request, Some("different-retry-envelope"), VmState::Running,)
            .unwrap()
            .id,
        job.id
    );

    database
        .claim_next_job("test-worker", unix_timestamp())
        .unwrap()
        .unwrap();
    let failed = database
        .fail_job(&job.id, "provisioning failed", None, unix_timestamp())
        .unwrap();
    assert!(failed.payload.member(STAGED_PASSWORD_ENVELOPE_FIELD).is_none());
    assert_eq!(
        database.vm_password_envelope(&vm.id).unwrap().as_deref(),
        Some("old-envelope")
    );

    database.clear_vm_password(&vm.id).unwrap();
    assert!(database.vm_password_envelope(&vm.id).unwrap().is_none());
}

#[test]
fn reinstall_credential_commit_survives_a_later_job_failure() {
    let database = Db::open();
    let vm = database.create_vm(&test_vm()).unwrap();
    database.set_vm_password_envelope(&vm.id, "old-envelope").unwrap();
    let job = database
        .enqueue_reinstall_job(
            &NewJob {
                kind: "vm.reinstall".into(),
                vm_id: Some(vm.id.clone()),
                payload: Document::from_value(object(vec![("request", object(vec![("image", Value::from("test"))]))])),
                idempotency_key: None,
                run_after: None,
                max_attempts: 1,
                actor_type: None,
                actor_id: None,
            },
            Some("replacement-envelope"),
            VmState::Running,
        )
        .unwrap();
    database
        .claim_next_job("reinstall-worker", unix_timestamp())
        .unwrap()
        .unwrap();

    // This is the point immediately after the destructive hypervisor call.
    // Repeating it is harmless if worker bookkeeping is retried.
    database
        .commit_reinstall_password_after_hypervisor(&job.id)
        .unwrap();
    database
        .commit_reinstall_password_after_hypervisor(&job.id)
        .unwrap();
    assert_eq!(
        database.vm_password_envelope(&vm.id).unwrap().as_deref(),
        Some("replacement-envelope")
    );

    // Simulate a firewall/start/traffic post-step failure. Terminal job
    // cleanup removes its private staged field, not the now-authoritative
    // VM credential.
    let failed = database
        .fail_job(
            &job.id,
            "post-provisioning policy failed",
            None,
            unix_timestamp(),
        )
        .unwrap();
    assert!(failed.payload.member(STAGED_PASSWORD_ENVELOPE_FIELD).is_none());
    assert_eq!(
        database.vm_password_envelope(&vm.id).unwrap().as_deref(),
        Some("replacement-envelope")
    );
}

#[test]
fn manual_reinstall_credential_clear_survives_a_later_job_failure() {
    let database = Db::open();
    let vm = database.create_vm(&test_vm()).unwrap();
    database.set_vm_password_envelope(&vm.id, "old-envelope").unwrap();
    let job = database
        .enqueue_reinstall_job(
            &NewJob {
                kind: "vm.reinstall".into(),
                vm_id: Some(vm.id.clone()),
                payload: Document::from_value(object(vec![("request", object(vec![("image", Value::from("manual-installer"))])), ("clear_password_after_success", Value::from(true))])),
                idempotency_key: None,
                run_after: None,
                max_attempts: 1,
                actor_type: None,
                actor_id: None,
            },
            None,
            VmState::Stopped,
        )
        .unwrap();
    database
        .claim_next_job("manual-reinstall-worker", unix_timestamp())
        .unwrap()
        .unwrap();
    database
        .commit_reinstall_password_after_hypervisor(&job.id)
        .unwrap();
    database
        .fail_job(
            &job.id,
            "post-provisioning inventory failed",
            None,
            unix_timestamp(),
        )
        .unwrap();
    assert!(database.vm_password_envelope(&vm.id).unwrap().is_none());
}

#[test]
fn cancelling_queued_jobs_repairs_provisional_resource_state() {
    let database = Db::open();
    let provisional = database.create_vm(&test_vm()).unwrap();
    for (address, prefix_length) in [("203.0.113.45", 24), ("2001:db8::45", 64)] {
        database
            .upsert_ip_address(&NewIpAddress {
                pool_id: None,
                address: address.into(),
                prefix_length,
                scope: IpScope::Public,
                status: IpStatus::Free,
                gateway: None,
                reverse_dns: None,
                metadata: Document::from_value(object(vec![])),
            })
            .unwrap();
        database.assign_ip(address, &provisional.id, true).unwrap();
    }
    let create = database
        .enqueue_job(&NewJob {
            kind: "vm.create".into(),
            vm_id: Some(provisional.id.clone()),
            payload: Document::from_value(object(vec![])),
            idempotency_key: None,
            run_after: None,
            max_attempts: 1,
            actor_type: None,
            actor_id: None,
        })
        .unwrap();
    database.cancel_job(&create.id, unix_timestamp()).unwrap();
    assert_eq!(
        database.get_job(&create.id).unwrap().unwrap().status,
        JobStatus::Cancelled
    );
    assert!(database.get_vm(&provisional.id).unwrap().is_none());
    for address in ["203.0.113.45", "2001:db8::45"] {
        let record = database.get_ip_address(address).unwrap().unwrap();
        assert_eq!(record.status, IpStatus::Free);
        assert!(record.assigned_vm_id.is_none());
        assert!(!record.primary_for_vm);
    }

    let mut spec = test_vm();
    spec.name = "vm-two".into();
    spec.hostname = "vm-two.example.test".into();
    spec.tap_name = Some("tap-vm-two".into());
    spec.mac_address = Some("52:54:00:00:00:02".into());
    let vm = database.create_vm(&spec).unwrap();
    database.set_vm_password_envelope(&vm.id, "old-envelope").unwrap();
    let reinstall = database
        .enqueue_reinstall_job(
            &NewJob {
                kind: "vm.reinstall".into(),
                vm_id: Some(vm.id.clone()),
                payload: Document::from_value(object(vec![])),
                idempotency_key: None,
                run_after: None,
                max_attempts: 1,
                actor_type: None,
                actor_id: None,
            },
            Some("new-envelope"),
            VmState::Running,
        )
        .unwrap();
    database.cancel_job(&reinstall.id, unix_timestamp()).unwrap();
    assert_eq!(database.get_vm(&vm.id).unwrap().unwrap().state, VmState::Unknown);
    assert_eq!(
        database.vm_password_envelope(&vm.id).unwrap().as_deref(),
        Some("old-envelope")
    );
    assert!(database
        .get_job(&reinstall.id)
        .unwrap()
        .unwrap()
        .payload
        .member(STAGED_PASSWORD_ENVELOPE_FIELD)
        .is_none());

    let snapshot = database
        .create_snapshot(&vm.id, "cancel-me", "", false, &Document::from_value(object(vec![])))
        .unwrap();
    let snapshot_job = database
        .enqueue_job(&NewJob {
            kind: "vm.snapshot.create".into(),
            vm_id: Some(vm.id.clone()),
            payload: Document::from_value(object(vec![("snapshot_id", Value::from(snapshot.id.clone()))])),
            idempotency_key: None,
            run_after: None,
            max_attempts: 1,
            actor_type: None,
            actor_id: None,
        })
        .unwrap();
    database.cancel_job(&snapshot_job.id, unix_timestamp()).unwrap();
    let snapshot = database
        .list_snapshots(&vm.id)
        .unwrap()
        .into_iter()
        .find(|item| item.id == snapshot.id)
        .unwrap();
    assert_eq!(snapshot.state, SnapshotState::Error);
    assert_eq!(
        snapshot.metadata.text_member("error").as_deref(),
        Some("job cancelled")
    );
}

#[test]
fn network_security_is_inert_until_explicitly_enabled() {
    let database = Db::open();
    let vm = database.create_vm(&test_vm()).unwrap();
    let profile = database.vm_network_security(&vm.id).unwrap().unwrap();
    assert!(!profile.firewall_enabled);
    assert!(!profile.ddos_enabled);
    assert_eq!(profile.syn_rate_limit_pps, Some(5_000));
    assert_eq!(profile.udp_rate_limit_pps, Some(25_000));
    assert_eq!(profile.icmp_rate_limit_pps, Some(1_000));
    assert_eq!(profile.new_connection_limit_pps, Some(10_000));
    assert!(!profile.drop_invalid_packets);
    assert_eq!(profile.revision, 0);
    assert!(!database.hypervisor_network_security().unwrap().bcp38_enabled);

    let rule = database
        .create_vm_firewall_rule(
            &vm.id,
            &NewVmFirewallRule {
                priority: 100,
                direction: FirewallDirection::Ingress,
                action: FirewallAction::Drop,
                protocol: FirewallProtocol::Tcp,
                source_cidr: Some("192.0.2.9/24".into()),
                destination_cidr: None,
                source_ports: vec![],
                destination_ports: vec![PortRange::single(22)],
                log: true,
                enabled: false,
                description: "SSH guard".into(),
            },
        )
        .unwrap();
    assert!(!rule.enabled);
    assert_eq!(rule.owner_type, "admin");
    assert_eq!(rule.owner_id, None);
    assert_eq!(rule.source_cidr.as_deref(), Some("192.0.2.0/24"));
    let customer_rule = database
        .create_vm_firewall_rule_owned(
            &vm.id,
            &NewVmFirewallRule {
                priority: 200,
                direction: FirewallDirection::Ingress,
                action: FirewallAction::Drop,
                protocol: FirewallProtocol::Udp,
                source_cidr: None,
                destination_cidr: None,
                source_ports: vec![],
                destination_ports: vec![PortRange::single(53)],
                log: false,
                enabled: false,
                description: "Customer DNS block".into(),
            },
            "customer_token",
            Some("status-token-id"),
        )
        .unwrap();
    assert_eq!(customer_rule.owner_type, "customer_token");
    assert_eq!(customer_rule.owner_id.as_deref(), Some("status-token-id"));
    assert!(database
        .list_vm_firewall_rules(&vm.id)
        .unwrap()
        .iter()
        .all(|item| !item.enabled));

    database
        .patch_vm_firewall_rule(
            &vm.id,
            &rule.id,
            &VmFirewallRulePatch {
                enabled: Some(true),
                ..VmFirewallRulePatch::default()
            },
        )
        .unwrap();
    let profile = database
        .patch_vm_network_security(
            &vm.id,
            &VmNetworkSecurityPatch {
                firewall_enabled: Some(true),
                ddos_enabled: Some(true),
                syn_rate_limit_pps: Some(Some(2_000)),
                drop_invalid_packets: Some(true),
                ..VmNetworkSecurityPatch::default()
            },
        )
        .unwrap();
    let rules = database.list_vm_firewall_rules(&vm.id).unwrap();
    assert_eq!(rules.iter().filter(|item| item.enabled).count(), 1);
    assert!(profile.firewall_enabled && profile.ddos_enabled);
    assert_eq!(profile.syn_rate_limit_pps, Some(2_000));
    assert!(database
        .mark_vm_network_security_applied(&vm.id, profile.revision, None)
        .unwrap()
        .last_error
        .is_none());

    let host = database
        .patch_hypervisor_network_security(
            &HypervisorNetworkSecurityPatch {
                bcp38_enabled: Some(true),
            },
            Some("admin-id"),
        )
        .unwrap();
    assert!(host.bcp38_enabled);
    assert_eq!(host.revision, 1);
}

#[test]
fn firewall_rule_ownership_and_vm_scope_survive_mutation() {
    let database = Db::open();
    let first = database.create_vm(&test_vm()).unwrap();
    let mut second_spec = test_vm();
    second_spec.name = "vm-two".into();
    second_spec.hostname = "vm-two.example.test".into();
    second_spec.tap_name = Some("tap-vm-two".into());
    second_spec.mac_address = Some("52:54:00:00:00:02".into());
    let second = database.create_vm(&second_spec).unwrap();
    let rule_spec = NewVmFirewallRule {
        priority: 100,
        direction: FirewallDirection::Ingress,
        action: FirewallAction::Drop,
        protocol: FirewallProtocol::Tcp,
        source_cidr: None,
        destination_cidr: None,
        source_ports: vec![],
        destination_ports: vec![PortRange::single(22)],
        log: false,
        enabled: false,
        description: "Customer SSH block".into(),
    };

    assert!(database
        .create_vm_firewall_rule_owned(
            &first.id,
            &rule_spec,
            "customer_token",
            None,
        )
        .is_err());
    assert!(database
        .create_vm_firewall_rule_owned(&first.id, &rule_spec, "untrusted", Some("actor"))
        .is_err());

    let rule = database
        .create_vm_firewall_rule_owned(
            &first.id,
            &rule_spec,
            "customer_token",
            Some("status-token-id"),
        )
        .unwrap();
    assert!(database
        .get_vm_firewall_rule(&second.id, &rule.id)
        .unwrap()
        .is_none());
    assert!(matches!(
        database.patch_vm_firewall_rule(
            &second.id,
            &rule.id,
            &VmFirewallRulePatch {
                enabled: Some(true),
                ..VmFirewallRulePatch::default()
            },
        ),
        Err(AppError::NotFound(_))
    ));
    assert!(matches!(
        database.delete_vm_firewall_rule(&second.id, &rule.id),
        Err(AppError::NotFound(_))
    ));

    let patched = database
        .patch_vm_firewall_rule(
            &first.id,
            &rule.id,
            &VmFirewallRulePatch {
                enabled: Some(true),
                description: Some("Updated customer SSH block".into()),
                ..VmFirewallRulePatch::default()
            },
        )
        .unwrap();
    assert!(patched.enabled);
    assert_eq!(patched.owner_type, "customer_token");
    assert_eq!(patched.owner_id.as_deref(), Some("status-token-id"));
}

#[test]
fn deleting_a_vm_releases_assigned_dual_stack_addresses_and_preserves_history() {
    let database = Db::open();
    let vm = database.create_vm(&test_vm()).unwrap();
    for (address, prefix_length) in [("203.0.113.25", 24), ("2001:db8::25", 64)] {
        database
            .upsert_ip_address(&NewIpAddress {
                pool_id: None,
                address: address.into(),
                prefix_length,
                scope: IpScope::Public,
                status: IpStatus::Free,
                gateway: None,
                reverse_dns: None,
                metadata: Document::from_value(object(vec![])),
            })
            .unwrap();
        database.assign_ip(address, &vm.id, true).unwrap();
    }
    let abuse = database
        .record_ip_abuse(&NewIpAbuseRecord {
            address: "203.0.113.25".into(),
            vm_id: Some(vm.id.clone()),
            category: "spam".into(),
            severity: 4,
            summary: "provider complaint".into(),
            reporter: Some("example-datacenter".into()),
            provider_reference: Some("CASE-25".into()),
            observed_at: None,
            metadata: Document::from_value(object(vec![])),
        })
        .unwrap();
    database
        .append_audit(&NewAuditEvent {
            actor_type: "admin".into(),
            actor_id: Some("admin-1".into()),
            action: "vm.delete.request".into(),
            resource_type: "vm".into(),
            resource_id: Some(vm.id.clone()),
            request_id: None,
            source_ip: None,
            user_agent: None,
            success: true,
            details: Document::from_value(object(vec![])),
        })
        .unwrap();


    database.delete_vm(&vm.id).unwrap();

    assert!(database.get_vm(&vm.id).unwrap().is_none());
    for address in ["203.0.113.25", "2001:db8::25"] {
        let record = database.get_ip_address(address).unwrap().unwrap();
        assert_eq!(record.status, IpStatus::Free);
        assert!(record.assigned_vm_id.is_none());
        assert!(!record.primary_for_vm);
    }
    let abuse = database.get_ip_abuse_record(&abuse.id).unwrap().unwrap();
    assert!(abuse.vm_id.is_none());
    assert_eq!(abuse.address, "203.0.113.25");
    let events = database
        .list_audit(None, Some("vm"), Some(&vm.id), 10)
        .unwrap();
    assert_eq!(events.len(), 1);
    assert_eq!(events[0].action, "vm.delete.request");
}

#[test]
fn blacklisted_addresses_cannot_be_newly_assigned() {
    let database = Db::open();
    let vm = database.create_vm(&test_vm()).unwrap();
    database
        .upsert_ip_address(&NewIpAddress {
            pool_id: None,
            address: "203.0.113.25".into(),
            prefix_length: 24,
            scope: IpScope::Public,
            status: IpStatus::Free,
            gateway: Some("203.0.113.1".into()),
            reverse_dns: None,
            metadata: Document::from_value(object(vec![])),
        })
        .unwrap();
    let entry = database
        .create_ip_blacklist_entry(&NewIpBlacklistEntry {
            cidr: "203.0.113.16/28".into(),
            reason: "datacenter abuse hold".into(),
            source: "provider".into(),
            enabled: true,
            expires_at: None,
            created_by: Some("admin-id".into()),
            metadata: Document::from_value(object(vec![("ticket", Value::from("DC-1"))])),
        })
        .unwrap();
    assert!(database
        .ip_is_blacklisted("203.0.113.25", unix_timestamp())
        .unwrap());
    assert!(matches!(
        database.assign_ip("203.0.113.25", &vm.id, true),
        Err(AppError::Conflict(_))
    ));

    database
        .patch_ip_blacklist_entry(
            &entry.id,
            &IpBlacklistPatch {
                enabled: Some(false),
                ..IpBlacklistPatch::default()
            },
        )
        .unwrap();
    assert!(!database
        .ip_is_blacklisted("203.0.113.25", unix_timestamp())
        .unwrap());
    assert_eq!(
        database
            .assign_ip("203.0.113.25", &vm.id, true)
            .unwrap()
            .assigned_vm_id
            .as_deref(),
        Some(vm.id.as_str())
    );
}

#[test]
fn disabled_ip_pools_block_new_allocations_but_preserve_existing_ownership() {
    let database = Db::open();
    let vm = database.create_vm(&test_vm()).unwrap();
    let pool = database
        .create_ip_pool(&NewIpPool {
            name: "Imported routed range".into(),
            cidr: "203.0.113.0/29".into(),
            scope: IpScope::Public,
            gateway: Some("203.0.113.1".into()),
            bridge: None,
            vlan_id: None,
            mtu: 1500,
            enabled: false,
        })
        .unwrap();
    database
        .upsert_ip_address(&NewIpAddress {
            pool_id: Some(pool.id.clone()),
            address: "203.0.113.2".into(),
            prefix_length: 32,
            scope: IpScope::Public,
            status: IpStatus::Free,
            gateway: None,
            reverse_dns: None,
            metadata: Document::from_value(object(vec![("topology", Value::from("legacy-routed"))])),
        })
        .unwrap();

    assert!(matches!(
        database.assign_ip("203.0.113.2", &vm.id, true),
        Err(AppError::Conflict(message)) if message.contains("disabled pool")
    ));

    database
        .patch_ip_pool(
            &pool.id,
            &IpPoolPatch {
                enabled: Some(true),
                ..IpPoolPatch::default()
            },
        )
        .unwrap();
    database.assign_ip("203.0.113.2", &vm.id, true).unwrap();
    database
        .patch_ip_pool(
            &pool.id,
            &IpPoolPatch {
                enabled: Some(false),
                ..IpPoolPatch::default()
            },
        )
        .unwrap();

    let existing = database.assign_ip("203.0.113.2", &vm.id, false).unwrap();
    assert_eq!(existing.assigned_vm_id.as_deref(), Some(vm.id.as_str()));
    assert!(!existing.primary_for_vm);
}

#[test]
fn detected_host_refresh_preserves_imported_main_address_details() {
    let database = Db::open();
    let pool = database
        .create_ip_pool(&NewIpPool {
            name: "Imported routed range".into(),
            cidr: "203.0.113.0/24".into(),
            scope: IpScope::Public,
            gateway: Some("203.0.113.1".into()),
            bridge: None,
            vlan_id: None,
            mtu: 1500,
            enabled: false,
        })
        .unwrap();
    database
        .upsert_ip_address(&NewIpAddress {
            pool_id: Some(pool.id.clone()),
            address: "203.0.113.10".into(),
            prefix_length: 24,
            scope: IpScope::Public,
            status: IpStatus::Main,
            gateway: Some("203.0.113.1".into()),
            reverse_dns: Some("node.example.test".into()),
            metadata: Document::from_value(object(vec![("legacy_import", object(vec![("source", Value::from("legacy-controller")), ("preserved_status", Value::from("main"))])), ("operator_note", Value::from("keep"))])),
        })
        .unwrap();

    let refreshed = database
        .upsert_detected_host_address(&NewIpAddress {
            pool_id: None,
            address: "203.0.113.10".into(),
            prefix_length: 24,
            scope: IpScope::Public,
            status: IpStatus::Main,
            gateway: None,
            reverse_dns: None,
            metadata: Document::from_value(object(vec![("detected_host_address", Value::from(true)), ("interface", Value::from("eno49"))])),
        })
        .unwrap();

    assert_eq!(refreshed.status, IpStatus::Main);
    assert_eq!(refreshed.pool_id.as_deref(), Some(pool.id.as_str()));
    assert_eq!(refreshed.gateway.as_deref(), Some("203.0.113.1"));
    assert_eq!(refreshed.reverse_dns.as_deref(), Some("node.example.test"));
    assert_eq!(
        refreshed
            .metadata
            .member("legacy_import")
            .unwrap()
            .text_member("source")
            .as_deref(),
        Some("legacy-controller")
    );
    assert_eq!(refreshed.metadata.text_member("operator_note").as_deref(), Some("keep"));
    assert_eq!(refreshed.metadata.truth_member("detected_host_address"), Some(true));
    assert_eq!(refreshed.metadata.text_member("interface").as_deref(), Some("eno49"));
    assert!(!database.get_ip_pool(&pool.id).unwrap().unwrap().enabled);
}

#[test]
fn ip_abuse_records_retain_provider_evidence_and_resolution() {
    let database = Db::open();
    let vm = database.create_vm(&test_vm()).unwrap();
    let record = database
        .record_ip_abuse(&NewIpAbuseRecord {
            address: "2001:0db8::44".into(),
            vm_id: Some(vm.id.clone()),
            category: "port_scan".into(),
            severity: 7,
            summary: "outbound scan complaint".into(),
            reporter: Some("example-datacenter".into()),
            provider_reference: Some("ABUSE-42".into()),
            observed_at: None,
            metadata: Document::from_value(object(vec![("evidence_sha256", Value::from("abc"))])),
        })
        .unwrap();
    assert_eq!(record.address, "2001:db8::44");
    assert_eq!(
        database
            .list_ip_abuse_records(Some("2001:db8::44"), None, true, 50)
            .unwrap()
            .len(),
        1
    );
    let resolved = database
        .resolve_ip_abuse_record(&record.id, Some("admin-id"), "customer remediated")
        .unwrap();
    assert!(resolved.resolved_at.is_some());
    assert!(database
        .list_ip_abuse_records(None, Some(&vm.id), true, 50)
        .unwrap()
        .is_empty());
}
