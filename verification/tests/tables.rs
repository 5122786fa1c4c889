//! The rules that the controller's tables keep.

use vexa_vm::db::metrics::metric_bucket_seconds;
use vexa_vm::db::rows::{
    AdminRole, FirewallAction, FirewallDirection, FirewallProtocol, GuestToolsPlatform,
    GuestToolsProvisioner, GuestToolsStatus, HostInventory, HypervisorNetworkSecurityPatch,
    IpBlacklistPatch, IpPoolPatch, IpScope, IpStatus, IsoImage, JobStatus, NewAuditEvent,
    NewIpAbuseRecord, NewIpAddress, NewIpBlacklistEntry, NewIpPool, NewJob, NewVm,
    NewVmFirewallRule, PortRange, SnapshotState, VmFirewallRulePatch, VmNetworkSecurityPatch,
    VmPatch, VmState,
};
use vexa_vm::db::store::{
    bounded_limit, checked_i64, optional_i64, pending_migrations, require_changed,
    validate_guest_tools_rotation_generation, validate_guest_tools_version,
    validate_non_empty, Database,
};
use vexa_vm::error::{conflict, internal, not_found, validation, AppError};
use vexa_vm::ids::new_id;
use vexa_vm::json::Document;

const NOW: i64 = 1_000;
const FULL: u64 = 0x4059_0000_0000_0000;

fn doc(text: &str) -> Document {
    Document::parse(text.as_bytes()).unwrap()
}

fn spec(name: &str) -> NewVm {
    NewVm {
        name: name.to_owned(),
        hostname: format!("{name}.example.test"),
        description: String::new(),
        os_family: "linux".to_owned(),
        iso_id: None,
        vcpus: 2,
        memory_mib: 2048,
        disk_gib: 20,
        disk_format: "qcow2".to_owned(),
        firmware: "bios".to_owned(),
        machine_type: None,
        bridge: None,
        tap_name: None,
        mac_address: None,
        network_limit_mbps: None,
        traffic_limit_bytes: None,
        root_username: "root".to_owned(),
        guest_agent: true,
        autostart: false,
        timezone: None,
        metadata: Document::object(),
    }
}

fn with_vm(id: &str) -> Database {
    let mut db = Database::open_in_memory(NOW);
    db.create_vm(&spec(id), id, NOW).unwrap();
    db
}

fn job(kind: &str, vm_id: Option<&str>, payload: &str) -> NewJob {
    NewJob {
        kind: kind.to_owned(),
        vm_id: vm_id.map(str::to_owned),
        payload: doc(payload),
        idempotency_key: None,
        run_after: None,
        max_attempts: 1,
        actor_type: None,
        actor_id: None,
    }
}

#[test]
fn schema_versions_are_upgraded_in_order() {
    assert_eq!(pending_migrations(9), Ok(vec![]));
    assert_eq!(pending_migrations(0).unwrap(), vec![1, 2, 3, 4, 5, 6, 7, 8, 9]);
    assert!(pending_migrations(10).is_err());
}

#[test]
fn small_rules_are_exact() {
    assert_eq!(validate_non_empty("x", "  "), Err(validation("x cannot be empty")));
    assert_eq!(validate_non_empty("x", "y"), Ok(()));
    assert_eq!(checked_i64(7, "n"), Ok(7));
    assert_eq!(
        checked_i64(u64::MAX, "n"),
        Err(validation("n exceeds SQLite integer range"))
    );
    assert_eq!(optional_i64(None, "n"), Ok(None));
    assert_eq!(optional_i64(Some(3), "n"), Ok(Some(3)));
    assert_eq!(bounded_limit(0, 1000), 100);
    assert_eq!(bounded_limit(0, 50), 50);
    assert_eq!(bounded_limit(5, 50), 5);
    assert_eq!(bounded_limit(51, 50), 50);
    assert_eq!(require_changed(0, "VM"), Err(not_found("VM")));
    assert_eq!(require_changed(1, "VM"), Ok(()));
    assert!(validate_guest_tools_version("v", "0.1.0").is_ok());
    assert!(validate_guest_tools_version("v", &"1".repeat(65)).is_err());
    assert!(validate_guest_tools_rotation_generation(&new_id()).is_ok());
    assert_eq!(
        validate_guest_tools_rotation_generation("x"),
        Err(validation("guest-tools rotation generation is invalid"))
    );
    assert_eq!(
        validate_guest_tools_rotation_generation(&new_id().to_uppercase()),
        Err(validation("guest-tools rotation generation is not canonical"))
    );
}

#[test]
fn a_super_administrator_remains() {
    let mut db = Database::open_in_memory(NOW);
    let root = db.bootstrap_admin(" root ", "hash", "a1", NOW).unwrap();
    assert_eq!(root.username, "root");
    assert_eq!(db.bootstrap_admin("other", "hash", "a2", NOW).unwrap().id, "a1");
    assert_eq!(
        db.update_admin_access("a1", Some(AdminRole::Admin), None, NOW),
        Err(conflict("at least one enabled super administrator is required"))
    );
    assert_eq!(
        db.delete_admin("a1"),
        Err(conflict("the last enabled super administrator cannot be deleted"))
    );
    db.create_admin("second", "hash", AdminRole::SuperAdmin, "a2", NOW).unwrap();
    db.update_admin_access("a1", Some(AdminRole::Admin), None, NOW).unwrap();
    assert_eq!(db.admin_by_id("a1").unwrap().unwrap().role, AdminRole::Admin);
    assert!(matches!(
        db.create_admin("SECOND", "hash", AdminRole::Admin, "a3", NOW),
        Err(AppError::Database(text)) if text == "UNIQUE constraint failed: admins.username"
    ));
    assert_eq!(db.admin_auth_by_username("Second").unwrap().unwrap().admin.id, "a2");
    assert_eq!(db.list_admins().unwrap().len(), 2);
    db.update_admin_credentials("a2", Some("third"), None, NOW).unwrap();
    assert!(db.admin_auth_by_username("second").unwrap().is_none());
    db.record_admin_login("a2", 5).unwrap();
    assert_eq!(db.admin_by_id("a2").unwrap().unwrap().last_login_at, Some(5));
    assert_eq!(db.set_admin_enabled("nobody", true, NOW), Err(not_found("admin")));
}

#[test]
fn only_live_sessions_are_let_in() {
    let mut db = Database::open_in_memory(NOW);
    db.bootstrap_admin("root", "hash", "a1", NOW).unwrap();
    let (token, csrf) = ([1; 32], [2; 32]);
    assert_eq!(
        db.create_admin_session("a1", &token, &csrf, NOW, None, None, NOW),
        Err(validation("session expiry must be in the future"))
    );
    db.create_admin_session("a1", &token, &csrf, NOW + 10, None, Some("ua"), NOW).unwrap();
    assert!(db.authenticate_admin_session(&token, NOW + 9).unwrap().is_some());
    assert!(db.authenticate_admin_session(&token, NOW + 10).unwrap().is_none());
    db.set_admin_enabled("a1", false, NOW).unwrap();
    assert!(db.authenticate_admin_session(&token, NOW).unwrap().is_none());
    assert_eq!(db.prune_expired_sessions(NOW + 11), Ok(1));
    assert_eq!(db.revoke_admin_session(&token), Ok(false));
    assert_eq!(db.revoke_admin_sessions("a1"), Ok(0));
}

#[test]
fn a_revoked_key_stays_out() {
    let mut db = Database::open_in_memory(NOW);
    let none = vec![];
    let allow = vec!["192.0.2.9/24".to_owned()];
    let hash = [3; 32];
    let key = db
        .create_api_key("ci", &hash, "vx", &none, &allow, None, Some(NOW + 10), "k1", NOW)
        .unwrap();
    assert_eq!(key.name, "ci");
    assert!(db.authenticate_api_key(&hash, NOW).unwrap().is_some());
    assert!(db.authenticate_api_key(&hash, NOW + 10).unwrap().is_none());
    assert!(db.authenticate_api_key(&[4; 32], NOW).unwrap().is_none());
    db.revoke_api_key("k1", NOW).unwrap();
    assert!(db.authenticate_api_key(&hash, NOW).unwrap().is_none());
    assert_eq!(db.revoke_api_key("k2", NOW), Err(not_found("API key")));
    assert_eq!(db.list_api_keys().unwrap().len(), 1);
    let bad = vec!["nonsense".to_owned()];
    assert!(db.create_api_key("x", &[5; 32], "p", &none, &bad, None, None, "k2", NOW).is_err());
}

#[test]
fn machines_are_checked_and_found_by_name() {
    let mut db = with_vm("one");
    assert_eq!(db.get_vm("ONE").unwrap().unwrap().id, "one");
    assert!(matches!(
        db.create_vm(&spec("One"), "two", NOW),
        Err(AppError::Database(_))
    ));
    for (change, text) in [
        (NewVm { vcpus: 0, ..spec("x") }, "vcpus must be greater than zero"),
        (NewVm { memory_mib: 255, ..spec("x") }, "memory_mib must be at least 256"),
        (NewVm { disk_gib: 0, ..spec("x") }, "disk_gib must be greater than zero"),
        (NewVm { firmware: "efi".to_owned(), ..spec("x") }, "firmware must be bios or uefi"),
        (
            NewVm { machine_type: Some("pc".to_owned()), ..spec("x") },
            "machine_type must be q35 or i440fx",
        ),
    ] {
        assert_eq!(db.create_vm(&change, "x", NOW), Err(validation(text)));
    }
    let shrink = VmPatch { disk_gib: Some(10), ..VmPatch::default() };
    assert_eq!(db.patch_vm("one", &shrink, NOW), Err(validation("VM disks cannot be shrunk")));
    let grow = VmPatch {
        disk_gib: Some(30),
        timezone: Some(Some("UTC".to_owned())),
        ..VmPatch::default()
    };
    let vm = db.patch_vm("one", &grow, NOW + 1).unwrap();
    assert_eq!((vm.disk_gib, vm.updated_at), (30, NOW + 1));
    assert_eq!(vm.timezone.as_deref(), Some("UTC"));
    db.set_vm_state("one", VmState::Running, None, Some("uuid"), Some(3), NOW).unwrap();
    let vm = db.get_vm("one").unwrap().unwrap();
    assert_eq!((vm.state, vm.vnc_display), (VmState::Running, Some(3)));
    assert_eq!(db.reconcile_vm_name("one", "uno", NOW).unwrap().name, "uno");
    assert_eq!(db.list_vms().unwrap().len(), 1);
}

#[test]
fn passwords_are_kept_sealed() {
    let mut db = Database::open_in_memory(NOW);
    let sealed = Ok("envelope".to_owned());
    db.create_vm_with_password(&spec("one"), "secret", sealed, "one", NOW).unwrap();
    assert_eq!(db.vm_password_envelope("one").unwrap().as_deref(), Some("envelope"));
    assert_eq!(
        db.set_vm_password("one", "new", Err(internal("no key")), NOW),
        Err(internal("no key"))
    );
    db.set_vm_password("one", "new", Ok("second".to_owned()), NOW).unwrap();
    assert_eq!(db.vm_password_envelope("one").unwrap().as_deref(), Some("second"));
    assert!(db.set_vm_password_envelope("one", " ", NOW).is_err());
    assert_eq!(db.clear_vm_password("two", NOW), Err(not_found("VM")));
}

#[test]
fn tools_are_retired_after_a_manual_reinstall() {
    let mut db = with_vm("one");
    let configure = |db: &mut Database| {
        db.configure_vm_guest_tools(
            "one",
            GuestToolsPlatform::Linux,
            GuestToolsProvisioner::CloudInit,
            "secret",
            "0.1.0",
            Ok("sealed".to_owned()),
            NOW,
        )
    };
    configure(&mut db).unwrap();
    let reported = db
        .update_vm_guest_tools_status(
            "one",
            GuestToolsStatus::Ready,
            Some("0.1.0"),
            None,
            true,
            NOW + 5,
        )
        .unwrap();
    assert_eq!(reported.last_seen_at, Some(NOW + 5));
    assert_eq!(db.retire_vm_guest_tools_after_reinstall("one"), Ok(true));
    assert_eq!(db.retire_vm_guest_tools_after_reinstall("one"), Ok(false));
    assert_eq!(db.vm_guest_tools_secret_envelope("one"), Ok(None));
}

fn pool(name: &str, cidr: &str) -> NewIpPool {
    NewIpPool {
        name: name.to_owned(),
        cidr: cidr.to_owned(),
        scope: IpScope::Public,
        gateway: None,
        bridge: None,
        vlan_id: None,
        mtu: 1500,
        enabled: true,
    }
}

fn address(text: &str, pool_id: Option<&str>) -> NewIpAddress {
    NewIpAddress {
        pool_id: pool_id.map(str::to_owned),
        address: text.to_owned(),
        prefix_length: 32,
        scope: IpScope::Public,
        status: IpStatus::Free,
        gateway: None,
        reverse_dns: None,
        metadata: Document::object(),
    }
}

#[test]
fn pools_do_not_overlap() {
    let mut db = with_vm("one");
    let first = db.create_ip_pool(&pool("a", "203.0.113.9/24"), "p1", NOW).unwrap();
    assert_eq!(first.cidr, "203.0.113.9/24");
    assert_eq!(
        db.create_ip_pool(&pool("b", "203.0.113.128/25"), "p2", NOW),
        Err(conflict("IP pool 203.0.113.9/24 overlaps an existing range"))
    );
    assert_eq!(
        db.create_ip_pool(&pool("b", "x"), "p2", NOW),
        Err(validation("IP pool CIDR is invalid"))
    );
    let outside = NewIpPool { gateway: Some("10.0.0.1".to_owned()), ..pool("b", "10.1.0.0/16") };
    assert_eq!(
        db.create_ip_pool(&outside, "p2", NOW),
        Err(validation("IP pool gateway must be inside its CIDR"))
    );
    let small = IpPoolPatch { mtu: Some(100), ..IpPoolPatch::default() };
    assert_eq!(
        db.patch_ip_pool("p1", &small, NOW),
        Err(validation("MTU must be between 576 and 9216"))
    );
    db.upsert_ip_address(&address("203.0.113.5", Some("p1")), "i1", NOW).unwrap();
    assert_eq!(
        db.delete_ip_pool("p1"),
        Err(conflict("remove the pool's explicit addresses before deleting it"))
    );
    db.assign_ip("203.0.113.5", "one", true, NOW).unwrap();
    assert_eq!(
        db.delete_ip_pool_with_unassigned_addresses("p1"),
        Err(conflict("pool contains an assigned or host-owned address"))
    );
    db.release_ip("203.0.113.5", NOW).unwrap();
    db.delete_ip_pool_with_unassigned_addresses("p1").unwrap();
    assert!(db.list_ip_pools().unwrap().is_empty());
    assert!(db.get_ip_address("203.0.113.5").unwrap().is_none());
}

#[test]
fn use_goes_with_assignment() {
    let mut db = with_vm("one");
    db.upsert_ip_address(&address("203.0.113.5", None), "i1", NOW).unwrap();
    db.upsert_ip_address(&address("203.0.113.6", None), "i2", NOW).unwrap();
    let taken = db.assign_ip("203.0.113.5", "one", true, NOW).unwrap();
    assert_eq!((taken.status, taken.primary_for_vm), (IpStatus::Used, true));
    db.assign_ip("203.0.113.6", "one", true, NOW).unwrap();
    let primaries: Vec<String> = db
        .vm_ip_addresses("one")
        .unwrap()
        .into_iter()
        .filter(|item| item.primary_for_vm)
        .map(|item| item.address)
        .collect();
    assert_eq!(primaries, vec!["203.0.113.6"]);
    assert_eq!(
        db.set_ip_status("203.0.113.5", IpStatus::Used, NOW),
        Err(validation("use assign_ip to mark an address as used"))
    );
    assert_eq!(
        db.delete_ip_address("i1"),
        Err(conflict("assigned and detected host addresses cannot be deleted"))
    );
    let free = db.release_ip("203.0.113.5", NOW).unwrap();
    assert_eq!((free.status, free.assigned_vm_id), (IpStatus::Free, None));
    assert_eq!(
        db.release_ip("203.0.113.5", NOW),
        Err(conflict("IP address 203.0.113.5 is not assigned"))
    );
    db.set_ip_status("203.0.113.5", IpStatus::Reserved, NOW).unwrap();
    assert!(db.assign_ip("203.0.113.5", "one", false, NOW).is_err());
    db.delete_ip_address("203.0.113.5").unwrap();
    assert_eq!(db.delete_ip_address("203.0.113.5"), Err(not_found("IP address")));
}

#[test]
fn the_host_address_is_protected() {
    let mut db = with_vm("one");
    let mut main = address("203.0.113.1", None);
    main.status = IpStatus::Main;
    main.metadata = doc(r#"{"detected_host_address": true}"#);
    db.upsert_detected_host_address(&main, "i1", NOW).unwrap();
    assert!(db.assign_ip("203.0.113.1", "one", true, NOW).is_err());
    assert_eq!(
        db.set_ip_status("203.0.113.1", IpStatus::Free, NOW),
        Err(conflict("the detected host address is protected"))
    );
    assert!(db.delete_ip_address("203.0.113.1").is_err());
    let mut unmarked = address("203.0.113.2", None);
    unmarked.status = IpStatus::Main;
    assert_eq!(
        db.upsert_detected_host_address(&unmarked, "i2", NOW),
        Err(validation("detected host address metadata is missing its detection marker"))
    );
}

#[test]
fn barred_networks_expire() {
    let mut db = with_vm("one");
    let entry = NewIpBlacklistEntry {
        cidr: "198.51.100.7/24".to_owned(),
        reason: "abuse".to_owned(),
        source: "provider".to_owned(),
        enabled: true,
        expires_at: Some(NOW + 10),
        created_by: None,
        metadata: Document::object(),
    };
    let stored = db.create_ip_blacklist_entry(&entry, "b1", NOW).unwrap();
    assert_eq!(stored.cidr, "198.51.100.0/24");
    assert_eq!(db.ip_is_blacklisted("198.51.100.200", NOW), Ok(true));
    assert_eq!(db.ip_is_blacklisted("198.51.100.200", NOW + 10), Ok(false));
    assert_eq!(db.list_ip_blacklist_entries(true, NOW + 10).unwrap().len(), 0);
    assert_eq!(db.list_ip_blacklist_entries(false, NOW + 10).unwrap().len(), 1);
    let early = IpBlacklistPatch { expires_at: Some(Some(NOW)), ..IpBlacklistPatch::default() };
    assert_eq!(
        db.patch_ip_blacklist_entry("b1", &early, NOW),
        Err(validation("blacklist expiration must be after its creation time"))
    );
    assert!(db.get_ip_blacklist_entry("198.51.100.0/24").unwrap().is_some());
    db.delete_ip_blacklist_entry("b1").unwrap();
    let complaint = NewIpAbuseRecord {
        address: "198.51.100.1".to_owned(),
        vm_id: None,
        category: "spam".to_owned(),
        severity: 11,
        summary: "s".to_owned(),
        reporter: None,
        provider_reference: None,
        observed_at: None,
        metadata: Document::object(),
    };
    assert_eq!(
        db.record_ip_abuse(&complaint, "c1", NOW),
        Err(validation("abuse severity must be between 1 and 10"))
    );
}

#[test]
fn settings_name_servers_and_images_are_stored() {
    let mut db = Database::open_in_memory(NOW);
    let servers = vec!["9.9.9.9".to_owned(), "2001:0db8::1".to_owned()];
    let stored = db.replace_dns_servers(None, None, &servers).unwrap();
    assert_eq!(stored[1].address, "2001:db8::1");
    assert_eq!(
        db.replace_dns_servers(Some("p"), Some("v"), &servers),
        Err(validation("DNS scope cannot be both a pool and a VM"))
    );
    db.set_setting("k", &doc("1"), false, None, NOW).unwrap();
    db.set_setting("s", &doc("2"), true, None, NOW).unwrap();
    assert_eq!(db.list_settings(false).unwrap().len(), 1);
    assert_eq!(db.list_settings(true).unwrap().len(), 2);
    assert_eq!(db.delete_setting("k"), Ok(true));
    assert_eq!(db.delete_setting("k"), Ok(false));
    let mut image = IsoImage {
        id: String::new(),
        slug: "debian".to_owned(),
        name: "Debian".to_owned(),
        version: "13".to_owned(),
        os_family: "linux".to_owned(),
        architecture: "x86_64".to_owned(),
        install_mode: "cloud".to_owned(),
        source_url: None,
        local_path: None,
        checksum_sha256: None,
        size_bytes: None,
        supports_guest_agent: true,
        supports_cloud_init: true,
        uefi: false,
        enabled: true,
        metadata: Document::object(),
        created_at: 0,
        updated_at: 0,
    };
    assert_eq!(
        db.upsert_iso(&image, "n1", NOW),
        Err(validation("an ISO needs a source URL or local path"))
    );
    image.local_path = Some("/iso".to_owned());
    let stored = db.upsert_iso(&image, "n1", NOW).unwrap();
    assert_eq!(stored.id, "n1");
    image.id = stored.id.clone();
    image.name = "Debian GNU/Linux".to_owned();
    let again = db.upsert_iso(&image, "n2", NOW + 1).unwrap();
    assert_eq!(stored.id, again.id);
    assert_eq!(db.get_iso("debian").unwrap().unwrap().name, "Debian GNU/Linux");
    assert_eq!(db.list_isos(true).unwrap().len(), 1);
    db.delete_iso("debian").unwrap();
    let mut inventory = HostInventory {
        hostname: "n".to_owned(),
        architecture: "x86_64".to_owned(),
        kernel: "6".to_owned(),
        cpu_model: "c".to_owned(),
        cpu_cores: 0,
        memory_total_bytes: 1,
        root_disk_total_bytes: 1,
        listen_port: 80,
        public_interface: None,
        detected_addresses: vec![],
        metadata: Document::object(),
        updated_at: NOW,
    };
    assert_eq!(
        db.upsert_host_inventory(&inventory),
        Err(validation("host inventory needs CPU cores and a listen port"))
    );
    inventory.cpu_cores = 4;
    db.upsert_host_inventory(&inventory).unwrap();
    assert_eq!(db.host_inventory().unwrap().unwrap().cpu_cores, 4);
}

fn rule() -> NewVmFirewallRule {
    NewVmFirewallRule {
        priority: 100,
        direction: FirewallDirection::Ingress,
        action: FirewallAction::Drop,
        protocol: FirewallProtocol::Tcp,
        source_cidr: None,
        destination_cidr: None,
        source_ports: vec![],
        destination_ports: vec![PortRange::single(22)],
        log: false,
        enabled: true,
        description: "ssh".to_owned(),
    }
}

#[test]
fn policy_changes_are_counted_and_stale_ones_refused() {
    let mut db = with_vm("one");
    let patch = VmNetworkSecurityPatch { ddos_enabled: Some(true), ..Default::default() };
    let changed = db.patch_vm_network_security("one", &patch, Ok(()), NOW).unwrap();
    assert_eq!(changed.revision, 1);
    assert_eq!(
        db.patch_vm_network_security("one", &patch, Err(validation("limit")), NOW),
        Err(validation("limit"))
    );
    db.create_vm_firewall_rule("one", &rule(), 1, "r1", NOW).unwrap();
    assert_eq!(
        db.create_vm_firewall_rule("one", &rule(), 1, "r2", NOW),
        Err(conflict("a VM cannot have more than 1 firewall rules"))
    );
    assert_eq!(
        db.mark_vm_network_security_applied("one", 1, None, NOW),
        Err(conflict("network security policy changed before it could be applied"))
    );
    let applied = db.mark_vm_network_security_applied("one", 2, None, NOW).unwrap();
    assert_eq!(applied.applied_revision, Some(2));
    let off = VmFirewallRulePatch { enabled: Some(false), ..Default::default() };
    assert!(!db.patch_vm_firewall_rule("one", "r1", &off, NOW).unwrap().enabled);
    db.delete_vm_firewall_rule("one", "r1", NOW).unwrap();
    assert_eq!(db.vm_network_security("one").unwrap().unwrap().revision, 4);
    let host = HypervisorNetworkSecurityPatch { bcp38_enabled: Some(true) };
    assert_eq!(db.patch_hypervisor_network_security(&host, None, NOW).unwrap().revision, 1);
    assert!(db.mark_hypervisor_network_security_applied(0, None, NOW).is_err());
    let host = db.mark_hypervisor_network_security_applied(1, Some("x"), NOW).unwrap();
    assert_eq!(host.last_error.as_deref(), Some("x"));
    let cut = db.set_vm_traffic_enforcement("one", true, None, NOW).unwrap();
    assert_eq!(cut.blocked_at, Some(NOW));
    assert!(db.vm_traffic_enforcement("one").unwrap().unwrap().blocked);
}

#[test]
fn a_failed_transition_leaves_the_link_as_it_was() {
    let mut db = with_vm("one");
    let failed = db.set_vm_traffic_enforcement("one", true, Some("tap is gone"), NOW).unwrap();
    assert_eq!((failed.blocked, failed.blocked_at), (false, None));
    assert_eq!(failed.last_error.as_deref(), Some("tap is gone"));
    db.set_vm_traffic_enforcement("one", true, None, NOW + 1).unwrap();
    let failed = db.set_vm_traffic_enforcement("one", false, Some("busy"), NOW + 2).unwrap();
    assert_eq!((failed.blocked, failed.blocked_at), (true, Some(NOW + 1)));
    assert_eq!((failed.last_error.as_deref(), failed.updated_at), (Some("busy"), NOW + 2));
    assert_eq!(db.vm_traffic_enforcement("one").unwrap(), Some(failed));
    let again = db.set_vm_traffic_enforcement("one", true, None, NOW + 3).unwrap();
    assert_eq!((again.blocked_at, again.last_error), (Some(NOW + 1), None));
    let open = db.set_vm_traffic_enforcement("one", false, None, NOW + 4).unwrap();
    assert_eq!((open.blocked, open.blocked_at), (false, None));
}

#[test]
fn a_hash_is_entered_once() {
    let mut db = with_vm("one");
    let scopes = vec![];
    db.create_customer_link("one", &[1; 32], &scopes, None, NOW + 9, "t1", NOW).unwrap();
    let twice = db.create_customer_link("one", &[1; 32], &scopes, None, NOW + 9, "t2", NOW);
    assert_eq!(
        twice.unwrap_err(),
        AppError::Database("UNIQUE constraint failed: customer_tokens.token_hash".to_owned())
    );
    let first = db.exchange_customer_link(&[1; 32], &[2; 32], None, NOW + 1, 60).unwrap().unwrap();
    assert_eq!((first.consumed_at, first.session_expires_at), (Some(NOW + 1), Some(NOW + 9)));
    assert!(db.exchange_customer_link(&[1; 32], &[3; 32], None, NOW + 2, 60).unwrap().is_none());
    db.create_vnc_link("one", &[1; 32], None, NOW, "v1").unwrap();
    assert!(db.create_vnc_link("one", &[1; 32], None, NOW, "v2").is_err());
    let none: Vec<String> = vec![];
    let mut key = |id: &str| {
        db.create_api_key("k", &[7; 32], "p", &none, &none, None, None, id, NOW).map(|key| key.id)
    };
    assert_eq!(key("k1"), Ok("k1".to_owned()));
    assert!(key("k2").is_err());
}

#[test]
fn buckets_cover_the_window() {
    assert_eq!(metric_bucket_seconds(0, None, 12), 1);
    assert_eq!(metric_bucket_seconds(0, Some(119), 12), 10);
    assert_eq!(metric_bucket_seconds(0, Some(120), 12), 11);
    assert_eq!(metric_bucket_seconds(5, Some(0), 0), 1);
    assert_eq!(metric_bucket_seconds(i64::MIN, Some(i64::MAX), 1), i64::MAX);
}

#[test]
fn links_are_good_once_and_for_one_address() {
    let mut db = with_vm("one");
    let scopes = vec!["read".to_owned()];
    db.create_customer_link("one", &[1; 32], &scopes, Some("192.0.2.1"), NOW + 100, "t1", NOW)
        .unwrap();
    assert_eq!(
        db.exchange_customer_link(&[1; 32], &[2; 32], None, NOW, 0),
        Err(validation("customer session TTL must be greater than zero"))
    );
    assert!(db
        .exchange_customer_link(&[1; 32], &[2; 32], Some("192.0.2.9"), NOW, 50)
        .unwrap()
        .is_none());
    let token = db
        .exchange_customer_link(&[1; 32], &[2; 32], Some("192.0.2.1"), NOW, 500)
        .unwrap()
        .unwrap();
    assert_eq!(token.session_expires_at, Some(NOW + 100));
    assert!(db
        .exchange_customer_link(&[1; 32], &[3; 32], Some("192.0.2.1"), NOW, 50)
        .unwrap()
        .is_none());
    let session = |db: &mut Database, at| {
        db.authenticate_customer_session(&[2; 32], Some("192.0.2.1"), at).unwrap().is_some()
    };
    assert!(session(&mut db, NOW + 99));
    assert!(!session(&mut db, NOW + 100));
    assert_eq!(db.revoke_customer_session(&[2; 32], NOW), Ok(1));
    assert!(!session(&mut db, NOW));
}

#[test]
fn console_links_live_ten_minutes() {
    let mut db = with_vm("one");
    let link = db.create_vnc_link("one", &[1; 32], None, NOW, "t1").unwrap();
    assert_eq!(link.expires_at, NOW + 600);
    assert!(db.exchange_vnc_link(&[1; 32], &[2; 32], None, NOW + 600).unwrap().is_none());
    assert!(db.exchange_vnc_link(&[1; 32], &[2; 32], None, NOW + 5).unwrap().is_some());
    assert!(db.exchange_vnc_link(&[1; 32], &[3; 32], None, NOW + 5).unwrap().is_none());
    assert!(db.authenticate_vnc_session(&[2; 32], None, NOW + 599).unwrap().is_some());
    assert!(db.authenticate_vnc_session(&[2; 32], None, NOW + 600).unwrap().is_none());
    assert_eq!(db.revoke_vm_vnc_tokens("one", NOW + 6), Ok(1));
    assert!(db.authenticate_vnc_session(&[2; 32], None, NOW + 7).unwrap().is_none());
    let (_, consoles) = db.prune_expired_tokens(NOW + 10_000_000).unwrap();
    assert_eq!(consoles, 1);
}

#[test]
fn a_console_session_can_be_ended_by_itself() {
    let mut db = with_vm("one");
    db.create_vnc_link("one", &[1; 32], None, NOW, "t1").unwrap();
    db.exchange_vnc_link(&[1; 32], &[2; 32], None, NOW + 5).unwrap().unwrap();
    assert_eq!(db.revoke_vnc_session(&[3; 32], NOW + 6), Ok(0));
    assert!(db.authenticate_vnc_session(&[2; 32], None, NOW + 6).unwrap().is_some());
    assert_eq!(db.revoke_vnc_session(&[2; 32], NOW + 7), Ok(1));
    assert_eq!(db.revoke_vnc_session(&[2; 32], NOW + 8), Ok(0));
    assert!(db.authenticate_vnc_session(&[2; 32], None, NOW + 9).unwrap().is_none());
}

#[test]
fn requests_are_not_done_twice() {
    let mut db = with_vm("one");
    let mut request = job("vm.start", Some("one"), r#"{"a": 1}"#);
    request.idempotency_key = Some("key".to_owned());
    let first = db.enqueue_job(&request, "j1", NOW).unwrap();
    assert_eq!(db.enqueue_job(&request, "j2", NOW + 1).unwrap(), first);
    assert_eq!(db.job_by_idempotency_key("key").unwrap().unwrap().id, "j1");
    request.payload = doc(r#"{"a": 2}"#);
    assert_eq!(
        db.enqueue_job(&request, "j2", NOW),
        Err(conflict("idempotency key was already used for a different request"))
    );
    assert_eq!(
        db.enqueue_job(&job(" ", None, "{}"), "j2", NOW),
        Err(validation("job kind cannot be empty"))
    );
    assert!(matches!(
        db.enqueue_job(&job("x", Some("nobody"), "{}"), "j2", NOW),
        Err(AppError::Database(text)) if text == "FOREIGN KEY constraint failed"
    ));
}

#[test]
fn one_active_job_of_a_kind() {
    let mut db = with_vm("one");
    let removal = job("vm.delete", Some("one"), "{}");
    let first = db.enqueue_delete_job(&removal, "j1", NOW).unwrap();
    assert_eq!(db.enqueue_delete_job(&removal, "j2", NOW + 1).unwrap().id, first.id);
    let reinstall = job("vm.reinstall", Some("one"), "{}");
    db.enqueue_reinstall_job(&reinstall, None, VmState::Running, "j3", NOW).unwrap();
    assert_eq!(
        db.enqueue_reinstall_job(&reinstall, None, VmState::Running, "j4", NOW),
        Err(conflict("a reinstall is already queued or running for this VM"))
    );
    assert_eq!(
        db.enqueue_delete_job(&reinstall, "j4", NOW),
        Err(validation("delete transaction requires a vm.delete job"))
    );
    assert_eq!(
        db.enqueue_delete_job(&job("vm.delete", None, "{}"), "j4", NOW),
        Err(validation("delete job requires vm_id"))
    );
    let reserved = job("vm.reinstall", Some("one"), r#"{"_staged_password_envelope": "x"}"#);
    assert_eq!(
        db.enqueue_reinstall_job(&reserved, None, VmState::Running, "j4", NOW),
        Err(validation("reinstall payload contains a reserved field"))
    );
    let list = job("vm.reinstall", Some("one"), "[]");
    assert_eq!(
        db.enqueue_reinstall_job(&list, Some("e"), VmState::Running, "j4", NOW),
        Err(validation("reinstall job payload must be an object"))
    );
    let wrong = job("vm.guest_tools.bootstrap", None, "{}");
    assert_eq!(
        db.enqueue_guest_tools_bootstrap_job(&wrong, "j4", NOW),
        Err(validation("Guest Tools bootstrap job requires vm_id"))
    );
}

#[test]
fn jobs_are_claimed_in_order_and_end_once() {
    let mut db = with_vm("one");
    let mut late = job("a", None, "{}");
    late.run_after = Some(NOW + 5);
    late.max_attempts = 2;
    db.enqueue_job(&late, "late", NOW).unwrap();
    db.enqueue_job(&job("b", None, "{}"), "soon", NOW + 1).unwrap();
    assert!(db.claim_next_job(" ", NOW).is_err());
    assert_eq!(db.claim_next_job("w", NOW), Ok(None));
    let claimed = db.claim_next_job("w", NOW + 9).unwrap().unwrap();
    assert_eq!((claimed.id.as_str(), claimed.attempts), ("soon", 1));
    db.update_job_progress("soon", 50.5_f64.to_bits(), NOW).unwrap();
    assert!(db.update_job_progress("soon", 100.5_f64.to_bits(), NOW).is_err());
    assert!(db.update_job_progress("soon", f64::NAN.to_bits(), NOW).is_err());
    assert!(db.update_job_progress("soon", (-1.0_f64).to_bits(), NOW).is_err());
    assert!(db.update_job_progress("soon", (-0.0_f64).to_bits(), NOW).is_ok());
    assert!(db.update_job_progress("soon", 100.0_f64.to_bits(), NOW).is_ok());
    assert_eq!(100.0_f64.to_bits(), FULL);
    db.finish_job("soon", &doc(r#"{"done": true}"#), NOW + 10).unwrap();
    let done = db.get_job("soon").unwrap().unwrap();
    assert_eq!((done.status, done.progress_percent), (JobStatus::Succeeded, FULL));
    assert_eq!(db.finish_job("soon", &doc("1"), NOW), Err(not_found("running job")));
    assert_eq!(
        db.cancel_job("soon", NOW),
        Err(conflict("only a queued job can be cancelled"))
    );
    assert_eq!(db.fail_job("soon", "x", None, NOW), Err(conflict("job is not running")));
    db.claim_next_job("w", NOW + 9).unwrap().unwrap();
    let again = db.fail_job("late", "x", Some(NOW + 20), NOW + 10).unwrap();
    assert_eq!((again.status, again.run_after), (JobStatus::Queued, NOW + 20));
    db.claim_next_job("w", NOW + 20).unwrap().unwrap();
    let over = db.fail_job("late", "x", Some(NOW + 30), NOW + 21).unwrap();
    assert_eq!((over.status, over.finished_at), (JobStatus::Failed, Some(NOW + 21)));
    assert_eq!(db.list_jobs(Some(JobStatus::Failed), None, 0).unwrap().len(), 1);
    assert_eq!(db.list_jobs(None, None, 1).unwrap()[0].id, "soon");
}

#[test]
fn no_job_stays_running() {
    let mut db = with_vm("one");
    let mut twice = job("a", None, "{}");
    twice.max_attempts = 2;
    db.enqueue_job(&twice, "twice", NOW).unwrap();
    db.enqueue_job(&job("b", None, "{}"), "once", NOW).unwrap();
    db.claim_next_job("w", NOW).unwrap().unwrap();
    db.claim_next_job("w", NOW).unwrap().unwrap();
    assert_eq!(db.recover_interrupted_jobs(NOW + 1), Ok((1, 1)));
    assert_eq!(db.get_job("twice").unwrap().unwrap().status, JobStatus::Queued);
    let once = db.get_job("once").unwrap().unwrap();
    assert_eq!(once.status, JobStatus::Failed);
    assert_eq!(once.error.as_deref(), Some("worker interrupted before completion"));
    assert_eq!(db.recover_interrupted_jobs(NOW + 2), Ok((0, 0)));
}

#[test]
fn a_password_commit_needs_its_running_job() {
    let mut db = with_vm("one");
    let request = job("vm.reinstall", Some("one"), "{}");
    db.enqueue_reinstall_job(&request, Some("sealed"), VmState::Running, "j1", NOW).unwrap();
    assert_eq!(
        db.commit_reinstall_password_after_hypervisor("j1", NOW),
        Err(conflict("reinstall credential can only be committed by its running worker"))
    );
    db.enqueue_job(&job("vm.start", Some("one"), "{}"), "j2", NOW - 5).unwrap();
    assert_eq!(
        db.commit_reinstall_password_after_hypervisor("j2", NOW),
        Err(validation("credential commit requires a vm.reinstall job"))
    );
    assert_eq!(
        db.commit_reinstall_password_after_hypervisor("j3", NOW),
        Err(not_found("job"))
    );
}

#[test]
fn snapshots_end_in_a_state() {
    let mut db = with_vm("one");
    db.create_snapshot("one", "s", "", false, &Document::object(), "s1", NOW).unwrap();
    let ready = db
        .update_snapshot("s1", SnapshotState::Ready, Some("/s"), Some(5), &None, NOW + 1)
        .unwrap();
    assert_eq!((ready.state, ready.size_bytes), (SnapshotState::Ready, Some(5)));
    assert_eq!(ready.completed_at, Some(NOW + 1));
    db.delete_snapshot_record("s1").unwrap();
    assert_eq!(db.delete_snapshot_record("s1"), Err(not_found("snapshot")));
}

#[test]
fn the_audit_trail_only_grows() {
    let mut db = Database::open_in_memory(NOW);
    let event = NewAuditEvent {
        actor_type: "system".to_owned(),
        actor_id: None,
        action: "a".to_owned(),
        resource_type: "r".to_owned(),
        resource_id: None,
        request_id: None,
        source_ip: None,
        user_agent: None,
        success: true,
        details: Document::object(),
    };
    let first = db.append_audit(&event, NOW).unwrap();
    let second = db.append_audit(&event, NOW).unwrap();
    assert!(second.id > first.id);
    let newest = db.list_audit(None, None, None, 1).unwrap();
    assert_eq!(newest[0].id, second.id);
    let older = db.list_audit(Some(second.id), None, None, 10).unwrap();
    assert_eq!(older.len(), 1);
    assert_eq!(
        db.import_update_status_audit("x", "succeeded", &event, NOW),
        Err(validation("update request ID is invalid"))
    );
    assert_eq!(
        db.import_update_status_audit(&new_id(), "running", &event, NOW),
        Err(validation("update outcome is not terminal"))
    );
}

fn distinct<T, K: PartialEq>(rows: &[T], key: impl Fn(&T) -> K) -> bool {
    rows.iter().enumerate().all(|(i, a)| rows[..i].iter().all(|b| key(a) != key(b)))
}

#[test]
fn machines_have_distinct_names_and_one_policy() {
    let mut db = with_vm("one");
    db.create_vm(&spec("two"), "two", NOW).unwrap();
    let unique = |key: &str| {
        Err(AppError::Database(format!("UNIQUE constraint failed: {key}")))
    };
    assert_eq!(db.create_vm(&spec("three"), "two", NOW), unique("vms.id"));
    assert_eq!(db.create_vm(&spec("TWO"), "three", NOW), unique("vms.name"));
    assert!(db.reconcile_vm_name("one", "Two", NOW).is_err());
    db.reconcile_vm_name("one", "ONE", NOW).unwrap();
    assert!(distinct(&db.vms, |row| row.vm.id.clone()));
    assert!(distinct(&db.vms, |row| row.vm.name.to_ascii_lowercase()));
    assert!(distinct(&db.network_security, |row| row.vm_id.clone()));
    db.delete_vm("two", NOW).unwrap();
    db.create_vm(&spec("two"), "two", NOW).unwrap();
    assert_eq!((db.vms.len(), db.network_security.len()), (2, 2));
    assert!(distinct(&db.network_security, |row| row.vm_id.clone()));
}

#[test]
fn administrators_have_distinct_names() {
    let mut db = Database::open_in_memory(NOW);
    db.bootstrap_admin("root", "hash", "a1", NOW).unwrap();
    db.create_admin("second", "hash", AdminRole::Admin, "a2", NOW).unwrap();
    assert_eq!(
        db.update_admin_credentials("a2", Some(" ROOT "), None, NOW),
        Err(AppError::Database("UNIQUE constraint failed: admins.username".to_owned()))
    );
    db.update_admin_credentials("a2", Some("Second"), None, NOW).unwrap();
    assert!(distinct(&db.admins, |row| row.admin.username.to_ascii_lowercase()));
}

#[test]
fn addresses_and_rules_have_distinct_keys() {
    let mut db = with_vm("one");
    db.upsert_ip_address(&address("203.0.113.5", None), "i1", NOW).unwrap();
    db.upsert_ip_address(&address("203.0.113.5", None), "i2", NOW).unwrap();
    assert_eq!(db.ip_addresses.len(), 1);
    assert_eq!(db.ip_addresses[0].id, "i1");
    assert_eq!(
        db.upsert_ip_address(&address("203.0.113.6", None), "i1", NOW),
        Err(AppError::Database("UNIQUE constraint failed: ip_addresses.id".to_owned()))
    );
    db.upsert_ip_address(&address("203.0.113.6", None), "i2", NOW).unwrap();
    assert!(distinct(&db.ip_addresses, |row| row.address.clone()));
    assert!(distinct(&db.ip_addresses, |row| row.id.clone()));
    db.create_vm_firewall_rule("one", &rule(), 9, "r1", NOW).unwrap();
    assert!(db.create_vm_firewall_rule("one", &rule(), 9, "r1", NOW).is_err());
    db.create_vm_firewall_rule("one", &rule(), 9, "r2", NOW).unwrap();
    assert!(distinct(&db.firewall_rules, |row| row.id.clone()));
}

fn with_tools(vm_id: &str) -> Database {
    let mut db = with_vm(vm_id);
    db.configure_vm_guest_tools(
        vm_id,
        GuestToolsPlatform::Linux,
        GuestToolsProvisioner::CloudInit,
        "secret",
        "0.1.0",
        Ok("active".to_owned()),
        NOW,
    )
    .unwrap();
    db
}

fn stage(db: &mut Database, vm_id: &str, generation: &str) {
    let staged = db.stage_vm_guest_tools_rotation(
        vm_id,
        GuestToolsPlatform::Windows,
        GuestToolsProvisioner::CloudbaseNoCloud,
        "next secret",
        "0.2.0",
        generation,
        Ok("pending".to_owned()),
        NOW + 1,
    );
    assert_eq!(staged.as_deref(), Ok(generation));
}

#[test]
fn a_machine_has_one_row_of_tools() {
    let mut db = with_tools("one");
    db.configure_vm_guest_tools(
        "one",
        GuestToolsPlatform::Linux,
        GuestToolsProvisioner::CloudInit,
        "other",
        "0.3.0",
        Ok("second".to_owned()),
        NOW,
    )
    .unwrap();
    assert_eq!(db.guest_tools.len(), 1);
    assert_eq!(db.vm_guest_tools_secret_envelope("one"), Ok(Some("second".to_owned())));
}

#[test]
fn an_armed_rotation_is_promoted_with_its_generation_and_version() {
    let mut db = with_tools("one");
    let generation = new_id();
    stage(&mut db, "one", &generation);
    let sealed = || Ok("resealed".to_owned());
    let before = db.vm_guest_tools("one").unwrap().unwrap();
    assert_eq!(
        db.promote_vm_guest_tools_rotation("one", &generation, "0.2.0", sealed(), NOW + 3),
        Err(conflict(
            "the Vexa Guest Tools key rotation generation does not match or is not installed"
        ))
    );
    assert_eq!(db.vm_guest_tools("one"), Ok(Some(before)));
    db.mark_vm_guest_tools_rotation_installed("one", &generation, NOW + 2).unwrap();
    let armed = db.vm_guest_tools("one").unwrap().unwrap();
    assert_eq!(
        db.promote_vm_guest_tools_rotation("one", &generation, "0.3.0", sealed(), NOW + 3),
        Err(conflict("guest-tools version 0.3.0 does not match required version 0.2.0"))
    );
    assert_eq!(
        db.promote_vm_guest_tools_rotation("one", &new_id(), "0.2.0", sealed(), NOW + 3),
        Err(conflict("the Vexa Guest Tools key rotation generation does not match"))
    );
    assert_eq!(db.vm_guest_tools("one"), Ok(Some(armed.clone())));
    assert_eq!(db.vm_guest_tools_secret_envelope("one"), Ok(Some("active".to_owned())));
    let done = db
        .promote_vm_guest_tools_rotation("one", &generation, "0.2.0", sealed(), NOW + 3)
        .unwrap();
    let mut expected = armed;
    expected.platform = GuestToolsPlatform::Windows;
    expected.provisioner = GuestToolsProvisioner::CloudbaseNoCloud;
    expected.desired_version = "0.2.0".to_owned();
    expected.installed_version = Some("0.2.0".to_owned());
    expected.status = GuestToolsStatus::Ready;
    expected.last_seen_at = Some(NOW + 3);
    expected.last_error = None;
    expected.pending_rotation = false;
    expected.pending_installed = false;
    expected.updated_at = NOW + 3;
    assert_eq!(done, expected);
    assert_eq!(db.vm_guest_tools("one"), Ok(Some(expected)));
    assert_eq!(db.vm_guest_tools_secret_envelope("one"), Ok(Some("resealed".to_owned())));
    assert!(db.pending_vm_guest_tools_seed("one").unwrap().is_none());
}

#[test]
fn discarding_gives_back_what_was_before_staging() {
    let mut db = with_tools("one");
    let before = db.vm_guest_tools("one").unwrap().unwrap();
    let generation = new_id();
    stage(&mut db, "one", &generation);
    assert_eq!(
        db.discard_vm_guest_tools_rotation("one", &new_id(), NOW + 2),
        Err(conflict(
            "the Vexa Guest Tools key rotation generation does not match or is not installed"
        ))
    );
    let seed = db.pending_vm_guest_tools_seed("one").unwrap().unwrap();
    assert_eq!((seed.generation.as_str(), seed.installed), (generation.as_str(), false));
    let mut expected = before;
    expected.updated_at = NOW + 4;
    let left = db.discard_vm_guest_tools_rotation("one", &generation, NOW + 4).unwrap();
    assert_eq!(left, expected);
    assert_eq!(db.vm_guest_tools("one"), Ok(Some(expected)));
    assert_eq!(db.vm_guest_tools_secret_envelope("one"), Ok(Some("active".to_owned())));
    assert!(db.pending_vm_guest_tools_seed("one").unwrap().is_none());
    stage(&mut db, "one", &generation);
    db.mark_vm_guest_tools_rotation_installed("one", &generation, NOW + 5).unwrap();
    assert_eq!(
        db.discard_vm_guest_tools_rotation("one", &generation, NOW + 6),
        Err(conflict("an armed Vexa Guest Tools rotation cannot be discarded"))
    );
    let seed = db.pending_vm_guest_tools_seed("one").unwrap().unwrap();
    assert_eq!((seed.secret_envelope.as_str(), seed.installed), ("pending", true));
}
