//! What the texts of the kernel and of the tools say of the host.

use vexa_vm::host::{
    binary_candidate, find_binary, parse_cpu_info, primary_interface, valid_block_name,
    valid_interface_name, HostDetector, IoCounters,
};
use vexa_vm::host_report::{
    detect_host, read_interfaces, read_network_counters, HostFacts, InterfaceFiles,
};
use vexa_vm::host_tables::{
    cpu_delta, filesystem_available_bytes, memory_used, read_block_counters, read_cpu_ticks,
    read_default_route, read_filesystems, read_ip_addresses, read_listening_tcp_ports,
    read_memory_info, read_os_name, sample_deltas,
};
use vexa_vm::net::parse_ip;

const ADDRESSES: &[u8] = br#"[
  {"ifname": "lo", "addr_info": [{"local": "127.0.0.1", "prefixlen": 8, "scope": "host"}]},
  {"ifname": "../x", "addr_info": [{"local": "10.0.0.1", "prefixlen": 8}]},
  {"ifname": "eno1", "addr_info": [
    {"local": "2001:db8::9", "prefixlen": 64, "scope": "global"},
    {"local": "203.0.113.9", "prefixlen": 99, "scope": "global"},
    {"local": "no address", "prefixlen": 24}
  ]}
]"#;

const ROUTE: &[u8] = br#"[{"dev": "eno1", "gateway": "203.0.113.1"}]"#;

#[test]
fn interface_names_cannot_escape_sysfs() {
    assert!(valid_interface_name("enp1s0.20"));
    assert!(!valid_interface_name("../../etc/passwd"));
    assert!(!valid_interface_name("name with spaces"));
}

#[test]
fn names_are_short_and_plain() {
    assert!(!valid_interface_name(""));
    assert!(valid_interface_name(&"a".repeat(15)));
    assert!(!valid_interface_name(&"a".repeat(16)));
    assert!(valid_block_name(&"a".repeat(64)));
    assert!(!valid_block_name(&"a".repeat(65)));
    assert!(HostDetector::new(Some("eth0".to_owned())).is_ok());
    assert!(HostDetector::new(None).is_ok());
    let refused = HostDetector::new(Some("a/b".to_owned()));
    assert!(refused.err().unwrap().text().contains("not a valid Linux interface name"));
}

#[test]
fn programs_are_looked_for_in_order() {
    assert_eq!(binary_candidate("ip", 2), "/sbin/ip");
    assert_eq!(
        find_binary("ip", [false, true, false, true]).as_deref(),
        Some("/usr/bin/ip")
    );
    assert_eq!(find_binary("ip", [false; 4]), None);
}

#[test]
fn the_primary_interface_is_the_preferred_one() {
    let eno = Some("eno1".to_owned());
    let eth = Some("eth0".to_owned());
    assert_eq!(primary_interface(&eth, &eno, &None), eth);
    assert_eq!(primary_interface(&Some("a b".to_owned()), &None, &eno), eno);
    assert_eq!(primary_interface(&None, &eth, &eno), eth);
}

#[test]
fn processors_are_counted() {
    let text = "processor\t: 0\nmodel name\t: Test CPU\nphysical id\t: 0\ncore id\t: 0\n\
                flags\t: fpu vmx\n\nprocessor\t: 1\nphysical id\t: 0\ncore id\t: 0\n";
    let cpu = parse_cpu_info(text, &Some("2400000".to_owned()), true);
    assert_eq!(cpu.model.as_deref(), Some("Test CPU"));
    assert_eq!(cpu.logical_cores, 2);
    assert_eq!(cpu.physical_cores, 1);
    assert_eq!(cpu.current_frequency_mhz, Some(2400));
    assert!(cpu.virtualization_supported && cpu.kvm_device_available);
    let none = parse_cpu_info("", &None, false);
    assert_eq!(none.logical_cores, 1);
    assert_eq!(none.physical_cores, 1);
    assert!(!none.virtualization_supported);
    let svm = parse_cpu_info("flags : (svm)", &None, false);
    assert!(svm.virtualization_supported);
}

#[test]
fn memory_is_read_in_kibibytes() {
    let memory = read_memory_info("MemTotal: 4 kB\nMemAvailable: 1 kB\nSwapTotal: 2 kB\n");
    assert_eq!(memory.total_bytes, 4096);
    assert_eq!(memory.available_bytes, 1024);
    assert_eq!(memory.swap_total_bytes, 2048);
    assert_eq!(memory.swap_free_bytes, 0);
    assert_eq!(memory_used(memory), 3072);
    assert_eq!(read_memory_info("MemFree: 3 kB").available_bytes, 3072);
    assert_eq!(read_memory_info("MemTotal: 18446744073709551615 kB").total_bytes, u64::MAX);
}

#[test]
fn the_operating_system_has_a_name() {
    let text = "# PRETTY_NAME=no\nNAME=Plain\nPRETTY_NAME=\"Some Linux 1\"\n";
    assert_eq!(read_os_name(text).as_deref(), Some("Some Linux 1"));
    assert_eq!(read_os_name("NAME=Plain\n").as_deref(), Some("Plain"));
    assert_eq!(read_os_name("ID=x\n"), None);
}

#[test]
fn addresses_come_from_the_address_tool() {
    let list = read_ip_addresses(true, ADDRESSES).unwrap();
    assert_eq!(list.len(), 3);
    assert_eq!(list[0].interface, "lo");
    assert_eq!(list[1].address, parse_ip("2001:db8::9").unwrap());
    assert_eq!(list[2].prefix_len, 32);
    assert_eq!(read_ip_addresses(false, b""), Err("the `ip address` command failed"));
    assert_eq!(
        read_ip_addresses(true, b"{"),
        Err("the `ip address` response was not valid JSON")
    );
}

#[test]
fn the_default_route_is_the_first() {
    let route = read_default_route(true, ROUTE).unwrap();
    assert_eq!(route.interface.as_deref(), Some("eno1"));
    assert_eq!(route.gateway, parse_ip("203.0.113.1"));
    assert_eq!(route.preferred_source, None);
    assert!(read_default_route(true, b"[]").is_none());
    assert!(read_default_route(false, ROUTE).is_none());
}

#[test]
fn file_systems_are_listed_by_mount_point() {
    let text = "Filesystem 1-blocks Used Available Capacity Mounted on\n\
                /dev/b 100 60 40 60% /srv with space\n\
                /dev/a 200 50 150 25% /\n\
                broken line\n";
    let list = read_filesystems(text);
    assert_eq!(list.len(), 2);
    assert_eq!(list[0].mount_point, "/");
    assert_eq!(list[1].mount_point, "/srv with space");
    assert_eq!(list[1].available_bytes, 40);
    assert_eq!(filesystem_available_bytes(text), Ok(40));
    assert!(filesystem_available_bytes("heading\n").is_err());
    let same = "heading\n/dev/b 9 1 8 1% /srv\n/dev/c 9 2 7 1% /\n/dev/a 9 3 6 1% /srv\n";
    let used: Vec<u64> = read_filesystems(same).iter().map(|found| found.used_bytes).collect();
    assert_eq!(used, vec![2, 1, 3]);
}

#[test]
fn processor_time_is_summed() {
    let ticks = read_cpu_ticks("intr 1\ncpu  1 2 3 4 5 6 7 8 9 10\n").unwrap();
    assert_eq!(ticks.total, 36);
    assert_eq!(ticks.idle, 9);
    let later = read_cpu_ticks("cpu  11 2 3 14 5 6 7 8\n").unwrap();
    assert_eq!(cpu_delta(ticks, later), (20, 10));
    assert_eq!(cpu_delta(later, ticks), (0, 0));
    assert!(read_cpu_ticks("cpu0 1 2 3 4\n").is_err());
    assert!(read_cpu_ticks("cpu  1 2\n").is_err());
}

#[test]
fn block_devices_are_counted_in_bytes() {
    let text = "8 0 sda 1 2 10 4 5 6 20 0 0\n7 0 loop0 1 2 10 4 5 6 20 0 0\n8 1 sdx 1 2 3 4\n";
    let devices = vec!["sda".to_owned(), "loop0".to_owned(), "sdx".to_owned()];
    let counters = read_block_counters(text, &devices);
    assert_eq!(counters.len(), 1);
    assert_eq!(counters[0].read, 5120);
    assert_eq!(counters[0].written, 10240);
    assert!(read_block_counters(text, &vec![]).is_empty());
}

#[test]
fn deltas_never_are_negative() {
    let at = |name: &str, read: u64, written: u64| IoCounters {
        name: name.to_owned(),
        read,
        written,
    };
    let deltas = sample_deltas(
        &vec![at("sda", 10, 20)],
        &vec![at("sdb", 7, 8), at("sda", 15, 5)],
    );
    assert_eq!(deltas[0].name, "sda");
    assert_eq!((deltas[0].read_delta, deltas[0].written_delta), (5, 0));
    assert_eq!((deltas[1].read_delta, deltas[1].written_delta), (7, 8));
}

#[test]
fn listening_ports_are_distinct_and_ascending() {
    let v4 = "heading\n 0: 0100007F:1F90 00000000:0000 0A 0\n 1: 00000000:0016 0:0 0A 0\n\
              2: 00000000:0017 0:0 01 0\n";
    let v6 = "heading\n 0: 00000000000000000000000000000000:0016 0:0 0A 0\n";
    let tables = vec![v4.to_owned(), v6.to_owned()];
    assert_eq!(read_listening_tcp_ports(&tables), vec![22, 8080]);
}

fn interface(name: &str) -> InterfaceFiles {
    InterfaceFiles {
        name: name.to_owned(),
        address: Some("52:54:00:00:00:01\n".to_owned()),
        operstate: None,
        mtu: Some("1500\n".to_owned()),
        speed: Some("-1\n".to_owned()),
        duplex: Some("\n".to_owned()),
        rx_bytes: Some("12\n".to_owned()),
        tx_bytes: None,
    }
}

#[test]
fn interfaces_are_read_from_files() {
    let mut fast = interface("eno1");
    fast.speed = Some("1000\n".to_owned());
    fast.duplex = Some("full\n".to_owned());
    let addresses = read_ip_addresses(true, ADDRESSES).unwrap();
    let list = read_interfaces(&vec![interface("lo"), interface("a b"), fast], &addresses);
    assert_eq!(list.len(), 2);
    assert_eq!(list[0].name, "eno1");
    assert_eq!(list[0].speed_mbps, Some(1000));
    assert_eq!(list[0].duplex.as_deref(), Some("full"));
    assert_eq!(list[0].mac_address.as_deref(), Some("52:54:00:00:00:01"));
    assert_eq!(list[0].addresses.len(), 2);
    assert_eq!(list[0].state, "unknown");
    assert!(list[1].is_loopback);
    assert_eq!(list[1].speed_mbps, None);
    assert_eq!(list[1].duplex, None);
    let counters = read_network_counters(&list);
    assert_eq!((counters[0].read, counters[0].written), (12, 0));
}

fn facts() -> HostFacts {
    HostFacts {
        hostname: Some("node\n".to_owned()),
        os_release: None,
        kernel_version: Some("6.1\n".to_owned()),
        architecture: "x86_64".to_owned(),
        cpuinfo: None,
        frequency: None,
        kvm_device_available: false,
        meminfo: "MemTotal: 1 kB".to_owned(),
        route_v4: read_default_route(true, ROUTE),
        route_v6: None,
        addresses: Ok(read_ip_addresses(true, ADDRESSES).unwrap()),
        interfaces: vec![interface("eno1"), interface("lo")],
        filesystems: Ok("heading\n/dev/a 2 1 1 50% /\n".to_owned()),
        tcp_tables: vec![],
    }
}

#[test]
fn the_host_is_described() {
    let info = detect_host(&None, &facts(), 77);
    assert_eq!(info.hostname, "node");
    assert_eq!(info.kernel_version.as_deref(), Some("6.1"));
    assert_eq!(info.memory.total_bytes, 1024);
    assert_eq!(info.primary_interface.as_deref(), Some("eno1"));
    assert_eq!(info.default_gateway_v4, parse_ip("203.0.113.1"));
    assert_eq!(info.default_gateway_v6, None);
    assert_eq!(info.filesystems.len(), 1);
    assert_eq!(info.detected_at, 77);
    assert!(info.warnings.is_empty());
    let eno = &info.interfaces[0];
    assert!(!eno.addresses[0].is_primary);
    assert!(eno.addresses[1].is_primary);
}

#[test]
fn what_is_missing_is_a_warning() {
    let mut gaps = facts();
    gaps.hostname = None;
    gaps.addresses = Err("the `ip` command was not found".to_owned());
    gaps.interfaces = vec![];
    gaps.filesystems = Err("the `df` command failed".to_owned());
    let detector = HostDetector::new(Some("eth9".to_owned())).ok().unwrap();
    let info = detector.detect(&gaps, 1);
    assert_eq!(info.hostname, "unknown");
    assert_eq!(info.primary_interface.as_deref(), Some("eth9"));
    assert_eq!(
        info.warnings,
        vec![
            "the `ip` command was not found",
            "no Linux network interfaces were detected in /sys/class/net",
            "the `df` command failed",
        ]
    );
}
