//! The report on the host: its interfaces from the files of the kernel, and everything
//! that was found put together.

use vstd::prelude::*;

use crate::host::{
    cpu_info, device_name, parse_cpu_info, primary_interface, primary_interface_spec,
    valid_interface_name, CpuInfo, DefaultRoute, FilesystemInfo, HostDetector, InterfaceAddress,
    InterfaceAddressView, IoCounters, IoCountersView, MemoryInfo, NetworkInterfaceInfo,
    NetworkInterfaceInfoView,
};
use crate::host_tables::{
    addresses_for, addresses_of, body_lines, by_interface_name, by_mount_point, filesystem_lines,
    listens, mark_primary_address, memory_info, os_name, primary_marked, read_filesystems,
    read_listening_tcp_ports, read_memory_info, read_os_name, sort_by_key, sorted_by,
    strictly_ascending,
};
use crate::net::Ip;
use crate::numbers::{
    decimal_u32, decimal_u64, parse_u32, parse_u64, parse_unsigned, unsigned_number,
};
use crate::table::{all, list, models};
use crate::text::{copy_option, same, trim, trim_spec, view_option, views};

verus! {

broadcast use vstd::string::group_string_axioms;

/// The texts of the kernel's files on a network interface, as far as they could be read.
#[derive(Debug, PartialEq, Eq)]
pub struct InterfaceFiles {
    pub name: String,
    pub address: Option<String>,
    pub operstate: Option<String>,
    pub mtu: Option<String>,
    pub speed: Option<String>,
    pub duplex: Option<String>,
    pub rx_bytes: Option<String>,
    pub tx_bytes: Option<String>,
}

/// What a [`InterfaceFiles`] holds, with texts as character sequences.
#[verifier::ext_equal]
pub struct InterfaceFilesView {
    pub name: Seq<char>,
    pub address: Option<Seq<char>>,
    pub operstate: Option<Seq<char>>,
    pub mtu: Option<Seq<char>>,
    pub speed: Option<Seq<char>>,
    pub duplex: Option<Seq<char>>,
    pub rx_bytes: Option<Seq<char>>,
    pub tx_bytes: Option<Seq<char>>,
}

impl View for InterfaceFiles {
    type V = InterfaceFilesView;

    open spec fn view(&self) -> InterfaceFilesView {
        InterfaceFilesView {
            name: self.name@,
            address: view_option(self.address),
            operstate: view_option(self.operstate),
            mtu: view_option(self.mtu),
            speed: view_option(self.speed),
            duplex: view_option(self.duplex),
            rx_bytes: view_option(self.rx_bytes),
            tx_bytes: view_option(self.tx_bytes),
        }
    }
}

impl Clone for InterfaceFiles {
    fn clone(&self) -> (r: InterfaceFiles)
        ensures
            r@ == self@,
    {
        InterfaceFiles {
            name: self.name.clone(),
            address: copy_option(&self.address),
            operstate: copy_option(&self.operstate),
            mtu: copy_option(&self.mtu),
            speed: copy_option(&self.speed),
            duplex: copy_option(&self.duplex),
            rx_bytes: copy_option(&self.rx_bytes),
            tx_bytes: copy_option(&self.tx_bytes),
        }
    }
}

impl InterfaceFiles {
    /// What a list of them holds.
    pub open spec fn list_view(list: Seq<InterfaceFiles>) -> Seq<InterfaceFilesView> {
        list.map_values(|x: InterfaceFiles| x@)
    }

    /// A copy of a list of them.
    pub fn copy_of_list(list: &Vec<InterfaceFiles>) -> (r: Vec<InterfaceFiles>)
        ensures
            InterfaceFiles::list_view(r@) == InterfaceFiles::list_view(list@),
    {
        let mut r: Vec<InterfaceFiles> = Vec::new();
        let mut i: usize = 0;
        while i < list.len()
            invariant
                i <= list@.len(),
                r@.len() == i,
                forall|j: int| 0 <= j < i ==> (#[trigger] r@[j])@ == list@[j]@,
            decreases list@.len() - i,
        {
            r.push(list[i].clone());
            i = i + 1;
        }
        proof {
            assert(InterfaceFiles::list_view(r@) =~= InterfaceFiles::list_view(list@));
        }
        r
    }
}

/// The content of a file without the white space around it.
pub open spec fn content(file: Option<Seq<char>>) -> Option<Seq<char>> {
    match file {
        Some(text) => Some(trim_spec(text)),
        None => None,
    }
}

/// A counter, zero where there is none.
pub open spec fn counter(file: Option<Seq<char>>) -> u64 {
    match content(file) {
        Some(text) => match decimal_u64(text) {
            Some(n) => n,
            None => 0,
        },
        None => 0,
    }
}

/// The speed of a link: a positive number that a signed word can hold.
pub open spec fn link_speed(text: Seq<char>) -> Option<u64> {
    match unsigned_number(text, 10, i64::MAX as int) {
        Some(n) => if n > 0 {
            Some(n as u64)
        } else {
            None
        },
        None => None,
    }
}

/// What the files on an interface state.
pub open spec fn interface_info(
    files: InterfaceFilesView,
    addresses: Seq<InterfaceAddressView>,
) -> NetworkInterfaceInfoView {
    NetworkInterfaceInfoView {
        name: files.name,
        mac_address: content(files.address),
        state: match content(files.operstate) {
            Some(text) => text,
            None => "unknown"@,
        },
        mtu: match content(files.mtu) {
            Some(text) => decimal_u32(text),
            None => None,
        },
        speed_mbps: match content(files.speed) {
            Some(text) => link_speed(text),
            None => None,
        },
        duplex: match content(files.duplex) {
            Some(text) => if text.len() > 0 {
                Some(text)
            } else {
                None
            },
            None => None,
        },
        is_loopback: files.name == "lo"@,
        addresses: addresses_of(addresses, files.name),
        rx_bytes: counter(files.rx_bytes),
        tx_bytes: counter(files.tx_bytes),
    }
}

/// The interfaces whose names are valid.
pub open spec fn interface_infos(
    files: Seq<InterfaceFilesView>,
    addresses: Seq<InterfaceAddressView>,
) -> Seq<NetworkInterfaceInfoView>
    decreases files.len(),
{
    if files.len() == 0 {
        Seq::empty()
    } else {
        let front = interface_infos(files.drop_last(), addresses);
        if device_name(files.last().name, 15) {
            front.push(interface_info(files.last(), addresses))
        } else {
            front
        }
    }
}

/// The content of a file without the white space around it.
pub fn read_optional(file: &Option<String>) -> (r: Option<String>)
    ensures
        view_option(r) == content(view_option(*file)),
{
    match file {
        Some(text) => Some(trim(text.as_str())),
        None => None,
    }
}

/// The number in a file, zero where there is none.
pub fn read_path_u64(file: &Option<String>) -> (r: u64)
    ensures
        r == counter(view_option(*file)),
{
    match read_optional(file) {
        Some(text) => match parse_u64(text.as_str()) {
            Some(n) => n,
            None => 0,
        },
        None => 0,
    }
}

fn read_speed(text: &str) -> (r: Option<u64>)
    ensures
        r == link_speed(text@),
{
    match parse_unsigned(text, 10, i64::MAX as u64) {
        Ok(n) => if n > 0 {
            Some(n)
        } else {
            None
        },
        Err(_) => None,
    }
}

fn read_interface(files: &InterfaceFiles, addresses: &Vec<InterfaceAddress>) -> (r:
    NetworkInterfaceInfo)
    ensures
        r@ == interface_info(files@, InterfaceAddress::list_view(addresses@)),
{
    let state = match read_optional(&files.operstate) {
        Some(text) => text,
        None => "unknown".to_owned(),
    };
    let mtu = match read_optional(&files.mtu) {
        Some(text) => parse_u32(text.as_str()),
        None => None,
    };
    let speed_mbps = match read_optional(&files.speed) {
        Some(text) => read_speed(text.as_str()),
        None => None,
    };
    let duplex = match read_optional(&files.duplex) {
        Some(text) => if text.as_str().is_empty() {
            None
        } else {
            Some(text)
        },
        None => None,
    };
    NetworkInterfaceInfo {
        name: files.name.clone(),
        mac_address: read_optional(&files.address),
        state,
        mtu,
        speed_mbps,
        duplex,
        is_loopback: same(files.name.as_str(), "lo"),
        addresses: addresses_for(addresses, files.name.as_str()),
        rx_bytes: read_path_u64(&files.rx_bytes),
        tx_bytes: read_path_u64(&files.tx_bytes),
    }
}

/// The interfaces whose names are valid, with their addresses, in the order of their
/// names.
pub fn read_interfaces(files: &Vec<InterfaceFiles>, addresses: &Vec<InterfaceAddress>) -> (r: Vec<
    NetworkInterfaceInfo,
>)
    ensures
        sorted_by(
            NetworkInterfaceInfo::list_view(r@),
            interface_infos(
                InterfaceFiles::list_view(files@),
                InterfaceAddress::list_view(addresses@),
            ),
            by_interface_name(),
        ),
{
    let ghost all = InterfaceFiles::list_view(files@);
    let ghost given = InterfaceAddress::list_view(addresses@);
    let mut r: Vec<NetworkInterfaceInfo> = Vec::new();
    let mut i: usize = 0;
    proof {
        assert(all.take(0) =~= Seq::<InterfaceFilesView>::empty());
        assert(NetworkInterfaceInfo::list_view(r@) =~= Seq::empty());
    }
    while i < files.len()
        invariant
            i <= files@.len(),
            all == InterfaceFiles::list_view(files@),
            given == InterfaceAddress::list_view(addresses@),
            NetworkInterfaceInfo::list_view(r@) == interface_infos(all.take(i as int), given),
        decreases files@.len() - i,
    {
        proof {
            assert(all.take(i as int + 1).drop_last() =~= all.take(i as int));
            assert(all.take(i as int + 1).last() == files@[i as int]@);
        }
        if valid_interface_name(files[i].name.as_str()) {
            let ghost before = r@;
            let info = read_interface(&files[i], addresses);
            let ghost view = info@;
            r.push(info);
            proof {
                assert(NetworkInterfaceInfo::list_view(r@) =~= NetworkInterfaceInfo::list_view(
                    before,
                ).push(view));
            }
        }
        i = i + 1;
    }
    proof {
        assert(all.take(all.len() as int) =~= all);
        assert(models(r@) =~= NetworkInterfaceInfo::list_view(r@));
    }
    let sorted = sort_by_key(r);
    proof {
        assert(models(sorted@) =~= NetworkInterfaceInfo::list_view(sorted@));
    }
    sorted
}

/// The counters of an interface.
pub open spec fn counters_of(n: NetworkInterfaceInfoView) -> IoCountersView {
    IoCountersView { name: n.name, read: n.rx_bytes, written: n.tx_bytes }
}

/// The counters of each interface.
pub fn read_network_counters(interfaces: &Vec<NetworkInterfaceInfo>) -> (r: Vec<IoCounters>)
    ensures
        IoCounters::list_view(r@) == NetworkInterfaceInfo::list_view(interfaces@).map_values(
            |n: NetworkInterfaceInfoView| counters_of(n),
        ),
{
    let mut r: Vec<IoCounters> = Vec::new();
    let mut i: usize = 0;
    while i < interfaces.len()
        invariant
            i <= interfaces@.len(),
            r@.len() == i,
            forall|j: int| 0 <= j < i ==> (#[trigger] r@[j])@ == counters_of(interfaces@[j]@),
        decreases interfaces@.len() - i,
    {
        let n = &interfaces[i];
        r.push(IoCounters { name: n.name.clone(), read: n.rx_bytes, written: n.tx_bytes });
        i = i + 1;
    }
    proof {
        assert(IoCounters::list_view(r@) =~= NetworkInterfaceInfo::list_view(
            interfaces@,
        ).map_values(|n: NetworkInterfaceInfoView| counters_of(n)));
    }
    r
}

/// What was read of the host: texts of files where they could be read, and the answers of
/// the tools or why there are none.
pub struct HostFacts {
    pub hostname: Option<String>,
    pub os_release: Option<String>,
    pub kernel_version: Option<String>,
    pub architecture: String,
    pub cpuinfo: Option<String>,
    pub frequency: Option<String>,
    pub kvm_device_available: bool,
    pub meminfo: String,
    pub route_v4: Option<DefaultRoute>,
    pub route_v6: Option<DefaultRoute>,
    pub addresses: Result<Vec<InterfaceAddress>, String>,
    pub interfaces: Vec<InterfaceFiles>,
    pub filesystems: Result<String, String>,
    pub tcp_tables: Vec<String>,
}

/// What is known of the host.
pub struct HostInfo {
    pub hostname: String,
    pub operating_system: Option<String>,
    pub kernel_version: Option<String>,
    pub architecture: String,
    pub cpu: CpuInfo,
    pub memory: MemoryInfo,
    pub primary_interface: Option<String>,
    pub default_gateway_v4: Option<Ip>,
    pub default_gateway_v6: Option<Ip>,
    pub interfaces: Vec<NetworkInterfaceInfo>,
    pub filesystems: Vec<FilesystemInfo>,
    pub listening_tcp_ports: Vec<u16>,
    pub detected_at: i64,
    pub warnings: Vec<String>,
}

/// The interface of a route.
pub open spec fn route_interface(route: Option<DefaultRoute>) -> Option<Seq<char>> {
    match route {
        Some(x) => view_option(x.interface),
        None => None,
    }
}

/// The gateway of a route.
pub open spec fn route_gateway(route: Option<DefaultRoute>) -> Option<Ip> {
    match route {
        Some(x) => x.gateway,
        None => None,
    }
}

/// The source address of a route.
pub open spec fn route_source(route: Option<DefaultRoute>) -> Option<Ip> {
    match route {
        Some(x) => x.preferred_source,
        None => None,
    }
}

/// One value, or another where there is none.
pub open spec fn source_or(a: Option<Ip>, b: Option<Ip>) -> Option<Ip> {
    if a is Some {
        a
    } else {
        b
    }
}

/// The addresses that were found.
pub open spec fn found_addresses(addresses: Result<Vec<InterfaceAddress>, String>) -> Seq<
    InterfaceAddressView,
> {
    match addresses {
        Ok(list) => InterfaceAddress::list_view(list@),
        Err(_) => Seq::empty(),
    }
}

/// A warning where there is one.
pub open spec fn warning_if(there: bool, text: Seq<char>) -> Seq<Seq<char>> {
    if there {
        seq![text]
    } else {
        Seq::empty()
    }
}

/// What could not be found out, in the order in which it was asked.
pub open spec fn warnings_of(facts: HostFacts, interfaces: nat) -> Seq<Seq<char>> {
    warning_if(facts.addresses is Err, facts.addresses->Err_0@) + warning_if(
        interfaces == 0,
        "no Linux network interfaces were detected in /sys/class/net"@,
    ) + warning_if(facts.filesystems is Err, facts.filesystems->Err_0@)
}

/// The file systems that were found, in the order of their mount points.
pub open spec fn filesystems_by_mount(
    list: Seq<FilesystemInfo>,
    answer: Result<String, String>,
) -> bool {
    match answer {
        Err(_) => list.len() == 0,
        Ok(text) => sorted_by(
            FilesystemInfo::list_view(list),
            filesystem_lines(body_lines(text@)),
            by_mount_point(),
        ),
    }
}

/// What a report states, given what was read of the host.
pub open spec fn describes_host(
    r: HostInfo,
    preferred: Option<Seq<char>>,
    facts: HostFacts,
    now: i64,
) -> bool {
    &&& r.hostname@ == (match content(view_option(facts.hostname)) {
        Some(text) => text,
        None => "unknown"@,
    })
    &&& view_option(r.operating_system) == (match content(view_option(facts.os_release)) {
        Some(text) => os_name(text),
        None => None,
    })
    &&& view_option(r.kernel_version) == content(view_option(facts.kernel_version))
    &&& r.architecture@ == facts.architecture@
    &&& r.cpu@ == cpu_info(
        match content(view_option(facts.cpuinfo)) {
            Some(text) => text,
            None => Seq::empty(),
        },
        content(view_option(facts.frequency)),
        facts.kvm_device_available,
    )
    &&& r.memory == memory_info(facts.meminfo@)
    &&& view_option(r.primary_interface) == primary_interface_spec(
        preferred,
        route_interface(facts.route_v4),
        route_interface(facts.route_v6),
    )
    &&& r.default_gateway_v4 == route_gateway(facts.route_v4)
    &&& r.default_gateway_v6 == route_gateway(facts.route_v6)
    &&& (exists|list: Seq<NetworkInterfaceInfoView>|
        #[trigger] sorted_by(
            list,
            interface_infos(
                InterfaceFiles::list_view(facts.interfaces@),
                found_addresses(facts.addresses),
            ),
            by_interface_name(),
        ) && NetworkInterfaceInfo::list_view(r.interfaces@) == primary_marked(
            list,
            view_option(r.primary_interface),
            source_or(route_source(facts.route_v4), route_source(facts.route_v6)),
        ))
    &&& filesystems_by_mount(r.filesystems@, facts.filesystems)
    &&& strictly_ascending(r.listening_tcp_ports@)
    &&& (forall|p: u16| #[trigger]
        r.listening_tcp_ports@.contains(p) <==> listens(views(facts.tcp_tables@), p))
    &&& r.detected_at == now
    &&& views(r.warnings@) == warnings_of(facts, r.interfaces@.len())
}

fn note(warnings: &mut Vec<String>, text: &str)
    ensures
        views(final(warnings)@) == views(old(warnings)@) + seq![text@],
{
    let ghost before = warnings@;
    warnings.push(text.to_owned());
    proof {
        assert(views(warnings@) =~= views(before) + seq![text@]);
    }
}

/// Puts together what was read of the host. What is missing leaves a gap and a warning.
pub fn detect_host(preferred_interface: &Option<String>, facts: &HostFacts, now: i64) -> (r:
    HostInfo)
    ensures
        describes_host(r, view_option(*preferred_interface), *facts, now),
{
    let mut warnings: Vec<String> = Vec::new();
    proof {
        reveal_strlit("");
        assert(""@ =~= Seq::empty());
        assert(views(warnings@) =~= Seq::empty());
    }
    let cpuinfo = match read_optional(&facts.cpuinfo) {
        Some(text) => text,
        None => "".to_owned(),
    };
    let (interface_v4, gateway_v4, source_v4) = match &facts.route_v4 {
        Some(x) => (copy_option(&x.interface), x.gateway, x.preferred_source),
        None => (None, None, None),
    };
    let (interface_v6, gateway_v6, source_v6) = match &facts.route_v6 {
        Some(x) => (copy_option(&x.interface), x.gateway, x.preferred_source),
        None => (None, None, None),
    };
    let primary = primary_interface(preferred_interface, &interface_v4, &interface_v6);
    let interfaces = match &facts.addresses {
        Ok(list) => read_interfaces(&facts.interfaces, list),
        Err(message) => {
            note(&mut warnings, message.as_str());
            let none: Vec<InterfaceAddress> = Vec::new();
            proof {
                assert(InterfaceAddress::list_view(none@) =~= Seq::empty());
            }
            read_interfaces(&facts.interfaces, &none)
        },
    };
    let ghost list = NetworkInterfaceInfo::list_view(interfaces@);
    proof {
        assert(sorted_by(
            list,
            interface_infos(
                InterfaceFiles::list_view(facts.interfaces@),
                found_addresses(facts.addresses),
            ),
            by_interface_name(),
        ));
    }
    let source = if source_v4.is_some() {
        source_v4
    } else {
        source_v6
    };
    let marked_interfaces = mark_primary_address(interfaces, &primary, source);
    proof {
        assert(marked_interfaces@.len() == NetworkInterfaceInfo::list_view(
            marked_interfaces@,
        ).len());
    }
    if marked_interfaces.len() == 0 {
        note(&mut warnings, "no Linux network interfaces were detected in /sys/class/net");
    }
    let filesystems = match &facts.filesystems {
        Ok(text) => read_filesystems(text.as_str()),
        Err(message) => {
            note(&mut warnings, message.as_str());
            Vec::new()
        },
    };
    let hostname = match read_optional(&facts.hostname) {
        Some(text) => text,
        None => "unknown".to_owned(),
    };
    let operating_system = match read_optional(&facts.os_release) {
        Some(text) => read_os_name(text.as_str()),
        None => None,
    };
    proof {
        assert(views(warnings@) =~= warnings_of(*facts, marked_interfaces@.len()));
    }
    HostInfo {
        hostname,
        operating_system,
        kernel_version: read_optional(&facts.kernel_version),
        architecture: facts.architecture.clone(),
        cpu: parse_cpu_info(
            cpuinfo.as_str(),
            &read_optional(&facts.frequency),
            facts.kvm_device_available,
        ),
        memory: read_memory_info(facts.meminfo.as_str()),
        primary_interface: primary,
        default_gateway_v4: gateway_v4,
        default_gateway_v6: gateway_v6,
        interfaces: marked_interfaces,
        filesystems,
        listening_tcp_ports: read_listening_tcp_ports(&facts.tcp_tables),
        detected_at: now,
        warnings,
    }
}

impl HostDetector {
    /// What is known of the host.
    pub fn detect(&self, facts: &HostFacts, now: i64) -> (r: HostInfo)
        ensures
            describes_host(r, view_option(self.preferred_interface), *facts, now),
    {
        detect_host(&self.preferred_interface, facts, now)
    }
}

} // verus!
