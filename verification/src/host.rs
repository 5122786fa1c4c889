//! Linux host discovery: what the texts of `/proc`, `ip` and `df` say of the node.

use vstd::prelude::*;

use crate::error::{validation, AppError, AppErrorView};
use crate::net::Ip;
use crate::numbers::{
    decimal_text, decimal_u32, decimal_u64, parse_u32, parse_u64, written_numbers_are_read_back,
};
use crate::text::{
    alphanumeric, chars_of, contains_char, copy_option, has_prefix, is_alphanumeric, join3, lines,
    lines_spec, same, split_once, split_once_spec, starts_with, text_of, trim, trim_spec,
    view_option, views, words, words_spec,
};
use crate::wording::{splitting_once, the_first_separator};

verus! {

broadcast use {vstd::string::group_string_axioms, vstd::seq_lib::group_to_multiset_ensures};

/// The processors of the node.
#[derive(Debug, PartialEq, Eq)]
pub struct CpuInfo {
    pub model: Option<String>,
    pub logical_cores: u32,
    pub physical_cores: u32,
    pub current_frequency_mhz: Option<u64>,
    pub virtualization_supported: bool,
    pub kvm_device_available: bool,
}

/// What a [`CpuInfo`] holds, with texts as character sequences.
#[verifier::ext_equal]
pub struct CpuInfoView {
    pub model: Option<Seq<char>>,
    pub logical_cores: u32,
    pub physical_cores: u32,
    pub current_frequency_mhz: Option<u64>,
    pub virtualization_supported: bool,
    pub kvm_device_available: bool,
}

impl View for CpuInfo {
    type V = CpuInfoView;

    open spec fn view(&self) -> CpuInfoView {
        CpuInfoView {
            model: view_option(self.model),
            logical_cores: self.logical_cores,
            physical_cores: self.physical_cores,
            current_frequency_mhz: self.current_frequency_mhz,
            virtualization_supported: self.virtualization_supported,
            kvm_device_available: self.kvm_device_available,
        }
    }
}

impl Clone for CpuInfo {
    fn clone(&self) -> (r: CpuInfo)
        ensures
            r@ == self@,
    {
        CpuInfo {
            model: copy_option(&self.model),
            logical_cores: self.logical_cores,
            physical_cores: self.physical_cores,
            current_frequency_mhz: self.current_frequency_mhz,
            virtualization_supported: self.virtualization_supported,
            kvm_device_available: self.kvm_device_available,
        }
    }
}

/// The memory of the node.
#[derive(Clone, Copy, Debug, PartialEq, Eq, Structural)]
pub struct MemoryInfo {
    pub total_bytes: u64,
    pub available_bytes: u64,
    pub swap_total_bytes: u64,
    pub swap_free_bytes: u64,
}

/// An address of a network interface.
#[derive(Debug, PartialEq, Eq)]
pub struct HostAddress {
    pub address: Ip,
    pub prefix_len: u8,
    pub scope: String,
    pub is_primary: bool,
}

/// What a [`HostAddress`] holds, with texts as character sequences.
#[verifier::ext_equal]
pub struct HostAddressView {
    pub address: Ip,
    pub prefix_len: u8,
    pub scope: Seq<char>,
    pub is_primary: bool,
}

impl View for HostAddress {
    type V = HostAddressView;

    open spec fn view(&self) -> HostAddressView {
        HostAddressView {
            address: self.address,
            prefix_len: self.prefix_len,
            scope: self.scope@,
            is_primary: self.is_primary,
        }
    }
}

impl Clone for HostAddress {
    fn clone(&self) -> (r: HostAddress)
        ensures
            r@ == self@,
    {
        HostAddress {
            address: self.address,
            prefix_len: self.prefix_len,
            scope: self.scope.clone(),
            is_primary: self.is_primary,
        }
    }
}

impl HostAddress {
    /// What a list of them holds.
    pub open spec fn list_view(list: Seq<HostAddress>) -> Seq<HostAddressView> {
        list.map_values(|x: HostAddress| x@)
    }

    /// A copy of a list of them.
    pub fn copy_of_list(list: &Vec<HostAddress>) -> (r: Vec<HostAddress>)
        ensures
            HostAddress::list_view(r@) == HostAddress::list_view(list@),
    {
        let mut r: Vec<HostAddress> = Vec::new();
        let mut i: usize = 0;
        while i < list.len()
            invariant
                i <= list@.len(),
                r@.len() == i,
                forall|j: int| 0 <= j < i ==> (#[trigger] r@[j])@ == list@[j]@,
            decreases list@.len() - i,
        {
            r.push(list[i].clone());
            i = i + 1;
        }
        proof {
            assert(HostAddress::list_view(r@) =~= HostAddress::list_view(list@));
        }
        r
    }
}

/// An address and the interface that has it.
#[derive(Debug, PartialEq, Eq)]
pub struct InterfaceAddress {
    pub interface: String,
    pub address: Ip,
    pub prefix_len: u8,
    pub scope: String,
}

/// What a [`InterfaceAddress`] holds, with texts as character sequences.
#[verifier::ext_equal]
pub struct InterfaceAddressView {
    pub interface: Seq<char>,
    pub address: Ip,
    pub prefix_len: u8,
    pub scope: Seq<char>,
}

impl View for InterfaceAddress {
    type V = InterfaceAddressView;

    open spec fn view(&self) -> InterfaceAddressView {
        InterfaceAddressView {
            interface: self.interface@,
            address: self.address,
            prefix_len: self.prefix_len,
            scope: self.scope@,
        }
    }
}

impl Clone for InterfaceAddress {
    fn clone(&self) -> (r: InterfaceAddress)
        ensures
            r@ == self@,
    {
        InterfaceAddress {
            interface: self.interface.clone(),
            address: self.address,
            prefix_len: self.prefix_len,
            scope: self.scope.clone(),
        }
    }
}

impl InterfaceAddress {
    /// What a list of them holds.
    pub open spec fn list_view(list: Seq<InterfaceAddress>) -> Seq<InterfaceAddressView> {
        list.map_values(|x: InterfaceAddress| x@)
    }

    /// A copy of a list of them.
    pub fn copy_of_list(list: &Vec<InterfaceAddress>) -> (r: Vec<InterfaceAddress>)
        ensures
            InterfaceAddress::list_view(r@) == InterfaceAddress::list_view(list@),
    {
        let mut r: Vec<InterfaceAddress> = Vec::new();
        let mut i: usize = 0;
        while i < list.len()
            invariant
                i <= list@.len(),
                r@.len() == i,
                forall|j: int| 0 <= j < i ==> (#[trigger] r@[j])@ == list@[j]@,
            decreases list@.len() - i,
        {
            r.push(list[i].clone());
            i = i + 1;
        }
        proof {
            assert(InterfaceAddress::list_view(r@) =~= InterfaceAddress::list_view(list@));
        }
        r
    }
}

/// A network interface.
#[derive(Debug, PartialEq, Eq)]
pub struct NetworkInterfaceInfo {
    pub name: String,
    pub mac_address: Option<String>,
    pub state: String,
    pub mtu: Option<u32>,
    pub speed_mbps: Option<u64>,
    pub duplex: Option<String>,
    pub is_loopback: bool,
    pub addresses: Vec<HostAddress>,
    pub rx_bytes: u64,
    pub tx_bytes: u64,
}

/// What a [`NetworkInterfaceInfo`] holds, with texts as character sequences.
#[verifier::ext_equal]
pub struct NetworkInterfaceInfoView {
    pub name: Seq<char>,
    pub mac_address: Option<Seq<char>>,
    pub state: Seq<char>,
    pub mtu: Option<u32>,
    pub speed_mbps: Option<u64>,
    pub duplex: Option<Seq<char>>,
    pub is_loopback: bool,
    pub addresses: Seq<HostAddressView>,
    pub rx_bytes: u64,
    pub tx_bytes: u64,
}

impl View for NetworkInterfaceInfo {
    type V = NetworkInterfaceInfoView;

    open spec fn view(&self) -> NetworkInterfaceInfoView {
        NetworkInterfaceInfoView {
            name: self.name@,
            mac_address: view_option(self.mac_address),
            state: self.state@,
            mtu: self.mtu,
            speed_mbps: self.speed_mbps,
            duplex: view_option(self.duplex),
            is_loopback: self.is_loopback,
            addresses: HostAddress::list_view(self.addresses@),
            rx_bytes: self.rx_bytes,
            tx_bytes: self.tx_bytes,
        }
    }
}

impl Clone for NetworkInterfaceInfo {
    fn clone(&self) -> (r: NetworkInterfaceInfo)
        ensures
            r@ == self@,
    {
        NetworkInterfaceInfo {
            name: self.name.clone(),
            mac_address: copy_option(&self.mac_address),
            state: self.state.clone(),
            mtu: self.mtu,
            speed_mbps: self.speed_mbps,
            duplex: copy_option(&self.duplex),
            is_loopback: self.is_loopback,
            addresses: HostAddress::copy_of_list(&self.addresses),
            rx_bytes: self.rx_bytes,
            tx_bytes: self.tx_bytes,
        }
    }
}

impl NetworkInterfaceInfo {
    /// What a list of them holds.
    pub open spec fn list_view(list: Seq<NetworkInterfaceInfo>) -> Seq<NetworkInterfaceInfoView> {
        list.map_values(|x: NetworkInterfaceInfo| x@)
    }

    /// A copy of a list of them.
    pub fn copy_of_list(list: &Vec<NetworkInterfaceInfo>) -> (r: Vec<NetworkInterfaceInfo>)
        ensures
            NetworkInterfaceInfo::list_view(r@) == NetworkInterfaceInfo::list_view(list@),
    {
        let mut r: Vec<NetworkInterfaceInfo> = Vec::new();
        let mut i: usize = 0;
        while i < list.len()
            invariant
                i <= list@.len(),
                r@.len() == i,
                forall|j: int| 0 <= j < i ==> (#[trigger] r@[j])@ == list@[j]@,
            decreases list@.len() - i,
        {
            r.push(list[i].clone());
            i = i + 1;
        }
        proof {
            assert(NetworkInterfaceInfo::list_view(r@) =~= NetworkInterfaceInfo::list_view(list@));
        }
        r
    }
}

/// A mounted file system.
#[derive(Debug, PartialEq, Eq)]
pub struct FilesystemInfo {
    pub source: String,
    pub mount_point: String,
    pub total_bytes: u64,
    pub used_bytes: u64,
    pub available_bytes: u64,
}

/// What a [`FilesystemInfo`] holds, with texts as character sequences.
#[verifier::ext_equal]
pub struct FilesystemInfoView {
    pub source: Seq<char>,
    pub mount_point: Seq<char>,
    pub total_bytes: u64,
    pub used_bytes: u64,
    pub available_bytes: u64,
}

impl View for FilesystemInfo {
    type V = FilesystemInfoView;

    open spec fn view(&self) -> FilesystemInfoView {
        FilesystemInfoView {
            source: self.source@,
            mount_point: self.mount_point@,
            total_bytes: self.total_bytes,
            used_bytes: self.used_bytes,
            available_bytes: self.available_bytes,
        }
    }
}

impl Clone for FilesystemInfo {
    fn clone(&self) -> (r: FilesystemInfo)
        ensures
            r@ == self@,
    {
        FilesystemInfo {
            source: self.source.clone(),
            mount_point: self.mount_point.clone(),
            total_bytes: self.total_bytes,
            used_bytes: self.used_bytes,
            available_bytes: self.available_bytes,
        }
    }
}

impl FilesystemInfo {
    /// What a list of them holds.
    pub open spec fn list_view(list: Seq<FilesystemInfo>) -> Seq<FilesystemInfoView> {
        list.map_values(|x: FilesystemInfo| x@)
    }

    /// A copy of a list of them.
    pub fn copy_of_list(list: &Vec<FilesystemInfo>) -> (r: Vec<FilesystemInfo>)
        ensures
            FilesystemInfo::list_view(r@) == FilesystemInfo::list_view(list@),
    {
        let mut r: Vec<FilesystemInfo> = Vec::new();
        let mut i: usize = 0;
        while i < list.len()
            invariant
                i <= list@.len(),
                r@.len() == i,
                forall|j: int| 0 <= j < i ==> (#[trigger] r@[j])@ == list@[j]@,
            decreases list@.len() - i,
        {
            r.push(list[i].clone());
            i = i + 1;
        }
        proof {
            assert(FilesystemInfo::list_view(r@) =~= FilesystemInfo::list_view(list@));
        }
        r
    }
}

/// The counters of a network interface or block device.
#[derive(Debug, PartialEq, Eq)]
pub struct IoCounters {
    pub name: String,
    pub read: u64,
    pub written: u64,
}

/// What a [`IoCounters`] holds, with texts as character sequences.
#[verifier::ext_equal]
pub struct IoCountersView {
    pub name: Seq<char>,
    pub read: u64,
    pub written: u64,
}

impl View for IoCounters {
    type V = IoCountersView;

    open spec fn view(&self) -> IoCountersView {
        IoCountersView {
            name: self.name@,
            read: self.read,
            written: self.written,
        }
    }
}

impl Clone for IoCounters {
    fn clone(&self) -> (r: IoCounters)
        ensures
            r@ == self@,
    {
        IoCounters {
            name: self.name.clone(),
            read: self.read,
            written: self.written,
        }
    }
}

impl IoCounters {
    /// What a list of them holds.
    pub open spec fn list_view(list: Seq<IoCounters>) -> Seq<IoCountersView> {
        list.map_values(|x: IoCounters| x@)
    }

    /// A copy of a list of them.
    pub fn copy_of_list(list: &Vec<IoCounters>) -> (r: Vec<IoCounters>)
        ensures
            IoCounters::list_view(r@) == IoCounters::list_view(list@),
    {
        let mut r: Vec<IoCounters> = Vec::new();
        let mut i: usize = 0;
        while i < list.len()
            invariant
                i <= list@.len(),
                r@.len() == i,
                forall|j: int| 0 <= j < i ==> (#[trigger] r@[j])@ == list@[j]@,
            decreases list@.len() - i,
        {
            r.push(list[i].clone());
            i = i + 1;
        }
        proof {
            assert(IoCounters::list_view(r@) =~= IoCounters::list_view(list@));
        }
        r
    }
}

/// The counters of a device, and what was added since an earlier reading.
#[derive(Debug, PartialEq, Eq)]
pub struct IoDelta {
    pub name: String,
    pub read: u64,
    pub written: u64,
    pub read_delta: u64,
    pub written_delta: u64,
}

/// What a [`IoDelta`] holds, with texts as character sequences.
#[verifier::ext_equal]
pub struct IoDeltaView {
    pub name: Seq<char>,
    pub read: u64,
    pub written: u64,
    pub read_delta: u64,
    pub written_delta: u64,
}

impl View for IoDelta {
    type V = IoDeltaView;

    open spec fn view(&self) -> IoDeltaView {
        IoDeltaView {
            name: self.name@,
            read: self.read,
            written: self.written,
            read_delta: self.read_delta,
            written_delta: self.written_delta,
        }
    }
}

impl Clone for IoDelta {
    fn clone(&self) -> (r: IoDelta)
        ensures
            r@ == self@,
    {
        IoDelta {
            name: self.name.clone(),
            read: self.read,
            written: self.written,
            read_delta: self.read_delta,
            written_delta: self.written_delta,
        }
    }
}

impl IoDelta {
    /// What a list of them holds.
    pub open spec fn list_view(list: Seq<IoDelta>) -> Seq<IoDeltaView> {
        list.map_values(|x: IoDelta| x@)
    }

    /// A copy of a list of them.
    pub fn copy_of_list(list: &Vec<IoDelta>) -> (r: Vec<IoDelta>)
        ensures
            IoDelta::list_view(r@) == IoDelta::list_view(list@),
    {
        let mut r: Vec<IoDelta> = Vec::new();
        let mut i: usize = 0;
        while i < list.len()
            invariant
                i <= list@.len(),
                r@.len() == i,
                forall|j: int| 0 <= j < i ==> (#[trigger] r@[j])@ == list@[j]@,
            decreases list@.len() - i,
        {
            r.push(list[i].clone());
            i = i + 1;
        }
        proof {
            assert(IoDelta::list_view(r@) =~= IoDelta::list_view(list@));
        }
        r
    }
}

/// The default route of an address family.
#[derive(Debug, PartialEq, Eq)]
pub struct DefaultRoute {
    pub interface: Option<String>,
    pub gateway: Option<Ip>,
    pub preferred_source: Option<Ip>,
}

/// What a [`DefaultRoute`] holds, with texts as character sequences.
#[verifier::ext_equal]
pub struct DefaultRouteView {
    pub interface: Option<Seq<char>>,
    pub gateway: Option<Ip>,
    pub preferred_source: Option<Ip>,
}

impl View for DefaultRoute {
    type V = DefaultRouteView;

    open spec fn view(&self) -> DefaultRouteView {
        DefaultRouteView {
            interface: view_option(self.interface),
            gateway: self.gateway,
            preferred_source: self.preferred_source,
        }
    }
}

impl Clone for DefaultRoute {
    fn clone(&self) -> (r: DefaultRoute)
        ensures
            r@ == self@,
    {
        DefaultRoute {
            interface: copy_option(&self.interface),
            gateway: self.gateway,
            preferred_source: self.preferred_source,
        }
    }
}

/// Processor time since boot.
#[derive(Clone, Copy, Debug, PartialEq, Eq, Structural)]
pub struct CpuTicks {
    pub total: u128,
    pub idle: u64,
}

/// Letters, digits, dots, underscores and hyphens, at most `limit` of them.
pub open spec fn device_name(s: Seq<char>, limit: int) -> bool {
    &&& 1 <= s.len() <= limit
    &&& forall|i: int|
        0 <= i < s.len() ==> is_alphanumeric(#[trigger] s[i]) || s[i] == '.' || s[i] == '_' || s[i]
            == '-'
}

fn is_device_name(name: &str, limit: usize) -> (r: bool)
    ensures
        r == device_name(name@, limit as int),
{
    let v = chars_of(name);
    if v.len() == 0 || v.len() > limit {
        return false;
    }
    let mut i: usize = 0;
    while i < v.len()
        invariant
            i <= v@.len(),
            v@ == name@,
            forall|j: int|
                0 <= j < i ==> is_alphanumeric(#[trigger] v@[j]) || v@[j] == '.' || v@[j] == '_'
                    || v@[j] == '-',
        decreases v@.len() - i,
    {
        let c = v[i];
        if !(alphanumeric(c) || c == '.' || c == '_' || c == '-') {
            proof {
                assert(!is_alphanumeric(v@[i as int]));
            }
            return false;
        }
        i = i + 1;
    }
    true
}

/// Whether a text can be the name of a network interface.
pub fn valid_interface_name(name: &str) -> (r: bool)
    ensures
        r == device_name(name@, 15),
{
    is_device_name(name, 15)
}

/// Whether a text can be the name of a block device.
pub fn valid_block_name(name: &str) -> (r: bool)
    ensures
        r == device_name(name@, 64),
{
    is_device_name(name, 64)
}

/// The name of a device has no path separator, so that it cannot lead out of its
/// directory by one.
pub proof fn device_names_have_no_separator(name: Seq<char>, limit: int)
    requires
        device_name(name, limit),
    ensures
        !name.contains('/'),
        crate::text::byte_len(name) == name.len(),
{
    if name.contains('/') {
        let k = choose|k: int| 0 <= k < name.len() && name[k] == '/';
        assert(is_alphanumeric(name[k]) || name[k] == '.' || name[k] == '_' || name[k] == '-');
    }
    crate::text::byte_len_ascii(name);
}

/// Looks at the host, with a preference for one interface.
pub struct HostDetector {
    pub preferred_interface: Option<String>,
}

impl HostDetector {
    /// A detector that prefers an interface, where one is given.
    pub fn new(preferred_interface: Option<String>) -> (r: Result<HostDetector, AppError>)
        ensures
            r is Ok <==> (view_option(preferred_interface) matches Some(n) ==> device_name(n, 15)),
            r matches Ok(d) ==> d.preferred_interface == preferred_interface,
            r matches Err(e) ==> e@ == AppErrorView::Validation(
                "preferred public interface is not a valid Linux interface name"@,
            ),
    {
        let refused = match &preferred_interface {
            Some(name) => !valid_interface_name(name.as_str()),
            None => false,
        };
        if refused {
            return Err(
                validation("preferred public interface is not a valid Linux interface name"),
            );
        }
        Ok(HostDetector { preferred_interface })
    }
}

/// The paths at which a program is looked for, in order.
pub open spec fn binary_path(name: Seq<char>, i: int) -> Seq<char> {
    (if i == 0 {
        "/usr/sbin"@
    } else if i == 1 {
        "/usr/bin"@
    } else if i == 2 {
        "/sbin"@
    } else {
        "/bin"@
    }) + "/"@ + name
}

/// The path number `i` at which a program is looked for.
pub fn binary_candidate(name: &str, i: usize) -> (r: String)
    requires
        i < 4,
    ensures
        r@ == binary_path(name@, i as int),
{
    let directory = match i {
        0 => "/usr/sbin",
        1 => "/usr/bin",
        2 => "/sbin",
        _ => "/bin",
    };
    join3(directory, "/", name)
}

/// The first path at which a program was found; `present` says which of the four
/// candidates are files.
pub fn find_binary(name: &str, present: [bool; 4]) -> (r: Option<String>)
    ensures
        match r {
            Some(path) => exists|i: int|
                0 <= i < 4 && present[i] && path@ == binary_path(name@, i) && forall|j: int|
                    0 <= j < i ==> !present[j],
            None => forall|i: int| 0 <= i < 4 ==> !present[i],
        },
{
    let mut i: usize = 0;
    while i < 4
        invariant
            i <= 4,
            forall|j: int| 0 <= j < i ==> !present[j],
        decreases 4 - i,
    {
        if present[i] {
            let path = binary_candidate(name, i);
            proof {
                assert(path@ == binary_path(name@, i as int));
            }
            return Some(path);
        }
        i = i + 1;
    }
    None
}

/// The interface that counts as primary.
pub open spec fn primary_interface_spec(
    preferred: Option<Seq<char>>,
    route_v4: Option<Seq<char>>,
    route_v6: Option<Seq<char>>,
) -> Option<Seq<char>> {
    if preferred matches Some(n) && device_name(n, 15) {
        preferred
    } else if route_v4 is Some {
        route_v4
    } else {
        route_v6
    }
}

/// The interface that counts as primary: the preferred one, else that of the default
/// routes.
pub fn primary_interface(
    preferred: &Option<String>,
    route_v4: &Option<String>,
    route_v6: &Option<String>,
) -> (r: Option<String>)
    ensures
        view_option(r) == primary_interface_spec(
            view_option(*preferred),
            view_option(*route_v4),
            view_option(*route_v6),
        ),
{
    let usable = match preferred {
        Some(n) => valid_interface_name(n.as_str()),
        None => false,
    };
    if usable {
        copy_option(preferred)
    } else if route_v4.is_some() {
        copy_option(route_v4)
    } else {
        copy_option(route_v6)
    }
}

/// A line `key: value`, with the white space at the ends of both removed.
pub open spec fn entry(line: Seq<char>, sep: char) -> Option<(Seq<char>, Seq<char>)> {
    match split_once_spec(line, sep) {
        Some((k, v)) => Some((trim_spec(k), trim_spec(v))),
        None => None,
    }
}

fn read_entry(line: &str, sep: char) -> (r: Option<(String, String)>)
    ensures
        match r {
            Some((k, v)) => entry(line@, sep) == Some((k@, v@)),
            None => entry(line@, sep) is None,
        },
{
    match split_once(line, sep) {
        Some((k, v)) => Some((trim(k.as_str()), trim(v.as_str()))),
        None => None,
    }
}

/// How many lines announce a processor.
pub open spec fn processor_lines(lines: Seq<Seq<char>>) -> nat
    decreases lines.len(),
{
    if lines.len() == 0 {
        0
    } else {
        processor_lines(lines.drop_last()) + (if starts_with(lines.last(), "processor"@)
            && lines.last().contains(':') {
            1nat
        } else {
            0nat
        })
    }
}

/// The processor model: the first line with a key that names it and a value.
pub open spec fn model_line(lines: Seq<Seq<char>>) -> Option<Seq<char>>
    decreases lines.len(),
{
    if lines.len() == 0 {
        None
    } else {
        match model_line(lines.drop_last()) {
            Some(m) => Some(m),
            None => match entry(lines.last(), ':') {
                Some((k, v)) => if (k == "model name"@ || k == "Processor"@) && v.len() > 0 {
                    Some(v)
                } else {
                    None
                },
                None => None,
            },
        }
    }
}

/// What the lines of one processor say: its socket, its core, and the core count of the
/// socket.
pub struct BlockFacts {
    pub socket: Option<u32>,
    pub core: Option<u32>,
    pub cores: Option<u32>,
}

/// The facts of a block with one more line; `known` says that a core count is known.
pub open spec fn with_line(f: BlockFacts, line: Seq<char>, known: bool) -> BlockFacts {
    match entry(line, ':') {
        None => f,
        Some((k, v)) => if k == "physical id"@ {
            BlockFacts { socket: decimal_u32(v), ..f }
        } else if k == "core id"@ {
            BlockFacts { core: decimal_u32(v), ..f }
        } else if k == "cpu cores"@ && !known && f.cores is None {
            BlockFacts { cores: decimal_u32(v), ..f }
        } else {
            f
        },
    }
}

/// The facts that the lines of a block state.
pub open spec fn block_facts(lines: Seq<Seq<char>>, known: bool) -> BlockFacts
    decreases lines.len(),
{
    if lines.len() == 0 {
        BlockFacts { socket: None, core: None, cores: None }
    } else {
        with_line(block_facts(lines.drop_last(), known), lines.last(), known)
    }
}

/// The physical cores that were seen, and the core count of a socket.
pub struct Cores {
    pub pairs: Seq<(u32, u32)>,
    pub fallback: Option<u32>,
}

/// The cores that are known after one more block.
pub open spec fn with_block(c: Cores, block: Seq<char>) -> Cores {
    let f = block_facts(lines_spec(block), c.fallback is Some);
    Cores {
        pairs: match (f.socket, f.core) {
            (Some(s), Some(k)) => if c.pairs.contains((s, k)) {
                c.pairs
            } else {
                c.pairs.push((s, k))
            },
            _ => c.pairs,
        },
        fallback: if c.fallback is Some {
            c.fallback
        } else {
            f.cores
        },
    }
}

/// The cores that the blocks of a text state.
pub open spec fn cores_of(blocks: Seq<Seq<char>>) -> Cores
    decreases blocks.len(),
{
    if blocks.len() == 0 {
        Cores { pairs: Seq::empty(), fallback: None }
    } else {
        with_block(cores_of(blocks.drop_last()), blocks.last())
    }
}

/// The blocks of a text between empty lines: the separator is two line feeds, found from
/// the front.
pub open spec fn blocks_spec(s: Seq<char>) -> Seq<Seq<char>>
    decreases s.len(),
{
    let i = gap(s);
    if 0 <= i && i + 2 <= s.len() {
        seq![s.take(i)] + blocks_spec(s.skip(i + 2))
    } else {
        seq![s]
    }
}

/// Where the first two line feeds in a row stand, or the length of the text.
pub open spec fn gap(s: Seq<char>) -> int
    decreases s.len(),
{
    if s.len() < 2 {
        s.len() as int
    } else if s[0] == '\n' && s[1] == '\n' {
        0
    } else {
        1 + gap(s.drop_first())
    }
}

proof fn gap_is_inside(s: Seq<char>)
    ensures
        0 <= gap(s) <= s.len(),
        gap(s) < s.len() ==> gap(s) + 2 <= s.len(),
    decreases s.len(),
{
    if s.len() >= 2 && !(s[0] == '\n' && s[1] == '\n') {
        gap_is_inside(s.drop_first());
    }
}

fn blocks(s: &str) -> (r: Vec<String>)
    ensures
        views(r@) == blocks_spec(s@),
{
    let v = chars_of(s);
    let mut r: Vec<String> = Vec::new();
    let mut from: usize = 0;
    let mut done: bool = false;
    proof {
        assert(v@.skip(0) =~= v@);
        assert(views(r@) =~= Seq::<Seq<char>>::empty());
        assert(Seq::<Seq<char>>::empty() + blocks_spec(s@) =~= blocks_spec(s@));
    }
    while !done
        invariant
            from <= v@.len(),
            v@ == s@,
            !done ==> views(r@) + blocks_spec(v@.skip(from as int)) == blocks_spec(s@),
            done ==> views(r@) == blocks_spec(s@),
        decreases
            if done {
                0
            } else {
                v@.len() - from + 1
            },
    {
        let ghost rest = v@.skip(from as int);
        let mut i: usize = from;
        proof {
            assert(rest.skip(0) =~= rest);
            gap_is_inside(rest);
        }
        while v.len() - i >= 2 && !(v[i] == '\n' && v[i + 1] == '\n')
            invariant
                from <= i <= v@.len(),
                rest == v@.skip(from as int),
                gap(rest) == (i - from) + gap(rest.skip(i - from)),
            decreases v@.len() - i,
        {
            proof {
                let here = rest.skip(i - from);
                assert(here[0] == v@[i as int]);
                assert(here[1] == v@[i as int + 1]);
                assert(here.drop_first() =~= rest.skip(i - from + 1));
            }
            i = i + 1;
        }
        let ghost before = r@;
        proof {
            let here = rest.skip(i - from);
            if v@.len() - i >= 2 {
                assert(here[0] == v@[i as int]);
                assert(here[1] == v@[i as int + 1]);
                assert(gap(here) == 0);
            } else {
                assert(gap(here) == here.len());
            }
        }
        if v.len() - i >= 2 {
            let piece = text_of(&v, from, i);
            let ghost chars = piece@;
            r.push(piece);
            proof {
                assert(v@.subrange(from as int, i as int) =~= rest.take(i - from));
                assert(rest.skip(i - from + 2) =~= v@.skip(i as int + 2));
                assert(views(r@) =~= views(before).push(chars));
                assert(views(before) + (seq![chars] + blocks_spec(v@.skip(i as int + 2)))
                    =~= views(r@) + blocks_spec(v@.skip(i as int + 2)));
            }
            from = i + 2;
        } else {
            let piece = text_of(&v, from, v.len());
            let ghost chars = piece@;
            r.push(piece);
            proof {
                assert(v@.subrange(from as int, v@.len() as int) =~= rest);
                assert(views(r@) =~= views(before).push(chars));
                assert(views(before) + seq![chars] =~= views(r@));
            }
            done = true;
        }
    }
    r
}

/// Whether a character is alphanumeric in Unicode.
pub uninterp spec fn unicode_alphanumeric(c: char) -> bool;

/// `char::is_alphanumeric`: a letter or a number of any script; among the ASCII characters
/// the letters and digits.
#[verifier::external_body]
fn alphanumeric_anywhere(c: char) -> (r: bool)
    ensures
        r == unicode_alphanumeric(c),
        (c as u32) < 0x80 ==> r == is_alphanumeric(c),
{
    c.is_alphanumeric()
}

/// `s` without the characters at its two ends that are not alphanumeric.
pub open spec fn bare_word(s: Seq<char>) -> Seq<char>
    decreases s.len(),
{
    if s.len() == 0 {
        s
    } else if !unicode_alphanumeric(s[0]) {
        bare_word(s.drop_first())
    } else if !unicode_alphanumeric(s.last()) {
        bare_word(s.drop_last())
    } else {
        s
    }
}

fn read_bare_word(s: &str) -> (r: String)
    ensures
        r@ == bare_word(s@),
{
    let v = chars_of(s);
    let mut from: usize = 0;
    let mut to: usize = v.len();
    proof {
        assert(v@.subrange(0, v@.len() as int) =~= v@);
    }
    while from < to && !alphanumeric_anywhere(v[from])
        invariant
            from <= to == v@.len(),
            bare_word(v@.subrange(from as int, to as int)) == bare_word(v@),
        decreases to - from,
    {
        proof {
            let cur = v@.subrange(from as int, to as int);
            assert(cur.drop_first() =~= v@.subrange(from as int + 1, to as int));
        }
        from = from + 1;
    }
    while from < to && !alphanumeric_anywhere(v[to - 1])
        invariant
            from <= to <= v@.len(),
            from < to ==> unicode_alphanumeric(v@[from as int]),
            bare_word(v@.subrange(from as int, to as int)) == bare_word(v@),
        decreases to - from,
    {
        proof {
            let cur = v@.subrange(from as int, to as int);
            assert(cur[0] == v@[from as int]);
            assert(cur.last() == v@[to - 1]);
            assert(cur.drop_last() =~= v@.subrange(from as int, to as int - 1));
        }
        to = to - 1;
    }
    proof {
        let cur = v@.subrange(from as int, to as int);
        if from < to {
            assert(cur[0] == v@[from as int]);
            assert(cur.last() == v@[to - 1]);
        }
    }
    text_of(&v, from, to)
}

/// Some word of a text is the flag of hardware virtualization.
pub open spec fn virtualization_flag(words: Seq<Seq<char>>) -> bool {
    exists|i: int|
        0 <= i < words.len() && (bare_word(#[trigger] words[i]) == "vmx"@ || bare_word(words[i])
            == "svm"@)
}

/// What the texts of the kernel say of the processors.
pub open spec fn cpu_info(
    cpuinfo: Seq<char>,
    frequency_khz: Option<Seq<char>>,
    kvm_device_available: bool,
) -> CpuInfoView {
    let all = lines_spec(cpuinfo);
    let count = processor_lines(all);
    let logical = (if count == 0 {
        1
    } else {
        count
    }) as u32;
    let cores = cores_of(blocks_spec(cpuinfo));
    CpuInfoView {
        model: model_line(all),
        logical_cores: logical,
        physical_cores: if cores.pairs.len() > 0 && cores.pairs.len() <= u32::MAX {
            cores.pairs.len() as u32
        } else {
            match cores.fallback {
                Some(n) => n,
                None => logical,
            }
        },
        current_frequency_mhz: match frequency_khz {
            Some(text) => match decimal_u64(text) {
                Some(khz) => Some(khz / 1000),
                None => None,
            },
            None => None,
        },
        virtualization_supported: virtualization_flag(words_spec(cpuinfo, true)),
        kvm_device_available,
    }
}

fn count_processors(all: &Vec<String>) -> (r: usize)
    ensures
        r == processor_lines(views(all@)),
        r <= all@.len(),
{
    let ghost ls = views(all@);
    let mut r: usize = 0;
    let mut i: usize = 0;
    proof {
        assert(ls.take(0) =~= Seq::<Seq<char>>::empty());
    }
    while i < all.len()
        invariant
            i <= all@.len(),
            ls == views(all@),
            r <= i,
            r == processor_lines(ls.take(i as int)),
        decreases all@.len() - i,
    {
        proof {
            assert(ls.take(i as int + 1).drop_last() =~= ls.take(i as int));
            assert(ls.take(i as int + 1).last() == all@[i as int]@);
        }
        if has_prefix(all[i].as_str(), "processor") && contains_char(all[i].as_str(), ':') {
            r = r + 1;
        }
        i = i + 1;
    }
    proof {
        assert(ls.take(ls.len() as int) =~= ls);
    }
    r
}

fn find_model(all: &Vec<String>) -> (r: Option<String>)
    ensures
        view_option(r) == model_line(views(all@)),
{
    let ghost ls = views(all@);
    let mut r: Option<String> = None;
    let mut i: usize = 0;
    proof {
        assert(ls.take(0) =~= Seq::<Seq<char>>::empty());
    }
    while i < all.len()
        invariant
            i <= all@.len(),
            ls == views(all@),
            view_option(r) == model_line(ls.take(i as int)),
        decreases all@.len() - i,
    {
        proof {
            assert(ls.take(i as int + 1).drop_last() =~= ls.take(i as int));
            assert(ls.take(i as int + 1).last() == all@[i as int]@);
        }
        if r.is_none() {
            match read_entry(all[i].as_str(), ':') {
                Some((k, v)) => {
                    if (same(k.as_str(), "model name") || same(k.as_str(), "Processor"))
                        && !v.as_str().is_empty() {
                        r = Some(v);
                    }
                },
                None => {},
            }
        }
        i = i + 1;
    }
    proof {
        assert(ls.take(ls.len() as int) =~= ls);
    }
    r
}

fn read_block(block: &str, known: bool) -> (r: BlockFacts)
    ensures
        r == block_facts(lines_spec(block@), known),
{
    let all = lines(block);
    let ghost ls = views(all@);
    let mut f = BlockFacts { socket: None, core: None, cores: None };
    let mut i: usize = 0;
    proof {
        assert(ls.take(0) =~= Seq::<Seq<char>>::empty());
    }
    while i < all.len()
        invariant
            i <= all@.len(),
            ls == views(all@),
            f == block_facts(ls.take(i as int), known),
        decreases all@.len() - i,
    {
        proof {
            assert(ls.take(i as int + 1).drop_last() =~= ls.take(i as int));
            assert(ls.take(i as int + 1).last() == all@[i as int]@);
        }
        match read_entry(all[i].as_str(), ':') {
            None => {},
            Some((k, v)) => {
                if same(k.as_str(), "physical id") {
                    f.socket = parse_u32(v.as_str());
                } else if same(k.as_str(), "core id") {
                    f.core = parse_u32(v.as_str());
                } else if same(k.as_str(), "cpu cores") && !known && f.cores.is_none() {
                    f.cores = parse_u32(v.as_str());
                }
            },
        }
        i = i + 1;
    }
    proof {
        assert(ls.take(ls.len() as int) =~= ls);
    }
    f
}

fn holds_pair(pairs: &Vec<(u32, u32)>, s: u32, k: u32) -> (r: bool)
    ensures
        r == pairs@.contains((s, k)),
{
    let mut i: usize = 0;
    while i < pairs.len()
        invariant
            i <= pairs@.len(),
            forall|j: int| 0 <= j < i ==> pairs@[j] != (s, k),
        decreases pairs@.len() - i,
    {
        if pairs[i].0 == s && pairs[i].1 == k {
            proof {
                assert(pairs@[i as int] == (s, k));
            }
            return true;
        }
        i = i + 1;
    }
    false
}

fn add_block(pairs: Vec<(u32, u32)>, fallback: Option<u32>, block: &str) -> (r: (
    Vec<(u32, u32)>,
    Option<u32>,
))
    ensures
        with_block(Cores { pairs: pairs@, fallback }, block@) == (Cores {
            pairs: r.0@,
            fallback: r.1,
        }),
{
    let mut pairs = pairs;
    let f = read_block(block, fallback.is_some());
    match (f.socket, f.core) {
        (Some(s), Some(k)) => {
            if !holds_pair(&pairs, s, k) {
                pairs.push((s, k));
            }
        },
        _ => {},
    }
    let next = if fallback.is_some() {
        fallback
    } else {
        f.cores
    };
    (pairs, next)
}

fn read_cores(cpuinfo: &str) -> (r: (Vec<(u32, u32)>, Option<u32>))
    ensures
        cores_of(blocks_spec(cpuinfo@)) == (Cores { pairs: r.0@, fallback: r.1 }),
{
    let all = blocks(cpuinfo);
    let ghost bs = views(all@);
    let mut pairs: Vec<(u32, u32)> = Vec::new();
    let mut fallback: Option<u32> = None;
    let mut i: usize = 0;
    proof {
        assert(bs.take(0) =~= Seq::<Seq<char>>::empty());
        assert(pairs@ =~= Seq::empty());
    }
    while i < all.len()
        invariant
            i <= all@.len(),
            bs == views(all@),
            cores_of(bs.take(i as int)) == (Cores { pairs: pairs@, fallback }),
        decreases all@.len() - i,
    {
        proof {
            assert(bs.take(i as int + 1).drop_last() =~= bs.take(i as int));
            assert(bs.take(i as int + 1).last() == all@[i as int]@);
        }
        let (p, f) = add_block(pairs, fallback, all[i].as_str());
        pairs = p;
        fallback = f;
        i = i + 1;
    }
    proof {
        assert(bs.take(bs.len() as int) =~= bs);
    }
    (pairs, fallback)
}

#[verifier::loop_isolation(false)]
fn has_virtualization(cpuinfo: &str) -> (r: bool)
    ensures
        r == virtualization_flag(words_spec(cpuinfo@, true)),
{
    let all = words(cpuinfo, true);
    let ghost ws = views(all@);
    let mut i: usize = 0;
    while i < all.len()
        invariant
            i <= all@.len(),
            ws == views(all@),
            forall|j: int|
                0 <= j < i ==> bare_word(#[trigger] ws[j]) != "vmx"@ && bare_word(ws[j]) != "svm"@,
        decreases all@.len() - i,
    {
        proof {
            assert(ws[i as int] == all@[i as int]@);
        }
        let word = read_bare_word(all[i].as_str());
        if same(word.as_str(), "vmx") || same(word.as_str(), "svm") {
            proof {
                assert(bare_word(ws[i as int]) == "vmx"@ || bare_word(ws[i as int]) == "svm"@);
            }
            return true;
        }
        i = i + 1;
    }
    false
}

/// What the texts of the kernel say of the processors. `frequency` is the present
/// frequency in kHz.
pub fn parse_cpu_info(cpuinfo: &str, frequency: &Option<String>, kvm_device_available: bool) -> (r:
    CpuInfo)
    ensures
        r@ == cpu_info(cpuinfo@, view_option(*frequency), kvm_device_available),
{
    let all = lines(cpuinfo);
    let count: usize = count_processors(&all);
    let logical_cores: u32 = if count == 0 {
        1
    } else {
        #[verifier::truncate]
        (count as u32)
    };
    let (pairs, fallback) = read_cores(cpuinfo);
    let physical_cores: u32 = if pairs.len() > 0 && pairs.len() <= u32::MAX as usize {
        pairs.len() as u32
    } else {
        match fallback {
            Some(n) => n,
            None => logical_cores,
        }
    };
    let current_frequency_mhz: Option<u64> = match frequency {
        Some(text) => match parse_u64(text.as_str()) {
            Some(khz) => Some(khz / 1000),
            None => None,
        },
        None => None,
    };
    CpuInfo {
        model: find_model(&all),
        logical_cores,
        physical_cores,
        current_frequency_mhz,
        virtualization_supported: has_virtualization(cpuinfo),
        kvm_device_available,
    }
}

/// The device that leads outside is the one that is asked for, where it can be the name of
/// one, else that of the route of the fourth version, else that of the sixth.
pub proof fn which_device_leads_outside(
    preferred: Option<Seq<char>>,
    route_v4: Option<Seq<char>>,
    route_v6: Option<Seq<char>>,
)
    ensures
        ({
            let found = primary_interface_spec(preferred, route_v4, route_v6);
            let good = preferred is Some && device_name(preferred->0, 15);
            &&& good ==> found == preferred
            &&& !good && route_v4 is Some ==> found == route_v4
            &&& !good && route_v4 is None ==> found == route_v6
        }),
{
}

/// The processors are the lines that begin with the word and have a colon.
pub proof fn processors_are_counted(a: Seq<Seq<char>>, line: Seq<char>)
    ensures
        processor_lines(Seq::<Seq<char>>::empty()) == 0,
        processor_lines(a.push(line)) == processor_lines(a) + (if starts_with(line, "processor"@)
            && line.contains(':') {
            1nat
        } else {
            0nat
        }),
{
    assert(a.push(line).drop_last() =~= a);
}

/// A line names the model of the processor.
pub open spec fn names_model(line: Seq<char>, model: Seq<char>) -> bool {
    exists|k: Seq<char>, v: Seq<char>|
        line == #[trigger] (k.push(':') + v) && !k.contains(':') && (trim_spec(k) == "model name"@
            || trim_spec(k) == "Processor"@) && trim_spec(v) == model && model.len() > 0
}

proof fn model_of_a_line(line: Seq<char>, model: Seq<char>)
    ensures
        names_model(line, model) <==> (entry(line, ':') matches Some((k, v)) && (k
            == "model name"@ || k == "Processor"@) && v.len() > 0 && v == model),
{
    splitting_once(line, ':');
    if names_model(line, model) {
        let (k, v) = choose|k: Seq<char>, v: Seq<char>|
            line == #[trigger] (k.push(':') + v) && !k.contains(':') && (trim_spec(k)
                == "model name"@ || trim_spec(k) == "Processor"@) && trim_spec(v) == model
                && model.len() > 0;
        the_first_separator(k, ':', v);
    }
    if entry(line, ':') is Some {
        let (k, v) = split_once_spec(line, ':')->0;
        assert(line == k.push(':') + v);
    }
}

/// The model is that of the first line that names one.
pub proof fn the_first_model_counts(lines: Seq<Seq<char>>)
    ensures
        model_line(lines) is None <==> forall|i: int, m: Seq<char>|
            0 <= i < lines.len() ==> !#[trigger] names_model(lines[i], m),
        model_line(lines) matches Some(m) ==> exists|i: int|
            0 <= i < lines.len() && #[trigger] names_model(lines[i], m) && forall|
                j: int,
                o: Seq<char>,
            |
                0 <= j < i ==> !#[trigger] names_model(lines[j], o),
    decreases lines.len(),
{
    if lines.len() > 0 {
        let front = lines.drop_last();
        let n = lines.len() - 1;
        the_first_model_counts(front);
        assert(lines[n] == lines.last());
        assert forall|i: int| 0 <= i < n implies #[trigger] lines[i] == front[i] by {}
        assert forall|i: int| 0 <= i < front.len() implies #[trigger] front[i] == lines[i] by {}
        assert forall|m: Seq<char>| #[trigger] names_model(lines[n], m) <==> (entry(lines[n], ':')
            matches Some((k, v)) && (k == "model name"@ || k == "Processor"@) && v.len() > 0 && v
            == m) by {
            model_of_a_line(lines[n], m);
        }
        if model_line(front) is Some {
            let m = model_line(front)->0;
            let i = choose|i: int|
                0 <= i < front.len() && #[trigger] names_model(front[i], m) && forall|
                    j: int,
                    o: Seq<char>,
                |
                    0 <= j < i ==> !#[trigger] names_model(front[j], o);
            assert(names_model(lines[i], m));
            assert forall|j: int, o: Seq<char>| 0 <= j < i implies !#[trigger] names_model(
                lines[j],
                o,
            ) by {
                assert(!names_model(front[j], o));
            }
        } else {
            assert forall|j: int, o: Seq<char>| 0 <= j < n implies !#[trigger] names_model(
                lines[j],
                o,
            ) by {
                assert(!names_model(front[j], o));
            }
            if model_line(lines) is Some {
                assert(names_model(lines[n], model_line(lines)->0));
            }
        }
    }
}

/// The cores that are told of are those that some block gives with its socket, each once.
pub proof fn cores_are_counted_once(blocks: Seq<Seq<char>>)
    ensures
        cores_of(blocks).pairs.no_duplicates(),
        forall|p: (u32, u32)| #[trigger]
            cores_of(blocks).pairs.contains(p) <==> exists|i: int|
                0 <= i < blocks.len() && is_core_of(#[trigger] blocks[i], p),
    decreases blocks.len(),
{
    if blocks.len() > 0 {
        let front = blocks.drop_last();
        let n = blocks.len() - 1;
        cores_are_counted_once(front);
        let before = cores_of(front).pairs;
        let after = cores_of(blocks).pairs;
        same_core(lines_spec(blocks.last()), cores_of(front).fallback is Some);
        assert forall|p: (u32, u32)| #[trigger] after.contains(p) <==> exists|i: int|
            0 <= i < blocks.len() && is_core_of(#[trigger] blocks[i], p) by {
            assert(blocks[n] == blocks.last());
            if after.contains(p) {
                if before.contains(p) {
                    let i = choose|i: int|
                        0 <= i < front.len() && is_core_of(#[trigger] front[i], p);
                    assert(is_core_of(blocks[i], p));
                } else {
                    let i = choose|i: int| 0 <= i < after.len() && after[i] == p;
                    assert(i >= before.len() || before[i] == p);
                    assert(is_core_of(blocks[n], p));
                }
            }
            if exists|i: int| 0 <= i < blocks.len() && is_core_of(#[trigger] blocks[i], p) {
                let i = choose|i: int| 0 <= i < blocks.len() && is_core_of(#[trigger] blocks[i], p);
                if i < n {
                    assert(front[i] == blocks[i]);
                    assert(before.contains(p));
                    let k = choose|k: int| 0 <= k < before.len() && before[k] == p;
                    assert(after[k] == p);
                } else if !before.contains(p) {
                    assert(after[before.len() as int] == p);
                }
            }
        }
    }
}

/// A block tells of a core: the last line of its kind gives the socket, and the last line of
/// the other kind gives the core.
pub open spec fn is_core_of(block: Seq<char>, p: (u32, u32)) -> bool {
    let facts = block_facts(lines_spec(block), false);
    facts.socket == Some(p.0) && facts.core == Some(p.1)
}

proof fn same_core(lines: Seq<Seq<char>>, known: bool)
    ensures
        block_facts(lines, known).socket == block_facts(lines, false).socket,
        block_facts(lines, known).core == block_facts(lines, false).core,
    decreases lines.len(),
{
    if lines.len() > 0 {
        same_core(lines.drop_last(), known);
    }
}

/// What a further line of a block tells: the number behind its colon is the socket, the core
/// or, where none was told before, how many cores there are; any other line tells nothing.
pub proof fn what_a_line_of_a_block_tells(
    lines: Seq<Seq<char>>,
    key: Seq<char>,
    rest: Seq<char>,
    n: nat,
)
    requires
        !key.contains(':'),
        n <= u32::MAX,
        trim_spec(rest) == decimal_text(n),
    ensures
        ({
            let before = block_facts(lines, false);
            let after = block_facts(lines.push(key.push(':') + rest), false);
            &&& after.socket == (if trim_spec(key) == "physical id"@ {
                Some(n as u32)
            } else {
                before.socket
            })
            &&& after.core == (if trim_spec(key) == "core id"@ {
                Some(n as u32)
            } else {
                before.core
            })
            &&& after.cores == (if trim_spec(key) == "cpu cores"@ && before.cores is None {
                Some(n as u32)
            } else {
                before.cores
            })
        }),
        block_facts(lines.push(key), false) == block_facts(lines, false),
{
    the_first_separator(key, ':', rest);
    written_numbers_are_read_back(n, u32::MAX as int);
    assert(lines.push(key.push(':') + rest).drop_last() =~= lines);
    assert(lines.push(key).drop_last() =~= lines);
    reveal_strlit("physical id");
    reveal_strlit("core id");
    reveal_strlit("cpu cores");
    assert("physical id"@.len() != "core id"@.len());
    assert("physical id"@.len() != "cpu cores"@.len());
    assert("core id"@.len() != "cpu cores"@.len());
}

/// What is said of the processor: there is at least one, the cores are those that the blocks
/// tell of, and the frequency is in thousands.
pub proof fn what_is_said_of_the_processor(text: Seq<char>, n: nat, device: bool)
    requires
        n <= u64::MAX,
    ensures
        ({
            let c = cpu_info(text, Some(decimal_text(n)), device);
            let pairs = cores_of(blocks_spec(text)).pairs;
            &&& c.current_frequency_mhz == Some((n / 1000) as u64)
            &&& cpu_info(text, None, device).current_frequency_mhz is None
            &&& c.kvm_device_available == device
            &&& c.model == model_line(lines_spec(text))
            &&& processor_lines(lines_spec(text)) == 0 ==> c.logical_cores == 1
            &&& 0 < processor_lines(lines_spec(text)) <= u32::MAX ==> c.logical_cores
                == processor_lines(lines_spec(text))
            &&& 0 < pairs.len() <= u32::MAX ==> c.physical_cores == pairs.len()
            &&& pairs.len() == 0 && cores_of(blocks_spec(text)).fallback is None
                ==> c.physical_cores == c.logical_cores
            &&& pairs.len() == 0 && cores_of(blocks_spec(text)).fallback is Some
                ==> c.physical_cores == cores_of(blocks_spec(text)).fallback->0
        }),
{
    written_numbers_are_read_back(n, u64::MAX as int);
}

} // verus!
