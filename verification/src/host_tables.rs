//! The tables of the kernel and of the system tools: memory, addresses, routes, file
//! systems, counters and ports.

use vstd::prelude::*;

use crate::error::{internal, AppError, AppErrorView};
use crate::host::{
    device_name, entry, valid_block_name, valid_interface_name, CpuTicks, DefaultRoute,
    DefaultRouteView, FilesystemInfo, FilesystemInfoView, HostAddress, HostAddressView,
    InterfaceAddress, InterfaceAddressView, IoCounters, IoCountersView, IoDelta, IoDeltaView,
    MemoryInfo, NetworkInterfaceInfo, NetworkInterfaceInfoView,
};
use crate::json::{json_text, Document, Json};
use crate::net::{ip_value, parse_ip, Ip};
use crate::numbers::{decimal_u64, hexadecimal_u16, parse_hex_u16, parse_u64};
use crate::table::{matching, matching_of_both, matching_of_none, models};
use crate::text::{
    chars_of, first_word, first_word_spec, has_prefix, in_order, join3, lines, lines_spec,
    list_contains, same, split_once, split_once_spec, starts_with, text_le, text_le_is_total,
    text_le_is_transitive, text_of, trim, trim_start_spec, view_option, views, words, words_spec,
};

verus! {

broadcast use vstd::string::group_string_axioms;

/// `v` times `k`, or the largest number where that is larger.
pub open spec fn saturating_product(v: u64, k: int) -> u64 {
    if v * k > u64::MAX {
        u64::MAX
    } else {
        (v * k) as u64
    }
}

fn saturating_mul(v: u64, k: u64) -> (r: u64)
    ensures
        r == saturating_product(v, k as int),
{
    match v.checked_mul(k) {
        Some(p) => p,
        None => u64::MAX,
    }
}

/// The bytes that a line of the memory table states for a key.
pub open spec fn memory_line(line: Seq<char>, key: Seq<char>) -> Option<u64> {
    match split_once_spec(line, ':') {
        Some((k, v)) => if k == key {
            match first_word_spec(v) {
                Some(word) => match decimal_u64(word) {
                    Some(kib) => Some(saturating_product(kib, 1024)),
                    None => None,
                },
                None => None,
            }
        } else {
            None
        },
        None => None,
    }
}

/// The bytes that the last line for a key states.
pub open spec fn memory_value(lines: Seq<Seq<char>>, key: Seq<char>) -> Option<u64>
    decreases lines.len(),
{
    if lines.len() == 0 {
        None
    } else {
        match memory_line(lines.last(), key) {
            Some(v) => Some(v),
            None => memory_value(lines.drop_last(), key),
        }
    }
}

/// A value, or zero.
pub open spec fn or_zero(v: Option<u64>) -> u64 {
    match v {
        Some(n) => n,
        None => 0,
    }
}

/// What the memory table states.
pub open spec fn memory_info(text: Seq<char>) -> MemoryInfo {
    let ls = lines_spec(text);
    MemoryInfo {
        total_bytes: or_zero(memory_value(ls, "MemTotal"@)),
        available_bytes: match memory_value(ls, "MemAvailable"@) {
            Some(n) => n,
            None => or_zero(memory_value(ls, "MemFree"@)),
        },
        swap_total_bytes: or_zero(memory_value(ls, "SwapTotal"@)),
        swap_free_bytes: or_zero(memory_value(ls, "SwapFree"@)),
    }
}

fn read_memory_line(line: &str, key: &str) -> (r: Option<u64>)
    ensures
        r == memory_line(line@, key@),
{
    match split_once(line, ':') {
        Some((k, v)) => {
            if !same(k.as_str(), key) {
                return None;
            }
            match first_word(v.as_str()) {
                Some(word) => match parse_u64(word.as_str()) {
                    Some(kib) => Some(saturating_mul(kib, 1024)),
                    None => None,
                },
                None => None,
            }
        },
        None => None,
    }
}

#[verifier::loop_isolation(false)]
fn read_memory_value(all: &Vec<String>, key: &str) -> (r: Option<u64>)
    ensures
        r == memory_value(views(all@), key@),
{
    let ghost ls = views(all@);
    let mut n: usize = all.len();
    proof {
        assert(ls.take(ls.len() as int) =~= ls);
    }
    while n > 0
        invariant
            n <= all@.len(),
            memory_value(ls, key@) == memory_value(ls.take(n as int), key@),
        decreases n,
    {
        proof {
            assert(ls.take(n as int).drop_last() =~= ls.take(n as int - 1));
            assert(ls.take(n as int).last() == all@[n as int - 1]@);
        }
        n = n - 1;
        match read_memory_line(all[n].as_str(), key) {
            Some(v) => {
                return Some(v);
            },
            None => {},
        }
    }
    None
}

/// What the memory table states.
pub fn read_memory_info(raw: &str) -> (r: MemoryInfo)
    ensures
        r == memory_info(raw@),
{
    let all = lines(raw);
    let available = match read_memory_value(&all, "MemAvailable") {
        Some(n) => Some(n),
        None => read_memory_value(&all, "MemFree"),
    };
    MemoryInfo {
        total_bytes: zero_if_none(read_memory_value(&all, "MemTotal")),
        available_bytes: zero_if_none(available),
        swap_total_bytes: zero_if_none(read_memory_value(&all, "SwapTotal")),
        swap_free_bytes: zero_if_none(read_memory_value(&all, "SwapFree")),
    }
}

fn zero_if_none(v: Option<u64>) -> (r: u64)
    ensures
        r == or_zero(v),
{
    match v {
        Some(n) => n,
        None => 0,
    }
}

/// Memory that is in use.
pub fn memory_used(m: MemoryInfo) -> (r: u64)
    ensures
        r == (if m.total_bytes >= m.available_bytes {
            m.total_bytes - m.available_bytes
        } else {
            0
        }),
{
    if m.total_bytes >= m.available_bytes {
        m.total_bytes - m.available_bytes
    } else {
        0
    }
}

/// `s` without quotation marks at its two ends.
pub open spec fn unquoted(s: Seq<char>) -> Seq<char>
    decreases s.len(),
{
    if s.len() > 0 && s[0] == '"' {
        unquoted(s.drop_first())
    } else if s.len() > 0 && s.last() == '"' {
        unquoted(s.drop_last())
    } else {
        s
    }
}

fn unquote(s: &str) -> (r: String)
    ensures
        r@ == unquoted(s@),
{
    let v = chars_of(s);
    let mut from: usize = 0;
    let mut to: usize = v.len();
    proof {
        assert(v@.subrange(0, v@.len() as int) =~= v@);
    }
    while from < to && v[from] == '"'
        invariant
            from <= to == v@.len(),
            unquoted(v@.subrange(from as int, to as int)) == unquoted(v@),
        decreases to - from,
    {
        proof {
            let cur = v@.subrange(from as int, to as int);
            assert(cur.drop_first() =~= v@.subrange(from as int + 1, to as int));
        }
        from = from + 1;
    }
    while from < to && v[to - 1] == '"'
        invariant
            from <= to <= v@.len(),
            from < to ==> v@[from as int] != '"',
            unquoted(v@.subrange(from as int, to as int)) == unquoted(v@),
        decreases to - from,
    {
        proof {
            let cur = v@.subrange(from as int, to as int);
            assert(cur[0] == v@[from as int]);
            assert(cur.last() == v@[to - 1]);
            assert(cur.drop_last() =~= v@.subrange(from as int, to as int - 1));
        }
        to = to - 1;
    }
    proof {
        let cur = v@.subrange(from as int, to as int);
        if from < to {
            assert(cur[0] == v@[from as int]);
            assert(cur.last() == v@[to - 1]);
        }
    }
    text_of(&v, from, to)
}

/// What a line of the release file gives to a key; comments give nothing.
pub open spec fn os_line(line: Seq<char>, key: Seq<char>) -> Option<Seq<char>> {
    let text = trim_start_spec(line);
    if text.len() > 0 && text[0] == '#' {
        None
    } else {
        match entry(line, '=') {
            Some((k, v)) => if k == key {
                Some(unquoted(v))
            } else {
                None
            },
            None => None,
        }
    }
}

/// What the last line for a key gives to it.
pub open spec fn os_value(lines: Seq<Seq<char>>, key: Seq<char>) -> Option<Seq<char>>
    decreases lines.len(),
{
    if lines.len() == 0 {
        None
    } else {
        match os_line(lines.last(), key) {
            Some(v) => Some(v),
            None => os_value(lines.drop_last(), key),
        }
    }
}

/// The name of the operating system.
pub open spec fn os_name(text: Seq<char>) -> Option<Seq<char>> {
    let ls = lines_spec(text);
    match os_value(ls, "PRETTY_NAME"@) {
        Some(v) => Some(v),
        None => os_value(ls, "NAME"@),
    }
}

fn begins_with_hash(line: &str) -> (r: bool)
    ensures
        r == (trim_start_spec(line@).len() > 0 && trim_start_spec(line@)[0] == '#'),
{
    let v = chars_of(line);
    let mut i: usize = 0;
    proof {
        assert(v@.skip(0) =~= v@);
    }
    while i < v.len() && crate::text::whitespace(v[i])
        invariant
            i <= v@.len(),
            v@ == line@,
            trim_start_spec(v@.skip(i as int)) == trim_start_spec(v@),
        decreases v@.len() - i,
    {
        proof {
            assert(v@.skip(i as int).drop_first() =~= v@.skip(i as int + 1));
        }
        i = i + 1;
    }
    i < v.len() && v[i] == '#'
}

fn read_os_line(line: &str, key: &str) -> (r: Option<String>)
    ensures
        view_option(r) == os_line(line@, key@),
{
    if begins_with_hash(line) {
        return None;
    }
    match split_once(line, '=') {
        Some((k, v)) => {
            let name = trim(k.as_str());
            let value = trim(v.as_str());
            if same(name.as_str(), key) {
                Some(unquote(value.as_str()))
            } else {
                None
            }
        },
        None => None,
    }
}

#[verifier::loop_isolation(false)]
fn read_os_value(all: &Vec<String>, key: &str) -> (r: Option<String>)
    ensures
        view_option(r) == os_value(views(all@), key@),
{
    let ghost ls = views(all@);
    let mut n: usize = all.len();
    proof {
        assert(ls.take(ls.len() as int) =~= ls);
    }
    while n > 0
        invariant
            n <= all@.len(),
            os_value(ls, key@) == os_value(ls.take(n as int), key@),
        decreases n,
    {
        proof {
            assert(ls.take(n as int).drop_last() =~= ls.take(n as int - 1));
            assert(ls.take(n as int).last() == all@[n as int - 1]@);
        }
        n = n - 1;
        match read_os_line(all[n].as_str(), key) {
            Some(v) => {
                return Some(v);
            },
            None => {},
        }
    }
    None
}

/// The name of the operating system.
pub fn read_os_name(raw: &str) -> (r: Option<String>)
    ensures
        view_option(r) == os_name(raw@),
{
    let all = lines(raw);
    match read_os_value(&all, "PRETTY_NAME") {
        Some(v) => Some(v),
        None => read_os_value(&all, "NAME"),
    }
}

/// The longest prefix of an address of the family.
pub open spec fn max_prefix(ip: Ip) -> u8 {
    if ip.v6 {
        128
    } else {
        32
    }
}

/// What one entry of an interface states as an address.
pub open spec fn address_item(name: Seq<char>, item: Json) -> Option<InterfaceAddressView> {
    match item.text_member("local"@) {
        None => None,
        Some(text) => match ip_value(text) {
            None => None,
            Some(ip) => Some(
                InterfaceAddressView {
                    interface: name,
                    address: ip,
                    prefix_len: match item.member("prefixlen"@) {
                        Some(p) => match p.unsigned() {
                            Some(n) => if n <= max_prefix(ip) {
                                n as u8
                            } else {
                                max_prefix(ip)
                            },
                            None => max_prefix(ip),
                        },
                        None => max_prefix(ip),
                    },
                    scope: match item.text_member("scope"@) {
                        Some(s) => s,
                        None => "unknown"@,
                    },
                },
            ),
        },
    }
}

/// The addresses that some entries of an interface state.
pub open spec fn address_items(name: Seq<char>, items: Seq<Json>) -> Seq<InterfaceAddressView>
    decreases items.len(),
{
    if items.len() == 0 {
        Seq::empty()
    } else {
        let front = address_items(name, items.drop_last());
        match address_item(name, items.last()) {
            Some(a) => front.push(a),
            None => front,
        }
    }
}

/// The elements of a list; none where it is no list.
pub open spec fn list_items(j: Option<Json>) -> Seq<Json> {
    match j {
        Some(v) => match v.items() {
            Some(s) => s,
            None => Seq::empty(),
        },
        None => Seq::empty(),
    }
}

/// The addresses that one interface of the answer states.
pub open spec fn interface_addresses(interface: Json) -> Seq<InterfaceAddressView> {
    match interface.text_member("ifname"@) {
        Some(name) => if device_name(name, 15) {
            address_items(name, list_items(interface.member("addr_info"@)))
        } else {
            Seq::empty()
        },
        None => Seq::empty(),
    }
}

/// The addresses that some interfaces of the answer state.
pub open spec fn all_addresses(interfaces: Seq<Json>) -> Seq<InterfaceAddressView>
    decreases interfaces.len(),
{
    if interfaces.len() == 0 {
        Seq::empty()
    } else {
        all_addresses(interfaces.drop_last()) + interface_addresses(interfaces.last())
    }
}

fn read_address_item(name: &str, item: &Document) -> (r: Option<InterfaceAddress>)
    ensures
        match r {
            Some(a) => address_item(name@, item@) == Some(a@),
            None => address_item(name@, item@) is None,
        },
{
    let local = match item.text_member("local") {
        None => {
            return None;
        },
        Some(local) => local,
    };
    let address = match parse_ip(local.as_str()) {
        None => {
            return None;
        },
        Some(ip) => ip,
    };
    let longest: u8 = if address.v6 {
        128
    } else {
        32
    };
    let prefix_len: u8 = match item.unsigned_member("prefixlen") {
        Some(n) => if n <= longest as u64 {
            n as u8
        } else {
            longest
        },
        None => longest,
    };
    let scope = match item.text_member("scope") {
        Some(s) => s,
        None => "unknown".to_owned(),
    };
    Some(InterfaceAddress { interface: name.to_owned(), address, prefix_len, scope })
}

fn read_interface(interface: &Document) -> (r: Vec<InterfaceAddress>)
    ensures
        InterfaceAddress::list_view(r@) == interface_addresses(interface@),
{
    let mut r: Vec<InterfaceAddress> = Vec::new();
    proof {
        assert(InterfaceAddress::list_view(r@) =~= Seq::empty());
    }
    let name = match interface.text_member("ifname") {
        None => {
            return r;
        },
        Some(name) => name,
    };
    if !valid_interface_name(name.as_str()) {
        return r;
    }
    let items: Vec<Document> = match interface.member("addr_info") {
        Some(list) => list.elements(),
        None => Vec::new(),
    };
    let ghost all = list_items(interface@.member("addr_info"@));
    let mut i: usize = 0;
    proof {
        assert(all.take(0) =~= Seq::<Json>::empty());
        assert(items@.len() == all.len());
    }
    while i < items.len()
        invariant
            i <= items@.len(),
            items@.len() == all.len(),
            forall|j: int| 0 <= j < items@.len() ==> (#[trigger] items@[j])@ == all[j],
            InterfaceAddress::list_view(r@) == address_items(name@, all.take(i as int)),
        decreases items@.len() - i,
    {
        proof {
            assert(all.take(i as int + 1).drop_last() =~= all.take(i as int));
            assert(all.take(i as int + 1).last() == items@[i as int]@);
        }
        match read_address_item(name.as_str(), &items[i]) {
            None => {},
            Some(a) => {
                let ghost before = r@;
                let ghost view = a@;
                r.push(a);
                proof {
                    assert(InterfaceAddress::list_view(r@) =~= InterfaceAddress::list_view(
                        before,
                    ).push(view));
                }
            },
        }
        i = i + 1;
    }
    proof {
        assert(all.take(all.len() as int) =~= all);
    }
    r
}

/// The addresses of all interfaces, in the order of the answer.
pub fn addresses_in(payload: &Document) -> (r: Vec<InterfaceAddress>)
    ensures
        InterfaceAddress::list_view(r@) == all_addresses(list_items(Some(payload@))),
{
    let interfaces = payload.elements();
    let ghost all = list_items(Some(payload@));
    let mut r: Vec<InterfaceAddress> = Vec::new();
    let mut i: usize = 0;
    proof {
        assert(all.take(0) =~= Seq::<Json>::empty());
        assert(InterfaceAddress::list_view(r@) =~= Seq::empty());
        assert(interfaces@.len() == all.len());
    }
    while i < interfaces.len()
        invariant
            i <= interfaces@.len(),
            interfaces@.len() == all.len(),
            forall|j: int| 0 <= j < interfaces@.len() ==> (#[trigger] interfaces@[j])@ == all[j],
            InterfaceAddress::list_view(r@) == all_addresses(all.take(i as int)),
        decreases interfaces@.len() - i,
    {
        proof {
            assert(all.take(i as int + 1).drop_last() =~= all.take(i as int));
            assert(all.take(i as int + 1).last() == interfaces@[i as int]@);
        }
        let mut more = read_interface(&interfaces[i]);
        let ghost before = r@;
        let ghost added = more@;
        r.append(&mut more);
        proof {
            assert(r@ == before + added);
            assert(InterfaceAddress::list_view(r@) =~= InterfaceAddress::list_view(before)
                + InterfaceAddress::list_view(added));
        }
        i = i + 1;
    }
    proof {
        assert(all.take(all.len() as int) =~= all);
    }
    r
}

/// The addresses that the answer of the address tool states.
pub fn read_ip_addresses(success: bool, stdout: &[u8]) -> (r: Result<
    Vec<InterfaceAddress>,
    &'static str,
>)
    ensures
        match r {
            Ok(list) => success && json_text(stdout@) is Some && InterfaceAddress::list_view(list@)
                == all_addresses(list_items(json_text(stdout@))),
            Err(text) => text@ == (if !success {
                "the `ip address` command failed"@
            } else {
                "the `ip address` response was not valid JSON"@
            }) && (success ==> json_text(stdout@) is None),
        },
{
    if !success {
        return Err("the `ip address` command failed");
    }
    match Document::parse(stdout) {
        None => Err("the `ip address` response was not valid JSON"),
        Some(payload) => Ok(addresses_in(&payload)),
    }
}

/// The address that a member writes.
pub open spec fn ip_member(j: Json, key: Seq<char>) -> Option<Ip> {
    match j.text_member(key) {
        Some(text) => ip_value(text),
        None => None,
    }
}

/// The route that the first entry of the answer states.
pub open spec fn default_route(j: Json) -> Option<DefaultRouteView> {
    match j.items() {
        None => None,
        Some(items) => if items.len() == 0 {
            None
        } else {
            let route = items[0];
            Some(
                DefaultRouteView {
                    interface: match route.text_member("dev"@) {
                        Some(name) => if device_name(name, 15) {
                            Some(name)
                        } else {
                            None
                        },
                        None => None,
                    },
                    gateway: ip_member(route, "gateway"@),
                    preferred_source: ip_member(route, "prefsrc"@),
                },
            )
        },
    }
}

fn read_ip_member(j: &Document, key: &str) -> (r: Option<Ip>)
    ensures
        r == ip_member(j@, key@),
{
    match j.text_member(key) {
        Some(text) => parse_ip(text.as_str()),
        None => None,
    }
}

/// The default route that a document states.
pub fn route_in(payload: &Document) -> (r: Option<DefaultRoute>)
    ensures
        match r {
            Some(route) => default_route(payload@) == Some(route@),
            None => default_route(payload@) is None,
        },
{
    let items = payload.elements();
    if items.len() == 0 {
        return None;
    }
    let route = &items[0];
    let interface = match route.text_member("dev") {
        Some(name) => if valid_interface_name(name.as_str()) {
            Some(name)
        } else {
            None
        },
        None => None,
    };
    Some(
        DefaultRoute {
            interface,
            gateway: read_ip_member(route, "gateway"),
            preferred_source: read_ip_member(route, "prefsrc"),
        },
    )
}

/// The default route that the answer of the route tool states.
pub fn read_default_route(success: bool, stdout: &[u8]) -> (r: Option<DefaultRoute>)
    ensures
        match r {
            Some(route) => success && json_text(stdout@) is Some && default_route(
                json_text(stdout@)->0,
            ) == Some(route@),
            None => success && json_text(stdout@) is Some ==> default_route(
                json_text(stdout@)->0,
            ) is None,
        },
{
    if !success {
        return None;
    }
    match Document::parse(stdout) {
        None => None,
        Some(payload) => route_in(&payload),
    }
}

/// The addresses of one interface.
pub open spec fn addresses_of(list: Seq<InterfaceAddressView>, name: Seq<char>) -> Seq<
    HostAddressView,
>
    decreases list.len(),
{
    if list.len() == 0 {
        Seq::empty()
    } else {
        let front = addresses_of(list.drop_last(), name);
        if list.last().interface == name {
            front.push(
                HostAddressView {
                    address: list.last().address,
                    prefix_len: list.last().prefix_len,
                    scope: list.last().scope,
                    is_primary: false,
                },
            )
        } else {
            front
        }
    }
}

/// The addresses of one interface.
pub fn addresses_for(list: &Vec<InterfaceAddress>, name: &str) -> (r: Vec<HostAddress>)
    ensures
        HostAddress::list_view(r@) == addresses_of(InterfaceAddress::list_view(list@), name@),
{
    let ghost all = InterfaceAddress::list_view(list@);
    let mut r: Vec<HostAddress> = Vec::new();
    let mut i: usize = 0;
    proof {
        assert(all.take(0) =~= Seq::<InterfaceAddressView>::empty());
        assert(HostAddress::list_view(r@) =~= Seq::empty());
    }
    while i < list.len()
        invariant
            i <= list@.len(),
            all == InterfaceAddress::list_view(list@),
            HostAddress::list_view(r@) == addresses_of(all.take(i as int), name@),
        decreases list@.len() - i,
    {
        proof {
            assert(all.take(i as int + 1).drop_last() =~= all.take(i as int));
            assert(all.take(i as int + 1).last() == list@[i as int]@);
        }
        if same(list[i].interface.as_str(), name) {
            let ghost before = r@;
            r.push(
                HostAddress {
                    address: list[i].address,
                    prefix_len: list[i].prefix_len,
                    scope: list[i].scope.clone(),
                    is_primary: false,
                },
            );
            proof {
                assert(HostAddress::list_view(r@) =~= HostAddress::list_view(before).push(
                    r@.last()@,
                ));
            }
        }
        i = i + 1;
    }
    proof {
        assert(all.take(all.len() as int) =~= all);
    }
    r
}

/// Addresses with those that equal `source` marked as primary.
pub open spec fn marked(addresses: Seq<HostAddressView>, source: Ip) -> Seq<HostAddressView> {
    addresses.map_values(
        |a: HostAddressView|
            HostAddressView { is_primary: a.is_primary || a.address == source, ..a },
    )
}

/// Interfaces with the addresses that equal `source` marked as primary.
pub open spec fn marked_everywhere(
    interfaces: Seq<NetworkInterfaceInfoView>,
    source: Ip,
) -> Seq<NetworkInterfaceInfoView> {
    interfaces.map_values(
        |n: NetworkInterfaceInfoView|
            NetworkInterfaceInfoView { addresses: marked(n.addresses, source), ..n },
    )
}

/// Some address of a list equals `source`.
pub open spec fn has_address(addresses: Seq<HostAddressView>, source: Ip) -> bool {
    exists|i: int| 0 <= i < addresses.len() && (#[trigger] addresses[i]).address == source
}

/// Some interface has the address `source`.
pub open spec fn somewhere(interfaces: Seq<NetworkInterfaceInfoView>, source: Ip) -> bool {
    exists|i: int|
        0 <= i < interfaces.len() && has_address((#[trigger] interfaces[i]).addresses, source)
}

/// The first global address, of version four where `v4_only`; the length where there is
/// none.
pub open spec fn first_global(addresses: Seq<HostAddressView>, v4_only: bool) -> int
    decreases addresses.len(),
{
    if addresses.len() == 0 {
        0
    } else if addresses[0].scope == "global"@ && (v4_only ==> !addresses[0].address.v6) {
        0
    } else {
        1 + first_global(addresses.drop_first(), v4_only)
    }
}

/// Addresses with the first global one marked as primary, of version four where there is
/// one.
pub open spec fn with_primary(addresses: Seq<HostAddressView>) -> Seq<HostAddressView> {
    let v4 = first_global(addresses, true);
    let any = first_global(addresses, false);
    let i = if v4 < addresses.len() {
        v4
    } else {
        any
    };
    if i < addresses.len() {
        addresses.update(i, HostAddressView { is_primary: true, ..addresses[i] })
    } else {
        addresses
    }
}

/// The first interface of a name; the number of interfaces where there is none.
pub open spec fn interface_index(
    interfaces: Seq<NetworkInterfaceInfoView>,
    name: Seq<char>,
) -> int
    decreases interfaces.len(),
{
    if interfaces.len() == 0 || interfaces[0].name == name {
        0
    } else {
        1 + interface_index(interfaces.drop_first(), name)
    }
}

/// The interfaces with the primary address marked.
pub open spec fn primary_marked(
    interfaces: Seq<NetworkInterfaceInfoView>,
    primary_interface: Option<Seq<char>>,
    preferred_source: Option<Ip>,
) -> Seq<NetworkInterfaceInfoView> {
    if preferred_source is Some && somewhere(interfaces, preferred_source->0) {
        marked_everywhere(interfaces, preferred_source->0)
    } else {
        match primary_interface {
            None => interfaces,
            Some(name) => {
                let i = interface_index(interfaces, name);
                if i < interfaces.len() {
                    interfaces.update(
                        i,
                        NetworkInterfaceInfoView {
                            addresses: with_primary(interfaces[i].addresses),
                            ..interfaces[i]
                        },
                    )
                } else {
                    interfaces
                }
            },
        }
    }
}

fn mark_addresses(addresses: &Vec<HostAddress>, source: Ip) -> (r: (Vec<HostAddress>, bool))
    ensures
        HostAddress::list_view(r.0@) == marked(HostAddress::list_view(addresses@), source),
        r.1 == has_address(HostAddress::list_view(addresses@), source),
{
    let ghost all = HostAddress::list_view(addresses@);
    let mut out: Vec<HostAddress> = Vec::new();
    let mut found: bool = false;
    let mut i: usize = 0;
    while i < addresses.len()
        invariant
            i <= addresses@.len(),
            all == HostAddress::list_view(addresses@),
            out@.len() == i,
            forall|j: int| 0 <= j < i ==> (#[trigger] out@[j])@ == marked(all, source)[j],
            found == exists|j: int| 0 <= j < i && (#[trigger] all[j]).address == source,
        decreases addresses@.len() - i,
    {
        let a = &addresses[i];
        proof {
            assert(all[i as int] == a@);
        }
        let here = a.address == source;
        out.push(
            HostAddress {
                address: a.address,
                prefix_len: a.prefix_len,
                scope: a.scope.clone(),
                is_primary: a.is_primary || here,
            },
        );
        if here {
            proof {
                assert(all[i as int].address == source);
            }
            found = true;
        }
        i = i + 1;
    }
    proof {
        assert(HostAddress::list_view(out@) =~= marked(all, source));
    }
    (out, found)
}

fn find_global(addresses: &Vec<HostAddress>, v4_only: bool) -> (r: usize)
    ensures
        r == first_global(HostAddress::list_view(addresses@), v4_only),
        r <= addresses@.len(),
{
    let ghost all = HostAddress::list_view(addresses@);
    let mut i: usize = 0;
    proof {
        assert(all.skip(0) =~= all);
    }
    while i < addresses.len() && !(same(addresses[i].scope.as_str(), "global") && !(v4_only
        && addresses[i].address.v6))
        invariant
            i <= addresses@.len(),
            all == HostAddress::list_view(addresses@),
            first_global(all, v4_only) == i + first_global(all.skip(i as int), v4_only),
        decreases addresses@.len() - i,
    {
        proof {
            assert(all.skip(i as int)[0] == addresses@[i as int]@);
            assert(all.skip(i as int).drop_first() =~= all.skip(i as int + 1));
        }
        i = i + 1;
    }
    proof {
        if i < addresses@.len() {
            assert(all.skip(i as int)[0] == addresses@[i as int]@);
        }
    }
    i
}

fn mark_one(addresses: &Vec<HostAddress>) -> (r: Vec<HostAddress>)
    ensures
        HostAddress::list_view(r@) == with_primary(HostAddress::list_view(addresses@)),
{
    let ghost all = HostAddress::list_view(addresses@);
    let mut out = HostAddress::copy_of_list(addresses);
    let v4: usize = find_global(addresses, true);
    let any: usize = find_global(addresses, false);
    let i: usize = if v4 < addresses.len() {
        v4
    } else {
        any
    };
    proof {
        assert(HostAddress::list_view(out@).len() == out@.len());
        assert(all.len() == addresses@.len());
    }
    if i < out.len() {
        let a = &addresses[i];
        let changed = HostAddress {
            address: a.address,
            prefix_len: a.prefix_len,
            scope: a.scope.clone(),
            is_primary: true,
        };
        let ghost before = out@;
        let ghost view = changed@;
        out.set(i, changed);
        proof {
            assert(all[i as int] == a@);
            assert(HostAddress::list_view(out@) =~= HostAddress::list_view(before).update(
                i as int,
                view,
            ));
        }
    }
    out
}

fn with_addresses(n: &NetworkInterfaceInfo, addresses: Vec<HostAddress>) -> (r:
    NetworkInterfaceInfo)
    ensures
        r@ == (NetworkInterfaceInfoView { addresses: HostAddress::list_view(addresses@), ..n@ }),
{
    let mut r = n.clone();
    r.addresses = addresses;
    r
}

fn mark_everywhere(interfaces: &Vec<NetworkInterfaceInfo>, source: Ip) -> (r: (
    Vec<NetworkInterfaceInfo>,
    bool,
))
    ensures
        NetworkInterfaceInfo::list_view(r.0@) == marked_everywhere(
            NetworkInterfaceInfo::list_view(interfaces@),
            source,
        ),
        r.1 == somewhere(NetworkInterfaceInfo::list_view(interfaces@), source),
{
    let ghost all = NetworkInterfaceInfo::list_view(interfaces@);
    let mut out: Vec<NetworkInterfaceInfo> = Vec::new();
    let mut found: bool = false;
    let mut i: usize = 0;
    while i < interfaces.len()
        invariant
            i <= interfaces@.len(),
            all == NetworkInterfaceInfo::list_view(interfaces@),
            out@.len() == i,
            forall|j: int| 0 <= j < i ==> (#[trigger] out@[j])@ == marked_everywhere(all, source)[j],
            found == exists|j: int| 0 <= j < i && has_address((#[trigger] all[j]).addresses, source),
        decreases interfaces@.len() - i,
    {
        let n = &interfaces[i];
        proof {
            assert(all[i as int] == n@);
        }
        let (addresses, here) = mark_addresses(&n.addresses, source);
        out.push(with_addresses(n, addresses));
        if here {
            proof {
                assert(has_address(all[i as int].addresses, source));
            }
            found = true;
        }
        i = i + 1;
    }
    proof {
        assert(NetworkInterfaceInfo::list_view(out@) =~= marked_everywhere(all, source));
    }
    (out, found)
}

/// The interfaces with the primary address marked: the preferred source address wherever
/// it stands, else the first global address of the primary interface, of version four
/// where there is one.
#[verifier::loop_isolation(false)]
pub fn mark_primary_address(
    interfaces: Vec<NetworkInterfaceInfo>,
    primary_interface: &Option<String>,
    preferred_source: Option<Ip>,
) -> (r: Vec<NetworkInterfaceInfo>)
    ensures
        NetworkInterfaceInfo::list_view(r@) == primary_marked(
            NetworkInterfaceInfo::list_view(interfaces@),
            view_option(*primary_interface),
            preferred_source,
        ),
{
    let ghost all = NetworkInterfaceInfo::list_view(interfaces@);
    match preferred_source {
        Some(source) => {
            let (out, found) = mark_everywhere(&interfaces, source);
            if found {
                return out;
            }
        },
        None => {},
    }
    let name = match primary_interface {
        None => {
            return interfaces;
        },
        Some(name) => name,
    };
    let mut i: usize = 0;
    proof {
        assert(all.skip(0) =~= all);
        assert(all.len() == interfaces@.len());
    }
    while i < interfaces.len() && !same(interfaces[i].name.as_str(), name.as_str())
        invariant
            i <= interfaces@.len(),
            interface_index(all, name@) == i + interface_index(all.skip(i as int), name@),
        decreases interfaces@.len() - i,
    {
        proof {
            assert(all.skip(i as int)[0] == interfaces@[i as int]@);
            assert(all.skip(i as int).drop_first() =~= all.skip(i as int + 1));
        }
        i = i + 1;
    }
    proof {
        if i < interfaces@.len() {
            assert(all.skip(i as int)[0] == interfaces@[i as int]@);
        }
    }
    let mut out = interfaces;
    if i < out.len() {
        let changed = with_addresses(&out[i], mark_one(&out[i].addresses));
        let ghost before = out@;
        let ghost view = changed@;
        out.set(i, changed);
        proof {
            assert(all[i as int] == before[i as int]@);
            assert(NetworkInterfaceInfo::list_view(out@) =~= all.update(i as int, view));
        }
    }
    out
}

/// The text by which file systems are listed.
pub open spec fn by_mount_point() -> spec_fn(FilesystemInfoView) -> Seq<char> {
    |m: FilesystemInfoView| m.mount_point
}

/// The text by which interfaces are listed.
pub open spec fn by_interface_name() -> spec_fn(NetworkInterfaceInfoView) -> Seq<char> {
    |m: NetworkInterfaceInfoView| m.name
}

/// The text by which devices are listed.
pub open spec fn by_device_name() -> spec_fn(IoDeltaView) -> Seq<char> {
    |m: IoDeltaView| m.name
}

/// Something that is listed in the order of a text.
pub trait Keyed: View + Sized {
    /// The text that gives the order.
    spec fn key() -> spec_fn(Self::V) -> Seq<char>;

    /// The text that gives the order.
    fn key_text(&self) -> (r: &str)
        ensures
            r@ == Self::key()(self@),
    ;
}

impl Keyed for FilesystemInfo {
    open spec fn key() -> spec_fn(FilesystemInfoView) -> Seq<char> {
        by_mount_point()
    }

    fn key_text(&self) -> (r: &str) {
        self.mount_point.as_str()
    }
}

impl Keyed for NetworkInterfaceInfo {
    open spec fn key() -> spec_fn(NetworkInterfaceInfoView) -> Seq<char> {
        by_interface_name()
    }

    fn key_text(&self) -> (r: &str) {
        self.name.as_str()
    }
}

impl Keyed for IoDelta {
    open spec fn key() -> spec_fn(IoDeltaView) -> Seq<char> {
        by_device_name()
    }

    fn key_text(&self) -> (r: &str) {
        self.name.as_str()
    }
}

/// In the order of a key.
pub open spec fn in_key_order<M>(list: Seq<M>, key: spec_fn(M) -> Seq<char>) -> bool {
    forall|i: int, j: int|
        0 <= i < j < list.len() ==> text_le(key(#[trigger] list[i]), key(#[trigger] list[j]))
}

/// Something with a key.
pub open spec fn has_key<M>(key: spec_fn(M) -> Seq<char>, k: Seq<char>) -> spec_fn(M) -> bool {
    |m: M| key(m) == k
}

/// What has a key, in the order in which it is listed.
pub open spec fn with_key<M>(list: Seq<M>, key: spec_fn(M) -> Seq<char>, k: Seq<char>) -> Seq<M> {
    matching(list, has_key(key, k))
}

/// The same things in the order of their keys; what has the same key stays in its order.
pub open spec fn sorted_by<M>(after: Seq<M>, before: Seq<M>, key: spec_fn(M) -> Seq<char>) -> bool {
    &&& in_key_order(after, key)
    &&& after.len() == before.len()
    &&& forall|k: Seq<char>| #[trigger] with_key(after, key, k) == with_key(before, key, k)
}

proof fn with_key_after_insert<M>(
    list: Seq<M>,
    at: int,
    x: M,
    key: spec_fn(M) -> Seq<char>,
    k: Seq<char>,
)
    requires
        0 <= at <= list.len(),
        forall|i: int| 0 <= i < at ==> key(#[trigger] list[i]) != key(x),
    ensures
        with_key(list.insert(at, x), key, k) == (if key(x) == k {
            seq![x] + with_key(list, key, k)
        } else {
            with_key(list, key, k)
        }),
{
    let p = has_key(key, k);
    let low = list.take(at);
    let high = list.skip(at);
    assert(list =~= low + high);
    assert(list.insert(at, x) =~= (low + seq![x]) + high);
    matching_of_both(low, high, p);
    matching_of_both(low + seq![x], high, p);
    matching_of_both(low, seq![x], p);
    reveal_with_fuel(matching, 2);
    assert(seq![x].drop_last() =~= Seq::<M>::empty());
    if key(x) == k {
        assert forall|i: int| 0 <= i < low.len() implies !p(#[trigger] low[i]) by {
            assert(low[i] == list[i]);
        }
        matching_of_none(low, p);
        assert(matching(seq![x], p) =~= seq![x]);
        assert(with_key(list.insert(at, x), key, k) =~= seq![x] + with_key(list, key, k));
    } else {
        assert(matching(seq![x], p) =~= Seq::<M>::empty());
        assert(with_key(list.insert(at, x), key, k) =~= with_key(list, key, k));
    }
}

/// The same things in the order of their keys; what has the same key stays in its order.
pub fn sort_by_key<T: Keyed>(list: Vec<T>) -> (r: Vec<T>)
    ensures
        sorted_by(models(r@), models(list@), T::key()),
{
    let ghost key = T::key();
    let ghost all = models(list@);
    let mut rest = list;
    let mut r: Vec<T> = Vec::new();
    proof {
        assert forall|k: Seq<char>| #[trigger] with_key(all, key, k) == with_key(
            models(rest@),
            key,
            k,
        ) + with_key(models(r@), key, k) by {
            assert(with_key(models(rest@), key, k) + with_key(models(r@), key, k) =~= with_key(
                all,
                key,
                k,
            ));
        }
    }
    while rest.len() > 0
        invariant
            key == T::key(),
            in_key_order(models(r@), key),
            rest@.len() + r@.len() == all.len(),
            forall|k: Seq<char>| #[trigger]
                with_key(all, key, k) == with_key(models(rest@), key, k) + with_key(
                    models(r@),
                    key,
                    k,
                ),
        decreases rest@.len(),
    {
        let ghost before_rest = models(rest@);
        let ghost before = models(r@);
        match rest.pop() {
            None => {},
            Some(x) => {
                let mut at: usize = 0;
                while at < r.len() && !in_order(x.key_text(), r[at].key_text())
                    invariant
                        at <= r@.len(),
                        key == T::key(),
                        before == models(r@),
                        forall|k: int|
                            0 <= k < at ==> !text_le(key(x@), key(#[trigger] before[k])),
                    decreases r@.len() - at,
                {
                    proof {
                        assert(before[at as int] == r@[at as int]@);
                    }
                    at = at + 1;
                }
                let ghost m = x@;
                let ghost kx = key(m);
                proof {
                    if at < r@.len() {
                        assert(before[at as int] == r@[at as int]@);
                    }
                }
                r.insert(at, x);
                let ghost after = models(r@);
                proof {
                    assert(after =~= before.insert(at as int, m));
                    assert(before_rest =~= models(rest@).push(m));
                    assert forall|a: int, b: int| 0 <= a < b < after.len() implies text_le(
                        key(#[trigger] after[a]),
                        key(#[trigger] after[b]),
                    ) by {
                        if b < at {
                            assert(after[a] == before[a] && after[b] == before[b]);
                        } else if b == at {
                            assert(after[a] == before[a]);
                            text_le_is_total(kx, key(before[a]));
                        } else if a < at {
                            assert(after[a] == before[a] && after[b] == before[b - 1]);
                        } else if a == at {
                            assert(after[b] == before[b - 1]);
                            if b - 1 > at {
                                text_le_is_transitive(kx, key(before[at as int]), key(before[b - 1]));
                            }
                        } else {
                            assert(after[a] == before[a - 1] && after[b] == before[b - 1]);
                        }
                    }
                    text_le_is_total(kx, kx);
                    assert forall|k: Seq<char>| #[trigger] with_key(all, key, k) == with_key(
                        models(rest@),
                        key,
                        k,
                    ) + with_key(after, key, k) by {
                        with_key_after_insert(before, at as int, m, key, k);
                        assert(before_rest.drop_last() =~= models(rest@));
                        assert(with_key(before_rest, key, k) + with_key(before, key, k)
                            =~= with_key(models(rest@), key, k) + with_key(after, key, k));
                    }
                }
            },
        }
    }
    proof {
        assert(models(rest@) =~= Seq::<T::V>::empty());
        assert forall|k: Seq<char>| #[trigger] with_key(models(r@), key, k) == with_key(all, key, k) by {
            assert(with_key(models(rest@), key, k) + with_key(models(r@), key, k) =~= with_key(
                models(r@),
                key,
                k,
            ));
        }
    }
    r
}

/// The words from number `from` on, with a blank between them.
pub open spec fn joined_words(ws: Seq<Seq<char>>, from: int) -> Seq<char>
    decreases ws.len(),
{
    if from < 0 || ws.len() <= from {
        Seq::empty()
    } else if ws.len() == from + 1 {
        ws.last()
    } else {
        joined_words(ws.drop_last(), from) + " "@ + ws.last()
    }
}

fn join_words(list: &Vec<String>, from: usize) -> (r: String)
    ensures
        r@ == joined_words(views(list@), from as int),
{
    let ghost ws = views(list@);
    let mut r: String = String::new();
    let mut i: usize = from;
    proof {
        if from <= ws.len() {
            assert(joined_words(ws.take(from as int), from as int) =~= Seq::<char>::empty());
        }
    }
    if from >= list.len() {
        return r;
    }
    while i < list.len()
        invariant
            from <= i <= list@.len(),
            ws == views(list@),
            r@ == joined_words(ws.take(i as int), from as int),
        decreases list@.len() - i,
    {
        proof {
            assert(ws.take(i as int + 1).drop_last() =~= ws.take(i as int));
            assert(ws.take(i as int + 1).last() == list@[i as int]@);
        }
        if i == from {
            r = list[i].clone();
        } else {
            r = join3(r.as_str(), " ", list[i].as_str());
        }
        i = i + 1;
    }
    proof {
        assert(ws.take(ws.len() as int) =~= ws);
    }
    r
}

/// What a line of the file system table states.
pub open spec fn filesystem_line(line: Seq<char>) -> Option<FilesystemInfoView> {
    let ws = words_spec(line, false);
    if ws.len() < 6 {
        None
    } else {
        match (decimal_u64(ws[1]), decimal_u64(ws[2]), decimal_u64(ws[3])) {
            (Some(total_bytes), Some(used_bytes), Some(available_bytes)) => Some(
                FilesystemInfoView {
                    source: ws[0],
                    mount_point: joined_words(ws, 5),
                    total_bytes,
                    used_bytes,
                    available_bytes,
                },
            ),
            _ => None,
        }
    }
}

/// What the lines of the file system table state.
pub open spec fn filesystem_lines(lines: Seq<Seq<char>>) -> Seq<FilesystemInfoView>
    decreases lines.len(),
{
    if lines.len() == 0 {
        Seq::empty()
    } else {
        let front = filesystem_lines(lines.drop_last());
        match filesystem_line(lines.last()) {
            Some(f) => front.push(f),
            None => front,
        }
    }
}

/// The lines behind the heading.
pub open spec fn body_lines(text: Seq<char>) -> Seq<Seq<char>> {
    let ls = lines_spec(text);
    if ls.len() == 0 {
        ls
    } else {
        ls.skip(1)
    }
}

fn read_filesystem_line(line: &str) -> (r: Option<FilesystemInfo>)
    ensures
        match r {
            Some(f) => filesystem_line(line@) == Some(f@),
            None => filesystem_line(line@) is None,
        },
{
    let fields = words(line, false);
    let ghost ws = words_spec(line@, false);
    proof {
        assert(ws == views(fields@));
        assert(ws.len() == fields@.len());
    }
    if fields.len() < 6 {
        return None;
    }
    proof {
        assert(ws[0] == fields@[0]@);
        assert(ws[1] == fields@[1]@);
        assert(ws[2] == fields@[2]@);
        assert(ws[3] == fields@[3]@);
    }
    match (
        parse_u64(fields[1].as_str()),
        parse_u64(fields[2].as_str()),
        parse_u64(fields[3].as_str()),
    ) {
        (Some(total_bytes), Some(used_bytes), Some(available_bytes)) => Some(
            FilesystemInfo {
                source: fields[0].clone(),
                mount_point: join_words(&fields, 5),
                total_bytes,
                used_bytes,
                available_bytes,
            },
        ),
        _ => None,
    }
}

/// The file systems that the answer of the disk tool states, in the order of their mount
/// points.
pub fn read_filesystems(text: &str) -> (r: Vec<FilesystemInfo>)
    ensures
        sorted_by(
            FilesystemInfo::list_view(r@),
            filesystem_lines(body_lines(text@)),
            by_mount_point(),
        ),
{
    let all = lines(text);
    let ghost ls = views(all@);
    let ghost body = body_lines(text@);
    let mut r: Vec<FilesystemInfo> = Vec::new();
    proof {
        assert(FilesystemInfo::list_view(r@) =~= Seq::empty());
        assert(ls.len() == all@.len());
        assert(body.take(0) =~= Seq::<Seq<char>>::empty());
    }
    if all.len() == 0 {
        proof {
            assert(FilesystemInfo::list_view(r@) == filesystem_lines(body));
        }
        return r;
    }
    let mut i: usize = 1;
    while i < all.len()
        invariant
            1 <= i <= all@.len(),
            ls == views(all@),
            body == ls.skip(1),
            FilesystemInfo::list_view(r@) == filesystem_lines(body.take(i as int - 1)),
        decreases all@.len() - i,
    {
        proof {
            assert(body.take(i as int).drop_last() =~= body.take(i as int - 1));
            assert(body.take(i as int).last() == all@[i as int]@);
        }
        match read_filesystem_line(all[i].as_str()) {
            None => {},
            Some(f) => {
                let ghost before = r@;
                let ghost view = f@;
                r.push(f);
                proof {
                    assert(FilesystemInfo::list_view(r@) =~= FilesystemInfo::list_view(
                        before,
                    ).push(view));
                }
            },
        }
        i = i + 1;
    }
    proof {
        assert(body.take(body.len() as int) =~= body);
        assert(models(r@) =~= FilesystemInfo::list_view(r@));
    }
    let sorted = sort_by_key(r);
    proof {
        assert(models(sorted@) =~= FilesystemInfo::list_view(sorted@));
    }
    sorted
}

/// The free bytes that the first usable line states.
pub open spec fn available_bytes_spec(lines: Seq<Seq<char>>) -> Option<u64>
    decreases lines.len(),
{
    if lines.len() == 0 {
        None
    } else {
        let ws = words_spec(lines[0], false);
        if ws.len() > 3 && decimal_u64(ws[3]) is Some {
            decimal_u64(ws[3])
        } else {
            available_bytes_spec(lines.drop_first())
        }
    }
}

/// The free bytes of the file system that the answer of the disk tool describes.
#[verifier::loop_isolation(false)]
pub fn filesystem_available_bytes(text: &str) -> (r: Result<u64, AppError>)
    ensures
        match r {
            Ok(n) => available_bytes_spec(body_lines(text@)) == Some(n),
            Err(e) => available_bytes_spec(body_lines(text@)) is None && e@
                == AppErrorView::Internal("image storage free space was unavailable"@),
        },
{
    let all = lines(text);
    let ghost ls = views(all@);
    let ghost body = body_lines(text@);
    if all.len() > 0 {
        let mut i: usize = 1;
        proof {
            assert(body.skip(0) =~= body);
        }
        while i < all.len()
            invariant
                1 <= i <= all@.len(),
                available_bytes_spec(body) == available_bytes_spec(body.skip(i as int - 1)),
            decreases all@.len() - i,
        {
            proof {
                assert(body.skip(i as int - 1)[0] == all@[i as int]@);
                assert(body.skip(i as int - 1).drop_first() =~= body.skip(i as int));
            }
            let fields = words(all[i].as_str(), false);
            proof {
                assert(views(fields@).len() == fields@.len());
            }
            if fields.len() > 3 {
                proof {
                    assert(views(fields@)[3] == fields@[3]@);
                }
                match parse_u64(fields[3].as_str()) {
                    Some(n) => {
                        return Ok(n);
                    },
                    None => {},
                }
            }
            i = i + 1;
        }
    }
    Err(internal("image storage free space was unavailable"))
}

/// The numbers among some words.
pub open spec fn numbers_in(ws: Seq<Seq<char>>) -> Seq<u64>
    decreases ws.len(),
{
    if ws.len() == 0 {
        Seq::empty()
    } else {
        let front = numbers_in(ws.drop_last());
        match decimal_u64(ws.last()) {
            Some(n) => front.push(n),
            None => front,
        }
    }
}

/// The sum of the first `n` numbers.
pub open spec fn sum_of(values: Seq<u64>, n: int) -> int
    decreases n,
{
    if n <= 0 {
        0
    } else {
        sum_of(values, n - 1) + values[n - 1]
    }
}

/// The first line with the sums over all processors.
pub open spec fn aggregate_line(lines: Seq<Seq<char>>) -> Option<Seq<char>>
    decreases lines.len(),
{
    if lines.len() == 0 {
        None
    } else if starts_with(lines[0], "cpu "@) {
        Some(lines[0])
    } else {
        aggregate_line(lines.drop_first())
    }
}

/// The sum of two numbers, or the largest number where that is larger.
pub open spec fn saturating_sum(a: u64, b: u64) -> u64 {
    if a + b > u64::MAX {
        u64::MAX
    } else {
        (a + b) as u64
    }
}

/// The processor time that the table of the kernel states.
pub open spec fn cpu_ticks(text: Seq<char>) -> Result<CpuTicks, AppErrorView> {
    match aggregate_line(lines_spec(text)) {
        None => Err(
            AppErrorView::Internal("/proc/stat did not contain aggregate CPU data"@),
        ),
        Some(line) => {
            let ws = words_spec(line, false);
            let values = numbers_in(
                if ws.len() == 0 {
                    ws
                } else {
                    ws.skip(1)
                },
            );
            if values.len() < 4 {
                Err(AppErrorView::Internal("/proc/stat aggregate CPU data was incomplete"@))
            } else {
                Ok(
                    CpuTicks {
                        total: sum_of(
                            values,
                            if values.len() < 8 {
                                values.len() as int
                            } else {
                                8
                            },
                        ) as u128,
                        idle: saturating_sum(
                            values[3],
                            if values.len() > 4 {
                                values[4]
                            } else {
                                0
                            },
                        ),
                    },
                )
            }
        },
    }
}

#[verifier::loop_isolation(false)]
fn find_aggregate(all: &Vec<String>) -> (r: Option<usize>)
    ensures
        match r {
            Some(i) => i < all@.len() && aggregate_line(views(all@)) == Some(all@[i as int]@),
            None => aggregate_line(views(all@)) is None,
        },
{
    let ghost ls = views(all@);
    let mut i: usize = 0;
    proof {
        assert(ls.skip(0) =~= ls);
    }
    while i < all.len()
        invariant
            i <= all@.len(),
            aggregate_line(ls) == aggregate_line(ls.skip(i as int)),
        decreases all@.len() - i,
    {
        proof {
            assert(ls.skip(i as int)[0] == all@[i as int]@);
            assert(ls.skip(i as int).drop_first() =~= ls.skip(i as int + 1));
        }
        if has_prefix(all[i].as_str(), "cpu ") {
            return Some(i);
        }
        i = i + 1;
    }
    None
}

fn read_numbers(fields: &Vec<String>) -> (r: Vec<u64>)
    ensures
        r@ == numbers_in(
            if fields@.len() == 0 {
                views(fields@)
            } else {
                views(fields@).skip(1)
            },
        ),
{
    let ghost ws = views(fields@);
    let mut r: Vec<u64> = Vec::new();
    if fields.len() == 0 {
        proof {
            assert(ws.len() == 0);
            assert(r@ =~= numbers_in(ws));
        }
        return r;
    }
    let ghost body = ws.skip(1);
    let mut i: usize = 1;
    proof {
        assert(body.take(0) =~= Seq::<Seq<char>>::empty());
    }
    while i < fields.len()
        invariant
            1 <= i <= fields@.len(),
            ws == views(fields@),
            body == ws.skip(1),
            r@ == numbers_in(body.take(i as int - 1)),
        decreases fields@.len() - i,
    {
        proof {
            assert(body.take(i as int).drop_last() =~= body.take(i as int - 1));
            assert(body.take(i as int).last() == fields@[i as int]@);
        }
        match parse_u64(fields[i].as_str()) {
            Some(n) => r.push(n),
            None => {},
        }
        i = i + 1;
    }
    proof {
        assert(body.take(body.len() as int) =~= body);
    }
    r
}

/// The processor time that the table of the kernel states.
pub fn read_cpu_ticks(raw: &str) -> (r: Result<CpuTicks, AppError>)
    ensures
        match r {
            Ok(t) => cpu_ticks(raw@) == Ok::<CpuTicks, AppErrorView>(t),
            Err(e) => cpu_ticks(raw@) == Err::<CpuTicks, AppErrorView>(e@),
        },
{
    let all = lines(raw);
    let at = match find_aggregate(&all) {
        None => {
            return Err(internal("/proc/stat did not contain aggregate CPU data"));
        },
        Some(i) => i,
    };
    let fields = words(all[at].as_str(), false);
    let values = read_numbers(&fields);
    proof {
        assert(views(fields@).len() == fields@.len());
    }
    if values.len() < 4 {
        return Err(internal("/proc/stat aggregate CPU data was incomplete"));
    }
    let n: usize = if values.len() < 8 {
        values.len()
    } else {
        8
    };
    let mut total: u128 = 0;
    let mut i: usize = 0;
    while i < n
        invariant
            i <= n <= 8,
            n <= values@.len(),
            total == sum_of(values@, i as int),
            total <= i * u64::MAX,
        decreases n - i,
    {
        total = total + values[i] as u128;
        i = i + 1;
    }
    let waiting: u64 = if values.len() > 4 {
        values[4]
    } else {
        0
    };
    Ok(CpuTicks { total, idle: values[3].saturating_add(waiting) })
}

/// How much processor time passed between two readings, and how much of it was busy.
pub fn cpu_delta(first: CpuTicks, second: CpuTicks) -> (r: (u128, u128))
    ensures
        r.0 == (if second.total >= first.total {
            second.total - first.total
        } else {
            0
        }),
        ({
            let idle: int = if second.idle >= first.idle {
                second.idle - first.idle
            } else {
                0
            };
            r.1 == (if r.0 >= idle {
                r.0 - idle
            } else {
                0
            })
        }),
        r.1 <= r.0,
{
    let total: u128 = if second.total >= first.total {
        second.total - first.total
    } else {
        0
    };
    let idle: u64 = second.idle.saturating_sub(first.idle);
    let busy: u128 = if total >= idle as u128 {
        total - idle as u128
    } else {
        0
    };
    (total, busy)
}

/// What a line of the block device table states, where the device is listed.
pub open spec fn block_line(line: Seq<char>, devices: Seq<Seq<char>>) -> Option<IoCountersView> {
    let ws = words_spec(line, false);
    if ws.len() < 10 {
        None
    } else if !device_name(ws[2], 64) || !devices.contains(ws[2]) || starts_with(ws[2], "loop"@)
        || starts_with(ws[2], "ram"@) {
        None
    } else {
        match (decimal_u64(ws[5]), decimal_u64(ws[9])) {
            (Some(read), Some(written)) => Some(
                IoCountersView {
                    name: ws[2],
                    read: saturating_product(read, 512),
                    written: saturating_product(written, 512),
                },
            ),
            _ => None,
        }
    }
}

/// Counters with one device added or replaced.
pub open spec fn with_counters(list: Seq<IoCountersView>, c: IoCountersView) -> Seq<
    IoCountersView,
>
    decreases list.len(),
{
    if list.len() == 0 {
        seq![c]
    } else if list.last().name == c.name {
        list.drop_last().push(c)
    } else {
        with_counters(list.drop_last(), c).push(list.last())
    }
}

/// What the lines of the block device table state; a later line for a device replaces an
/// earlier one.
pub open spec fn block_lines(lines: Seq<Seq<char>>, devices: Seq<Seq<char>>) -> Seq<
    IoCountersView,
>
    decreases lines.len(),
{
    if lines.len() == 0 {
        Seq::empty()
    } else {
        let front = block_lines(lines.drop_last(), devices);
        match block_line(lines.last(), devices) {
            Some(c) => with_counters(front, c),
            None => front,
        }
    }
}

fn read_block_line(line: &str, devices: &Vec<String>) -> (r: Option<IoCounters>)
    ensures
        match r {
            Some(c) => block_line(line@, views(devices@)) == Some(c@),
            None => block_line(line@, views(devices@)) is None,
        },
{
    let fields = words(line, false);
    let ghost ws = words_spec(line@, false);
    proof {
        assert(ws == views(fields@));
        assert(ws.len() == fields@.len());
    }
    if fields.len() < 10 {
        return None;
    }
    proof {
        assert(ws[2] == fields@[2]@);
        assert(ws[5] == fields@[5]@);
        assert(ws[9] == fields@[9]@);
        crate::extraction::lists_is_contains(devices@, fields@[2]@);
    }
    let name = fields[2].as_str();
    if !valid_block_name(name) || !list_contains(devices, name) || has_prefix(name, "loop")
        || has_prefix(name, "ram") {
        return None;
    }
    match (parse_u64(fields[5].as_str()), parse_u64(fields[9].as_str())) {
        (Some(read), Some(written)) => Some(
            IoCounters {
                name: fields[2].clone(),
                read: saturating_mul(read, 512),
                written: saturating_mul(written, 512),
            },
        ),
        _ => None,
    }
}

fn put_counters(list: Vec<IoCounters>, c: IoCounters) -> (r: Vec<IoCounters>)
    ensures
        IoCounters::list_view(r@) == with_counters(IoCounters::list_view(list@), c@),
    decreases list@.len(),
{
    let ghost all = IoCounters::list_view(list@);
    let mut rest = list;
    match rest.pop() {
        None => {
            proof {
                assert(all =~= Seq::empty());
            }
            rest.push(c);
            proof {
                assert(IoCounters::list_view(rest@) =~= seq![c@]);
            }
            rest
        },
        Some(last) => {
            proof {
                assert(all.last() == last@);
                assert(IoCounters::list_view(rest@) =~= all.drop_last());
            }
            if same(last.name.as_str(), c.name.as_str()) {
                let ghost before = rest@;
                let ghost view = c@;
                rest.push(c);
                proof {
                    assert(IoCounters::list_view(rest@) =~= IoCounters::list_view(before).push(
                        view,
                    ));
                }
                rest
            } else {
                let mut out = put_counters(rest, c);
                let ghost before = out@;
                let ghost view = last@;
                out.push(last);
                proof {
                    assert(IoCounters::list_view(out@) =~= IoCounters::list_view(before).push(
                        view,
                    ));
                }
                out
            }
        },
    }
}

/// What the block device table states for the listed devices.
pub fn read_block_counters(raw: &str, devices: &Vec<String>) -> (r: Vec<IoCounters>)
    ensures
        IoCounters::list_view(r@) == block_lines(lines_spec(raw@), views(devices@)),
{
    let all = lines(raw);
    let ghost ls = views(all@);
    let mut r: Vec<IoCounters> = Vec::new();
    let mut i: usize = 0;
    proof {
        assert(ls.take(0) =~= Seq::<Seq<char>>::empty());
        assert(IoCounters::list_view(r@) =~= Seq::empty());
    }
    while i < all.len()
        invariant
            i <= all@.len(),
            ls == views(all@),
            IoCounters::list_view(r@) == block_lines(ls.take(i as int), views(devices@)),
        decreases all@.len() - i,
    {
        proof {
            assert(ls.take(i as int + 1).drop_last() =~= ls.take(i as int));
            assert(ls.take(i as int + 1).last() == all@[i as int]@);
        }
        match read_block_line(all[i].as_str(), devices) {
            None => {},
            Some(c) => {
                r = put_counters(r, c);
            },
        }
        i = i + 1;
    }
    proof {
        assert(ls.take(ls.len() as int) =~= ls);
    }
    r
}

/// The counters of a device at an earlier reading; zero where it was not there.
pub open spec fn earlier(list: Seq<IoCountersView>, name: Seq<char>) -> (u64, u64)
    decreases list.len(),
{
    if list.len() == 0 {
        (0, 0)
    } else if list.last().name == name {
        (list.last().read, list.last().written)
    } else {
        earlier(list.drop_last(), name)
    }
}

/// The difference of two counters, or zero where it is negative.
pub open spec fn saturating_difference(a: u64, b: u64) -> u64 {
    if a >= b {
        (a - b) as u64
    } else {
        0
    }
}

/// A device's counters and what was added to them.
pub open spec fn delta_of(first: Seq<IoCountersView>, c: IoCountersView) -> IoDeltaView {
    IoDeltaView {
        name: c.name,
        read: c.read,
        written: c.written,
        read_delta: saturating_difference(c.read, earlier(first, c.name).0),
        written_delta: saturating_difference(c.written, earlier(first, c.name).1),
    }
}

#[verifier::loop_isolation(false)]
fn find_earlier(list: &Vec<IoCounters>, name: &str) -> (r: (u64, u64))
    ensures
        r == earlier(IoCounters::list_view(list@), name@),
{
    let ghost all = IoCounters::list_view(list@);
    let mut n: usize = list.len();
    proof {
        assert(all.take(all.len() as int) =~= all);
    }
    while n > 0
        invariant
            n <= list@.len(),
            earlier(all, name@) == earlier(all.take(n as int), name@),
        decreases n,
    {
        proof {
            assert(all.take(n as int).drop_last() =~= all.take(n as int - 1));
            assert(all.take(n as int).last() == list@[n as int - 1]@);
        }
        n = n - 1;
        if same(list[n].name.as_str(), name) {
            return (list[n].read, list[n].written);
        }
    }
    (0, 0)
}

/// What was added to the counters of each device between two readings, in the order of
/// the names.
pub fn sample_deltas(first: &Vec<IoCounters>, second: &Vec<IoCounters>) -> (r: Vec<IoDelta>)
    ensures
        sorted_by(
            IoDelta::list_view(r@),
            IoCounters::list_view(second@).map_values(
                |c: IoCountersView| delta_of(IoCounters::list_view(first@), c),
            ),
            by_device_name(),
        ),
{
    let ghost f = IoCounters::list_view(first@);
    let ghost s = IoCounters::list_view(second@);
    let mut r: Vec<IoDelta> = Vec::new();
    let mut i: usize = 0;
    while i < second.len()
        invariant
            i <= second@.len(),
            f == IoCounters::list_view(first@),
            s == IoCounters::list_view(second@),
            r@.len() == i,
            forall|j: int| 0 <= j < i ==> (#[trigger] r@[j])@ == delta_of(f, s[j]),
        decreases second@.len() - i,
    {
        let c = &second[i];
        proof {
            assert(s[i as int] == c@);
        }
        let (read, written) = find_earlier(first, c.name.as_str());
        r.push(
            IoDelta {
                name: c.name.clone(),
                read: c.read,
                written: c.written,
                read_delta: c.read.saturating_sub(read),
                written_delta: c.written.saturating_sub(written),
            },
        );
        i = i + 1;
    }
    proof {
        assert(models(r@) =~= s.map_values(|c: IoCountersView| delta_of(f, c)));
    }
    let sorted = sort_by_key(r);
    proof {
        assert(models(sorted@) =~= IoDelta::list_view(sorted@));
    }
    sorted
}

/// What stands behind the last `c` in `s`.
pub open spec fn after_last(s: Seq<char>, c: char) -> Option<Seq<char>>
    decreases s.len(),
{
    if s.len() == 0 {
        None
    } else if s.last() == c {
        Some(Seq::empty())
    } else {
        match after_last(s.drop_last(), c) {
            Some(t) => Some(t.push(s.last())),
            None => None,
        }
    }
}

proof fn after_last_at(s: Seq<char>, c: char, k: int)
    requires
        0 <= k < s.len(),
        s[k] == c,
        forall|j: int| k < j < s.len() ==> s[j] != c,
    ensures
        after_last(s, c) == Some(s.skip(k + 1)),
    decreases s.len(),
{
    if k == s.len() - 1 {
        assert(s.skip(k + 1) =~= Seq::<char>::empty());
    } else {
        after_last_at(s.drop_last(), c, k);
        assert(s.skip(k + 1) =~= s.drop_last().skip(k + 1).push(s.last()));
    }
}

proof fn after_last_none(s: Seq<char>, c: char)
    requires
        forall|j: int| 0 <= j < s.len() ==> s[j] != c,
    ensures
        after_last(s, c) is None,
    decreases s.len(),
{
    if s.len() > 0 {
        after_last_none(s.drop_last(), c);
    }
}

#[verifier::loop_isolation(false)]
fn behind_last(s: &str, c: char) -> (r: Option<String>)
    ensures
        view_option(r) == after_last(s@, c),
{
    let v = chars_of(s);
    let mut n: usize = v.len();
    while n > 0
        invariant
            n <= v@.len(),
            forall|j: int| n <= j < v@.len() ==> v@[j] != c,
        decreases n,
    {
        n = n - 1;
        if v[n] == c {
            proof {
                after_last_at(s@, c, n as int);
                assert(v@.subrange(n as int + 1, v@.len() as int) =~= v@.skip(n as int + 1));
            }
            return Some(text_of(&v, n + 1, v.len()));
        }
    }
    proof {
        after_last_none(s@, c);
    }
    None
}

/// The port of a listening socket that a line of the socket table states.
pub open spec fn listening_port(line: Seq<char>) -> Option<u16> {
    let ws = words_spec(line, false);
    if ws.len() < 4 || ws[3] != "0A"@ {
        None
    } else {
        match after_last(ws[1], ':') {
            Some(port) => hexadecimal_u16(port),
            None => None,
        }
    }
}

/// Some line behind the heading of one of the tables states the port.
pub open spec fn listens(tables: Seq<Seq<char>>, port: u16) -> bool {
    exists|t: int, l: int|
        0 <= t < tables.len() && 0 <= l < body_lines(tables[t]).len() && #[trigger] listening_port(
            body_lines(tables[t])[l],
        ) == Some(port)
}

/// Strictly ascending.
pub open spec fn strictly_ascending(ports: Seq<u16>) -> bool {
    forall|i: int, j: int| 0 <= i < j < ports.len() ==> ports[i] < ports[j]
}

fn read_listening_port(line: &str) -> (r: Option<u16>)
    ensures
        r == listening_port(line@),
{
    let fields = words(line, false);
    let ghost ws = words_spec(line@, false);
    proof {
        assert(ws == views(fields@));
        assert(ws.len() == fields@.len());
    }
    if fields.len() < 4 {
        return None;
    }
    proof {
        assert(ws[1] == fields@[1]@);
        assert(ws[3] == fields@[3]@);
    }
    if !same(fields[3].as_str(), "0A") {
        return None;
    }
    match behind_last(fields[1].as_str(), ':') {
        Some(port) => parse_hex_u16(port.as_str()),
        None => None,
    }
}

fn insert_port(ports: &mut Vec<u16>, port: u16)
    requires
        strictly_ascending(old(ports)@),
    ensures
        strictly_ascending(final(ports)@),
        forall|p: u16| #[trigger] final(ports)@.contains(p) <==> old(ports)@.contains(p) || p == port,
{
    let ghost before = ports@;
    let mut at: usize = 0;
    while at < ports.len() && ports[at] < port
        invariant
            at <= ports@.len(),
            forall|k: int| 0 <= k < at ==> ports@[k] < port,
        decreases ports@.len() - at,
    {
        at = at + 1;
    }
    if at < ports.len() && ports[at] == port {
        proof {
            assert(before[at as int] == port);
        }
        return;
    }
    ports.insert(at, port);
    proof {
        assert forall|a: int, b: int| 0 <= a < b < ports@.len() implies ports@[a] < ports@[b] by {
            if a < at && b > at {
                assert(before[a] < before[b - 1]);
            } else if a == at {
                assert(before[at as int] <= before[b - 1]);
            } else if a > at {
                assert(before[a - 1] < before[b - 1]);
            } else if b < at {
                assert(before[a] < before[b]);
            }
        }
        assert forall|p: u16| #[trigger] ports@.contains(p) <==> before.contains(p) || p == port by {
            if before.contains(p) {
                let k = choose|k: int| 0 <= k < before.len() && before[k] == p;
                if k < at {
                    assert(ports@[k] == p);
                } else {
                    assert(ports@[k + 1] == p);
                }
            }
            assert(ports@[at as int] == port);
            if ports@.contains(p) && p != port {
                let k = choose|k: int| 0 <= k < ports@.len() && ports@[k] == p;
                if k < at {
                    assert(before[k] == p);
                } else {
                    assert(before[k - 1] == p);
                }
            }
        }
    }
}

/// The ports of listening sockets in the tables of the kernel, ascending and each once.
#[verifier::loop_isolation(false)]
pub fn read_listening_tcp_ports(tables: &Vec<String>) -> (r: Vec<u16>)
    ensures
        strictly_ascending(r@),
        forall|p: u16| #[trigger] r@.contains(p) <==> listens(views(tables@), p),
{
    let ghost ts = views(tables@);
    let mut r: Vec<u16> = Vec::new();
    let mut t: usize = 0;
    while t < tables.len()
        invariant
            t <= tables@.len(),
            strictly_ascending(r@),
            forall|p: u16| #[trigger] r@.contains(p) <==> listens(ts.take(t as int), p),
        decreases tables@.len() - t,
    {
        let all = lines(tables[t].as_str());
        let ghost body = body_lines(ts[t as int]);
        let ghost start = r@;
        proof {
            assert(ts[t as int] == tables@[t as int]@);
            assert(views(all@).len() == all@.len());
        }
        if all.len() > 0 {
            let mut l: usize = 1;
            while l < all.len()
                invariant
                    1 <= l <= all@.len(),
                    body.len() == all@.len() - 1,
                    forall|j: int| 0 <= j < body.len() ==> #[trigger] body[j] == all@[j + 1]@,
                    strictly_ascending(r@),
                    forall|p: u16| #[trigger]
                        r@.contains(p) <==> start.contains(p) || exists|j: int|
                            0 <= j < l - 1 && #[trigger] listening_port(body[j]) == Some(p),
                decreases all@.len() - l,
            {
                let ghost before = r@;
                proof {
                    assert(body[l as int - 1] == all@[l as int]@);
                }
                match read_listening_port(all[l].as_str()) {
                    None => {},
                    Some(port) => insert_port(&mut r, port),
                }
                proof {
                    assert forall|p: u16| #[trigger] r@.contains(p) <==> start.contains(p)
                        || exists|j: int|
                        0 <= j < l && #[trigger] listening_port(body[j]) == Some(p) by {
                        if exists|j: int|
                            0 <= j < l - 1 && #[trigger] listening_port(body[j]) == Some(p) {
                            let j = choose|j: int|
                                0 <= j < l - 1 && #[trigger] listening_port(body[j]) == Some(p);
                            assert(listening_port(body[j]) == Some(p));
                        }
                        if r@.contains(p) && !before.contains(p) {
                            assert(listening_port(body[l as int - 1]) == Some(p));
                        }
                        if exists|j: int|
                            0 <= j < l && #[trigger] listening_port(body[j]) == Some(p) {
                            let j = choose|j: int|
                                0 <= j < l && #[trigger] listening_port(body[j]) == Some(p);
                            if j < l - 1 {
                                assert(before.contains(p));
                            }
                        }
                    }
                }
                l = l + 1;
            }
        }
        proof {
            let next = ts.take(t as int + 1);
            assert forall|p: u16| #[trigger] r@.contains(p) <==> listens(next, p) by {
                if start.contains(p) {
                    let (a, b) = choose|a: int, b: int|
                        0 <= a < ts.take(t as int).len() && 0 <= b < body_lines(
                            ts.take(t as int)[a],
                        ).len() && #[trigger] listening_port(body_lines(ts.take(t as int)[a])[b])
                            == Some(p);
                    assert(next[a] == ts.take(t as int)[a]);
                    assert(listening_port(body_lines(next[a])[b]) == Some(p));
                }
                if exists|j: int|
                    0 <= j < body.len() && #[trigger] listening_port(body[j]) == Some(p) {
                    let j = choose|j: int|
                        0 <= j < body.len() && #[trigger] listening_port(body[j]) == Some(p);
                    assert(next[t as int] == ts[t as int]);
                    assert(listening_port(body_lines(next[t as int])[j]) == Some(p));
                }
                if listens(next, p) {
                    let (a, b) = choose|a: int, b: int|
                        0 <= a < next.len() && 0 <= b < body_lines(next[a]).len()
                            && #[trigger] listening_port(body_lines(next[a])[b]) == Some(p);
                    if a < t {
                        assert(ts.take(t as int)[a] == next[a]);
                        assert(listening_port(body_lines(ts.take(t as int)[a])[b]) == Some(p));
                        assert(listens(ts.take(t as int), p));
                    } else {
                        assert(listening_port(body[b]) == Some(p));
                    }
                }
            }
        }
        t = t + 1;
    }
    proof {
        assert(ts.take(ts.len() as int) =~= ts);
    }
    r
}

} // verus!
