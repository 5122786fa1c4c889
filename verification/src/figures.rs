//! What the tables of the host say, stated over what stands in their lines.

use vstd::prelude::*;

use crate::host::{
    device_name, HostAddressView, InterfaceAddressView, IoCountersView, NetworkInterfaceInfoView,
};
use crate::host_report::{interface_info, interface_infos, InterfaceFilesView};
use crate::host_tables::{
    addresses_of, after_last, aggregate_line, available_bytes_spec, block_line, cpu_ticks,
    default_route, delta_of, earlier, filesystem_line, first_global, has_address, interface_index,
    joined_words, listening_port, marked, memory_info, memory_line, memory_value, numbers_in,
    os_line, os_name, os_value, primary_marked, somewhere, sum_of, unquoted, with_counters,
    with_primary,
};
use crate::json::Json;
use crate::net::{ip_value, Ip};
use crate::numbers::{decimal_text, decimal_u64, hexadecimal_u16, written_numbers_are_read_back};
use crate::text::{
    first_word_spec, lines, lines_spec, starts_with, trim_spec, trim_start_spec, words_spec,
};
use crate::wording::the_first_separator;

verus! {

broadcast use vstd::string::group_string_axioms;

/// A line of the memory table names a size in kibibytes after its key and a colon; a size that
/// is too large counts as the largest.
pub proof fn a_line_of_the_memory_table(key: Seq<char>, rest: Seq<char>, n: nat, other: Seq<char>)
    requires
        !key.contains(':'),
        first_word_spec(rest) == Some(decimal_text(n)),
        n <= u64::MAX,
        other != key,
    ensures
        memory_line(key.push(':') + rest, key) is Some,
        n * 1024 <= u64::MAX ==> memory_line(key.push(':') + rest, key)->0 == n * 1024,
        n * 1024 > u64::MAX ==> memory_line(key.push(':') + rest, key)->0 == u64::MAX,
        memory_line(key.push(':') + rest, other) is None,
{
    the_first_separator(key, ':', rest);
    written_numbers_are_read_back(n, u64::MAX as int);
}

/// The last line that tells of a key tells a value.
pub open spec fn tells(lines: Seq<Seq<char>>, key: Seq<char>, value: Option<u64>) -> bool {
    ||| value is None && forall|k: int|
        0 <= k < lines.len() ==> memory_line(#[trigger] lines[k], key) is None
    ||| value is Some && exists|k: int|
        0 <= k < lines.len() && memory_line(#[trigger] lines[k], key) == value && forall|j: int|
            k < j < lines.len() ==> memory_line(#[trigger] lines[j], key) is None
}

proof fn the_last_line_tells(lines: Seq<Seq<char>>, key: Seq<char>)
    ensures
        tells(lines, key, memory_value(lines, key)),
    decreases lines.len(),
{
    if lines.len() > 0 {
        let front = lines.drop_last();
        let n = lines.len() - 1;
        assert(lines[n] == lines.last());
        the_last_line_tells(front, key);
        let value = memory_value(front, key);
        if memory_line(lines.last(), key) is None {
            if value is None {
                assert forall|k: int| 0 <= k < lines.len() implies memory_line(
                    #[trigger] lines[k],
                    key,
                ) is None by {
                    if k < n {
                        assert(front[k] == lines[k]);
                    }
                }
            } else {
                let k = choose|k: int|
                    0 <= k < front.len() && memory_line(#[trigger] front[k], key) == value
                        && forall|j: int|
                        k < j < front.len() ==> memory_line(#[trigger] front[j], key) is None;
                assert(lines[k] == front[k]);
                assert forall|j: int| k < j < lines.len() implies memory_line(
                    #[trigger] lines[j],
                    key,
                ) is None by {
                    if j < n {
                        assert(front[j] == lines[j]);
                    }
                }
            }
        }
    }
}

/// The memory of the host is what the lines tell, each part under its own key, and nothing
/// where no line tells it; what is available is what is free where only that is told.
pub proof fn what_the_memory_table_tells(text: Seq<char>)
    ensures
        ({
            let ls = lines_spec(text);
            let m = memory_info(text);
            &&& tells(ls, "MemTotal"@, Some(m.total_bytes)) || (tells(ls, "MemTotal"@, None)
                && m.total_bytes == 0)
            &&& tells(ls, "MemAvailable"@, Some(m.available_bytes)) || (tells(
                ls,
                "MemAvailable"@,
                None,
            ) && (tells(ls, "MemFree"@, Some(m.available_bytes)) || (tells(ls, "MemFree"@, None)
                && m.available_bytes == 0)))
            &&& tells(ls, "SwapTotal"@, Some(m.swap_total_bytes)) || (tells(ls, "SwapTotal"@, None)
                && m.swap_total_bytes == 0)
            &&& tells(ls, "SwapFree"@, Some(m.swap_free_bytes)) || (tells(ls, "SwapFree"@, None)
                && m.swap_free_bytes == 0)
        }),
{
    let ls = lines_spec(text);
    the_last_line_tells(ls, "MemTotal"@);
    the_last_line_tells(ls, "MemAvailable"@);
    the_last_line_tells(ls, "MemFree"@);
    the_last_line_tells(ls, "SwapTotal"@);
    the_last_line_tells(ls, "SwapFree"@);
}

/// An address was found on a device, with its prefix and its scope.
pub open spec fn was_found(
    list: Seq<InterfaceAddressView>,
    k: int,
    name: Seq<char>,
    a: HostAddressView,
) -> bool {
    &&& 0 <= k < list.len()
    &&& list[k].interface == name
    &&& a.address == list[k].address
    &&& a.prefix_len == list[k].prefix_len
    &&& a.scope == list[k].scope
    &&& !a.is_primary
}

/// The addresses of a device are those that were found on it, with their prefix and scope, and
/// none of them is primary yet.
pub proof fn addresses_of_a_device(
    list: Seq<InterfaceAddressView>,
    name: Seq<char>,
    a: HostAddressView,
)
    ensures
        addresses_of(list, name).contains(a) <==> exists|k: int| #[trigger]
            was_found(list, k, name, a),
        addresses_of(list, name).len() <= list.len(),
    decreases list.len(),
{
    if list.len() > 0 {
        let front = list.drop_last();
        let n = list.len() - 1;
        addresses_of_a_device(front, name, a);
        assert(list[n] == list.last());
        let f = addresses_of(front, name);
        let all = addresses_of(list, name);
        if f.contains(a) {
            let i = choose|i: int| 0 <= i < f.len() && f[i] == a;
            assert(all[i] == a);
            let k = choose|k: int| #[trigger] was_found(front, k, name, a);
            assert(was_found(list, k, name, a));
        }
        if was_found(list, n, name, a) {
            assert(all[f.len() as int] == a);
        }
        if exists|k: int| #[trigger] was_found(list, k, name, a) {
            let k = choose|k: int| #[trigger] was_found(list, k, name, a);
            if k < n {
                assert(was_found(front, k, name, a));
            }
        }
        if all.contains(a) && !f.contains(a) {
            let i = choose|i: int| 0 <= i < all.len() && all[i] == a;
            if i < f.len() {
                assert(f[i] == a);
            }
            assert(was_found(list, n, name, a));
        }
    } else {
        assert(addresses_of(list, name) =~= Seq::<HostAddressView>::empty());
    }
}

/// A global address, of the fourth version where only such count.
pub open spec fn is_global(a: HostAddressView, v4_only: bool) -> bool {
    a.scope == "global"@ && (v4_only ==> !a.address.v6)
}

proof fn the_first_global_address(addresses: Seq<HostAddressView>, v4_only: bool)
    ensures
        0 <= first_global(addresses, v4_only) <= addresses.len(),
        forall|j: int|
            0 <= j < first_global(addresses, v4_only) ==> !is_global(
                #[trigger] addresses[j],
                v4_only,
            ),
        first_global(addresses, v4_only) < addresses.len() ==> is_global(
            addresses[first_global(addresses, v4_only)],
            v4_only,
        ),
    decreases addresses.len(),
{
    if addresses.len() > 0 && !is_global(addresses[0], v4_only) {
        let rest = addresses.drop_first();
        the_first_global_address(rest, v4_only);
        assert forall|j: int| 0 <= j < first_global(addresses, v4_only) implies !is_global(
            #[trigger] addresses[j],
            v4_only,
        ) by {
            if j > 0 {
                assert(rest[j - 1] == addresses[j]);
            }
        }
    }
}

/// The primary address of a device is its first global address of the fourth version; where
/// it has none, its first global address; where it has none either, there is no primary one.
pub proof fn the_primary_address(addresses: Seq<HostAddressView>, i: int)
    requires
        0 <= i < addresses.len(),
    ensures
        with_primary(addresses).len() == addresses.len(),
        with_primary(addresses)[i] == (HostAddressView {
            is_primary: with_primary(addresses)[i].is_primary,
            ..addresses[i]
        }),
        ({
            let v4 = exists|j: int|
                0 <= j < addresses.len() && is_global(#[trigger] addresses[j], true);
            let first = is_global(addresses[i], v4) && forall|j: int|
                0 <= j < i ==> !is_global(#[trigger] addresses[j], v4);
            with_primary(addresses)[i].is_primary == (addresses[i].is_primary || first)
        }),
{
    the_first_global_address(addresses, true);
    the_first_global_address(addresses, false);
    let a = first_global(addresses, true);
    let b = first_global(addresses, false);
    if a < addresses.len() {
        assert(is_global(addresses[a], true));
    }
    let v4 = exists|j: int| 0 <= j < addresses.len() && is_global(#[trigger] addresses[j], true);
    if v4 && a >= addresses.len() {
        let j = choose|j: int| 0 <= j < addresses.len() && is_global(#[trigger] addresses[j], true);
        assert(!is_global(addresses[j], true));
    }
    let at = if v4 {
        a
    } else {
        b
    };
    if i < at {
        assert(!is_global(addresses[i], v4));
    } else if i > at {
        assert(is_global(addresses[at], v4));
    }
}

/// An address is marked where it is the source that is preferred, and stays marked where it
/// was.
pub proof fn the_preferred_source_is_marked(addresses: Seq<HostAddressView>, source: Ip, i: int)
    requires
        0 <= i < addresses.len(),
    ensures
        marked(addresses, source).len() == addresses.len(),
        marked(addresses, source)[i] == (HostAddressView {
            is_primary: addresses[i].is_primary || addresses[i].address == source,
            ..addresses[i]
        }),
{
}

/// A line of the table of filesystems has six words at least: the source, three sizes, a
/// share, and the mount point, which may have blanks in it.
pub proof fn a_line_of_the_filesystems(line: Seq<char>)
    ensures
        ({
            let ws = words_spec(line, false);
            &&& filesystem_line(line) is Some <==> ws.len() >= 6 && decimal_u64(ws[1]) is Some
                && decimal_u64(ws[2]) is Some && decimal_u64(ws[3]) is Some
            &&& filesystem_line(line) matches Some(f) ==> f.source == ws[0] && Some(f.total_bytes)
                == decimal_u64(ws[1]) && Some(f.used_bytes) == decimal_u64(ws[2]) && Some(
                f.available_bytes,
            ) == decimal_u64(ws[3]) && (ws.len() == 6 ==> f.mount_point == ws[5]) && (ws.len() == 7
                ==> f.mount_point == ws[5] + " "@ + ws[6])
        }),
{
    let ws = words_spec(line, false);
    reveal_with_fuel(joined_words, 2);
    if ws.len() == 7 {
        assert(ws.drop_last().last() == ws[5]);
    }
}

/// What is available is told by the fourth word of the first line where that is a number.
pub proof fn what_is_available(lines: Seq<Seq<char>>, k: int)
    requires
        0 <= k < lines.len(),
        words_spec(lines[k], false).len() > 3,
        decimal_u64(words_spec(lines[k], false)[3]) is Some,
        forall|j: int|
            0 <= j < k ==> words_spec(#[trigger] lines[j], false).len() <= 3 || decimal_u64(
                words_spec(lines[j], false)[3],
            ) is None,
    ensures
        available_bytes_spec(lines) == decimal_u64(words_spec(lines[k], false)[3]),
    decreases k,
{
    if k > 0 {
        let rest = lines.drop_first();
        assert(lines[0] == lines[0]);
        assert(words_spec(lines[0], false).len() <= 3 || decimal_u64(
            words_spec(lines[0], false)[3],
        ) is None);
        assert forall|j: int| 0 <= j < k - 1 implies words_spec(#[trigger] rest[j], false).len()
            <= 3 || decimal_u64(words_spec(rest[j], false)[3]) is None by {
            assert(rest[j] == lines[j + 1]);
        }
        assert(rest[k - 1] == lines[k]);
        what_is_available(rest, k - 1);
    }
}

/// The ticks of all processors are the first eight numbers of the line of all together; the
/// fourth and the fifth of them were idle.
pub proof fn ticks_are_summed(text: Seq<char>, line: Seq<char>)
    requires
        aggregate_line(lines_spec(text)) == Some(line),
        words_spec(line, false).len() >= 9,
        forall|i: int|
            1 <= i < words_spec(line, false).len() ==> decimal_u64(
                #[trigger] words_spec(line, false)[i],
            ) is Some,
    ensures
        ({
            let ws = words_spec(line, false);
            let v = |i: int| decimal_u64(ws[i])->0;
            let idle = v(4) + v(5);
            &&& cpu_ticks(text) is Ok
            &&& cpu_ticks(text)->Ok_0.total == v(1) + v(2) + v(3) + v(4) + v(5) + v(6) + v(7) + v(8)
            &&& cpu_ticks(text)->Ok_0.idle == (if idle > u64::MAX {
                u64::MAX as int
            } else {
                idle
            })
        }),
{
    let ws = words_spec(line, false);
    let rest = ws.skip(1);
    assert forall|i: int| 0 <= i < rest.len() implies decimal_u64(#[trigger] rest[i]) is Some by {
        assert(rest[i] == ws[i + 1]);
    }
    all_are_numbers(rest);
    let values = numbers_in(rest);
    assert forall|i: int| 0 <= i < 8 implies #[trigger] values[i] == decimal_u64(ws[i + 1])->0 by {
        assert(rest[i] == ws[i + 1]);
    }
    assert(values[0] == decimal_u64(ws[1])->0);
    assert(values[1] == decimal_u64(ws[2])->0);
    assert(values[2] == decimal_u64(ws[3])->0);
    assert(values[3] == decimal_u64(ws[4])->0);
    assert(values[4] == decimal_u64(ws[5])->0);
    assert(values[5] == decimal_u64(ws[6])->0);
    assert(values[6] == decimal_u64(ws[7])->0);
    assert(values[7] == decimal_u64(ws[8])->0);
    reveal_with_fuel(sum_of, 9);
}

proof fn all_are_numbers(ws: Seq<Seq<char>>)
    requires
        forall|i: int| 0 <= i < ws.len() ==> decimal_u64(#[trigger] ws[i]) is Some,
    ensures
        numbers_in(ws).len() == ws.len(),
        forall|i: int|
            0 <= i < ws.len() ==> (#[trigger] numbers_in(ws)[i]) == decimal_u64(ws[i])->0,
    decreases ws.len(),
{
    if ws.len() > 0 {
        let front = ws.drop_last();
        assert forall|i: int| 0 <= i < front.len() implies decimal_u64(
            #[trigger] front[i],
        ) is Some by {
            assert(front[i] == ws[i]);
        }
        all_are_numbers(front);
        assert(ws[ws.len() - 1] == ws.last());
        assert forall|i: int| 0 <= i < ws.len() implies (#[trigger] numbers_in(ws)[i])
            == decimal_u64(ws[i])->0 by {
            if i < front.len() {
                assert(front[i] == ws[i]);
                assert(numbers_in(front)[i] == decimal_u64(front[i])->0);
            }
        }
    }
}

/// A line of the disk table counts for a device that is there and is neither a loop nor a
/// memory device; its sixth and tenth words count sectors of 512 bytes.
pub proof fn a_line_of_the_disks(line: Seq<char>, devices: Seq<Seq<char>>)
    ensures
        ({
            let ws = words_spec(line, false);
            &&& block_line(line, devices) is Some <==> ws.len() >= 10 && device_name(ws[2], 64)
                && devices.contains(ws[2]) && !starts_with(ws[2], "loop"@) && !starts_with(
                ws[2],
                "ram"@,
            ) && decimal_u64(ws[5]) is Some && decimal_u64(ws[9]) is Some
            &&& block_line(line, devices) matches Some(c) ==> c.name == ws[2] && (decimal_u64(
                ws[5],
            )->0 * 512 <= u64::MAX ==> c.read == decimal_u64(ws[5])->0 * 512) && (decimal_u64(
                ws[9],
            )->0 * 512 <= u64::MAX ==> c.written == decimal_u64(ws[9])->0 * 512)
        }),
{
}

/// The counters of a device are those that were told last; telling one device leaves the
/// others as they were, and a device that was not told counts nothing.
pub proof fn counters_are_those_told_last(
    list: Seq<IoCountersView>,
    c: IoCountersView,
    name: Seq<char>,
)
    ensures
        earlier(Seq::empty(), name) == (0u64, 0u64),
        earlier(with_counters(list, c), c.name) == (c.read, c.written),
        name != c.name ==> earlier(with_counters(list, c), name) == earlier(list, name),
    decreases list.len(),
{
    let after = with_counters(list, c);
    if list.len() == 0 {
        assert(after.drop_last() =~= list);
        assert(after.last() == c);
    } else if list.last().name == c.name {
        assert(after.drop_last() =~= list.drop_last());
        assert(after.last() == c);
    } else {
        counters_are_those_told_last(list.drop_last(), c, name);
        assert(after.drop_last() =~= with_counters(list.drop_last(), c));
        assert(after.last() == list.last());
    }
}

/// A difference is what a counter grew by since it was told first; one that went back grew by
/// nothing.
pub proof fn differences_of_counters(first: Seq<IoCountersView>, c: IoCountersView)
    ensures
        ({
            let before = earlier(first, c.name);
            let d = delta_of(first, c);
            &&& d.name == c.name && d.read == c.read && d.written == c.written
            &&& c.read >= before.0 ==> d.read_delta == c.read - before.0
            &&& c.read < before.0 ==> d.read_delta == 0
            &&& c.written >= before.1 ==> d.written_delta == c.written - before.1
            &&& c.written < before.1 ==> d.written_delta == 0
        }),
{
}

proof fn what_follows_the_last(a: Seq<char>, c: char, b: Seq<char>)
    requires
        !b.contains(c),
    ensures
        after_last(a.push(c) + b, c) == Some(b),
    decreases b.len(),
{
    let s = a.push(c) + b;
    if b.len() == 0 {
        assert(s =~= a.push(c));
        assert(s.last() == c);
        assert(b =~= Seq::<char>::empty());
    } else {
        let f = b.drop_last();
        assert(!f.contains(c)) by {
            if f.contains(c) {
                let k = choose|k: int| 0 <= k < f.len() && f[k] == c;
                assert(b[k] == c);
            }
        }
        assert(s.last() == b.last());
        assert(b[b.len() - 1] != c);
        assert(s.drop_last() =~= a.push(c) + f);
        what_follows_the_last(a, c, f);
        assert(f.push(b.last()) =~= b);
    }
}

/// A line of the table of sockets tells of a port that is listened on where its fourth word
/// says so; the port stands in hexadecimal after the last colon of the second word.
pub proof fn a_line_of_the_sockets(line: Seq<char>, address: Seq<char>, port: Seq<char>)
    requires
        words_spec(line, false).len() >= 4,
        words_spec(line, false)[1] == address.push(':') + port,
        !port.contains(':'),
    ensures
        words_spec(line, false)[3] == "0A"@ ==> listening_port(line) == hexadecimal_u16(port),
        words_spec(line, false)[3] != "0A"@ ==> listening_port(line) is None,
{
    what_follows_the_last(address, ':', port);
}

/// What is known of a device is what its files hold, without surrounding white space: a
/// counter that cannot be read counts nothing, and a speed is a positive number.
pub proof fn what_is_known_of_a_device(
    files: InterfaceFilesView,
    addresses: Seq<InterfaceAddressView>,
    n: nat,
)
    requires
        n <= i64::MAX,
    ensures
        ({
            let i = interface_info(files, addresses);
            &&& i.name == files.name
            &&& i.addresses == addresses_of(addresses, files.name)
            &&& i.is_loopback <==> files.name == "lo"@
            &&& files.operstate is None ==> i.state == "unknown"@
            &&& files.operstate is Some ==> i.state == trim_spec(files.operstate->0)
            &&& files.address is None ==> i.mac_address is None
            &&& files.address is Some ==> i.mac_address == Some(trim_spec(files.address->0))
            &&& files.rx_bytes is None ==> i.rx_bytes == 0
            &&& files.rx_bytes is Some && trim_spec(files.rx_bytes->0) == decimal_text(n)
                ==> i.rx_bytes == n
            &&& files.tx_bytes is None ==> i.tx_bytes == 0
            &&& files.tx_bytes is Some && trim_spec(files.tx_bytes->0) == decimal_text(n)
                ==> i.tx_bytes == n
            &&& files.mtu is None ==> i.mtu is None
            &&& files.mtu is Some && trim_spec(files.mtu->0) == decimal_text(n) && n <= u32::MAX
                ==> i.mtu == Some(n as u32)
            &&& files.speed is None ==> i.speed_mbps is None
            &&& files.speed is Some && trim_spec(files.speed->0) == decimal_text(n) && n > 0
                ==> i.speed_mbps == Some(n as u64)
            &&& files.speed is Some && trim_spec(files.speed->0) == decimal_text(0)
                ==> i.speed_mbps is None
            &&& files.duplex is Some && trim_spec(files.duplex->0).len() > 0 ==> i.duplex == Some(
                trim_spec(files.duplex->0),
            )
            &&& files.duplex is None || trim_spec(files.duplex->0).len() == 0 ==> i.duplex is None
        }),
{
    written_numbers_are_read_back(n, u64::MAX as int);
    written_numbers_are_read_back(n, u32::MAX as int);
    written_numbers_are_read_back(n, i64::MAX as int);
    written_numbers_are_read_back(0, i64::MAX as int);
}

/// The devices that are known are those with the name of one, each once in its turn.
pub proof fn which_devices_are_known(
    files: Seq<InterfaceFilesView>,
    f: InterfaceFilesView,
    addresses: Seq<InterfaceAddressView>,
)
    ensures
        interface_infos(Seq::empty(), addresses).len() == 0,
        device_name(f.name, 15) ==> interface_infos(files.push(f), addresses) == interface_infos(
            files,
            addresses,
        ).push(interface_info(f, addresses)),
        !device_name(f.name, 15) ==> interface_infos(files.push(f), addresses) == interface_infos(
            files,
            addresses,
        ),
{
    assert(files.push(f).drop_last() =~= files);
}

/// A text begins and ends with no quotation mark.
pub open spec fn is_bare(s: Seq<char>) -> bool {
    s.len() > 0 ==> s[0] != '"' && s.last() != '"'
}

/// Quotation marks and nothing else.
pub open spec fn is_quotes(s: Seq<char>) -> bool {
    forall|i: int| 0 <= i < s.len() ==> #[trigger] s[i] == '"'
}

/// A text is another one between quotation marks, which it does not begin or end with itself.
pub open spec fn is_quoted(s: Seq<char>, inner: Seq<char>) -> bool {
    is_bare(inner) && exists|a: Seq<char>, b: Seq<char>|
        s == #[trigger] (a + inner + b) && is_quotes(a) && is_quotes(b)
}

proof fn quotes_are_taken_off(s: Seq<char>)
    ensures
        is_quoted(s, unquoted(s)),
    decreases s.len(),
{
    if s.len() > 0 && s[0] == '"' {
        quotes_are_taken_off(s.drop_first());
        let inner = unquoted(s);
        let (a, b) = choose|a: Seq<char>, b: Seq<char>|
            s.drop_first() == #[trigger] (a + inner + b) && is_quotes(a) && is_quotes(b);
        let more = seq!['"'] + a;
        assert(s =~= seq!['"'] + s.drop_first());
        assert(s =~= more + inner + b);
        assert(is_quotes(more));
    } else if s.len() > 0 && s.last() == '"' {
        quotes_are_taken_off(s.drop_last());
        let inner = unquoted(s);
        let (a, b) = choose|a: Seq<char>, b: Seq<char>|
            s.drop_last() == #[trigger] (a + inner + b) && is_quotes(a) && is_quotes(b);
        let more = b.push('"');
        assert(s =~= s.drop_last().push('"'));
        assert(s =~= a + inner + more);
        assert(is_quotes(more));
    } else {
        let none = Seq::<char>::empty();
        assert(s =~= none + s + none);
        assert(is_quotes(none));
    }
}

/// A line that names a system sets a value for a key behind the first equals sign, with white
/// space and quotation marks around it; a line that begins with a hash sets none.
pub proof fn a_line_of_the_system(key: Seq<char>, rest: Seq<char>, other: Seq<char>)
    requires
        !key.contains('='),
    ensures
        ({
            let line = key.push('=') + rest;
            let begun = trim_start_spec(line);
            &&& begun.len() > 0 && begun[0] == '#' ==> os_line(line, other) is None
            &&& !(begun.len() > 0 && begun[0] == '#') && trim_spec(key) != other ==> os_line(
                line,
                other,
            ) is None
            &&& !(begun.len() > 0 && begun[0] == '#') && trim_spec(key) == other ==> (os_line(
                line,
                other,
            ) matches Some(v) && is_quoted(trim_spec(rest), v))
        }),
        os_line(key, other) is None,
{
    the_first_separator(key, '=', rest);
    quotes_are_taken_off(trim_spec(rest));
}

/// The last line that sets a key sets a value.
pub open spec fn sets(lines: Seq<Seq<char>>, key: Seq<char>, value: Option<Seq<char>>) -> bool {
    ||| value is None && forall|k: int|
        0 <= k < lines.len() ==> os_line(#[trigger] lines[k], key) is None
    ||| value is Some && exists|k: int|
        0 <= k < lines.len() && os_line(#[trigger] lines[k], key) == value && forall|j: int|
            k < j < lines.len() ==> os_line(#[trigger] lines[j], key) is None
}

proof fn the_last_line_sets(lines: Seq<Seq<char>>, key: Seq<char>)
    ensures
        sets(lines, key, os_value(lines, key)),
    decreases lines.len(),
{
    if lines.len() > 0 {
        let front = lines.drop_last();
        let n = lines.len() - 1;
        assert(lines[n] == lines.last());
        the_last_line_sets(front, key);
        let value = os_value(front, key);
        if os_line(lines.last(), key) is None {
            if value is None {
                assert forall|k: int| 0 <= k < lines.len() implies os_line(
                    #[trigger] lines[k],
                    key,
                ) is None by {
                    if k < n {
                        assert(front[k] == lines[k]);
                    }
                }
            } else {
                let k = choose|k: int|
                    0 <= k < front.len() && os_line(#[trigger] front[k], key) == value && forall|
                        j: int,
                    |
                        k < j < front.len() ==> os_line(#[trigger] front[j], key) is None;
                assert(lines[k] == front[k]);
                assert forall|j: int| k < j < lines.len() implies os_line(
                    #[trigger] lines[j],
                    key,
                ) is None by {
                    if j < n {
                        assert(front[j] == lines[j]);
                    }
                }
            }
        }
    }
}

/// The name of the system is the one for people to read, as the last line that has one sets
/// it, else the short one.
pub proof fn the_name_of_the_system(text: Seq<char>)
    ensures
        sets(lines_spec(text), "PRETTY_NAME"@, os_name(text)) && os_name(text) is Some || (sets(
            lines_spec(text),
            "PRETTY_NAME"@,
            None,
        ) && sets(lines_spec(text), "NAME"@, os_name(text))),
{
    the_last_line_sets(lines_spec(text), "PRETTY_NAME"@);
    the_last_line_sets(lines_spec(text), "NAME"@);
}

/// The default route is the first that is listed: its device, where that can be the name of
/// one, its gateway and the source that it prefers, each where it is one.
pub proof fn the_default_route(routes: Seq<Json>, name: Seq<char>, gateway: Ip, source: Ip)
    ensures
        default_route(Json::Array(Seq::empty())) is None,
        routes.len() > 0 ==> ({
            let r = default_route(Json::Array(routes));
            let first = routes[0];
            &&& r is Some
            &&& first.text_member("dev"@) is None ==> r->0.interface is None
            &&& first.text_member("dev"@) == Some(name) && device_name(name, 15)
                ==> r->0.interface == Some(name)
            &&& first.text_member("dev"@) == Some(name) && !device_name(name, 15)
                ==> r->0.interface is None
            &&& r->0.gateway == Some(gateway) <==> (first.text_member("gateway"@) matches Some(t)
                && ip_value(t) == Some(gateway))
            &&& r->0.preferred_source == Some(source) <==> (first.text_member("prefsrc"@) matches
                Some(t) && ip_value(t) == Some(source))
        }),
{
}

proof fn the_first_of_a_name(interfaces: Seq<NetworkInterfaceInfoView>, name: Seq<char>)
    ensures
        0 <= interface_index(interfaces, name) <= interfaces.len(),
        interface_index(interfaces, name) < interfaces.len() ==> interfaces[interface_index(
            interfaces,
            name,
        )].name == name,
        forall|j: int|
            0 <= j < interface_index(interfaces, name) ==> (#[trigger] interfaces[j]).name != name,
    decreases interfaces.len(),
{
    if interfaces.len() > 0 && interfaces[0].name != name {
        let rest = interfaces.drop_first();
        the_first_of_a_name(rest, name);
        assert forall|j: int| 0 <= j < interface_index(interfaces, name) implies (
        #[trigger] interfaces[j]).name != name by {
            if j > 0 {
                assert(rest[j - 1] == interfaces[j]);
            }
        }
    }
}

/// Where the preferred source is an address of the host it is marked wherever it stands;
/// else the device that leads outside has its primary address marked, and no other device
/// changes.
pub proof fn where_the_primary_address_is_marked(
    interfaces: Seq<NetworkInterfaceInfoView>,
    name: Option<Seq<char>>,
    source: Option<Ip>,
    i: int,
)
    requires
        0 <= i < interfaces.len(),
    ensures
        ({
            let known = source is Some && exists|j: int, k: int|
                0 <= j < interfaces.len() && 0 <= k < interfaces[j].addresses.len()
                    && #[trigger] interfaces[j].addresses[k].address == source->0;
            let leads = name == Some(interfaces[i].name) && forall|j: int|
                0 <= j < i ==> (#[trigger] interfaces[j]).name != interfaces[i].name;
            &&& primary_marked(interfaces, name, source).len() == interfaces.len()
            &&& primary_marked(interfaces, name, source)[i] == (NetworkInterfaceInfoView {
                addresses: if known {
                    marked(interfaces[i].addresses, source->0)
                } else if leads {
                    with_primary(interfaces[i].addresses)
                } else {
                    interfaces[i].addresses
                },
                ..interfaces[i]
            })
        }),
{
    if source is Some {
        let known = exists|j: int, k: int|
            0 <= j < interfaces.len() && 0 <= k < interfaces[j].addresses.len()
                && #[trigger] interfaces[j].addresses[k].address == source->0;
        if known {
            let (j, k) = choose|j: int, k: int|
                0 <= j < interfaces.len() && 0 <= k < interfaces[j].addresses.len()
                    && #[trigger] interfaces[j].addresses[k].address == source->0;
            assert(has_address(interfaces[j].addresses, source->0));
        }
        if somewhere(interfaces, source->0) {
            let j = choose|j: int|
                0 <= j < interfaces.len() && has_address(
                    (#[trigger] interfaces[j]).addresses,
                    source->0,
                );
            let k = choose|k: int|
                0 <= k < interfaces[j].addresses.len() && (
                #[trigger] interfaces[j].addresses[k]).address == source->0;
            assert(interfaces[j].addresses[k].address == source->0);
        }
    }
    if name is Some {
        the_first_of_a_name(interfaces, name->0);
        let at = interface_index(interfaces, name->0);
        if at < i {
            assert(interfaces[at].name == name->0);
        }
    }
}

} // verus!
