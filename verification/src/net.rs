//! IP addresses and networks.

use vstd::arithmetic::power2::{lemma_pow2_pos, pow2};
use vstd::prelude::*;

use crate::error::{validation, AppError, AppErrorView};
use crate::numbers::{decimal, decimal_text};
use crate::text::{join2, join3, list_contains, trim, trim_spec, view_option, views};

verus! {

broadcast use vstd::string::group_string_axioms;

/// An IP address: its family and its bits.
#[derive(Clone, Copy, Debug, PartialEq, Eq, Structural)]
pub struct Ip {
    pub v6: bool,
    pub bits: u128,
}

impl Ip {
    /// An address of version four has thirty-two bits.
    pub open spec fn wf(self) -> bool {
        self.v6 || self.bits <= u32::MAX
    }

    /// Number of bits of an address of the family.
    pub open spec fn width(self) -> nat {
        if self.v6 {
            128
        } else {
            32
        }
    }
}

/// A network: an address in it and the length of the prefix.
#[derive(Clone, Copy, Debug, PartialEq, Eq, Structural)]
pub struct Net {
    pub ip: Ip,
    pub prefix: u8,
}

impl Net {
    /// The prefix is not longer than the address.
    pub open spec fn wf(self) -> bool {
        self.ip.wf() && self.prefix <= self.ip.width()
    }

    /// Number of addresses of the network.
    pub open spec fn size(self) -> nat {
        pow2((self.ip.width() - self.prefix) as nat)
    }

    /// The first address of the network.
    pub open spec fn first(self) -> int {
        self.ip.bits as int - self.ip.bits as int % self.size() as int
    }

    /// The network with its first address in place of any.
    pub open spec fn truncated(self) -> Net {
        Net { ip: Ip { bits: self.first() as u128, ..self.ip }, ..self }
    }

    /// The address lies in the network.
    pub open spec fn covers(self, ip: Ip) -> bool {
        self.ip.v6 == ip.v6 && self.first() <= ip.bits < self.first() + self.size()
    }
}

/// The address that a text writes, where it writes one.
pub uninterp spec fn ip_value(s: Seq<char>) -> Option<Ip>;

/// The canonical text of an address.
pub uninterp spec fn ip_text(ip: Ip) -> Seq<char>;

/// The network that a text writes in CIDR notation, where it writes one.
pub uninterp spec fn net_value(s: Seq<char>) -> Option<Net>;

/// The text of a network in CIDR notation.
pub open spec fn net_text(net: Net) -> Seq<char> {
    ip_text(net.ip) + "/"@ + decimal_text(net.prefix as nat)
}

/// The `FromStr` of std's IP addresses, whose type `ipnet::IpNet::new` takes: the address
/// that a text writes.
#[verifier::external_body]
fn parse_ip_text(s: &str) -> (r: Option<Ip>)
    ensures
        r == ip_value(s@),
        r matches Some(ip) ==> ip.wf(),
{
    match ipnet::IpNet::new(s.parse().ok()?, 0).ok()? {
        ipnet::IpNet::V4(n) => Some(Ip { v6: false, bits: u32::from(n.addr()) as u128 }),
        ipnet::IpNet::V6(n) => Some(Ip { v6: true, bits: u128::from(n.addr()) }),
    }
}

/// The `Display` of std's IP addresses, reached over `ipnet::Ipv4Net::addr` and
/// `ipnet::Ipv6Net::addr`: the canonical text of an address, which parses back to it.
#[verifier::external_body]
fn format_ip(ip: Ip) -> (r: String)
    requires
        ip.wf(),
    ensures
        r@ == ip_text(ip),
        ip_value(r@) == Some(ip),
{
    if ip.v6 {
        ipnet::Ipv6Net::new(ip.bits.into(), 128).map(|n| n.addr().to_string()).unwrap_or_default()
    } else {
        let bits = ip.bits as u32;
        ipnet::Ipv4Net::new(bits.into(), 32).map(|n| n.addr().to_string()).unwrap_or_default()
    }
}

/// The `FromStr` of `ipnet::IpNet`: the network that a text writes in CIDR notation. The
/// address and the prefix of that network, with a slash between them, write it again.
#[verifier::external_body]
fn parse_net_text(s: &str) -> (r: Option<Net>)
    ensures
        r == net_value(s@),
        r matches Some(net) ==> net.wf() && net_value(net_text(net)) == Some(net),
{
    match s.parse::<ipnet::IpNet>().ok()? {
        ipnet::IpNet::V4(n) => Some(
            Net { ip: Ip { v6: false, bits: u32::from(n.addr()) as u128 }, prefix: n.prefix_len() },
        ),
        ipnet::IpNet::V6(n) => Some(
            Net { ip: Ip { v6: true, bits: u128::from(n.addr()) }, prefix: n.prefix_len() },
        ),
    }
}

/// The address that a text writes.
pub fn parse_ip(s: &str) -> (r: Option<Ip>)
    ensures
        r == ip_value(s@),
        r matches Some(ip) ==> ip.wf(),
{
    parse_ip_text(s)
}

/// The canonical text of an address.
pub fn ip_string(ip: Ip) -> (r: String)
    requires
        ip.wf(),
    ensures
        r@ == ip_text(ip),
        ip_value(r@) == Some(ip),
{
    format_ip(ip)
}

/// The network that a text writes in CIDR notation.
pub fn parse_net(s: &str) -> (r: Option<Net>)
    ensures
        r == net_value(s@),
        r matches Some(net) ==> net.wf() && net_value(net_text(net)) == Some(net),
{
    parse_net_text(s)
}

/// The text of a network in CIDR notation.
pub fn net_string(net: Net) -> (r: String)
    requires
        net.wf(),
    ensures
        r@ == net_text(net),
{
    let ip = format_ip(net.ip);
    let prefix = decimal(net.prefix as u64);
    join3(ip.as_str(), "/", prefix.as_str())
}

fn host_bits(net: Net) -> (r: u8)
    requires
        net.wf(),
    ensures
        r == net.ip.width() - net.prefix,
{
    if net.ip.v6 {
        128 - net.prefix
    } else {
        32 - net.prefix
    }
}

/// A power of two below two to the 128.
fn power_of_two(n: u8) -> (r: u128)
    requires
        n < 128,
    ensures
        r == pow2(n as nat),
        r > 0,
{
    let mut r: u128 = 1;
    let mut i: u8 = 0;
    proof {
        vstd::arithmetic::power2::lemma2_to64();
        lemma_pow2_pos(n as nat);
    }
    while i < n
        invariant
            i <= n < 128,
            r == pow2(i as nat),
        decreases n - i,
    {
        proof {
            vstd::arithmetic::power2::lemma_pow2_unfold((i + 1) as nat);
            vstd::arithmetic::power2::lemma_pow2_strictly_increases((i + 1) as nat, 128);
            two_to_128();
        }
        r = r * 2;
        i = i + 1;
    }
    r
}

proof fn two_to_128()
    ensures
        pow2(128) == 0x1_0000_0000_0000_0000_0000_0000_0000_0000int,
        pow2(32) == 0x1_0000_0000int,
{
    vstd::arithmetic::power2::lemma2_to64();
    vstd::arithmetic::power2::lemma_pow2_adds(64, 64);
    assert(pow2(64) * pow2(64) == 0x1_0000_0000_0000_0000_0000_0000_0000_0000int)
        by (nonlinear_arith)
        requires
            pow2(64) == 0x1_0000_0000_0000_0000int,
    ;
}

proof fn first_fits(net: Net)
    requires
        net.wf(),
    ensures
        net.size() > 0,
        0 <= net.first() <= net.ip.bits,
        net.ip.bits < net.first() + net.size(),
        net.size() as int <= pow2(net.ip.width()),
{
    lemma_pow2_pos((net.ip.width() - net.prefix) as nat);
    let s = net.size() as int;
    let b = net.ip.bits as int;
    assert(0 <= b % s < s) by (nonlinear_arith)
        requires
            s > 0,
    ;
    assert(b % s <= b) by (nonlinear_arith)
        requires
            s > 0,
            b >= 0,
    ;
    if net.prefix > 0 {
        vstd::arithmetic::power2::lemma_pow2_strictly_increases(
            (net.ip.width() - net.prefix) as nat,
            net.ip.width(),
        );
    }
}

/// The first address of a network.
fn first_address(net: Net) -> (r: u128)
    requires
        net.wf(),
    ensures
        r == net.first(),
{
    let n: u8 = host_bits(net);
    proof {
        first_fits(net);
        two_to_128();
    }
    if n == 128 {
        proof {
            let b = net.ip.bits as int;
            let s = net.size() as int;
            assert(b % s == b) by (nonlinear_arith)
                requires
                    0 <= b < s,
            ;
        }
        0
    } else {
        let size: u128 = power_of_two(n);
        net.ip.bits - net.ip.bits % size
    }
}

/// The network with its first address in place of any.
pub fn truncate(net: Net) -> (r: Net)
    requires
        net.wf(),
    ensures
        r == net.truncated(),
        r.wf(),
{
    proof {
        first_fits(net);
    }
    Net { ip: Ip { v6: net.ip.v6, bits: first_address(net) }, prefix: net.prefix }
}

/// Whether an address lies in a network.
pub fn contains(net: Net, ip: Ip) -> (r: bool)
    requires
        net.wf(),
        ip.wf(),
    ensures
        r == net.covers(ip),
{
    if net.ip.v6 != ip.v6 {
        return false;
    }
    proof {
        first_fits(net);
        two_to_128();
    }
    let first: u128 = first_address(net);
    let n: u8 = host_bits(net);
    if n == 128 {
        proof {
            let b = net.ip.bits as int;
            let s = net.size() as int;
            assert(b % s == b) by (nonlinear_arith)
                requires
                    0 <= b < s,
            ;
        }
        return true;
    }
    let size: u128 = power_of_two(n);
    ip.bits >= first && ip.bits - first < size
}

/// One network holds the address that the other one is written with.
pub open spec fn overlap(left: Net, right: Net) -> bool {
    left.ip.v6 == right.ip.v6 && (left.covers(right.ip) || right.covers(left.ip))
}

/// Whether two networks have addresses in common.
pub fn networks_overlap(left: Net, right: Net) -> (r: bool)
    requires
        left.wf(),
        right.wf(),
    ensures
        r == overlap(left, right),
{
    left.ip.v6 == right.ip.v6 && (contains(left, right.ip) || contains(right, left.ip))
}

proof fn aligned_ranges_nest(a: int, b: int, s: int, k: int, x: int)
    requires
        s > 0,
        k > 0,
        0 <= a,
        0 <= b,
        b - b % s <= x < b - b % s + s,
        a - a % (k * s) <= x < a - a % (k * s) + k * s,
    ensures
        a - a % (k * s) <= b < a - a % (k * s) + k * s,
{
    let big = k * s;
    assert(big > 0) by (nonlinear_arith)
        requires
            s > 0,
            k > 0,
            big == k * s,
    ;
    let q = a / big;
    let p = b / s;
    vstd::arithmetic::div_mod::lemma_fundamental_div_mod(a, big);
    vstd::arithmetic::div_mod::lemma_fundamental_div_mod(b, s);
    assert(a - a % big == big * q);
    assert(b - b % s == s * p);
    // q * k * s <= x < (p + 1) * s, hence q * k <= p; and p * s <= x < (q + 1) * k * s.
    assert(q * k < p + 1) by (nonlinear_arith)
        requires
            big * q <= x,
            x < s * p + s,
            big == k * s,
            s > 0,
    ;
    assert(p < (q + 1) * k) by (nonlinear_arith)
        requires
            s * p <= x,
            x < big * q + big,
            big == k * s,
            s > 0,
    ;
    assert(big * q <= s * p && s * p + s <= big * q + big) by (nonlinear_arith)
        requires
            q * k <= p,
            p + 1 <= (q + 1) * k,
            big == k * s,
            s > 0,
    ;
    assert(0 <= b % s < s) by (nonlinear_arith)
        requires
            s > 0,
    ;
}

/// Two networks overlap exactly where some address lies in both; the order of the two does
/// not matter.
pub proof fn overlap_is_a_common_address(left: Net, right: Net)
    requires
        left.wf(),
        right.wf(),
    ensures
        overlap(left, right) == overlap(right, left),
        overlap(left, right) <==> exists|ip: Ip|
            ip.wf() && #[trigger] left.covers(ip) && right.covers(ip),
{
    first_fits(left);
    first_fits(right);
    if overlap(left, right) {
        if left.covers(right.ip) {
            assert(right.covers(right.ip));
            assert(left.covers(right.ip) && right.covers(right.ip));
        } else {
            assert(left.covers(left.ip));
            assert(left.covers(left.ip) && right.covers(left.ip));
        }
    }
    if exists|ip: Ip| ip.wf() && #[trigger] left.covers(ip) && right.covers(ip) {
        let ip = choose|ip: Ip| ip.wf() && #[trigger] left.covers(ip) && right.covers(ip);
        let w = left.ip.width() as int;
        if left.prefix <= right.prefix {
            vstd::arithmetic::power2::lemma_pow2_adds(
                (right.prefix - left.prefix) as nat,
                (w - right.prefix) as nat,
            );
            lemma_pow2_pos((right.prefix - left.prefix) as nat);
            aligned_ranges_nest(
                left.ip.bits as int,
                right.ip.bits as int,
                right.size() as int,
                pow2((right.prefix - left.prefix) as nat) as int,
                ip.bits as int,
            );
            assert(left.covers(right.ip));
        } else {
            vstd::arithmetic::power2::lemma_pow2_adds(
                (left.prefix - right.prefix) as nat,
                (w - left.prefix) as nat,
            );
            lemma_pow2_pos((left.prefix - right.prefix) as nat);
            aligned_ranges_nest(
                right.ip.bits as int,
                left.ip.bits as int,
                left.size() as int,
                pow2((left.prefix - right.prefix) as nat) as int,
                ip.bits as int,
            );
            assert(right.covers(left.ip));
        }
    }
}

/// Truncating a network changes neither which addresses lie in it nor, done twice,
/// anything more.
pub proof fn truncation_keeps_the_network(net: Net, ip: Ip)
    requires
        net.wf(),
    ensures
        net.truncated().covers(ip) == net.covers(ip),
        net.truncated().truncated() == net.truncated(),
{
    first_fits(net);
    let s = net.size() as int;
    let b = net.ip.bits as int;
    let f = net.first();
    vstd::arithmetic::div_mod::lemma_fundamental_div_mod(b, s);
    vstd::arithmetic::div_mod::lemma_mod_multiples_basic(b / s, s);
    assert(f == (b / s) * s) by (nonlinear_arith)
        requires
            f == b - b % s,
            b == s * (b / s) + b % s,
    ;
    assert(f % s == 0);
}

/// The family of an IP address.
#[derive(Clone, Copy, Debug, PartialEq, Eq, Structural)]
pub enum AddressFamily {
    V4,
    V6,
}

impl AddressFamily {
    /// The family of an address.
    pub open spec fn of(ip: Ip) -> AddressFamily {
        if ip.v6 {
            AddressFamily::V6
        } else {
            AddressFamily::V4
        }
    }

    /// The longest prefix of the family.
    pub open spec fn width(self) -> u8 {
        match self {
            AddressFamily::V4 => 32,
            AddressFamily::V6 => 128,
        }
    }

    /// The family that a stored number stands for.
    pub fn from_i64(value: i64) -> (r: Option<AddressFamily>)
        ensures
            r == (if value == 4 {
                Some(AddressFamily::V4)
            } else if value == 6 {
                Some(AddressFamily::V6)
            } else {
                None
            }),
    {
        if value == 4 {
            Some(AddressFamily::V4)
        } else if value == 6 {
            Some(AddressFamily::V6)
        } else {
            None
        }
    }
}

/// The family of an address.
pub fn family_for_ip(ip: Ip) -> (r: AddressFamily)
    ensures
        r == AddressFamily::of(ip),
{
    if ip.v6 {
        AddressFamily::V6
    } else {
        AddressFamily::V4
    }
}

/// The text of a family in messages.
pub open spec fn family_text(f: AddressFamily) -> Seq<char> {
    match f {
        AddressFamily::V4 => "V4"@,
        AddressFamily::V6 => "V6"@,
    }
}

/// Accepts a prefix that is not longer than an address of the family.
pub fn validate_prefix(family: AddressFamily, prefix: u8) -> (r: Result<(), AppError>)
    ensures
        r is Ok <==> prefix <= family.width(),
        r matches Err(e) ==> e@ == AppErrorView::Validation(
            "prefix length "@ + decimal_text(prefix as nat) + " is invalid for "@ + family_text(
                family,
            ),
        ),
{
    let (maximum, name): (u8, &str) = match family {
        AddressFamily::V4 => (32, "V4"),
        AddressFamily::V6 => (128, "V6"),
    };
    if prefix > maximum {
        let digits = decimal(prefix as u64);
        let mut text = join3("prefix length ", digits.as_str(), " is invalid for ");
        text.append(name);
        Err(AppError::Validation(text))
    } else {
        Ok(())
    }
}

/// The canonical form of an address text.
pub open spec fn canonical_ip_spec(value: Seq<char>) -> Result<Seq<char>, AppErrorView> {
    match ip_value(trim_spec(value)) {
        Some(ip) => Ok(ip_text(ip)),
        None => Err(AppErrorView::Validation("invalid IP address: "@ + value)),
    }
}

/// The canonical form of an address text.
pub fn canonical_ip(value: &str) -> (r: Result<String, AppError>)
    ensures
        match r {
            Ok(text) => canonical_ip_spec(value@) == Ok::<Seq<char>, AppErrorView>(text@),
            Err(e) => canonical_ip_spec(value@) == Err::<Seq<char>, AppErrorView>(e@),
        },
{
    let trimmed = trim(value);
    match parse_ip(trimmed.as_str()) {
        Some(ip) => Ok(ip_string(ip)),
        None => Err(AppError::Validation(join2("invalid IP address: ", value))),
    }
}

/// The canonical form of an optional address of an expected family.
pub open spec fn canonical_optional_ip_spec(
    value: Option<Seq<char>>,
    expected_family: Option<AddressFamily>,
) -> Result<Option<Seq<char>>, AppErrorView> {
    match value {
        None => Ok(None),
        Some(v) => {
            let text = trim_spec(v);
            if text.len() == 0 {
                Ok(None)
            } else {
                match ip_value(text) {
                    None => Err(AppErrorView::Validation("invalid IP address: "@ + text)),
                    Some(ip) => if expected_family matches Some(f) && f != AddressFamily::of(ip) {
                        Err(
                            AppErrorView::Validation("IP address family does not match its pool"@),
                        )
                    } else {
                        Ok(Some(ip_text(ip)))
                    },
                }
            }
        },
    }
}

/// The canonical form of an optional address of an expected family.
pub fn canonical_optional_ip(
    value: &Option<String>,
    expected_family: Option<AddressFamily>,
) -> (r: Result<Option<String>, AppError>)
    ensures
        match r {
            Ok(text) => canonical_optional_ip_spec(view_option(*value), expected_family) == Ok::<
                Option<Seq<char>>,
                AppErrorView,
            >(view_option(text)),
            Err(e) => canonical_optional_ip_spec(view_option(*value), expected_family) == Err::<
                Option<Seq<char>>,
                AppErrorView,
            >(e@),
        },
{
    match value {
        None => Ok(None),
        Some(v) => {
            let text = trim(v.as_str());
            if text.as_str().is_empty() {
                return Ok(None);
            }
            match parse_ip(text.as_str()) {
                None => Err(AppError::Validation(join2("invalid IP address: ", text.as_str()))),
                Some(ip) => {
                    let mismatch = match expected_family {
                        Some(f) => f != family_for_ip(ip),
                        None => false,
                    };
                    if mismatch {
                        return Err(validation("IP address family does not match its pool"));
                    }
                    Ok(Some(ip_string(ip)))
                },
            }
        },
    }
}

/// The canonical forms of some addresses, each once, in the order of their first
/// occurrence.
pub open spec fn distinct_ips(addresses: Seq<Seq<char>>) -> Result<Seq<Seq<char>>, AppErrorView>
    decreases addresses.len(),
{
    if addresses.len() == 0 {
        Ok(Seq::empty())
    } else {
        match distinct_ips(addresses.drop_last()) {
            Err(e) => Err(e),
            Ok(front) => match canonical_ip_spec(addresses.last()) {
                Err(e) => Err(e),
                Ok(ip) => Ok(
                    if front.contains(ip) {
                        front
                    } else {
                        front.push(ip)
                    },
                ),
            },
        }
    }
}

/// The name servers that a list of addresses stands for.
pub open spec fn dns_addresses(addresses: Seq<Seq<char>>) -> Result<
    Seq<Seq<char>>,
    AppErrorView,
> {
    if addresses.len() > 32 {
        Err(AppErrorView::Validation("at most 32 DNS servers are allowed"@))
    } else {
        distinct_ips(addresses)
    }
}

proof fn refused_address_stays(addresses: Seq<Seq<char>>, n: int)
    requires
        0 <= n <= addresses.len(),
        distinct_ips(addresses.take(n)) is Err,
    ensures
        distinct_ips(addresses) == distinct_ips(addresses.take(n)),
    decreases addresses.len(),
{
    if n < addresses.len() {
        assert(addresses.drop_last().take(n) =~= addresses.take(n));
        refused_address_stays(addresses.drop_last(), n);
    } else {
        assert(addresses.take(n) =~= addresses);
    }
}

/// The name servers that a list of addresses stands for: canonical and each once.
#[verifier::loop_isolation(false)]
pub fn normalize_dns_addresses(addresses: &Vec<String>) -> (r: Result<Vec<String>, AppError>)
    ensures
        match r {
            Ok(list) => list@.len() <= 32 && dns_addresses(views(addresses@)) == Ok::<
                Seq<Seq<char>>,
                AppErrorView,
            >(views(list@)),
            Err(e) => dns_addresses(views(addresses@)) == Err::<Seq<Seq<char>>, AppErrorView>(e@),
        },
{
    let ghost all = views(addresses@);
    proof {
        assert(all.len() == addresses@.len());
    }
    if addresses.len() > 32 {
        return Err(validation("at most 32 DNS servers are allowed"));
    }
    let mut list: Vec<String> = Vec::new();
    let mut i: usize = 0;
    proof {
        assert(all.take(0) =~= Seq::<Seq<char>>::empty());
        assert(views(list@) =~= Seq::<Seq<char>>::empty());
    }
    while i < addresses.len()
        invariant
            list@.len() <= i,
            i <= addresses@.len(),
            distinct_ips(all.take(i as int)) == Ok::<Seq<Seq<char>>, AppErrorView>(views(list@)),
        decreases addresses@.len() - i,
    {
        proof {
            assert(all.take(i as int + 1).drop_last() =~= all.take(i as int));
            assert(all.take(i as int + 1).last() == addresses@[i as int]@);
        }
        match canonical_ip(addresses[i].as_str()) {
            Err(e) => {
                proof {
                    refused_address_stays(all, i as int + 1);
                }
                return Err(e);
            },
            Ok(ip) => {
                proof {
                    crate::extraction::lists_is_contains(list@, ip@);
                }
                if !list_contains(&list, ip.as_str()) {
                    let ghost before = list@;
                    let ghost chars = ip@;
                    list.push(ip);
                    proof {
                        assert(views(list@) =~= views(before).push(chars));
                    }
                }
            },
        }
        i = i + 1;
    }
    proof {
        assert(all.take(all.len() as int) =~= all);
    }
    Ok(list)
}

/// Name servers that were accepted are distinct, and no more than were given.
pub proof fn dns_addresses_are_distinct(addresses: Seq<Seq<char>>)
    requires
        distinct_ips(addresses) is Ok,
    ensures
        distinct_ips(addresses)->Ok_0.no_duplicates(),
        distinct_ips(addresses)->Ok_0.len() <= addresses.len(),
    decreases addresses.len(),
{
    if addresses.len() > 0 {
        dns_addresses_are_distinct(addresses.drop_last());
    }
}

/// An address lies in a network exactly where it is of the same family and agrees with the
/// network in the bits of the prefix.
pub proof fn a_network_is_its_prefix(net: Net, ip: Ip)
    requires
        net.wf(),
        ip.wf(),
    ensures
        net.covers(ip) <==> net.ip.v6 == ip.v6 && net.ip.bits as int / pow2(
            ((if ip.v6 {
                128int
            } else {
                32
            }) - net.prefix) as nat,
        ) as int == ip.bits as int / pow2(
            ((if ip.v6 {
                128int
            } else {
                32
            }) - net.prefix) as nat,
        ) as int,
{
    if net.ip.v6 == ip.v6 {
        let s = net.size() as int;
        let a = net.ip.bits as int;
        let b = ip.bits as int;
        lemma_pow2_pos((net.ip.width() - net.prefix) as nat);
        vstd::arithmetic::div_mod::lemma_fundamental_div_mod(a, s);
        vstd::arithmetic::div_mod::lemma_fundamental_div_mod(b, s);
        let p = a / s;
        let q = b / s;
        assert(0 <= b % s < s && 0 <= a % s < s) by (nonlinear_arith)
            requires
                s > 0,
        ;
        assert(net.first() == s * p);
        if p == q {
            assert(s * p <= b < s * p + s);
        }
        if net.covers(ip) {
            assert(p == q) by (nonlinear_arith)
                requires
                    s > 0,
                    s * p <= b < s * p + s,
                    b == s * q + b % s,
                    0 <= b % s < s,
            ;
        }
    }
}

/// An address that may be left out stays out where it is blank; else it is given in its usual
/// form, where it can be read and is of the family that is expected, and is refused where not.
pub proof fn an_optional_address_in_its_usual_form(
    value: Option<Seq<char>>,
    family: Option<AddressFamily>,
    ip: Ip,
)
    ensures
        value is None || trim_spec(value->0).len() == 0 ==> canonical_optional_ip_spec(value, family)
            == Ok::<Option<Seq<char>>, AppErrorView>(None),
        value is Some && trim_spec(value->0).len() > 0 && ip_value(trim_spec(value->0)) == Some(ip)
            && (family is None || (family == Some(AddressFamily::V6) <==> ip.v6))
            ==> canonical_optional_ip_spec(value, family) == Ok::<Option<Seq<char>>, AppErrorView>(
            Some(ip_text(ip)),
        ),
        value is Some && trim_spec(value->0).len() > 0 && (ip_value(trim_spec(value->0)) is None || (
        ip_value(trim_spec(value->0)) == Some(ip) && family is Some && (family == Some(
            AddressFamily::V6,
        ) <==> !ip.v6))) ==> canonical_optional_ip_spec(value, family) is Err,
{
}

/// The addresses of name servers are those that are given, in their usual form, each once and
/// in the order in which they first came; one that cannot be read is refused, and so are more
/// than thirty-two.
pub proof fn name_servers_are_those_given(addresses: Seq<Seq<char>>, ip: Seq<char>)
    ensures
        distinct_ips(addresses) is Ok <==> forall|i: int|
            0 <= i < addresses.len() ==> ip_value(trim_spec(#[trigger] addresses[i])) is Some,
        distinct_ips(addresses) is Ok ==> (distinct_ips(addresses)->Ok_0.contains(ip) <==> exists|
            i: int,
        |
            0 <= i < addresses.len() && ip == ip_text(
                ip_value(trim_spec(#[trigger] addresses[i]))->0,
            )),
        distinct_ips(addresses) is Ok && addresses.len() > 0 ==> distinct_ips(
            addresses.drop_last(),
        ) is Ok && distinct_ips(addresses.drop_last())->Ok_0.is_prefix_of(
            distinct_ips(addresses)->Ok_0,
        ),
        dns_addresses(addresses) is Ok <==> addresses.len() <= 32 && distinct_ips(addresses) is Ok,
        dns_addresses(addresses) is Ok ==> dns_addresses(addresses) == distinct_ips(addresses),
    decreases addresses.len(),
{
    if addresses.len() > 0 {
        let front = addresses.drop_last();
        let n = addresses.len() - 1;
        name_servers_are_those_given(front, ip);
        assert(addresses[n] == addresses.last());
        assert forall|i: int| 0 <= i < n implies #[trigger] addresses[i] == front[i] by {}
        assert forall|i: int| 0 <= i < front.len() implies #[trigger] front[i] == addresses[i] by {}
        if distinct_ips(addresses) is Ok {
            assert forall|i: int| 0 <= i < addresses.len() implies ip_value(
                trim_spec(#[trigger] addresses[i]),
            ) is Some by {
                if i < n {
                    assert(front[i] == addresses[i]);
                }
            }
            let f = distinct_ips(front)->Ok_0;
            let all = distinct_ips(addresses)->Ok_0;
            let last = ip_text(ip_value(trim_spec(addresses[n]))->0);
            assert(all.contains(ip) <==> f.contains(ip) || ip == last) by {
                if f.contains(ip) {
                    let j = choose|j: int| 0 <= j < f.len() && f[j] == ip;
                    assert(all[j] == ip);
                }
                if !f.contains(last) {
                    assert(all[f.len() as int] == last);
                }
                if all.contains(ip) {
                    let j = choose|j: int| 0 <= j < all.len() && all[j] == ip;
                    if j < f.len() {
                        assert(f[j] == ip);
                    }
                }
            }
            if exists|i: int|
                0 <= i < addresses.len() && ip == ip_text(
                    ip_value(trim_spec(#[trigger] addresses[i]))->0,
                ) {
                let i = choose|i: int|
                    0 <= i < addresses.len() && ip == ip_text(
                        ip_value(trim_spec(#[trigger] addresses[i]))->0,
                    );
                if i < n {
                    assert(front[i] == addresses[i]);
                }
            }
            if f.contains(ip) {
                let i = choose|i: int|
                    0 <= i < front.len() && ip == ip_text(
                        ip_value(trim_spec(#[trigger] front[i]))->0,
                    );
                assert(addresses[i] == front[i]);
            }
        }
        if forall|i: int|
            0 <= i < addresses.len() ==> ip_value(trim_spec(#[trigger] addresses[i])) is Some {
            assert forall|i: int| 0 <= i < front.len() implies ip_value(
                trim_spec(#[trigger] front[i]),
            ) is Some by {
                assert(front[i] == addresses[i]);
            }
        }
    } else {
        assert(distinct_ips(addresses) == Ok::<Seq<Seq<char>>, AppErrorView>(Seq::empty()));
    }
}

} // verus!
