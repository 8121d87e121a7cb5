//! Destination addresses: how they are shown, expected and reached.
use vstd::prelude::*;

use crate::error::{IoError, IoErrorKind, IoErrorView};
use crate::net::{IpAddr, SocketAddr};
use crate::protocol::AddrType;
#[allow(unused_imports)]
use crate::text;
use crate::text::{push_joined, push_number, utf8_lossy};

verus! {

/// The first four bytes of `addr`.
pub open spec fn v4_octets(addr: Seq<u8>) -> [u8; 4] {
    [addr[0], addr[1], addr[2], addr[3]]
}

/// The first sixteen bytes of `addr`.
pub open spec fn v6_octets(addr: Seq<u8>) -> [u8; 16] {
    [
        addr[0],
        addr[1],
        addr[2],
        addr[3],
        addr[4],
        addr[5],
        addr[6],
        addr[7],
        addr[8],
        addr[9],
        addr[10],
        addr[11],
        addr[12],
        addr[13],
        addr[14],
        addr[15],
    ]
}

fn first_four(addr: &[u8]) -> (octets: [u8; 4])
    requires
        addr@.len() >= 4,
    ensures
        octets == v4_octets(addr@),
{
    let octets: [u8; 4] = [addr[0], addr[1], addr[2], addr[3]];
    assert(octets =~= v4_octets(addr@));
    octets
}

fn first_sixteen(addr: &[u8]) -> (octets: [u8; 16])
    requires
        addr@.len() >= 16,
    ensures
        octets == v6_octets(addr@),
{
    let octets: [u8; 16] = [
        addr[0],
        addr[1],
        addr[2],
        addr[3],
        addr[4],
        addr[5],
        addr[6],
        addr[7],
        addr[8],
        addr[9],
        addr[10],
        addr[11],
        addr[12],
        addr[13],
        addr[14],
        addr[15],
    ];
    assert(octets =~= v6_octets(addr@));
    octets
}

// ---------------------------------------------------------------- printing
/// The eight groups of an IPv6 address.
pub open spec fn v6_groups(addr: Seq<u8>) -> Seq<nat> {
    Seq::new(8, |i: int| (addr[2 * i] * 256 + addr[2 * i + 1]) as nat)
}

/// How an address is shown.
pub open spec fn shown_addr(t: AddrType, addr: Seq<u8>) -> Seq<char> {
    match t {
        AddrType::Domain => text::lossy_text(addr),
        AddrType::V4 => if addr.len() < 4 {
            "<invalid ipv4: "@ + text::digits(addr.len(), 10) + " bytes>"@
        } else {
            text::joined(addr.map_values(|b: u8| b as nat), 10, "."@)
        },
        AddrType::V6 => if addr.len() < 16 {
            "<invalid ipv6: "@ + text::digits(addr.len(), 10) + " bytes>"@
        } else {
            text::joined(v6_groups(addr), 16, ":"@)
        },
    }
}

/// Convert an AddrType and address to String
///
/// A name is decoded, an IPv4 address is shown as decimal bytes with dots, an
/// IPv6 address as eight hexadecimal groups with colons. An address that is
/// too short for its type is shown as a placeholder.
pub fn pretty_print_addr(addr_type: &AddrType, addr: &[u8]) -> (shown: String)
    ensures
        shown@ == shown_addr(*addr_type, addr@),
        *addr_type == AddrType::Domain && vstd::utf8::valid_utf8(addr@) ==> shown@
            == vstd::utf8::decode_utf8(addr@),
        *addr_type == AddrType::Domain && !vstd::utf8::valid_utf8(addr@) ==> shown@.contains(
            text::replacement(),
        ),
{
    match addr_type {
        AddrType::Domain => utf8_lossy(addr),
        AddrType::V4 => {
            if addr.len() < 4 {
                return placeholder("<invalid ipv4: ", addr.len());
            }
            let mut values: Vec<u16> = Vec::new();
            let mut i: usize = 0;
            while i < addr.len()
                invariant
                    0 <= i <= addr@.len(),
                    values@.len() == i,
                    forall|j: int| 0 <= j < i ==> values@[j] == addr@[j],
                decreases addr@.len() - i,
            {
                values.push(addr[i] as u16);
                i = i + 1;
            }
            let mut shown = String::new();
            push_joined(&mut shown, &values, 10, ".");
            assert(values@.map_values(|v: u16| v as nat) =~= addr@.map_values(|b: u8| b as nat));
            assert(shown@ =~= shown_addr(*addr_type, addr@));
            shown
        },
        AddrType::V6 => {
            if addr.len() < 16 {
                return placeholder("<invalid ipv6: ", addr.len());
            }
            let mut values: Vec<u16> = Vec::new();
            let mut i: usize = 0;
            while i < 8
                invariant
                    0 <= i <= 8,
                    addr@.len() >= 16,
                    values@.len() == i,
                    forall|j: int| 0 <= j < i ==> values@[j] == v6_groups(addr@)[j],
                decreases 8 - i,
            {
                values.push((addr[i * 2] as u16) * 256 + addr[i * 2 + 1] as u16);
                i = i + 1;
            }
            let mut shown = String::new();
            push_joined(&mut shown, &values, 16, ":");
            assert(values@.map_values(|v: u16| v as nat) =~= v6_groups(addr@));
            assert(shown@ =~= shown_addr(*addr_type, addr@));
            shown
        },
    }
}

/// What is shown for an address that is too short.
fn placeholder(prefix: &str, len: usize) -> (shown: String)
    ensures
        shown@ == prefix@ + text::digits(len as nat, 10) + " bytes>"@,
{
    let mut shown = prefix.to_owned();
    push_number(&mut shown, len as u64, 10);
    shown.append(" bytes>");
    shown
}

// ---------------------------------------------------------------- expectations
/// The concrete IP address that a request names, if it names one.
pub open spec fn concrete_ip(t: AddrType, addr: Seq<u8>) -> Option<IpAddr> {
    match t {
        AddrType::V4 => if addr.len() >= 4 && exists|i: int| 0 <= i < 4 && addr[i] != 0 {
            Some(IpAddr::V4(v4_octets(addr)))
        } else {
            None
        },
        AddrType::V6 => if addr.len() >= 16 && exists|i: int| 0 <= i < 16 && addr[i] != 0 {
            Some(IpAddr::V6(v6_octets(addr)))
        } else {
            None
        },
        AddrType::Domain => None,
    }
}

/// Whether the first `n` bytes are all zero.
fn starts_with_zeros(addr: &[u8], n: usize) -> (zeros: bool)
    requires
        n <= addr@.len(),
    ensures
        zeros == !exists|i: int| 0 <= i < n && addr@[i] != 0,
{
    let mut i: usize = 0;
    while i < n
        invariant
            0 <= i <= n <= addr@.len(),
            forall|j: int| 0 <= j < i ==> addr@[j] == 0,
        decreases n - i,
    {
        if addr[i] != 0 {
            assert(addr@[i as int] != 0);
            return false;
        }
        i = i + 1;
    }
    true
}

/// Extract a concrete IP from a request address, or `None` when the address is
/// a domain or the unspecified address (`0.0.0.0` / `::`), meaning "any".
pub fn expected_ip(addr_type: &AddrType, addr: &[u8]) -> (expected: Option<IpAddr>)
    ensures
        expected == concrete_ip(*addr_type, addr@),
{
    match addr_type {
        AddrType::V4 => {
            if addr.len() >= 4 && !starts_with_zeros(addr, 4) {
                Some(IpAddr::V4(first_four(addr)))
            } else {
                None
            }
        },
        AddrType::V6 => {
            if addr.len() >= 16 && !starts_with_zeros(addr, 16) {
                Some(IpAddr::V6(first_sixteen(addr)))
            } else {
                None
            }
        },
        AddrType::Domain => None,
    }
}

// ---------------------------------------------------------------- resolution
/// How a destination is reached.
#[derive(Clone, Debug, PartialEq, Eq)]
pub enum Target {
    /// The address is known.
    Socket(SocketAddr),
    /// The addresses of this `host:port` have to be looked up.
    Lookup(String),
}

/// The mathematical content of a [`Target`].
#[verifier::ext_equal]
pub enum TargetView {
    Socket(SocketAddr),
    Lookup(Seq<char>),
}

impl View for Target {
    type V = TargetView;

    open spec fn view(&self) -> TargetView {
        match *self {
            Target::Socket(addr) => TargetView::Socket(addr),
            Target::Lookup(name) => TargetView::Lookup(name@),
        }
    }
}

/// How the destination with this address and port is reached.
pub open spec fn target_of(t: AddrType, addr: Seq<u8>, port: u16) -> Result<
    TargetView,
    IoErrorView,
> {
    match t {
        AddrType::V6 => if addr.len() < 16 {
            Err(
                IoErrorView {
                    kind: IoErrorKind::InvalidInput,
                    message: "IPv6 address must be 16 bytes"@,
                },
            )
        } else {
            Ok(
                TargetView::Socket(
                    SocketAddr::V6 { ip: v6_octets(addr), port, flowinfo: 0, scope_id: 0 },
                ),
            )
        },
        AddrType::V4 => if addr.len() < 4 {
            Err(
                IoErrorView {
                    kind: IoErrorKind::InvalidInput,
                    message: "IPv4 address must be 4 bytes"@,
                },
            )
        } else {
            Ok(TargetView::Socket(SocketAddr::V4 { ip: v4_octets(addr), port }))
        },
        AddrType::Domain => Ok(
            TargetView::Lookup(text::lossy_text(addr) + ":"@ + text::digits(port as nat, 10)),
        ),
    }
}

/// The name under which a host and a port are looked up together.
pub fn host_and_port(host: String, port: u16) -> (name: String)
    ensures
        name@ == host@ + ":"@ + text::digits(port as nat, 10),
{
    let mut name = host;
    name.append(":");
    push_number(&mut name, port as u64, 10);
    name
}

/// Convert an address and AddrType to a SocketAddr
///
/// A domain name is left to be looked up, together with the port, as
/// `host:port`.
pub fn addr_to_socket(addr_type: &AddrType, addr: &[u8], port: u16) -> (target: Result<
    Target,
    IoError,
>)
    ensures
        match target {
            Ok(found) => target_of(*addr_type, addr@, port) == Ok::<_, IoErrorView>(found@),
            Err(error) => target_of(*addr_type, addr@, port) == Err::<TargetView, _>(error@),
        },
        *addr_type == AddrType::Domain && vstd::utf8::valid_utf8(addr@) ==> (target matches Ok(
            found,
        ) && found@ == TargetView::Lookup(
            vstd::utf8::decode_utf8(addr@) + ":"@ + text::digits(port as nat, 10),
        )),
{
    match addr_type {
        AddrType::V6 => {
            if addr.len() < 16 {
                return Err(
                    IoError::new(IoErrorKind::InvalidInput, "IPv6 address must be 16 bytes"),
                );
            }
            Ok(
                Target::Socket(
                    SocketAddr::V6 { ip: first_sixteen(addr), port, flowinfo: 0, scope_id: 0 },
                ),
            )
        },
        AddrType::V4 => {
            if addr.len() < 4 {
                return Err(
                    IoError::new(IoErrorKind::InvalidInput, "IPv4 address must be 4 bytes"),
                );
            }
            Ok(Target::Socket(SocketAddr::V4 { ip: first_four(addr), port }))
        },
        AddrType::Domain => {
            let host = utf8_lossy(addr);
            Ok(Target::Lookup(host_and_port(host, port)))
        },
    }
}

/// A destination address that fits its type can always be reached or looked
/// up: an IP address leads to the socket with exactly those octets and that
/// port.
pub proof fn law_well_formed_address_has_a_target(t: AddrType, addr: Seq<u8>, port: u16)
    requires
        crate::wire::addr_fits(t, addr),
    ensures
        target_of(t, addr, port) is Ok,
        t == AddrType::Domain <==> target_of(t, addr, port)->Ok_0 is Lookup,
        target_of(t, addr, port) matches Ok(TargetView::Socket(socket)) ==> {
            &&& crate::wire::addr_type_of_socket(socket) == t
            &&& crate::net::octets_of(crate::net::ip_of(socket)) == addr
            &&& crate::net::port_of(socket) == port
        },
{
    if t == AddrType::V4 {
        assert(v4_octets(addr)@ =~= addr);
    } else if t == AddrType::V6 {
        assert(v6_octets(addr)@ =~= addr);
    }
}

/// The IP address that a request is taken to expect is the one it names, and
/// is never the unspecified address.
pub proof fn law_expected_ip_is_concrete(t: AddrType, addr: Seq<u8>)
    requires
        crate::wire::addr_fits(t, addr),
    ensures
        concrete_ip(t, addr) matches Some(ip) ==> {
            &&& crate::net::octets_of(ip) == addr
            &&& exists|i: int| 0 <= i < addr.len() && addr[i] != 0
        },
        t != AddrType::Domain && concrete_ip(t, addr) is None ==> forall|i: int|
            0 <= i < addr.len() ==> addr[i] == 0,
{
    if t == AddrType::V4 {
        assert(v4_octets(addr)@ =~= addr);
    } else if t == AddrType::V6 {
        assert(v6_octets(addr)@ =~= addr);
    }
}

/// The numbers that an address consists of when it is shown: the bytes of an
/// IPv4 address, the groups of an IPv6 address.
pub open spec fn shown_numbers(t: AddrType, addr: Seq<u8>) -> Seq<nat> {
    match t {
        AddrType::V4 => addr.map_values(|b: u8| b as nat),
        _ => v6_groups(addr),
    }
}

/// The base in which the numbers of an IP address are shown.
pub open spec fn shown_base(t: AddrType) -> nat {
    if t == AddrType::V4 {
        10
    } else {
        16
    }
}

/// The character between the numbers of an IP address.
pub open spec fn shown_separator(t: AddrType) -> char {
    if t == AddrType::V4 {
        '.'
    } else {
        ':'
    }
}

/// A well-formed IP address can be read back from how it is shown: four
/// decimal numbers with dots, or eight lower-case hexadecimal numbers with
/// colons, without leading zeros and with no number left out.
pub proof fn law_shown_address_is_read_back(t: AddrType, addr: Seq<u8>)
    requires
        t != AddrType::Domain,
        crate::wire::addr_fits(t, addr),
    ensures
        ({
            let shown = shown_addr(t, addr);
            let found = text::numbers(shown, shown_base(t), shown_separator(t));
            &&& found == shown_numbers(t, addr)
            &&& found.len() == if t == AddrType::V4 {
                4int
            } else {
                8
            }
            &&& forall|i: int|
                0 <= i < found.len() ==> text::digits(#[trigger] found[i], shown_base(t)).len()
                    <= if t == AddrType::V4 {
                    3int
                } else {
                    4
                }
            &&& shown == text::joined(found, shown_base(t), seq![shown_separator(t)])
            &&& shown.first() != shown_separator(t)
            &&& shown.last() != shown_separator(t)
            &&& forall|i: int|
                0 <= i < shown.len() - 1 && shown[i] == shown_separator(t) ==> #[trigger] shown[i
                    + 1] != shown_separator(t)
        }),
{
    let found = shown_numbers(t, addr);
    let base = shown_base(t);
    reveal_strlit(".");
    reveal_strlit(":");
    assert("."@ =~= seq!['.']);
    assert(":"@ =~= seq![':']);
    assert(shown_addr(t, addr) == text::joined(found, base, seq![shown_separator(t)]));
    text::law_joined_numbers_are_read_back(found, base, shown_separator(t));
    text::law_separators_stand_alone(found, base, shown_separator(t));
    assert forall|i: int| 0 <= i < found.len() implies text::digits(#[trigger] found[i], base).len()
        <= if t == AddrType::V4 {
        3int
    } else {
        4
    } by {
        reveal_with_fuel(text::digits, 5);
    }
}

/// Two IP addresses of one type are shown alike only if they are equal.
pub proof fn law_shown_addresses_differ(t: AddrType, a: Seq<u8>, b: Seq<u8>)
    requires
        t != AddrType::Domain,
        crate::wire::addr_fits(t, a),
        crate::wire::addr_fits(t, b),
        shown_addr(t, a) == shown_addr(t, b),
    ensures
        a == b,
{
    law_shown_address_is_read_back(t, a);
    law_shown_address_is_read_back(t, b);
    let x = shown_numbers(t, a);
    let y = shown_numbers(t, b);
    assert(x == y);
    assert forall|i: int| 0 <= i < a.len() implies a[i] == b[i] by {
        if t == AddrType::V4 {
            assert(x[i] == y[i]);
        } else {
            assert(x[i / 2] == y[i / 2]);
        }
    }
    assert(a =~= b);
}

/// An IP destination is the socket with the first octets of the address, in
/// their order, and the port; too few octets are invalid input. A name is
/// looked up as it is decoded, then a colon, then the port in decimal.
pub proof fn law_targets(t: AddrType, addr: Seq<u8>, port: u16)
    ensures
        t == AddrType::V4 && addr.len() >= 4 ==> (target_of(t, addr, port) matches Ok(
            TargetView::Socket(SocketAddr::V4 { ip, port: p }),
        ) && p == port && forall|i: int| 0 <= i < 4 ==> ip@[i] == addr[i]),
        t == AddrType::V6 && addr.len() >= 16 ==> (target_of(t, addr, port) matches Ok(
            TargetView::Socket(SocketAddr::V6 { ip, port: p, flowinfo, scope_id }),
        ) && p == port && flowinfo == 0 && scope_id == 0 && forall|i: int|
            0 <= i < 16 ==> ip@[i] == addr[i]),
        target_of(t, addr, port) is Err <==> (t == AddrType::V4 && addr.len() < 4) || (t
            == AddrType::V6 && addr.len() < 16),
        target_of(t, addr, port) matches Err(error) ==> error.kind == IoErrorKind::InvalidInput,
        t == AddrType::Domain ==> (target_of(t, addr, port) matches Ok(TargetView::Lookup(name))
            && {
            let host = text::lossy_text(addr);
            &&& host.is_prefix_of(name)
            &&& name[host.len() as int] == ':'
            &&& name.skip(host.len() as int + 1) == text::digits(port as nat, 10)
        }),
{
    if t == AddrType::Domain {
        reveal_strlit(":");
        let host = text::lossy_text(addr);
        let name = target_of(t, addr, port)->Ok_0->Lookup_0;
        assert(":"@.len() == 1 && ":"@[0] == ':');
        assert(name.take(host.len() as int) =~= host);
        assert(name.skip(host.len() as int + 1) =~= text::digits(port as nat, 10));
    }
}

/// A request expects the address that its first octets spell, unless they are
/// all zero; a name, or too few octets, expect nothing.
pub proof fn law_expectations(t: AddrType, addr: Seq<u8>)
    ensures
        concrete_ip(t, addr) matches Some(IpAddr::V4(octets)) ==> t == AddrType::V4 && addr.len()
            >= 4 && octets@ == addr.take(4) && octets@ != seq![0u8, 0, 0, 0],
        concrete_ip(t, addr) matches Some(IpAddr::V6(octets)) ==> t == AddrType::V6 && addr.len()
            >= 16 && octets@ == addr.take(16) && octets@ != Seq::new(16, |i: int| 0u8),
        t == AddrType::Domain ==> concrete_ip(t, addr) is None,
        t == AddrType::V4 && addr.len() < 4 ==> concrete_ip(t, addr) is None,
        t == AddrType::V6 && addr.len() < 16 ==> concrete_ip(t, addr) is None,
        t == AddrType::V4 && addr.len() >= 4 && concrete_ip(t, addr) is None ==> addr.take(4)
            == seq![0u8, 0, 0, 0],
        t == AddrType::V6 && addr.len() >= 16 && concrete_ip(t, addr) is None ==> addr.take(16)
            == Seq::new(16, |i: int| 0u8),
{
    if t == AddrType::V4 && addr.len() >= 4 {
        assert(v4_octets(addr)@ =~= addr.take(4));
        if let Some(_) = concrete_ip(t, addr) {
            let i = choose|i: int| 0 <= i < 4 && addr[i] != 0;
            assert(addr.take(4)[i] != seq![0u8, 0, 0, 0][i]);
        } else {
            assert(addr.take(4) =~= seq![0u8, 0, 0, 0]);
        }
    }
    if t == AddrType::V6 && addr.len() >= 16 {
        assert(v6_octets(addr)@ =~= addr.take(16));
        if let Some(_) = concrete_ip(t, addr) {
            let i = choose|i: int| 0 <= i < 16 && addr[i] != 0;
            assert(addr.take(16)[i] != Seq::new(16, |i: int| 0u8)[i]);
        } else {
            assert(addr.take(16) =~= Seq::new(16, |i: int| 0u8));
        }
    }
}

/// Every further byte of an IPv4 address is shown after a dot, and nothing of
/// an IPv6 address past its sixteenth byte is shown. A name is shown as it is
/// decoded.
pub proof fn law_shown_in_order(addr: Seq<u8>, byte: u8)
    ensures
        addr.len() >= 4 ==> shown_addr(AddrType::V4, addr.push(byte)) == shown_addr(
            AddrType::V4,
            addr,
        ) + "."@ + text::digits(byte as nat, 10),
        addr.len() >= 16 ==> shown_addr(AddrType::V6, addr) == shown_addr(
            AddrType::V6,
            addr.take(16),
        ),
        shown_addr(AddrType::Domain, addr) == text::lossy_text(addr),
{
    if addr.len() >= 4 {
        let values = addr.map_values(|b: u8| b as nat);
        let longer = addr.push(byte).map_values(|b: u8| b as nat);
        assert(longer =~= values + seq![byte as nat]);
        text::law_joined_in_order(values, seq![byte as nat], byte as nat, 10, "."@);
    }
    if addr.len() >= 16 {
        assert(v6_groups(addr) =~= v6_groups(addr.take(16)));
    }
}

/// An address that is too short is shown by its kind and by its length in
/// decimal, and by nothing else.
pub proof fn law_short_addresses_are_shown(addr: Seq<u8>)
    ensures
        addr.len() < 4 ==> ({
            let shown = shown_addr(AddrType::V4, addr);
            let before = "<invalid ipv4: "@;
            &&& before.is_prefix_of(shown)
            &&& shown.skip(before.len() as int) == text::digits(addr.len(), 10) + " bytes>"@
        }),
        addr.len() < 16 ==> ({
            let shown = shown_addr(AddrType::V6, addr);
            let before = "<invalid ipv6: "@;
            &&& before.is_prefix_of(shown)
            &&& shown.skip(before.len() as int) == text::digits(addr.len(), 10) + " bytes>"@
        }),
{
    let count = text::digits(addr.len(), 10);
    if addr.len() < 4 {
        let before = "<invalid ipv4: "@;
        assert(shown_addr(AddrType::V4, addr).take(before.len() as int) =~= before);
        assert(shown_addr(AddrType::V4, addr).skip(before.len() as int) =~= count + " bytes>"@);
    }
    if addr.len() < 16 {
        let before = "<invalid ipv6: "@;
        assert(shown_addr(AddrType::V6, addr).take(before.len() as int) =~= before);
        assert(shown_addr(AddrType::V6, addr).skip(before.len() as int) =~= count + " bytes>"@);
    }
}

} // verus!
