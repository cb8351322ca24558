use vstd::prelude::*;
use vstd::string::*;

verus! {

/// Kind of destination address carried by a request or a datagram frame.
#[derive(Debug, Clone, Copy, PartialEq, Eq, Structural)]
pub enum Atype {
    IPv4,
    DomainName,
    IPv6,
}

/// What the client asks the proxy to do with the destination.
#[derive(Debug, Clone, Copy, PartialEq, Eq, Structural)]
pub enum Command {
    Connect,
    UdpAssociate,
}

/// Transport that a request asks the relay layer to use.
#[derive(Debug, Clone, Copy, PartialEq, Eq, Structural)]
pub enum TransportProtocol {
    TCP,
    UDP,
    GRPC,
}

/// A destination address as it travels on the wire.
#[derive(Debug)]
pub enum IpAddress {
    V4([u8; 4]),
    V6([u8; 16]),
    Domain(String),
}

/// The mathematical value of an `IpAddress`.
pub enum AddressView {
    V4(Seq<u8>),
    V6(Seq<u8>),
    Domain(Seq<char>),
}

impl View for IpAddress {
    type V = AddressView;

    open spec fn view(&self) -> AddressView {
        match self {
            IpAddress::V4(a) => AddressView::V4(a@),
            IpAddress::V6(a) => AddressView::V6(a@),
            IpAddress::Domain(s) => AddressView::Domain(s@),
        }
    }
}

/// The address kind that matches an address value.
pub open spec fn atype_of(a: AddressView) -> Atype {
    match a {
        AddressView::V4(_) => Atype::IPv4,
        AddressView::V6(_) => Atype::IPv6,
        AddressView::Domain(_) => Atype::DomainName,
    }
}

/// The digit for `d` in base sixteen or below, lower case.
pub open spec fn digit_char(d: nat) -> char {
    "0123456789abcdef"@[d as int]
}

/// `n` written in base `base` (ten or sixteen) without leading zeros.
pub open spec fn radix_text(n: nat, base: nat) -> Seq<char>
    decreases n,
{
    if base == 10 && n >= 10 {
        radix_text(n / 10, base).push(digit_char(n % 10))
    } else if base == 16 && n >= 16 {
        radix_text(n / 16, base).push(digit_char(n % 16))
    } else {
        seq![digit_char(n)]
    }
}

/// Dotted decimal text of a four-byte address.
pub open spec fn ipv4_text(a: Seq<u8>) -> Seq<char> {
    radix_text(a[0] as nat, 10) + seq!['.'] + radix_text(a[1] as nat, 10) + seq!['.']
        + radix_text(a[2] as nat, 10) + seq!['.'] + radix_text(a[3] as nat, 10)
}

/// The `i`th sixteen-bit group of a sixteen-byte address, in network order.
pub open spec fn ipv6_group(a: Seq<u8>, i: int) -> nat {
    (a[2 * i] as nat) * 256 + (a[2 * i + 1] as nat)
}

/// The first `k` groups of an IPv6 address in hex, separated by colons.
pub open spec fn ipv6_groups_text(a: Seq<u8>, k: nat) -> Seq<char>
    decreases k,
{
    if k == 0 {
        Seq::empty()
    } else if k == 1 {
        radix_text(ipv6_group(a, 0), 16)
    } else {
        ipv6_groups_text(a, (k - 1) as nat) + seq![':'] + radix_text(
            ipv6_group(a, k - 1),
            16,
        )
    }
}

/// Text of an address that a resolver accepts: dotted decimal for IPv4,
/// eight hex groups for IPv6, the name itself for a domain.
pub open spec fn address_text(a: AddressView) -> Seq<char> {
    match a {
        AddressView::V4(b) => ipv4_text(b),
        AddressView::V6(b) => ipv6_groups_text(b, 8),
        AddressView::Domain(s) => s,
    }
}

fn digit_str(d: u32) -> (r: &'static str)
    requires
        d < 16,
    ensures
        r@ == seq![digit_char(d as nat)],
{
    let all = "0123456789abcdef";
    proof {
        reveal_strlit("0123456789abcdef");
    }
    let r = all.substring_char(d as usize, d as usize + 1);
    assert(r@ =~= seq![digit_char(d as nat)]);
    r
}

/// Appends `n` in base `base` to `s`.
fn push_radix(s: &mut String, n: u32, base: u32)
    requires
        base == 10 || base == 16,
    ensures
        final(s)@ == old(s)@ + radix_text(n as nat, base as nat),
    decreases n,
{
    if n >= base {
        push_radix(s, n / base, base);
    }
    let d = n % base;
    s.append(digit_str(d));
    proof {
        assert(final(s)@ =~= old(s)@ + radix_text(n as nat, base as nat));
    }
}

fn append_char_str(s: &mut String, sep: &str)
    ensures
        final(s)@ == old(s)@ + sep@,
{
    s.append(sep);
}

/// Renders an address as text for name resolution.
pub fn address_to_string(a: &IpAddress) -> (r: String)
    ensures
        r@ == address_text(a@),
{
    match a {
        IpAddress::V4(b) => {
            let mut s = String::new();
            let dot = ".";
            proof {
                reveal_strlit(".");
            }
            push_radix(&mut s, b[0] as u32, 10);
            append_char_str(&mut s, dot);
            push_radix(&mut s, b[1] as u32, 10);
            append_char_str(&mut s, dot);
            push_radix(&mut s, b[2] as u32, 10);
            append_char_str(&mut s, dot);
            push_radix(&mut s, b[3] as u32, 10);
            assert(s@ =~= ipv4_text(b@));
            s
        },
        IpAddress::V6(b) => {
            let mut s = String::new();
            let mut i: usize = 0;
            while i < 8
                invariant
                    i <= 8,
                    b@.len() == 16,
                    s@ == ipv6_groups_text(b@, i as nat),
                decreases 8 - i,
            {
                let ghost start = s@;
                if i > 0 {
                    append_char_str(&mut s, ":");
                    proof {
                        reveal_strlit(":");
                    }
                    assert(s@ =~= start + seq![':']);
                }
                let g: u32 = (b[2 * i] as u32) * 256 + (b[2 * i + 1] as u32);
                assert(g as nat == ipv6_group(b@, i as int));
                let ghost before = s@;
                push_radix(&mut s, g, 16);
                proof {
                    if i == 0 {
                        assert(before =~= Seq::<char>::empty());
                        assert(s@ =~= ipv6_groups_text(b@, 1));
                    } else {
                        assert(before =~= ipv6_groups_text(b@, i as nat) + seq![':']);
                        assert(s@ =~= ipv6_groups_text(b@, (i + 1) as nat));
                    }
                }
                i = i + 1;
            }
            s
        },
        IpAddress::Domain(d) => d.clone(),
    }
}

/// A destination intent that passed authentication, independent of the
/// protocol that carried it.
#[derive(Debug)]
pub struct InboundRequest {
    pub atype: Atype,
    pub addr: IpAddress,
    pub command: Command,
    pub port: u16,
    pub transport_protocol: TransportProtocol,
}

impl InboundRequest {
    pub fn new(
        atype: Atype,
        addr: IpAddress,
        command: Command,
        port: u16,
        transport_protocol: TransportProtocol,
    ) -> (r: InboundRequest)
        ensures
            r.atype == atype,
            r.addr@ == addr@,
            r.command == command,
            r.port == port,
            r.transport_protocol == transport_protocol,
    {
        InboundRequest { atype, addr, command, port, transport_protocol }
    }

    /// The destination as text and port, ready for name resolution.
    pub fn addr_port(&self) -> (r: (String, u16))
        ensures
            r.0@ == address_text(self.addr@),
            r.1 == self.port,
    {
        (address_to_string(&self.addr), self.port)
    }
}

} // verus!
