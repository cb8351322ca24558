use vstd::prelude::*;
use vstd::utf8::*;
use crate::error::ProxyError;
use crate::request::{
    AddressView, Atype, Command, InboundRequest, IpAddress, TransportProtocol, atype_of,
};

verus! {

/// Width of the secret digest at the start of a handshake.
pub const DIGEST_LEN: usize = 56;

/// Command byte of a TCP tunnel.
pub const CMD_CONNECT: u8 = 1;

/// Command byte of a UDP tunnel.
pub const CMD_UDP_ASSOCIATE: u8 = 3;

/// Address-type byte of a four-byte address.
pub const ATYPE_IPV4: u8 = 1;

/// Address-type byte of a length-prefixed domain name.
pub const ATYPE_DOMAIN: u8 = 3;

/// Address-type byte of a sixteen-byte address.
pub const ATYPE_IPV6: u8 = 4;

/// Why a handshake or a datagram frame could not be read.
#[derive(Debug, Clone, Copy, PartialEq, Eq, Structural)]
pub enum ParseError {
    /// The bytes end before the field that was being read.
    Truncated,
    /// The digest is not text.
    InvalidDigest,
    /// The command byte is neither CONNECT nor UDP-ASSOCIATE.
    InvalidCommand,
    /// The address-type byte is not one of the three known kinds.
    InvalidAddressType,
    /// A domain name that is not UTF-8 text.
    InvalidDomain,
    /// The header does not end with CR LF.
    InvalidTerminator,
}

/// A handshake as read from the wire, before authentication.
#[derive(Debug)]
pub struct TrojanRequest {
    pub digest: String,
    pub command: Command,
    pub addr: IpAddress,
    pub port: u16,
}

/// The mathematical value of a `TrojanRequest`.
pub struct TrojanRequestView {
    pub digest: Seq<char>,
    pub command: Command,
    pub addr: AddressView,
    pub port: u16,
}

impl View for TrojanRequest {
    type V = TrojanRequestView;

    open spec fn view(&self) -> TrojanRequestView {
        TrojanRequestView {
            digest: self.digest@,
            command: self.command,
            addr: self.addr@,
            port: self.port,
        }
    }
}

/// Relies on `std::str::from_utf8`, which succeeds exactly on valid UTF-8
/// and then holds the characters that the bytes encode.
#[verifier::external_body]
fn utf8_string(b: &[u8]) -> (r: Option<String>)
    ensures
        r.is_some() == valid_utf8(b@),
        r.is_some() ==> r.unwrap()@ == decode_utf8(b@),
{
    std::str::from_utf8(b).ok().map(|s| s.to_string())
}

/// The command that a command byte stands for.
pub open spec fn command_of(c: u8) -> Option<Command> {
    if c == CMD_CONNECT {
        Some(Command::Connect)
    } else if c == CMD_UDP_ASSOCIATE {
        Some(Command::UdpAssociate)
    } else {
        None
    }
}

/// The address field that starts at `pos` (type byte, then the address),
/// with the position just after it.
pub open spec fn spec_parse_address(b: Seq<u8>, pos: int) -> Result<(AddressView, int), ParseError> {
    if pos >= b.len() {
        Err(ParseError::Truncated)
    } else if b[pos] == ATYPE_IPV4 {
        if pos + 5 > b.len() {
            Err(ParseError::Truncated)
        } else {
            Ok((AddressView::V4(b.subrange(pos + 1, pos + 5)), pos + 5))
        }
    } else if b[pos] == ATYPE_IPV6 {
        if pos + 17 > b.len() {
            Err(ParseError::Truncated)
        } else {
            Ok((AddressView::V6(b.subrange(pos + 1, pos + 17)), pos + 17))
        }
    } else if b[pos] == ATYPE_DOMAIN {
        if pos + 2 > b.len() || pos + 2 + b[pos + 1] > b.len() {
            Err(ParseError::Truncated)
        } else {
            let name = b.subrange(pos + 2, pos + 2 + b[pos + 1]);
            if valid_utf8(name) {
                Ok((AddressView::Domain(decode_utf8(name)), pos + 2 + b[pos + 1]))
            } else {
                Err(ParseError::InvalidDomain)
            }
        }
    } else {
        Err(ParseError::InvalidAddressType)
    }
}

/// A big-endian sixteen-bit number at `pos`.
pub open spec fn be16(b: Seq<u8>, pos: int) -> u16 {
    ((b[pos] as int) * 256 + (b[pos + 1] as int)) as u16
}

/// The handshake at the start of `b`, with the number of bytes it takes:
/// digest, command byte, address field, port, CR LF.
pub open spec fn spec_parse_header(b: Seq<u8>) -> Result<(TrojanRequestView, int), ParseError> {
    if b.len() < DIGEST_LEN + 1 {
        Err(ParseError::Truncated)
    } else if !valid_utf8(b.subrange(0, DIGEST_LEN as int)) {
        Err(ParseError::InvalidDigest)
    } else if command_of(b[DIGEST_LEN as int]) is None {
        Err(ParseError::InvalidCommand)
    } else {
        match spec_parse_address(b, DIGEST_LEN + 1) {
            Err(e) => Err(e),
            Ok((addr, end)) => {
                if end + 4 > b.len() {
                    Err(ParseError::Truncated)
                } else if b[end + 2] != 13 || b[end + 3] != 10 {
                    Err(ParseError::InvalidTerminator)
                } else {
                    Ok(
                        (
                            TrojanRequestView {
                                digest: decode_utf8(b.subrange(0, DIGEST_LEN as int)),
                                command: command_of(b[DIGEST_LEN as int]).unwrap(),
                                addr,
                                port: be16(b, end),
                            },
                            end + 4,
                        ),
                    )
                }
            },
        }
    }
}

/// Reads the address field that starts at `pos`.
pub fn parse_address(b: &[u8], pos: usize) -> (r: Result<(IpAddress, usize), ParseError>)
    ensures
        match (r, spec_parse_address(b@, pos as int)) {
            (Ok((a, end)), Ok((sa, send))) => a@ == sa && end == send,
            (Err(e), Err(se)) => e == se,
            _ => false,
        },
{
    if pos >= b.len() {
        return Err(ParseError::Truncated);
    }
    let t = b[pos];
    if t == ATYPE_IPV4 {
        if b.len() - pos < 5 {
            return Err(ParseError::Truncated);
        }
        let a: [u8; 4] = [b[pos + 1], b[pos + 2], b[pos + 3], b[pos + 4]];
        assert(a@ =~= b@.subrange(pos + 1, pos + 5));
        Ok((IpAddress::V4(a), pos + 5))
    } else if t == ATYPE_IPV6 {
        if b.len() - pos < 17 {
            return Err(ParseError::Truncated);
        }
        let mut a: [u8; 16] = [0u8; 16];
        let mut i: usize = 0;
        while i < 16
            invariant
                i <= 16,
                pos + 17 <= b.len(),
                a@.len() == 16,
                forall|j: int| 0 <= j < i ==> a@[j] == b@[pos + 1 + j],
            decreases 16 - i,
        {
            a[i] = b[pos + 1 + i];
            i = i + 1;
        }
        assert(a@ =~= b@.subrange(pos + 1, pos + 17));
        Ok((IpAddress::V6(a), pos + 17))
    } else if t == ATYPE_DOMAIN {
        if b.len() - pos < 2 {
            return Err(ParseError::Truncated);
        }
        let n = b[pos + 1] as usize;
        if b.len() - pos - 2 < n {
            return Err(ParseError::Truncated);
        }
        let name = slice_range(b, pos + 2, pos + 2 + n);
        match utf8_string(name) {
            Some(s) => Ok((IpAddress::Domain(s), pos + 2 + n)),
            None => Err(ParseError::InvalidDomain),
        }
    } else {
        Err(ParseError::InvalidAddressType)
    }
}

/// The bytes of `b` from `from` up to `to`.
fn slice_range(b: &[u8], from: usize, to: usize) -> (r: &[u8])
    requires
        from <= to <= b@.len(),
    ensures
        r@ == b@.subrange(from as int, to as int),
{
    let (head, _) = b.split_at(to);
    let (_, mid) = head.split_at(from);
    mid
}

/// Reads a handshake from the start of `b`. On success it also returns the
/// number of header bytes: whatever follows them is payload.
pub fn parse_header(b: &[u8]) -> (r: Result<(TrojanRequest, usize), ParseError>)
    ensures
        match (r, spec_parse_header(b@)) {
            (Ok((req, n)), Ok((sreq, sn))) => req@ == sreq && n == sn,
            (Err(e), Err(se)) => e == se,
            _ => false,
        },
{
    if b.len() < DIGEST_LEN + 1 {
        return Err(ParseError::Truncated);
    }
    let digest = match utf8_string(slice_range(b, 0, DIGEST_LEN)) {
        Some(d) => d,
        None => return Err(ParseError::InvalidDigest),
    };
    let c = b[DIGEST_LEN];
    let command = if c == CMD_CONNECT {
        Command::Connect
    } else if c == CMD_UDP_ASSOCIATE {
        Command::UdpAssociate
    } else {
        return Err(ParseError::InvalidCommand);
    };
    let (addr, end) = match parse_address(b, DIGEST_LEN + 1) {
        Ok(p) => p,
        Err(e) => return Err(e),
    };
    if b.len() - end < 4 {
        return Err(ParseError::Truncated);
    }
    if b[end + 2] != 13 || b[end + 3] != 10 {
        return Err(ParseError::InvalidTerminator);
    }
    let port: u16 = (b[end] as u16) * 256 + (b[end + 1] as u16);
    Ok((TrojanRequest { digest, command, addr, port }, end + 4))
}

/// The address-type byte of an address kind.
pub open spec fn atype_byte(t: Atype) -> u8 {
    match t {
        Atype::IPv4 => ATYPE_IPV4,
        Atype::DomainName => ATYPE_DOMAIN,
        Atype::IPv6 => ATYPE_IPV6,
    }
}

/// The command byte of a command.
pub open spec fn command_byte(c: Command) -> u8 {
    match c {
        Command::Connect => CMD_CONNECT,
        Command::UdpAssociate => CMD_UDP_ASSOCIATE,
    }
}

/// The wire form of an address field: type byte, then the address (a domain
/// name behind a one-byte length).
pub open spec fn encode_address(a: AddressView) -> Seq<u8> {
    match a {
        AddressView::V4(b) => seq![ATYPE_IPV4] + b,
        AddressView::V6(b) => seq![ATYPE_IPV6] + b,
        AddressView::Domain(s) => seq![ATYPE_DOMAIN, encode_utf8(s).len() as u8] + encode_utf8(
            s,
        ),
    }
}

/// An address that has a wire form: four or sixteen bytes, or a name of at
/// most 255 bytes.
pub open spec fn address_encodable(a: AddressView) -> bool {
    match a {
        AddressView::V4(b) => b.len() == 4,
        AddressView::V6(b) => b.len() == 16,
        AddressView::Domain(s) => encode_utf8(s).len() <= 255,
    }
}

/// A port in network byte order.
pub open spec fn port_bytes(p: u16) -> Seq<u8> {
    seq![(p / 256) as u8, (p % 256) as u8]
}

/// The wire form of a handshake.
pub open spec fn encode_header(r: TrojanRequestView) -> Seq<u8> {
    encode_utf8(r.digest) + seq![command_byte(r.command)] + encode_address(r.addr) + port_bytes(
        r.port,
    ) + seq![13u8, 10u8]
}

/// A handshake that has a wire form: a digest of the fixed width and an
/// address that can be written.
pub open spec fn header_encodable(r: TrojanRequestView) -> bool {
    encode_utf8(r.digest).len() == DIGEST_LEN && address_encodable(r.addr)
}

/// An address field read back from anywhere in a byte string gives the
/// address and ends right after its wire form.
pub proof fn lemma_address_round_trip(a: AddressView, pre: Seq<u8>, post: Seq<u8>)
    requires
        address_encodable(a),
    ensures
        spec_parse_address(pre + encode_address(a) + post, pre.len() as int) == Ok::<
            (AddressView, int),
            ParseError,
        >((a, (pre.len() + encode_address(a).len()) as int)),
{
    let b = pre + encode_address(a) + post;
    let p = pre.len() as int;
    let e = encode_address(a);
    assert(b.subrange(p, p + e.len()) =~= e);
    match a {
        AddressView::V4(x) => {
            assert(b.subrange(p + 1, p + 5) =~= x);
        },
        AddressView::V6(x) => {
            assert(b.subrange(p + 1, p + 17) =~= x);
        },
        AddressView::Domain(s) => {
            broadcast use encode_utf8_valid_utf8, encode_utf8_decode_utf8;

            let n = encode_utf8(s).len();
            assert(b[p + 1] == n as u8);
            assert(b.subrange(p + 2, p + 2 + n) =~= encode_utf8(s));
        },
    }
}

/// The port of a big-endian pair is the port written.
pub proof fn lemma_port_round_trip(p: u16, pre: Seq<u8>, post: Seq<u8>)
    ensures
        be16(pre + port_bytes(p) + post, pre.len() as int) == p,
{
    let b = pre + port_bytes(p) + post;
    assert(b[pre.len() as int] == (p / 256) as u8);
    assert(b[pre.len() as int + 1] == (p % 256) as u8);
}

/// A handshake followed by any payload reads back as the same request,
/// and the reader stops exactly at the first payload byte.
pub proof fn lemma_header_round_trip(r: TrojanRequestView, payload: Seq<u8>)
    requires
        header_encodable(r),
    ensures
        spec_parse_header(encode_header(r) + payload) == Ok::<(TrojanRequestView, int), ParseError>(
            (r, encode_header(r).len() as int),
        ),
{
    broadcast use encode_utf8_valid_utf8, encode_utf8_decode_utf8;

    let d = encode_utf8(r.digest);
    let pre = d + seq![command_byte(r.command)];
    let e = encode_address(r.addr);
    let tail = port_bytes(r.port) + seq![13u8, 10u8] + payload;
    let b = encode_header(r) + payload;
    assert(b =~= pre + e + tail);
    assert(b.subrange(0, DIGEST_LEN as int) =~= d);
    assert(b[DIGEST_LEN as int] == command_byte(r.command));
    lemma_address_round_trip(r.addr, pre, tail);
    let end = (pre.len() + e.len()) as int;
    assert(b =~= (pre + e) + port_bytes(r.port) + (seq![13u8, 10u8] + payload));
    lemma_port_round_trip(r.port, pre + e, seq![13u8, 10u8] + payload);
    assert(b[end + 2] == 13u8);
    assert(b[end + 3] == 10u8);
}

/// An address field cut short anywhere reads as truncated.
pub proof fn lemma_address_truncated(a: AddressView, pre: Seq<u8>, k: int)
    requires
        address_encodable(a),
        pre.len() <= k < pre.len() + encode_address(a).len(),
    ensures
        spec_parse_address((pre + encode_address(a)).subrange(0, k), pre.len() as int) == Err::<
            (AddressView, int),
            ParseError,
        >(ParseError::Truncated),
{
    let b = (pre + encode_address(a)).subrange(0, k);
    let p = pre.len() as int;
    if k > p {
        assert(b[p] == encode_address(a)[0]);
    }
    if k > p + 1 {
        assert(b[p + 1] == encode_address(a)[1]);
    }
}

/// Every strict prefix of a handshake is refused as truncated: nothing is
/// read from an incomplete header.
pub proof fn lemma_header_prefix_truncated(r: TrojanRequestView, k: int)
    requires
        header_encodable(r),
        0 <= k < encode_header(r).len(),
    ensures
        spec_parse_header(encode_header(r).subrange(0, k)) == Err::<(TrojanRequestView, int), ParseError>(
            ParseError::Truncated,
        ),
{
    broadcast use encode_utf8_valid_utf8;

    let h = encode_header(r);
    let b = h.subrange(0, k);
    let d = encode_utf8(r.digest);
    let pre = d + seq![command_byte(r.command)];
    let e = encode_address(r.addr);
    if k >= DIGEST_LEN + 1 {
        assert(h =~= pre + e + (port_bytes(r.port) + seq![13u8, 10u8]));
        assert(b.subrange(0, DIGEST_LEN as int) =~= d);
        assert(b[DIGEST_LEN as int] == command_byte(r.command));
        if k < pre.len() + e.len() {
            assert(b =~= (pre + e).subrange(0, k));
            lemma_address_truncated(r.addr, pre, k);
        } else {
            lemma_address_round_trip(r.addr, pre, b.subrange((pre.len() + e.len()) as int, k));
            assert(b =~= pre + e + b.subrange((pre.len() + e.len()) as int, k));
        }
    }
}

/// An address-type byte outside the three known kinds is refused, whatever
/// follows it.
pub proof fn lemma_header_bad_address_type(b: Seq<u8>)
    requires
        b.len() > DIGEST_LEN + 1,
        valid_utf8(b.subrange(0, DIGEST_LEN as int)),
        command_of(b[DIGEST_LEN as int]) is Some,
        b[DIGEST_LEN + 1] != ATYPE_IPV4,
        b[DIGEST_LEN + 1] != ATYPE_DOMAIN,
        b[DIGEST_LEN + 1] != ATYPE_IPV6,
    ensures
        spec_parse_header(b) == Err::<(TrojanRequestView, int), ParseError>(
            ParseError::InvalidAddressType,
        ),
{
}

/// The transport that a command runs over.
pub open spec fn transport_of(c: Command) -> TransportProtocol {
    match c {
        Command::Connect => TransportProtocol::TCP,
        Command::UdpAssociate => TransportProtocol::UDP,
    }
}

impl TrojanRequest {
    /// The digest in the hex text that the authenticator looks up.
    pub fn get_hex(&self) -> (r: String)
        ensures
            r@ == self.digest@,
    {
        self.digest.clone()
    }

    /// The protocol-independent request that this handshake asks for.
    pub fn inbound_request(self) -> (r: InboundRequest)
        ensures
            r.atype == atype_of(self.addr@),
            r.addr@ == self.addr@,
            r.command == self.command,
            r.port == self.port,
            r.transport_protocol == transport_of(self.command),
    {
        let atype = match &self.addr {
            IpAddress::V4(_) => Atype::IPv4,
            IpAddress::V6(_) => Atype::IPv6,
            IpAddress::Domain(_) => Atype::DomainName,
        };
        let transport = match self.command {
            Command::Connect => TransportProtocol::TCP,
            Command::UdpAssociate => TransportProtocol::UDP,
        };
        InboundRequest::new(atype, self.addr, self.command, self.port, transport)
    }
}

/// Settles a parsed handshake with the authenticator's answer: an accepted
/// digest yields the request and the account it belongs to, a rejected one
/// yields no request at all.
pub fn authorize(request: TrojanRequest, accepted: bool, account_id: i32) -> (r: Result<
    (InboundRequest, i32),
    ProxyError,
>)
    ensures
        !accepted ==> r == Err::<(InboundRequest, i32), ProxyError>(ProxyError::Auth),
        accepted ==> (r matches Ok((req, id)) && id == account_id && req.addr@ == request.addr@
            && req.atype == atype_of(request.addr@) && req.port == request.port && req.command
            == request.command && req.transport_protocol == transport_of(request.command)),
{
    if !accepted {
        return Err(ProxyError::Auth);
    }
    Ok((request.inbound_request(), account_id))
}

} // verus!
