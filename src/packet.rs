use vstd::prelude::*;
use vstd::string::*;
use vstd::utf8::*;
use crate::request::{AddressView, IpAddress};
use crate::trojan::{
    ATYPE_DOMAIN, ATYPE_IPV4, ATYPE_IPV6, ParseError, address_encodable, be16, encode_address,
    lemma_address_round_trip, lemma_port_round_trip, parse_address, port_bytes, spec_parse_address,
};

verus! {

/// Largest payload that the two-byte length of a frame can carry.
pub const MAX_PAYLOAD: usize = 65535;

/// One datagram as it travels inside a UDP tunnel.
#[derive(Debug)]
pub struct UdpFrame {
    pub addr: IpAddress,
    pub port: u16,
    pub payload: Vec<u8>,
}

/// The mathematical value of a `UdpFrame`.
pub struct FrameView {
    pub addr: AddressView,
    pub port: u16,
    pub payload: Seq<u8>,
}

impl View for UdpFrame {
    type V = FrameView;

    open spec fn view(&self) -> FrameView {
        FrameView { addr: self.addr@, port: self.port, payload: self.payload@ }
    }
}

/// The frame that starts at `pos`: address field, port, length, payload,
/// with the position just after it.
pub open spec fn spec_parse_frame(b: Seq<u8>, pos: int) -> Result<(FrameView, int), ParseError> {
    match spec_parse_address(b, pos) {
        Err(e) => Err(e),
        Ok((addr, end)) => {
            if end + 4 > b.len() {
                Err(ParseError::Truncated)
            } else if end + 4 + be16(b, end + 2) > b.len() {
                Err(ParseError::Truncated)
            } else {
                Ok(
                    (
                        FrameView {
                            addr,
                            port: be16(b, end),
                            payload: b.subrange(end + 4, end + 4 + be16(b, end + 2)),
                        },
                        end + 4 + be16(b, end + 2),
                    ),
                )
            }
        },
    }
}

/// The full length of the frame at the start of `b`, once its address,
/// port and length fields are all there.
pub open spec fn spec_frame_size(b: Seq<u8>) -> Option<int> {
    match spec_parse_address(b, 0) {
        Ok((_, end)) => if end + 4 <= b.len() {
            Some(end + 4 + be16(b, end + 2))
        } else {
            None
        },
        Err(_) => None,
    }
}

/// The wire form of a frame.
pub open spec fn encode_frame_spec(f: FrameView) -> Seq<u8> {
    encode_address(f.addr) + port_bytes(f.port) + port_bytes(f.payload.len() as u16) + f.payload
}

/// A frame that has a wire form.
pub open spec fn frame_encodable(f: FrameView) -> bool {
    address_encodable(f.addr) && f.payload.len() <= MAX_PAYLOAD
}

/// Reads the frame that starts at `pos`.
pub fn parse_frame(b: &[u8], pos: usize) -> (r: Result<(UdpFrame, usize), ParseError>)
    ensures
        match (r, spec_parse_frame(b@, pos as int)) {
            (Ok((f, end)), Ok((sf, send))) => f@ == sf && end == send,
            (Err(e), Err(se)) => e == se,
            _ => false,
        },
{
    let (addr, end) = match parse_address(b, pos) {
        Ok(p) => p,
        Err(e) => return Err(e),
    };
    if b.len() - end < 4 {
        return Err(ParseError::Truncated);
    }
    let port: u16 = (b[end] as u16) * 256 + (b[end + 1] as u16);
    let n: usize = (b[end + 2] as usize) * 256 + (b[end + 3] as usize);
    if b.len() - end - 4 < n {
        return Err(ParseError::Truncated);
    }
    let mut payload: Vec<u8> = Vec::with_capacity(n);
    let mut i: usize = 0;
    while i < n
        invariant
            i <= n,
            end + 4 + n <= b.len(),
            payload@ =~= b@.subrange(end + 4, end + 4 + i),
        decreases n - i,
    {
        payload.push(b[end + 4 + i]);
        i = i + 1;
    }
    Ok((UdpFrame { addr, port, payload }, end + 4 + n))
}

/// How many bytes the frame at the start of `b` takes, or `None` while its
/// fixed fields are not all in `b` yet (or its address field is invalid).
pub fn frame_size(b: &[u8]) -> (r: Option<usize>)
    ensures
        match (r, spec_frame_size(b@)) {
            (Some(n), Some(sn)) => n == sn,
            (None, None) => true,
            _ => false,
        },
{
    match parse_address(b, 0) {
        Ok((_, end)) => {
            if b.len() - end < 4 {
                None
            } else {
                Some(end + 4 + (b[end + 2] as usize) * 256 + (b[end + 3] as usize))
            }
        },
        Err(_) => None,
    }
}

fn push_be16(v: &mut Vec<u8>, x: u16)
    ensures
        final(v)@ == old(v)@ + port_bytes(x),
{
    v.push((x / 256) as u8);
    v.push((x % 256) as u8);
    assert(final(v)@ =~= old(v)@ + port_bytes(x));
}

fn push_all(v: &mut Vec<u8>, s: &[u8])
    ensures
        final(v)@ == old(v)@ + s@,
{
    let mut i: usize = 0;
    while i < s.len()
        invariant
            i <= s.len(),
            v@ =~= old(v)@ + s@.subrange(0, i as int),
        decreases s.len() - i,
    {
        v.push(s[i]);
        i = i + 1;
    }
    assert(s@.subrange(0, s@.len() as int) =~= s@);
}

/// Writes the wire form of a frame, or `None` where the payload is longer
/// than a frame can carry or a domain name is longer than 255 bytes.
pub fn encode_frame(addr: &IpAddress, port: u16, payload: &[u8]) -> (r: Option<Vec<u8>>)
    ensures
        r.is_some() == frame_encodable(FrameView { addr: addr@, port, payload: payload@ }),
        r.is_some() ==> r.unwrap()@ == encode_frame_spec(
            FrameView { addr: addr@, port, payload: payload@ },
        ),
{
    if payload.len() > MAX_PAYLOAD {
        return None;
    }
    let mut v: Vec<u8> = Vec::new();
    match addr {
        IpAddress::V4(a) => {
            v.push(ATYPE_IPV4);
            push_all(&mut v, a.as_slice());
        },
        IpAddress::V6(a) => {
            v.push(ATYPE_IPV6);
            push_all(&mut v, a.as_slice());
        },
        IpAddress::Domain(s) => {
            let name = s.as_str().as_bytes();
            if name.len() > 255 {
                return None;
            }
            v.push(ATYPE_DOMAIN);
            v.push(name.len() as u8);
            push_all(&mut v, name);
        },
    }
    assert(v@ =~= encode_address(addr@));
    push_be16(&mut v, port);
    push_be16(&mut v, payload.len() as u16);
    push_all(&mut v, payload);
    Some(v)
}

/// A frame read back from anywhere in a byte string is the frame written,
/// and the reader stops right after it.
pub proof fn lemma_frame_round_trip(f: FrameView, pre: Seq<u8>, post: Seq<u8>)
    requires
        frame_encodable(f),
    ensures
        spec_parse_frame(pre + encode_frame_spec(f) + post, pre.len() as int) == Ok::<
            (FrameView, int),
            ParseError,
        >((f, (pre.len() + encode_frame_spec(f).len()) as int)),
{
    let e = encode_address(f.addr);
    let n = f.payload.len();
    let rest = port_bytes(f.port) + port_bytes(n as u16) + f.payload + post;
    let b = pre + encode_frame_spec(f) + post;
    assert(b =~= pre + e + rest);
    lemma_address_round_trip(f.addr, pre, rest);
    let end = (pre.len() + e.len()) as int;
    assert(b =~= (pre + e) + port_bytes(f.port) + (port_bytes(n as u16) + f.payload + post));
    lemma_port_round_trip(f.port, pre + e, port_bytes(n as u16) + f.payload + post);
    assert(b =~= (pre + e + port_bytes(f.port)) + port_bytes(n as u16) + (f.payload + post));
    lemma_port_round_trip(n as u16, pre + e + port_bytes(f.port), f.payload + post);
    assert(b.subrange(end + 4, end + 4 + n) =~= f.payload);
}

/// Two frames sent back to back are read as exactly those two frames, in
/// order, and nothing is left over.
pub proof fn lemma_two_frames(f1: FrameView, f2: FrameView)
    requires
        frame_encodable(f1),
        frame_encodable(f2),
    ensures
        spec_parse_frame(encode_frame_spec(f1) + encode_frame_spec(f2), 0) == Ok::<
            (FrameView, int),
            ParseError,
        >((f1, encode_frame_spec(f1).len() as int)),
        spec_parse_frame(
            encode_frame_spec(f1) + encode_frame_spec(f2),
            encode_frame_spec(f1).len() as int,
        ) == Ok::<(FrameView, int), ParseError>(
            (f2, (encode_frame_spec(f1).len() + encode_frame_spec(f2).len()) as int),
        ),
{
    let a = encode_frame_spec(f1);
    let c = encode_frame_spec(f2);
    lemma_frame_round_trip(f1, Seq::empty(), c);
    assert(Seq::<u8>::empty() + a + c =~= a + c);
    lemma_frame_round_trip(f2, a, Seq::empty());
    assert(a + c + Seq::<u8>::empty() =~= a + c);
}

/// The size reported for a frame at the start of a byte string is the
/// length of its wire form, once its fixed fields have arrived.
pub proof fn lemma_frame_size(f: FrameView, post: Seq<u8>)
    requires
        frame_encodable(f),
    ensures
        spec_frame_size(encode_frame_spec(f) + post) == Some(encode_frame_spec(f).len() as int),
{
    lemma_frame_round_trip(f, Seq::empty(), post);
    assert(Seq::<u8>::empty() + encode_frame_spec(f) + post =~= encode_frame_spec(f) + post);
}

} // verus!
