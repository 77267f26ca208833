//! Decoding and re-encoding of captured Ethernet frames: the Ethernet
//! header, IPv4 headers, UDP datagrams and ICMP messages.
use vstd::prelude::*;
use crate::bytes::{
    be16, be32, spec_be16, spec_be32, spec_hi8, spec_lo8, split16, split32, spec_be32_bytes,
    spec_or_shift_word, or_shift_word, usize_of, usize_of16,
};
use crate::checksum::{checksum, spec_checksum};
use crate::duid::MacAddr;

verus! {

/// An ICMP message: type, code, the 32-bit value read from bytes 2..6 and
/// everything after them.
#[derive(Debug)]
pub struct IcmpEthFrame {
    pub icmp_type: u8,
    pub code: u8,
    pub checksum: u32,
    pub rest: Vec<u8>,
}

impl IcmpEthFrame {
    /// This message is what `d` decodes to.
    pub open spec fn decodes_from(&self, d: Seq<u8>) -> bool {
        &&& d.len() >= 6
        &&& self.icmp_type == d[0]
        &&& self.code == d[1]
        &&& self.checksum == spec_or_shift_word(d[2], d[3], d[4], d[5])
        &&& self.rest@ == d.skip(6)
    }

    /// Decode an ICMP message; fewer than 6 bytes decode to nothing.
    pub fn new(data: &[u8]) -> (r: Option<IcmpEthFrame>)
        ensures
            r is None <==> data@.len() < 6,
            r matches Some(f) ==> f.decodes_from(data@),
    {
        if data.len() < 6 {
            return None;
        }
        let icmp_type = data[0];
        let code = data[1];
        let checksum = or_shift_word(data[2], data[3], data[4], data[5]);
        let rest = vstd::slice::slice_to_vec(&data[6..data.len()]);
        Some(IcmpEthFrame { icmp_type, code, checksum, rest })
    }
}

/// The payload of a UDP datagram.
#[derive(Debug)]
pub enum EthUdpType {
    Raw(Vec<u8>),
}

impl EthUdpType {
    /// The payload bytes.
    pub open spec fn spec_payload(&self) -> Seq<u8> {
        match self {
            EthUdpType::Raw(data) => data@,
        }
    }

    /// The payload bytes.
    pub fn convert_to_payload(&self) -> (r: Vec<u8>)
        ensures
            r@ == self.spec_payload(),
    {
        match self {
            EthUdpType::Raw(data) => vstd::slice::slice_to_vec(data.as_slice()),
        }
    }
}

/// Classify the payload of a UDP datagram.
pub fn identifier_type(data: &[u8]) -> (r: EthUdpType)
    ensures
        r.spec_payload() == data@,
{
    EthUdpType::Raw(vstd::slice::slice_to_vec(data))
}

/// A UDP datagram.
#[derive(Debug)]
pub struct UdpEthFrame {
    pub source_port: u16,
    pub denst_port: u16,
    pub length: u16,
    pub checksum: u16,
    pub playload: EthUdpType,
}

/// The UDP header, with the given checksum field, followed by the payload;
/// the length field is the payload length plus 8, modulo 2^16.
pub open spec fn spec_udp_bytes(source_port: u16, denst_port: u16, checksum: u16, payload: Seq<
    u8,
>) -> Seq<u8> {
    let len = ((payload.len() + 8) % 65536) as u16;
    seq![
        spec_hi8(source_port),
        spec_lo8(source_port),
        spec_hi8(denst_port),
        spec_lo8(denst_port),
        spec_hi8(len),
        spec_lo8(len),
        spec_hi8(checksum),
        spec_lo8(checksum),
    ] + payload
}

impl UdpEthFrame {
    /// This datagram is what `d` decodes to.
    pub open spec fn decodes_from(&self, d: Seq<u8>) -> bool {
        &&& d.len() >= 8
        &&& self.source_port == spec_be16(d[0], d[1])
        &&& self.denst_port == spec_be16(d[2], d[3])
        &&& self.length == spec_be16(d[4], d[5])
        &&& self.checksum == spec_be16(d[6], d[7])
        &&& self.playload.spec_payload() == d.skip(8)
    }

    /// Decode a UDP datagram (the 8-byte header must be there).
    pub fn new(data: &[u8]) -> (r: Option<UdpEthFrame>)
        requires
            data@.len() >= 8,
        ensures
            r matches Some(f) && f.decodes_from(data@),
    {
        let source_port = be16(data[0], data[1]);
        let denst_port = be16(data[2], data[3]);
        let length = be16(data[4], data[5]);
        let checksum = be16(data[6], data[7]);
        let playload = identifier_type(&data[8..data.len()]);
        Some(UdpEthFrame { source_port, denst_port, length, checksum, playload })
    }

    /// The datagram bytes, with its checksum field or with zero in its place.
    pub fn get_payload_contain_checksum(&self, is_contain: bool) -> (r: Vec<u8>)
        requires
            self.playload.spec_payload().len() + 8 <= usize::MAX,
        ensures
            r@ == spec_udp_bytes(
                self.source_port,
                self.denst_port,
                if is_contain {
                    self.checksum
                } else {
                    0
                },
                self.playload.spec_payload(),
            ),
    {
        let mut payload = self.playload.convert_to_payload();
        let payload_length = ((payload.len() + 8) % 65536) as u16;
        let (s0, s1) = split16(self.source_port);
        let (d0, d1) = split16(self.denst_port);
        let (l0, l1) = split16(payload_length);
        let ck: u16 = if is_contain {
            self.checksum
        } else {
            0
        };
        let (c0, c1) = split16(ck);
        let mut out: Vec<u8> = Vec::new();
        out.push(s0);
        out.push(s1);
        out.push(d0);
        out.push(d1);
        out.push(l0);
        out.push(l1);
        out.push(c0);
        out.push(c1);
        let ghost p = payload@;
        out.append(&mut payload);
        assert(out@ =~= spec_udp_bytes(self.source_port, self.denst_port, ck, p));
        out
    }

    /// The datagram bytes with a zero checksum field, as the checksum covers them.
    pub fn get_check_sum_part(&self) -> (r: Vec<u8>)
        requires
            self.playload.spec_payload().len() + 8 <= usize::MAX,
        ensures
            r@ == spec_udp_bytes(self.source_port, self.denst_port, 0, self.playload.spec_payload()),
    {
        self.get_payload_contain_checksum(false)
    }

    /// The datagram bytes as sent (call `update_checksum` first).
    pub fn as_payload(&self) -> (r: Vec<u8>)
        requires
            self.playload.spec_payload().len() + 8 <= usize::MAX,
        ensures
            r@ == spec_udp_bytes(
                self.source_port,
                self.denst_port,
                self.checksum,
                self.playload.spec_payload(),
            ),
    {
        self.get_payload_contain_checksum(true)
    }

    /// Set the checksum if none is set yet; a set checksum is kept.
    pub fn update_checksum(&mut self, checksum: u16)
        ensures
            final(self).checksum == (if old(self).checksum == 0 {
                checksum
            } else {
                old(self).checksum
            }),
            final(self).source_port == old(self).source_port,
            final(self).denst_port == old(self).denst_port,
            final(self).length == old(self).length,
            final(self).playload == old(self).playload,
    {
        if self.checksum == 0 {
            self.checksum = checksum;
        }
    }

    /// An empty reply: ports swapped, length 8, no checksum, no payload.
    pub fn get_response_empty(&self) -> (r: UdpEthFrame)
        ensures
            r.source_port == self.denst_port,
            r.denst_port == self.source_port,
            r.length == 8,
            r.checksum == 0,
            r.playload.spec_payload() == Seq::<u8>::empty(),
    {
        UdpEthFrame {
            source_port: self.denst_port,
            denst_port: self.source_port,
            length: 8,
            checksum: 0,
            playload: EthUdpType::Raw(Vec::new()),
        }
    }

    /// Replace the payload, growing the length field by the new payload's
    /// length (taken modulo 2^16).
    pub fn set_payload(&mut self, payload: EthUdpType)
        requires
            old(self).length + payload.spec_payload().len() % 65536 <= u16::MAX,
        ensures
            final(self).length == old(self).length + payload.spec_payload().len() % 65536,
            final(self).playload == payload,
            final(self).source_port == old(self).source_port,
            final(self).denst_port == old(self).denst_port,
            final(self).checksum == old(self).checksum,
    {
        let len = (payload.convert_to_payload().len() % 65536) as u16;
        self.length = self.length + len;
        self.playload = payload;
    }
}

/// An IPv4 packet header and its decoded payload.
#[derive(Debug)]
pub struct Ipv4EthFrame {
    /// 4 bit
    pub version: u8,
    /// 4 bit
    pub head_len: u8,
    /// 6 bit
    pub dscp: u8,
    /// 2 bit
    pub ecn: u8,
    pub total_length: usize,
    pub ident: u16,
    /// 3 bit
    pub flags: u8,
    /// 13 bit
    pub fragment_offset: u16,
    pub ttl: u8,
    pub protocol: EthIpType,
    pub checksum: u16,
    /// source address, as a 32-bit number
    pub source_addr: u32,
    /// destination address, as a 32-bit number
    pub denst_addr: u32,
    pub options: Option<Vec<u8>>,
}

/// The payload of an IPv4 packet, by protocol number.
#[derive(Debug)]
pub enum EthIpType {
    Icmp(Box<IcmpEthFrame>),
    Ipv4(Box<Ipv4EthFrame>),
    Tcp(Vec<u8>),
    Udp(Box<UdpEthFrame>),
    Ipv6(Box<EthIpType>),
    Raw(u8, Vec<u8>),
}

/// Header length in bytes that the first byte of an IPv4 header gives.
pub open spec fn ipv4_head_bytes(d: Seq<u8>) -> int {
    (d[0] % 16) * 4
}

/// `d` is long enough for an IPv4 header and the length it declares.
pub open spec fn ipv4_fits(d: Seq<u8>) -> bool {
    d.len() >= 20 && d.len() >= ipv4_head_bytes(d)
}

/// Decoding `d` as an IPv4 packet terminates without a fault: every UDP
/// payload met holds a full UDP header, and no IP-in-IP header declares a
/// zero header length (which would decode the same bytes again forever).
pub open spec fn ipv4_parse_safe(d: Seq<u8>) -> bool
    decreases d.len(),
{
    if !ipv4_fits(d) {
        true
    } else {
        let p = d.skip(ipv4_head_bytes(d));
        if d[9] == 4 {
            ipv4_head_bytes(d) > 0 && ipv4_parse_safe(p)
        } else if d[9] == 17 {
            p.len() >= 8
        } else {
            true
        }
    }
}

/// Decoding `d` as the payload of protocol `value` terminates without a fault.
pub open spec fn proto_parse_safe(value: u8, d: Seq<u8>) -> bool {
    if value == 4 {
        ipv4_parse_safe(d)
    } else if value == 17 {
        d.len() >= 8
    } else {
        true
    }
}

/// The header fields of `f` are those that `d` holds.
pub open spec fn ipv4_header_matches(f: &Ipv4EthFrame, d: Seq<u8>) -> bool {
    &&& ipv4_fits(d)
    &&& f.version == d[0] / 16
    &&& f.head_len == d[0] % 16
    &&& f.dscp == d[1] / 4
    &&& f.ecn == d[1] % 4
    &&& f.total_length == spec_be16(d[2], d[3])
    &&& f.ident == spec_be16(d[4], d[5])
    &&& f.flags == d[6] / 32
    &&& f.fragment_offset == (d[6] % 32) * 256 + d[7]
    &&& f.ttl == d[8]
    &&& f.checksum == spec_be16(d[10], d[11])
    &&& f.source_addr == spec_be32(d[12], d[13], d[14], d[15])
    &&& f.denst_addr == spec_be32(d[16], d[17], d[18], d[19])
    &&& f.options is None
}

/// `f` is what `d` decodes to as an IPv4 packet.
pub open spec fn ipv4_decodes_from(f: Ipv4EthFrame, d: Seq<u8>) -> bool
    decreases f,
{
    ipv4_header_matches(&f, d) && proto_decodes_from(f.protocol, d[9], d.skip(ipv4_head_bytes(d)))
}

/// `p` is what `d` decodes to as the payload of protocol `value`: ICMP,
/// IPv4 and UDP payloads are decoded when they fit, anything else (and what
/// does not fit) is kept raw.
pub open spec fn proto_decodes_from(p: EthIpType, value: u8, d: Seq<u8>) -> bool
    decreases p,
{
    match p {
        EthIpType::Icmp(f) => value == 1 && f.decodes_from(d),
        EthIpType::Ipv4(f) => value == 4 && ipv4_decodes_from(*f, d),
        EthIpType::Udp(f) => value == 17 && f.decodes_from(d),
        EthIpType::Raw(v, raw) => {
            &&& v == value
            &&& raw@ == d
            &&& value != 17
            &&& value == 1 ==> d.len() < 6
            &&& value == 4 ==> !ipv4_fits(d)
        },
        _ => false,
    }
}

/// The protocol number of a payload.
pub open spec fn proto_value(p: EthIpType) -> u8 {
    match p {
        EthIpType::Icmp(_) => 0x1,
        EthIpType::Ipv4(_) => 0x4,
        EthIpType::Tcp(_) => 0x6,
        EthIpType::Udp(_) => 0x11,
        EthIpType::Ipv6(_) => 0x29,
        EthIpType::Raw(val, _) => val,
    }
}

/// The bytes the UDP checksum covers: the IPv4 pseudo header and the
/// datagram with a zero checksum field.
pub open spec fn udp_pseudo_bytes(source_addr: u32, denst_addr: u32, udp: UdpEthFrame) -> Seq<u8> {
    spec_be32_bytes(source_addr) + spec_be32_bytes(denst_addr) + seq![
        0u8,
        17u8,
        spec_hi8(udp.length),
        spec_lo8(udp.length),
    ] + spec_udp_bytes(udp.source_port, udp.denst_port, 0, udp.playload.spec_payload())
}

/// The IPv4 header bytes of `f` with the given checksum field (no options).
pub open spec fn spec_ipv4_header(f: &Ipv4EthFrame, ck: u16) -> Seq<u8> {
    seq![
        ((f.version << 4u8) | (f.head_len & 0x0Fu8)) as u8,
        ((f.dscp << 2u8) | (f.ecn & 0x03u8)) as u8,
        (f.total_length >> 8usize) as u8,
        (f.total_length & 0xFFusize) as u8,
        spec_hi8(f.ident),
        spec_lo8(f.ident),
        ((f.flags << 5u8) | (((f.fragment_offset >> 8u16) & 0x1Fu16) as u8)) as u8,
        (f.fragment_offset & 0xFFu16) as u8,
        f.ttl,
        proto_value(f.protocol),
        spec_hi8(ck),
        spec_lo8(ck),
    ] + spec_be32_bytes(f.source_addr) + spec_be32_bytes(f.denst_addr)
}

/// Pad a byte string with one zero byte when its length is odd.
pub open spec fn pad_even(s: Seq<u8>) -> Seq<u8> {
    if s.len() % 2 != 0 {
        s.push(0)
    } else {
        s
    }
}

/// The UDP datagram a payload holds.
pub open spec fn udp_of(p: EthIpType) -> UdpEthFrame
    recommends
        p is Udp,
{
    match p {
        EthIpType::Udp(f) => *f,
        _ => arbitrary(),
    }
}

impl EthIpType {
    /// Decode the payload of protocol `value`.
    pub fn from_u8(value: u8, data: &[u8]) -> (r: EthIpType)
        requires
            proto_parse_safe(value, data@),
        ensures
            proto_decodes_from(r, value, data@),
        decreases 2 * data@.len() + (if value == 4 {
            2int
        } else {
            0int
        }),
    {
        if value == 1 {
            match IcmpEthFrame::new(data) {
                Some(f) => EthIpType::Icmp(Box::new(f)),
                None => EthIpType::Raw(value, vstd::slice::slice_to_vec(data)),
            }
        } else if value == 4 {
            match Ipv4EthFrame::new(data) {
                Some(f) => EthIpType::Ipv4(Box::new(f)),
                None => EthIpType::Raw(value, vstd::slice::slice_to_vec(data)),
            }
        } else if value == 0x11 {
            match UdpEthFrame::new(data) {
                Some(f) => EthIpType::Udp(Box::new(f)),
                None => EthIpType::Raw(value, vstd::slice::slice_to_vec(data)),
            }
        } else {
            EthIpType::Raw(value, vstd::slice::slice_to_vec(data))
        }
    }

    /// Compute the UDP checksum over the IPv4 pseudo header (source and
    /// destination address, zero, protocol 17, UDP length) and the datagram
    /// with a zero checksum field, and store it in the datagram.
    pub fn caculate_checksum(&mut self, source_addr: u32, denst_addr: u32) -> (r: u16)
        requires
            *old(self) is Udp,
            udp_of(*old(self)).playload.spec_payload().len() + 8 <= usize::MAX,
        ensures
            *final(self) is Udp,
            r == spec_checksum(udp_pseudo_bytes(source_addr, denst_addr, udp_of(*old(self)))),
            udp_of(*final(self)).checksum == r,
            udp_of(*final(self)).source_port == udp_of(*old(self)).source_port,
            udp_of(*final(self)).denst_port == udp_of(*old(self)).denst_port,
            udp_of(*final(self)).length == udp_of(*old(self)).length,
            udp_of(*final(self)).playload == udp_of(*old(self)).playload,
    {
        match self {
            EthIpType::Udp(udp) => {
                let mut v: Vec<u8> = Vec::new();
                let s = split32(source_addr);
                let d = split32(denst_addr);
                v.push(s[0]);
                v.push(s[1]);
                v.push(s[2]);
                v.push(s[3]);
                v.push(d[0]);
                v.push(d[1]);
                v.push(d[2]);
                v.push(d[3]);
                v.push(0);
                v.push(17);
                let (l0, l1) = split16(udp.length);
                v.push(l0);
                v.push(l1);
                let mut part = udp.get_check_sum_part();
                let ghost pv = part@;
                v.append(&mut part);
                assert(v@ =~= udp_pseudo_bytes(source_addr, denst_addr, **udp));
                let check = checksum(v.as_slice());
                udp.checksum = check;
                check
            },
            _ => 0,
        }
    }

    /// The bytes of this payload (only UDP payloads are encoded).
    pub fn as_payload(&self) -> (r: Vec<u8>)
        requires
            *self is Udp,
            udp_of(*self).playload.spec_payload().len() + 8 <= usize::MAX,
        ensures
            r@ == spec_udp_bytes(
                udp_of(*self).source_port,
                udp_of(*self).denst_port,
                udp_of(*self).checksum,
                udp_of(*self).playload.spec_payload(),
            ),
    {
        match self {
            EthIpType::Udp(udp) => udp.as_payload(),
            _ => Vec::new(),
        }
    }

    /// The protocol number of this payload.
    pub fn get_val(&self) -> (r: u8)
        ensures
            r == proto_value(*self),
    {
        match self {
            EthIpType::Icmp(_) => 0x1,
            EthIpType::Ipv4(_) => 0x4,
            EthIpType::Tcp(_) => 0x6,
            EthIpType::Udp(_) => 0x11,
            EthIpType::Ipv6(_) => 0x29,
            EthIpType::Raw(val, _) => *val,
        }
    }
}

proof fn lemma_be32_bytes(a: u8, b: u8, c: u8, d: u8)
    ensures
        spec_be32_bytes(spec_be32(a, b, c, d)) == seq![a, b, c, d],
{
    let x = spec_be32(a, b, c, d);
    let v: nat = ((a as nat * 256 + b as nat) * 256 + c as nat) * 256 + d as nat;
    assert(v <= 0xFFFF_FFFF) by (nonlinear_arith)
        requires
            v == ((a as nat * 256 + b as nat) * 256 + c as nat) * 256 + d as nat,
            a < 256,
            b < 256,
            c < 256,
            d < 256,
    ;
    assert(x == v);
    assert(x / 16777216 == a && (x / 65536) % 256 == b && (x / 256) % 256 == c && x % 256 == d)
        by (nonlinear_arith)
        requires
            x == ((a as nat * 256 + b as nat) * 256 + c as nat) * 256 + d as nat,
    ;
    assert(spec_be32_bytes(x) =~= seq![a, b, c, d]);
}

proof fn lemma_be16_bytes(a: u8, b: u8)
    ensures
        spec_hi8(spec_be16(a, b)) == a,
        spec_lo8(spec_be16(a, b)) == b,
        spec_be16(a, b) == a * 256 + b,
{
    let x = spec_be16(a, b);
    let v: nat = a as nat * 256 + b as nat;
    assert(v <= 0xFFFF) by (nonlinear_arith)
        requires
            v == a as nat * 256 + b as nat,
            a < 256,
            b < 256,
    ;
    assert(x == v);
    assert(x / 256 == a && x % 256 == b) by (nonlinear_arith)
        requires
            x == a as nat * 256 + b as nat,
    ;
}

/// Decoding an IPv4 packet keeps every field of its fixed header: the
/// header that the decoded frame gives back, with its own checksum, is the
/// first 20 bytes it was read from, and with a zero checksum the same bytes
/// with the checksum field zeroed.
pub proof fn law_ipv4_header_round_trip(f: Ipv4EthFrame, d: Seq<u8>)
    requires
        ipv4_decodes_from(f, d),
    ensures
        spec_ipv4_header(&f, f.checksum) == d.take(20),
        spec_ipv4_header(&f, 0) == d.take(10) + seq![0u8, 0u8] + d.subrange(12, 20),
{
    let h = spec_ipv4_header(&f, f.checksum);
    let b0 = d[0];
    let b1 = d[1];
    let b6 = d[6];
    let b7 = d[7];
    assert(((((b0 / 16) as u8) << 4u8) | (((b0 % 16) as u8) & 0x0Fu8)) as u8 == b0) by (bit_vector);
    assert(((((b1 / 4) as u8) << 2u8) | (((b1 % 4) as u8) & 0x03u8)) as u8 == b1) by (bit_vector);
    let fo: u16 = ((b6 % 32) * 256 + b7) as u16;
    assert(fo == (b6 % 32) * 256 + b7);
    assert(((((b6 / 32) as u8) << 5u8) | (((fo >> 8u16) & 0x1Fu16) as u8)) as u8 == b6
        && (fo & 0xFFu16) as u8 == b7) by (bit_vector)
        requires
            fo == (b6 % 32) * 256 + b7,
    ;
    lemma_be16_bytes(d[2], d[3]);
    lemma_be16_bytes(d[4], d[5]);
    lemma_be16_bytes(d[10], d[11]);
    let tl = f.total_length;
    assert(tl == d[2] * 256 + d[3]);
    let b2 = d[2];
    let b3 = d[3];
    assert((tl >> 8usize) as u8 == b2 && (tl & 0xFFusize) as u8 == b3) by (bit_vector)
        requires
            tl == b2 * 256 + b3,
    ;
    assert(proto_value(f.protocol) == d[9]) by {
        match f.protocol {
            EthIpType::Raw(v, _) => {},
            _ => {},
        }
    }
    lemma_be32_bytes(d[12], d[13], d[14], d[15]);
    lemma_be32_bytes(d[16], d[17], d[18], d[19]);
    assert(h =~= d.take(20));
    assert(spec_hi8(0) == 0 && spec_lo8(0) == 0);
    assert(spec_ipv4_header(&f, 0) =~= d.take(10) + seq![0u8, 0u8] + d.subrange(12, 20));
}

impl Ipv4EthFrame {
    /// Decode an IPv4 packet; a buffer shorter than 20 bytes or than the
    /// header length it declares decodes to nothing.
    pub fn new(data: &[u8]) -> (r: Option<Ipv4EthFrame>)
        requires
            ipv4_parse_safe(data@),
        ensures
            r is None <==> !ipv4_fits(data@),
            r matches Some(f) ==> ipv4_decodes_from(f, data@),
        decreases 2 * data@.len() + 1,
    {
        if data.len() < 20 {
            return None;
        }
        let b0 = data[0];
        let version = b0 >> 4u8;
        let head_len = b0 & 0x0Fu8;
        assert(b0 >> 4u8 == b0 / 16 && b0 & 0x0Fu8 == b0 % 16) by (bit_vector);
        let real_head_length = usize_of(head_len) * 4;
        if data.len() < real_head_length {
            return None;
        }
        let b1 = data[1];
        let dscp = b1 >> 2u8;
        let ecn = b1 & 0x03u8;
        assert(b1 >> 2u8 == b1 / 4 && b1 & 0x03u8 == b1 % 4) by (bit_vector);
        let total_length = usize_of16(be16(data[2], data[3]));
        let ident = be16(data[4], data[5]);
        let b6 = data[6];
        let b7 = data[7];
        let flags = b6 >> 5u8;
        let frag_hi = b6 & 0x1Fu8;
        let fragment_offset = ((frag_hi as u16) << 8u16) | (b7 as u16);
        assert(b6 >> 5u8 == b6 / 32 && b6 & 0x1Fu8 == b6 % 32) by (bit_vector);
        assert(((((b6 & 0x1Fu8) as u16) << 8u16) | (b7 as u16)) == ((b6 % 32) as u16) * 256 + (
        b7 as u16)) by (bit_vector);
        let ttl = data[8];
        let payload = &data[real_head_length..data.len()];
        assert(payload@ == data@.skip(ipv4_head_bytes(data@)));
        let protocol = EthIpType::from_u8(data[9], payload);
        let checksum = be16(data[10], data[11]);
        let source_addr = be32(data[12], data[13], data[14], data[15]);
        let denst_addr = be32(data[16], data[17], data[18], data[19]);
        Some(
            Ipv4EthFrame {
                version,
                head_len,
                dscp,
                ecn,
                total_length,
                ident,
                flags,
                fragment_offset,
                ttl,
                protocol,
                checksum,
                source_addr,
                denst_addr,
                options: None,
            },
        )
    }
}

impl Ipv4EthFrame {
    /// The header bytes, with the checksum field or with zero in its place.
    pub fn get_header_contain_checksum(&self, is_contain: bool) -> (r: Vec<u8>)
        ensures
            r@ == spec_ipv4_header(
                self,
                if is_contain {
                    self.checksum
                } else {
                    0
                },
            ),
    {
        let checksum: u16 = if is_contain {
            self.checksum
        } else {
            0
        };
        let (c0, c1) = split16(checksum);
        let (i0, i1) = split16(self.ident);
        let mut header: Vec<u8> = Vec::new();
        header.push((self.version << 4u8) | (self.head_len & 0x0Fu8));
        header.push((self.dscp << 2u8) | (self.ecn & 0x03u8));
        header.push((self.total_length >> 8usize) as u8);
        header.push((self.total_length & 0xFFusize) as u8);
        header.push(i0);
        header.push(i1);
        header.push((self.flags << 5u8) | (((self.fragment_offset >> 8u16) & 0x1Fu16) as u8));
        header.push((self.fragment_offset & 0xFFu16) as u8);
        header.push(self.ttl);
        header.push(self.protocol.get_val());
        header.push(c0);
        header.push(c1);
        let s = split32(self.source_addr);
        let d = split32(self.denst_addr);
        header.push(s[0]);
        header.push(s[1]);
        header.push(s[2]);
        header.push(s[3]);
        header.push(d[0]);
        header.push(d[1]);
        header.push(d[2]);
        header.push(d[3]);
        assert(header@ =~= spec_ipv4_header(self, checksum));
        header
    }

    /// The checksum of the carried protocol (UDP only), stored in the datagram.
    pub fn caculate_protocol_checksum(&mut self) -> (r: u16)
        requires
            old(self).protocol is Udp,
            udp_of(old(self).protocol).playload.spec_payload().len() + 8 <= usize::MAX,
        ensures
            final(self).protocol is Udp,
            r == spec_checksum(
                udp_pseudo_bytes(
                    old(self).source_addr,
                    old(self).denst_addr,
                    udp_of(old(self).protocol),
                ),
            ),
            udp_of(final(self).protocol).checksum == r,
    {
        let s = self.source_addr;
        let d = self.denst_addr;
        self.protocol.caculate_checksum(s, d)
    }

    /// The packet bytes: header with its checksum, then the UDP datagram.
    pub fn as_payload(&self) -> (r: Vec<u8>)
        requires
            self.protocol is Udp,
            udp_of(self.protocol).playload.spec_payload().len() + 8 <= usize::MAX,
        ensures
            r@ == spec_ipv4_header(self, self.checksum) + spec_udp_bytes(
                udp_of(self.protocol).source_port,
                udp_of(self.protocol).denst_port,
                udp_of(self.protocol).checksum,
                udp_of(self.protocol).playload.spec_payload(),
            ),
    {
        let mut header = self.get_header_contain_checksum(true);
        let mut p = self.protocol.as_payload();
        header.append(&mut p);
        header
    }

    /// The header checksum: header with a zero checksum field, then the
    /// options, padded to an even length.
    pub fn caculate_checksum(&mut self) -> (r: u16)
        ensures
            r == spec_checksum(
                pad_even(
                    spec_ipv4_header(old(self), 0) + match old(self).options {
                        Some(o) => o@,
                        None => Seq::<u8>::empty(),
                    },
                ),
            ),
            *final(self) == *old(self),
    {
        let mut header = self.get_header_contain_checksum(false);
        match &self.options {
            Some(opts) => {
                let mut o = vstd::slice::slice_to_vec(opts.as_slice());
                header.append(&mut o);
            },
            None => {},
        }
        if header.len() % 2 != 0 {
            header.push(0);
        }
        checksum(header.as_slice())
    }

    /// Set the header checksum if none is set yet (computing the UDP checksum
    /// first); a set checksum is kept.
    pub fn update_checksum(&mut self, checksum: u16)
        requires
            old(self).checksum == 0 ==> old(self).protocol is Udp,
            old(self).checksum == 0 ==> udp_of(old(self).protocol).playload.spec_payload().len() + 8
                <= usize::MAX,
        ensures
            final(self).checksum == (if old(self).checksum == 0 {
                checksum
            } else {
                old(self).checksum
            }),
            old(self).checksum != 0 ==> *final(self) == *old(self),
            old(self).checksum == 0 ==> udp_of(final(self).protocol).checksum == spec_checksum(
                udp_pseudo_bytes(
                    old(self).source_addr,
                    old(self).denst_addr,
                    udp_of(old(self).protocol),
                ),
            ),
    {
        if self.checksum == 0 {
            let s = self.source_addr;
            let d = self.denst_addr;
            self.protocol.caculate_checksum(s, d);
            self.checksum = checksum;
        }
    }

    /// A reply header: addresses swapped, fresh identification, TTL 64, no payload.
    pub fn get_response(&self) -> (r: Ipv4EthFrame)
        ensures
            r.version == self.version,
            r.head_len == self.head_len,
            r.dscp == self.dscp,
            r.ecn == self.ecn,
            r.total_length == 20,
            r.ident == 0x1234,
            r.flags == 0,
            r.fragment_offset == 0,
            r.ttl == 64,
            proto_decodes_from(r.protocol, 0, Seq::<u8>::empty()),
            r.checksum == 0,
            r.source_addr == self.denst_addr,
            r.denst_addr == self.source_addr,
            r.options is None,
    {
        Ipv4EthFrame {
            version: self.version,
            head_len: self.head_len,
            dscp: self.dscp,
            ecn: self.ecn,
            total_length: 20,
            ident: 0x1234,
            flags: 0,
            fragment_offset: 0,
            ttl: 64,
            protocol: EthIpType::Raw(0, Vec::new()),
            checksum: 0,
            source_addr: self.denst_addr,
            denst_addr: self.source_addr,
            options: None,
        }
    }

    /// Replace the payload (a UDP datagram), growing the total length by its size.
    pub fn set_payload(&mut self, protocol: EthIpType)
        requires
            protocol is Udp,
            udp_of(protocol).playload.spec_payload().len() + 8 <= usize::MAX,
            old(self).total_length + udp_of(protocol).playload.spec_payload().len() + 8
                <= usize::MAX,
        ensures
            final(self).total_length == old(self).total_length + udp_of(protocol).playload.spec_payload().len() + 8,
            final(self).protocol == protocol,
            final(self).checksum == old(self).checksum,
            final(self).source_addr == old(self).source_addr,
            final(self).denst_addr == old(self).denst_addr,
    {
        let n = protocol.as_payload().len();
        self.total_length = self.total_length + n;
        self.protocol = protocol;
    }
}

/// Which way a captured frame went, seen from the capturing interface.
#[derive(Debug, Clone, Copy, PartialEq, Eq, Structural)]
pub enum PacketDirection {
    UnKnow,
    IN,
    OUT,
    LOOP,
}

/// An 802.1Q tag.
#[derive(Debug, Clone, Copy, PartialEq, Eq, Structural)]
pub struct VlanInfo {
    /// Tag Protocol Identifier, normally 0x8100
    tpid: u16,
    /// Tag Control Information: priority and VLAN id
    tci: u16,
}

/// The network-layer payload of an Ethernet frame, by EtherType.
#[derive(Debug)]
pub enum EthL3Type {
    Raw(u16, Vec<u8>),
    Ipv4(Box<Ipv4EthFrame>),
}

/// `t` is what `d` decodes to as the payload of EtherType `value`: IPv4
/// (0x0800) is decoded when it fits, anything else is kept raw.
pub open spec fn l3_decodes_from(t: EthL3Type, value: u16, d: Seq<u8>) -> bool {
    match t {
        EthL3Type::Ipv4(f) => value == 0x0800 && ipv4_decodes_from(*f, d),
        EthL3Type::Raw(v, raw) => v == value && raw@ == d && (value == 0x0800 ==> !ipv4_fits(d)),
    }
}

impl EthL3Type {
    /// Decode the payload of EtherType `value`.
    pub fn from_u16(value: u16, data: &[u8]) -> (r: EthL3Type)
        requires
            value == 0x0800 ==> ipv4_parse_safe(data@),
        ensures
            l3_decodes_from(r, value, data@),
    {
        if value == 0x0800 {
            if let Some(result) = Ipv4EthFrame::new(data) {
                return EthL3Type::Ipv4(Box::new(result));
            }
        }
        EthL3Type::Raw(value, vstd::slice::slice_to_vec(data))
    }
}

/// A captured Ethernet II frame.
#[derive(Debug)]
pub struct EthFram {
    pub dst_mac: MacAddr,
    pub src_mac: MacAddr,
    pub vlans: Option<Vec<VlanInfo>>,
    pub eth_type: EthL3Type,
    pub eth_len: Option<u16>,
    pub direction: PacketDirection,
}

/// The direction of a frame with these addresses, seen from `mac`.
pub open spec fn spec_direction(src: MacAddr, dst: MacAddr, mac: MacAddr) -> PacketDirection {
    if src == mac {
        if dst == mac {
            PacketDirection::LOOP
        } else {
            PacketDirection::OUT
        }
    } else if dst == mac {
        PacketDirection::IN
    } else {
        PacketDirection::UnKnow
    }
}

impl EthFram {
    /// Decode an Ethernet II frame captured on an interface with address
    /// `mac` (the all-zero address when unknown).
    pub fn new(data: &[u8], mac: Option<MacAddr>) -> (r: EthFram)
        requires
            data@.len() >= 14,
            spec_be16(data@[12], data@[13]) == 0x0800 ==> ipv4_parse_safe(data@.skip(14)),
        ensures
            r.dst_mac == crate::duid::mac_at(data@, 0),
            r.src_mac == crate::duid::mac_at(data@, 6),
            r.vlans is None,
            r.eth_len == Some(((data@.len() - 14) % 65536) as u16),
            r.direction == spec_direction(
                r.src_mac,
                r.dst_mac,
                match mac {
                    Some(m) => m,
                    None => MacAddr(0, 0, 0, 0, 0, 0),
                },
            ),
            l3_decodes_from(r.eth_type, spec_be16(data@[12], data@[13]), data@.skip(14)),
    {
        let length = data.len();
        let mac = match mac {
            Some(m) => m,
            None => MacAddr::new(0, 0, 0, 0, 0, 0),
        };
        let dst_mac = MacAddr(data[0], data[1], data[2], data[3], data[4], data[5]);
        let src_mac = MacAddr(data[6], data[7], data[8], data[9], data[10], data[11]);
        let direction = if src_mac == mac {
            if dst_mac == mac {
                PacketDirection::LOOP
            } else {
                PacketDirection::OUT
            }
        } else {
            if dst_mac == mac {
                PacketDirection::IN
            } else {
                PacketDirection::UnKnow
            }
        };
        let eth_type = be16(data[12], data[13]);
        let eth_len = Some(((length - 14) % 65536) as u16);
        let payload = &data[14..data.len()];
        assert(payload@ == data@.skip(14));
        let eth_type = EthL3Type::from_u16(eth_type, payload);
        EthFram { dst_mac, src_mac, vlans: None, eth_type, eth_len, direction }
    }
}

/// Seen from an interface with address `mac`, a frame it sent to another
/// host goes out, a frame another host sent to it comes in, a frame from
/// and to itself loops back, and a frame between two other hosts has no
/// direction.
pub proof fn law_frame_direction(src: MacAddr, dst: MacAddr, mac: MacAddr)
    ensures
        src == mac && dst != mac ==> spec_direction(src, dst, mac) == PacketDirection::OUT,
        dst == mac && src != mac ==> spec_direction(src, dst, mac) == PacketDirection::IN,
        src == mac && dst == mac ==> spec_direction(src, dst, mac) == PacketDirection::LOOP,
        src != mac && dst != mac ==> spec_direction(src, dst, mac) == PacketDirection::UnKnow,
        spec_direction(src, dst, mac) == PacketDirection::OUT ==> src == mac && dst != mac,
        spec_direction(src, dst, mac) == PacketDirection::IN ==> dst == mac && src != mac,
{
}

} // verus!
