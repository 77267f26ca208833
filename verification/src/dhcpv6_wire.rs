//! DHCPv6 messages on the wire. `dhcproto` decodes a client's bytes and
//! encodes the server's options; the parts the server reads are taken from
//! the bytes as plain values, and a reply is written as its type code, its
//! transaction id and its options in code order.
use vstd::prelude::*;

use dhcproto::v6::{DhcpOption, DhcpOptions, IAAddr, IAPrefix, Message, OptionCode, Status, StatusCode, IANA, IAPD};
use dhcproto::{Decodable, Decoder, Encodable, Encoder};
use vstd::utf8::encode_utf8;

use crate::clock::elapsed_secs;
use crate::dhcpv6_handler::{
    dhcpv6_outcome_ok, handle_dhcpv6_message_at, nothing_done, untouched,
    ClientIaNa, ClientIaPd, DhcpV6MessageType, Dhcpv6Outcome, Dhcpv6Reply, Dhcpv6Request,
    Dhcpv6Status, IaAddrOpt, IaPrefixOpt,
};
use crate::dhcpv6_pool::DHCPv6Server;
use crate::ipv6_prefix::{ICMPv6ConfigInfo, PdDelegationParent};

verus! {

/// `dhcproto` decodes a message from any four bytes or more: a type code,
/// a transaction id, and the options that decode (it stops at the first
/// one that does not).
pub open spec fn dhcpv6_decodes(bytes: Seq<u8>) -> bool {
    bytes.len() >= 4
}

/// The big-endian 16-bit number at `i` in `d`.
pub open spec fn be16_at(d: Seq<u8>, i: int) -> int {
    d[i] * 256 + d[i + 1]
}

/// At `i` stands an option header that `dhcproto` cannot read without an
/// arithmetic overflow: a status code shorter than its 2-byte code, or a
/// vendor class or vendor options option shorter than its 4-byte number.
pub open spec fn option_header_breaks_decoding(d: Seq<u8>, i: int) -> bool {
    let code = be16_at(d, i);
    let len = be16_at(d, i + 2);
    ||| code == 13 && len < 2
    ||| (code == 16 || code == 17) && len < 4
}

/// No option header that breaks decoding stands anywhere in `d` (options
/// nested in others are read from inner stretches of the same bytes).
pub open spec fn dhcpv6_decode_safe(d: Seq<u8>) -> bool {
    forall|i: int| 0 <= i && i + 4 <= d.len() ==> !#[trigger] option_header_breaks_decoding(d, i)
}

/// Whether `dhcpv6_decode_safe` holds of `bytes`.
pub fn check_decode_safe(bytes: &[u8]) -> (r: bool)
    ensures
        r == dhcpv6_decode_safe(bytes@),
{
    let mut i: usize = 0;
    while bytes.len() >= 4 && i <= bytes.len() - 4
        invariant
            i <= bytes@.len(),
            forall|j: int| 0 <= j < i && j + 4 <= bytes@.len() ==> !#[trigger] option_header_breaks_decoding(bytes@, j),
        decreases bytes@.len() - i,
    {
        let code: u32 = (bytes[i] as u32) * 256 + (bytes[i + 1] as u32);
        let len: u32 = (bytes[i + 2] as u32) * 256 + (bytes[i + 3] as u32);
        if (code == 13 && len < 2) || ((code == 16 || code == 17) && len < 4) {
            assert(option_header_breaks_decoding(bytes@, i as int));
            return false;
        }
        i += 1;
    }
    true
}

/// The body of the first client id option of the message `bytes` decode to.
pub uninterp spec fn dhcpv6_client_id(bytes: Seq<u8>) -> Option<Seq<u8>>;

/// The body of the first server id option of the message `bytes` decode to.
pub uninterp spec fn dhcpv6_server_id(bytes: Seq<u8>) -> Option<Seq<u8>>;

/// The id of the first IA_NA option of the message `bytes` decode to, and
/// for each of its IA address options the address (none where it is not
/// one).
pub uninterp spec fn dhcpv6_iana(bytes: Seq<u8>) -> Option<(u32, Seq<Option<u128>>)>;

/// The id of the first IA_PD option of the message `bytes` decode to, and
/// for each of its IA prefix options the prefix and length.
pub uninterp spec fn dhcpv6_iapd(bytes: Seq<u8>) -> Option<(u32, Seq<Option<(u128, u8)>>)>;

/// A byte string, if any, by its view.
pub open spec fn opt_bytes(v: Option<Vec<u8>>) -> Option<Seq<u8>> {
    match v {
        Some(b) => Some(b@),
        None => None,
    }
}

/// An IA's id and items, if any, by the view of the items.
pub open spec fn opt_items<T>(v: Option<(u32, Vec<T>)>) -> Option<(u32, Seq<T>)> {
    match v {
        Some((id, items)) => Some((id, items@)),
        None => None,
    }
}

/// The client id of the message `bytes` decode to
/// (`Message::decode`, then `DhcpOptions::get` with `OptionCode::ClientId`).
/// Decoding does not overflow on bytes that `dhcpv6_decode_safe` admits.
#[verifier::external_body]
fn decoded_client_id(bytes: &[u8]) -> (r: Option<Vec<u8>>)
    requires
        dhcpv6_decode_safe(bytes@),
    ensures
        opt_bytes(r) == dhcpv6_client_id(bytes@),
{
    match Message::decode(&mut Decoder::new(bytes)) {
        Ok(m) => match m.opts().get(OptionCode::ClientId) {
            Some(DhcpOption::ClientId(d)) => Some(d.clone()),
            _ => None,
        },
        Err(_) => None,
    }
}

/// The server id of the message `bytes` decode to
/// (`Message::decode`, then `DhcpOptions::get` with `OptionCode::ServerId`).
#[verifier::external_body]
fn decoded_server_id(bytes: &[u8]) -> (r: Option<Vec<u8>>)
    requires
        dhcpv6_decode_safe(bytes@),
    ensures
        opt_bytes(r) == dhcpv6_server_id(bytes@),
{
    match Message::decode(&mut Decoder::new(bytes)) {
        Ok(m) => match m.opts().get(OptionCode::ServerId) {
            Some(DhcpOption::ServerId(d)) => Some(d.clone()),
            _ => None,
        },
        Err(_) => None,
    }
}

/// The IA_NA of the message `bytes` decode to (`Message::decode`,
/// `DhcpOptions::get` with `OptionCode::IANA`, then `get_all` with
/// `OptionCode::IAAddr` on its options), each option read as its address.
#[verifier::external_body]
fn decoded_iana(bytes: &[u8]) -> (r: Option<(u32, Vec<Option<u128>>)>)
    requires
        dhcpv6_decode_safe(bytes@),
    ensures
        opt_items(r) == dhcpv6_iana(bytes@),
{
    let m = Message::decode(&mut Decoder::new(bytes)).ok()?;
    match m.opts().get(OptionCode::IANA) {
        Some(DhcpOption::IANA(ia)) => Some((ia.id, match ia.opts.get_all(OptionCode::IAAddr) {
            Some(all) => all.iter().map(|o| match o {
                DhcpOption::IAAddr(a) => Some(u128::from(a.addr)),
                _ => None,
            }).collect(),
            None => Vec::new(),
        })),
        _ => None,
    }
}

/// The IA_PD of the message `bytes` decode to (`Message::decode`,
/// `DhcpOptions::get` with `OptionCode::IAPD`, then `get_all` with
/// `OptionCode::IAPrefix` on its options), each option read as its prefix.
#[verifier::external_body]
fn decoded_iapd(bytes: &[u8]) -> (r: Option<(u32, Vec<Option<(u128, u8)>>)>)
    requires
        dhcpv6_decode_safe(bytes@),
    ensures
        opt_items(r) == dhcpv6_iapd(bytes@),
{
    let m = Message::decode(&mut Decoder::new(bytes)).ok()?;
    match m.opts().get(OptionCode::IAPD) {
        Some(DhcpOption::IAPD(ia)) => Some((ia.id, match ia.opts.get_all(OptionCode::IAPrefix) {
            Some(all) => all.iter().map(|o| match o {
                DhcpOption::IAPrefix(p) => Some((u128::from(p.prefix_ip), p.prefix_len)),
                _ => None,
            }).collect(),
            None => Vec::new(),
        })),
        _ => None,
    }
}

/// The message type that a type code names (RFC 8415, section 7.3).
pub open spec fn message_type_named(c: u8) -> DhcpV6MessageType {
    if c == 1 {
        DhcpV6MessageType::Solicit
    } else if c == 2 {
        DhcpV6MessageType::Advertise
    } else if c == 3 {
        DhcpV6MessageType::Request
    } else if c == 4 {
        DhcpV6MessageType::Confirm
    } else if c == 5 {
        DhcpV6MessageType::Renew
    } else if c == 6 {
        DhcpV6MessageType::Rebind
    } else if c == 7 {
        DhcpV6MessageType::Reply
    } else if c == 8 {
        DhcpV6MessageType::Release
    } else if c == 9 {
        DhcpV6MessageType::Decline
    } else if c == 10 {
        DhcpV6MessageType::Reconfigure
    } else if c == 11 {
        DhcpV6MessageType::InformationRequest
    } else if c == 12 {
        DhcpV6MessageType::RelayForw
    } else if c == 13 {
        DhcpV6MessageType::RelayRepl
    } else {
        DhcpV6MessageType::Other(c)
    }
}

/// The message type that a type code names.
pub fn message_type_of_code(c: u8) -> (r: DhcpV6MessageType)
    ensures
        r == message_type_named(c),
{
    match c {
        1 => DhcpV6MessageType::Solicit,
        2 => DhcpV6MessageType::Advertise,
        3 => DhcpV6MessageType::Request,
        4 => DhcpV6MessageType::Confirm,
        5 => DhcpV6MessageType::Renew,
        6 => DhcpV6MessageType::Rebind,
        7 => DhcpV6MessageType::Reply,
        8 => DhcpV6MessageType::Release,
        9 => DhcpV6MessageType::Decline,
        10 => DhcpV6MessageType::Reconfigure,
        11 => DhcpV6MessageType::InformationRequest,
        12 => DhcpV6MessageType::RelayForw,
        13 => DhcpV6MessageType::RelayRepl,
        _ => DhcpV6MessageType::Other(c),
    }
}

/// The values among `s` that are there, in order.
pub open spec fn somes<T>(s: Seq<Option<T>>) -> Seq<T>
    decreases s.len(),
{
    if s.len() == 0 {
        Seq::empty()
    } else {
        let r = somes(s.drop_last());
        match s.last() {
            Some(x) => r.push(x),
            None => r,
        }
    }
}

/// The values among `v` that are there, in order.
fn keep_somes<T: Copy>(v: &Vec<Option<T>>) -> (r: Vec<T>)
    ensures
        r@ == somes(v@),
{
    let mut out: Vec<T> = Vec::new();
    let mut i: usize = 0;
    while i < v.len()
        invariant
            i <= v@.len(),
            out@ == somes(v@.subrange(0, i as int)),
        decreases v@.len() - i,
    {
        assert(v@.subrange(0, i + 1).drop_last() =~= v@.subrange(0, i as int));
        match v[i] {
            Some(x) => out.push(x),
            None => {},
        }
        i += 1;
    }
    assert(v@.subrange(0, v@.len() as int) =~= v@);
    out
}

/// `q` is the request read from the bytes of a message received from
/// `peer`: its type is the first byte, its transaction id the next three,
/// and its ids, IA_NA addresses and IA_PD prefixes those `dhcproto`
/// decodes.
pub open spec fn decoded_request_is(q: Dhcpv6Request, bytes: Seq<u8>, peer: u128) -> bool {
    &&& q.msg_type == message_type_named(bytes[0])
    &&& q.xid@ == bytes.subrange(1, 4)
    &&& opt_bytes(q.client_id) == dhcpv6_client_id(bytes)
    &&& opt_bytes(q.server_id) == dhcpv6_server_id(bytes)
    &&& match dhcpv6_iana(bytes) {
        Some((id, items)) => q.iana matches Some(ia) && ia.id == id && ia.addrs@ == somes(items),
        None => q.iana is None,
    }
    &&& match dhcpv6_iapd(bytes) {
        Some((id, items)) => q.iapd matches Some(ia) && ia.id == id && ia.prefixes@ == somes(items),
        None => q.iapd is None,
    }
    &&& q.peer_addr == peer
}

/// Decodes a client message received from `peer`. There is a request
/// exactly where the bytes decode without an overflow in the decoder, and
/// it is the one `decoded_request_is` describes.
pub fn decode_dhcpv6_request(bytes: &[u8], peer: u128) -> (r: Option<Dhcpv6Request>)
    ensures
        r is Some <==> dhcpv6_decodes(bytes@) && dhcpv6_decode_safe(bytes@),
        r matches Some(q) ==> decoded_request_is(q, bytes@, peer),
{
    if bytes.len() < 4 || !check_decode_safe(bytes) {
        return None;
    }
    let msg_type = message_type_of_code(bytes[0]);
    let xid: [u8; 3] = [bytes[1], bytes[2], bytes[3]];
    assert(xid@ =~= bytes@.subrange(1, 4));
    let iana = match decoded_iana(bytes) {
        Some((id, items)) => Some(ClientIaNa { id, addrs: keep_somes(&items) }),
        None => None,
    };
    let iapd = match decoded_iapd(bytes) {
        Some((id, items)) => Some(ClientIaPd { id, prefixes: keep_somes(&items) }),
        None => None,
    };
    Some(
        Dhcpv6Request {
            msg_type,
            xid,
            client_id: decoded_client_id(bytes),
            server_id: decoded_server_id(bytes),
            iana,
            iapd,
            peer_addr: peer,
        },
    )
}

/// Answers the bytes of a client message from `peer` at `now`: bytes that
/// do not decode, or that would overflow the decoder, get no answer and
/// change nothing; a message that decodes is answered as
/// `handle_dhcpv6_message_at` answers the request read from it.
pub fn handle_dhcpv6_bytes_at(
    server: &mut DHCPv6Server,
    now: u64,
    server_duid: &[u8],
    bytes: &[u8],
    peer: u128,
    runtime_sources: &[Option<ICMPv6ConfigInfo>],
    static_infos: &[ICMPv6ConfigInfo],
    pd_delegation_static: &[PdDelegationParent],
    pd_delegation_dynamic: &[Option<PdDelegationParent>],
    link_local: u128,
) -> (r: Dhcpv6Outcome)
    requires
        old(server).wf(),
    ensures
        final(server).wf(),
        final(server).same_setup(old(server)),
        !(dhcpv6_decodes(bytes@) && dhcpv6_decode_safe(bytes@)) ==> nothing_done(r) && untouched(
            *old(server),
            *final(server),
        ),
        dhcpv6_decodes(bytes@) && dhcpv6_decode_safe(bytes@) ==> exists|req: Dhcpv6Request|
            decoded_request_is(req, bytes@, peer) && #[trigger] dhcpv6_outcome_ok(
                *old(server),
                *final(server),
                now,
                server_duid@,
                req,
                runtime_sources@,
                static_infos@,
                pd_delegation_static@,
                pd_delegation_dynamic@,
                link_local,
                r,
            ),
{
    match decode_dhcpv6_request(bytes, peer) {
        None => Dhcpv6Outcome { reply: None, need_update: false, pd_routes: None, released_pd: None },
        Some(req) => handle_dhcpv6_message_at(
            server,
            now,
            server_duid,
            &req,
            runtime_sources,
            static_infos,
            pd_delegation_static,
            pd_delegation_dynamic,
            link_local,
        ),
    }
}

/// Answers the bytes of a client message from `peer` by the server's
/// clock: what `handle_dhcpv6_bytes_at` does at the time the clock gave.
pub fn handle_dhcpv6_bytes(
    server: &mut DHCPv6Server,
    server_duid: &[u8],
    bytes: &[u8],
    peer: u128,
    runtime_sources: &[Option<ICMPv6ConfigInfo>],
    static_infos: &[ICMPv6ConfigInfo],
    pd_delegation_static: &[PdDelegationParent],
    pd_delegation_dynamic: &[Option<PdDelegationParent>],
    link_local: u128,
) -> (r: Dhcpv6Outcome)
    requires
        old(server).wf(),
    ensures
        final(server).wf(),
        final(server).same_setup(old(server)),
        !(dhcpv6_decodes(bytes@) && dhcpv6_decode_safe(bytes@)) ==> nothing_done(r) && untouched(
            *old(server),
            *final(server),
        ),
        dhcpv6_decodes(bytes@) && dhcpv6_decode_safe(bytes@) ==> exists|now: u64, req: Dhcpv6Request|
            decoded_request_is(req, bytes@, peer) && #[trigger] dhcpv6_outcome_ok(
                *old(server),
                *final(server),
                now,
                server_duid@,
                req,
                runtime_sources@,
                static_infos@,
                pd_delegation_static@,
                pd_delegation_dynamic@,
                link_local,
                r,
            ),
{
    let now = elapsed_secs(&server.relative_boot_time);
    handle_dhcpv6_bytes_at(
        server,
        now,
        server_duid,
        bytes,
        peer,
        runtime_sources,
        static_infos,
        pd_delegation_static,
        pd_delegation_dynamic,
        link_local,
    )
}

/// The bytes `dhcproto` writes for a client id option with body `duid`.
pub uninterp spec fn dhcpv6_client_id_option(duid: Seq<u8>) -> Seq<u8>;

/// The bytes `dhcproto` writes for a server id option with body `duid`.
pub uninterp spec fn dhcpv6_server_id_option(duid: Seq<u8>) -> Seq<u8>;

/// The bytes `dhcproto` writes for a preference option.
pub uninterp spec fn dhcpv6_preference_option(p: u8) -> Seq<u8>;

/// The bytes `dhcproto` writes for a status code option of status number
/// `code` and message bytes `msg`.
pub uninterp spec fn dhcpv6_status_option(code: u16, msg: Seq<u8>) -> Seq<u8>;

/// The bytes `dhcproto` writes for an IA_NA option holding an IA address
/// option per item of `addrs` and a status code option.
pub uninterp spec fn dhcpv6_iana_option(
    id: u32,
    t1: u32,
    t2: u32,
    addrs: Seq<IaAddrOpt>,
    code: u16,
    msg: Seq<u8>,
) -> Seq<u8>;

/// The bytes `dhcproto` writes for an IA_PD option holding an IA prefix
/// option per item of `prefixes` and a status code option.
pub uninterp spec fn dhcpv6_iapd_option(
    id: u32,
    t1: u32,
    t2: u32,
    prefixes: Seq<IaPrefixOpt>,
    code: u16,
    msg: Seq<u8>,
) -> Seq<u8>;

/// The bytes `dhcproto` writes for a DNS servers option listing `addrs`.
pub uninterp spec fn dhcpv6_dns_option(addrs: Seq<u128>) -> Seq<u8>;

/// `DhcpOption::ClientId(duid)` encoded (`Encodable::encode` into a vector
/// never fails; a client id writes its length cut to 16 bits).
#[verifier::external_body]
fn encode_client_id_option(duid: &[u8]) -> (r: Vec<u8>)
    ensures
        r@ == dhcpv6_client_id_option(duid@),
{
    let mut buf = Vec::new();
    let _ = DhcpOption::ClientId(duid.to_vec()).encode(&mut Encoder::new(&mut buf));
    buf
}

/// `DhcpOption::ServerId(duid)` encoded.
#[verifier::external_body]
fn encode_server_id_option(duid: &[u8]) -> (r: Vec<u8>)
    ensures
        r@ == dhcpv6_server_id_option(duid@),
{
    let mut buf = Vec::new();
    let _ = DhcpOption::ServerId(duid.to_vec()).encode(&mut Encoder::new(&mut buf));
    buf
}

/// `DhcpOption::Preference(p)` encoded.
#[verifier::external_body]
fn encode_preference_option(p: u8) -> (r: Vec<u8>)
    ensures
        r@ == dhcpv6_preference_option(p),
{
    let mut buf = Vec::new();
    let _ = DhcpOption::Preference(p).encode(&mut Encoder::new(&mut buf));
    buf
}

/// A status code option encoded; its 16-bit length `2 + msg.len()` is
/// computed without overflow for messages under 65534 bytes.
#[verifier::external_body]
fn encode_status_option(code: u16, msg: &str) -> (r: Vec<u8>)
    requires
        byte_len(msg@) < 65534,
    ensures
        r@ == dhcpv6_status_option(code, encode_utf8(msg@)),
{
    let mut buf = Vec::new();
    let o = DhcpOption::StatusCode(StatusCode { status: Status::from(code), msg: msg.to_string() });
    let _ = o.encode(&mut Encoder::new(&mut buf));
    buf
}

/// An IA_NA option encoded, its addresses each an IA address option (28
/// bytes) and then a status code option (6 bytes and the message); the
/// 16-bit length `12 + body` is computed without overflow for bodies up to
/// 65523 bytes.
#[verifier::external_body]
fn encode_iana_option(id: u32, t1: u32, t2: u32, addrs: &[IaAddrOpt], code: u16, msg: &str) -> (r: Vec<u8>)
    requires
        28 * addrs@.len() + 6 + byte_len(msg@) <= 65523,
    ensures
        r@ == dhcpv6_iana_option(id, t1, t2, addrs@, code, encode_utf8(msg@)),
{
    let mut opts: DhcpOptions = addrs.iter().map(|a| DhcpOption::IAAddr(IAAddr {
        addr: core::net::Ipv6Addr::from(a.addr), preferred_life: a.preferred_life,
        valid_life: a.valid_life, opts: DhcpOptions::new(),
    })).collect();
    opts.insert(DhcpOption::StatusCode(StatusCode { status: Status::from(code), msg: msg.to_string() }));
    let mut buf = Vec::new();
    let _ = DhcpOption::IANA(IANA { id, t1, t2, opts }).encode(&mut Encoder::new(&mut buf));
    buf
}

/// An IA_PD option encoded, its prefixes each an IA prefix option (29
/// bytes) and then a status code option; the 16-bit length is computed
/// without overflow for bodies up to 65523 bytes.
#[verifier::external_body]
fn encode_iapd_option(id: u32, t1: u32, t2: u32, prefixes: &[IaPrefixOpt], code: u16, msg: &str) -> (r: Vec<u8>)
    requires
        29 * prefixes@.len() + 6 + byte_len(msg@) <= 65523,
    ensures
        r@ == dhcpv6_iapd_option(id, t1, t2, prefixes@, code, encode_utf8(msg@)),
{
    let mut opts: DhcpOptions = prefixes.iter().map(|p| DhcpOption::IAPrefix(IAPrefix {
        preferred_lifetime: p.preferred_lifetime, valid_lifetime: p.valid_lifetime,
        prefix_len: p.prefix_len, prefix_ip: core::net::Ipv6Addr::from(p.prefix_ip), opts: DhcpOptions::new(),
    })).collect();
    opts.insert(DhcpOption::StatusCode(StatusCode { status: Status::from(code), msg: msg.to_string() }));
    let mut buf = Vec::new();
    let _ = DhcpOption::IAPD(IAPD { id, t1, t2, opts }).encode(&mut Encoder::new(&mut buf));
    buf
}

/// A DNS servers option encoded; its 16-bit length `16 * count` is
/// computed without overflow for fewer than 4096 addresses.
#[verifier::external_body]
fn encode_dns_option(addrs: &[u128]) -> (r: Vec<u8>)
    requires
        addrs@.len() < 4096,
    ensures
        r@ == dhcpv6_dns_option(addrs@),
{
    let o = DhcpOption::DomainNameServers(addrs.iter().map(|a| core::net::Ipv6Addr::from(*a)).collect());
    let mut buf = Vec::new();
    let _ = o.encode(&mut Encoder::new(&mut buf));
    buf
}

/// The type code of a message type (RFC 8415, section 7.3).
pub open spec fn message_code_spec(t: DhcpV6MessageType) -> u8 {
    match t {
        DhcpV6MessageType::Solicit => 1,
        DhcpV6MessageType::Advertise => 2,
        DhcpV6MessageType::Request => 3,
        DhcpV6MessageType::Confirm => 4,
        DhcpV6MessageType::Renew => 5,
        DhcpV6MessageType::Rebind => 6,
        DhcpV6MessageType::Reply => 7,
        DhcpV6MessageType::Release => 8,
        DhcpV6MessageType::Decline => 9,
        DhcpV6MessageType::Reconfigure => 10,
        DhcpV6MessageType::InformationRequest => 11,
        DhcpV6MessageType::RelayForw => 12,
        DhcpV6MessageType::RelayRepl => 13,
        DhcpV6MessageType::Other(c) => c,
    }
}

/// The type code of a message type.
pub fn message_type_code_of(t: DhcpV6MessageType) -> (r: u8)
    ensures
        r == message_code_spec(t),
        message_type_named(r) == t || t is Other,
{
    match t {
        DhcpV6MessageType::Solicit => 1,
        DhcpV6MessageType::Advertise => 2,
        DhcpV6MessageType::Request => 3,
        DhcpV6MessageType::Confirm => 4,
        DhcpV6MessageType::Renew => 5,
        DhcpV6MessageType::Rebind => 6,
        DhcpV6MessageType::Reply => 7,
        DhcpV6MessageType::Release => 8,
        DhcpV6MessageType::Decline => 9,
        DhcpV6MessageType::Reconfigure => 10,
        DhcpV6MessageType::InformationRequest => 11,
        DhcpV6MessageType::RelayForw => 12,
        DhcpV6MessageType::RelayRepl => 13,
        DhcpV6MessageType::Other(c) => c,
    }
}

/// The status number of a status (RFC 8415, section 21.13).
pub fn status_number(s: Dhcpv6Status) -> (r: u16)
    ensures
        r == match s {
            Dhcpv6Status::Success => 0u16,
            Dhcpv6Status::NotOnLink => 4u16,
        },
{
    match s {
        Dhcpv6Status::Success => 0,
        Dhcpv6Status::NotOnLink => 4,
    }
}

/// The length in bytes of a string's UTF-8 form, as its `len` gives it.
pub open spec fn byte_len(s: Seq<char>) -> usize {
    encode_utf8(s).len() as usize
}

/// The status number of a status.
pub open spec fn status_code_of(s: Dhcpv6Status) -> u16 {
    match s {
        Dhcpv6Status::Success => 0u16,
        Dhcpv6Status::NotOnLink => 4u16,
    }
}

/// The reply can be encoded without an overflow in the encoder: status
/// messages under 65534 bytes, IA bodies up to 65523 bytes, fewer than
/// 4096 DNS servers.
pub open spec fn reply_encodable(r: Dhcpv6Reply) -> bool {
    &&& r.status matches Some(st) ==> byte_len(st.msg@) < 65534
    &&& r.iana matches Some(ia) ==> 28 * ia.addrs@.len() + 6 + byte_len(ia.status.msg@) <= 65523
    &&& r.iapd matches Some(ia) ==> 29 * ia.prefixes@.len() + 6 + byte_len(ia.status.msg@) <= 65523
    &&& r.dns matches Some(d) ==> d@.len() < 4096
}

/// The bytes of a reply: its type code, its transaction id, then its
/// options in code order (client id 1, server id 2, IA_NA 3, preference 7,
/// status code 13, DNS servers 23, IA_PD 25), as `Message::encode` writes a
/// message whose options `DhcpOptions::insert` keeps in that order.
pub open spec fn reply_bytes(r: Dhcpv6Reply) -> Seq<u8> {
    seq![message_code_spec(r.msg_type)] + r.xid@ + dhcpv6_client_id_option(r.client_id@)
        + dhcpv6_server_id_option(r.server_id@) + match r.iana {
        Some(ia) => dhcpv6_iana_option(
            ia.id,
            ia.t1,
            ia.t2,
            ia.addrs@,
            status_code_of(ia.status.status),
            encode_utf8(ia.status.msg@),
        ),
        None => Seq::empty(),
    } + match r.preference {
        Some(p) => dhcpv6_preference_option(p),
        None => Seq::empty(),
    } + match r.status {
        Some(st) => dhcpv6_status_option(status_code_of(st.status), encode_utf8(st.msg@)),
        None => Seq::empty(),
    } + match r.dns {
        Some(d) => dhcpv6_dns_option(d@),
        None => Seq::empty(),
    } + match r.iapd {
        Some(ia) => dhcpv6_iapd_option(
            ia.id,
            ia.t1,
            ia.t2,
            ia.prefixes@,
            status_code_of(ia.status.status),
            encode_utf8(ia.status.msg@),
        ),
        None => Seq::empty(),
    }
}

/// Appends `b` to `out`.
fn append_bytes(out: &mut Vec<u8>, b: &Vec<u8>)
    ensures
        final(out)@ == old(out)@ + b@,
{
    let ghost start = out@;
    let mut i: usize = 0;
    while i < b.len()
        invariant
            i <= b@.len(),
            out@ == start + b@.subrange(0, i as int),
        decreases b@.len() - i,
    {
        out.push(b[i]);
        i += 1;
        assert(out@ =~= start + b@.subrange(0, i as int));
    }
    assert(b@.subrange(0, b@.len() as int) =~= b@);
}

/// The byte length of a string.
fn str_byte_len(s: &str) -> (r: usize)
    ensures
        r == byte_len(s@),
{
    s.len()
}

/// Encodes a reply of the server: the bytes `reply_bytes` gives, or
/// nothing where a length would overflow the encoder.
pub fn encode_dhcpv6_reply(reply: &Dhcpv6Reply) -> (r: Option<Vec<u8>>)
    ensures
        reply_encodable(*reply) ==> (r matches Some(b) && b@ == reply_bytes(*reply)),
        !reply_encodable(*reply) ==> r is None,
{
    if let Some(st) = &reply.status {
        if str_byte_len(st.msg.as_str()) >= 65534 {
            return None;
        }
    }
    if let Some(ia) = &reply.iana {
        let n = ia.addrs.len();
        let m = str_byte_len(ia.status.msg.as_str());
        if n > 3000 || m > 65523 || 28 * n + 6 + m > 65523 {
            return None;
        }
    }
    if let Some(ia) = &reply.iapd {
        let n = ia.prefixes.len();
        let m = str_byte_len(ia.status.msg.as_str());
        if n > 3000 || m > 65523 || 29 * n + 6 + m > 65523 {
            return None;
        }
    }
    if let Some(d) = &reply.dns {
        if d.len() >= 4096 {
            return None;
        }
    }
    let mut out: Vec<u8> = Vec::new();
    out.push(message_type_code_of(reply.msg_type));
    out.push(reply.xid[0]);
    out.push(reply.xid[1]);
    out.push(reply.xid[2]);
    assert(out@ =~= seq![message_code_spec(reply.msg_type)] + reply.xid@);
    append_bytes(&mut out, &encode_client_id_option(reply.client_id.as_slice()));
    append_bytes(&mut out, &encode_server_id_option(reply.server_id.as_slice()));
    let ia_na = match &reply.iana {
        Some(ia) => encode_iana_option(
            ia.id,
            ia.t1,
            ia.t2,
            ia.addrs.as_slice(),
            status_number(ia.status.status),
            ia.status.msg.as_str(),
        ),
        None => Vec::new(),
    };
    append_bytes(&mut out, &ia_na);
    let pref = match reply.preference {
        Some(p) => encode_preference_option(p),
        None => Vec::new(),
    };
    append_bytes(&mut out, &pref);
    let status = match &reply.status {
        Some(st) => encode_status_option(status_number(st.status), st.msg.as_str()),
        None => Vec::new(),
    };
    append_bytes(&mut out, &status);
    let dns = match &reply.dns {
        Some(d) => encode_dns_option(d.as_slice()),
        None => Vec::new(),
    };
    append_bytes(&mut out, &dns);
    let ia_pd = match &reply.iapd {
        Some(ia) => encode_iapd_option(
            ia.id,
            ia.t1,
            ia.t2,
            ia.prefixes.as_slice(),
            status_number(ia.status.status),
            ia.status.msg.as_str(),
        ),
        None => Vec::new(),
    };
    append_bytes(&mut out, &ia_pd);
    assert(out@ =~= reply_bytes(*reply));
    Some(out)
}

/// Type codes are read by RFC 8415's table (section 7.3): 1 SOLICIT,
/// 2 ADVERTISE, 3 REQUEST, 4 CONFIRM, 5 RENEW, 6 REBIND, 7 REPLY,
/// 8 RELEASE, 9 DECLINE, 10 RECONFIGURE, 11 INFORMATION-REQUEST,
/// 12 RELAY-FORW, 13 RELAY-REPL; every other code is kept as it is. Each
/// named type is read from exactly its code.
pub proof fn law_type_codes_follow_rfc8415(c: u8)
    ensures
        message_type_named(c) == DhcpV6MessageType::Solicit <==> c == 1,
        message_type_named(c) == DhcpV6MessageType::Advertise <==> c == 2,
        message_type_named(c) == DhcpV6MessageType::Request <==> c == 3,
        message_type_named(c) == DhcpV6MessageType::Confirm <==> c == 4,
        message_type_named(c) == DhcpV6MessageType::Renew <==> c == 5,
        message_type_named(c) == DhcpV6MessageType::Rebind <==> c == 6,
        message_type_named(c) == DhcpV6MessageType::Reply <==> c == 7,
        message_type_named(c) == DhcpV6MessageType::Release <==> c == 8,
        message_type_named(c) == DhcpV6MessageType::Decline <==> c == 9,
        message_type_named(c) == DhcpV6MessageType::Reconfigure <==> c == 10,
        message_type_named(c) == DhcpV6MessageType::InformationRequest <==> c == 11,
        message_type_named(c) == DhcpV6MessageType::RelayForw <==> c == 12,
        message_type_named(c) == DhcpV6MessageType::RelayRepl <==> c == 13,
        c == 0 || c > 13 ==> message_type_named(c) == DhcpV6MessageType::Other(c),
{
}

/// Writing a message type gives its RFC 8415 code, and a code of another
/// type is written as it is: reading back what was written gives the
/// type again.
pub proof fn law_type_written_as_rfc8415_code(t: DhcpV6MessageType)
    ensures
        t == DhcpV6MessageType::Solicit ==> message_code_spec(t) == 1,
        t == DhcpV6MessageType::Advertise ==> message_code_spec(t) == 2,
        t == DhcpV6MessageType::Request ==> message_code_spec(t) == 3,
        t == DhcpV6MessageType::Confirm ==> message_code_spec(t) == 4,
        t == DhcpV6MessageType::Renew ==> message_code_spec(t) == 5,
        t == DhcpV6MessageType::Rebind ==> message_code_spec(t) == 6,
        t == DhcpV6MessageType::Reply ==> message_code_spec(t) == 7,
        t == DhcpV6MessageType::Release ==> message_code_spec(t) == 8,
        t == DhcpV6MessageType::Decline ==> message_code_spec(t) == 9,
        t == DhcpV6MessageType::Reconfigure ==> message_code_spec(t) == 10,
        t == DhcpV6MessageType::InformationRequest ==> message_code_spec(t) == 11,
        t == DhcpV6MessageType::RelayForw ==> message_code_spec(t) == 12,
        t == DhcpV6MessageType::RelayRepl ==> message_code_spec(t) == 13,
        !(t is Other) ==> message_type_named(message_code_spec(t)) == t,
{
}

/// A message whose first byte is 8 is read as a RELEASE and one whose
/// first byte is 9 as a DECLINE; the first byte of a written reply is the
/// RFC 8415 code of its type.
pub proof fn law_release_and_decline_on_the_wire(q: Dhcpv6Request, bytes: Seq<u8>, peer: u128, r: Dhcpv6Reply)
    requires
        decoded_request_is(q, bytes, peer),
    ensures
        bytes[0] == 8 ==> q.msg_type == DhcpV6MessageType::Release,
        bytes[0] == 9 ==> q.msg_type == DhcpV6MessageType::Decline,
        q.msg_type == DhcpV6MessageType::Release ==> bytes[0] == 8,
        q.msg_type == DhcpV6MessageType::Decline ==> bytes[0] == 9,
        r.msg_type == DhcpV6MessageType::Reply ==> reply_bytes(r)[0] == 7,
        r.msg_type == DhcpV6MessageType::Advertise ==> reply_bytes(r)[0] == 2,
{
    law_type_codes_follow_rfc8415(bytes[0]);
}

} // verus!
