use vstd::prelude::*;

verus! {

/// A 48-bit Ethernet hardware address.
#[derive(Clone, Copy, Debug, PartialEq, Eq, Structural, Hash)]
pub struct MacAddr(pub u8, pub u8, pub u8, pub u8, pub u8, pub u8);

impl MacAddr {
    /// The six octets, most significant first.
    pub open spec fn octets_seq(self) -> Seq<u8> {
        seq![self.0, self.1, self.2, self.3, self.4, self.5]
    }

    /// The address read as a 48-bit big-endian number.
    pub open spec fn as_nat(self) -> nat {
        ((((self.0 as nat * 256 + self.1 as nat) * 256 + self.2 as nat) * 256 + self.3 as nat)
            * 256 + self.4 as nat) * 256 + self.5 as nat
    }

    pub fn new(a: u8, b: u8, c: u8, d: u8, e: u8, f: u8) -> (r: MacAddr)
        ensures
            r == MacAddr(a, b, c, d, e, f),
    {
        MacAddr(a, b, c, d, e, f)
    }

    pub fn octets(&self) -> (r: [u8; 6])
        ensures
            r@ == self.octets_seq(),
    {
        let r = [self.0, self.1, self.2, self.3, self.4, self.5];
        assert(r@ =~= self.octets_seq());
        r
    }

    /// The six octets in a vector.
    pub fn octets_vec(&self) -> (r: Vec<u8>)
        ensures
            r@ == self.octets_seq(),
    {
        let r = vec![self.0, self.1, self.2, self.3, self.4, self.5];
        assert(r@ =~= self.octets_seq());
        r
    }

    /// The address as an integer key (48 significant bits).
    pub fn to_u64(&self) -> (r: u64)
        ensures
            r as nat == self.as_nat(),
    {
        let r = (((((self.0 as u64) * 256 + self.1 as u64) * 256 + self.2 as u64) * 256
            + self.3 as u64) * 256 + self.4 as u64) * 256 + self.5 as u64;
        r
    }
}

impl From<[u8; 6]> for MacAddr {
    fn from(o: [u8; 6]) -> (r: MacAddr) {
        MacAddr(o[0], o[1], o[2], o[3], o[4], o[5])
    }
}

impl vstd::std_specs::convert::FromSpecImpl<[u8; 6]> for MacAddr {
    open spec fn obeys_from_spec() -> bool {
        true
    }

    open spec fn from_spec(o: [u8; 6]) -> MacAddr {
        MacAddr(o@[0], o@[1], o@[2], o@[3], o@[4], o@[5])
    }
}

/// DUID-LL (type 3, hardware type Ethernet) built from a MAC address.
pub open spec fn spec_server_duid(mac: MacAddr) -> Seq<u8> {
    seq![0u8, 3u8, 0u8, 1u8] + mac.octets_seq()
}

/// Generate DUID-LL (type 3) from MAC address
pub fn gen_server_duid(mac: &MacAddr) -> (duid: Vec<u8>)
    ensures
        duid@ == spec_server_duid(*mac),
{
    let mut duid: Vec<u8> = Vec::with_capacity(10);
    duid.push(0x00);
    duid.push(0x03);
    duid.push(0x00);
    duid.push(0x01);
    duid.push(mac.0);
    duid.push(mac.1);
    duid.push(mac.2);
    duid.push(mac.3);
    duid.push(mac.4);
    duid.push(mac.5);
    assert(duid@ =~= spec_server_duid(*mac));
    duid
}

/// The MAC address six octets starting at `at`.
pub open spec fn mac_at(d: Seq<u8>, at: int) -> MacAddr {
    MacAddr(d[at], d[at + 1], d[at + 2], d[at + 3], d[at + 4], d[at + 5])
}

/// The MAC address a client DUID carries, if its type says where it is:
/// DUID-LLT (type 1) holds it at offset 8, DUID-LL (type 3) at offset 4.
pub open spec fn spec_mac_from_duid(d: Seq<u8>) -> Option<MacAddr> {
    if d.len() < 4 {
        None
    } else if d[0] == 0 && d[1] == 1 {
        if d.len() >= 14 { Some(mac_at(d, 8)) } else { None }
    } else if d[0] == 0 && d[1] == 3 {
        if d.len() >= 10 { Some(mac_at(d, 4)) } else { None }
    } else {
        None
    }
}

/// Extract MAC address from client DUID
pub fn extract_mac_from_duid(duid: &[u8]) -> (r: Option<MacAddr>)
    ensures
        r == spec_mac_from_duid(duid@),
{
    if duid.len() < 4 {
        return None;
    }
    if duid[0] == 0 && duid[1] == 1 {
        if duid.len() >= 14 {
            Some(MacAddr(duid[8], duid[9], duid[10], duid[11], duid[12], duid[13]))
        } else {
            None
        }
    } else if duid[0] == 0 && duid[1] == 3 {
        if duid.len() >= 10 {
            Some(MacAddr(duid[4], duid[5], duid[6], duid[7], duid[8], duid[9]))
        } else {
            None
        }
    } else {
        None
    }
}

/// The network mask of a 128-bit prefix of the given length.
pub open spec fn prefix_mask(prefix_len: u8) -> u128 {
    if prefix_len >= 128 {
        !0u128
    } else {
        (!0u128) << ((128 - prefix_len) as u128)
    }
}

/// The address made of the network part of `prefix/prefix_len` and the host
/// suffix.
pub open spec fn combined_address(prefix: u128, prefix_len: u8, suffix: u64) -> u128 {
    (prefix & prefix_mask(prefix_len)) | (suffix as u128)
}

/// Sub-prefix `sub_index` of length `delegate_len` inside the network of
/// `base_prefix/base_prefix_len`.
pub open spec fn delegated_prefix(
    base_prefix: u128,
    base_prefix_len: u8,
    delegate_len: u8,
    sub_index: u32,
) -> u128 {
    (base_prefix & prefix_mask(base_prefix_len)) | ((sub_index as u128) << ((128
        - delegate_len) as u128))
}

/// Combine a prefix with a suffix (host part); addresses are 128-bit numbers.
pub fn combine_prefix_suffix(prefix: u128, prefix_len: u8, suffix: u64) -> (r: u128)
    requires
        prefix_len > 0,
    ensures
        r == combined_address(prefix, prefix_len, suffix),
{
    let mask: u128 = if prefix_len >= 128 {
        !0u128
    } else {
        (!0u128) << ((128 - prefix_len) as u128)
    };
    (prefix & mask) | (suffix as u128)
}

/// Compute a delegated sub-prefix from a base prefix
pub fn compute_delegated_prefix(
    base_prefix: u128,
    base_prefix_len: u8,
    delegate_len: u8,
    sub_index: u32,
) -> (r: u128)
    requires
        base_prefix_len > 0,
        0 < delegate_len <= 128,
    ensures
        r == delegated_prefix(base_prefix, base_prefix_len, delegate_len, sub_index),
{
    let base_mask: u128 = if base_prefix_len >= 128 {
        !0u128
    } else {
        (!0u128) << ((128 - base_prefix_len) as u128)
    };
    let base_network = base_prefix & base_mask;
    let shift_bits: u8 = 128 - delegate_len;
    base_network | ((sub_index as u128) << (shift_bits as u128))
}


/// The lowercase hexadecimal digit for a nibble.
pub open spec fn hex_digit(n: u8) -> char {
    if n == 0 { '0' } else if n == 1 { '1' } else if n == 2 { '2' } else if n == 3 { '3' }
    else if n == 4 { '4' } else if n == 5 { '5' } else if n == 6 { '6' } else if n == 7 { '7' }
    else if n == 8 { '8' } else if n == 9 { '9' } else if n == 10 { 'a' } else if n == 11 { 'b' }
    else if n == 12 { 'c' } else if n == 13 { 'd' } else if n == 14 { 'e' } else { 'f' }
}

/// Two lowercase hex digits per byte, in order.
pub open spec fn spec_hex(data: Seq<u8>) -> Seq<char>
    decreases data.len(),
{
    if data.len() == 0 {
        seq![]
    } else {
        spec_hex(data.drop_last()) + seq![hex_digit(data.last() >> 4), hex_digit(data.last() & 0x0f)]
    }
}

fn nibble_char(n: u8) -> (c: char)
    requires
        n < 16,
    ensures
        c == hex_digit(n),
{
    match n {
        0 => '0',
        1 => '1',
        2 => '2',
        3 => '3',
        4 => '4',
        5 => '5',
        6 => '6',
        7 => '7',
        8 => '8',
        9 => '9',
        10 => 'a',
        11 => 'b',
        12 => 'c',
        13 => 'd',
        14 => 'e',
        _ => 'f',
    }
}

/// `String::push`: appends one character.
#[verifier::external_body]
pub(crate) fn string_push(s: &mut String, c: char)
    ensures
        final(s)@ == old(s)@.push(c),
{
    s.push(c);
}

/// Convert bytes to hex string
pub fn duid_to_hex(data: &[u8]) -> (r: String)
    ensures
        r@ == spec_hex(data@),
{
    let mut r = String::new();
    let mut i: usize = 0;
    while i < data.len()
        invariant
            i <= data.len(),
            r@ == spec_hex(data@.subrange(0, i as int)),
        decreases data.len() - i,
    {
        let b = data[i];
        assert((b >> 4u8) < 16u8 && (b & 0x0fu8) < 16u8) by (bit_vector);
        string_push(&mut r, nibble_char(b >> 4));
        string_push(&mut r, nibble_char(b & 0x0f));
        proof {
            let next = data@.subrange(0, i + 1);
            assert(next.drop_last() =~= data@.subrange(0, i as int));
            assert(next.last() == b);
        }
        i = i + 1;
    }
    assert(data@.subrange(0, data.len() as int) =~= data@);
    r
}

/// The djb2 hash (seed 5381, multiplier 33) over the bytes, wrapping at 64 bits.
pub open spec fn spec_hash_duid(data: Seq<u8>) -> u64
    decreases data.len(),
{
    if data.len() == 0 {
        5381
    } else {
        spec_hash_duid(data.drop_last()).wrapping_mul(33).wrapping_add(data.last() as u64)
    }
}

/// Hash a DUID to get a seed for pool allocation
pub fn hash_duid(duid: &[u8]) -> (h: u64)
    ensures
        h == spec_hash_duid(duid@),
{
    let mut hash: u64 = 5381;
    let mut i: usize = 0;
    while i < duid.len()
        invariant
            i <= duid.len(),
            hash == spec_hash_duid(duid@.subrange(0, i as int)),
        decreases duid.len() - i,
    {
        let byte = duid[i];
        proof {
            let next = duid@.subrange(0, i + 1);
            assert(next.drop_last() =~= duid@.subrange(0, i as int));
        }
        hash = hash.wrapping_mul(33).wrapping_add(byte as u64);
        i = i + 1;
    }
    assert(duid@.subrange(0, duid.len() as int) =~= duid@);
    hash
}

} // verus!
