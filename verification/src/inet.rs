//! IPv4 host-in-network arithmetic, done by the `cidr` crate. An address is
//! a 32-bit number and a network is given by its prefix length.
use vstd::prelude::*;

verus! {

/// The host part of a network of length `len`: the low `32 - len` bits.
pub open spec fn host_mask(len: u8) -> u32 {
    if len < 32 {
        (!0u32) >> (len as u32)
    } else {
        0
    }
}

/// The address `step` hosts after `addr`, wrapping inside the network of
/// `addr/len`: the host part of the sum, under the network part of `addr`.
pub open spec fn inet_step(addr: u32, len: u8, step: u32) -> u32 {
    (addr.wrapping_add(step) & host_mask(len)) | (addr & !host_mask(len))
}

/// `Ipv4Inet::last_address` of `addr/len`: the network part of `addr` with
/// every host bit set.
#[verifier::external_body]
pub(crate) fn inet_last_address(addr: u32, len: u8) -> (r: u32)
    requires
        len <= 32,
    ensures
        r == addr | host_mask(len),
{
    let inet = cidr::Ipv4Inet::new(core::net::Ipv4Addr::from(addr), len).unwrap();
    u32::from(inet.last_address())
}

/// `Ipv4Inet::overflowing_add_u32` of `addr/len`, keeping the address: the
/// sum wraps inside the network, as `inet_step` says.
#[verifier::external_body]
pub(crate) fn inet_overflowing_add(addr: u32, len: u8, step: u32) -> (r: u32)
    requires
        len <= 32,
    ensures
        r == inet_step(addr, len, step),
{
    let inet = cidr::Ipv4Inet::new(core::net::Ipv4Addr::from(addr), len).unwrap();
    let (next, _overflow) = inet.overflowing_add_u32(step);
    u32::from(next.address())
}

/// `Ipv4Inet::network().mask()` of `addr/len`: every network bit set.
#[verifier::external_body]
pub(crate) fn inet_network_mask(addr: u32, len: u8) -> (r: u32)
    requires
        len <= 32,
    ensures
        r == !host_mask(len),
{
    let inet = cidr::Ipv4Inet::new(core::net::Ipv4Addr::from(addr), len).unwrap();
    u32::from(inet.network().mask())
}

/// `last_address` never lies below the address it starts from.
pub proof fn lemma_last_address_above(addr: u32, len: u8)
    requires
        len <= 32,
    ensures
        addr <= addr | host_mask(len),
{
    let h = host_mask(len);
    assert(addr <= addr | h) by (bit_vector);
}

} // verus!
