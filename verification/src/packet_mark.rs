//! Where the addresses of a packet-marking rule come from.
use vstd::prelude::*;

verus! {

/// The addresses a marking rule applies to: a network given by address and
/// prefix length, or a named set of the geo database.
#[derive(Clone, Debug, PartialEq, Eq)]
pub enum WallRuleSource {
    Text { target_ip: [u8; 4], mask: u8 },
    GeoKey { key: String },
}

} // verus!
