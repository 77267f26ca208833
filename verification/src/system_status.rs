//! What the system reports of itself: static facts, memory use, and the
//! messages of the network watcher.
use vstd::prelude::*;

verus! {

/// A message of the network watcher.
#[derive(Clone, Copy, Debug, PartialEq, Eq, Structural)]
pub enum NetworkMessage {
    /// Traffic on the interface with this index.
    Io(u32),
}

/// Facts about the system that do not change while it runs.
#[derive(Clone, Debug)]
pub struct LandscapeStatic {
    pub name: String,
    pub kernel_version: String,
    pub os_version: String,
    pub host_name: String,
}

/// Memory and swap, in bytes.
#[derive(Clone, Copy, Debug, PartialEq, Eq, Structural)]
pub struct MemUsage {
    pub total_mem: u64,
    pub used_mem: u64,
    pub total_swap: u64,
    pub used_swap: u64,
}

impl Default for MemUsage {
    /// Nothing measured yet: every amount is zero.
    fn default() -> (r: Self)
        ensures
            r == (MemUsage { total_mem: 0, used_mem: 0, total_swap: 0, used_swap: 0 }),
    {
        MemUsage { total_mem: 0, used_mem: 0, total_swap: 0, used_swap: 0 }
    }
}

} // verus!
