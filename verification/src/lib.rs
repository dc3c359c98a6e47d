//! RustGuard's verified core: the connection-event record the probes emit,
//! the XDP ban verdict, the daemon protocol and the monitor's text output.

pub mod address;
pub mod clock;
pub mod codec;
pub mod daemon;
pub mod event;
pub mod firewall;
pub mod ipv4;
pub mod kernel;
pub mod monitor;
pub mod probe;
pub mod target;
pub mod text;

use vstd::prelude::*;

verus! {

/// A ban on one source address, as the XDP program's ban map stores it.
#[derive(Clone, Copy, Debug, PartialEq, Eq, Structural)]
pub struct BanValue {
    /// Kernel time in nanoseconds when the ban expires, 0 for permanent.
    pub end_time: u64,
}

/// What the XDP program has dropped, as its statistics map stores it.
#[derive(Clone, Copy, Debug, PartialEq, Eq, Structural)]
pub struct StatsValue {
    pub packets_dropped: u64,
    pub bytes_dropped: u64,
}

} // verus!
