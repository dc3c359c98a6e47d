//! The time the daemon stamps bans with: the kernel's monotonic clock since
//! boot (`CLOCK_MONOTONIC`), the clock the XDP program reads with
//! `bpf_ktime_get_ns` when it checks whether a ban has ended.

use vstd::prelude::*;

verus! {

/// The nanoseconds of a clock reading of `secs` seconds and `nanos`
/// nanoseconds.
pub open spec fn reading_ns(secs: u64, nanos: u32) -> int {
    secs * 1_000_000_000 + nanos
}

/// The time since boot in nanoseconds, from a reading of the monotonic
/// clock: `secs` whole seconds and `nanos` more nanoseconds (below one
/// second, as the kernel gives them). The count must fit in 64 bits, which
/// it does for 584 years of uptime.
pub fn get_boot_time_ns(secs: u64, nanos: u32) -> (t: u64)
    requires
        nanos < 1_000_000_000,
        reading_ns(secs, nanos) <= u64::MAX,
    ensures
        t == reading_ns(secs, nanos),
{
    secs * 1_000_000_000 + nanos as u64
}

/// A later reading of the clock is never stamped earlier: readings ordered
/// by seconds, then nanoseconds, give stamps in the same order.
pub proof fn lemma_boot_time_monotonic(s1: u64, n1: u32, s2: u64, n2: u32)
    requires
        n1 < 1_000_000_000,
        n2 < 1_000_000_000,
        s1 < s2 || (s1 == s2 && n1 <= n2),
    ensures
        reading_ns(s1, n1) <= reading_ns(s2, n2),
{
    if s1 < s2 {
        assert(s1 * 1_000_000_000 + 1_000_000_000 <= s2 * 1_000_000_000) by (nonlinear_arith)
            requires
                s1 < s2,
        ;
    }
}

} // verus!
