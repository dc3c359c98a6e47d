//! What the probes compute from the values that kernel helpers hand them.

use vstd::prelude::*;

verus! {

/// Process name length used by Linux (`TASK_COMM_LEN`).
pub const TASK_COMM_LEN: usize = 16;

/// `p` is the name stored in `s`: the bytes before the first NUL, or all of
/// `s` when it holds none.
pub open spec fn is_name_prefix(s: Seq<u8>, p: Seq<u8>) -> bool {
    &&& p.len() <= s.len()
    &&& p == s.subrange(0, p.len() as int)
    &&& forall|j: int| 0 <= j < p.len() ==> p[j] != 0
    &&& p.len() < s.len() ==> s[p.len() as int] == 0
}

/// The process id: the upper half of `bpf_get_current_pid_tgid()`.
pub fn pid(pid_tgid: u64) -> (p: u32)
    ensures
        p == pid_tgid / 0x1_0000_0000,
{
    assert((pid_tgid >> 32u64) as u32 == pid_tgid / 0x1_0000_0000) by (bit_vector);
    (pid_tgid >> 32u64) as u32
}

/// The thread id: the lower half of `bpf_get_current_pid_tgid()`.
pub fn tid(pid_tgid: u64) -> (t: u32)
    ensures
        t == pid_tgid % 0x1_0000_0000,
{
    assert(pid_tgid as u32 == pid_tgid % 0x1_0000_0000) by (bit_vector);
    pid_tgid as u32
}

/// The user id: the lower half of `bpf_get_current_uid_gid()`.
pub fn uid(uid_gid: u64) -> (u: u32)
    ensures
        u == uid_gid % 0x1_0000_0000,
{
    assert(uid_gid as u32 == uid_gid % 0x1_0000_0000) by (bit_vector);
    uid_gid as u32
}

/// Nanoseconds from `start` to `now` on the kernel clock, wrapping around
/// as the clock does.
pub fn ns_since(now: u64, start: u64) -> (d: u64)
    ensures
        d == (if now >= start {
            now - start
        } else {
            now - start + 0x1_0000_0000_0000_0000
        }),
{
    now.wrapping_sub(start)
}

/// A socket cookie of zero means the kernel assigned none.
pub fn is_zero_cookie(cookie: u64) -> (b: bool)
    ensures
        b == (cookie == 0),
{
    cookie == 0
}

/// The process name in a `comm` buffer: the bytes before the first NUL.
pub fn comm_to_str(comm: &[u8; TASK_COMM_LEN]) -> (name: &[u8])
    ensures
        is_name_prefix(comm@, name@),
{
    let mut i: usize = 0;
    while i < TASK_COMM_LEN && comm[i] != 0
        invariant
            i <= TASK_COMM_LEN,
            comm@.len() == TASK_COMM_LEN,
            forall|j: int| 0 <= j < i ==> comm@[j] != 0,
        decreases TASK_COMM_LEN - i,
    {
        i = i + 1;
    }
    let s: &[u8] = comm.as_slice();
    let name = &s[0..i];
    assert(name@ =~= comm@.subrange(0, i as int));
    name
}
} // verus!
