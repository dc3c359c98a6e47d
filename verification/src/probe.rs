//! How the connect and accept probes turn what they read from the kernel
//! into a `NetEvent`.

use vstd::prelude::*;
use crate::event::{
    event_direction, protocol_of_number, zeros16, EventType, NetEvent, TransportProtocol, AF_INET,
    AF_INET6, IPPROTO_TCP, IPPROTO_UDP,
};
use crate::kernel::{pid, tid, uid};

verus! {

/// The fields of a kernel `sock_common` that the probes read, as the bytes
/// and numbers found in kernel memory.
#[derive(Clone, Copy, Debug)]
pub struct SockCommon {
    /// `skc_family`.
    pub family: u16,
    /// `skc_rcv_saddr`, the local IPv4 address, in memory order.
    pub rcv_saddr: [u8; 4],
    /// `skc_daddr`, the remote IPv4 address, in memory order.
    pub daddr: [u8; 4],
    /// `skc_v6_rcv_saddr`, the local IPv6 address.
    pub v6_rcv_saddr: [u8; 16],
    /// `skc_v6_daddr`, the remote IPv6 address.
    pub v6_daddr: [u8; 16],
    /// `skc_num`, the local port in host order.
    pub num: u16,
    /// `skc_dport`, the remote port in network order, as its two bytes.
    pub dport: [u8; 2],
}

/// What the probes learn about the task that hit them.
#[derive(Clone, Copy, Debug)]
pub struct TaskInfo {
    /// `bpf_ktime_get_ns()`.
    pub timestamp_ns: u64,
    /// `bpf_get_current_pid_tgid()`.
    pub pid_tgid: u64,
    /// `bpf_get_current_uid_gid()`.
    pub uid_gid: u64,
    /// `bpf_get_current_comm()`: the process name, or the helper's error.
    pub comm: Result<[u8; 16], i32>,
}

/// What the probes read from the socket with `bpf_probe_read_kernel`: each
/// read gives the value, or the helper's error.
#[derive(Clone, Copy, Debug)]
pub struct SocketReads {
    /// `sk_protocol`.
    pub protocol: Result<u16, i64>,
    /// `__sk_common`.
    pub common: Result<SockCommon, i64>,
}

/// A four-byte IPv4 address in the first bytes of a sixteen-byte field.
pub open spec fn v4_in_v6_field(a: Seq<u8>) -> Seq<u8> {
    a + Seq::new(12, |i: int| 0u8)
}

/// The remote port as a number: the network-order bytes read big-endian.
pub open spec fn dport_value(d: [u8; 2]) -> u16 {
    (d[0] as int * 256 + d[1] as int) as u16
}

/// The address and port fields of `e` are those `fill_socket` writes from
/// `c` over `before`.
pub open spec fn socket_filled(before: NetEvent, c: SockCommon, e: NetEvent) -> bool {
    if c.family == AF_INET {
        &&& e.src_ip@ == v4_in_v6_field(c.rcv_saddr@)
        &&& e.dst_ip@ == v4_in_v6_field(c.daddr@)
        &&& e.src_port == c.num
        &&& e.dst_port == dport_value(c.dport)
    } else if c.family == AF_INET6 {
        &&& e.src_ip@ == c.v6_rcv_saddr@
        &&& e.dst_ip@ == c.v6_daddr@
        &&& e.src_port == c.num
        &&& e.dst_port == dport_value(c.dport)
    } else {
        &&& e.src_ip == before.src_ip
        &&& e.dst_ip == before.dst_ip
        &&& e.src_port == before.src_port
        &&& e.dst_port == before.dst_port
    }
}

/// Every field but the addresses and ports is unchanged.
pub open spec fn same_but_socket(a: NetEvent, b: NetEvent) -> bool {
    &&& a.timestamp_ns == b.timestamp_ns
    &&& a.socket_id == b.socket_id
    &&& a.pid == b.pid
    &&& a.tid == b.tid
    &&& a.uid == b.uid
    &&& a.event == b.event
    &&& a.protocol == b.protocol
    &&& a.direction == b.direction
    &&& a.comm == b.comm
    &&& a.ret == b.ret
}

fn port_from_be(d: [u8; 2]) -> (p: u16)
    ensures
        p == dport_value(d),
{
    (d[0] as u16) * 256 + (d[1] as u16)
}

fn widen_v4(a: [u8; 4]) -> (w: [u8; 16])
    ensures
        w@ == v4_in_v6_field(a@),
{
    let mut w = [0u8; 16];
    w[0] = a[0];
    w[1] = a[1];
    w[2] = a[2];
    w[3] = a[3];
    assert(w@ =~= v4_in_v6_field(a@));
    w
}

/// Writes an IPv4 socket's addresses and ports into `event`.
pub fn fill_ipv4(event: &mut NetEvent, common: &SockCommon)
    ensures
        final(event).src_ip@ == v4_in_v6_field(common.rcv_saddr@),
        final(event).dst_ip@ == v4_in_v6_field(common.daddr@),
        final(event).src_port == common.num,
        final(event).dst_port == dport_value(common.dport),
        same_but_socket(*old(event), *final(event)),
{
    event.src_ip = widen_v4(common.rcv_saddr);
    event.dst_ip = widen_v4(common.daddr);
    event.src_port = common.num;
    event.dst_port = port_from_be(common.dport);
}

/// Writes an IPv6 socket's addresses and ports into `event`.
pub fn fill_ipv6(event: &mut NetEvent, common: &SockCommon)
    ensures
        final(event).src_ip@ == common.v6_rcv_saddr@,
        final(event).dst_ip@ == common.v6_daddr@,
        final(event).src_port == common.num,
        final(event).dst_port == dport_value(common.dport),
        same_but_socket(*old(event), *final(event)),
{
    event.src_ip = common.v6_rcv_saddr;
    event.dst_ip = common.v6_daddr;
    event.src_port = common.num;
    event.dst_port = port_from_be(common.dport);
}

/// Writes the socket's addresses and ports into `event` by its address
/// family, once `common` was read; a socket of another family leaves
/// `event` as it was, and so does a failed read, whose error is returned.
pub fn fill_socket(event: &mut NetEvent, common: Result<SockCommon, i64>) -> (r: Result<(), i64>)
    ensures
        match common {
            Ok(c) => r is Ok && socket_filled(*old(event), c, *final(event)),
            Err(e) => r == Err::<(), i64>(e) && *final(event) == *old(event),
        },
        same_but_socket(*old(event), *final(event)),
{
    match common {
        Ok(c) => {
            if c.family == AF_INET {
                fill_ipv4(event, &c);
            } else if c.family == AF_INET6 {
                fill_ipv6(event, &c);
            }
            Ok(())
        },
        Err(e) => Err(e),
    }
}

/// The transport protocol of a socket, once its `sk_protocol` was read.
pub fn protocol(proto: Result<u16, i64>) -> (r: Result<TransportProtocol, i64>)
    ensures
        r == match proto {
            Ok(n) => Ok::<TransportProtocol, i64>(protocol_of_number(n)),
            Err(e) => Err::<TransportProtocol, i64>(e),
        },
{
    match proto {
        Ok(n) => {
            if n == IPPROTO_TCP {
                Ok(TransportProtocol::Tcp)
            } else if n == IPPROTO_UDP {
                Ok(TransportProtocol::Udp)
            } else {
                Ok(TransportProtocol::Unknown)
            }
        },
        Err(e) => Err(e),
    }
}

/// The event a probe emits: `kind` on socket `socket_id` with result `ret`,
/// by the task `task` whose name is `comm`, on a socket of protocol number
/// `proto` whose `sock_common` is `common`.
pub open spec fn probe_event(
    kind: EventType,
    socket_id: u64,
    ret: i32,
    task: TaskInfo,
    comm: [u8; 16],
    proto: u16,
    common: SockCommon,
    e: NetEvent,
) -> bool {
    &&& e.timestamp_ns == task.timestamp_ns
    &&& e.socket_id == socket_id
    &&& e.pid == task.pid_tgid / 0x1_0000_0000
    &&& e.tid == task.pid_tgid % 0x1_0000_0000
    &&& e.uid == task.uid_gid % 0x1_0000_0000
    &&& e.event == kind
    &&& e.direction == event_direction(kind)
    &&& e.protocol == protocol_of_number(proto)
    &&& e.comm@ == comm@
    &&& e.ret == ret
    &&& if common.family == AF_INET || common.family == AF_INET6 {
        socket_filled(e, common, e)
    } else {
        &&& e.src_ip@ == zeros16()
        &&& e.dst_ip@ == zeros16()
        &&& e.src_port == 0
        &&& e.dst_port == 0
    }
}

/// What a probe makes of its reads: the first failed read (protocol, then
/// socket, then process name) ends it with that error as a `u32`; otherwise
/// `r` is the event it emits.
pub open spec fn probe_outcome(
    kind: EventType,
    socket_id: u64,
    ret: i32,
    task: TaskInfo,
    reads: SocketReads,
    r: Result<NetEvent, u32>,
) -> bool {
    match reads.protocol {
        Err(e) => r == Err::<NetEvent, u32>(e as u32),
        Ok(proto) => match reads.common {
            Err(e) => r == Err::<NetEvent, u32>(e as u32),
            Ok(common) => match task.comm {
                Err(e) => r == Err::<NetEvent, u32>(e as u32),
                Ok(comm) => r matches Ok(ev) && probe_event(
                    kind,
                    socket_id,
                    ret,
                    task,
                    comm,
                    proto,
                    common,
                    ev,
                ),
            },
        },
    }
}

fn build_event(kind: EventType, socket_id: u64, ret: i32, task: &TaskInfo, reads: &SocketReads) -> (r:
    Result<NetEvent, u32>)
    ensures
        probe_outcome(kind, socket_id, ret, *task, *reads, r),
{
    let mut event = NetEvent::default();
    event.ret = ret;
    event.timestamp_ns = task.timestamp_ns;
    event.socket_id = socket_id;
    event.pid = pid(task.pid_tgid);
    event.tid = tid(task.pid_tgid);
    event.uid = uid(task.uid_gid);
    event.event = kind;
    event.direction = event.event.direction();
    event.protocol = match protocol(reads.protocol) {
        Ok(p) => p,
        Err(e) => return Err(e as u32),
    };
    match fill_socket(&mut event, reads.common) {
        Ok(()) => {},
        Err(e) => return Err(e as u32),
    }
    event.comm = match task.comm {
        Ok(c) => c,
        Err(e) => return Err(e as u32),
    };
    Ok(event)
}

/// The accept probe on the socket `newsk` that `inet_csk_accept` returned:
/// nothing when it returned none (0), else the event it emits, or the
/// error of the read that failed.
pub fn incoming_connection(newsk: u64, task: &TaskInfo, reads: &SocketReads) -> (r: Result<
    Option<NetEvent>,
    u32,
>)
    ensures
        newsk == 0 ==> r == Ok::<Option<NetEvent>, u32>(None),
        newsk != 0 ==> match r {
            Ok(Some(ev)) => probe_outcome(
                EventType::Accept,
                newsk,
                0,
                *task,
                *reads,
                Ok::<NetEvent, u32>(ev),
            ),
            Ok(None) => false,
            Err(e) => probe_outcome(EventType::Accept, newsk, 0, *task, *reads, Err::<NetEvent, u32>(e)),
        },
{
    if newsk == 0 {
        return Ok(None);
    }
    match build_event(EventType::Accept, newsk, 0, task, reads) {
        Ok(ev) => Ok(Some(ev)),
        Err(e) => Err(e),
    }
}

/// The connect probe on socket `sk` whose `tcp_v4_connect` returned `ret`
/// (0 on success, a negative errno otherwise); the result is kept as its
/// low 32 bits.
pub fn tcp_v4_connect_exit(sk: u64, ret: i64, task: &TaskInfo, reads: &SocketReads) -> (r: Result<
    NetEvent,
    u32,
>)
    ensures
        probe_outcome(EventType::Connect, sk, ret as i32, *task, *reads, r),
{
    build_event(EventType::Connect, sk, ret as i32, task, reads)
}

} // verus!
