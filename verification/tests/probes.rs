use rustguard::event::{Direction, EventType, NetEvent, TransportProtocol};
use rustguard::kernel::{comm_to_str, is_zero_cookie, ns_since, pid, tid, uid};
use rustguard::probe::{
    fill_ipv4, fill_ipv6, fill_socket, incoming_connection, protocol, tcp_v4_connect_exit,
    SockCommon, SocketReads, TaskInfo,
};

fn v4_common() -> SockCommon {
    SockCommon {
        family: 2,
        rcv_saddr: [192, 168, 1, 2],
        daddr: [140, 82, 121, 6],
        v6_rcv_saddr: [0; 16],
        v6_daddr: [0; 16],
        num: 60308,
        dport: 55055u16.to_be_bytes(),
    }
}

fn v6_common() -> SockCommon {
    let mut src = [0u8; 16];
    src[0] = 0x20;
    src[1] = 0x01;
    src[15] = 1;
    let mut dst = [0u8; 16];
    dst[0] = 0xfe;
    dst[1] = 0x80;
    dst[15] = 2;
    SockCommon {
        family: 10,
        rcv_saddr: [9, 9, 9, 9],
        daddr: [9, 9, 9, 9],
        v6_rcv_saddr: src,
        v6_daddr: dst,
        num: 22,
        dport: 443u16.to_be_bytes(),
    }
}

fn task() -> TaskInfo {
    TaskInfo {
        timestamp_ns: 123_456_789,
        pid_tgid: (7023u64 << 32) | 7266,
        uid_gid: (100u64 << 32) | 1000,
        comm: Ok(*b"Socket Thread\0\0\0"),
    }
}

#[test]
fn pid_and_tid_halves() {
    let pid_tgid = (396730u64 << 32) | 396731;
    assert_eq!(pid(pid_tgid), 396730);
    assert_eq!(tid(pid_tgid), 396731);
    assert_eq!(uid((5u64 << 32) | 1000), 1000);
    assert_eq!(pid(u64::MAX), u32::MAX);
    assert_eq!(tid(0), 0);
}

#[test]
fn ns_since_wraps() {
    assert_eq!(ns_since(100, 40), 60);
    assert_eq!(ns_since(5, 5), 0);
    assert_eq!(ns_since(0, 1), u64::MAX);
    assert_eq!(ns_since(3, u64::MAX), 4);
}

#[test]
fn zero_cookie() {
    assert!(is_zero_cookie(0));
    assert!(!is_zero_cookie(1));
}

#[test]
fn comm_name_stops_at_nul() {
    assert_eq!(comm_to_str(b"nmap\0\0\0\0\0\0\0\0\0\0\0\0"), b"nmap");
    assert_eq!(comm_to_str(b"abcdefghijklmnop"), b"abcdefghijklmnop");
    assert_eq!(comm_to_str(&[0u8; 16]), b"");
    assert_eq!(comm_to_str(b"ab\0cd\0\0\0\0\0\0\0\0\0\0\0"), b"ab");
}

#[test]
fn fill_ipv4_widens_addresses() {
    let mut e = NetEvent::default();
    e.pid = 9;
    fill_ipv4(&mut e, &v4_common());
    assert_eq!(e.src_ip, [192, 168, 1, 2, 0, 0, 0, 0, 0, 0, 0, 0, 0, 0, 0, 0]);
    assert_eq!(e.dst_ip, [140, 82, 121, 6, 0, 0, 0, 0, 0, 0, 0, 0, 0, 0, 0, 0]);
    assert_eq!(e.src_port, 60308);
    assert_eq!(e.dst_port, 55055);
    assert_eq!(e.pid, 9);
}

#[test]
fn fill_ipv6_copies_addresses() {
    let mut e = NetEvent::default();
    let c = v6_common();
    fill_ipv6(&mut e, &c);
    assert_eq!(e.src_ip, c.v6_rcv_saddr);
    assert_eq!(e.dst_ip, c.v6_daddr);
    assert_eq!(e.src_port, 22);
    assert_eq!(e.dst_port, 443);
}

#[test]
fn fill_socket_by_family() {
    let mut e = NetEvent::default();
    assert_eq!(fill_socket(&mut e, Ok(v4_common())), Ok(()));
    assert_eq!(e.dst_port, 55055);

    let mut e = NetEvent::default();
    assert_eq!(fill_socket(&mut e, Ok(v6_common())), Ok(()));
    assert_eq!(e.src_port, 22);

    let mut other = v4_common();
    other.family = 1;
    let mut e = NetEvent::default();
    e.src_port = 7;
    assert_eq!(fill_socket(&mut e, Ok(other)), Ok(()));
    assert_eq!(e.src_port, 7);
    assert_eq!(e.src_ip, [0; 16]);

    let mut e = NetEvent::default();
    assert_eq!(fill_socket(&mut e, Err(-14)), Err(-14));
    assert_eq!(e, NetEvent::default());
}

#[test]
fn protocol_numbers() {
    assert_eq!(protocol(Ok(6)), Ok(TransportProtocol::Tcp));
    assert_eq!(protocol(Ok(17)), Ok(TransportProtocol::Udp));
    assert_eq!(protocol(Ok(1)), Ok(TransportProtocol::Unknown));
    assert_eq!(protocol(Ok(132)), Ok(TransportProtocol::Unknown));
    assert_eq!(protocol(Err(-14)), Err(-14));
}

#[test]
fn accept_probe_event() {
    let reads = SocketReads { protocol: Ok(6), common: Ok(v4_common()) };
    let e = incoming_connection(0xffff_8880_0000_1000, &task(), &reads).unwrap().unwrap();
    assert_eq!(e.event, EventType::Accept);
    assert_eq!(e.direction, Direction::Ingress);
    assert_eq!(e.protocol, TransportProtocol::Tcp);
    assert_eq!(e.socket_id, 0xffff_8880_0000_1000);
    assert_eq!(e.timestamp_ns, 123_456_789);
    assert_eq!(e.pid, 7023);
    assert_eq!(e.tid, 7266);
    assert_eq!(e.uid, 1000);
    assert_eq!(&e.comm, b"Socket Thread\0\0\0");
    assert_eq!(e.ret, 0);
    assert_eq!(e.src_port, 60308);
    assert_eq!(e.dst_ip[..4], [140, 82, 121, 6]);
}

#[test]
fn accept_probe_without_socket_emits_nothing() {
    let reads = SocketReads { protocol: Err(-1), common: Err(-1) };
    assert_eq!(incoming_connection(0, &task(), &reads), Ok(None));
}

#[test]
fn probe_stops_at_first_failed_read() {
    let t = task();
    let reads = SocketReads { protocol: Err(-14), common: Err(-2) };
    assert_eq!(incoming_connection(1, &t, &reads), Err((-14i64) as u32));
    let reads = SocketReads { protocol: Ok(6), common: Err(-2) };
    assert_eq!(tcp_v4_connect_exit(1, 0, &t, &reads), Err((-2i64) as u32));
    let mut no_comm = task();
    no_comm.comm = Err(-22);
    let reads = SocketReads { protocol: Ok(6), common: Ok(v4_common()) };
    assert_eq!(tcp_v4_connect_exit(1, 0, &no_comm, &reads), Err((-22i32) as u32));
}

#[test]
fn connect_probe_event() {
    let reads = SocketReads { protocol: Ok(6), common: Ok(v6_common()) };
    let e = tcp_v4_connect_exit(42, -115, &task(), &reads).unwrap();
    assert_eq!(e.event, EventType::Connect);
    assert_eq!(e.direction, Direction::Egress);
    assert_eq!(e.ret, -115);
    assert_eq!(e.socket_id, 42);
    assert_eq!(e.src_ip, v6_common().v6_rcv_saddr);
    let e = tcp_v4_connect_exit(42, 0x1_0000_0005, &task(), &reads).unwrap();
    assert_eq!(e.ret, 5);
}
