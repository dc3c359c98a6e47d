use rustguard::address::{ip_to_string, ipv6_to_string};
use rustguard::event::{Direction, EventType, NetEvent, TransportProtocol};
use rustguard::monitor::{
    arrow, comm_to_string, event_line, header_line, now_string, result_string, timed_event_line,
    timed_header_line, ProcessCache, EXE_TTL_NS,
};

fn connect_event(comm: &[u8], pid: u32, tid: u32, src: [u8; 4], sport: u16, dst: [u8; 4], dport: u16) -> NetEvent {
    let mut e = NetEvent::default();
    e.comm[..comm.len()].copy_from_slice(comm);
    e.pid = pid;
    e.tid = tid;
    e.event = EventType::Connect;
    e.protocol = TransportProtocol::Tcp;
    e.direction = Direction::Egress;
    e.src_ip[..4].copy_from_slice(&src);
    e.dst_ip[..4].copy_from_slice(&dst);
    e.src_port = sport;
    e.dst_port = dport;
    e
}

#[test]
fn header_matches_the_documented_output() {
    assert_eq!(
        header_line(),
        "COMM             EXE                             PID    TID EVENT      PROTO  DIR     SOURCE                 -> DESTINATION"
    );
}

#[test]
fn lines_match_the_documented_output() {
    let e = connect_event(b"nmap", 396730, 396730, [192, 168, 1, 2], 60308, [140, 82, 121, 6], 55055);
    assert_eq!(
        event_line(&e, "/usr/bin/nmap"),
        "nmap             /usr/bin/nmap                396730 396730 CONNECT TCP EGRESS 192.168.1.2:60308      -> 140.82.121.6:55055"
    );
    let e = connect_event(b"Socket Thread", 7023, 7266, [192, 168, 1, 2], 41910, [140, 82, 114, 25], 443);
    assert_eq!(
        event_line(&e, "/usr/lib/firefox/firefox"),
        "Socket Thread    /usr/lib/firefox/firefox       7023   7266 CONNECT TCP EGRESS 192.168.1.2:41910      -> 140.82.114.25:443"
    );
    let e = connect_event(b"NetworkManager", 573, 573, [192, 168, 1, 2], 52364, [95, 216, 195, 133], 80);
    assert_eq!(
        event_line(&e, "/usr/bin/NetworkManager"),
        "NetworkManager   /usr/bin/NetworkManager         573    573 CONNECT TCP EGRESS 192.168.1.2:52364      -> 95.216.195.133:80"
    );
}

#[test]
fn accept_lines_and_long_fields() {
    let mut e = connect_event(b"sshd", 1, 2, [10, 0, 0, 1], 22, [10, 0, 0, 2], 50000);
    e.event = EventType::Accept;
    e.direction = Direction::Ingress;
    let long_exe = "/a/very/long/path/to/some/binary/name";
    assert_eq!(
        event_line(&e, long_exe),
        "sshd             /a/very/long/path/to/some/binary/name      1      2 ACCEPT TCP INGRESS 10.0.0.1:22            -> 10.0.0.2:50000"
    );
}

#[test]
fn comm_text() {
    assert_eq!(comm_to_string(b"nmap\0\0\0\0\0\0\0\0\0\0\0\0"), "nmap");
    assert_eq!(comm_to_string(b"abcdefghijklmnop"), "abcdefghijklmnop");
    assert_eq!(comm_to_string(b""), "");
    assert_eq!(comm_to_string(b"\0abc"), "");
    assert_eq!(comm_to_string(&[0x66, 0xff, 0x6f, 0]), "f\u{FFFD}o");
    assert_eq!(comm_to_string("héllo\0".as_bytes()), "héllo");
}

#[test]
fn result_text() {
    assert_eq!(result_string(0), "OK");
    assert_eq!(result_string(-111), "ERR(-111)");
    assert_eq!(result_string(5), "ERR(5)");
    assert_eq!(result_string(i32::MIN), "ERR(-2147483648)");
}

#[test]
fn arrows() {
    assert_eq!(arrow(EventType::Connect), "─────▶");
    assert_eq!(arrow(EventType::Accept), "◀─────");
    assert_eq!(arrow(EventType::Close), "──────");
    assert_eq!(arrow(EventType::Unknown), "──────");
}

#[test]
fn time_of_day() {
    assert_eq!(now_string(0, 0), "00:00:00.000");
    assert_eq!(now_string(86_399, 999), "23:59:59.999");
    assert_eq!(now_string(86_400 + 3_661, 7), "01:01:01.007");
    assert_eq!(now_string(1_700_000_000, 42), "22:13:20.042");
}

#[test]
fn addresses() {
    let mut ip = [0u8; 16];
    ip[..4].copy_from_slice(&[192, 168, 1, 2]);
    assert_eq!(ip_to_string(&ip), "192.168.1.2");
    assert_eq!(ip_to_string(&[0u8; 16]), "0.0.0.0");
    let mut mapped = [0u8; 16];
    mapped[10] = 0xff;
    mapped[11] = 0xff;
    mapped[12..].copy_from_slice(&[8, 8, 4, 4]);
    assert_eq!(ip_to_string(&mapped), "8.8.4.4");
    let v6: [u8; 16] = [0x20, 0x01, 0x0d, 0xb8, 0, 0, 0, 0, 0, 0, 0, 0, 0, 0, 0, 1];
    assert_eq!(ip_to_string(&v6), "2001:db8::1");
    let loopback: [u8; 16] = [0, 0, 0, 0, 0, 0, 0, 0, 0, 0, 0, 0, 0, 0, 0, 1];
    assert_eq!(ip_to_string(&loopback), "::1");
    let one_zero: [u8; 16] = [0x20, 0x01, 0x0d, 0xb8, 0, 0, 0, 1, 0, 1, 0, 1, 0, 1, 0, 1];
    assert_eq!(ip_to_string(&one_zero), "2001:db8:0:1:1:1:1:1");
    let two_runs: [u8; 16] = [0x20, 0x01, 0, 0, 0, 0, 0, 1, 0, 0, 0, 0, 0, 0, 0, 1];
    assert_eq!(ip_to_string(&two_runs), "2001:0:0:1::1");
    let first_run: [u8; 16] = [0x20, 0x01, 0, 0, 0, 0, 0, 1, 0, 1, 0, 0, 0, 0, 0, 1];
    assert_eq!(ip_to_string(&first_run), "2001::1:1:0:0:1");
    let all_ones = [0xffu8; 16];
    assert_eq!(ip_to_string(&all_ones), "ffff:ffff:ffff:ffff:ffff:ffff:ffff:ffff");
    let trailing: [u8; 16] = [0xfe, 0x80, 0, 0, 0, 0, 0, 0, 0, 0, 0, 0, 0, 0, 0, 0];
    assert_eq!(ipv6_to_string(&trailing), "fe80::");
}

#[test]
fn process_cache_keeps_paths_for_the_ttl() {
    let mut c = ProcessCache::new();
    assert_eq!(c.cached_exe(7, 0), None);
    assert_eq!(c.record_exe(7, Some("/usr/bin/nmap".into()), 1_000), "/usr/bin/nmap");
    assert_eq!(c.cached_exe(7, 1_000), Some("/usr/bin/nmap".to_string()));
    assert_eq!(c.cached_exe(7, 1_000 + EXE_TTL_NS - 1), Some("/usr/bin/nmap".to_string()));
    assert_eq!(c.cached_exe(7, 1_000 + EXE_TTL_NS), None);
    assert_eq!(c.cached_exe(7, 500), Some("/usr/bin/nmap".to_string()));
    assert_eq!(c.cached_exe(8, 1_000), None);
    assert_eq!(c.record_exe(8, None, 2_000), "<unknown>");
    assert_eq!(c.cached_exe(8, 2_000), Some("<unknown>".to_string()));
    assert_eq!(c.record_exe(7, Some("/bin/sh".into()), 5_000), "/bin/sh");
    assert_eq!(c.cached_exe(7, 5_000), Some("/bin/sh".to_string()));
    assert_eq!(EXE_TTL_NS, 30_000_000_000);
}

#[test]
fn timed_listing() {
    assert_eq!(
        timed_header_line(),
        "TIME         COMM                PID PROTO EVENT     RESULT     CONNECTION"
    );
    let mut e = connect_event(b"curl", 4242, 4243, [10, 0, 0, 5], 51000, [93, 184, 216, 34], 80);
    e.ret = -111;
    assert_eq!(
        timed_event_line(&e, &now_string(43_201, 250)),
        "12:00:01.250 curl               4242 TCP CONNECT ERR(-111)  10.0.0.5:51000 ─────▶ 93.184.216.34:80"
    );
    let mut e = NetEvent::default();
    e.comm[..5].copy_from_slice(b"nginx");
    e.pid = 80;
    e.event = EventType::Accept;
    e.src_ip = [0x20, 0x01, 0x0d, 0xb8, 0, 0, 0, 0, 0, 0, 0, 0, 0, 0, 0, 1];
    e.dst_ip = [0x20, 0x01, 0x0d, 0xb8, 0, 0, 0, 0, 0, 0, 0, 0, 0, 0, 0, 2];
    e.src_port = 443;
    e.dst_port = 50000;
    assert_eq!(
        timed_event_line(&e, "23:59:59.999"),
        "23:59:59.999 nginx                80 UNKNOWN ACCEPT OK         2001:db8::1:443 ◀───── 2001:db8::2:50000"
    );
}
