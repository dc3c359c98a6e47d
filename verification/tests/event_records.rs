use rustguard::event::{
    Direction, EventType, NetEvent, TransportProtocol, AF_INET, AF_INET6, EVENT_RECORD_LEN,
    IPPROTO_TCP, IPPROTO_UDP, IP_ADDR_LEN, TASK_COMM_LEN,
};
use rustguard::codec::ByteOrder;
use rustguard::{BanValue, StatsValue};

fn sample_event() -> NetEvent {
    let mut e = NetEvent::default();
    e.timestamp_ns = 0x0102_0304_0506_0708;
    e.socket_id = 0xffff_8880_1234_5678;
    e.pid = 396730;
    e.tid = 396731;
    e.uid = 1000;
    e.event = EventType::Connect;
    e.protocol = TransportProtocol::Tcp;
    e.direction = Direction::Egress;
    e.comm = *b"nmap\0\0\0\0\0\0\0\0\0\0\0\0";
    e.src_ip = [192, 168, 1, 2, 0, 0, 0, 0, 0, 0, 0, 0, 0, 0, 0, 0];
    e.dst_ip = [140, 82, 121, 6, 0, 0, 0, 0, 0, 0, 0, 0, 0, 0, 0, 0];
    e.src_port = 60308;
    e.dst_port = 55055;
    e.ret = -115;
    e
}

#[test]
fn event_type_labels() {
    assert_eq!(EventType::Unknown.as_str(), "UNKNOWN");
    assert_eq!(EventType::Connect.as_str(), "CONNECT");
    assert_eq!(EventType::Accept.as_str(), "ACCEPT");
    assert_eq!(EventType::Send.as_str(), "SEND");
    assert_eq!(EventType::Recv.as_str(), "RECV");
    assert_eq!(EventType::Close.as_str(), "CLOSE");
    assert_eq!(EventType::StateChange.as_str(), "STATE");
    assert_eq!(EventType::Dns.as_str(), "DNS");
    assert_eq!(EventType::TlsHandshake.as_str(), "TLS");
}

#[test]
fn event_type_directions() {
    assert_eq!(EventType::Connect.direction(), Direction::Egress);
    assert_eq!(EventType::Send.direction(), Direction::Egress);
    assert_eq!(EventType::Accept.direction(), Direction::Ingress);
    assert_eq!(EventType::Recv.direction(), Direction::Ingress);
    assert_eq!(EventType::Close.direction(), Direction::Unknown);
    assert_eq!(EventType::StateChange.direction(), Direction::Unknown);
    assert_eq!(EventType::Dns.direction(), Direction::Unknown);
    assert_eq!(EventType::TlsHandshake.direction(), Direction::Unknown);
    assert_eq!(EventType::Unknown.direction(), Direction::Unknown);
}

#[test]
fn protocol_and_direction_labels() {
    assert_eq!(TransportProtocol::Unknown.as_str(), "UNKNOWN");
    assert_eq!(TransportProtocol::Tcp.as_str(), "TCP");
    assert_eq!(TransportProtocol::Udp.as_str(), "UDP");
    assert_eq!(Direction::Unknown.as_str(), "UNKNOWN");
    assert_eq!(Direction::Ingress.as_str(), "INGRESS");
    assert_eq!(Direction::Egress.as_str(), "EGRESS");
}

#[test]
fn enum_codes_match_the_record_bytes() {
    assert_eq!(EventType::Unknown.code(), 0);
    assert_eq!(EventType::Connect.code(), 1);
    assert_eq!(EventType::TlsHandshake.code(), 8);
    assert_eq!(TransportProtocol::Tcp.code(), 6);
    assert_eq!(TransportProtocol::Udp.code(), 17);
    assert_eq!(Direction::Ingress.code(), 1);
    assert_eq!(Direction::Egress.code(), 2);
    assert_eq!(EventType::from_code(2), Some(EventType::Accept));
    assert_eq!(EventType::from_code(9), None);
    assert_eq!(TransportProtocol::from_code(17), Some(TransportProtocol::Udp));
    assert_eq!(TransportProtocol::from_code(7), None);
    assert_eq!(Direction::from_code(0), Some(Direction::Unknown));
    assert_eq!(Direction::from_code(3), None);
    for b in 0u8..=255 {
        if let Some(e) = EventType::from_code(b) {
            assert_eq!(e.code(), b);
        }
    }
}

#[test]
fn defaults_are_unknown_and_zero() {
    assert_eq!(EventType::default(), EventType::Unknown);
    assert_eq!(TransportProtocol::default(), TransportProtocol::Unknown);
    assert_eq!(Direction::default(), Direction::Unknown);
    let e = NetEvent::default();
    assert_eq!(e.timestamp_ns, 0);
    assert_eq!(e.pid, 0);
    assert_eq!(e.comm, [0u8; 16]);
    assert_eq!(e.src_ip, [0u8; 16]);
    assert_eq!(e.ret, 0);
    assert_eq!(e.event, EventType::Unknown);
}

#[test]
fn constants() {
    assert_eq!(AF_INET, 2);
    assert_eq!(AF_INET6, 10);
    assert_eq!(IPPROTO_TCP, 6);
    assert_eq!(IPPROTO_UDP, 17);
    assert_eq!(TASK_COMM_LEN, 16);
    assert_eq!(IP_ADDR_LEN, 16);
}

#[test]
fn event_size_is_the_record_length() {
    assert_eq!(NetEvent::size(), 88);
    assert_eq!(NetEvent::size(), EVENT_RECORD_LEN);
    assert_eq!(NetEvent::size(), std::mem::size_of::<NetEvent>());
}

#[test]
fn record_layout() {
    let r = sample_event().to_record(ByteOrder::Little);
    assert_eq!(r.len(), 88);
    assert_eq!(&r[0..8], &[8, 7, 6, 5, 4, 3, 2, 1]);
    assert_eq!(&r[16..20], &396730u32.to_le_bytes());
    assert_eq!(&r[20..24], &396731u32.to_le_bytes());
    assert_eq!(&r[24..28], &1000u32.to_le_bytes());
    assert_eq!(r[28], 1);
    assert_eq!(r[29], 6);
    assert_eq!(r[30], 2);
    assert_eq!(&r[31..35], b"nmap");
    assert_eq!(&r[47..51], &[192, 168, 1, 2]);
    assert_eq!(&r[63..67], &[140, 82, 121, 6]);
    assert_eq!(r[79], 0);
    assert_eq!(&r[80..82], &60308u16.to_le_bytes());
    assert_eq!(&r[82..84], &55055u16.to_le_bytes());
    assert_eq!(&r[84..88], &(-115i32).to_le_bytes());
}

#[test]
fn record_roundtrip() {
    let e = sample_event();
    assert_eq!(NetEvent::from_record(&e.to_record(ByteOrder::Little), ByteOrder::Little), Some(e));
    let z = NetEvent::default();
    assert_eq!(NetEvent::from_record(&z.to_record(ByteOrder::Big), ByteOrder::Big), Some(z));
}

#[test]
fn record_rejects_wrong_length_and_unknown_enums() {
    let r = sample_event().to_record(ByteOrder::Little);
    assert_eq!(NetEvent::from_record(&r[..87], ByteOrder::Little), None);
    let mut longer = r.clone();
    longer.push(0);
    assert_eq!(NetEvent::from_record(&longer, ByteOrder::Little), None);
    let mut bad = r.clone();
    bad[28] = 9;
    assert_eq!(NetEvent::from_record(&bad, ByteOrder::Big), None);
    let mut bad = r.clone();
    bad[29] = 1;
    assert_eq!(NetEvent::from_record(&bad, ByteOrder::Big), None);
    let mut bad = r;
    bad[30] = 3;
    assert_eq!(NetEvent::from_record(&bad, ByteOrder::Big), None);
}

#[test]
fn ban_and_stats_values() {
    let b = BanValue { end_time: 5 };
    assert_eq!(b, BanValue { end_time: 5 });
    let s = StatsValue { packets_dropped: 1, bytes_dropped: 0 };
    assert_eq!(s.packets_dropped, 1);
}

#[test]
fn big_endian_record_layout() {
    let e = sample_event();
    let r = e.to_record(ByteOrder::Big);
    assert_eq!(r.len(), 88);
    assert_eq!(&r[0..8], &[1, 2, 3, 4, 5, 6, 7, 8]);
    assert_eq!(&r[16..20], &396730u32.to_be_bytes());
    assert_eq!(r[28], 1);
    assert_eq!(&r[31..35], b"nmap");
    assert_eq!(&r[80..82], &60308u16.to_be_bytes());
    assert_eq!(&r[84..88], &(-115i32).to_be_bytes());
    assert_eq!(NetEvent::from_record(&r, ByteOrder::Big), Some(e));
    let other = NetEvent::from_record(&r, ByteOrder::Little).unwrap();
    assert_eq!(other.pid, u32::from_le_bytes(396730u32.to_be_bytes()));
}

#[test]
fn host_order_record_matches_memory_layout() {
    let host = if u16::from_ne_bytes([1, 0]) == 1 { ByteOrder::Little } else { ByteOrder::Big };
    let e = sample_event();
    let r = e.to_record(host);
    assert_eq!(&r[0..8], &e.timestamp_ns.to_ne_bytes());
    assert_eq!(&r[16..20], &e.pid.to_ne_bytes());
    assert_eq!(&r[82..84], &e.dst_port.to_ne_bytes());
    assert_eq!(NetEvent::from_record(&r, host), Some(e));
}
