//! The connection event that the kernel probes emit, and its enums.

use vstd::prelude::*;
use crate::codec::{
    dec16, dec32, dec64, enc16, enc32, enc64, lemma_dec16_bytes, lemma_dec32_bytes,
    lemma_dec64_bytes, lemma_enc_roundtrip, push16, push32, push64, read16, read32, read64,
    ByteOrder,
};

verus! {

pub const AF_INET: u16 = 2;
pub const AF_INET6: u16 = 10;

pub const IPPROTO_IP: u16 = 0;
pub const IPPROTO_ICMP: u16 = 1;
pub const IPPROTO_TCP: u16 = 6;
pub const IPPROTO_UDP: u16 = 17;
pub const IPPROTO_IPV6: u16 = 41;
pub const IPPROTO_ICMPV6: u16 = 58;
pub const IPPROTO_SCTP: u16 = 132;

/// Process name length used by Linux (`TASK_COMM_LEN`).
pub const TASK_COMM_LEN: usize = 16;

/// IPv6 address size (IPv4 is stored as IPv4-mapped IPv6).
pub const IP_ADDR_LEN: usize = 16;

/// What happened on a socket.
#[derive(Clone, Copy, Debug, PartialEq, Eq, Structural)]
pub enum EventType {
    Unknown,
    /// Outgoing connection initiated.
    Connect,
    /// Incoming connection accepted.
    Accept,
    /// Data transmitted.
    Send,
    /// Data received.
    Recv,
    /// Socket closed.
    Close,
    /// Socket state changed (optional, for TCP state tracking).
    StateChange,
    /// DNS query.
    Dns,
    /// TLS handshake detected.
    TlsHandshake,
}

/// The label an event type is printed with.
pub open spec fn event_label(e: EventType) -> Seq<char> {
    match e {
        EventType::Unknown => "UNKNOWN"@,
        EventType::Connect => "CONNECT"@,
        EventType::Accept => "ACCEPT"@,
        EventType::Send => "SEND"@,
        EventType::Recv => "RECV"@,
        EventType::Close => "CLOSE"@,
        EventType::StateChange => "STATE"@,
        EventType::Dns => "DNS"@,
        EventType::TlsHandshake => "TLS"@,
    }
}

/// The direction an event type implies.
pub open spec fn event_direction(e: EventType) -> Direction {
    match e {
        EventType::Connect | EventType::Send => Direction::Egress,
        EventType::Accept | EventType::Recv => Direction::Ingress,
        _ => Direction::Unknown,
    }
}

impl EventType {
    pub fn as_str(self) -> (s: &'static str)
        ensures
            s@ == event_label(self),
    {
        match self {
            EventType::Unknown => "UNKNOWN",
            EventType::Connect => "CONNECT",
            EventType::Accept => "ACCEPT",
            EventType::Send => "SEND",
            EventType::Recv => "RECV",
            EventType::Close => "CLOSE",
            EventType::StateChange => "STATE",
            EventType::Dns => "DNS",
            EventType::TlsHandshake => "TLS",
        }
    }

    pub fn direction(self) -> (d: Direction)
        ensures
            d == event_direction(self),
    {
        match self {
            EventType::Connect | EventType::Send => Direction::Egress,
            EventType::Accept | EventType::Recv => Direction::Ingress,
            EventType::Close | EventType::StateChange | EventType::Dns
            | EventType::TlsHandshake | EventType::Unknown => Direction::Unknown,
        }
    }
}

impl EventType {
    /// The byte that stands for this event type in a probe record.
    pub open spec fn spec_code(self) -> u8 {
        match self {
            EventType::Unknown => 0,
            EventType::Connect => 1,
            EventType::Accept => 2,
            EventType::Send => 3,
            EventType::Recv => 4,
            EventType::Close => 5,
            EventType::StateChange => 6,
            EventType::Dns => 7,
            EventType::TlsHandshake => 8,
        }
    }

    /// The event type a record byte stands for, if any.
    pub open spec fn spec_from_code(b: u8) -> Option<EventType> {
        if b == 0 {
            Some(EventType::Unknown)
        } else if b == 1 {
            Some(EventType::Connect)
        } else if b == 2 {
            Some(EventType::Accept)
        } else if b == 3 {
            Some(EventType::Send)
        } else if b == 4 {
            Some(EventType::Recv)
        } else if b == 5 {
            Some(EventType::Close)
        } else if b == 6 {
            Some(EventType::StateChange)
        } else if b == 7 {
            Some(EventType::Dns)
        } else if b == 8 {
            Some(EventType::TlsHandshake)
        } else {
            None
        }
    }

    #[verifier::when_used_as_spec(spec_code)]
    pub fn code(self) -> (b: u8)
        ensures
            b == self.spec_code(),
    {
        match self {
            EventType::Unknown => 0,
            EventType::Connect => 1,
            EventType::Accept => 2,
            EventType::Send => 3,
            EventType::Recv => 4,
            EventType::Close => 5,
            EventType::StateChange => 6,
            EventType::Dns => 7,
            EventType::TlsHandshake => 8,
        }
    }

    pub fn from_code(b: u8) -> (e: Option<EventType>)
        ensures
            e == Self::spec_from_code(b),
    {
        if b == 0 {
            Some(EventType::Unknown)
        } else if b == 1 {
            Some(EventType::Connect)
        } else if b == 2 {
            Some(EventType::Accept)
        } else if b == 3 {
            Some(EventType::Send)
        } else if b == 4 {
            Some(EventType::Recv)
        } else if b == 5 {
            Some(EventType::Close)
        } else if b == 6 {
            Some(EventType::StateChange)
        } else if b == 7 {
            Some(EventType::Dns)
        } else if b == 8 {
            Some(EventType::TlsHandshake)
        } else {
            None
        }
    }
}

/// Each enum is stored in a record as one byte that reads back as the same
/// variant, and every byte that reads back as a variant is that variant's.
pub proof fn lemma_code_roundtrip(e: EventType, p: TransportProtocol, d: Direction, b: u8)
    ensures
        EventType::spec_from_code(e.spec_code()) == Some(e),
        TransportProtocol::spec_from_code(p.spec_code()) == Some(p),
        Direction::spec_from_code(d.spec_code()) == Some(d),
        EventType::spec_from_code(b) matches Some(x) ==> x.spec_code() == b,
        TransportProtocol::spec_from_code(b) matches Some(x) ==> x.spec_code() == b,
        Direction::spec_from_code(b) matches Some(x) ==> x.spec_code() == b,
{
}

impl Default for EventType {
    fn default() -> (e: Self)
        ensures
            e == EventType::Unknown,
    {
        EventType::Unknown
    }
}

/// The transport protocol of a socket.
#[derive(Clone, Copy, Debug, PartialEq, Eq, Structural)]
pub enum TransportProtocol {
    Unknown,
    Tcp,
    Udp,
}

pub open spec fn protocol_label(p: TransportProtocol) -> Seq<char> {
    match p {
        TransportProtocol::Unknown => "UNKNOWN"@,
        TransportProtocol::Tcp => "TCP"@,
        TransportProtocol::Udp => "UDP"@,
    }
}

/// The transport protocol named by an `IPPROTO_*` number.
pub open spec fn protocol_of_number(proto: u16) -> TransportProtocol {
    if proto == IPPROTO_TCP {
        TransportProtocol::Tcp
    } else if proto == IPPROTO_UDP {
        TransportProtocol::Udp
    } else {
        TransportProtocol::Unknown
    }
}

impl TransportProtocol {
    /// The label the protocol is printed with.
    pub fn as_str(self) -> (s: &'static str)
        ensures
            s@ == protocol_label(self),
    {
        match self {
            TransportProtocol::Unknown => "UNKNOWN",
            TransportProtocol::Tcp => "TCP",
            TransportProtocol::Udp => "UDP",
        }
    }

    /// The byte that stands for the protocol in a probe record: its `IPPROTO_*` number.
    pub open spec fn spec_code(self) -> u8 {
        match self {
            TransportProtocol::Unknown => 0,
            TransportProtocol::Tcp => 6,
            TransportProtocol::Udp => 17,
        }
    }

    pub open spec fn spec_from_code(b: u8) -> Option<TransportProtocol> {
        if b == 0 {
            Some(TransportProtocol::Unknown)
        } else if b == 6 {
            Some(TransportProtocol::Tcp)
        } else if b == 17 {
            Some(TransportProtocol::Udp)
        } else {
            None
        }
    }

    #[verifier::when_used_as_spec(spec_code)]
    pub fn code(self) -> (b: u8)
        ensures
            b == self.spec_code(),
    {
        match self {
            TransportProtocol::Unknown => 0,
            TransportProtocol::Tcp => 6,
            TransportProtocol::Udp => 17,
        }
    }

    pub fn from_code(b: u8) -> (p: Option<TransportProtocol>)
        ensures
            p == Self::spec_from_code(b),
    {
        if b == 0 {
            Some(TransportProtocol::Unknown)
        } else if b == 6 {
            Some(TransportProtocol::Tcp)
        } else if b == 17 {
            Some(TransportProtocol::Udp)
        } else {
            None
        }
    }
}

impl Default for TransportProtocol {
    fn default() -> (p: Self)
        ensures
            p == TransportProtocol::Unknown,
    {
        TransportProtocol::Unknown
    }
}

/// Which way traffic flows.
#[derive(Clone, Copy, Debug, PartialEq, Eq, Structural)]
pub enum Direction {
    Unknown,
    Ingress,
    Egress,
}

pub open spec fn direction_label(d: Direction) -> Seq<char> {
    match d {
        Direction::Unknown => "UNKNOWN"@,
        Direction::Ingress => "INGRESS"@,
        Direction::Egress => "EGRESS"@,
    }
}

impl Direction {
    /// The label the direction is printed with.
    pub fn as_str(self) -> (s: &'static str)
        ensures
            s@ == direction_label(self),
    {
        match self {
            Direction::Unknown => "UNKNOWN",
            Direction::Ingress => "INGRESS",
            Direction::Egress => "EGRESS",
        }
    }

    pub open spec fn spec_code(self) -> u8 {
        match self {
            Direction::Unknown => 0,
            Direction::Ingress => 1,
            Direction::Egress => 2,
        }
    }

    pub open spec fn spec_from_code(b: u8) -> Option<Direction> {
        if b == 0 {
            Some(Direction::Unknown)
        } else if b == 1 {
            Some(Direction::Ingress)
        } else if b == 2 {
            Some(Direction::Egress)
        } else {
            None
        }
    }

    #[verifier::when_used_as_spec(spec_code)]
    pub fn code(self) -> (b: u8)
        ensures
            b == self.spec_code(),
    {
        match self {
            Direction::Unknown => 0,
            Direction::Ingress => 1,
            Direction::Egress => 2,
        }
    }

    pub fn from_code(b: u8) -> (d: Option<Direction>)
        ensures
            d == Self::spec_from_code(b),
    {
        if b == 0 {
            Some(Direction::Unknown)
        } else if b == 1 {
            Some(Direction::Ingress)
        } else if b == 2 {
            Some(Direction::Egress)
        } else {
            None
        }
    }
}

impl Default for Direction {
    fn default() -> (d: Self)
        ensures
            d == Direction::Unknown,
    {
        Direction::Unknown
    }
}

/// One observation of a socket, as a probe records it.
#[derive(Clone, Copy, Debug, PartialEq, Eq)]
pub struct NetEvent {
    /// Monotonic timestamp
    pub timestamp_ns: u64,
    /// Temporary socket identifier (struct sock *)
    pub socket_id: u64,
    /// Process information
    pub pid: u32,
    pub tid: u32,
    pub uid: u32,
    /// Event metadata
    pub event: EventType,
    pub protocol: TransportProtocol,
    pub direction: Direction,
    /// Process name
    pub comm: [u8; 16],
    pub src_ip: [u8; 16],
    pub dst_ip: [u8; 16],
    pub src_port: u16,
    pub dst_port: u16,
    pub ret: i32,
}

/// The length of a probe record: the C layout of `NetEvent`.
pub const EVENT_RECORD_LEN: usize = 88;

/// Sixteen zero bytes.
pub open spec fn zeros16() -> Seq<u8> {
    Seq::new(16, |i: int| 0u8)
}

/// The all-zero event that the probes start from.
pub open spec fn is_zero_event(e: NetEvent) -> bool {
    &&& e.timestamp_ns == 0
    &&& e.socket_id == 0
    &&& e.pid == 0
    &&& e.tid == 0
    &&& e.uid == 0
    &&& e.event == EventType::Unknown
    &&& e.protocol == TransportProtocol::Unknown
    &&& e.direction == Direction::Unknown
    &&& e.comm@ == zeros16()
    &&& e.src_ip@ == zeros16()
    &&& e.dst_ip@ == zeros16()
    &&& e.src_port == 0
    &&& e.dst_port == 0
    &&& e.ret == 0
}

impl Default for NetEvent {
    fn default() -> (e: Self)
        ensures
            is_zero_event(e),
    {
        let e = NetEvent {
            timestamp_ns: 0,
            socket_id: 0,
            pid: 0,
            tid: 0,
            uid: 0,
            event: EventType::Unknown,
            protocol: TransportProtocol::Unknown,
            direction: Direction::Unknown,
            comm: [0u8; 16],
            src_ip: [0u8; 16],
            dst_ip: [0u8; 16],
            src_port: 0,
            dst_port: 0,
            ret: 0,
        };
        assert(e.comm@ =~= zeros16());
        assert(e.src_ip@ =~= zeros16());
        assert(e.dst_ip@ =~= zeros16());
        e
    }
}

/// The bytes of `e` in a probe record written on a host of byte order `o`:
/// its fields in C order, with one zero byte of padding before `src_port`,
/// each number in the host's own byte order, as the probes lay the event
/// out in memory.
pub open spec fn event_record(e: NetEvent, o: ByteOrder) -> Seq<u8> {
    enc64(e.timestamp_ns, o) + enc64(e.socket_id, o) + enc32(e.pid, o) + enc32(e.tid, o) + enc32(e.uid, o) + seq![
        e.event.spec_code(),
        e.protocol.spec_code(),
        e.direction.spec_code(),
    ] + e.comm@ + e.src_ip@ + e.dst_ip@ + seq![0u8] + enc16(e.src_port, o) + enc16(e.dst_port, o)
        + enc32(e.ret as u32, o)
}

/// `s` is a record of 88 bytes whose three enum bytes name known variants.
pub open spec fn is_event_record(s: Seq<u8>) -> bool {
    &&& s.len() == 88
    &&& EventType::spec_from_code(s[28]) is Some
    &&& TransportProtocol::spec_from_code(s[29]) is Some
    &&& Direction::spec_from_code(s[30]) is Some
}

/// Every field of `e` is what the record `s`, written in byte order `o`,
/// holds at that field's offset.
pub open spec fn record_holds(s: Seq<u8>, e: NetEvent, o: ByteOrder) -> bool {
    &&& e.timestamp_ns == dec64(s, 0, o)
    &&& e.socket_id == dec64(s, 8, o)
    &&& e.pid == dec32(s, 16, o)
    &&& e.tid == dec32(s, 20, o)
    &&& e.uid == dec32(s, 24, o)
    &&& EventType::spec_from_code(s[28]) == Some(e.event)
    &&& TransportProtocol::spec_from_code(s[29]) == Some(e.protocol)
    &&& Direction::spec_from_code(s[30]) == Some(e.direction)
    &&& e.comm@ == s.subrange(31, 47)
    &&& e.src_ip@ == s.subrange(47, 63)
    &&& e.dst_ip@ == s.subrange(63, 79)
    &&& e.src_port == dec16(s, 80, o)
    &&& e.dst_port == dec16(s, 82, o)
    &&& e.ret == dec32(s, 84, o) as i32
}

/// Reading the record of an event gives back that event.
pub proof fn lemma_record_roundtrip(e: NetEvent, o: ByteOrder)
    ensures
        is_event_record(event_record(e, o)),
        record_holds(event_record(e, o), e, o),
{
    let s = event_record(e, o);
    lemma_enc_roundtrip(o, e.src_port, e.pid, e.timestamp_ns);
    lemma_enc_roundtrip(o, e.dst_port, e.tid, e.socket_id);
    lemma_enc_roundtrip(o, 0, e.uid, 0);
    lemma_enc_roundtrip(o, 0, e.ret as u32, 0);
    let r = e.ret;
    assert((r as u32) as i32 == r) by (bit_vector);
    assert(s.len() == 88);
    assert(s.subrange(0, 8) =~= enc64(e.timestamp_ns, o));
    assert(s.subrange(8, 16) =~= enc64(e.socket_id, o));
    assert(s.subrange(16, 20) =~= enc32(e.pid, o));
    assert(s.subrange(20, 24) =~= enc32(e.tid, o));
    assert(s.subrange(24, 28) =~= enc32(e.uid, o));
    assert(s.subrange(80, 82) =~= enc16(e.src_port, o));
    assert(s.subrange(82, 84) =~= enc16(e.dst_port, o));
    assert(s.subrange(84, 88) =~= enc32(e.ret as u32, o));
    assert(s.subrange(31, 47) =~= e.comm@);
    assert(s.subrange(47, 63) =~= e.src_ip@);
    assert(s.subrange(63, 79) =~= e.dst_ip@);
    assert(dec64(s, 0, o) == dec64(s.subrange(0, 8), 0, o));
    assert(dec64(s, 8, o) == dec64(s.subrange(8, 16), 0, o));
    assert(dec32(s, 16, o) == dec32(s.subrange(16, 20), 0, o));
    assert(dec32(s, 20, o) == dec32(s.subrange(20, 24), 0, o));
    assert(dec32(s, 24, o) == dec32(s.subrange(24, 28), 0, o));
    assert(dec16(s, 80, o) == dec16(s.subrange(80, 82), 0, o));
    assert(dec16(s, 82, o) == dec16(s.subrange(82, 84), 0, o));
    assert(dec32(s, 84, o) == dec32(s.subrange(84, 88), 0, o));
    assert(s[28] == e.event.spec_code());
    assert(s[29] == e.protocol.spec_code());
    assert(s[30] == e.direction.spec_code());
}

/// Every number of a record is laid out in the host's byte order `o`, at
/// its C offset, both in the record of an event and in what a read takes
/// from a record: in a little-endian record each field's least significant
/// byte comes first.
pub proof fn lemma_record_in_host_order(e: NetEvent, o: ByteOrder, s: Seq<u8>, d: NetEvent)
    requires
        s.len() == 88,
        record_holds(s, d, o),
    ensures
        event_record(e, o).subrange(0, 8) == enc64(e.timestamp_ns, o),
        event_record(e, o).subrange(8, 16) == enc64(e.socket_id, o),
        event_record(e, o).subrange(16, 20) == enc32(e.pid, o),
        event_record(e, o).subrange(20, 24) == enc32(e.tid, o),
        event_record(e, o).subrange(24, 28) == enc32(e.uid, o),
        event_record(e, o).subrange(80, 82) == enc16(e.src_port, o),
        event_record(e, o).subrange(82, 84) == enc16(e.dst_port, o),
        event_record(e, o).subrange(84, 88) == enc32(e.ret as u32, o),
        s.subrange(0, 8) == enc64(d.timestamp_ns, o),
        s.subrange(8, 16) == enc64(d.socket_id, o),
        s.subrange(16, 20) == enc32(d.pid, o),
        s.subrange(20, 24) == enc32(d.tid, o),
        s.subrange(24, 28) == enc32(d.uid, o),
        s.subrange(80, 82) == enc16(d.src_port, o),
        s.subrange(82, 84) == enc16(d.dst_port, o),
        s.subrange(84, 88) == enc32(d.ret as u32, o),
        o == ByteOrder::Little ==> event_record(e, o)[8] == (e.socket_id & 0xff) as u8 && s[8]
            == (d.socket_id & 0xff) as u8,
{
    let t = event_record(e, o);
    lemma_enc_roundtrip(o, e.src_port, e.pid, e.timestamp_ns);
    assert(t.subrange(0, 8) =~= enc64(e.timestamp_ns, o));
    assert(t.subrange(8, 16) =~= enc64(e.socket_id, o));
    assert(t.subrange(16, 20) =~= enc32(e.pid, o));
    assert(t.subrange(20, 24) =~= enc32(e.tid, o));
    assert(t.subrange(24, 28) =~= enc32(e.uid, o));
    assert(t.subrange(80, 82) =~= enc16(e.src_port, o));
    assert(t.subrange(82, 84) =~= enc16(e.dst_port, o));
    assert(t.subrange(84, 88) =~= enc32(e.ret as u32, o));
    lemma_dec64_bytes(s, 0, o);
    lemma_dec64_bytes(s, 8, o);
    lemma_dec32_bytes(s, 16, o);
    lemma_dec32_bytes(s, 20, o);
    lemma_dec32_bytes(s, 24, o);
    lemma_dec16_bytes(s, 80, o);
    lemma_dec16_bytes(s, 82, o);
    lemma_dec32_bytes(s, 84, o);
    let w = dec32(s, 84, o);
    assert((w as i32) as u32 == w) by (bit_vector);
    assert(t[8] == t.subrange(8, 16)[0]);
    assert(s[8] == s.subrange(8, 16)[0]);
}

/// A record holds exactly one event, and writing that event back reproduces
/// the record up to its padding byte.
pub proof fn lemma_record_determines_event(s: Seq<u8>, e: NetEvent, o: ByteOrder)
    requires
        is_event_record(s),
        record_holds(s, e, o),
    ensures
        event_record(e, o) == s.update(79, 0u8),
{
    lemma_dec64_bytes(s, 0, o);
    lemma_dec64_bytes(s, 8, o);
    lemma_dec32_bytes(s, 16, o);
    lemma_dec32_bytes(s, 20, o);
    lemma_dec32_bytes(s, 24, o);
    lemma_dec16_bytes(s, 80, o);
    lemma_dec16_bytes(s, 82, o);
    lemma_dec32_bytes(s, 84, o);
    let w = dec32(s, 84, o);
    assert((w as i32) as u32 == w) by (bit_vector);
    let t = event_record(e, o);
    assert(t.len() == 88);
    assert forall|i: int| 0 <= i < 88 implies t[i] == s.update(79, 0u8)[i] by {
        if i < 8 {
            assert(t[i] == enc64(e.timestamp_ns, o)[i]);
            assert(s[i] == s.subrange(0, 8)[i]);
        } else if i < 16 {
            assert(t[i] == enc64(e.socket_id, o)[i - 8]);
            assert(s[i] == s.subrange(8, 16)[i - 8]);
        } else if i < 20 {
            assert(t[i] == enc32(e.pid, o)[i - 16]);
            assert(s[i] == s.subrange(16, 20)[i - 16]);
        } else if i < 24 {
            assert(t[i] == enc32(e.tid, o)[i - 20]);
            assert(s[i] == s.subrange(20, 24)[i - 20]);
        } else if i < 28 {
            assert(t[i] == enc32(e.uid, o)[i - 24]);
            assert(s[i] == s.subrange(24, 28)[i - 24]);
        } else if i < 31 {
        } else if i < 47 {
            assert(t[i] == e.comm@[i - 31]);
            assert(s[i] == s.subrange(31, 47)[i - 31]);
        } else if i < 63 {
            assert(t[i] == e.src_ip@[i - 47]);
            assert(s[i] == s.subrange(47, 63)[i - 47]);
        } else if i < 79 {
            assert(t[i] == e.dst_ip@[i - 63]);
            assert(s[i] == s.subrange(63, 79)[i - 63]);
        } else if i == 79 {
        } else if i < 82 {
            assert(t[i] == enc16(e.src_port, o)[i - 80]);
            assert(s[i] == s.subrange(80, 82)[i - 80]);
        } else if i < 84 {
            assert(t[i] == enc16(e.dst_port, o)[i - 82]);
            assert(s[i] == s.subrange(82, 84)[i - 82]);
        } else {
            assert(t[i] == enc32(e.ret as u32, o)[i - 84]);
            assert(s[i] == s.subrange(84, 88)[i - 84]);
        }
    }
    assert(t =~= s.update(79, 0u8));
}

fn copy16(s: &[u8], off: usize) -> (a: [u8; 16])
    requires
        off + 16 <= s@.len(),
    ensures
        a@ == s@.subrange(off as int, off + 16),
{
    let mut a = [0u8; 16];
    let len = s.len();
    let mut i: usize = 0;
    while i < 16
        invariant
            i <= 16,
            off + 16 <= s@.len(),
            len == s@.len(),
            a@.len() == 16,
            forall|j: int| 0 <= j < i ==> a@[j] == s@[off + j],
        decreases 16 - i,
    {
        a[i] = s[off + i];
        i = i + 1;
    }
    assert(a@ =~= s@.subrange(off as int, off + 16));
    a
}

impl NetEvent {
    /// The size of an event as the probes lay it out in memory (C layout):
    /// 88 bytes, the length of a probe record.
    pub fn size() -> (n: usize)
        ensures
            n == EVENT_RECORD_LEN,
            n == 88,
    {
        EVENT_RECORD_LEN
    }

    /// The bytes a probe on a host of byte order `o` hands to user space
    /// for this event.
    pub fn to_record(&self, o: ByteOrder) -> (r: Vec<u8>)
        ensures
            r@ == event_record(*self, o),
    {
        let mut r: Vec<u8> = Vec::new();
        push64(&mut r, self.timestamp_ns, o);
        push64(&mut r, self.socket_id, o);
        push32(&mut r, self.pid, o);
        push32(&mut r, self.tid, o);
        push32(&mut r, self.uid, o);
        r.push(self.event.code());
        r.push(self.protocol.code());
        r.push(self.direction.code());
        let mut i: usize = 0;
        let ghost before = r@;
        while i < 16
            invariant
                i <= 16,
                r@ == before + self.comm@.subrange(0, i as int),
            decreases 16 - i,
        {
            r.push(self.comm[i]);
            assert(self.comm@.subrange(0, i + 1) =~= self.comm@.subrange(0, i as int).push(
                self.comm@[i as int],
            ));
            i = i + 1;
        }
        assert(self.comm@.subrange(0, 16) =~= self.comm@);
        let ghost before = r@;
        let mut i: usize = 0;
        while i < 16
            invariant
                i <= 16,
                r@ == before + self.src_ip@.subrange(0, i as int),
            decreases 16 - i,
        {
            r.push(self.src_ip[i]);
            assert(self.src_ip@.subrange(0, i + 1) =~= self.src_ip@.subrange(0, i as int).push(
                self.src_ip@[i as int],
            ));
            i = i + 1;
        }
        assert(self.src_ip@.subrange(0, 16) =~= self.src_ip@);
        let ghost before = r@;
        let mut i: usize = 0;
        while i < 16
            invariant
                i <= 16,
                r@ == before + self.dst_ip@.subrange(0, i as int),
            decreases 16 - i,
        {
            r.push(self.dst_ip[i]);
            assert(self.dst_ip@.subrange(0, i + 1) =~= self.dst_ip@.subrange(0, i as int).push(
                self.dst_ip@[i as int],
            ));
            i = i + 1;
        }
        assert(self.dst_ip@.subrange(0, 16) =~= self.dst_ip@);
        r.push(0u8);
        push16(&mut r, self.src_port, o);
        push16(&mut r, self.dst_port, o);
        push32(&mut r, self.ret as u32, o);
        assert(r@ =~= event_record(*self, o));
        r
    }

    /// Reads a probe record written on a host of byte order `o` (the
    /// monitor passes its own); `None` when `bytes` is not a record: the
    /// wrong length, or an enum byte that names no variant.
    pub fn from_record(bytes: &[u8], o: ByteOrder) -> (e: Option<NetEvent>)
        ensures
            e is Some <==> is_event_record(bytes@),
            e matches Some(ev) ==> record_holds(bytes@, ev, o),
    {
        if bytes.len() != EVENT_RECORD_LEN {
            return None;
        }
        let event = match EventType::from_code(bytes[28]) {
            Some(v) => v,
            None => return None,
        };
        let protocol = match TransportProtocol::from_code(bytes[29]) {
            Some(v) => v,
            None => return None,
        };
        let direction = match Direction::from_code(bytes[30]) {
            Some(v) => v,
            None => return None,
        };
        Some(
            NetEvent {
                timestamp_ns: read64(bytes, 0, o),
                socket_id: read64(bytes, 8, o),
                pid: read32(bytes, 16, o),
                tid: read32(bytes, 20, o),
                uid: read32(bytes, 24, o),
                event,
                protocol,
                direction,
                comm: copy16(bytes, 31),
                src_ip: copy16(bytes, 47),
                dst_ip: copy16(bytes, 63),
                src_port: read16(bytes, 80, o),
                dst_port: read16(bytes, 82, o),
                ret: read32(bytes, 84, o) as i32,
            },
        )
    }
}

} // verus!
