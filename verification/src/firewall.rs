//! The XDP program's decision: drop packets whose IPv4 source is banned,
//! pass everything else, and count what was dropped.

use vstd::prelude::*;
use aya_ebpf::bindings::xdp_action;
use network_types::eth::{EthHdr, EtherType};
use network_types::ip::Ipv4Hdr;
use crate::codec::{from_be32, read_be32};
use crate::daemon::{ban_active, ban_end_time, map_after_ban};
use crate::{BanValue, StatsValue};

verus! {

/// `EthHdr::LEN` (network-types): the size of an Ethernet header.
#[verifier::external_body]
fn eth_hdr_len() -> (n: usize)
    ensures
        n == 14,
{
    EthHdr::LEN
}

/// `Ipv4Hdr::LEN` (network-types): the size of an IPv4 header without options.
#[verifier::external_body]
fn ipv4_hdr_len() -> (n: usize)
    ensures
        n == 20,
{
    Ipv4Hdr::LEN
}

/// `EthHdr::ether_type` (network-types) on the Ethernet header `header`, as
/// the XDP program reads it from the frame: whether it is `EtherType::Ipv4`.
/// The crate matches the field, taken in network byte order, against 0x0800.
#[verifier::external_body]
fn ether_type_is_ipv4(header: [u8; 14]) -> (b: bool)
    ensures
        b == (header@[12] == 0x08 && header@[13] == 0x00),
{
    let hdr = EthHdr {
        dst_addr: [header[0], header[1], header[2], header[3], header[4], header[5]],
        src_addr: [header[6], header[7], header[8], header[9], header[10], header[11]],
        ether_type: u16::from_ne_bytes([header[12], header[13]]),
    };
    matches!(hdr.ether_type(), Ok(EtherType::Ipv4))
}

/// What the XDP program tells the kernel to do with a packet; `code` is the
/// kernel's `enum xdp_action` value.
#[derive(Clone, Copy, Debug, PartialEq, Eq, Structural)]
pub enum XdpAction {
    Aborted,
    Drop,
    Pass,
}

/// `xdp_action::XDP_ABORTED` (aya-ebpf's kernel bindings): 0.
#[verifier::external_body]
fn xdp_aborted() -> (c: u32)
    ensures
        c == 0,
{
    xdp_action::XDP_ABORTED
}

/// `xdp_action::XDP_DROP` (aya-ebpf's kernel bindings): 1.
#[verifier::external_body]
fn xdp_drop() -> (c: u32)
    ensures
        c == 1,
{
    xdp_action::XDP_DROP
}

/// `xdp_action::XDP_PASS` (aya-ebpf's kernel bindings): 2.
#[verifier::external_body]
fn xdp_pass() -> (c: u32)
    ensures
        c == 2,
{
    xdp_action::XDP_PASS
}

impl XdpAction {
    pub open spec fn spec_code(self) -> u32 {
        match self {
            XdpAction::Aborted => 0,
            XdpAction::Drop => 1,
            XdpAction::Pass => 2,
        }
    }

    /// The value the kernel takes the action as (`enum xdp_action`).
    #[verifier::when_used_as_spec(spec_code)]
    pub fn code(self) -> (c: u32)
        ensures
            c == self.spec_code(),
    {
        match self {
            XdpAction::Aborted => xdp_aborted(),
            XdpAction::Drop => xdp_drop(),
            XdpAction::Pass => xdp_pass(),
        }
    }
}

/// What a frame is, as far as the ban check goes.
#[derive(Clone, Copy, Debug, PartialEq, Eq, Structural)]
pub enum FrameClass {
    /// Too short for the headers the program reads.
    Truncated,
    /// Not an IPv4 frame.
    NotIpv4,
    /// An IPv4 frame with this source address, first octet most significant.
    Ipv4Source(u32),
}

/// A frame is an Ethernet header (14 bytes, EtherType at bytes 12-13)
/// followed, for IPv4 (0x0800), by a 20-byte header whose source address
/// is at bytes 26-29 of the frame.
pub open spec fn frame_class(f: Seq<u8>) -> FrameClass {
    if f.len() < 14 {
        FrameClass::Truncated
    } else if !(f[12] == 0x08 && f[13] == 0x00) {
        FrameClass::NotIpv4
    } else if f.len() < 34 {
        FrameClass::Truncated
    } else {
        FrameClass::Ipv4Source(from_be32(f, 26))
    }
}

/// A source with ban `ban` is dropped unless it has none, or its ban has an
/// end time (non-zero) that `now` is past.
pub open spec fn ban_verdict_spec(ban: Option<BanValue>, now: u64) -> XdpAction {
    match ban {
        None => XdpAction::Pass,
        Some(b) => if b.end_time != 0 && now > b.end_time {
            XdpAction::Pass
        } else {
            XdpAction::Drop
        },
    }
}

/// The program's answer for frame `f` at kernel time `now`, when `ban` is
/// what the ban map holds for the frame's source address.
pub open spec fn xdp_verdict(f: Seq<u8>, ban: Option<BanValue>, now: u64) -> XdpAction {
    match frame_class(f) {
        FrameClass::Truncated => XdpAction::Aborted,
        FrameClass::NotIpv4 => XdpAction::Pass,
        FrameClass::Ipv4Source(_) => ban_verdict_spec(ban, now),
    }
}

/// Reads the headers of `frame` as the XDP program does.
pub fn classify_frame(frame: &[u8]) -> (c: FrameClass)
    ensures
        c == frame_class(frame@),
{
    let eth_len = eth_hdr_len();
    if frame.len() < eth_len {
        return FrameClass::Truncated;
    }
    let header: [u8; 14] = [
        frame[0],
        frame[1],
        frame[2],
        frame[3],
        frame[4],
        frame[5],
        frame[6],
        frame[7],
        frame[8],
        frame[9],
        frame[10],
        frame[11],
        frame[12],
        frame[13],
    ];
    if !ether_type_is_ipv4(header) {
        return FrameClass::NotIpv4;
    }
    if frame.len() - eth_len < ipv4_hdr_len() {
        return FrameClass::Truncated;
    }
    FrameClass::Ipv4Source(read_be32(frame, eth_len + 12))
}

/// Whether a source with ban `ban` is dropped at kernel time `now`.
pub fn ban_verdict(ban: Option<BanValue>, now: u64) -> (a: XdpAction)
    ensures
        a == ban_verdict_spec(ban, now),
{
    match ban {
        None => XdpAction::Pass,
        Some(b) => {
            if b.end_time != 0 && now > b.end_time {
                XdpAction::Pass
            } else {
                XdpAction::Drop
            }
        },
    }
}

/// The XDP program's answer for `frame` at kernel time `now`, given the
/// ban map's entry `ban` for the source of `frame` (read by the caller after
/// `classify_frame`; it plays no part unless the frame is IPv4).
pub fn rustguard(frame: &[u8], ban: Option<BanValue>, now: u64) -> (a: XdpAction)
    ensures
        a == xdp_verdict(frame@, ban, now),
{
    match classify_frame(frame) {
        FrameClass::Truncated => XdpAction::Aborted,
        FrameClass::NotIpv4 => XdpAction::Pass,
        FrameClass::Ipv4Source(_) => ban_verdict(ban, now),
    }
}

/// The statistics after one more dropped packet: one more packet (the
/// counter wraps around at 2^64, as the kernel program's arithmetic does),
/// the same byte count; the first drop starts the count at one.
pub open spec fn after_drop(stats: Option<StatsValue>) -> StatsValue {
    match stats {
        Some(s) => StatsValue {
            packets_dropped: ((s.packets_dropped + 1) % 0x1_0000_0000_0000_0000) as u64,
            ..s
        },
        None => StatsValue { packets_dropped: 1, bytes_dropped: 0 },
    }
}

/// Counts one dropped packet into the statistics entry `stats`.
pub fn record_drop(stats: Option<StatsValue>) -> (s: StatsValue)
    ensures
        s == after_drop(stats),
{
    match stats {
        Some(v) => StatsValue {
            packets_dropped: v.packets_dropped.wrapping_add(1),
            bytes_dropped: v.bytes_dropped,
        },
        None => StatsValue { packets_dropped: 1, bytes_dropped: 0 },
    }
}

/// What goes into the statistics map after the decision on a frame: the
/// count of one more drop when the frame is dropped, nothing otherwise.
pub open spec fn stats_write(verdict: XdpAction, stats: Option<StatsValue>) -> Option<StatsValue> {
    if verdict == XdpAction::Drop {
        Some(after_drop(stats))
    } else {
        None
    }
}

/// One run of the XDP program on `frame` at kernel time `now`, where `ban`
/// is the ban map's entry for the frame's source and `stats` the
/// statistics entry (key 0): the action to take, and the statistics entry to
/// store, which is there exactly when the frame is dropped and counts that
/// drop once.
pub fn rustguard_step(frame: &[u8], ban: Option<BanValue>, stats: Option<StatsValue>, now: u64) -> (r: (
    XdpAction,
    Option<StatsValue>,
))
    ensures
        r.0 == xdp_verdict(frame@, ban, now),
        r.1 == stats_write(r.0, stats),
{
    let verdict = rustguard(frame, ban, now);
    match verdict {
        XdpAction::Drop => (verdict, Some(record_drop(stats))),
        _ => (verdict, None),
    }
}

/// `f` is an Ethernet frame carrying an IPv4 packet from the address whose
/// four octets are `o`.
pub open spec fn ipv4_frame_from(f: Seq<u8>, o: Seq<u8>) -> bool {
    &&& o.len() == 4
    &&& f.len() >= 34
    &&& f[12] == 0x08
    &&& f[13] == 0x00
    &&& f.subrange(26, 30) == o
}

/// The XDP program looks a frame's source up under the key the daemon
/// stores a ban of that address under (first octet most significant).
pub proof fn lemma_frame_source_key(f: Seq<u8>, o: Seq<u8>)
    requires
        ipv4_frame_from(f, o),
    ensures
        frame_class(f) == FrameClass::Ipv4Source(from_be32(o, 0)),
{
    assert(f[26] == o[0] && f[27] == o[1] && f[28] == o[2] && f[29] == o[3]);
}

/// A ban made through the daemon blocks its address: once the daemon has
/// stored the ban of `dotted(o)` it makes at time `made` for `ttl` seconds,
/// every IPv4 frame from `o` is dropped at any time `now` while the ban
/// lasts (always, without a `ttl`), and passed once it has ended. Both
/// times are read from the kernel's monotonic clock since boot: the daemon
/// stamps bans with `get_boot_time_ns`, the XDP program reads the same
/// clock with `bpf_ktime_get_ns`.
pub proof fn lemma_ban_blocks_address(
    o: Seq<u8>,
    made: u64,
    ttl: Option<u64>,
    f: Seq<u8>,
    now: u64,
)
    requires
        ipv4_frame_from(f, o),
        ban_end_time(made, ttl) <= u64::MAX,
        ttl is Some ==> ban_end_time(made, ttl) != 0,
    ensures
        frame_class(f) == FrameClass::Ipv4Source(from_be32(o, 0)),
        xdp_verdict(f, Some(BanValue { end_time: ban_end_time(made, ttl) as u64 }), now) == (
        if ttl is None || now <= ban_end_time(made, ttl) {
            XdpAction::Drop
        } else {
            XdpAction::Pass
        }),
{
    lemma_frame_source_key(f, o);
}

/// A permanent ban drops every IPv4 frame from the address at every time.
pub proof fn lemma_permanent_ban_drops(f: Seq<u8>, o: Seq<u8>, now: u64)
    requires
        ipv4_frame_from(f, o),
    ensures
        xdp_verdict(f, Some(BanValue { end_time: 0 }), now) == XdpAction::Drop,
{
    lemma_frame_source_key(f, o);
}

/// A source without a ban, which an unban leaves it, is passed; so is any
/// frame that is not IPv4, whatever the ban map holds; a frame too short
/// for its headers is aborted.
pub proof fn lemma_unbanned_passes(f: Seq<u8>, ban: Option<BanValue>, now: u64)
    ensures
        frame_class(f) is Ipv4Source ==> xdp_verdict(f, None, now) == XdpAction::Pass,
        frame_class(f) is NotIpv4 ==> xdp_verdict(f, ban, now) == XdpAction::Pass,
        frame_class(f) is Truncated ==> xdp_verdict(f, ban, now) == XdpAction::Aborted,
{
}

/// Only a banned source is ever dropped: a drop means the frame is IPv4
/// and its source has a ban that has not ended.
pub proof fn lemma_drop_needs_ban(f: Seq<u8>, ban: Option<BanValue>, now: u64)
    requires
        xdp_verdict(f, ban, now) == XdpAction::Drop,
    ensures
        frame_class(f) is Ipv4Source,
        ban matches Some(b) && (b.end_time == 0 || now <= b.end_time),
{
}

/// A ban of a block blocks every address in it: once the ban map holds
/// the ban `b` on every key from `first` to `last`, a frame from any
/// address `o` in that range finds `b` under its source key, and is
/// dropped while `b` is active and passed once it has ended.
pub proof fn lemma_block_ban_blocks(
    m: Map<u32, BanValue>,
    first: u32,
    last: u32,
    b: BanValue,
    f: Seq<u8>,
    o: Seq<u8>,
    now: u64,
)
    requires
        ipv4_frame_from(f, o),
        first <= from_be32(o, 0) <= last,
    ensures
        frame_class(f) == FrameClass::Ipv4Source(from_be32(o, 0)),
        map_after_ban(m, first, last, b).contains_key(from_be32(o, 0)),
        map_after_ban(m, first, last, b)[from_be32(o, 0)] == b,
        xdp_verdict(f, Some(b), now) == (if ban_active(b, now) {
            XdpAction::Drop
        } else {
            XdpAction::Pass
        }),
{
    lemma_frame_source_key(f, o);
}

} // verus!
