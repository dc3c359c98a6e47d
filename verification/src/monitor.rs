//! What the connection monitor prints: one header line, then one line per
//! event, and the cache of executable paths it keeps per process.

use vstd::prelude::*;
use vstd::string::StringExecFns;
use vstd::utf8::{decode_utf8, valid_utf8};
use std::collections::HashMap;
use crate::address::{ip_text, ip_to_string};
use crate::event::{direction_label, event_label, protocol_label, EventType, NetEvent};
use crate::kernel::is_name_prefix;
use crate::text::{
    decimal, pad_left, pad_right, push_decimal, push_padded_left, push_padded_right,
    push_signed_decimal, push_zero_padded, signed_decimal, zero_padded,
};

verus! {

broadcast use vstd::std_specs::hash::group_hash_axioms;

/// What `String::from_utf8_lossy` makes of `bytes`.
pub uninterp spec fn utf8_lossy(bytes: Seq<u8>) -> Seq<char>;

/// `String::from_utf8_lossy` (std), made an owned `String`: the text of
/// `bytes` with each invalid sequence replaced by U+FFFD. Stated: the result
/// depends on the bytes alone, and valid UTF-8 is decoded as it is.
#[verifier::external_body]
fn from_utf8_lossy(bytes: &[u8]) -> (s: String)
    ensures
        s@ == utf8_lossy(bytes@),
        valid_utf8(bytes@) ==> s@ == decode_utf8(bytes@),
{
    String::from_utf8_lossy(bytes).into_owned()
}

/// The name stored in a NUL-terminated buffer.
pub open spec fn name_bytes(s: Seq<u8>) -> Seq<u8> {
    choose|p: Seq<u8>| is_name_prefix(s, p)
}

/// A buffer holds only one name.
pub proof fn lemma_name_prefix_unique(s: Seq<u8>, p1: Seq<u8>, p2: Seq<u8>)
    requires
        is_name_prefix(s, p1),
        is_name_prefix(s, p2),
    ensures
        p1 == p2,
{
    if p1.len() < p2.len() {
        assert(p2[p1.len() as int] == s[p1.len() as int]);
    } else if p2.len() < p1.len() {
        assert(p1[p2.len() as int] == s[p2.len() as int]);
    }
}

/// The name the monitor shows is the one `comm_to_str` cuts out of the
/// same buffer.
pub proof fn lemma_name_bytes_is_prefix(s: Seq<u8>, p: Seq<u8>)
    requires
        is_name_prefix(s, p),
    ensures
        name_bytes(s) == p,
{
    lemma_name_prefix_unique(s, p, name_bytes(s));
}

/// The process name in `comm` as text: the bytes before the first NUL,
/// decoded as `String::from_utf8_lossy` does.
pub fn comm_to_string(comm: &[u8]) -> (s: String)
    ensures
        s@ == utf8_lossy(name_bytes(comm@)),
        valid_utf8(name_bytes(comm@)) ==> s@ == decode_utf8(name_bytes(comm@)),
{
    let n = comm.len();
    let mut len: usize = 0;
    while len < n && comm[len] != 0
        invariant
            len <= n,
            n == comm@.len(),
            forall|j: int| 0 <= j < len ==> comm@[j] != 0,
        decreases n - len,
    {
        len = len + 1;
    }
    let name = &comm[0..len];
    proof {
        assert(name@ =~= comm@.subrange(0, len as int));
        lemma_name_bytes_is_prefix(comm@, name@);
    }
    from_utf8_lossy(name)
}

/// `ret` as the monitor shows it: "OK" for 0, "ERR(<ret>)" otherwise.
pub open spec fn result_text(ret: i32) -> Seq<char> {
    if ret == 0 {
        "OK"@
    } else {
        "ERR("@ + signed_decimal(ret as int) + ")"@
    }
}

pub fn result_string(ret: i32) -> (s: String)
    ensures
        s@ == result_text(ret),
{
    if ret == 0 {
        String::from_str("OK")
    } else {
        let mut s = String::from_str("ERR(");
        push_signed_decimal(&mut s, ret as i64);
        s.append(")");
        s
    }
}

/// The arrow between the two endpoints: out for connects, in for accepts.
pub open spec fn arrow_text(e: EventType) -> Seq<char> {
    match e {
        EventType::Connect => "─────▶"@,
        EventType::Accept => "◀─────"@,
        _ => "──────"@,
    }
}

pub fn arrow(event: EventType) -> (s: &'static str)
    ensures
        s@ == arrow_text(event),
{
    match event {
        EventType::Connect => "─────▶",
        EventType::Accept => "◀─────",
        _ => "──────",
    }
}

/// The time of day as `HH:MM:SS.mmm` for `secs` seconds and `millis`
/// milliseconds since the Unix epoch.
pub open spec fn clock_text(secs: u64, millis: u32) -> Seq<char> {
    let day = secs % 86_400;
    zero_padded((day / 3600) as nat, 2) + ":"@ + zero_padded(((day / 60) % 60) as nat, 2) + ":"@
        + zero_padded((day % 60) as nat, 2) + "."@ + zero_padded(millis as nat, 3)
}

/// The time column of a line, from the clock reading `secs` (whole seconds
/// since the Unix epoch) and `millis` (its sub-second milliseconds).
pub fn now_string(secs: u64, millis: u32) -> (s: String)
    ensures
        s@ == clock_text(secs, millis),
{
    let day = secs % 86_400;
    let mut s = String::new();
    push_zero_padded(&mut s, day / 3600, 2);
    s.append(":");
    push_zero_padded(&mut s, (day / 60) % 60, 2);
    s.append(":");
    push_zero_padded(&mut s, day % 60, 2);
    s.append(".");
    push_zero_padded(&mut s, millis as u64, 3);
    s
}

/// The monitor's column headings.
pub open spec fn header_text() -> Seq<char> {
    pad_right("COMM"@, 16) + " "@ + pad_right("EXE"@, 28) + " "@ + pad_left("PID"@, 6) + " "@
        + pad_left("TID"@, 6) + " "@ + pad_right("EVENT"@, 10) + " "@ + pad_right("PROTO"@, 6)
        + " "@ + pad_right("DIR"@, 7) + " "@ + pad_right("SOURCE"@, 22) + " -> DESTINATION"@
}

pub fn header_line() -> (s: String)
    ensures
        s@ == header_text(),
{
    let mut s = String::new();
    push_padded_right(&mut s, "COMM", 16);
    s.append(" ");
    push_padded_right(&mut s, "EXE", 28);
    s.append(" ");
    push_padded_left(&mut s, "PID", 6);
    s.append(" ");
    push_padded_left(&mut s, "TID", 6);
    s.append(" ");
    push_padded_right(&mut s, "EVENT", 10);
    s.append(" ");
    push_padded_right(&mut s, "PROTO", 6);
    s.append(" ");
    push_padded_right(&mut s, "DIR", 7);
    s.append(" ");
    push_padded_right(&mut s, "SOURCE", 22);
    s.append(" -> DESTINATION");
    s
}

/// An endpoint as `address:port`.
pub open spec fn endpoint_text(ip: [u8; 16], port: u16) -> Seq<char> {
    ip_text(ip@) + ":"@ + decimal(port as nat)
}

/// The line the monitor prints for `e`, whose process runs `exe`: the
/// process name and executable padded to 16 and 28 characters, pid and tid
/// right-aligned in 6, the event type, protocol and direction as they are,
/// the source padded to 22, then `->` and the destination.
pub open spec fn event_text(e: NetEvent, exe: Seq<char>) -> Seq<char> {
    pad_right(utf8_lossy(name_bytes(e.comm@)), 16) + " "@ + pad_right(exe, 28) + " "@ + pad_left(
        decimal(e.pid as nat),
        6,
    ) + " "@ + pad_left(decimal(e.tid as nat), 6) + " "@ + event_label(e.event) + " "@
        + protocol_label(e.protocol) + " "@ + direction_label(e.direction) + " "@ + pad_right(
        endpoint_text(e.src_ip, e.src_port),
        22,
    ) + " -> "@ + endpoint_text(e.dst_ip, e.dst_port)
}

fn endpoint_string(ip: &[u8; 16], port: u16) -> (s: String)
    ensures
        s@ == endpoint_text(*ip, port),
{
    let mut s = ip_to_string(ip);
    s.append(":");
    push_decimal(&mut s, port as u64);
    s
}

fn decimal_string(n: u32) -> (s: String)
    ensures
        s@ == decimal(n as nat),
{
    let mut s = String::new();
    push_decimal(&mut s, n as u64);
    s
}

/// The line the monitor prints for `event`, whose process runs `exe`.
pub fn event_line(event: &NetEvent, exe: &str) -> (s: String)
    ensures
        s@ == event_text(*event, exe@),
{
    let mut s = String::new();
    let comm = comm_to_string(event.comm.as_slice());
    push_padded_right(&mut s, comm.as_str(), 16);
    s.append(" ");
    push_padded_right(&mut s, exe, 28);
    s.append(" ");
    let pid = decimal_string(event.pid);
    push_padded_left(&mut s, pid.as_str(), 6);
    s.append(" ");
    let tid = decimal_string(event.tid);
    push_padded_left(&mut s, tid.as_str(), 6);
    s.append(" ");
    s.append(event.event.as_str());
    s.append(" ");
    s.append(event.protocol.as_str());
    s.append(" ");
    s.append(event.direction.as_str());
    s.append(" ");
    let src = endpoint_string(&event.src_ip, event.src_port);
    push_padded_right(&mut s, src.as_str(), 22);
    s.append(" -> ");
    let dst = endpoint_string(&event.dst_ip, event.dst_port);
    s.append(dst.as_str());
    proof {
        assert(s@ =~= event_text(*event, exe@));
    }
    s
}

/// The headings of the timed listing: time of day, process, pid, protocol,
/// event type, result and connection.
pub open spec fn timed_header_text() -> Seq<char> {
    pad_right("TIME"@, 12) + " "@ + pad_right("COMM"@, 16) + " "@ + pad_left("PID"@, 6) + " "@
        + pad_right("PROTO"@, 5) + " "@ + pad_right("EVENT"@, 9) + " "@ + pad_right(
        "RESULT"@,
        10,
    ) + " CONNECTION"@
}

pub fn timed_header_line() -> (s: String)
    ensures
        s@ == timed_header_text(),
{
    let mut s = String::new();
    push_padded_right(&mut s, "TIME", 12);
    s.append(" ");
    push_padded_right(&mut s, "COMM", 16);
    s.append(" ");
    push_padded_left(&mut s, "PID", 6);
    s.append(" ");
    push_padded_right(&mut s, "PROTO", 5);
    s.append(" ");
    push_padded_right(&mut s, "EVENT", 9);
    s.append(" ");
    push_padded_right(&mut s, "RESULT", 10);
    s.append(" CONNECTION");
    s
}

/// The line of the timed listing for `e` at the time of day `time`: the
/// time and process name padded to 12 and 16 characters, the pid
/// right-aligned in 6, protocol and event type as they are, the result
/// padded to 10, then the source, the arrow and the destination.
pub open spec fn timed_event_text(e: NetEvent, time: Seq<char>) -> Seq<char> {
    pad_right(time, 12) + " "@ + pad_right(utf8_lossy(name_bytes(e.comm@)), 16) + " "@ + pad_left(
        decimal(e.pid as nat),
        6,
    ) + " "@ + protocol_label(e.protocol) + " "@ + event_label(e.event) + " "@ + pad_right(
        result_text(e.ret),
        10,
    ) + " "@ + endpoint_text(e.src_ip, e.src_port) + " "@ + arrow_text(e.event) + " "@
        + endpoint_text(e.dst_ip, e.dst_port)
}

/// The line of the timed listing for `event` at the time of day `time`.
pub fn timed_event_line(event: &NetEvent, time: &str) -> (s: String)
    ensures
        s@ == timed_event_text(*event, time@),
{
    let mut s = String::new();
    push_padded_right(&mut s, time, 12);
    s.append(" ");
    let comm = comm_to_string(event.comm.as_slice());
    push_padded_right(&mut s, comm.as_str(), 16);
    s.append(" ");
    let pid = decimal_string(event.pid);
    push_padded_left(&mut s, pid.as_str(), 6);
    s.append(" ");
    s.append(event.protocol.as_str());
    s.append(" ");
    s.append(event.event.as_str());
    s.append(" ");
    let r = result_string(event.ret);
    push_padded_right(&mut s, r.as_str(), 10);
    s.append(" ");
    let src = endpoint_string(&event.src_ip, event.src_port);
    s.append(src.as_str());
    s.append(" ");
    s.append(arrow(event.event));
    s.append(" ");
    let dst = endpoint_string(&event.dst_ip, event.dst_port);
    s.append(dst.as_str());
    proof {
        assert(s@ =~= timed_event_text(*event, time@));
    }
    s
}

/// How long a cached executable path is trusted: 30 seconds.
pub const EXE_TTL_NS: u64 = 30_000_000_000;

/// What the monitor shows for a process whose executable it cannot read.
pub open spec fn exe_text(link: Option<String>) -> Seq<char> {
    match link {
        Some(p) => p@,
        None => "<unknown>"@,
    }
}

/// The executable path to cache: the link's target, or "<unknown>".
fn resolve_exe(link: Option<String>) -> (s: String)
    ensures
        s@ == exe_text(link),
{
    match link {
        Some(p) => p,
        None => String::from_str("<unknown>"),
    }
}

/// Executable paths by process id, each with the time it was read.
pub struct ProcessCache {
    cache: HashMap<u32, (String, u64)>,
}

/// An entry read at `ts` is still fresh at `now`: less than the TTL has
/// passed (no time has passed if the clock reads earlier).
pub open spec fn fresh(ts: u64, now: u64) -> bool {
    (if now >= ts {
        now - ts
    } else {
        0
    }) < EXE_TTL_NS
}

impl View for ProcessCache {
    type V = Map<u32, (Seq<char>, u64)>;

    closed spec fn view(&self) -> Map<u32, (Seq<char>, u64)> {
        self.cache@.map_values(|v: (String, u64)| (v.0@, v.1))
    }
}

impl ProcessCache {
    pub fn new() -> (c: Self)
        ensures
            c@ == Map::<u32, (Seq<char>, u64)>::empty(),
    {
        let c = ProcessCache { cache: HashMap::new() };
        assert(c@ =~= Map::<u32, (Seq<char>, u64)>::empty());
        c
    }

    /// The cached path of `pid` if it was read less than the TTL before `now`.
    pub fn cached_exe(&self, pid: u32, now: u64) -> (r: Option<String>)
        ensures
            match r {
                Some(e) => self@.contains_key(pid) && fresh(self@[pid].1, now) && e@
                    == self@[pid].0,
                None => !self@.contains_key(pid) || !fresh(self@[pid].1, now),
            },
    {
        match self.cache.get(&pid) {
            Some(entry) => {
                let ts = entry.1;
                let elapsed = now.saturating_sub(ts);
                if elapsed < EXE_TTL_NS {
                    Some(entry.0.clone())
                } else {
                    None
                }
            },
            None => None,
        }
    }

    /// Caches the executable of `pid` read at `now` from the link `link` (its
    /// target, or `None` when it could not be read) and returns the path the
    /// monitor shows for it.
    pub fn record_exe(&mut self, pid: u32, link: Option<String>, now: u64) -> (s: String)
        ensures
            s@ == exe_text(link),
            final(self)@ == old(self)@.insert(pid, (s@, now)),
    {
        let exe = resolve_exe(link);
        let ghost e = exe@;
        self.cache.insert(pid, (exe.clone(), now));
        assert(final(self)@ =~= old(self)@.insert(pid, (e, now)));
        exe
    }
}

/// What was just cached for a process is what the cache answers for it
/// until the TTL has passed, after which it is read again; the other
/// processes keep what they had.
pub proof fn lemma_recorded_exe_cached(
    c: Map<u32, (Seq<char>, u64)>,
    pid: u32,
    exe: Seq<char>,
    now: u64,
    later: u64,
    other: u32,
)
    requires
        now <= later,
        other != pid,
    ensures
        c.insert(pid, (exe, now)).contains_key(pid),
        c.insert(pid, (exe, now))[pid].0 == exe,
        fresh(c.insert(pid, (exe, now))[pid].1, later) <==> later - now < EXE_TTL_NS,
        c.insert(pid, (exe, now)).contains_key(other) == c.contains_key(other),
        c.contains_key(other) ==> c.insert(pid, (exe, now))[other] == c[other],
{
}

} // verus!
