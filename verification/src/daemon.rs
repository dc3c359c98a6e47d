//! The protocol between the command line and the daemon: which request a
//! command sends, how messages are framed, what the daemon does with a
//! request, and what the command line prints for each answer.

use vstd::prelude::*;
use vstd::string::StringExecFns;
use crate::codec::{be32, from_be32, push_be32, read_be32, lemma_be32_roundtrip, lemma_from_be32_bytes};
use crate::ipv4::{dotted, key_to_string};
use crate::target::{
    block_first, block_last, block_range, lemma_names_block_unique, names_block, parse_block,
};
use crate::text::{decimal, push_decimal};
use crate::firewall::{ban_verdict_spec, XdpAction};
use crate::{BanValue, StatsValue};

verus! {

/// The daemon's listening socket.
pub const SOCKET_PATH: &'static str = "/tmp/rustguard.sock";

/// What the command line was asked to do.
#[derive(Clone, Debug, PartialEq, Eq)]
pub enum Commands {
    /// Start the rustguard daemon.
    Daemon { iface: String },
    /// Ban a target for `ttl` seconds, or for good.
    Ban { target: String, ttl: Option<u64> },
    /// Unban a target.
    Unban { target: String },
    /// List all active bans.
    List,
    /// Show statistics.
    Stats,
    /// Print connections as the probes see them.
    Monitor,
}

/// A request from the command line to the daemon.
#[derive(Clone, Debug, PartialEq, Eq)]
pub enum DaemonRequest {
    Ban { target: String, ttl: Option<u64> },
    Unban { target: String },
    List,
    Stats,
}

/// The daemon's answer.
#[derive(Clone, Debug, PartialEq, Eq)]
pub enum DaemonResponse {
    Success,
    Error(String),
    List(Vec<String>),
    Stats(String),
}

/// Why the command line could not finish a request.
#[derive(Clone, Copy, Debug, PartialEq, Eq, Structural)]
pub enum ClientError {
    /// The command is not one the daemon serves.
    NotImplemented,
    /// The daemon announced an empty answer.
    EmptyResponse,
}

pub open spec fn client_error_text(e: ClientError) -> Seq<char> {
    match e {
        ClientError::NotImplemented => "Command not implemented for CLI"@,
        ClientError::EmptyResponse => "daemon returned empty response"@,
    }
}

impl ClientError {
    /// The message the command line fails with.
    pub fn message(self) -> (s: &'static str)
        ensures
            s@ == client_error_text(self),
    {
        match self {
            ClientError::NotImplemented => "Command not implemented for CLI",
            ClientError::EmptyResponse => "daemon returned empty response",
        }
    }
}

/// The request a command sends; starting the daemon and monitoring are not
/// requests.
pub fn request_for_command(cmd: Commands) -> (r: Result<DaemonRequest, ClientError>)
    ensures
        match cmd {
            Commands::Ban { target, ttl } => r == Ok::<DaemonRequest, ClientError>(
                DaemonRequest::Ban { target, ttl },
            ),
            Commands::Unban { target } => r == Ok::<DaemonRequest, ClientError>(
                DaemonRequest::Unban { target },
            ),
            Commands::List => r == Ok::<DaemonRequest, ClientError>(DaemonRequest::List),
            Commands::Stats => r == Ok::<DaemonRequest, ClientError>(DaemonRequest::Stats),
            _ => r == Err::<DaemonRequest, ClientError>(ClientError::NotImplemented),
        },
{
    match cmd {
        Commands::Ban { target, ttl } => Ok(DaemonRequest::Ban { target, ttl }),
        Commands::Unban { target } => Ok(DaemonRequest::Unban { target }),
        Commands::List => Ok(DaemonRequest::List),
        Commands::Stats => Ok(DaemonRequest::Stats),
        _ => Err(ClientError::NotImplemented),
    }
}

/// A message on the socket: its length as four big-endian bytes (the length
/// taken modulo 2^32, as a `u32` holds it), then the message.
pub open spec fn framed(body: Seq<u8>) -> Seq<u8> {
    be32((body.len() % 0x1_0000_0000) as u32) + body
}

/// Frames `body` for the socket.
pub fn encode_frame(body: &Vec<u8>) -> (f: Vec<u8>)
    ensures
        f@ == framed(body@),
{
    let n = body.len();
    let len32: u32 = (n as u64 % 0x1_0000_0000u64) as u32;
    let mut f: Vec<u8> = Vec::new();
    push_be32(&mut f, len32);
    let mut i: usize = 0;
    while i < n
        invariant
            i <= n,
            n == body@.len(),
            f@ == be32(len32) + body@.subrange(0, i as int),
        decreases n - i,
    {
        f.push(body[i]);
        i = i + 1;
        assert(f@ =~= be32(len32) + body@.subrange(0, i as int));
    }
    assert(body@.subrange(0, n as int) =~= body@);
    f
}

/// The length a frame announces in its first four bytes.
pub fn frame_length(header: [u8; 4]) -> (n: u32)
    ensures
        n == from_be32(header@, 0),
{
    let s: &[u8] = header.as_slice();
    read_be32(s, 0)
}

/// The length of the answer body to read, or the error for an empty answer.
pub fn response_body_len(len: u32) -> (r: Result<usize, ClientError>)
    ensures
        len == 0 ==> r == Err::<usize, ClientError>(ClientError::EmptyResponse),
        len != 0 ==> r == Ok::<usize, ClientError>(len as usize),
{
    if len == 0 {
        Err(ClientError::EmptyResponse)
    } else {
        Ok(len as usize)
    }
}

/// A frame announces the length of what it carries, and carries it.
pub proof fn lemma_frame_roundtrip(body: Seq<u8>)
    requires
        body.len() < 0x1_0000_0000,
    ensures
        from_be32(framed(body), 0) == body.len(),
        framed(body).subrange(4, framed(body).len() as int) == body,
{
    let f = framed(body);
    let n = body.len() as u32;
    lemma_be32_roundtrip(n);
    assert(f.subrange(0, 4) =~= be32(n));
    assert(from_be32(f, 0) == from_be32(f.subrange(0, 4), 0));
    assert(f.subrange(4, f.len() as int) =~= body);
}

/// What the daemon does for a request.
#[derive(Clone, Debug, PartialEq, Eq)]
pub enum DaemonAction {
    /// Ban every key from `first` to `last` (addresses held as numbers,
    /// first octet most significant) for `ttl` seconds, or for good, key by
    /// key as `ban_progress` says, and answer what it says.
    Ban { first: u32, last: u32, ttl: Option<u64> },
    /// Remove the bans on the keys from `first` to `last`; then answer
    /// `Success`.
    Unban { first: u32, last: u32 },
    /// Answer with the active bans.
    List,
    /// Answer with the statistics.
    Stats,
    /// Answer at once.
    Reply(DaemonResponse),
}

/// An error answer with text `t`.
pub open spec fn is_error(r: DaemonResponse, t: Seq<char>) -> bool {
    r matches DaemonResponse::Error(e) && e@ == t
}

/// The daemon's plan for a request: a ban or an unban takes an address
/// `a.b.c.d` or a block `a.b.c.d/n` and covers the keys of that block;
/// a target that names none is answered "invalid ip".
pub fn plan_request(req: &DaemonRequest) -> (a: DaemonAction)
    ensures
        match *req {
            DaemonRequest::Ban { target, ttl } => {
                &&& (forall|o: Seq<u8>, n: nat| !#[trigger] names_block(target@, o, n)) ==> (
                a matches DaemonAction::Reply(r) && is_error(r, "invalid ip"@))
                &&& forall|o: Seq<u8>, n: nat| #[trigger]
                    names_block(target@, o, n) ==> a == DaemonAction::Ban {
                        first: block_first(from_be32(o, 0), n),
                        last: block_last(from_be32(o, 0), n),
                        ttl,
                    }
            },
            DaemonRequest::Unban { target } => {
                &&& (forall|o: Seq<u8>, n: nat| !#[trigger] names_block(target@, o, n)) ==> (
                a matches DaemonAction::Reply(r) && is_error(r, "invalid ip"@))
                &&& forall|o: Seq<u8>, n: nat| #[trigger]
                    names_block(target@, o, n) ==> a == DaemonAction::Unban {
                        first: block_first(from_be32(o, 0), n),
                        last: block_last(from_be32(o, 0), n),
                    }
            },
            DaemonRequest::List => a == DaemonAction::List,
            DaemonRequest::Stats => a == DaemonAction::Stats,
        },
{
    match req {
        DaemonRequest::Ban { target, ttl } => match parse_block(target.as_str()) {
            Some((o, n)) => {
                let (first, last) = block_range(o, n);
                proof {
                    assert forall|p: Seq<u8>, m: nat| #[trigger]
                        names_block(target@, p, m) implies p == o@ && m == n by {
                        lemma_names_block_unique(target@, p, m, o@, n as nat);
                    }
                }
                DaemonAction::Ban { first, last, ttl: *ttl }
            },
            None => invalid_ip(),
        },
        DaemonRequest::Unban { target } => match parse_block(target.as_str()) {
            Some((o, n)) => {
                let (first, last) = block_range(o, n);
                proof {
                    assert forall|p: Seq<u8>, m: nat| #[trigger]
                        names_block(target@, p, m) implies p == o@ && m == n by {
                        lemma_names_block_unique(target@, p, m, o@, n as nat);
                    }
                }
                DaemonAction::Unban { first, last }
            },
            None => invalid_ip(),
        },
        DaemonRequest::List => DaemonAction::List,
        DaemonRequest::Stats => DaemonAction::Stats,
    }
}

fn invalid_ip() -> (a: DaemonAction)
    ensures
        a matches DaemonAction::Reply(r) && is_error(r, "invalid ip"@),
{
    DaemonAction::Reply(DaemonResponse::Error(String::from_str("invalid ip")))
}

/// The answer to a request the daemon could not read.
pub fn invalid_request() -> (r: DaemonResponse)
    ensures
        is_error(r, "invalid request"@),
{
    DaemonResponse::Error(String::from_str("invalid request"))
}

/// When a ban of `ttl` seconds made at time `now` (in nanoseconds) ends:
/// `ttl` seconds later, or never (0) without a `ttl`.
pub open spec fn ban_end_time(now: u64, ttl: Option<u64>) -> int {
    match ttl {
        Some(t) => now + t * 1_000_000_000,
        None => 0,
    }
}

/// The ban stored for a ban of `ttl` seconds made at time `now`.
pub fn ban_value(now: u64, ttl: Option<u64>) -> (b: BanValue)
    requires
        ban_end_time(now, ttl) <= u64::MAX,
    ensures
        b.end_time == ban_end_time(now, ttl),
        ttl matches Some(t) ==> b.end_time - now == t * 1_000_000_000,
        ttl is None ==> b.end_time == 0,
{
    match ttl {
        Some(t) => BanValue { end_time: now + t * 1_000_000_000 },
        None => BanValue { end_time: 0 },
    }
}

/// The answer once an unban has been carried out on the ban map:
/// `Success` (a key that was not there is no error).
pub fn update_done() -> (r: DaemonResponse)
    ensures
        r == DaemonResponse::Success,
{
    DaemonResponse::Success
}

/// How a ban of the keys up to `last` goes on once the key `key` has been
/// offered to the ban map.
#[derive(Clone, Debug, PartialEq, Eq)]
pub enum BanProgress {
    /// Offer this key next.
    Next(u32),
    /// The ban is over; answer this.
    Done(DaemonResponse),
}

/// What the daemon does after offering `key` of a ban that ends at `last`
/// to the ban map, where `stored` tells whether the map took it: the next
/// key while the block goes on, `Success` once its last key is stored, and
/// "ban not stored" as soon as the map refuses a key (a full map takes no
/// more), so a block that was not banned whole is not answered `Success`.
pub fn ban_progress(key: u32, last: u32, stored: bool) -> (p: BanProgress)
    ensures
        stored && key < last ==> p == BanProgress::Next((key + 1) as u32),
        stored && key >= last ==> p == BanProgress::Done(DaemonResponse::Success),
        !stored ==> (p matches BanProgress::Done(r) && is_error(r, "ban not stored"@)),
{
    if !stored {
        BanProgress::Done(DaemonResponse::Error(String::from_str("ban not stored")))
    } else if key < last {
        BanProgress::Next(key + 1)
    } else {
        BanProgress::Done(DaemonResponse::Success)
    }
}

/// A ban is active at time `now` while the XDP program drops its source:
/// it is permanent (end time 0) or has not ended yet.
pub open spec fn ban_active(b: BanValue, now: u64) -> bool {
    b.end_time == 0 || now <= b.end_time
}

/// The keys of the active bans among `entries`, in their order.
pub open spec fn active_keys_of(entries: Seq<(u32, BanValue)>, now: u64) -> Seq<u32>
    decreases entries.len(),
{
    if entries.len() == 0 {
        Seq::empty()
    } else {
        let rest = active_keys_of(entries.drop_last(), now);
        if ban_active(entries.last().1, now) {
            rest.push(entries.last().0)
        } else {
            rest
        }
    }
}

/// The keys of the bans in `entries` (the ban map's entries) that are
/// active at time `now`, in the order given.
pub fn active_keys(entries: &Vec<(u32, BanValue)>, now: u64) -> (keys: Vec<u32>)
    ensures
        keys@ == active_keys_of(entries@, now),
        keys@ == entries@.filter(
            |e: (u32, BanValue)| e.1.end_time == 0 || now <= e.1.end_time,
        ).map_values(|e: (u32, BanValue)| e.0),
{
    proof {
        lemma_active_keys_are_the_dropped(entries@, now);
    }
    let mut keys: Vec<u32> = Vec::new();
    let mut i: usize = 0;
    while i < entries.len()
        invariant
            i <= entries@.len(),
            keys@ == active_keys_of(entries@.subrange(0, i as int), now),
        decreases entries@.len() - i,
    {
        let ghost prefix = entries@.subrange(0, i + 1);
        assert(prefix.drop_last() =~= entries@.subrange(0, i as int));
        let (key, ban) = entries[i];
        if ban.end_time == 0 || now <= ban.end_time {
            keys.push(key);
        }
        i = i + 1;
    }
    assert(entries@.subrange(0, entries@.len() as int) =~= entries@);
    keys
}

/// The keys among `keys` from `first` to `last`, in their order.
pub open spec fn keys_in_range(keys: Seq<u32>, first: u32, last: u32) -> Seq<u32>
    decreases keys.len(),
{
    if keys.len() == 0 {
        Seq::empty()
    } else {
        let rest = keys_in_range(keys.drop_last(), first, last);
        if first <= keys.last() <= last {
            rest.push(keys.last())
        } else {
            rest
        }
    }
}

/// The keys among `keys` (the ban map's keys) that an unban from `first` to
/// `last` removes, in the order given.
pub fn keys_in_block(keys: &Vec<u32>, first: u32, last: u32) -> (r: Vec<u32>)
    ensures
        r@ == keys_in_range(keys@, first, last),
        r@ == keys@.filter(|k: u32| first <= k && k <= last),
        forall|k: u32| r@.contains(k) <==> keys@.contains(k) && first <= k && k <= last,
{
    proof {
        lemma_unban_takes_only_its_block(keys@, first, last);
    }
    let mut r: Vec<u32> = Vec::new();
    let mut i: usize = 0;
    while i < keys.len()
        invariant
            i <= keys@.len(),
            r@ == keys_in_range(keys@.subrange(0, i as int), first, last),
        decreases keys@.len() - i,
    {
        let ghost prefix = keys@.subrange(0, i + 1);
        assert(prefix.drop_last() =~= keys@.subrange(0, i as int));
        let k = keys[i];
        if first <= k && k <= last {
            r.push(k);
        }
        i = i + 1;
    }
    assert(keys@.subrange(0, keys@.len() as int) =~= keys@);
    r
}

/// Listing keeps exactly the bans the XDP program still drops, compared as
/// full 64-bit times: the keys of the entries whose ban is permanent or
/// ends at or after `now`, in their order, and only those.
pub proof fn lemma_active_keys_are_the_dropped(entries: Seq<(u32, BanValue)>, now: u64)
    ensures
        active_keys_of(entries, now) == entries.filter(
            |e: (u32, BanValue)| e.1.end_time == 0 || now <= e.1.end_time,
        ).map_values(|e: (u32, BanValue)| e.0),
        forall|k: u32, b: BanValue|
            active_keys_of(seq![(k, b)], now) == (if ban_verdict_spec(Some(b), now)
                == XdpAction::Drop {
                seq![k]
            } else {
                Seq::<u32>::empty()
            }),
    decreases entries.len(),
{
    let pred = |e: (u32, BanValue)| e.1.end_time == 0 || now <= e.1.end_time;
    let key = |e: (u32, BanValue)| e.0;
    reveal(Seq::filter);
    if entries.len() > 0 {
        lemma_active_keys_are_the_dropped(entries.drop_last(), now);
        let f0 = entries.drop_last().filter(pred);
        if pred(entries.last()) {
            assert(f0.push(entries.last()).map_values(key) =~= f0.map_values(key).push(
                entries.last().0,
            ));
        }
    } else {
        assert(entries.filter(pred).map_values(key) =~= Seq::<u32>::empty());
    }
    assert forall|k: u32, b: BanValue|
        active_keys_of(seq![(k, b)], now) == (if ban_verdict_spec(Some(b), now)
            == XdpAction::Drop {
            seq![k]
        } else {
            Seq::<u32>::empty()
        }) by {
        let one = seq![(k, b)];
        assert(one.drop_last() =~= Seq::<(u32, BanValue)>::empty());
        assert(active_keys_of(one.drop_last(), now) =~= Seq::<u32>::empty());
        assert(one.last() == (k, b));
        assert(Seq::<u32>::empty().push(k) =~= seq![k]);
    }
}

/// An unban takes out exactly the keys of its own block: the keys of the
/// map from `first` to `last`, compared as full 32-bit numbers, in their
/// order, and no key outside that range.
pub proof fn lemma_unban_takes_only_its_block(keys: Seq<u32>, first: u32, last: u32)
    ensures
        keys_in_range(keys, first, last) == keys.filter(|k: u32| first <= k && k <= last),
        forall|k: u32|
            keys_in_range(keys, first, last).contains(k) <==> keys.contains(k) && first <= k
                && k <= last,
    decreases keys.len(),
{
    let pred = |k: u32| first <= k && k <= last;
    reveal(Seq::filter);
    if keys.len() > 0 {
        lemma_unban_takes_only_its_block(keys.drop_last(), first, last);
        let r0 = keys_in_range(keys.drop_last(), first, last);
        assert forall|k: u32|
            keys_in_range(keys, first, last).contains(k) <==> keys.contains(k) && first <= k
                && k <= last by {
            if keys.contains(k) && first <= k && k <= last {
                let i = choose|i: int| 0 <= i < keys.len() && keys[i] == k;
                if i < keys.len() - 1 {
                    assert(keys.drop_last()[i] == k);
                    assert(keys.drop_last().contains(k));
                    if pred(keys.last()) {
                        let j = choose|j: int| 0 <= j < r0.len() && r0[j] == k;
                        assert(r0.push(keys.last())[j] == k);
                    }
                } else {
                    assert(r0.push(keys.last())[r0.len() as int] == k);
                }
            }
            if keys_in_range(keys, first, last).contains(k) {
                let j = choose|j: int|
                    0 <= j < keys_in_range(keys, first, last).len() && keys_in_range(
                        keys,
                        first,
                        last,
                    )[j] == k;
                if j < r0.len() {
                    assert(r0[j] == k);
                    assert(r0.contains(k));
                    assert(keys.drop_last().contains(k));
                    let i = choose|i: int| 0 <= i < keys.drop_last().len() && keys.drop_last()[i] == k;
                    assert(keys[i] == k);
                } else {
                    assert(pred(keys.last()));
                    assert(keys_in_range(keys, first, last) == r0.push(keys.last()));
                    assert(keys[keys.len() - 1] == k);
                }
            }
        }
    } else {
        assert forall|k: u32|
            keys_in_range(keys, first, last).contains(k) <==> keys.contains(k) && first <= k
                && k <= last by {
            if keys.contains(k) {
                let i = choose|i: int| 0 <= i < keys.len() && keys[i] == k;
            }
        }
    }
}

/// A timed ban ends `ttl` seconds after it was made and no earlier: its end
/// time is `ttl` seconds of nanoseconds after `now`, and at every time from
/// `now` to that end the XDP program drops its address.
pub proof fn lemma_ban_lasts_ttl(now: u64, t: u64, later: u64)
    requires
        ban_end_time(now, Some(t)) <= u64::MAX,
        t >= 1,
        now <= later,
        later <= now + t * 1_000_000_000,
    ensures
        ban_end_time(now, Some(t)) == now + t * 1_000_000_000,
        ban_end_time(now, Some(t)) >= now + 1_000_000_000,
        ban_verdict_spec(Some(BanValue { end_time: ban_end_time(now, Some(t)) as u64 }), later)
            == XdpAction::Drop,
{
    assert(t * 1_000_000_000 >= 1_000_000_000) by (nonlinear_arith)
        requires
            t >= 1,
    ;
}

/// The ban map after banning the keys from `first` to `last` with `b`,
/// when the map takes every one of them.
pub open spec fn map_after_ban(m: Map<u32, BanValue>, first: u32, last: u32, b: BanValue) -> Map<
    u32,
    BanValue,
> {
    Map::new(
        |k: u32| m.contains_key(k) || first <= k <= last,
        |k: u32|
            if first <= k <= last {
                b
            } else {
                m[k]
            },
    )
}

/// The ban map after removing the keys from `first` to `last`.
pub open spec fn map_after_unban(m: Map<u32, BanValue>, first: u32, last: u32) -> Map<
    u32,
    BanValue,
> {
    Map::new(|k: u32| m.contains_key(k) && !(first <= k <= last), |k: u32| m[k])
}

/// An unban undoes a ban of the same target: both cover the same keys (see
/// `plan_request`), and banning them then unbanning them leaves none of
/// them banned and every other key as it was before the ban.
pub proof fn lemma_unban_undoes_ban(m: Map<u32, BanValue>, first: u32, last: u32, b: BanValue)
    ensures
        map_after_unban(map_after_ban(m, first, last, b), first, last) == map_after_unban(
            m,
            first,
            last,
        ),
        forall|k: u32|
            first <= k <= last ==> !#[trigger] map_after_unban(
                map_after_ban(m, first, last, b),
                first,
                last,
            ).contains_key(k),
        forall|k: u32|
            !(first <= k <= last) ==> (#[trigger] map_after_unban(
                map_after_ban(m, first, last, b),
                first,
                last,
            ).contains_key(k) == m.contains_key(k)) && (m.contains_key(k) ==> map_after_unban(
                map_after_ban(m, first, last, b),
                first,
                last,
            )[k] == m[k]),
{
    assert(map_after_unban(map_after_ban(m, first, last, b), first, last) =~= map_after_unban(
        m,
        first,
        last,
    ));
}

/// What is listed is what the XDP program drops: a ban is active exactly
/// when a frame from its address is dropped at that time.
pub proof fn lemma_active_means_dropped(b: BanValue, now: u64)
    ensures
        ban_active(b, now) <==> ban_verdict_spec(Some(b), now) == XdpAction::Drop,
{
}

/// The answer listing the banned addresses `keys`, in the order given.
pub fn list_response(keys: &Vec<u32>) -> (r: DaemonResponse)
    ensures
        r matches DaemonResponse::List(v) && v@.len() == keys@.len() && forall|i: int|
            0 <= i < keys@.len() ==> (#[trigger] v@[i])@ == dotted(be32(keys@[i])),
{
    let mut v: Vec<String> = Vec::new();
    let mut i: usize = 0;
    while i < keys.len()
        invariant
            i <= keys@.len(),
            v@.len() == i,
            forall|j: int| 0 <= j < i ==> (#[trigger] v@[j])@ == dotted(be32(keys@[j])),
        decreases keys@.len() - i,
    {
        v.push(key_to_string(keys[i]));
        i = i + 1;
    }
    DaemonResponse::List(v)
}

/// The statistics answer: the dropped-packet count, or "No stats" when the
/// statistics entry could not be read.
pub fn stats_response(stats: Option<StatsValue>) -> (r: DaemonResponse)
    ensures
        r matches DaemonResponse::Stats(s) && s@ == match stats {
            Some(v) => "Packets dropped: "@ + decimal(v.packets_dropped as nat),
            None => "No stats"@,
        },
{
    match stats {
        Some(v) => {
            let mut s = String::from_str("Packets dropped: ");
            push_decimal(&mut s, v.packets_dropped);
            DaemonResponse::Stats(s)
        },
        None => DaemonResponse::Stats(String::from_str("No stats")),
    }
}

/// An address is listed as it was given: the key a ban of `dotted(o)` is
/// stored under is written back as `dotted(o)`.
pub proof fn lemma_listed_as_given(o: Seq<u8>)
    requires
        o.len() == 4,
    ensures
        dotted(be32(from_be32(o, 0))) == dotted(o),
{
    lemma_from_be32_bytes(o, 0);
    assert(o.subrange(0, 4) =~= o);
}

/// The lines the command line prints for an answer.
pub open spec fn response_text(r: DaemonResponse) -> Seq<Seq<char>> {
    match r {
        DaemonResponse::Success => seq!["Success"@],
        DaemonResponse::Error(e) => seq!["Error: "@ + e@],
        DaemonResponse::List(items) => seq!["Active bans:"@] + items@.map_values(
            |item: String| "  "@ + item@,
        ),
        DaemonResponse::Stats(s) => seq!["Stats: "@ + s@],
    }
}

/// The lines the command line prints for the answer `r`.
pub fn response_lines(r: &DaemonResponse) -> (lines: Vec<String>)
    ensures
        lines@.len() == response_text(*r).len(),
        forall|i: int| 0 <= i < lines@.len() ==> (#[trigger] lines@[i])@ == response_text(*r)[i],
{
    let mut lines: Vec<String> = Vec::new();
    match r {
        DaemonResponse::Success => {
            lines.push(String::from_str("Success"));
        },
        DaemonResponse::Error(e) => {
            let mut l = String::from_str("Error: ");
            l.append(e.as_str());
            lines.push(l);
        },
        DaemonResponse::List(items) => {
            lines.push(String::from_str("Active bans:"));
            let ghost spec_lines = response_text(*r);
            let mut i: usize = 0;
            while i < items.len()
                invariant
                    i <= items@.len(),
                    spec_lines == response_text(*r),
                    *r == DaemonResponse::List(*items),
                    lines@.len() == i + 1,
                    forall|j: int| 0 <= j < lines@.len() ==> (#[trigger] lines@[j])@ == spec_lines[j],
                decreases items@.len() - i,
            {
                let mut l = String::from_str("  ");
                l.append(items[i].as_str());
                lines.push(l);
                i = i + 1;
            }
        },
        DaemonResponse::Stats(s) => {
            let mut l = String::from_str("Stats: ");
            l.append(s.as_str());
            lines.push(l);
        },
    }
    lines
}

} // verus!
