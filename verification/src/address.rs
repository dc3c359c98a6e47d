//! Socket addresses as the monitor prints them: IPv4 in the first bytes,
//! IPv4-mapped IPv6, or IPv6 in its shortest standard form.

use vstd::prelude::*;
use vstd::string::StringExecFns;
use crate::ipv4::{dotted, ipv4_to_string};
use crate::text::{hex, push_char, push_digits};

verus! {

/// The eight 16-bit groups of a sixteen-byte address, most significant
/// byte first.
pub open spec fn segments(b: Seq<u8>) -> Seq<u16> {
    Seq::new(8, |i: int| ((b[2 * i] as int) * 256 + (b[2 * i + 1] as int)) as u16)
}

/// The groups joined by `:`, each in lower-case hex without leading zeros.
pub open spec fn hex_groups(g: Seq<u16>) -> Seq<char>
    decreases g.len(),
{
    if g.len() == 0 {
        Seq::empty()
    } else if g.len() == 1 {
        hex(g[0] as nat)
    } else {
        hex_groups(g.drop_last()) + seq![':'] + hex(g.last() as nat)
    }
}

/// Every group in `[a, b)` is zero.
pub open spec fn all_zero(g: Seq<u16>, a: int, b: int) -> bool {
    forall|j: int| a <= j < b ==> #[trigger] g[j] == 0
}

/// `[start, start + len)` is the first of the longest runs of zero groups
/// (`start` is 0 when there is no zero group).
pub open spec fn longest_zero_run(g: Seq<u16>, start: int, len: int) -> bool {
    &&& 0 <= start
    &&& 0 <= len
    &&& start + len <= g.len()
    &&& all_zero(g, start, start + len)
    &&& forall|a: int, l: int|
        0 <= a && 0 <= l && a + l <= g.len() && #[trigger] all_zero(g, a, a + l) ==> l <= len
    &&& forall|a: int| 0 <= a < start ==> !#[trigger] all_zero(g, a, a + len)
}

/// The groups of `g`, with the run `[start, start + len)` written as `::`
/// when it holds more than one group.
pub open spec fn compressed(g: Seq<u16>, start: int, len: int) -> Seq<char> {
    if len > 1 {
        hex_groups(g.subrange(0, start)) + seq![':', ':'] + hex_groups(g.subrange(start + len, 8))
    } else {
        hex_groups(g)
    }
}

/// An IPv6 address as `Ipv6Addr`'s `Display` writes one that is not
/// IPv4-mapped: its groups in hex, the first longest run of two or more
/// zero groups replaced by `::`.
pub open spec fn ipv6_text(b: Seq<u8>) -> Seq<char> {
    let g = segments(b);
    let run = choose|p: (int, int)| longest_zero_run(g, p.0, p.1);
    compressed(g, run.0, run.1)
}

/// There is only one first longest run.
pub proof fn lemma_longest_run_unique(g: Seq<u16>, s1: int, l1: int, s2: int, l2: int)
    requires
        longest_zero_run(g, s1, l1),
        longest_zero_run(g, s2, l2),
    ensures
        s1 == s2,
        l1 == l2,
{
    assert(all_zero(g, s1, s1 + l1));
    assert(all_zero(g, s2, s2 + l2));
    assert(l1 <= l2);
    assert(l2 <= l1);
    if s1 < s2 {
        assert(!all_zero(g, s1, s1 + l2));
    }
    if s2 < s1 {
        assert(!all_zero(g, s2, s2 + l1));
    }
}

fn segments_of(b: &[u8; 16]) -> (g: [u16; 8])
    ensures
        g@ == segments(b@),
{
    let mut g = [0u16; 8];
    let mut i: usize = 0;
    while i < 8
        invariant
            i <= 8,
            g@.len() == 8,
            b@.len() == 16,
            forall|j: int| 0 <= j < i ==> g@[j] == segments(b@)[j],
        decreases 8 - i,
    {
        g[i] = (b[2 * i] as u16) * 256 + (b[2 * i + 1] as u16);
        i = i + 1;
    }
    assert(g@ =~= segments(b@));
    g
}

/// Finds the first longest run of zero groups.
fn find_longest_zero_run(g: &[u16; 8]) -> (r: (usize, usize))
    ensures
        longest_zero_run(g@, r.0 as int, r.1 as int),
{
    let ghost s = g@;
    let mut best_start: usize = 0;
    let mut best_len: usize = 0;
    let mut cur_start: usize = 0;
    let mut cur_len: usize = 0;
    let mut i: usize = 0;
    while i < 8
        invariant
            s == g@,
            s.len() == 8,
            i <= 8,
            cur_start + cur_len == i,
            all_zero(s, cur_start as int, i as int),
            cur_start == 0 || s[cur_start - 1] != 0,
            best_start + best_len <= i,
            all_zero(s, best_start as int, (best_start + best_len) as int),
            forall|a: int, l: int|
                0 <= a && 0 <= l && a + l <= i && #[trigger] all_zero(s, a, a + l) ==> l
                    <= best_len,
            forall|a: int| 0 <= a < best_start ==> !#[trigger] all_zero(s, a, a + best_len),
        decreases 8 - i,
    {
        if g[i] == 0 {
            cur_len = cur_len + 1;
            proof {
                assert forall|a: int, l: int|
                    0 <= a && 0 <= l && a + l <= i + 1 && #[trigger] all_zero(
                        s,
                        a,
                        a + l,
                    ) implies l <= best_len || l <= cur_len by {
                    if a + l == i + 1 && a < cur_start {
                        assert(s[cur_start - 1] == 0);
                    }
                }
            }
            if cur_len > best_len {
                proof {
                    assert forall|a: int| 0 <= a < cur_start implies !#[trigger] all_zero(
                        s,
                        a,
                        a + cur_len,
                    ) by {
                        if a + cur_len <= i {
                            if all_zero(s, a, a + cur_len) {
                                assert(cur_len <= best_len);
                            }
                        } else {
                            assert(a <= cur_start - 1 < a + cur_len);
                            assert(s[cur_start - 1] != 0);
                        }
                    }
                }
                best_start = cur_start;
                best_len = cur_len;
            }
        } else {
            proof {
                assert forall|a: int, l: int|
                    0 <= a && 0 <= l && a + l <= i + 1 && #[trigger] all_zero(
                        s,
                        a,
                        a + l,
                    ) implies l <= best_len by {
                    if a + l == i + 1 && l > 0 {
                        assert(s[i as int] == 0);
                    }
                }
            }
            cur_start = i + 1;
            cur_len = 0;
        }
        i = i + 1;
    }
    (best_start, best_len)
}

/// Appends the groups `g[from..to]` joined by `:` to `out`.
fn push_hex_groups(out: &mut String, g: &[u16; 8], from: usize, to: usize)
    requires
        from <= to <= 8,
    ensures
        final(out)@ == old(out)@ + hex_groups(g@.subrange(from as int, to as int)),
{
    let mut i = from;
    while i < to
        invariant
            from <= i <= to <= 8,
            g@.len() == 8,
            out@ == old(out)@ + hex_groups(g@.subrange(from as int, i as int)),
        decreases to - i,
    {
        let ghost before = out@;
        if i > from {
            push_char(out, ':');
        }
        push_digits(out, g[i] as u64, 16);
        proof {
            let p = g@.subrange(from as int, i + 1);
            assert(p.drop_last() =~= g@.subrange(from as int, i as int));
            if i == from {
                assert(g@.subrange(from as int, i as int) =~= Seq::<u16>::empty());
            }
        }
        i = i + 1;
        assert(out@ =~= old(out)@ + hex_groups(g@.subrange(from as int, i as int)));
    }
}

/// Writes a sixteen-byte address in IPv6 form (see `ipv6_text`).
pub fn ipv6_to_string(b: &[u8; 16]) -> (s: String)
    ensures
        s@ == ipv6_text(b@),
{
    let g = segments_of(b);
    let (start, len) = find_longest_zero_run(&g);
    let mut s = String::new();
    if len > 1 {
        push_hex_groups(&mut s, &g, 0, start);
        s.append("::");
        push_hex_groups(&mut s, &g, start + len, 8);
    } else {
        push_hex_groups(&mut s, &g, 0, 8);
    }
    proof {
        reveal_strlit("::");
        assert(g@.subrange(0, 8) =~= g@);
        let run = choose|p: (int, int)| longest_zero_run(segments(b@), p.0, p.1);
        assert(longest_zero_run(segments(b@), start as int, len as int));
        lemma_longest_run_unique(segments(b@), start as int, len as int, run.0, run.1);
        assert(s@ =~= compressed(g@, start as int, len as int));
    }
    s
}

/// How the monitor writes an address field: IPv4 when all but the first
/// four bytes are zero, the embedded IPv4 address when it is IPv4-mapped
/// (`::ffff:a.b.c.d`), and IPv6 otherwise.
pub open spec fn ip_text(b: Seq<u8>) -> Seq<char> {
    if forall|j: int| 4 <= j < 16 ==> #[trigger] b[j] == 0 {
        dotted(b.subrange(0, 4))
    } else if (forall|j: int| 0 <= j < 10 ==> #[trigger] b[j] == 0) && b[10] == 0xff && b[11]
        == 0xff {
        dotted(b.subrange(12, 16))
    } else {
        ipv6_text(b)
    }
}

fn zero_from_to(b: &[u8; 16], from: usize, to: usize) -> (z: bool)
    requires
        from <= to <= 16,
    ensures
        z == forall|j: int| from <= j < to ==> #[trigger] b@[j] == 0,
{
    let mut i = from;
    while i < to
        invariant
            from <= i <= to <= 16,
            b@.len() == 16,
            forall|j: int| from <= j < i ==> #[trigger] b@[j] == 0,
        decreases to - i,
    {
        if b[i] != 0 {
            return false;
        }
        i = i + 1;
    }
    true
}

/// An IPv4-mapped address (`::ffff:a.b.c.d`, as an accept on a dual-stack
/// socket records an IPv4 client) is shown as its embedded IPv4 address,
/// octets in order; an address whose last twelve bytes are zero is shown as
/// its first four octets.
pub proof fn lemma_ipv4_shown_in_order(b: Seq<u8>)
    requires
        b.len() == 16,
    ensures
        (forall|j: int| 4 <= j < 16 ==> b[j] == 0) ==> ip_text(b) == dotted(
            seq![b[0], b[1], b[2], b[3]],
        ),
        (forall|j: int| 0 <= j < 10 ==> b[j] == 0) && b[10] == 0xff && b[11] == 0xff ==> ip_text(
            b,
        ) == dotted(
            seq![b[12], b[13], b[14], b[15]],
        ),
{
    assert(b.subrange(0, 4) =~= seq![b[0], b[1], b[2], b[3]]);
    assert(b.subrange(12, 16) =~= seq![b[12], b[13], b[14], b[15]]);
    if b[10] == 0xff {
        assert(!(forall|j: int| 4 <= j < 16 ==> #[trigger] b[j] == 0));
    }
}

/// Writes a sixteen-byte address field as the monitor shows it.
pub fn ip_to_string(ip: &[u8; 16]) -> (s: String)
    ensures
        s@ == ip_text(ip@),
        (forall|j: int| 4 <= j < 16 ==> ip@[j] == 0) ==> s@ == dotted(
            seq![ip@[0], ip@[1], ip@[2], ip@[3]],
        ),
        (forall|j: int| 0 <= j < 10 ==> ip@[j] == 0) && ip@[10] == 0xff && ip@[11] == 0xff
            ==> s@ == dotted(seq![ip@[12], ip@[13], ip@[14], ip@[15]]),
{
    if zero_from_to(ip, 4, 16) {
        let s = ipv4_to_string([ip[0], ip[1], ip[2], ip[3]]);
        proof {
            let ghost o: [u8; 4] = [ip[0], ip[1], ip[2], ip[3]];
            assert(o@ =~= ip@.subrange(0, 4));
        }
        return s;
    }
    if zero_from_to(ip, 0, 10) && ip[10] == 0xff && ip[11] == 0xff {
        let s = ipv4_to_string([ip[12], ip[13], ip[14], ip[15]]);
        proof {
            let ghost o: [u8; 4] = [ip[12], ip[13], ip[14], ip[15]];
            assert(o@ =~= ip@.subrange(12, 16));
        }
        return s;
    }
    proof {
        lemma_ipv4_shown_in_order(ip@);
        assert(ip@.len() == 16);
    }
    let s = ipv6_to_string(ip);
    s
}

} // verus!
