//! Ban targets: one address `a.b.c.d`, or a block of addresses in CIDR
//! form `a.b.c.d/n`, and the range of keys a block covers.

use vstd::prelude::*;
use crate::codec::from_be32;
use crate::ipv4::{
    chars_of, dotted, lemma_dotted_injective, lemma_octet_text, octet_at, octets_key, parse_chars,
    parse_octet,
};
use crate::text::decimal;

verus! {

/// `s` names the block of the addresses that share their first `n` bits
/// with the address whose octets are `o`: `a.b.c.d` names the one address
/// (`n` is 32), `a.b.c.d/n` the block of `2^(32 - n)` addresses, for `n` up
/// to 32 written in decimal without leading zeros.
pub open spec fn names_block(s: Seq<char>, o: Seq<u8>, n: nat) -> bool {
    &&& o.len() == 4
    &&& n <= 32
    &&& (s == dotted(o) && n == 32) || s == dotted(o) + seq!['/'] + decimal(n)
}

/// The bits an `n`-bit prefix keeps of an address held as a number.
pub open spec fn prefix_mask(n: nat) -> u32 {
    if n == 0 {
        0
    } else {
        0xffff_ffffu32 << ((32 - n) as u32)
    }
}

/// The first key of the block of `n`-bit prefix that holds `key`.
pub open spec fn block_first(key: u32, n: nat) -> u32 {
    key & prefix_mask(n)
}

/// The last key of the block of `n`-bit prefix that holds `key`.
pub open spec fn block_last(key: u32, n: nat) -> u32 {
    key | !prefix_mask(n)
}

/// The text of an address has no `/` in it.
pub proof fn lemma_dotted_no_slash(o: Seq<u8>)
    requires
        o.len() == 4,
    ensures
        forall|j: int| 0 <= j < dotted(o).len() ==> #[trigger] dotted(o)[j] != '/',
{
    lemma_octet_text(o[0] as nat);
    lemma_octet_text(o[1] as nat);
    lemma_octet_text(o[2] as nat);
    lemma_octet_text(o[3] as nat);
    let d0 = decimal(o[0] as nat);
    let d1 = decimal(o[1] as nat);
    let d2 = decimal(o[2] as nat);
    let d3 = decimal(o[3] as nat);
    let s = dotted(o);
    assert forall|j: int| 0 <= j < s.len() implies #[trigger] s[j] != '/' by {
        let k0 = d0.len() as int;
        let k1 = d1.len() as int;
        let k2 = d2.len() as int;
        if j < k0 {
            assert(s[j] == d0[j]);
        } else if j == k0 {
        } else if j < k0 + 1 + k1 {
            assert(s[j] == d1[j - k0 - 1]);
        } else if j == k0 + 1 + k1 {
        } else if j < k0 + k1 + 2 + k2 {
            assert(s[j] == d2[j - k0 - k1 - 2]);
        } else if j == k0 + k1 + 2 + k2 {
        } else {
            assert(s[j] == d3[j - k0 - k1 - k2 - 3]);
        }
    }
}

/// A text names one block only.
pub proof fn lemma_names_block_unique(s: Seq<char>, o1: Seq<u8>, n1: nat, o2: Seq<u8>, n2: nat)
    requires
        names_block(s, o1, n1),
        names_block(s, o2, n2),
    ensures
        o1 == o2,
        n1 == n2,
{
    lemma_dotted_no_slash(o1);
    lemma_dotted_no_slash(o2);
    let a = dotted(o1);
    let b = dotted(o2);
    if s == a && n1 == 32 {
        if s != b || n2 != 32 {
            assert(s[b.len() as int] == '/');
        }
        lemma_dotted_injective(o1, o2);
    } else if s == b && n2 == 32 {
        assert(s[a.len() as int] == '/');
    } else {
        if a.len() < b.len() {
            assert(s[a.len() as int] == '/');
            assert(b[a.len() as int] == s[a.len() as int]);
        } else if b.len() < a.len() {
            assert(s[b.len() as int] == '/');
            assert(a[b.len() as int] == s[b.len() as int]);
        }
        assert(a =~= s.subrange(0, a.len() as int));
        assert(b =~= s.subrange(0, b.len() as int));
        lemma_dotted_injective(o1, o2);
        assert(decimal(n1) =~= s.subrange(a.len() as int + 1, s.len() as int));
        assert(decimal(n2) =~= s.subrange(a.len() as int + 1, s.len() as int));
        lemma_octet_text(n1);
        lemma_octet_text(n2);
    }
}

fn first_slash(cs: &Vec<char>) -> (i: usize)
    ensures
        i <= cs@.len(),
        forall|j: int| 0 <= j < i ==> cs@[j] != '/',
        i < cs@.len() ==> cs@[i as int] == '/',
{
    let mut i: usize = 0;
    while i < cs.len() && cs[i] != '/'
        invariant
            i <= cs@.len(),
            forall|j: int| 0 <= j < i ==> cs@[j] != '/',
        decreases cs@.len() - i,
    {
        i = i + 1;
    }
    i
}

/// Reads a ban target: `a.b.c.d`, or `a.b.c.d/n` with `n` up to 32; the
/// accepted texts are exactly those that name a block. Gives the address's
/// octets and the prefix length.
pub fn parse_block(s: &str) -> (r: Option<([u8; 4], u8)>)
    ensures
        r matches Some((o, n)) ==> names_block(s@, o@, n as nat),
        r is None ==> forall|o: Seq<u8>, n: nat| !#[trigger] names_block(s@, o, n),
{
    let cs = chars_of(s);
    let i = first_slash(&cs);
    if i == cs.len() {
        let r = parse_chars(&cs);
        proof {
            assert forall|o: Seq<u8>, n: nat| !#[trigger] names_block(s@, o, n) || r is Some by {
                if names_block(s@, o, n) && s@ != dotted(o) {
                    lemma_dotted_no_slash(o);
                    assert(s@[dotted(o).len() as int] == '/');
                }
            }
        }
        return match r {
            Some(o) => Some((o, 32u8)),
            None => None,
        };
    }
    let mut head: Vec<char> = Vec::new();
    let mut j: usize = 0;
    while j < i
        invariant
            j <= i < cs@.len(),
            head@ == cs@.subrange(0, j as int),
        decreases i - j,
    {
        head.push(cs[j]);
        j = j + 1;
        assert(head@ =~= cs@.subrange(0, j as int));
    }
    let ghost tail = cs@.subrange(i + 1, cs@.len() as int);
    proof {
        assert(cs@ =~= head@ + seq!['/'] + tail);
        assert forall|o: Seq<u8>, n: nat| #[trigger] names_block(s@, o, n) implies head@ == dotted(
            o,
        ) && tail == decimal(n) by {
            lemma_dotted_no_slash(o);
            let k = dotted(o).len() as int;
            if s@ == dotted(o) {
                assert(s@[i as int] == '/');
            }
            if k < i {
                assert(s@[k] == '/');
            }
            if i < k {
                assert(dotted(o)[i as int] == s@[i as int]);
            }
            assert(head@ =~= dotted(o));
            assert(tail =~= decimal(n));
        }
    }
    let o = match parse_chars(&head) {
        Some(o) => o,
        None => return None,
    };
    let (n, e) = match parse_octet(&cs, i + 1) {
        Some(p) => p,
        None => {
            proof {
                assert forall|p: Seq<u8>, m: nat| !#[trigger] names_block(s@, p, m) by {
                    if names_block(s@, p, m) {
                        lemma_octet_text(m);
                        assert(cs@.subrange(i + 1, i + 1 + decimal(m).len()) =~= decimal(m));
                        assert(octet_at(cs@, i + 1, m as u8));
                    }
                }
            }
            return None;
        },
    };
    if e != cs.len() || n > 32 {
        proof {
            assert forall|p: Seq<u8>, m: nat| !#[trigger] names_block(s@, p, m) by {
                if names_block(s@, p, m) {
                    lemma_octet_text(m);
                    assert(cs@.subrange(i + 1, i + 1 + decimal(m).len()) =~= decimal(m));
                    assert(octet_at(cs@, i + 1, m as u8));
                }
            }
        }
        return None;
    }
    proof {
        assert(tail =~= decimal(n as nat));
        assert(names_block(s@, o@, n as nat));
    }
    Some((o, n))
}

/// The keys of the block of `n`-bit prefix around the address `o`: its
/// first and its last key.
pub fn block_range(o: [u8; 4], n: u8) -> (r: (u32, u32))
    requires
        n <= 32,
    ensures
        r.0 == block_first(from_be32(o@, 0), n as nat),
        r.1 == block_last(from_be32(o@, 0), n as nat),
{
    let key = octets_key(o);
    let mask: u32 = if n == 0 {
        0
    } else {
        0xffff_ffffu32 << (32 - n as u32)
    };
    (key & mask, key | !mask)
}

/// A block's keys are those that agree with its address in the first `n`
/// bits, and they run from its first to its last key without a gap; the
/// address itself is among them, and a 32-bit prefix names it alone.
pub proof fn lemma_block_members(key: u32, n: nat, a: u32)
    requires
        n <= 32,
    ensures
        (block_first(key, n) <= a <= block_last(key, n)) <==> (a & prefix_mask(n)) == (key
            & prefix_mask(n)),
        block_first(key, n) <= key <= block_last(key, n),
        n == 32 ==> block_first(key, n) == key && block_last(key, n) == key,
{
    if n == 0 {
        assert((key & 0u32) == 0u32 && (a & 0u32) == 0u32 && (key | !0u32) == 0xffff_ffffu32)
            by (bit_vector);
    } else {
        let sh: u32 = (32 - n) as u32;
        let m: u32 = 0xffff_ffffu32 << sh;
        assert(prefix_mask(n) == m);
        assert(sh < 32 ==> (((key & m) <= a && a <= (key | !m)) == ((a & m) == (key & m))))
            by (bit_vector)
            requires
                m == 0xffff_ffffu32 << sh,
        ;
        assert(((key & m) <= key && key <= (key | !m))) by (bit_vector);
        assert(sh == 0 ==> (key & m) == key && (key | !m) == key) by (bit_vector)
            requires
                m == 0xffff_ffffu32 << sh,
        ;
    }
}

} // verus!
