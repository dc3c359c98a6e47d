//! Dotted-quad IPv4 addresses: the text the daemon accepts for a ban and the
//! text it lists bans with.

use vstd::prelude::*;
use vstd::string::StrSliceExecFns;
use crate::codec::{be32, from_be32, lemma_be32_roundtrip, lemma_from_be32_bytes};
use crate::text::{char_count, decimal, digit_char, digits, push_char, push_decimal};

verus! {

/// An ASCII decimal digit.
pub open spec fn is_digit(c: char) -> bool {
    48 <= c as int <= 57
}

/// The number a string of decimal digits spells.
pub open spec fn digits_value(t: Seq<char>) -> int
    decreases t.len(),
{
    if t.len() == 0 {
        0
    } else {
        digits_value(t.drop_last()) * 10 + (t.last() as int - 48)
    }
}

/// The four octets `o` written as `a.b.c.d`, each in decimal without
/// leading zeros.
pub open spec fn dotted(o: Seq<u8>) -> Seq<char> {
    decimal(o[0] as nat) + seq!['.'] + decimal(o[1] as nat) + seq!['.'] + decimal(o[2] as nat)
        + seq!['.'] + decimal(o[3] as nat)
}

/// The decimal text of an octet has one to three digits, no leading zero,
/// and spells the octet.
pub proof fn lemma_octet_text(v: nat)
    requires
        v < 256,
    ensures
        1 <= decimal(v).len() <= 3,
        forall|j: int| 0 <= j < decimal(v).len() ==> is_digit(#[trigger] decimal(v)[j]),
        decimal(v).len() > 1 ==> decimal(v)[0] != '0',
        digits_value(decimal(v)) == v,
{
    reveal_with_fuel(digits, 3);
    reveal_with_fuel(digits_value, 4);
    let t = decimal(v);
    if v < 10 {
        assert(t == seq![digit_char(v)]);
        assert(t.drop_last() =~= Seq::<char>::empty());
    } else if v < 100 {
        assert(t == seq![digit_char(v / 10), digit_char(v % 10)]);
        assert(t.drop_last() =~= seq![digit_char(v / 10)]);
        assert(t.drop_last().drop_last() =~= Seq::<char>::empty());
    } else {
        assert(t == seq![digit_char(v / 100), digit_char((v / 10) % 10), digit_char(v % 10)]);
        assert(t.drop_last() =~= seq![digit_char(v / 100), digit_char((v / 10) % 10)]);
        assert(t.drop_last().drop_last() =~= seq![digit_char(v / 100)]);
        assert(t.drop_last().drop_last().drop_last() =~= Seq::<char>::empty());
    }
}

/// One to three digits without a leading zero are the decimal text of the
/// number they spell.
pub proof fn lemma_digits_are_decimal(t: Seq<char>)
    requires
        1 <= t.len() <= 3,
        forall|j: int| 0 <= j < t.len() ==> is_digit(#[trigger] t[j]),
        t.len() > 1 ==> t[0] != '0',
    ensures
        0 <= digits_value(t) < 1000,
        decimal(digits_value(t) as nat) == t,
{
    reveal_with_fuel(digits, 3);
    reveal_with_fuel(digits_value, 4);
    let v = digits_value(t);
    if t.len() == 1 {
        assert(t.drop_last() =~= Seq::<char>::empty());
        assert(decimal(v as nat) =~= t);
    } else if t.len() == 2 {
        assert(t.drop_last() =~= seq![t[0]]);
        assert(seq![t[0]].drop_last() =~= Seq::<char>::empty());
        assert(decimal(v as nat) =~= t);
    } else {
        assert(t.drop_last() =~= seq![t[0], t[1]]);
        assert(seq![t[0], t[1]].drop_last() =~= seq![t[0]]);
        assert(seq![t[0]].drop_last() =~= Seq::<char>::empty());
        assert(decimal(v as nat) =~= t);
    }
}

/// `s` holds the decimal text of octet `v` at `pos`, and no digit follows it.
pub open spec fn octet_at(s: Seq<char>, pos: int, v: u8) -> bool {
    let k = decimal(v as nat).len() as int;
    &&& 0 <= pos
    &&& pos + k <= s.len()
    &&& s.subrange(pos, pos + k) == decimal(v as nat)
    &&& (pos + k == s.len() || !is_digit(s[pos + k]))
}

fn digit_run_end(cs: &Vec<char>, pos: usize) -> (e: usize)
    requires
        pos <= cs@.len(),
    ensures
        pos <= e <= cs@.len(),
        forall|j: int| pos <= j < e ==> is_digit(#[trigger] cs@[j]),
        e == cs@.len() || !is_digit(cs@[e as int]),
{
    let mut e = pos;
    while e < cs.len() && ('0' <= cs[e] && cs[e] <= '9')
        invariant
            pos <= e <= cs@.len(),
            forall|j: int| pos <= j < e ==> is_digit(#[trigger] cs@[j]),
        decreases cs@.len() - e,
    {
        e = e + 1;
    }
    e
}

/// Reads the octet whose decimal text starts at `pos` and ends at the next
/// character that is not a digit.
pub(crate) fn parse_octet(cs: &Vec<char>, pos: usize) -> (r: Option<(u8, usize)>)
    requires
        pos <= cs@.len(),
    ensures
        r matches Some((v, e)) ==> octet_at(cs@, pos as int, v) && e == pos + decimal(
            v as nat,
        ).len(),
        forall|v: u8| #[trigger] octet_at(cs@, pos as int, v) ==> r == Some((v, (pos + decimal(
            v as nat,
        ).len()) as usize)),
{
    let e = digit_run_end(cs, pos);
    let n = e - pos;
    let ghost t = cs@.subrange(pos as int, e as int);
    proof {
        assert forall|v: u8| #[trigger] octet_at(cs@, pos as int, v) implies e == pos + decimal(
            v as nat,
        ).len() && digits_value(t) == v && 1 <= n <= 3 && (n > 1 ==> cs@[pos as int] != '0') by {
            lemma_octet_text(v as nat);
            let k = decimal(v as nat).len() as int;
            assert forall|j: int| pos <= j < pos + k implies is_digit(cs@[j]) by {
                assert(cs@[j] == cs@.subrange(pos as int, pos + k)[j - pos]);
            }
            if e < pos + k {
                assert(is_digit(cs@[e as int]));
            }
            if e > pos + k {
                assert(is_digit(cs@[pos + k]));
            }
            assert(t == decimal(v as nat));
            if n > 1 {
                assert(cs@[pos as int] == t[0]);
            }
        }
    }
    if n == 0 || n > 3 {
        return None;
    }
    if n > 1 && cs[pos] == '0' {
        return None;
    }
    let mut value: u32 = 0;
    let mut i = pos;
    while i < e
        invariant
            pos <= i <= e,
            e == pos + n,
            n <= 3,
            e <= cs@.len(),
            forall|j: int| pos <= j < e ==> is_digit(#[trigger] cs@[j]),
            n > 1 ==> cs@[pos as int] != '0',
            value == digits_value(cs@.subrange(pos as int, i as int)),
            value < 1000,
        decreases e - i,
    {
        let ghost u = cs@.subrange(pos as int, i + 1);
        assert(u.drop_last() =~= cs@.subrange(pos as int, i as int));
        assert(is_digit(cs@[i as int]));
        proof {
            assert forall|j: int| 0 <= j < u.len() implies is_digit(#[trigger] u[j]) by {
                assert(u[j] == cs@[pos + j]);
            }
            if u.len() > 1 {
                assert(u[0] == cs@[pos as int]);
            }
            lemma_digits_are_decimal(u);
        }
        value = value * 10 + ((cs[i] as u32) - 48);
        i = i + 1;
    }
    if value > 255 {
        return None;
    }
    proof {
        assert forall|j: int| 0 <= j < t.len() implies is_digit(#[trigger] t[j]) by {
            assert(t[j] == cs@[pos + j]);
        }
        if n > 1 {
            assert(t[0] == cs@[pos as int]);
        }
        lemma_digits_are_decimal(t);
    }
    Some((value as u8, e))
}

/// The positions of the parts of a dotted quad: the lengths of its four
/// numbers, with dots between them.
pub proof fn lemma_dotted_parts(o: Seq<u8>)
    requires
        o.len() == 4,
    ensures
        ({
            let s = dotted(o);
            let k0 = decimal(o[0] as nat).len() as int;
            let k1 = decimal(o[1] as nat).len() as int;
            let k2 = decimal(o[2] as nat).len() as int;
            let k3 = decimal(o[3] as nat).len() as int;
            &&& s.len() == k0 + k1 + k2 + k3 + 3
            &&& s.len() <= 15
            &&& octet_at(s, 0, o[0])
            &&& s[k0] == '.'
            &&& octet_at(s, k0 + 1, o[1])
            &&& s[k0 + 1 + k1] == '.'
            &&& octet_at(s, k0 + k1 + 2, o[2])
            &&& s[k0 + k1 + 2 + k2] == '.'
            &&& octet_at(s, k0 + k1 + k2 + 3, o[3])
        }),
{
    lemma_octet_text(o[0] as nat);
    lemma_octet_text(o[1] as nat);
    lemma_octet_text(o[2] as nat);
    lemma_octet_text(o[3] as nat);
    let s = dotted(o);
    let d0 = decimal(o[0] as nat);
    let d1 = decimal(o[1] as nat);
    let d2 = decimal(o[2] as nat);
    let d3 = decimal(o[3] as nat);
    let k0 = d0.len() as int;
    let k1 = d1.len() as int;
    let k2 = d2.len() as int;
    let k3 = d3.len() as int;
    assert(s.subrange(0, k0) =~= d0);
    assert(s.subrange(k0 + 1, k0 + 1 + k1) =~= d1);
    assert(s.subrange(k0 + k1 + 2, k0 + k1 + 2 + k2) =~= d2);
    assert(s.subrange(k0 + k1 + k2 + 3, k0 + k1 + k2 + 3 + k3) =~= d3);
    assert(s[k0] == '.');
    assert(s[k0 + 1 + k1] == '.');
    assert(s[k0 + k1 + 2 + k2] == '.');
}

pub(crate) fn chars_of(s: &str) -> (cs: Vec<char>)
    ensures
        cs@ == s@,
{
    let n = s.unicode_len();
    let mut cs: Vec<char> = Vec::new();
    let mut i: usize = 0;
    while i < n
        invariant
            i <= n,
            n == s@.len(),
            cs@ == s@.subrange(0, i as int),
        decreases n - i,
    {
        cs.push(s.get_char(i));
        i = i + 1;
        assert(cs@ =~= s@.subrange(0, i as int));
    }
    assert(s@.subrange(0, n as int) =~= s@);
    cs
}

/// `s` holds octet `v` at `pos`, followed by a dot, or by the end of `s`
/// when `last`.
pub open spec fn step_at(s: Seq<char>, pos: int, v: u8, last: bool) -> bool {
    let k = decimal(v as nat).len() as int;
    &&& octet_at(s, pos, v)
    &&& if last {
        pos + k == s.len()
    } else {
        pos + k < s.len() && s[pos + k] == '.'
    }
}

/// Where the next part starts after `step_at(s, pos, v, last)`.
pub open spec fn step_end(pos: int, v: u8, last: bool) -> int {
    pos + decimal(v as nat).len() + if last {
        0int
    } else {
        1int
    }
}

/// The four steps a dotted quad is read in.
pub proof fn lemma_dotted_steps(s: Seq<char>, o: Seq<u8>)
    requires
        o.len() == 4,
        s == dotted(o),
    ensures
        s.len() <= 15,
        step_at(s, 0, o[0], false),
        step_at(s, step_end(0, o[0], false), o[1], false),
        step_at(s, step_end(step_end(0, o[0], false), o[1], false), o[2], false),
        step_at(
            s,
            step_end(step_end(step_end(0, o[0], false), o[1], false), o[2], false),
            o[3],
            true,
        ),
{
    lemma_dotted_parts(o);
}

/// Reads an octet at `pos` and the dot after it, or the end of the input
/// when `last`.
fn parse_step(cs: &Vec<char>, pos: usize, last: bool) -> (r: Option<(u8, usize)>)
    requires
        pos <= cs@.len(),
    ensures
        r matches Some((v, e)) ==> step_at(cs@, pos as int, v, last) && e == step_end(
            pos as int,
            v,
            last,
        ),
        forall|v: u8| #[trigger] step_at(cs@, pos as int, v, last) ==> r == Some(
            (v, step_end(pos as int, v, last) as usize),
        ),
{
    match parse_octet(cs, pos) {
        None => None,
        Some((v, e)) => {
            if last {
                if e == cs.len() {
                    Some((v, e))
                } else {
                    None
                }
            } else {
                if e < cs.len() && cs[e] == '.' {
                    Some((v, e + 1))
                } else {
                    None
                }
            }
        },
    }
}

/// Parses `a.b.c.d` as `Ipv4Addr::from_str` does: four decimal numbers from
/// 0 to 255 with no leading zeros, separated by dots, and nothing else.
/// The accepted strings are exactly the `dotted` texts of four octets.
pub fn parse_ipv4(s: &str) -> (r: Option<[u8; 4]>)
    ensures
        r matches Some(o) ==> s@ == dotted(o@),
        r is None ==> forall|o: Seq<u8>| o.len() == 4 ==> s@ != #[trigger] dotted(o),
{
    if char_count(s) > 15 {
        proof {
            assert forall|o: Seq<u8>| o.len() == 4 implies s@ != #[trigger] dotted(o) by {
                lemma_dotted_parts(o);
            }
        }
        return None;
    }
    let cs = chars_of(s);
    let r = parse_chars(&cs);
    r
}

pub(crate) fn parse_chars(cs: &Vec<char>) -> (r: Option<[u8; 4]>)
    ensures
        r matches Some(o) ==> cs@ == dotted(o@),
        r is None ==> forall|o: Seq<u8>| o.len() == 4 ==> cs@ != #[trigger] dotted(o),
{
    let r0 = parse_step(cs, 0, false);
    if r0.is_none() {
        proof {
            assert forall|o: Seq<u8>| o.len() == 4 implies cs@ != #[trigger] dotted(o) by {
                if cs@ == dotted(o) {
                    lemma_dotted_steps(cs@, o);
                }
            }
        }
        return None;
    }
    let (v0, e0) = r0.unwrap();
    let r1 = parse_step(cs, e0, false);
    if r1.is_none() {
        proof {
            assert forall|o: Seq<u8>| o.len() == 4 implies cs@ != #[trigger] dotted(o) by {
                if cs@ == dotted(o) {
                    lemma_dotted_steps(cs@, o);
                }
            }
        }
        return None;
    }
    let (v1, e1) = r1.unwrap();
    let r2 = parse_step(cs, e1, false);
    if r2.is_none() {
        proof {
            assert forall|o: Seq<u8>| o.len() == 4 implies cs@ != #[trigger] dotted(o) by {
                if cs@ == dotted(o) {
                    lemma_dotted_steps(cs@, o);
                }
            }
        }
        return None;
    }
    let (v2, e2) = r2.unwrap();
    let r3 = parse_step(cs, e2, true);
    if r3.is_none() {
        proof {
            assert forall|o: Seq<u8>| o.len() == 4 implies cs@ != #[trigger] dotted(o) by {
                if cs@ == dotted(o) {
                    lemma_dotted_steps(cs@, o);
                }
            }
        }
        return None;
    }
    let (v3, e3) = r3.unwrap();
    let o = [v0, v1, v2, v3];
    proof {
        let os = o@;
        assert(os[0] == v0 && os[1] == v1 && os[2] == v2 && os[3] == v3);
        let k0 = decimal(v0 as nat).len() as int;
        let k1 = decimal(v1 as nat).len() as int;
        let k2 = decimal(v2 as nat).len() as int;
        let k3 = decimal(v3 as nat).len() as int;
        assert(cs@ =~= cs@.subrange(0, k0) + seq!['.'] + cs@.subrange(e0 as int, e0 + k1)
            + seq!['.'] + cs@.subrange(e1 as int, e1 + k2) + seq!['.'] + cs@.subrange(
            e2 as int,
            e2 + k3,
        ));
    }
    Some(o)
}

/// The same text cannot hold two different octets at one position.
pub proof fn lemma_octet_at_unique(s: Seq<char>, pos: int, v1: u8, v2: u8)
    requires
        octet_at(s, pos, v1),
        octet_at(s, pos, v2),
    ensures
        v1 == v2,
{
    lemma_octet_text(v1 as nat);
    lemma_octet_text(v2 as nat);
    let k1 = decimal(v1 as nat).len() as int;
    let k2 = decimal(v2 as nat).len() as int;
    if k1 < k2 {
        assert(s[pos + k1] == s.subrange(pos, pos + k2)[k1]);
        assert(is_digit(decimal(v2 as nat)[k1]));
    } else if k2 < k1 {
        assert(s[pos + k2] == s.subrange(pos, pos + k1)[k2]);
        assert(is_digit(decimal(v1 as nat)[k2]));
    }
}

/// Different addresses are written differently: `dotted` is one-to-one, so
/// an address read back from its text is the address that was written.
pub proof fn lemma_dotted_injective(o1: Seq<u8>, o2: Seq<u8>)
    requires
        o1.len() == 4,
        o2.len() == 4,
        dotted(o1) == dotted(o2),
    ensures
        o1 == o2,
{
    let s = dotted(o1);
    lemma_dotted_steps(s, o1);
    lemma_dotted_steps(s, o2);
    lemma_octet_at_unique(s, 0, o1[0], o2[0]);
    lemma_octet_at_unique(s, step_end(0, o1[0], false), o1[1], o2[1]);
    lemma_octet_at_unique(
        s,
        step_end(step_end(0, o1[0], false), o1[1], false),
        o1[2],
        o2[2],
    );
    lemma_octet_at_unique(
        s,
        step_end(step_end(step_end(0, o1[0], false), o1[1], false), o1[2], false),
        o1[3],
        o2[3],
    );
    assert(o1 =~= o2);
}

/// Writes four octets as `a.b.c.d` (`Ipv4Addr`'s `Display`).
pub fn ipv4_to_string(o: [u8; 4]) -> (s: String)
    ensures
        s@ == dotted(o@),
{
    let mut s = String::new();
    push_decimal(&mut s, o[0] as u64);
    push_char(&mut s, '.');
    push_decimal(&mut s, o[1] as u64);
    push_char(&mut s, '.');
    push_decimal(&mut s, o[2] as u64);
    push_char(&mut s, '.');
    push_decimal(&mut s, o[3] as u64);
    assert(s@ =~= dotted(o@));
    s
}

/// The octets of an address held as a number, most significant first
/// (`Ipv4Addr::from(u32)`).
pub fn key_octets(key: u32) -> (o: [u8; 4])
    ensures
        o@ == be32(key),
{
    let o = [
        ((key >> 24u32) & 0xff) as u8,
        ((key >> 16u32) & 0xff) as u8,
        ((key >> 8u32) & 0xff) as u8,
        (key & 0xff) as u8,
    ];
    assert(o@ =~= be32(key));
    o
}

/// The number an address is held as, its first octet most significant
/// (`u32::from(Ipv4Addr)`).
pub fn octets_key(o: [u8; 4]) -> (key: u32)
    ensures
        key == from_be32(o@, 0),
        be32(key) == o@,
{
    proof {
        lemma_from_be32_bytes(o@, 0);
        assert(o@.subrange(0, 4) =~= o@);
    }
    ((o[0] as u32) << 24u32) | ((o[1] as u32) << 16u32) | ((o[2] as u32) << 8u32) | (o[3] as u32)
}

/// Writes an address held as a number as `a.b.c.d`.
pub fn key_to_string(key: u32) -> (s: String)
    ensures
        s@ == dotted(be32(key)),
{
    ipv4_to_string(key_octets(key))
}

/// Reading back what `key_to_string` wrote gives the same address, and
/// every text `parse_ipv4` accepts is written back unchanged.
pub proof fn lemma_key_text_roundtrip(key: u32, s: Seq<char>, o: Seq<u8>)
    requires
        o.len() == 4,
        s == dotted(be32(key)),
        s == dotted(o),
    ensures
        o == be32(key),
        from_be32(o, 0) == key,
{
    lemma_dotted_injective(o, be32(key));
    lemma_be32_roundtrip(key);
}

} // verus!
