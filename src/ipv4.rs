//! IPv4 addresses: the byte order of kernel records, dotted-quad text, and
//! its canonical parser.
//!
//! A probe record keeps an address in a `u32` field in network order: the
//! first octet of the address is the lowest byte of the field. In host order
//! the first octet is the most significant byte.
use vstd::prelude::*;
use crate::text::{decimal, decimal_string, digits_value, is_digit, push_decimal, lemma_decimal_len_octet, lemma_decimal_digits, lemma_digits_value_decimal};

verus! {

/// The address with its four bytes in reverse order; it turns network order
/// into host order and back.
pub open spec fn swap_octets(v: u32) -> u32 {
    ((v & 0xff) << 24) | ((v & 0xff00) << 8) | ((v >> 8) & 0xff00) | (v >> 24)
}

/// Octet `i` (0 to 3, first octet first) of an address in host order.
pub open spec fn octet(h: u32, i: int) -> nat {
    if i == 0 {
        ((h >> 24) & 0xff) as nat
    } else if i == 1 {
        ((h >> 16) & 0xff) as nat
    } else if i == 2 {
        ((h >> 8) & 0xff) as nat
    } else {
        (h & 0xff) as nat
    }
}

/// The host-order address whose octets are `a`, `b`, `c`, `d`.
pub open spec fn compose(a: u32, b: u32, c: u32, d: u32) -> u32 {
    (a << 24) | (b << 16) | (c << 8) | d
}

/// Dotted-quad text of a host-order address.
pub open spec fn dotted(h: u32) -> Seq<char> {
    decimal(octet(h, 0)) + seq!['.'] + decimal(octet(h, 1)) + seq!['.'] + decimal(octet(h, 2))
        + seq!['.'] + decimal(octet(h, 3))
}

pub proof fn lemma_swap_involutive(v: u32)
    ensures
        swap_octets(swap_octets(v)) == v,
{
    assert(((((v & 0xff) << 24) | ((v & 0xff00) << 8) | ((v >> 8) & 0xff00) | (v >> 24)) & 0xff)
        << 24 | (((((v & 0xff) << 24) | ((v & 0xff00) << 8) | ((v >> 8) & 0xff00) | (v >> 24))
        & 0xff00) << 8) | (((((v & 0xff) << 24) | ((v & 0xff00) << 8) | ((v >> 8) & 0xff00) | (v
        >> 24)) >> 8) & 0xff00) | ((((v & 0xff) << 24) | ((v & 0xff00) << 8) | ((v >> 8) & 0xff00)
        | (v >> 24)) >> 24) == v) by (bit_vector);
}

/// The first octet of an address in network order is its lowest byte.
pub proof fn lemma_host_order_octets(net: u32)
    ensures
        octet(swap_octets(net), 0) == (net & 0xff) as nat,
        octet(swap_octets(net), 1) == ((net >> 8) & 0xff) as nat,
        octet(swap_octets(net), 2) == ((net >> 16) & 0xff) as nat,
        octet(swap_octets(net), 3) == ((net >> 24) & 0xff) as nat,
{
    let h = swap_octets(net);
    assert(((((net & 0xff) << 24) | ((net & 0xff00) << 8) | ((net >> 8) & 0xff00) | (net >> 24))
        >> 24) & 0xff == net & 0xff) by (bit_vector);
    assert(((((net & 0xff) << 24) | ((net & 0xff00) << 8) | ((net >> 8) & 0xff00) | (net >> 24))
        >> 16) & 0xff == (net >> 8) & 0xff) by (bit_vector);
    assert(((((net & 0xff) << 24) | ((net & 0xff00) << 8) | ((net >> 8) & 0xff00) | (net >> 24))
        >> 8) & 0xff == (net >> 16) & 0xff) by (bit_vector);
    assert((((net & 0xff) << 24) | ((net & 0xff00) << 8) | ((net >> 8) & 0xff00) | (net >> 24))
        & 0xff == (net >> 24) & 0xff) by (bit_vector);
}

proof fn lemma_octets_bounded(h: u32)
    ensures
        octet(h, 0) < 256,
        octet(h, 1) < 256,
        octet(h, 2) < 256,
        octet(h, 3) < 256,
{
    assert((h >> 24) & 0xff < 256) by (bit_vector);
    assert((h >> 16) & 0xff < 256) by (bit_vector);
    assert((h >> 8) & 0xff < 256) by (bit_vector);
    assert(h & 0xff < 256) by (bit_vector);
}

proof fn lemma_octets_compose(h: u32)
    ensures
        compose(
            octet(h, 0) as u32,
            octet(h, 1) as u32,
            octet(h, 2) as u32,
            octet(h, 3) as u32,
        ) == h,
{
    assert((((h >> 24) & 0xff) << 24) | (((h >> 16) & 0xff) << 16) | (((h >> 8) & 0xff) << 8) | (h
        & 0xff) == h) by (bit_vector);
}

/// Where the four numbers and the three dots of `dotted(h)` stand.
proof fn lemma_dotted_parts(h: u32)
    ensures
        ({
            let s = dotted(h);
            let m0 = decimal(octet(h, 0)).len() as int;
            let m1 = decimal(octet(h, 1)).len() as int;
            let m2 = decimal(octet(h, 2)).len() as int;
            let m3 = decimal(octet(h, 3)).len() as int;
            let at1 = m0 + 1;
            let at2 = at1 + m1 + 1;
            let at3 = at2 + m2 + 1;
            &&& 1 <= m0 <= 3 && 1 <= m1 <= 3 && 1 <= m2 <= 3 && 1 <= m3 <= 3
            &&& s.len() == at3 + m3
            &&& s.subrange(0, m0) == decimal(octet(h, 0))
            &&& s[m0] == '.'
            &&& s.subrange(at1, at1 + m1) == decimal(octet(h, 1))
            &&& s[at1 + m1] == '.'
            &&& s.subrange(at2, at2 + m2) == decimal(octet(h, 2))
            &&& s[at2 + m2] == '.'
            &&& s.subrange(at3, at3 + m3) == decimal(octet(h, 3))
        }),
        octet(h, 0) < 256,
        octet(h, 1) < 256,
        octet(h, 2) < 256,
        octet(h, 3) < 256,
        dotted(h).len() <= 15,
{
    lemma_octets_bounded(h);
    lemma_decimal_len_octet(octet(h, 0));
    lemma_decimal_len_octet(octet(h, 1));
    lemma_decimal_len_octet(octet(h, 2));
    lemma_decimal_len_octet(octet(h, 3));
    let s = dotted(h);
    let d0 = decimal(octet(h, 0));
    let d1 = decimal(octet(h, 1));
    let d2 = decimal(octet(h, 2));
    let d3 = decimal(octet(h, 3));
    let m0 = d0.len() as int;
    let m1 = d1.len() as int;
    let m2 = d2.len() as int;
    let at1 = m0 + 1;
    let at2 = at1 + m1 + 1;
    let at3 = at2 + m2 + 1;
    assert(s.subrange(0, m0) =~= d0);
    assert(s.subrange(at1, at1 + m1) =~= d1);
    assert(s.subrange(at2, at2 + m2) =~= d2);
    assert(s.subrange(at3, at3 + d3.len()) =~= d3);
}

/// Reads up to three digits of `s` from `start`; where `s` holds the
/// decimal text of an octet there, followed by a dot or the end, that octet
/// and the position after it come back.
fn read_octet(s: &str, len: usize, start: usize) -> (r: Option<(u32, usize)>)
    requires
        len == s@.len(),
        start <= len,
    ensures
        r matches Some((v, e)) ==> start < e <= len && v < 1000,
        forall|x: nat|
            x < 256 && start + decimal(x).len() <= len && s@.subrange(
                start as int,
                start + decimal(x).len(),
            ) == #[trigger] decimal(x) && (start + decimal(x).len() == len || s@[start
                + decimal(x).len()] == '.') ==> r == Some(
                (x as u32, (start + decimal(x).len()) as usize),
            ),
{
    let mut i = start;
    let mut v: u32 = 0;
    let mut done = false;
    while !done && i < len && i - start < 3
        invariant
            start <= i <= len,
            i - start <= 3,
            len == s@.len(),
            v == digits_value(s@.subrange(start as int, i as int)),
            i - start == 0 ==> v == 0,
            i - start <= 1 ==> v < 10,
            i - start <= 2 ==> v < 100,
            v < 1000,
            forall|k: int| start <= k < i ==> is_digit(#[trigger] s@[k]),
            done ==> i < len && !is_digit(s@[i as int]),
        decreases len - i + (if done { 0int } else { 1int }),
    {
        let c = s.get_char(i);
        if '0' <= c && c <= '9' {
            let ghost old_sub = s@.subrange(start as int, i as int);
            let ghost new_sub = s@.subrange(start as int, i + 1);
            assert(new_sub.drop_last() =~= old_sub);
            assert(new_sub.last() == c);
            v = v * 10 + (c as u32 - '0' as u32);
            i = i + 1;
        } else {
            done = true;
        }
    }
    assert forall|x: nat|
        x < 256 && start + decimal(x).len() <= len && s@.subrange(
            start as int,
            start + decimal(x).len(),
        ) == #[trigger] decimal(x) && (start + decimal(x).len() == len || s@[start
            + decimal(x).len()] == '.') implies (if i == start {
        None::<(u32, usize)>
    } else {
        Some((v, i))
    }) == Some((x as u32, (start + decimal(x).len()) as usize)) by {
        let m = decimal(x).len() as int;
        lemma_decimal_len_octet(x);
        lemma_decimal_digits(x);
        lemma_digits_value_decimal(x);
        if i < start + m {
            assert(s@[i as int] == decimal(x)[i - start]);
            assert(is_digit(decimal(x)[i - start]));
        }
        if i > start + m {
            assert(is_digit(s@[start + m]));
        }
        assert(i == start + m);
        assert(s@.subrange(start as int, i as int) == decimal(x));
    }
    if i == start {
        None
    } else {
        Some((v, i))
    }
}

/// Reads an octet at `start` followed by a dot, or by the end of `s` where
/// `last` holds; on success the position after the dot comes back.
fn read_octet_dot(s: &str, len: usize, start: usize, last: bool) -> (r: Option<(u32, usize)>)
    requires
        len == s@.len(),
        start <= len,
    ensures
        r matches Some((v, e)) ==> e <= len,
        forall|x: nat|
            x < 256 && start + decimal(x).len() <= len && s@.subrange(
                start as int,
                start + decimal(x).len(),
            ) == #[trigger] decimal(x) && (if last {
                start + decimal(x).len() == len
            } else {
                start + decimal(x).len() < len && s@[start + decimal(x).len()] == '.'
            }) ==> r == Some(
                (
                    x as u32,
                    (if last {
                        len as int
                    } else {
                        start + decimal(x).len() + 1
                    }) as usize,
                ),
            ),
{
    proof { reveal_strlit("."); }
    match read_octet(s, len, start) {
        None => None,
        Some((v, e)) => {
            if last {
                if e == len {
                    Some((v, e))
                } else {
                    None
                }
            } else if e < len && s.get_char(e) == '.' {
                Some((v, e + 1))
            } else {
                None
            }
        },
    }
}

fn read_quad(s: &str, len: usize) -> (r: Option<(u32, u32, u32, u32)>)
    requires
        len == s@.len(),
    ensures
        forall|h: u32|
            #[trigger] dotted(h) == s@ ==> r == Some(
                (octet(h, 0) as u32, octet(h, 1) as u32, octet(h, 2) as u32, octet(h, 3) as u32),
            ),
{
    let mut vals: Vec<u32> = Vec::new();
    let mut p: usize = 0;
    let mut i: usize = 0;
    while i < 4
        invariant
            0 <= i <= 4,
            vals@.len() == i,
            p <= len,
            len == s@.len(),
            forall|h: u32| #[trigger]
                dotted(h) == s@ ==> (i < 4 ==> p == part_start(h, i as int)) && (forall|k: int|
                    0 <= k < i ==> vals@[k] == octet(h, k) as u32),
        decreases 4 - i,
    {
        match read_octet_dot(s, len, p, i == 3) {
            None => {
                assert forall|h: u32| dotted(h) != s@ by {
                    if dotted(h) == s@ {
                        lemma_part_at(h, i as int);
                        let x = octet(h, i as int);
                        assert(p == part_start(h, i as int));
                        assert(s@.subrange(p as int, p + decimal(x).len()) == decimal(x));
                    }
                }
                return None;
            },
            Some((v, e)) => {
                assert forall|h: u32| #[trigger] dotted(h) == s@ implies (i + 1 < 4 ==> e
                    == part_start(h, i + 1)) && v == octet(h, i as int) as u32 by {
                    lemma_part_at(h, i as int);
                    assert(part_start(h, i + 1) == part_start(h, i as int) + decimal(
                        octet(h, i as int),
                    ).len() + 1);
                }
                vals.push(v);
                p = e;
                i = i + 1;
            },
        }
    }
    Some((vals[0], vals[1], vals[2], vals[3]))
}

/// Parses dotted-quad text into a host-order address. Only the text that
/// `ipv4_to_string` gives is accepted: four decimal numbers up to 255, with
/// no sign, no leading zero and nothing around them.
pub fn parse_ipv4(s: &str) -> (r: Option<u32>)
    ensures
        r matches Some(h) ==> dotted(h) == s@,
        r is None ==> forall|h: u32| dotted(h) != s@,
{
    let len = s.unicode_len();
    if len > 15 {
        assert forall|h: u32| dotted(h) != s@ by {
            lemma_dotted_parts(h);
        }
        return None;
    }
    match read_quad(s, len) {
        None => None,
        Some((a, b, c, d)) => {
            if a > 255 || b > 255 || c > 255 || d > 255 {
                assert forall|h: u32| dotted(h) != s@ by {
                    if dotted(h) == s@ {
                        lemma_octets_bounded(h);
                    }
                }
                return None;
            }
            let h = (a << 24) | (b << 16) | (c << 8) | d;
            let text = ipv4_to_string(h);
            let given = String::from_str(s);
            if text == given {
                Some(h)
            } else {
                assert forall|g: u32| dotted(g) != s@ by {
                    if dotted(g) == s@ {
                        lemma_octets_compose(g);
                    }
                }
                None
            }
        },
    }
}

/// Two addresses with the same dotted-quad text are equal.
pub proof fn lemma_dotted_injective(g: u32, h: u32)
    requires
        dotted(g) == dotted(h),
    ensures
        g == h,
{
    lemma_dotted_parts(g);
    lemma_dotted_parts(h);
    lemma_same_part(g, h, 0);
    lemma_same_part(g, h, 1);
    lemma_same_part(g, h, 2);
    lemma_same_part(g, h, 3);
    lemma_octets_compose(g);
    lemma_octets_compose(h);
    assert(octet(g, 0) == octet(h, 0));
    assert(octet(g, 1) == octet(h, 1));
    assert(octet(g, 2) == octet(h, 2));
    assert(octet(g, 3) == octet(h, 3));
}

/// Where part `i` of `dotted(h)` starts.
spec fn part_start(h: u32, i: int) -> int
    decreases i,
{
    if i <= 0 {
        0
    } else {
        part_start(h, i - 1) + decimal(octet(h, i - 1)).len() + 1
    }
}

proof fn lemma_part_at(h: u32, i: int)
    requires
        0 <= i < 4,
    ensures
        0 <= part_start(h, i),
        part_start(h, i) + decimal(octet(h, i)).len() <= dotted(h).len(),
        dotted(h).subrange(part_start(h, i), part_start(h, i) + decimal(octet(h, i)).len())
            == decimal(octet(h, i)),
        i < 3 ==> part_start(h, i) + decimal(octet(h, i)).len() < dotted(h).len(),
        i < 3 ==> dotted(h)[part_start(h, i) + decimal(octet(h, i)).len()] == '.',
        octet(h, i) < 256,
        i == 3 ==> part_start(h, i) + decimal(octet(h, i)).len() == dotted(h).len(),
{
    lemma_dotted_parts(h);
    reveal_with_fuel(part_start, 4);
}

proof fn lemma_same_part(g: u32, h: u32, i: int)
    requires
        dotted(g) == dotted(h),
        0 <= i < 4,
        forall|k: int| 0 <= k < i ==> octet(g, k) == octet(h, k),
    ensures
        octet(g, i) == octet(h, i),
{
    let s = dotted(g);
    assert(part_start(g, i) == part_start(h, i)) by {
        reveal_with_fuel(part_start, 4);
    }
    let st = part_start(g, i);
    let dg = decimal(octet(g, i));
    let dh = decimal(octet(h, i));
    lemma_part_at(g, i);
    lemma_part_at(h, i);
    lemma_decimal_digits(octet(g, i));
    lemma_decimal_digits(octet(h, i));
    if dg.len() < dh.len() {
        assert(s.subrange(st, st + dh.len())[dg.len() as int] == s[st + dg.len()]);
        assert(is_digit(dh[dg.len() as int]));
    }
    if dh.len() < dg.len() {
        assert(s.subrange(st, st + dg.len())[dh.len() as int] == s[st + dh.len()]);
        assert(is_digit(dg[dh.len() as int]));
    }
    assert(dg == dh);
    lemma_digits_value_decimal(octet(g, i));
    lemma_digits_value_decimal(octet(h, i));
}

/// Converts an address from the network order of a probe record to host order.
pub fn host_order(net: u32) -> (r: u32)
    ensures
        r == swap_octets(net),
{
    ((net & 0xff) << 24) | ((net & 0xff00) << 8) | ((net >> 8) & 0xff00) | (net >> 24)
}

/// Converts an address from host order to the network order of a probe map.
pub fn network_order(host: u32) -> (r: u32)
    ensures
        r == swap_octets(host),
{
    ((host & 0xff) << 24) | ((host & 0xff00) << 8) | ((host >> 8) & 0xff00) | (host >> 24)
}

/// Dotted-quad text of a host-order address.
pub fn ipv4_to_string(h: u32) -> (r: String)
    ensures
        r@ == dotted(h),
{
    let a = (h >> 24) & 0xff;
    let b = (h >> 16) & 0xff;
    let c = (h >> 8) & 0xff;
    let d = h & 0xff;
    let mut s = decimal_string(a as u64);
    proof { reveal_strlit("."); }
    s.append(".");
    push_decimal(&mut s, b as u64);
    s.append(".");
    push_decimal(&mut s, c as u64);
    s.append(".");
    push_decimal(&mut s, d as u64);
    assert(s@ =~= dotted(h));
    s
}

/// The key under which the probe's ignore set holds the address written as
/// `ip`: the address in network order, where `ip` is dotted-quad text.
pub fn ignore_ip_key(ip: &str) -> (r: Option<u32>)
    ensures
        r matches Some(k) ==> dotted(swap_octets(k)) == ip@,
        r is None <==> forall|h: u32| dotted(h) != ip@,
{
    match parse_ipv4(ip) {
        Some(h) => {
            proof { lemma_swap_involutive(h); }
            Some(network_order(h))
        },
        None => None,
    }
}

/// An address in network order, turned to host order and written as dotted
/// text, reads back as that host-order value only, and turning that value
/// back to network order gives the address it came from.
pub proof fn lemma_ipv4_round_trip(net: u32, h: u32)
    requires
        dotted(h) == dotted(swap_octets(net)),
    ensures
        h == swap_octets(net),
        swap_octets(h) == net,
{
    lemma_dotted_injective(h, swap_octets(net));
    lemma_swap_involutive(net);
}

} // verus!
