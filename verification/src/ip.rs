//! IP addresses and their textual form.
use vstd::prelude::*;

use crate::text;

verus! {

/// An IPv4 or IPv6 address, by its octets or its 16-bit groups.
#[derive(Clone, Copy, Debug, PartialEq, Eq, Structural)]
pub enum IpAddr {
    V4(u8, u8, u8, u8),
    V6(u16, u16, u16, u16, u16, u16, u16, u16),
}

/// The value of a decimal digit.
pub open spec fn dec_value(c: char) -> Option<nat> {
    if '0' <= c <= '9' {
        Some((c as u32 - '0' as u32) as nat)
    } else {
        None
    }
}

/// The value of a hexadecimal digit, in either case.
pub open spec fn hex_value(c: char) -> Option<nat> {
    if '0' <= c <= '9' {
        Some((c as u32 - '0' as u32) as nat)
    } else if 'a' <= c <= 'f' {
        Some((c as u32 - 'a' as u32 + 10) as nat)
    } else if 'A' <= c <= 'F' {
        Some((c as u32 - 'A' as u32 + 10) as nat)
    } else {
        None
    }
}

/// The number that decimal digits denote.
pub open spec fn dec_number(s: Seq<char>) -> nat
    decreases s.len(),
{
    if s.len() == 0 {
        0
    } else {
        10 * dec_number(s.drop_last()) + dec_value(s.last())->0
    }
}

/// The number that hexadecimal digits denote.
pub open spec fn hex_number(s: Seq<char>) -> nat
    decreases s.len(),
{
    if s.len() == 0 {
        0
    } else {
        16 * hex_number(s.drop_last()) + hex_value(s.last())->0
    }
}

/// One octet of an IPv4 address: one to three decimal digits, no leading zero, at most 255.
pub open spec fn octet(s: Seq<char>) -> Option<u8> {
    if 1 <= s.len() <= 3 && (forall|i: int| 0 <= i < s.len() ==> dec_value(#[trigger] s[i]) is Some)
        && (s.len() > 1 ==> s[0] != '0') && dec_number(s) <= 255 {
        Some(dec_number(s) as u8)
    } else {
        None
    }
}

/// One group of an IPv6 address: one to four hexadecimal digits.
pub open spec fn group(s: Seq<char>) -> Option<u16> {
    if 1 <= s.len() <= 4 && (forall|i: int| 0 <= i < s.len() ==> hex_value(#[trigger] s[i]) is Some) {
        Some(hex_number(s) as u16)
    } else {
        None
    }
}

/// The four octets of an IPv4 address in dotted decimal.
pub open spec fn dotted(s: Seq<char>) -> Option<(u8, u8, u8, u8)> {
    let p = text::pieces(s, '.');
    if p.len() == 4 && octet(p[0]) is Some && octet(p[1]) is Some && octet(p[2]) is Some && octet(
        p[3],
    ) is Some {
        Some((octet(p[0])->0, octet(p[1])->0, octet(p[2])->0, octet(p[3])->0))
    } else {
        None
    }
}

/// The two groups that an IPv4 address fills at the end of an IPv6 address.
pub open spec fn embedded(o: (u8, u8, u8, u8)) -> Seq<u16> {
    seq![(o.0 * 256 + o.1) as u16, (o.2 * 256 + o.3) as u16]
}

/// Groups written each as its own text.
pub open spec fn plain_groups(p: Seq<Seq<char>>) -> Option<Seq<u16>> {
    if forall|i: int| 0 <= i < p.len() ==> group(#[trigger] p[i]) is Some {
        Some(p.map_values(|s: Seq<char>| group(s)->0))
    } else {
        None
    }
}

/// Groups separated by colons; no text stands for no group.
pub open spec fn head_groups(s: Seq<char>) -> Option<Seq<u16>> {
    if s.len() == 0 {
        Some(Seq::<u16>::empty())
    } else {
        plain_groups(text::pieces(s, ':'))
    }
}

/// Groups separated by colons, where an IPv4 address may stand for the last two.
pub open spec fn tail_groups(s: Seq<char>) -> Option<Seq<u16>> {
    let p = text::pieces(s, ':');
    if s.len() > 0 && dotted(p.last()) is Some {
        match plain_groups(p.drop_last()) {
            Some(g) => Some(g + embedded(dotted(p.last())->0)),
            None => None,
        }
    } else {
        head_groups(s)
    }
}

/// The place of the first `::` at or after `i`.
pub open spec fn gap_from(s: Seq<char>, i: int) -> Option<int>
    decreases s.len() - i,
{
    if i + 1 >= s.len() {
        None
    } else if s[i] == ':' && s[i + 1] == ':' {
        Some(i)
    } else {
        gap_from(s, i + 1)
    }
}

/// The eight groups of an IPv6 address: all of them, or those around a `::` that stands for at
/// least one group of zeros.
pub open spec fn eight_groups(s: Seq<char>) -> Option<Seq<u16>> {
    match gap_from(s, 0) {
        Some(i) => match (head_groups(s.take(i)), tail_groups(s.skip(i + 2))) {
            (Some(a), Some(b)) => if a.len() + b.len() <= 7 {
                Some(a + Seq::new((8 - a.len() - b.len()) as nat, |k: int| 0u16) + b)
            } else {
                None
            },
            _ => None,
        },
        None => match tail_groups(s) {
            Some(g) => if g.len() == 8 {
                Some(g)
            } else {
                None
            },
            None => None,
        },
    }
}

/// The address that a text denotes.
pub open spec fn address(s: Seq<char>) -> Option<IpAddr> {
    match dotted(s) {
        Some(o) => Some(IpAddr::V4(o.0, o.1, o.2, o.3)),
        None => match eight_groups(s) {
            Some(g) => Some(IpAddr::V6(g[0], g[1], g[2], g[3], g[4], g[5], g[6], g[7])),
            None => None,
        },
    }
}

fn parse_octet(s: &Vec<char>) -> (r: Option<u8>)
    ensures
        r == octet(s@),
{
    if s.len() == 0 || s.len() > 3 {
        return None;
    }
    let mut value: u32 = 0;
    let mut i: usize = 0;
    while i < s.len()
        invariant
            i <= s@.len() <= 3,
            value == dec_number(s@.take(i as int)),
            i == 0 ==> value == 0,
            i == 1 ==> value <= 9,
            i == 2 ==> value <= 99,
            i == 3 ==> value <= 999,
            forall|k: int| 0 <= k < i ==> dec_value(#[trigger] s@[k]) is Some,
        decreases s@.len() - i,
    {
        let c = s[i];
        if c < '0' || c > '9' {
            assert(dec_value(s@[i as int]) is None);
            return None;
        }
        assert(s@.take(i + 1).drop_last() == s@.take(i as int));
        value = value * 10 + (c as u32 - 48);
        i = i + 1;
    }
    assert(s@.take(s@.len() as int) == s@);
    if s.len() > 1 && s[0] == '0' {
        return None;
    }
    if value > 255 {
        return None;
    }
    Some(value as u8)
}

fn parse_group(s: &Vec<char>) -> (r: Option<u16>)
    ensures
        r == group(s@),
{
    if s.len() == 0 || s.len() > 4 {
        return None;
    }
    let mut value: u32 = 0;
    let mut i: usize = 0;
    while i < s.len()
        invariant
            i <= s@.len() <= 4,
            value == hex_number(s@.take(i as int)),
            i == 0 ==> value == 0,
            i == 1 ==> value <= 0xf,
            i == 2 ==> value <= 0xff,
            i == 3 ==> value <= 0xfff,
            i == 4 ==> value <= 0xffff,
            forall|k: int| 0 <= k < i ==> hex_value(#[trigger] s@[k]) is Some,
        decreases s@.len() - i,
    {
        let c = s[i];
        let digit: u32 = if '0' <= c && c <= '9' {
            c as u32 - 48
        } else if 'a' <= c && c <= 'f' {
            c as u32 - 97 + 10
        } else if 'A' <= c && c <= 'F' {
            c as u32 - 65 + 10
        } else {
            assert(hex_value(s@[i as int]) is None);
            return None;
        };
        assert(s@.take(i + 1).drop_last() == s@.take(i as int));
        value = value * 16 + digit;
        i = i + 1;
    }
    assert(s@.take(s@.len() as int) == s@);
    Some(value as u16)
}

fn parse_dotted(s: &Vec<char>) -> (r: Option<(u8, u8, u8, u8)>)
    ensures
        r == dotted(s@),
{
    let p = text::split(s, '.');
    assert(text::views(p@).len() == p@.len());
    if p.len() != 4 {
        return None;
    }
    assert(forall|i: int| 0 <= i < 4 ==> #[trigger] text::views(p@)[i] == p@[i]@);
    match (parse_octet(&p[0]), parse_octet(&p[1]), parse_octet(&p[2]), parse_octet(&p[3])) {
        (Some(a), Some(b), Some(c), Some(d)) => Some((a, b, c, d)),
        _ => None,
    }
}

/// Parses the first `n` texts as groups.
fn parse_groups(p: &Vec<Vec<char>>, n: usize) -> (r: Option<Vec<u16>>)
    requires
        n <= p@.len(),
    ensures
        r is Some <==> plain_groups(text::views(p@).take(n as int)) is Some,
        r is Some ==> r->0@ == plain_groups(text::views(p@).take(n as int))->0,
{
    let ghost texts = text::views(p@).take(n as int);
    let mut out: Vec<u16> = Vec::new();
    let mut i: usize = 0;
    while i < n
        invariant
            i <= n <= p@.len(),
            texts == text::views(p@).take(n as int),
            out@.len() == i,
            forall|k: int| 0 <= k < i ==> group(#[trigger] texts[k]) == Some(out@[k]),
        decreases n - i,
    {
        assert(texts[i as int] == p@[i as int]@);
        match parse_group(&p[i]) {
            Some(g) => {
                out.push(g);
            },
            None => {
                return None;
            },
        }
        i = i + 1;
    }
    assert(out@ == texts.map_values(|s: Seq<char>| group(s)->0));
    Some(out)
}

fn parse_head(s: &Vec<char>) -> (r: Option<Vec<u16>>)
    ensures
        r is Some <==> head_groups(s@) is Some,
        r is Some ==> r->0@ == head_groups(s@)->0,
{
    if s.len() == 0 {
        return Some(Vec::new());
    }
    let p = text::split(s, ':');
    assert(text::views(p@).take(p@.len() as int) == text::views(p@));
    parse_groups(&p, p.len())
}

fn parse_tail(s: &Vec<char>) -> (r: Option<Vec<u16>>)
    ensures
        r is Some <==> tail_groups(s@) is Some,
        r is Some ==> r->0@ == tail_groups(s@)->0,
{
    if s.len() == 0 {
        return Some(Vec::new());
    }
    let p = text::split(s, ':');
    let n: usize = p.len();
    proof {
        text::pieces_join_back(s@, ':');
        assert(text::views(p@).len() == n);
        assert(text::views(p@).last() == p@[n - 1]@);
        assert(text::views(p@).take(n as int) == text::views(p@));
        assert(text::views(p@).take(n - 1) == text::views(p@).drop_last());
    }
    match parse_dotted(&p[n - 1]) {
        Some(o) => match parse_groups(&p, n - 1) {
            Some(mut g) => {
                let ghost front = g@;
                g.push(o.0 as u16 * 256 + o.1 as u16);
                g.push(o.2 as u16 * 256 + o.3 as u16);
                assert(g@ == front + embedded(o));
                Some(g)
            },
            None => None,
        },
        None => parse_groups(&p, n),
    }
}

/// Copies the characters from `from` up to `to`.
fn part(s: &Vec<char>, from: usize, to: usize) -> (r: Vec<char>)
    requires
        from <= to <= s@.len(),
    ensures
        r@ == s@.subrange(from as int, to as int),
{
    let mut r: Vec<char> = Vec::new();
    let mut i: usize = from;
    while i < to
        invariant
            from <= i <= to <= s@.len(),
            r@ == s@.subrange(from as int, i as int),
        decreases to - i,
    {
        r.push(s[i]);
        i = i + 1;
    }
    r
}

fn find_gap(s: &Vec<char>) -> (r: Option<usize>)
    ensures
        r is Some <==> gap_from(s@, 0) is Some,
        r is Some ==> r->0 == gap_from(s@, 0)->0 && r->0 + 1 < s@.len(),
{
    let mut i: usize = 0;
    while i < s.len() && s.len() - i > 1
        invariant
            i <= s@.len(),
            gap_from(s@, 0) == gap_from(s@, i as int),
        decreases s@.len() - i,
    {
        if s[i] == ':' && s[i + 1] == ':' {
            return Some(i);
        }
        i = i + 1;
    }
    None
}

fn parse_eight(s: &Vec<char>) -> (r: Option<Vec<u16>>)
    ensures
        r is Some <==> eight_groups(s@) is Some,
        r is Some ==> r->0@ == eight_groups(s@)->0 && r->0@.len() == 8,
{
    match find_gap(s) {
        Some(i) => {
            let before = part(s, 0, i);
            let len: usize = s.len();
            let after = part(s, i + 2, len);
            assert(before@ == s@.take(i as int));
            assert(after@ == s@.skip(i + 2));
            match (parse_head(&before), parse_tail(&after)) {
                (Some(mut a), Some(mut b)) => {
                    if a.len() > 7 || b.len() > 7 || a.len() + b.len() > 7 {
                        return None;
                    }
                    let ghost front = a@;
                    let ghost back = b@;
                    let zeros: usize = 8 - a.len() - b.len();
                    let mut k: usize = 0;
                    while k < zeros
                        invariant
                            k <= zeros,
                            a@ == front + Seq::new(k as nat, |j: int| 0u16),
                        decreases zeros - k,
                    {
                        a.push(0);
                        k = k + 1;
                    }
                    a.append(&mut b);
                    Some(a)
                },
                _ => None,
            }
        },
        None => match parse_tail(s) {
            Some(g) => if g.len() == 8 {
                Some(g)
            } else {
                None
            },
            None => None,
        },
    }
}

/// Parses the textual form of an IPv4 or IPv6 address.
pub fn parse_ip(written: &str) -> (r: Option<IpAddr>)
    ensures
        r == address(written@),
{
    let s = text::chars_of(written);
    match parse_dotted(&s) {
        Some(o) => Some(IpAddr::V4(o.0, o.1, o.2, o.3)),
        None => match parse_eight(&s) {
            Some(g) => Some(IpAddr::V6(g[0], g[1], g[2], g[3], g[4], g[5], g[6], g[7])),
            None => None,
        },
    }
}

} // verus!
