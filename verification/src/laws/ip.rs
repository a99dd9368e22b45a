//! Laws of addresses and their textual form.
use vstd::prelude::*;

use crate::ip;
use crate::ip::IpAddr;
use crate::laws::text::{self as lt};
use crate::text;

verus! {

/// An octet is written in one to three digits, with no zero in front.
pub open spec fn writes_octet(s: Seq<char>, v: u8) -> bool {
    &&& 1 <= s.len() <= 3
    &&& forall|i: int| 0 <= i < s.len() ==> 48 <= (#[trigger] s[i]) as int <= 57
    &&& s.len() > 1 ==> s[0] as int != 48
    &&& lt::number(s) == v
}

/// The code point is that of a hexadecimal digit.
pub open spec fn is_hex(n: int) -> bool {
    48 <= n <= 57 || 65 <= n <= 70 || 97 <= n <= 102
}

/// The value of hexadecimal digits, the first one first.
pub open spec fn hex(s: Seq<char>) -> int
    decreases s.len(),
{
    if s.len() == 0 {
        0
    } else {
        let n = s[s.len() - 1] as int;
        16 * hex(s.drop_last()) + (if n <= 57 {
            n - 48
        } else if n <= 70 {
            n - 55
        } else {
            n - 87
        })
    }
}

/// A group is written in one to four hexadecimal digits.
pub open spec fn writes_group(s: Seq<char>, v: u16) -> bool {
    &&& 1 <= s.len() <= 4
    &&& forall|i: int| 0 <= i < s.len() ==> is_hex((#[trigger] s[i]) as int)
    &&& hex(s) == v
}

/// Four octets with dots between them.
pub open spec fn writes_dotted(s: Seq<char>, parts: Seq<Seq<char>>, v: Seq<u8>) -> bool {
    &&& parts.len() == 4
    &&& v.len() == 4
    &&& forall|i: int| 0 <= i < 4 ==> writes_octet(#[trigger] parts[i], v[i])
    &&& s == lt::glued(parts, '.')
}

/// Groups with colons between them; no text for no group.
pub open spec fn writes_groups(s: Seq<char>, parts: Seq<Seq<char>>, g: Seq<u16>) -> bool {
    &&& parts.len() == g.len()
    &&& forall|i: int| 0 <= i < g.len() ==> writes_group(#[trigger] parts[i], g[i])
    &&& s == lt::glued(parts, ':')
}

/// Groups with colons between them, the last two of them written as four octets with dots.
pub open spec fn writes_mixed(
    s: Seq<char>,
    parts: Seq<Seq<char>>,
    g: Seq<u16>,
    octets: Seq<Seq<char>>,
    v: Seq<u8>,
) -> bool {
    &&& parts.len() > 0
    &&& g.len() == parts.len() + 1
    &&& forall|i: int| 0 <= i < parts.len() - 1 ==> writes_group(#[trigger] parts[i], g[i])
    &&& writes_dotted(parts.last(), octets, v)
    &&& g[parts.len() - 1] == v[0] * 256 + v[1]
    &&& g[parts.len() as int] == v[2] * 256 + v[3]
    &&& s == lt::glued(parts, ':')
}

/// The end of an address in groups.
pub open spec fn writes_end(s: Seq<char>, g: Seq<u16>) -> bool {
    ||| exists|parts: Seq<Seq<char>>| writes_groups(s, parts, g)
    ||| exists|parts: Seq<Seq<char>>, octets: Seq<Seq<char>>, v: Seq<u8>|
        writes_mixed(s, parts, g, octets, v)
}

/// The eight groups around a gap of zeros.
pub open spec fn with_gap(head: Seq<u16>, tail: Seq<u16>) -> Seq<u16> {
    head + Seq::new((8 - head.len() - tail.len()) as nat, |k: int| 0u16) + tail
}

/// The address of eight groups.
pub open spec fn of_groups(g: Seq<u16>) -> IpAddr {
    IpAddr::V6(g[0], g[1], g[2], g[3], g[4], g[5], g[6], g[7])
}

/// Four octets with dots between them are an IPv4 address.
pub proof fn dotted_text_is_v4(
    written: &str,
    r: Option<IpAddr>,
    parts: Seq<Seq<char>>,
    v: Seq<u8>,
)
    requires
        call_ensures(ip::parse_ip, (written,), r),
        writes_dotted(written@, parts, v),
    ensures
        r == Some(IpAddr::V4(v[0], v[1], v[2], v[3])),
{
    dotted_is(written@, parts, v);
}

/// An IPv4 address was written as its four octets with dots between them.
pub proof fn v4_was_dotted_text(written: &str, r: Option<IpAddr>)
    requires
        call_ensures(ip::parse_ip, (written,), r),
        r is Some && r->0 is V4,
    ensures
        exists|parts: Seq<Seq<char>>|
            writes_dotted(written@, parts, seq![r->0->V4_0, r->0->V4_1, r->0->V4_2, r->0->V4_3]),
{
    assert(ip::dotted(written@) is Some);
    dotted_was(written@);
    let o = ip::dotted(written@)->0;
    assert(r->0 == IpAddr::V4(o.0, o.1, o.2, o.3));
    let v = seq![r->0->V4_0, r->0->V4_1, r->0->V4_2, r->0->V4_3];
    assert(v =~= seq![o.0, o.1, o.2, o.3]);
    assert(writes_dotted(written@, text::pieces(written@, '.'), v));
}

/// Eight groups with colons between them, maybe the last two as octets, are an IPv6 address.
pub proof fn full_text_is_v6(written: &str, r: Option<IpAddr>, g: Seq<u16>)
    requires
        call_ensures(ip::parse_ip, (written,), r),
        g.len() == 8,
        writes_end(written@, g),
    ensures
        r == Some(of_groups(g)),
{
    let s = written@;
    end_is(s, g);
    end_has_no_gap(s, g);
    gap_none(s, 0);
    not_dotted(s);
}

/// Groups around `::`, at most seven of them, are an IPv6 address with zeros for the rest.
pub proof fn gap_text_is_v6(
    written: &str,
    r: Option<IpAddr>,
    head: Seq<char>,
    parts: Seq<Seq<char>>,
    h: Seq<u16>,
    tail: Seq<char>,
    t: Seq<u16>,
)
    requires
        call_ensures(ip::parse_ip, (written,), r),
        writes_groups(head, parts, h),
        writes_end(tail, t),
        h.len() + t.len() <= 7,
        written@ == head.push(':').push(':') + tail,
    ensures
        r == Some(of_groups(with_gap(h, t))),
{
    let s = written@;
    let n = head.len() as int;
    head_is(head, parts, h);
    end_is(tail, t);
    groups_are_plain(parts, h);
    plain_parts_have_no_gap(parts);
    assert(s[n] == ':' && s[n + 1] == ':');
    assert forall|k: int| 0 <= k < n implies !(#[trigger] s[k] == ':' && s[k + 1] == ':') by {
        assert(s[k] == head[k]);
        if head[k] == ':' {
            assert(k + 1 < n && s[k + 1] == head[k + 1]);
        }
    }
    gap_skips(s, 0, n);
    assert(s.take(n) == head);
    assert(s.skip(n + 2) == tail);
    not_dotted(s);
}

/// An IPv6 address was written as its eight groups, or as groups around `::` with zeros for the
/// rest.
pub proof fn v6_was_groups(written: &str, r: Option<IpAddr>)
    requires
        call_ensures(ip::parse_ip, (written,), r),
        r is Some && r->0 is V6,
    ensures
        ({
            ||| exists|g: Seq<u16>|
                g.len() == 8 && #[trigger] writes_end(written@, g) && r->0 == of_groups(g)
            ||| exists|n: int, parts: Seq<Seq<char>>, h: Seq<u16>, t: Seq<u16>|
                0 <= n && n + 2 <= written@.len() && written@[n] == ':' && written@[n + 1] == ':'
                    && #[trigger] writes_groups(written@.take(n), parts, h) && #[trigger] writes_end(
                    written@.skip(n + 2),
                    t,
                ) && h.len() + t.len() <= 7 && r->0 == of_groups(with_gap(h, t))
        }),
{
    let s = written@;
    assert(ip::eight_groups(s) is Some);
    match ip::gap_from(s, 0) {
        Some(n) => {
            gap_is_there(s, 0);
            let h = ip::head_groups(s.take(n))->0;
            let t = ip::tail_groups(s.skip(n + 2))->0;
            head_was(s.take(n));
            end_was(s.skip(n + 2));
            let parts = choose|parts: Seq<Seq<char>>| writes_groups(s.take(n), parts, h);
            assert(writes_groups(s.take(n), parts, h));
            assert(writes_end(s.skip(n + 2), t));
            assert(ip::eight_groups(s)->0 == with_gap(h, t));
        },
        None => {
            end_was(s);
            let g = ip::tail_groups(s)->0;
            assert(writes_end(s, g));
            assert(ip::eight_groups(s)->0 == g);
        },
    }
}

proof fn number_is(s: Seq<char>)
    requires
        forall|i: int| 0 <= i < s.len() ==> 48 <= (#[trigger] s[i]) as int <= 57,
    ensures
        ip::dec_number(s) == lt::number(s),
    decreases s.len(),
{
    if s.len() > 0 {
        let before = s.drop_last();
        assert forall|i: int| 0 <= i < before.len() implies 48 <= (#[trigger] before[i]) as int <= 57 by {
            assert(before[i] == s[i]);
        }
        number_is(before);
        assert(s.last() == s[s.len() - 1]);
    }
}

proof fn octet_is(s: Seq<char>)
    ensures
        forall|v: u8| #[trigger] writes_octet(s, v) <==> ip::octet(s) == Some(v),
{
    if forall|i: int| 0 <= i < s.len() ==> 48 <= (#[trigger] s[i]) as int <= 57 {
        number_is(s);
        assert forall|i: int| 0 <= i < s.len() implies ip::dec_value(#[trigger] s[i]) is Some by {}
    } else {
        let i = choose|i: int| 0 <= i < s.len() && !(48 <= (#[trigger] s[i]) as int <= 57);
        assert(ip::dec_value(s[i]) is None);
    }
}

proof fn hex_is(s: Seq<char>)
    requires
        forall|i: int| 0 <= i < s.len() ==> is_hex((#[trigger] s[i]) as int),
    ensures
        ip::hex_number(s) == hex(s),
        s.len() <= 1 ==> hex(s) <= 0xf,
        s.len() <= 2 ==> hex(s) <= 0xff,
        s.len() <= 3 ==> hex(s) <= 0xfff,
        s.len() <= 4 ==> hex(s) <= 0xffff,
        s.len() == 0 ==> hex(s) == 0,
    decreases s.len(),
{
    if s.len() > 0 {
        let before = s.drop_last();
        assert forall|i: int| 0 <= i < before.len() implies is_hex((#[trigger] before[i]) as int) by {
            assert(before[i] == s[i]);
        }
        hex_is(before);
        assert(is_hex(s[s.len() - 1] as int));
        assert(s.last() == s[s.len() - 1]);
    }
}

proof fn group_is(s: Seq<char>)
    ensures
        forall|v: u16| #[trigger] writes_group(s, v) <==> ip::group(s) == Some(v),
{
    if forall|i: int| 0 <= i < s.len() ==> is_hex((#[trigger] s[i]) as int) {
        hex_is(s);
        assert forall|i: int| 0 <= i < s.len() implies ip::hex_value(#[trigger] s[i]) is Some by {
            assert(is_hex(s[i] as int));
        }
    } else {
        let i = choose|i: int| 0 <= i < s.len() && !is_hex((#[trigger] s[i]) as int);
        assert(ip::hex_value(s[i]) is None);
    }
}

/// A property of every part and of the separator is one of the whole.
proof fn holds_of_glued(parts: Seq<Seq<char>>, sep: char, pred: spec_fn(char) -> bool)
    requires
        pred(sep),
        forall|i: int, k: int|
            0 <= i < parts.len() && 0 <= k < parts[i].len() ==> pred(#[trigger] parts[i][k]),
    ensures
        forall|k: int|
            0 <= k < lt::glued(parts, sep).len() ==> pred(#[trigger] lt::glued(parts, sep)[k]),
    decreases parts.len(),
{
    if parts.len() == 1 {
        assert(forall|k: int| 0 <= k < parts[0].len() ==> pred(#[trigger] parts[0][k]));
    } else if parts.len() > 1 {
        let before = parts.drop_last();
        assert forall|i: int, k: int| 0 <= i < before.len() && 0 <= k < before[i].len() implies pred(
            #[trigger] before[i][k],
        ) by {
            assert(pred(parts[i][k]));
        }
        holds_of_glued(before, sep, pred);
        let whole = lt::glued(parts, sep);
        let front = lt::glued(before, sep);
        assert forall|k: int| 0 <= k < whole.len() implies pred(#[trigger] whole[k]) by {
            if k < front.len() {
                assert(whole[k] == front[k]);
            } else if k > front.len() {
                assert(whole[k] == parts[parts.len() - 1][k - front.len() - 1]);
            }
        }
    }
}

proof fn dotted_is(s: Seq<char>, parts: Seq<Seq<char>>, v: Seq<u8>)
    requires
        writes_dotted(s, parts, v),
    ensures
        ip::dotted(s) == Some((v[0], v[1], v[2], v[3])),
        forall|k: int| 0 <= k < s.len() ==> #[trigger] s[k] != ':',
        s.len() > 0,
{
    assert forall|i: int, k: int| 0 <= i < parts.len() && 0 <= k < parts[i].len() implies #[trigger] parts[i][k]
        != '.' && parts[i][k] != ':' by {
        assert(writes_octet(parts[i], v[i]));
        assert(48 <= parts[i][k] as int <= 57);
    }
    lt::pieces_of_glued(parts, '.');
    assert forall|i: int| 0 <= i < 4 implies ip::octet(#[trigger] parts[i]) == Some(v[i]) by {
        octet_is(parts[i]);
        assert(writes_octet(parts[i], v[i]));
    }
    assert(ip::octet(parts[0]) == Some(v[0]));
    assert(ip::octet(parts[1]) == Some(v[1]));
    assert(ip::octet(parts[2]) == Some(v[2]));
    assert(ip::octet(parts[3]) == Some(v[3]));
    let no_colon = |c: char| c != ':';
    assert forall|i: int, k: int| 0 <= i < parts.len() && 0 <= k < parts[i].len() implies no_colon(
        #[trigger] parts[i][k],
    ) by {}
    holds_of_glued(parts, '.', no_colon);
    assert forall|k: int| 0 <= k < s.len() implies #[trigger] s[k] != ':' by {
        assert(no_colon(s[k]));
    }
    if s.len() == 0 {
        assert(text::pieces(s, '.').len() == 1);
    }
}

proof fn dotted_was(s: Seq<char>)
    requires
        ip::dotted(s) is Some,
    ensures
        ({
            let o = ip::dotted(s)->0;
            writes_dotted(s, text::pieces(s, '.'), seq![o.0, o.1, o.2, o.3])
        }),
{
    let o = ip::dotted(s)->0;
    let v = seq![o.0, o.1, o.2, o.3];
    let parts = text::pieces(s, '.');
    lt::glued_of_pieces(s, '.');
    assert forall|i: int| 0 <= i < 4 implies writes_octet(#[trigger] parts[i], v[i]) by {
        octet_is(parts[i]);
        if i == 0 {
            assert(ip::octet(parts[0]) == Some(v[0]));
        } else if i == 1 {
            assert(ip::octet(parts[1]) == Some(v[1]));
        } else if i == 2 {
            assert(ip::octet(parts[2]) == Some(v[2]));
        } else {
            assert(ip::octet(parts[3]) == Some(v[3]));
        }
    }
}

/// A text with a colon is no IPv4 address.
proof fn not_dotted(s: Seq<char>)
    requires
        exists|k: int| 0 <= k < s.len() && #[trigger] s[k] == ':',
    ensures
        ip::dotted(s) is None,
{
    if ip::dotted(s) is Some {
        let o = ip::dotted(s)->0;
        dotted_was(s);
        dotted_is(s, text::pieces(s, '.'), seq![o.0, o.1, o.2, o.3]);
    }
}

/// Groups are not empty and hold neither dots nor colons.
proof fn groups_are_plain(parts: Seq<Seq<char>>, g: Seq<u16>)
    requires
        parts.len() <= g.len(),
        forall|i: int| 0 <= i < parts.len() ==> writes_group(#[trigger] parts[i], g[i]),
    ensures
        lt::free_of(parts, ':'),
        lt::free_of(parts, '.'),
        forall|i: int| 0 <= i < parts.len() ==> (#[trigger] parts[i]).len() > 0,
{
    assert forall|i: int, k: int| 0 <= i < parts.len() && 0 <= k < parts[i].len() implies #[trigger] parts[i][k]
        != '.' && parts[i][k] != ':' by {
        assert(writes_group(parts[i], g[i]));
        assert(is_hex(parts[i][k] as int));
    }
}

proof fn plain_groups_are(parts: Seq<Seq<char>>, g: Seq<u16>)
    requires
        parts.len() == g.len(),
        forall|i: int| 0 <= i < parts.len() ==> writes_group(#[trigger] parts[i], g[i]),
    ensures
        ip::plain_groups(parts) == Some(g),
{
    assert forall|i: int| 0 <= i < parts.len() implies ip::group(#[trigger] parts[i]) == Some(g[i]) by {
        group_is(parts[i]);
        assert(writes_group(parts[i], g[i]));
    }
    assert(parts.map_values(|s: Seq<char>| ip::group(s)->0) == g);
}

proof fn plain_groups_were(parts: Seq<Seq<char>>)
    requires
        ip::plain_groups(parts) is Some,
    ensures
        ip::plain_groups(parts)->0.len() == parts.len(),
        forall|i: int|
            0 <= i < parts.len() ==> writes_group(
                #[trigger] parts[i],
                ip::plain_groups(parts)->0[i],
            ),
{
    assert forall|i: int| 0 <= i < parts.len() implies writes_group(
        #[trigger] parts[i],
        ip::plain_groups(parts)->0[i],
    ) by {
        group_is(parts[i]);
        assert(ip::group(parts[i]) is Some);
    }
}

proof fn glued_is_not_empty(parts: Seq<Seq<char>>)
    requires
        parts.len() > 0,
        forall|i: int| 0 <= i < parts.len() ==> (#[trigger] parts[i]).len() > 0,
    ensures
        lt::glued(parts, ':').len() > 0,
{
    assert(parts[0].len() > 0);
    assert(parts[parts.len() - 1].len() > 0);
}

proof fn head_is(s: Seq<char>, parts: Seq<Seq<char>>, g: Seq<u16>)
    requires
        writes_groups(s, parts, g),
    ensures
        ip::head_groups(s) == Some(g),
        parts.len() > 0 ==> text::pieces(s, ':') == parts && s.len() > 0,
{
    if parts.len() == 0 {
        assert(g == Seq::<u16>::empty());
    } else {
        groups_are_plain(parts, g);
        lt::pieces_of_glued(parts, ':');
        plain_groups_are(parts, g);
        glued_is_not_empty(parts);
    }
}

proof fn head_was(s: Seq<char>)
    requires
        ip::head_groups(s) is Some,
    ensures
        exists|parts: Seq<Seq<char>>| writes_groups(s, parts, ip::head_groups(s)->0),
{
    let g = ip::head_groups(s)->0;
    if s.len() == 0 {
        let none = Seq::<Seq<char>>::empty();
        assert(lt::glued(none, ':') == s);
        assert(writes_groups(s, none, g));
    } else {
        let parts = text::pieces(s, ':');
        lt::glued_of_pieces(s, ':');
        plain_groups_were(parts);
        assert(writes_groups(s, parts, g));
    }
}

proof fn end_is(s: Seq<char>, g: Seq<u16>)
    requires
        writes_end(s, g),
    ensures
        ip::tail_groups(s) == Some(g),
{
    if exists|parts: Seq<Seq<char>>| writes_groups(s, parts, g) {
        let parts = choose|parts: Seq<Seq<char>>| writes_groups(s, parts, g);
        head_is(s, parts, g);
        if parts.len() > 0 {
            groups_are_plain(parts, g);
            let last = parts.last();
            assert forall|k: int| 0 <= k < last.len() implies #[trigger] last[k] != '.' by {
                assert(parts[parts.len() - 1][k] != '.');
            }
            let one = seq![last];
            assert(lt::free_of(one, '.'));
            assert(lt::glued(one, '.') == last);
            lt::pieces_of_glued(one, '.');
            assert(ip::dotted(last) is None);
        }
    } else {
        let (parts, octets, v) = choose|
            parts: Seq<Seq<char>>,
            octets: Seq<Seq<char>>,
            v: Seq<u8>,
        |
            writes_mixed(s, parts, g, octets, v);
        mixed_is(s, parts, g, octets, v);
    }
}

proof fn mixed_parts(
    s: Seq<char>,
    parts: Seq<Seq<char>>,
    g: Seq<u16>,
    octets: Seq<Seq<char>>,
    v: Seq<u8>,
)
    requires
        writes_mixed(s, parts, g, octets, v),
    ensures
        lt::free_of(parts, ':'),
        forall|i: int| 0 <= i < parts.len() ==> (#[trigger] parts[i]).len() > 0,
{
    let front = parts.drop_last();
    assert forall|i: int| 0 <= i < front.len() implies writes_group(#[trigger] front[i], g[i]) by {
        assert(writes_group(parts[i], g[i]));
    }
    groups_are_plain(front, g);
    dotted_is(parts.last(), octets, v);
    assert forall|i: int, k: int| 0 <= i < parts.len() && 0 <= k < parts[i].len() implies #[trigger] parts[i][k]
        != ':' by {
        if i < front.len() {
            assert(front[i][k] != ':');
        }
    }
    assert forall|i: int| 0 <= i < parts.len() implies (#[trigger] parts[i]).len() > 0 by {
        if i < front.len() {
            assert(front[i].len() > 0);
        }
    }
}

proof fn mixed_is(
    s: Seq<char>,
    parts: Seq<Seq<char>>,
    g: Seq<u16>,
    octets: Seq<Seq<char>>,
    v: Seq<u8>,
)
    requires
        writes_mixed(s, parts, g, octets, v),
    ensures
        ip::tail_groups(s) == Some(g),
{
    mixed_parts(s, parts, g, octets, v);
    lt::pieces_of_glued(parts, ':');
    glued_is_not_empty(parts);
    dotted_is(parts.last(), octets, v);
    let front = parts.drop_last();
    let n = front.len() as int;
    assert forall|i: int| 0 <= i < n implies writes_group(#[trigger] front[i], g.take(n)[i]) by {
        assert(writes_group(parts[i], g[i]));
    }
    plain_groups_are(front, g.take(n));
    assert(g.take(n) + ip::embedded((v[0], v[1], v[2], v[3])) == g);
}

proof fn end_was(s: Seq<char>)
    requires
        ip::tail_groups(s) is Some,
    ensures
        writes_end(s, ip::tail_groups(s)->0),
{
    let g = ip::tail_groups(s)->0;
    let parts = text::pieces(s, ':');
    if s.len() > 0 && ip::dotted(parts.last()) is Some {
        let o = ip::dotted(parts.last())->0;
        let v = seq![o.0, o.1, o.2, o.3];
        let octets = text::pieces(parts.last(), '.');
        lt::glued_of_pieces(s, ':');
        dotted_was(parts.last());
        let front = parts.drop_last();
        plain_groups_were(front);
        assert(g == ip::plain_groups(front)->0 + ip::embedded(o));
        assert forall|i: int| 0 <= i < parts.len() - 1 implies writes_group(#[trigger] parts[i], g[i]) by {
            assert(writes_group(front[i], ip::plain_groups(front)->0[i]));
        }
        assert(writes_mixed(s, parts, g, octets, v));
    } else {
        head_was(s);
    }
}

/// Where parts that are not empty and hold no colon are put together, a colon is followed by
/// another character.
proof fn plain_parts_have_no_gap(parts: Seq<Seq<char>>)
    requires
        lt::free_of(parts, ':'),
        forall|i: int| 0 <= i < parts.len() ==> (#[trigger] parts[i]).len() > 0,
    ensures
        forall|k: int|
            0 <= k < lt::glued(parts, ':').len() && #[trigger] lt::glued(parts, ':')[k] == ':' ==> k
                + 1 < lt::glued(parts, ':').len() && lt::glued(parts, ':')[k + 1] != ':',
        parts.len() > 1 ==> exists|k: int|
            0 <= k < lt::glued(parts, ':').len() && #[trigger] lt::glued(parts, ':')[k] == ':',
    decreases parts.len(),
{
    let whole = lt::glued(parts, ':');
    if parts.len() == 1 {
        assert(forall|k: int| 0 <= k < parts[0].len() ==> #[trigger] parts[0][k] != ':');
    } else if parts.len() > 1 {
        let before = parts.drop_last();
        assert forall|i: int, k: int| 0 <= i < before.len() && 0 <= k < before[i].len() implies #[trigger] before[i][k]
            != ':' by {
            assert(parts[i][k] != ':');
        }
        assert forall|i: int| 0 <= i < before.len() implies (#[trigger] before[i]).len() > 0 by {
            assert(parts[i].len() > 0);
        }
        plain_parts_have_no_gap(before);
        let front = lt::glued(before, ':');
        let last = parts[parts.len() - 1];
        assert(last.len() > 0);
        assert(whole[front.len() as int] == ':');
        assert forall|k: int| 0 <= k < whole.len() && #[trigger] whole[k] == ':' implies k + 1
            < whole.len() && whole[k + 1] != ':' by {
            if k < front.len() {
                assert(whole[k] == front[k]);
                assert(whole[k + 1] == front[k + 1]);
            } else if k == front.len() {
                assert(whole[k + 1] == last[0]);
                assert(parts[parts.len() - 1][0] != ':');
            } else {
                assert(whole[k] == last[k - front.len() - 1]);
                assert(parts[parts.len() - 1][k - front.len() - 1] != ':');
            }
        }
    }
}

proof fn end_has_no_gap(s: Seq<char>, g: Seq<u16>)
    requires
        writes_end(s, g),
        g.len() == 8,
    ensures
        forall|k: int| 0 <= k < s.len() && #[trigger] s[k] == ':' ==> k + 1 < s.len() && s[k + 1] != ':',
        exists|k: int| 0 <= k < s.len() && #[trigger] s[k] == ':',
{
    if exists|parts: Seq<Seq<char>>| writes_groups(s, parts, g) {
        let parts = choose|parts: Seq<Seq<char>>| writes_groups(s, parts, g);
        groups_are_plain(parts, g);
        plain_parts_have_no_gap(parts);
    } else {
        let (parts, octets, v) = choose|
            parts: Seq<Seq<char>>,
            octets: Seq<Seq<char>>,
            v: Seq<u8>,
        |
            writes_mixed(s, parts, g, octets, v);
        mixed_parts(s, parts, g, octets, v);
        plain_parts_have_no_gap(parts);
    }
}

proof fn gap_none(s: Seq<char>, i: int)
    requires
        0 <= i,
        forall|k: int| 0 <= k < s.len() && #[trigger] s[k] == ':' ==> k + 1 < s.len() && s[k + 1] != ':',
    ensures
        ip::gap_from(s, i) is None,
    decreases s.len() - i,
{
    if i + 1 < s.len() {
        gap_none(s, i + 1);
    }
}

proof fn gap_skips(s: Seq<char>, i: int, n: int)
    requires
        0 <= i <= n,
        n + 1 < s.len(),
        s[n] == ':' && s[n + 1] == ':',
        forall|k: int| 0 <= k < n ==> !(#[trigger] s[k] == ':' && s[k + 1] == ':'),
    ensures
        ip::gap_from(s, i) == Some(n),
    decreases n - i,
{
    if i < n {
        gap_skips(s, i + 1, n);
    }
}

proof fn gap_is_there(s: Seq<char>, i: int)
    requires
        0 <= i,
        ip::gap_from(s, i) is Some,
    ensures
        ({
            let n = ip::gap_from(s, i)->0;
            i <= n && n + 1 < s.len() && s[n] == ':' && s[n + 1] == ':'
        }),
    decreases s.len() - i,
{
    if i + 1 < s.len() && !(s[i] == ':' && s[i + 1] == ':') {
        gap_is_there(s, i + 1);
    }
}

} // verus!
