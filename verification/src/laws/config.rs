//! Laws of the configuration.
use vstd::prelude::*;

use crate::config;
use crate::laws::text::{self as lt};
use crate::text;

verus! {

/// Every character is a tab, or neither below the space nor DEL.
pub open spec fn sendable(s: Seq<char>) -> bool {
    forall|i: int|
        0 <= i < s.len() ==> (#[trigger] s[i]) as int == 9 || (s[i] as int >= 32 && s[i] as int
            != 127)
}

/// The loopback origins, and nothing else.
pub open spec fn loopback(r: Seq<String>) -> bool {
    r.len() == 2 && r[0]@ == "http://127.0.0.1"@ && r[1]@ == "http://localhost"@
}

/// The allowlist is made of the entries between commas without the whitespace around them, in
/// order and of whatever length, but for those that are empty or hold a character that cannot be
/// sent; if that leaves none, it is the loopback origins.
pub proof fn allowlist_holds_the_entries(
    raw: &str,
    r: Vec<String>,
    entries: Seq<Seq<char>>,
    cores: Seq<Seq<char>>,
    places: Seq<int>,
)
    requires
        call_ensures(config::cors_origins, (Some(raw),), r),
        entries.len() > 0,
        lt::free_of(entries, ','),
        raw@ == lt::glued(entries, ','),
        cores.len() == entries.len(),
        places.len() == entries.len(),
        forall|i: int| 0 <= i < entries.len() ==> #[trigger] lt::strips(entries[i], cores[i], places[i]),
    ensures
        ({
            let kept = cores.filter(|c: Seq<char>| c.len() > 0 && sendable(c));
            if kept.len() > 0 {
                r@.len() == kept.len() && forall|i: int|
                    0 <= i < kept.len() ==> (#[trigger] r@[i])@ == kept[i]
            } else {
                loopback(r@)
            }
        }),
{
    listed_cores(raw@, entries, cores, places);
    let kept = cores.filter(|c: Seq<char>| c.len() > 0 && sendable(c));
    assert(config::listed_origins(raw@) == kept);
    assert(text::texts(r@).len() == r@.len());
    assert(forall|i: int| 0 <= i < r@.len() ==> text::texts(r@)[i] == (#[trigger] r@[i])@);
    if kept.len() == 0 {
        assert(text::texts(r@) == config::default_origins());
        assert(text::texts(r@)[0] == r@[0]@ && text::texts(r@)[1] == r@[1]@);
    }
}

/// An entry between commas is allowed if there is text in it that can be sent.
pub proof fn entry_is_allowed(raw: &str, r: Vec<String>, from: int, to: int, a: int, b: int)
    requires
        call_ensures(config::cors_origins, (Some(raw),), r),
        0 <= from <= a < b <= to <= raw@.len(),
        from == 0 || raw@[from - 1] == ',',
        to == raw@.len() || raw@[to] == ',',
        forall|i: int| from <= i < to ==> #[trigger] raw@[i] != ',',
        forall|i: int| from <= i < a ==> lt::blank(#[trigger] raw@[i]),
        forall|i: int| b <= i < to ==> lt::blank(#[trigger] raw@[i]),
        !lt::blank(raw@[a]),
        !lt::blank(raw@[b - 1]),
        forall|i: int|
            a <= i < b ==> (#[trigger] raw@[i]) as int == 9 || (raw@[i] as int >= 32 && raw@[i] as int
                != 127),
    ensures
        exists|k: int| 0 <= k < r@.len() && (#[trigger] r@[k])@ == raw@.subrange(a, b),
{
    let s = raw@;
    let entry = s.subrange(from, to);
    let core = s.subrange(a, b);
    segment_is_piece(s, from, to);
    let p = text::pieces(s, ',');
    let n = choose|n: int| 0 <= n < p.len() && #[trigger] p[n] == entry;
    assert(entry.subrange(a - from, b - from) == core);
    assert(lt::strips(entry, core, a - from)) by {
        assert(core[0] == s[a] && core[core.len() - 1] == s[b - 1]);
        assert forall|i: int| 0 <= i < a - from implies lt::blank(#[trigger] entry[i]) by {
            assert(entry[i] == s[from + i]);
        }
        assert forall|i: int| b - from <= i < entry.len() implies lt::blank(#[trigger] entry[i]) by {
            assert(entry[i] == s[from + i]);
        }
    }
    lt::strips_is_trimmed(entry, core, a - from);
    assert forall|i: int| 0 <= i < core.len() implies config::header_char(#[trigger] core[i]) by {
        assert(core[i] == s[a + i]);
    }
    config::usable_entry_is_allowed(s, n);
    let k = choose|k: int|
        0 <= k < config::allowed_origins(Some(s)).len() && config::allowed_origins(Some(s))[k] == core;
    assert(text::texts(r@)[k] == core);
    assert(r@[k]@ == core);
}

/// Without a value the loopback origins are allowed.
pub proof fn no_value_allows_loopback(r: Vec<String>)
    requires
        call_ensures(config::cors_origins, (None::<&str>,), r),
    ensures
        loopback(r@),
{
    let none = Seq::<char>::empty();
    assert(text::pieces(none, ',') == seq![none]);
    assert(text::trimmed(none) == none);
    config::origins_fall_back(none);
    assert(text::texts(r@) == config::default_origins());
    assert(text::texts(r@).len() == r@.len());
    assert(text::texts(r@)[0] == r@[0]@ && text::texts(r@)[1] == r@[1]@);
}

proof fn listed_cores(
    raw: Seq<char>,
    entries: Seq<Seq<char>>,
    cores: Seq<Seq<char>>,
    places: Seq<int>,
)
    requires
        entries.len() > 0,
        lt::free_of(entries, ','),
        raw == lt::glued(entries, ','),
        cores.len() == entries.len(),
        places.len() == entries.len(),
        forall|i: int| 0 <= i < entries.len() ==> #[trigger] lt::strips(entries[i], cores[i], places[i]),
    ensures
        config::listed_origins(raw) == cores.filter(|c: Seq<char>| c.len() > 0 && sendable(c)),
{
    lt::pieces_of_glued(entries, ',');
    let trimmed = entries.map_values(|s: Seq<char>| text::trimmed(s));
    assert forall|i: int| 0 <= i < entries.len() implies trimmed[i] == #[trigger] cores[i] by {
        assert(lt::strips(entries[i], cores[i], places[i]));
        lt::strips_is_trimmed(entries[i], cores[i], places[i]);
    }
    assert(trimmed == cores);
    let usable = |s: Seq<char>| config::usable_origin(s);
    let kept = |c: Seq<char>| c.len() > 0 && sendable(c);
    assert forall|s: Seq<char>| #[trigger] usable(s) == kept(s) by {
        if sendable(s) {
            assert forall|i: int| 0 <= i < s.len() implies config::header_char(#[trigger] s[i]) by {}
        }
        if config::header_text(s) {
            assert forall|i: int| 0 <= i < s.len() implies (#[trigger] s[i]) as int == 9 || (
            s[i] as int >= 32 && s[i] as int != 127) by {
                assert(config::header_char(s[i]));
            }
        }
    }
    assert(usable =~= kept);
}

/// What stands between two separators is a piece.
pub(crate) proof fn segment_is_piece(s: Seq<char>, from: int, to: int)
    requires
        0 <= from <= to <= s.len(),
        from == 0 || s[from - 1] == ',',
        to == s.len() || s[to] == ',',
        forall|i: int| from <= i < to ==> #[trigger] s[i] != ',',
    ensures
        exists|n: int|
            0 <= n < text::pieces(s, ',').len() && #[trigger] text::pieces(s, ',')[n]
                == s.subrange(from, to),
    decreases s.len(),
{
    let p = text::pieces(s, ',');
    if to == s.len() {
        let start = s.take(from);
        let tail = s.subrange(from, to);
        assert(start + tail == s);
        assert forall|k: int| 0 <= k < tail.len() implies #[trigger] tail[k] != ',' by {
            assert(tail[k] == s[from + k]);
        }
        lt::pieces_of_appended(start, tail, ',');
        let q = text::pieces(start, ',');
        if from == 0 {
            assert(start == Seq::<char>::empty());
            assert(q == seq![Seq::<char>::empty()]);
        } else {
            assert(start.last() == ',');
        }
        assert(q.last() == Seq::<char>::empty());
        assert(q.last() + tail == tail);
        assert(p[p.len() - 1] == tail);
    } else {
        let short = s.drop_last();
        lt::pieces_of_appended(short, Seq::<char>::empty(), ',');
        let q = text::pieces(short, ',');
        assert(short.subrange(from, to) == s.subrange(from, to));
        if to < short.len() {
            assert(short[to] == ',');
        }
        assert forall|i: int| from <= i < to implies #[trigger] short[i] != ',' by {
            assert(s[i] != ',');
        }
        segment_is_piece(short, from, to);
        let n = choose|n: int| 0 <= n < q.len() && #[trigger] q[n] == short.subrange(from, to);
        if s.last() == ',' {
            assert(p[n] == q[n]);
        } else if n < q.len() - 1 {
            assert(p[n] == q[n]);
        } else {
            assert(to < short.len());
            segment_before_separator(short, from, to);
            let m = choose|m: int|
                0 <= m < q.len() - 1 && #[trigger] q[m] == short.subrange(from, to);
            assert(p[m] == q[m]);
        }
    }
}

/// What stands before a separator is a piece, and not the last one.
proof fn segment_before_separator(s: Seq<char>, from: int, to: int)
    requires
        0 <= from <= to < s.len(),
        from == 0 || s[from - 1] == ',',
        s[to] == ',',
        forall|i: int| from <= i < to ==> #[trigger] s[i] != ',',
    ensures
        exists|n: int|
            0 <= n < text::pieces(s, ',').len() - 1 && #[trigger] text::pieces(s, ',')[n]
                == s.subrange(from, to),
    decreases s.len(),
{
    let p = text::pieces(s, ',');
    let short = s.drop_last();
    let q = text::pieces(short, ',');
    lt::pieces_of_appended(short, Seq::<char>::empty(), ',');
    assert(short.subrange(from, to) == s.subrange(from, to));
    assert forall|i: int| from <= i < to implies #[trigger] short[i] != ',' by {
        assert(s[i] != ',');
    }
    if to == short.len() {
        segment_is_piece(short, from, to);
        let n = choose|n: int| 0 <= n < q.len() && #[trigger] q[n] == short.subrange(from, to);
        assert(p[n] == q[n]);
    } else {
        assert(short[to] == ',');
        segment_before_separator(short, from, to);
        let n = choose|n: int| 0 <= n < q.len() - 1 && #[trigger] q[n] == short.subrange(from, to);
        assert(p[n] == q[n]);
    }
}

/// A configuration that names no broadcast target uses the global one.
pub proof fn broadcast_is_global(r: String)
    requires
        call_ensures(config::default_broadcast, (), r),
    ensures
        r@ == "255.255.255.255"@,
{
}

/// The environment variable that lists the origins.
pub proof fn origins_variable()
    ensures
        config::TAPO_CORS_ORIGINS_ENV@ == "TAPO_CORS_ORIGINS"@,
{
}

} // verus!
