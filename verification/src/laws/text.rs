//! Laws of text.
use vstd::prelude::*;

use crate::text;

verus! {

/// Whitespace, by code point.
pub open spec fn blank(c: char) -> bool {
    let n = c as int;
    ||| 9 <= n <= 13
    ||| n == 32
    ||| n == 0x85
    ||| n == 0xa0
    ||| n == 0x1680
    ||| 0x2000 <= n <= 0x200a
    ||| n == 0x2028
    ||| n == 0x2029
    ||| n == 0x202f
    ||| n == 0x205f
    ||| n == 0x3000
}

/// `core` stands in `s` at `a`, with nothing but whitespace around it, and neither begins nor ends
/// with whitespace.
pub open spec fn strips(s: Seq<char>, core: Seq<char>, a: int) -> bool {
    &&& 0 <= a
    &&& a + core.len() <= s.len()
    &&& s.subrange(a, a + core.len()) == core
    &&& forall|i: int| 0 <= i < a ==> blank(#[trigger] s[i])
    &&& forall|i: int| a + core.len() <= i < s.len() ==> blank(#[trigger] s[i])
    &&& core.len() > 0 ==> !blank(core[0]) && !blank(core[core.len() - 1])
}

/// The texts one after the other, with a character between each two.
pub open spec fn glued(parts: Seq<Seq<char>>, sep: char) -> Seq<char>
    decreases parts.len(),
{
    if parts.len() == 0 {
        Seq::<char>::empty()
    } else if parts.len() == 1 {
        parts[0]
    } else {
        glued(parts.drop_last(), sep).push(sep) + parts.last()
    }
}

/// No text holds the character.
pub open spec fn free_of(parts: Seq<Seq<char>>, sep: char) -> bool {
    forall|i: int, k: int|
        0 <= i < parts.len() && 0 <= k < parts[i].len() ==> #[trigger] parts[i][k] != sep
}

/// A character is whitespace exactly if its code point is among those of whitespace.
pub proof fn white_space_by_code_point(c: char, r: bool)
    requires
        call_ensures(text::is_white_space, (c,), r),
    ensures
        r == blank(c),
{
}

/// What is kept of a text is trimmed off at both ends and nowhere else.
pub proof fn trim_strips(s: &str, r: &str)
    requires
        call_ensures(text::trim, (s,), r),
    ensures
        exists|a: int| strips(s@, r@, a),
{
    trimmed_strips(s@);
}

/// Trimming gives whatever stands in the text with nothing but whitespace around it.
pub proof fn trim_gives_core(s: &str, r: &str, core: Seq<char>, a: int)
    requires
        call_ensures(text::trim, (s,), r),
        strips(s@, core, a),
    ensures
        r@ == core,
{
    strips_is_trimmed(s@, core, a);
}

pub(crate) proof fn blank_is_white_space(c: char)
    ensures
        blank(c) == text::white_space(c),
{
}

proof fn strips_behind_blank(s: Seq<char>, core: Seq<char>, a: int)
    requires
        s.len() > 0,
        blank(s[0]),
        strips(s.drop_first(), core, a),
    ensures
        strips(s, core, a + 1),
{
    let rest = s.drop_first();
    assert(s.subrange(a + 1, a + 1 + core.len()) == rest.subrange(a, a + core.len()));
    assert forall|i: int| 0 <= i < a + 1 implies blank(#[trigger] s[i]) by {
        if i > 0 {
            assert(rest[i - 1] == s[i]);
        }
    }
    assert forall|i: int| a + 1 + core.len() <= i < s.len() implies blank(#[trigger] s[i]) by {
        assert(rest[i - 1] == s[i]);
    }
}

proof fn strips_before_blank(s: Seq<char>, core: Seq<char>, a: int)
    requires
        s.len() > 0,
        blank(s[s.len() - 1]),
        strips(s.drop_last(), core, a),
    ensures
        strips(s, core, a),
{
    let rest = s.drop_last();
    assert(s.subrange(a, a + core.len()) == rest.subrange(a, a + core.len()));
    assert forall|i: int| 0 <= i < a implies blank(#[trigger] s[i]) by {
        assert(rest[i] == s[i]);
    }
    assert forall|i: int| a + core.len() <= i < s.len() implies blank(#[trigger] s[i]) by {
        if i < s.len() - 1 {
            assert(rest[i] == s[i]);
        }
    }
}

pub(crate) proof fn trimmed_strips(s: Seq<char>)
    ensures
        exists|a: int| strips(s, text::trimmed(s), a),
    decreases s.len(),
{
    let t = text::trimmed(s);
    if s.len() > 0 {
        blank_is_white_space(s.first());
        blank_is_white_space(s.last());
    }
    if s.len() > 0 && text::white_space(s.first()) {
        trimmed_strips(s.drop_first());
        let a = choose|a: int| strips(s.drop_first(), t, a);
        strips_behind_blank(s, t, a);
    } else if s.len() > 0 && text::white_space(s.last()) {
        trimmed_strips(s.drop_last());
        let a = choose|a: int| strips(s.drop_last(), t, a);
        strips_before_blank(s, t, a);
    } else {
        assert(s.subrange(0, s.len() as int) == s);
        assert(strips(s, t, 0));
    }
}

pub(crate) proof fn strips_is_trimmed(s: Seq<char>, core: Seq<char>, a: int)
    requires
        strips(s, core, a),
    ensures
        text::trimmed(s) == core,
    decreases s.len(),
{
    if core.len() > 0 {
        assert(core[0] == s[a]);
        assert(core[core.len() - 1] == s[a + core.len() - 1]);
    }
    if s.len() > 0 {
        blank_is_white_space(s.first());
        blank_is_white_space(s.last());
    }
    if s.len() > 0 && text::white_space(s.first()) {
        let rest = s.drop_first();
        let b = if a > 0 {
            a - 1
        } else {
            0
        };
        assert(a == 0 ==> core.len() == 0);
        assert(rest.subrange(b, b + core.len()) == core) by {
            if a > 0 {
                assert(rest.subrange(b, b + core.len()) == s.subrange(a, a + core.len()));
            }
        }
        assert forall|i: int| 0 <= i < rest.len() && (i < b || b + core.len() <= i) implies blank(
            #[trigger] rest[i],
        ) by {
            assert(rest[i] == s[i + 1]);
        }
        strips_is_trimmed(rest, core, b);
    } else if s.len() > 0 && text::white_space(s.last()) {
        let rest = s.drop_last();
        assert(blank(s[0]) ==> false);
        assert(a == 0);
        assert(core.len() > 0);
        assert(a + core.len() < s.len());
        assert(rest.subrange(a, a + core.len()) == s.subrange(a, a + core.len()));
        assert forall|i: int| 0 <= i < rest.len() && (i < a || a + core.len() <= i) implies blank(
            #[trigger] rest[i],
        ) by {
            assert(rest[i] == s[i]);
        }
        strips_is_trimmed(rest, core, a);
    } else if s.len() > 0 {
        assert(s[0] == s.first() && s[s.len() - 1] == s.last());
        assert(a == 0);
        assert(a + core.len() == s.len());
        assert(core == s);
    }
}

/// Splitting a text that is made of texts without the separator gives these texts.
pub proof fn split_takes_apart(
    chars: &Vec<char>,
    sep: char,
    r: Vec<Vec<char>>,
    parts: Seq<Seq<char>>,
)
    requires
        call_ensures(text::split, (chars, sep), r),
        parts.len() > 0,
        free_of(parts, sep),
        chars@ == glued(parts, sep),
    ensures
        r@.len() == parts.len(),
        forall|i: int| 0 <= i < parts.len() ==> (#[trigger] r@[i])@ == parts[i],
{
    pieces_of_glued(parts, sep);
    assert forall|i: int| 0 <= i < parts.len() implies (#[trigger] r@[i])@ == parts[i] by {
        assert(text::views(r@)[i] == parts[i]);
    }
    assert(text::views(r@).len() == r@.len());
}

/// Splitting loses nothing: the text is made of what it gives, which does not hold the separator.
pub proof fn split_glues_back(chars: &Vec<char>, sep: char, r: Vec<Vec<char>>)
    requires
        call_ensures(text::split, (chars, sep), r),
    ensures
        r@.len() > 0,
        forall|i: int, k: int|
            0 <= i < r@.len() && 0 <= k < r@[i]@.len() ==> #[trigger] r@[i]@[k] != sep,
        glued(Seq::new(r@.len(), |i: int| r@[i]@), sep) == chars@,
{
    glued_of_pieces(chars@, sep);
    assert(text::views(r@) == Seq::new(r@.len(), |i: int| r@[i]@));
    assert forall|i: int, k: int| 0 <= i < r@.len() && 0 <= k < r@[i]@.len() implies #[trigger] r@[i]@[k]
        != sep by {
        assert(text::pieces(chars@, sep)[i][k] != sep);
    }
}

pub(crate) proof fn pieces_of_glued(parts: Seq<Seq<char>>, sep: char)
    requires
        parts.len() > 0,
        free_of(parts, sep),
    ensures
        text::pieces(glued(parts, sep), sep) == parts,
    decreases parts.len(),
{
    let none = Seq::<char>::empty();
    if parts.len() == 1 {
        assert(text::pieces(none, sep) == seq![none]);
        pieces_of_appended(none, parts[0], sep);
        assert(none + parts[0] == parts[0]);
        assert(parts == seq![parts[0]]);
    } else {
        let before = parts.drop_last();
        assert forall|i: int, k: int|
            0 <= i < before.len() && 0 <= k < before[i].len() implies #[trigger] before[i][k] != sep by {
            assert(parts[i][k] != sep);
        }
        pieces_of_glued(before, sep);
        let start = glued(before, sep).push(sep);
        assert(start.drop_last() == glued(before, sep));
        assert(text::pieces(start, sep) == before.push(none));
        assert forall|k: int| 0 <= k < parts.last().len() implies #[trigger] parts.last()[k] != sep by {
            assert(parts[parts.len() - 1][k] != sep);
        }
        pieces_of_appended(start, parts.last(), sep);
        assert(none + parts.last() == parts.last());
        assert(before.push(none).drop_last() == before);
        assert(before.push(parts.last()) == parts);
    }
}

/// Text without the separator goes to the last piece.
pub(crate) proof fn pieces_of_appended(s: Seq<char>, t: Seq<char>, sep: char)
    requires
        forall|k: int| 0 <= k < t.len() ==> #[trigger] t[k] != sep,
    ensures
        text::pieces(s, sep).len() > 0,
        text::pieces(s + t, sep) == text::pieces(s, sep).drop_last().push(
            text::pieces(s, sep).last() + t,
        ),
    decreases t.len(),
{
    text::pieces_join_back(s, sep);
    let p = text::pieces(s, sep);
    if t.len() == 0 {
        assert(s + t == s);
        assert(p.last() + t == p.last());
        assert(p.drop_last().push(p.last()) == p);
    } else {
        let u = t.drop_last();
        assert forall|k: int| 0 <= k < u.len() implies #[trigger] u[k] != sep by {
            assert(t[k] != sep);
        }
        pieces_of_appended(s, u, sep);
        assert((s + t).drop_last() == s + u);
        assert((s + t).last() == t.last());
        assert(t[t.len() - 1] != sep);
        let before = text::pieces(s + u, sep);
        assert(before.drop_last() == p.drop_last());
        assert((p.last() + u).push(t.last()) == p.last() + t);
    }
}

pub(crate) proof fn glued_of_pieces(s: Seq<char>, sep: char)
    ensures
        text::pieces(s, sep).len() > 0,
        free_of(text::pieces(s, sep), sep),
        glued(text::pieces(s, sep), sep) == s,
{
    text::pieces_join_back(s, sep);
    let p = text::pieces(s, sep);
    assert forall|i: int, k: int| 0 <= i < p.len() && 0 <= k < p[i].len() implies #[trigger] p[i][k]
        != sep by {
        assert(!p[i].contains(sep));
    }
    glued_is_joined(p, sep);
}

proof fn glued_is_joined(parts: Seq<Seq<char>>, sep: char)
    ensures
        glued(parts, sep) == text::joined(parts, seq![sep]),
    decreases parts.len(),
{
    if parts.len() > 1 {
        glued_is_joined(parts.drop_last(), sep);
        assert(glued(parts.drop_last(), sep).push(sep) == text::joined(parts.drop_last(), seq![sep])
            + seq![sep]);
    }
}

/// Joining nothing gives nothing, and joining one text gives it.
pub proof fn join_of_one(parts: &Vec<String>, sep: &str, r: String)
    requires
        call_ensures(text::join, (parts, sep), r),
    ensures
        parts@.len() == 0 ==> r@.len() == 0,
        parts@.len() == 1 ==> r@ == parts@[0]@,
{
}

/// Joining one text more puts the separator and that text behind what was joined before.
pub proof fn join_of_one_more(
    parts: &Vec<String>,
    more: &Vec<String>,
    sep: &str,
    r: String,
    longer: String,
)
    requires
        call_ensures(text::join, (parts, sep), r),
        call_ensures(text::join, (more, sep), longer),
        parts@.len() > 0,
        more@.len() == parts@.len() + 1,
        forall|i: int| 0 <= i < parts@.len() ==> more@[i]@ == (#[trigger] parts@[i])@,
    ensures
        longer@ == r@ + sep@ + more@[more@.len() - 1]@,
{
    assert(text::texts(more@).drop_last() == text::texts(parts@));
}

/// Lower case keeps the length, moves the ASCII capitals to the small letters and keeps the rest.
pub proof fn lower_case_by_code_point(s: &str, r: String)
    requires
        call_ensures(text::to_ascii_lower, (s,), r),
    ensures
        r@.len() == s@.len(),
        forall|i: int|
            0 <= i < s@.len() ==> (#[trigger] r@[i]) as int == (if 65 <= s@[i] as int <= 90 {
                s@[i] as int + 32
            } else {
                s@[i] as int
            }),
{
}

/// The value of decimal digits, the first one first.
pub open spec fn number(s: Seq<char>) -> int
    decreases s.len(),
{
    if s.len() == 0 {
        0
    } else {
        10 * number(s.drop_last()) + (s[s.len() - 1] as int - 48)
    }
}

/// A number is written in digits that denote it, and with a zero in front only if it is zero.
pub proof fn decimal_denotes(n: u64, r: String)
    requires
        call_ensures(text::to_decimal, (n,), r),
    ensures
        r@.len() > 0,
        forall|i: int| 0 <= i < r@.len() ==> 48 <= (#[trigger] r@[i]) as int <= 57,
        number(r@) == n,
        r@.len() > 1 ==> r@[0] as int != 48,
{
    decimal_number(n as nat);
}

proof fn decimal_number(n: nat)
    ensures
        text::decimal(n).len() > 0,
        forall|i: int|
            0 <= i < text::decimal(n).len() ==> 48 <= (#[trigger] text::decimal(n)[i]) as int <= 57,
        number(text::decimal(n)) == n,
        text::decimal(n).len() > 1 ==> text::decimal(n)[0] as int != 48,
        n > 0 ==> text::decimal(n)[0] as int != 48,
    decreases n,
{
    let d = text::decimal(n);
    reveal_with_fuel(number, 2);
    if n >= 10 {
        let front = text::decimal(n / 10);
        decimal_number(n / 10);
        assert(d.drop_last() == front);
        assert(forall|i: int| 0 <= i < front.len() ==> d[i] == front[i]);
    } else {
        assert(d.drop_last() == Seq::<char>::empty());
    }
}

/// A character takes as many bytes as its UTF-8 encoding has.
pub proof fn bytes_are_utf8(c: char, r: u128)
    requires
        call_ensures(text::bytes_of, (c,), r),
    ensures
        r == vstd::utf8::encode_scalar(c as u32).len(),
{
}

/// A place is between whole characters exactly if it is as far from the start as the encoding of
/// some first characters is long.
pub proof fn boundary_is_utf8(s: &Vec<char>, at: u128, r: bool)
    requires
        call_ensures(text::is_char_boundary, (s, at), r),
    ensures
        r <==> exists|k: int|
            0 <= k <= s@.len() && vstd::utf8::encode_utf8(#[trigger] s@.take(k)).len() == at,
{
    assert forall|k: int| 0 <= k <= s@.len() implies text::byte_length(#[trigger] s@.take(k))
        == vstd::utf8::encode_utf8(s@.take(k)).len() by {
        byte_length_is_utf8(s@.take(k));
    }
    if text::char_boundary(s@, at as nat) {
        let k = choose|k: int|
            0 <= k <= s@.len() && #[trigger] text::byte_length(s@.take(k)) == at as nat;
        assert(vstd::utf8::encode_utf8(s@.take(k)).len() == at);
    }
    if exists|k: int|
        0 <= k <= s@.len() && vstd::utf8::encode_utf8(#[trigger] s@.take(k)).len() == at {
        let k = choose|k: int|
            0 <= k <= s@.len() && vstd::utf8::encode_utf8(#[trigger] s@.take(k)).len() == at;
        assert(text::byte_length(s@.take(k)) == at as nat);
    }
}

pub(crate) proof fn byte_length_is_utf8(s: Seq<char>)
    ensures
        text::byte_length(s) == vstd::utf8::encode_utf8(s).len(),
    decreases s.len(),
{
    if s.len() > 0 {
        byte_length_is_utf8(s.drop_last());
        encoding_of_one_more(s.drop_last(), s.last());
        encoding_of_one(s.last());
        assert(s.drop_last().push(s.last()) == s);
    }
}

proof fn encoding_of_one(c: char)
    ensures
        text::char_bytes(c) == vstd::utf8::encode_scalar(c as u32).len(),
{
}

proof fn encoding_of_one_more(s: Seq<char>, c: char)
    ensures
        vstd::utf8::encode_utf8(s.push(c)).len() == vstd::utf8::encode_utf8(s).len()
            + vstd::utf8::encode_scalar(c as u32).len(),
    decreases s.len(),
{
    let t = s.push(c);
    if s.len() > 0 {
        encoding_of_one_more(s.drop_first(), c);
        assert(t.drop_first() == s.drop_first().push(c));
    } else {
        assert(t.drop_first() == Seq::<char>::empty());
        assert(vstd::utf8::encode_utf8(t.drop_first()).len() == 0);
    }
}

/// Characters and strings hold the same text.
pub proof fn characters_are_the_text(s: &str, chars: Vec<char>, back: String)
    requires
        call_ensures(text::chars_of, (s,), chars),
        call_ensures(text::string_of, (&chars,), back),
    ensures
        chars@ == s@,
        back@ == s@,
{
}

} // verus!
