//! Text functions over characters: whitespace trimming, splitting, joining, ASCII lower case and
//! decimal numbers.
use vstd::prelude::*;

verus! {

/// `String::push`: appends one character.
pub assume_specification[ String::push ](s: &mut String, ch: char)
    ensures
        final(s)@ == old(s)@.push(ch),
;

/// The characters with the Unicode property `White_Space`.
pub open spec fn white_space(c: char) -> bool {
    ||| '\u{9}' <= c <= '\u{d}'
    ||| c == '\u{20}'
    ||| c == '\u{85}'
    ||| c == '\u{a0}'
    ||| c == '\u{1680}'
    ||| '\u{2000}' <= c <= '\u{200a}'
    ||| c == '\u{2028}'
    ||| c == '\u{2029}'
    ||| c == '\u{202f}'
    ||| c == '\u{205f}'
    ||| c == '\u{3000}'
}

/// Tells whether a character is Unicode whitespace.
pub fn is_white_space(c: char) -> (r: bool)
    ensures
        r == white_space(c),
{
    ('\u{9}' <= c && c <= '\u{d}') || c == '\u{20}' || c == '\u{85}' || c == '\u{a0}' || c
        == '\u{1680}' || ('\u{2000}' <= c && c <= '\u{200a}') || c == '\u{2028}' || c == '\u{2029}'
        || c == '\u{202f}' || c == '\u{205f}' || c == '\u{3000}'
}

/// The text without its leading and trailing whitespace.
pub open spec fn trimmed(s: Seq<char>) -> Seq<char>
    decreases s.len(),
{
    if s.len() > 0 && white_space(s.first()) {
        trimmed(s.drop_first())
    } else if s.len() > 0 && white_space(s.last()) {
        trimmed(s.drop_last())
    } else {
        s
    }
}

/// Trimmed text neither begins nor ends with whitespace, and trimming it again changes nothing.
pub proof fn trimmed_is_trim(s: Seq<char>)
    ensures
        trimmed(s).len() > 0 ==> !white_space(trimmed(s).first()) && !white_space(
            trimmed(s).last(),
        ),
        trimmed(trimmed(s)) == trimmed(s),
    decreases s.len(),
{
    if s.len() > 0 && white_space(s.first()) {
        trimmed_is_trim(s.drop_first());
    } else if s.len() > 0 && white_space(s.last()) {
        trimmed_is_trim(s.drop_last());
    }
}

/// Whether one text stands in another at the given place.
pub open spec fn stands_at(s: Seq<char>, part: Seq<char>, from: int) -> bool {
    0 <= from && from + part.len() <= s.len() && s.subrange(from, from + part.len()) == part
}

/// Trimming takes away from both ends only, and nothing from the front of a text that begins with
/// no whitespace.
pub proof fn trimmed_is_part(s: Seq<char>)
    ensures
        exists|from: int| #[trigger] stands_at(s, trimmed(s), from),
        s.len() > 0 && !white_space(s[0]) ==> stands_at(s, trimmed(s), 0),
    decreases s.len(),
{
    let t = trimmed(s);
    if s.len() > 0 && white_space(s.first()) {
        let rest = s.drop_first();
        trimmed_is_part(rest);
        let from = choose|from: int| #[trigger] stands_at(rest, t, from);
        assert(s.subrange(from + 1, from + 1 + t.len()) == rest.subrange(from, from + t.len()));
        assert(stands_at(s, t, from + 1));
    } else if s.len() > 0 && white_space(s.last()) {
        let rest = s.drop_last();
        trimmed_is_part(rest);
        assert(rest[0] == s[0]);
        assert(s.subrange(0, t.len() as int) == rest.subrange(0, t.len() as int));
        assert(stands_at(s, t, 0));
    } else {
        assert(s.subrange(0, t.len() as int) == s);
        assert(stands_at(s, t, 0));
    }
}

/// The characters of a string, in order.
pub fn chars_of(s: &str) -> (r: Vec<char>)
    ensures
        r@ == s@,
{
    let mut r: Vec<char> = Vec::new();
    for c in it: s.chars()
        invariant
            r@ == s@.take(it.index()),
            it.seq() == s@,
    {
        r.push(c);
    }
    assert(s@.take(s@.len() as int) == s@);
    r
}

/// The string made of the given characters.
pub fn string_of(chars: &Vec<char>) -> (r: String)
    ensures
        r@ == chars@,
{
    let mut r: String = String::new();
    let mut i: usize = 0;
    while i < chars.len()
        invariant
            i <= chars@.len(),
            r@ == chars@.take(i as int),
        decreases chars@.len() - i,
    {
        r.push(chars[i]);
        i = i + 1;
    }
    r
}

/// Removes leading and trailing whitespace.
pub fn trim(s: &str) -> (r: &str)
    ensures
        r@ == trimmed(s@),
{
    let chars = chars_of(s);
    let mut from: usize = 0;
    let mut to: usize = chars.len();
    assert(s@.subrange(0, s@.len() as int) == s@);
    while from < to && is_white_space(chars[from])
        invariant
            chars@ == s@,
            from <= to,
            to == s@.len(),
            trimmed(s@.subrange(from as int, to as int)) == trimmed(s@),
        decreases to - from,
    {
        assert(s@.subrange(from as int, to as int).drop_first() == s@.subrange(
            from + 1,
            to as int,
        ));
        from = from + 1;
    }
    while from < to && is_white_space(chars[to - 1])
        invariant
            chars@ == s@,
            from <= to <= s@.len(),
            from < to ==> !white_space(s@[from as int]),
            trimmed(s@.subrange(from as int, to as int)) == trimmed(s@),
        decreases to - from,
    {
        assert(s@.subrange(from as int, to as int).drop_last() == s@.subrange(
            from as int,
            to - 1,
        ));
        to = to - 1;
    }
    s.substring_char(from, to)
}

/// The pieces of a text between the occurrences of a separator; a text without the separator is
/// its own only piece.
pub open spec fn pieces(s: Seq<char>, sep: char) -> Seq<Seq<char>>
    decreases s.len(),
{
    if s.len() == 0 {
        seq![Seq::<char>::empty()]
    } else {
        let before = pieces(s.drop_last(), sep);
        if s.last() == sep {
            before.push(Seq::<char>::empty())
        } else {
            before.drop_last().push(before.last().push(s.last()))
        }
    }
}

/// The texts one after the other, with the separator between each two.
pub open spec fn joined(parts: Seq<Seq<char>>, sep: Seq<char>) -> Seq<char>
    decreases parts.len(),
{
    if parts.len() == 0 {
        Seq::<char>::empty()
    } else if parts.len() == 1 {
        parts[0]
    } else {
        joined(parts.drop_last(), sep) + sep + parts.last()
    }
}

/// The contents of a sequence of character vectors.
pub open spec fn views(v: Seq<Vec<char>>) -> Seq<Seq<char>> {
    Seq::new(v.len(), |i: int| v[i]@)
}

/// The contents of a sequence of strings.
pub open spec fn texts(v: Seq<String>) -> Seq<Seq<char>> {
    Seq::new(v.len(), |i: int| v[i]@)
}

/// Splitting loses nothing: there is always a piece, no piece holds the separator, and the pieces
/// joined by the separator are the text again.
pub proof fn pieces_join_back(s: Seq<char>, sep: char)
    ensures
        pieces(s, sep).len() > 0,
        forall|i: int| 0 <= i < pieces(s, sep).len() ==> !(#[trigger] pieces(s, sep)[i]).contains(sep),
        joined(pieces(s, sep), seq![sep]) == s,
    decreases s.len(),
{
    let all = pieces(s, sep);
    if s.len() > 0 {
        let short = s.drop_last();
        let before = pieces(short, sep);
        pieces_join_back(short, sep);
        assert(s == short.push(s.last()));
        if s.last() == sep {
            assert(all.drop_last() == before);
            assert(joined(all, seq![sep]) == short + seq![sep] + Seq::<char>::empty());
            assert(joined(all, seq![sep]) == s);
        } else {
            let grown = before.last().push(s.last());
            assert(!grown.contains(sep)) by {
                assert forall|j: int| 0 <= j < grown.len() implies grown[j] != sep by {
                    if j < before.last().len() {
                        assert(before.last()[j] == grown[j]);
                    }
                }
            }
            assert forall|i: int| 0 <= i < all.len() implies !(#[trigger] all[i]).contains(sep) by {
                if i < before.len() - 1 {
                    assert(all[i] == before[i]);
                }
            }
            assert(all.drop_last() == before.drop_last());
            if before.len() == 1 {
                assert(joined(all, seq![sep]) == s);
            } else {
                assert(joined(all, seq![sep]) == joined(before.drop_last(), seq![sep]) + seq![sep]
                    + grown);
                assert(joined(all, seq![sep]) == s);
            }
        }
    }
}

/// Splits characters at every occurrence of a separator.
pub fn split(chars: &Vec<char>, sep: char) -> (r: Vec<Vec<char>>)
    ensures
        views(r@) == pieces(chars@, sep),
{
    let mut done: Vec<Vec<char>> = Vec::new();
    let mut current: Vec<char> = Vec::new();
    let mut i: usize = 0;
    assert(chars@.take(0) == Seq::<char>::empty());
    assert(views(done@).push(current@) == pieces(chars@.take(0), sep));
    while i < chars.len()
        invariant
            i <= chars@.len(),
            views(done@).push(current@) == pieces(chars@.take(i as int), sep),
        decreases chars@.len() - i,
    {
        let c = chars[i];
        let ghost before = views(done@).push(current@);
        assert(chars@.take(i + 1).drop_last() == chars@.take(i as int));
        assert(before.drop_last() == views(done@));
        if c == sep {
            done.push(current);
            current = Vec::new();
            assert(views(done@) == before);
        } else {
            current.push(c);
        }
        i = i + 1;
    }
    done.push(current);
    assert(chars@.take(chars@.len() as int) == chars@);
    assert(views(done@) == pieces(chars@, sep));
    done
}

/// Joins strings with a separator between each two.
pub fn join(parts: &Vec<String>, sep: &str) -> (r: String)
    ensures
        r@ == joined(texts(parts@), sep@),
{
    let mut r: String = String::new();
    let mut i: usize = 0;
    while i < parts.len()
        invariant
            i <= parts@.len(),
            r@ == joined(texts(parts@).take(i as int), sep@),
        decreases parts@.len() - i,
    {
        assert(texts(parts@).take(i + 1).drop_last() == texts(parts@).take(i as int));
        if i > 0 {
            r.append(sep);
        }
        r.append(parts[i].as_str());
        assert(texts(parts@).take(i + 1).last() == parts@[i as int]@);
        i = i + 1;
    }
    assert(texts(parts@).take(parts@.len() as int) == texts(parts@));
    r
}

/// The character with an ASCII capital letter made small.
pub open spec fn ascii_lower(c: char) -> char {
    if 'A' <= c <= 'Z' {
        (c as u8 + 32) as char
    } else {
        c
    }
}

/// Makes the ASCII capital letters of a string small and leaves the other characters alone.
pub fn to_ascii_lower(s: &str) -> (r: String)
    ensures
        r@ == s@.map_values(|c: char| ascii_lower(c)),
{
    let chars = chars_of(s);
    let ghost lowered = s@.map_values(|c: char| ascii_lower(c));
    let mut r: String = String::new();
    let mut i: usize = 0;
    while i < chars.len()
        invariant
            chars@ == s@,
            i <= chars@.len(),
            lowered == s@.map_values(|c: char| ascii_lower(c)),
            r@ == lowered.take(i as int),
        decreases chars@.len() - i,
    {
        let c = chars[i];
        if 'A' <= c && c <= 'Z' {
            r.push((c as u8 + 32) as char);
        } else {
            r.push(c);
        }
        assert(lowered.take(i + 1) == lowered.take(i as int).push(lowered[i as int]));
        i = i + 1;
    }
    assert(lowered.take(lowered.len() as int) == lowered);
    r
}

/// How many bytes encode a character in UTF-8.
pub open spec fn char_bytes(c: char) -> nat {
    if c <= '\u{7f}' {
        1
    } else if c <= '\u{7ff}' {
        2
    } else if c <= '\u{ffff}' {
        3
    } else {
        4
    }
}

/// How many bytes encode a text in UTF-8.
pub open spec fn byte_length(s: Seq<char>) -> nat
    decreases s.len(),
{
    if s.len() == 0 {
        0
    } else {
        byte_length(s.drop_last()) + char_bytes(s.last())
    }
}

/// Whether a place in a text, counted in bytes, is before or behind a whole character.
pub open spec fn char_boundary(s: Seq<char>, at: nat) -> bool {
    exists|k: int| 0 <= k <= s.len() && #[trigger] byte_length(s.take(k)) == at
}

/// Text in ASCII has one byte per character.
pub proof fn ascii_byte_length(s: Seq<char>)
    requires
        forall|i: int| 0 <= i < s.len() ==> #[trigger] s[i] <= '\u{7f}',
    ensures
        byte_length(s) == s.len(),
    decreases s.len(),
{
    if s.len() > 0 {
        assert(s.last() == s[s.len() - 1]);
        assert forall|i: int| 0 <= i < s.drop_last().len() implies #[trigger] s.drop_last()[i]
            <= '\u{7f}' by {
            assert(s.drop_last()[i] == s[i]);
        }
        ascii_byte_length(s.drop_last());
    }
}

/// Counts the bytes that encode a character in UTF-8.
pub fn bytes_of(c: char) -> (r: u128)
    ensures
        r == char_bytes(c),
        1 <= r <= 4,
{
    if c <= '\u{7f}' {
        1
    } else if c <= '\u{7ff}' {
        2
    } else if c <= '\u{ffff}' {
        3
    } else {
        4
    }
}

/// Tells whether a place in a text, counted in bytes, is before or behind a whole character.
pub fn is_char_boundary(s: &Vec<char>, at: u128) -> (r: bool)
    ensures
        r == char_boundary(s@, at as nat),
{
    let mut total: u128 = 0;
    let mut i: usize = 0;
    while i < s.len()
        invariant
            i <= s@.len(),
            total == byte_length(s@.take(i as int)),
            total <= 4 * i,
            forall|k: int| 0 <= k < i ==> #[trigger] byte_length(s@.take(k)) != at,
        decreases s@.len() - i,
    {
        if total == at {
            return true;
        }
        assert(s@.take(i + 1).drop_last() == s@.take(i as int));
        total = total + bytes_of(s[i]);
        i = i + 1;
    }
    total == at
}

/// The decimal digit with the given value.
pub open spec fn digit_char(d: nat) -> char {
    ('0' as u8 + d) as char
}

/// A number in decimal, without leading zeros.
pub open spec fn decimal(n: nat) -> Seq<char>
    decreases n,
{
    if n < 10 {
        seq![digit_char(n)]
    } else {
        decimal(n / 10).push(digit_char(n % 10))
    }
}

/// Writes a number in decimal.
pub fn to_decimal(n: u64) -> (r: String)
    ensures
        r@ == decimal(n as nat),
    decreases n,
{
    let mut r: String = if n < 10 {
        String::new()
    } else {
        to_decimal(n / 10)
    };
    r.push((48 + (n % 10) as u8) as char);
    r
}

/// The place of the first occurrence of a key among keys.
pub open spec fn position(keys: Seq<Seq<char>>, key: Seq<char>) -> Option<int>
    decreases keys.len(),
{
    if keys.len() == 0 {
        None
    } else {
        match position(keys.drop_last(), key) {
            Some(i) => Some(i),
            None => if keys.last() == key {
                Some(keys.len() - 1)
            } else {
                None
            },
        }
    }
}

/// `position` is the least index that holds the key, and is there exactly if some index does.
pub proof fn position_is_first(keys: Seq<Seq<char>>, key: Seq<char>)
    ensures
        match position(keys, key) {
            Some(i) => 0 <= i < keys.len() && keys[i] == key && forall|j: int|
                0 <= j < i ==> keys[j] != key,
            None => forall|j: int| 0 <= j < keys.len() ==> keys[j] != key,
        },
    decreases keys.len(),
{
    if keys.len() > 0 {
        position_is_first(keys.drop_last(), key);
        assert forall|j: int| 0 <= j < keys.len() - 1 implies keys.drop_last()[j] == keys[j] by {}
    }
}

/// The least index that holds the key is its `position`.
pub proof fn first_is_position(keys: Seq<Seq<char>>, key: Seq<char>, i: int)
    requires
        0 <= i < keys.len(),
        keys[i] == key,
        forall|j: int| 0 <= j < i ==> keys[j] != key,
    ensures
        position(keys, key) == Some(i),
{
    position_is_first(keys, key);
}

/// No two keys are the same.
pub open spec fn distinct(keys: Seq<Seq<char>>) -> bool {
    forall|i: int, j: int| 0 <= i < j < keys.len() ==> keys[i] != keys[j]
}

} // verus!
