//! Fields of the text-mode API: `#rrggbb` colour strings, RGB triples and the content limit.

use vstd::prelude::*;
use crate::strs::{
    chars_vec, is_white_space, push_char, string_from_chars, trim_bounds, trim_end_ws, trim_start_char,
    trim_start_ws, trim_ws,
};

verus! {

/// Largest number of characters accepted for the scrolling text content.
pub const MAX_CONTENT_CHARS: usize = 256;

/// `char::to_digit(16)`.
pub open spec fn hex_digit(c: char) -> Option<int> {
    if '0' <= c <= '9' {
        Some(c as int - '0' as int)
    } else if 'a' <= c <= 'f' {
        Some(c as int - 'a' as int + 10)
    } else if 'A' <= c <= 'F' {
        Some(c as int - 'A' as int + 10)
    } else {
        None
    }
}

/// What `parse_hex_rgb` reads: the trimmed input with its leading `#`s removed.
pub open spec fn hex_body(s: Seq<char>) -> Seq<char> {
    trim_start_char(trim_ws(s), '#')
}

/// `t` is exactly six hexadecimal digits.
pub open spec fn is_hex6(t: Seq<char>) -> bool {
    t.len() == 6 && forall|i: int| 0 <= i < 6 ==> #[trigger] hex_digit(t[i]) is Some
}

/// The byte written by the hex digits `t[i]` and `t[i + 1]`.
pub open spec fn hex_byte(t: Seq<char>, i: int) -> u8 {
    (16 * hex_digit(t[i])->0 + hex_digit(t[i + 1])->0) as u8
}

/// The colour a `#rrggbb` string denotes: after trimming and dropping leading `#`s,
/// exactly six hex digits (either case); `None` otherwise.
pub open spec fn parse_hex_rgb_spec(s: Seq<char>) -> Option<(u8, u8, u8)> {
    let t = hex_body(s);
    if is_hex6(t) {
        Some((hex_byte(t, 0), hex_byte(t, 2), hex_byte(t, 4)))
    } else {
        None
    }
}

fn hex_digit_exec(c: char) -> (r: Option<u8>)
    ensures
        r matches Some(d) ==> hex_digit(c) == Some(d as int) && d < 16,
        r is None ==> hex_digit(c) is None,
{
    if '0' <= c && c <= '9' {
        Some(((c as u32) - ('0' as u32)) as u8)
    } else if 'a' <= c && c <= 'f' {
        Some(((c as u32) - ('a' as u32) + 10) as u8)
    } else if 'A' <= c && c <= 'F' {
        Some(((c as u32) - ('A' as u32) + 10) as u8)
    } else {
        None
    }
}

/// Parses `#rrggbb` (the leading `#` is optional, surrounding white space ignored)
/// into RGB; `None` when the length or a hex digit is wrong.
pub fn parse_hex_rgb(s: &str) -> (r: Option<[u8; 3]>)
    ensures
        match parse_hex_rgb_spec(s@) {
            Some((cr, cg, cb)) => r == Some([cr, cg, cb]),
            None => r is None,
        },
{
    let v = chars_vec(s);
    let (a, b0) = trim_bounds(&v, 0, v.len());
    let mut a1 = a;
    while a1 < b0 && v[a1] == '#'
        invariant
            a <= a1 <= b0 <= v.len(),
            trim_start_char(v@.subrange(a as int, b0 as int), '#') == trim_start_char(
                v@.subrange(a1 as int, b0 as int),
                '#',
            ),
        decreases b0 - a1,
    {
        assert(v@.subrange(a1 as int, b0 as int).drop_first() =~= v@.subrange(a1 + 1, b0 as int));
        a1 += 1;
    }
    let ghost t = v@.subrange(a1 as int, b0 as int);
    assert(v@.subrange(0, v.len() as int) =~= v@);
    if a1 < b0 {
        assert(trim_start_char(t, '#') == t);
    }
    assert(t == hex_body(s@));
    if b0 - a1 != 6 {
        return None;
    }
    let mut d: Vec<u8> = Vec::new();
    let mut k: usize = 0;
    while k < 6
        invariant
            k <= 6,
            b0 - a1 == 6,
            a1 <= b0 <= v.len(),
            t == v@.subrange(a1 as int, b0 as int),
            t == hex_body(s@),
            d.len() == k,
            forall|i: int| 0 <= i < k ==> hex_digit(#[trigger] t[i]) == Some(d@[i] as int) && d@[i] < 16,
        decreases 6 - k,
    {
        assert(t[k as int] == v@[a1 + k]);
        match hex_digit_exec(v[a1 + k]) {
            Some(x) => d.push(x),
            None => {
                assert(hex_digit(t[k as int]) is None);
                return None;
            },
        }
        k += 1;
    }
    assert(is_hex6(t));
    Some([16 * d[0] + d[1], 16 * d[2] + d[3], 16 * d[4] + d[5]])
}

/// Lower-case hex digit for `d < 16`.
pub open spec fn hex_char(d: u8) -> char {
    if d < 10 {
        (('0' as int) + d) as char
    } else {
        (('a' as int) + d - 10) as char
    }
}

/// `#rrggbb` (lower-case) rendering of a colour.
pub open spec fn hex_rgb_spec(c: (u8, u8, u8)) -> Seq<char> {
    seq![
        '#',
        hex_char(c.0 / 16),
        hex_char(c.0 % 16),
        hex_char(c.1 / 16),
        hex_char(c.1 % 16),
        hex_char(c.2 / 16),
        hex_char(c.2 % 16),
    ]
}

fn hex_char_exec(d: u8) -> (c: char)
    requires
        d < 16,
    ensures
        c == hex_char(d),
{
    if d < 10 {
        ((('0' as u8) + d) as char)
    } else {
        ((('a' as u8) + d - 10) as char)
    }
}

/// RGB as a `#rrggbb` string.
pub fn hex_rgb(c: [u8; 3]) -> (s: String)
    ensures
        s@ == hex_rgb_spec((c[0], c[1], c[2])),
{
    let mut s = String::new();
    push_char(&mut s, '#');
    let mut i: usize = 0;
    while i < 3
        invariant
            i <= 3,
            s@.len() == 1 + 2 * i,
            s@[0] == '#',
            forall|k: int| 0 <= k < i ==> s@[1 + 2 * k] == hex_char(c[k] / 16) && s@[2 + 2 * k] == hex_char(c[k] % 16),
        decreases 3 - i,
    {
        push_char(&mut s, hex_char_exec(c[i] / 16));
        push_char(&mut s, hex_char_exec(c[i] % 16));
        i += 1;
    }
    assert(s@ =~= hex_rgb_spec((c[0], c[1], c[2])));
    s
}

/// Upper-case hex digit for `d < 16`.
pub open spec fn hex_char_upper(d: u8) -> char {
    if d < 10 {
        (('0' as int) + d) as char
    } else {
        (('A' as int) + d - 10) as char
    }
}

/// `#RRGGBB` (upper-case) rendering of a colour: `hex_rgb` upper-cased.
pub open spec fn hex_rgb_upper_spec(c: (u8, u8, u8)) -> Seq<char> {
    seq![
        '#',
        hex_char_upper(c.0 / 16),
        hex_char_upper(c.0 % 16),
        hex_char_upper(c.1 / 16),
        hex_char_upper(c.1 % 16),
        hex_char_upper(c.2 / 16),
        hex_char_upper(c.2 % 16),
    ]
}

/// The six digits of a colour, without the `#`, read back.
proof fn lemma_digits_read_back(c: (u8, u8, u8), t: Seq<char>, upper: bool)
    requires
        t =~= (if upper { hex_rgb_upper_spec(c) } else { hex_rgb_spec(c) }).drop_first(),
    ensures
        is_hex6(t),
        hex_byte(t, 0) == c.0 && hex_byte(t, 2) == c.1 && hex_byte(t, 4) == c.2,
{
    assert forall|i: int| 0 <= i < 6 implies #[trigger] hex_digit(t[i]) is Some by {}
}

/// `t` needs no trimming and has no leading `#`, so it is its own body once a `#`
/// is put in front.
proof fn lemma_body_of_hash_digits(t: Seq<char>)
    requires
        t.len() == 6,
        forall|i: int| 0 <= i < 6 ==> #[trigger] hex_digit(t[i]) is Some,
    ensures
        hex_body(seq!['#'] + t) == t,
        hex_body(t) == t,
{
    let s = seq!['#'] + t;
    assert(hex_digit(t[0]) is Some && hex_digit(t[5]) is Some);
    assert(!is_white_space(t[0]) && !is_white_space(t[5]) && t[0] != '#');
    reveal_with_fuel(trim_start_ws, 2);
    reveal_with_fuel(trim_end_ws, 2);
    reveal_with_fuel(trim_start_char, 2);
    assert(s.drop_first() =~= t);
    assert(s.last() == t[5]);
    assert(trim_start_ws(s) == s);
    assert(trim_end_ws(s) == s);
    assert(trim_start_ws(t) == t);
    assert(trim_end_ws(t) == t);
}

/// Round-trip law: the text of any colour parses back to that colour, also
/// upper-cased, without its `#`, or padded with white space.
pub proof fn lemma_hex_rgb_roundtrip(c: (u8, u8, u8))
    ensures
        parse_hex_rgb_spec(hex_rgb_spec(c)) == Some(c),
        parse_hex_rgb_spec(hex_rgb_upper_spec(c)) == Some(c),
        parse_hex_rgb_spec(hex_rgb_spec(c).drop_first()) == Some(c),
        parse_hex_rgb_spec(seq![' ', ' '] + hex_rgb_spec(c) + seq!['\n']) == Some(c),
{
    let s = hex_rgb_spec(c);
    let t = s.drop_first();
    lemma_digits_read_back(c, t, false);
    lemma_body_of_hash_digits(t);
    assert(seq!['#'] + t =~= s);
    let su = hex_rgb_upper_spec(c);
    let tu = su.drop_first();
    lemma_digits_read_back(c, tu, true);
    lemma_body_of_hash_digits(tu);
    assert(seq!['#'] + tu =~= su);
    let p = seq![' ', ' '] + s + seq!['\n'];
    reveal_with_fuel(trim_start_ws, 3);
    reveal_with_fuel(trim_end_ws, 2);
    assert(is_white_space(' ') && is_white_space('\n') && !is_white_space('#') && !is_white_space(t[5]));
    assert(p.drop_first().drop_first() =~= s + seq!['\n']);
    assert(trim_start_ws(p) == s + seq!['\n']);
    assert((s + seq!['\n']).drop_last() =~= s);
    assert(trim_end_ws(s + seq!['\n']) == trim_end_ws(s));
    assert(s.last() == t[5]);
    assert(trim_end_ws(s) == s);
}

/// Reads an optional colour field of a text request: absent → `Ok(None)`, a valid
/// `#rrggbb` → `Ok(Some(rgb))`, anything else → `Err("invalid {field}: {hex}")`.
pub fn parse_text_color_field(hex: Option<String>, field: &str) -> (r: Result<Option<[u8; 3]>, String>)
    ensures
        match hex {
            None => r == Ok::<Option<[u8; 3]>, String>(None),
            Some(h) => match parse_hex_rgb_spec(h@) {
                Some((cr, cg, cb)) => r == Ok::<Option<[u8; 3]>, String>(Some([cr, cg, cb])),
                None => r matches Err(msg) && msg@ == "invalid "@ + field@ + ": "@ + h@,
            },
        },
{
    match hex {
        None => Ok(None),
        Some(h) => match parse_hex_rgb(h.as_str()) {
            Some(c) => Ok(Some(c)),
            None => {
                let mut msg = String::from_str("invalid ");
                msg.append(field);
                msg.append(": ");
                msg.append(h.as_str());
                Err(msg)
            },
        },
    }
}

/// Scrolling text content as stored: its first `MAX_CONTENT_CHARS` characters.
pub fn clamp_text_content(content: &str) -> (r: String)
    ensures
        r@ == (if content@.len() > MAX_CONTENT_CHARS { content@.take(MAX_CONTENT_CHARS as int) } else { content@ }),
{
    let v = chars_vec(content);
    let end = if v.len() > MAX_CONTENT_CHARS { MAX_CONTENT_CHARS } else { v.len() };
    let r = string_from_chars(&v, 0, end);
    assert(v@.subrange(0, end as int) =~= (if content@.len() > MAX_CONTENT_CHARS {
        content@.take(MAX_CONTENT_CHARS as int)
    } else {
        content@
    }));
    r
}

} // verus!
