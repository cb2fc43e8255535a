//! Colors given as six hexadecimal digits, with an optional leading `#`.

use vstd::prelude::*;
use vstd::string::*;

verus! {

/// An RGB color, one byte per channel.
#[derive(Clone, Copy, Debug, PartialEq, Eq, Structural)]
pub struct Color {
    pub r: u8,
    pub g: u8,
    pub b: u8,
}

/// Why a color text was refused.
#[derive(Clone, Copy, Debug, PartialEq, Eq, Structural)]
pub enum ColorError {
    /// After the optional `#`, the text does not hold exactly six characters.
    Length,
    /// One of the six characters is not a hexadecimal digit.
    Digit,
}

pub open spec fn is_hex_digit(c: char) -> bool {
    ('0' <= c && c <= '9') || ('a' <= c && c <= 'f') || ('A' <= c && c <= 'F')
}

pub open spec fn hex_value(c: char) -> int {
    if '0' <= c && c <= '9' {
        c as int - '0' as int
    } else if 'a' <= c && c <= 'f' {
        c as int - 'a' as int + 10
    } else {
        c as int - 'A' as int + 10
    }
}

/// The text without one leading `#`, if it has one.
pub open spec fn strip_hash(s: Seq<char>) -> Seq<char> {
    if s.len() > 0 && s[0] == '#' {
        s.drop_first()
    } else {
        s
    }
}

pub open spec fn all_hex(d: Seq<char>) -> bool {
    forall|i: int| 0 <= i < d.len() ==> is_hex_digit(#[trigger] d[i])
}

/// The byte written by the two digits at `d[i]` and `d[i + 1]`.
pub open spec fn pair_value(d: Seq<char>, i: int) -> int {
    16 * hex_value(d[i]) + hex_value(d[i + 1])
}

/// What parsing a color text gives.
pub open spec fn parse_color(s: Seq<char>) -> Result<Color, ColorError> {
    let d = strip_hash(s);
    if d.len() != 6 {
        Err(ColorError::Length)
    } else if !all_hex(d) {
        Err(ColorError::Digit)
    } else {
        Ok(Color { r: pair_value(d, 0) as u8, g: pair_value(d, 2) as u8, b: pair_value(d, 4) as u8 })
    }
}

/// The lower-case hexadecimal digit for a value below 16.
pub open spec fn hex_char(v: int) -> char {
    if v < 10 {
        (v + '0' as int) as char
    } else {
        (v - 10 + 'a' as int) as char
    }
}

pub open spec fn byte_text(b: u8) -> Seq<char> {
    seq![hex_char(b as int / 16), hex_char(b as int % 16)]
}

/// `#rrggbb` in lower case.
pub open spec fn color_text(c: Color) -> Seq<char> {
    seq!['#'] + byte_text(c.r) + byte_text(c.g) + byte_text(c.b)
}

proof fn lemma_hex_char(v: int)
    requires
        0 <= v < 16,
    ensures
        is_hex_digit(hex_char(v)),
        hex_value(hex_char(v)) == v,
{
}

proof fn lemma_text_parses(c: Color)
    ensures
        parse_color(color_text(c)) == Ok::<Color, ColorError>(c),
{
    let t = color_text(c);
    lemma_hex_char(c.r as int / 16);
    lemma_hex_char(c.r as int % 16);
    lemma_hex_char(c.g as int / 16);
    lemma_hex_char(c.g as int % 16);
    lemma_hex_char(c.b as int / 16);
    lemma_hex_char(c.b as int % 16);
    let d = strip_hash(t);
    assert(d =~= byte_text(c.r) + byte_text(c.g) + byte_text(c.b));
    assert(all_hex(d));
    assert(pair_value(d, 0) == c.r as int);
    assert(pair_value(d, 2) == c.g as int);
    assert(pair_value(d, 4) == c.b as int);
}

/// Formatting a color and parsing the text gives the color back, and a text
/// that parses formats to a text that parses to the same channels.
pub proof fn lemma_color_round_trip(c: Color, s: Seq<char>)
    ensures
        parse_color(color_text(c)) == Ok::<Color, ColorError>(c),
        parse_color(s) is Ok ==> parse_color(color_text(parse_color(s)->Ok_0)) == parse_color(s),
{
    lemma_text_parses(c);
    if parse_color(s) is Ok {
        lemma_text_parses(parse_color(s)->Ok_0);
    }
}

fn hex_digit_value(c: char) -> (r: Option<u8>)
    ensures
        r is Some <==> is_hex_digit(c),
        r is Some ==> r->Some_0 as int == hex_value(c),
{
    if '0' <= c && c <= '9' {
        Some(((c as u32) - ('0' as u32)) as u8)
    } else if 'a' <= c && c <= 'f' {
        Some(((c as u32) - ('a' as u32) + 10) as u8)
    } else if 'A' <= c && c <= 'F' {
        Some(((c as u32) - ('A' as u32) + 10) as u8)
    } else {
        None
    }
}

/// Parses `#RRGGBB` or `RRGGBB`; either case of hexadecimal digit is taken.
pub fn parse_hex_color(hex: &str) -> (r: Result<Color, ColorError>)
    ensures
        r == parse_color(hex@),
{
    let n = hex.unicode_len();
    let start: usize = if n > 0 && hex.get_char(0) == '#' { 1 } else { 0 };
    let ghost d = strip_hash(hex@);
    assert(d =~= hex@.subrange(start as int, n as int));
    if n - start != 6 {
        return Err(ColorError::Length);
    }
    let mut vals: Vec<u8> = Vec::new();
    let mut i: usize = 0;
    while i < 6
        invariant
            n == hex@.len(),
            start + 6 == n,
            d =~= hex@.subrange(start as int, n as int),
            d == strip_hash(hex@),
            i <= 6,
            vals@.len() == i,
            forall|k: int| 0 <= k < i ==> is_hex_digit(#[trigger] d[k]),
            forall|k: int| 0 <= k < i ==> #[trigger] vals@[k] as int == hex_value(d[k]),
        decreases 6 - i,
    {
        let c = hex.get_char(start + i);
        assert(c == d[i as int]);
        match hex_digit_value(c) {
            Some(v) => vals.push(v),
            None => {
                assert(!is_hex_digit(d[i as int]));
                assert(!all_hex(d));
                return Err(ColorError::Digit);
            },
        }
        i = i + 1;
    }
    assert(all_hex(d));
    let r = vals[0] * 16 + vals[1];
    let g = vals[2] * 16 + vals[3];
    let b = vals[4] * 16 + vals[5];
    Ok(Color { r, g, b })
}

/// The lower-case digit text of a value below 16.
pub(crate) fn hex_digit_text(v: u8) -> (t: &'static str)
    requires
        v < 16,
    ensures
        t@ == seq![hex_char(v as int)],
{
    proof {
        reveal_strlit("0");
        reveal_strlit("1");
        reveal_strlit("2");
        reveal_strlit("3");
        reveal_strlit("4");
        reveal_strlit("5");
        reveal_strlit("6");
        reveal_strlit("7");
        reveal_strlit("8");
        reveal_strlit("9");
        reveal_strlit("a");
        reveal_strlit("b");
        reveal_strlit("c");
        reveal_strlit("d");
        reveal_strlit("e");
        reveal_strlit("f");
    }
    match v {
        0 => "0",
        1 => "1",
        2 => "2",
        3 => "3",
        4 => "4",
        5 => "5",
        6 => "6",
        7 => "7",
        8 => "8",
        9 => "9",
        10 => "a",
        11 => "b",
        12 => "c",
        13 => "d",
        14 => "e",
        _ => "f",
    }
}

fn push_byte(s: &mut String, b: u8)
    ensures
        final(s)@ == old(s)@ + byte_text(b),
{
    s.append(hex_digit_text(b / 16));
    s.append(hex_digit_text(b % 16));
    assert(final(s)@ =~= old(s)@ + byte_text(b));
}

impl Color {
    /// Same as [`parse_hex_color`].
    pub fn from_hex(s: &str) -> (r: Result<Color, ColorError>)
        ensures
            r == parse_color(s@),
    {
        parse_hex_color(s)
    }

    /// The color as `#rrggbb`, lower case.
    pub fn to_hex(&self) -> (r: String)
        ensures
            r@ == color_text(*self),
    {
        proof {
            reveal_strlit("#");
        }
        let mut s = String::from_str("#");
        push_byte(&mut s, self.r);
        push_byte(&mut s, self.g);
        push_byte(&mut s, self.b);
        assert(s@ =~= color_text(*self));
        s
    }
}

} // verus!
