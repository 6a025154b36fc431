//! Color parsing and formatting: six-hex-digit strings to and from RGB
//! channel triples.  Pure functions with no state.

use vstd::prelude::*;
use vstd::arithmetic::div_mod::lemma_fundamental_div_mod_converse;
use vstd::string::StringExecFns;

verus! {

/// One pixel color: red, green and blue channel bytes.
#[derive(Clone, Copy, PartialEq, Eq, Structural, Debug)]
pub struct Rgb {
    pub r: u8,
    pub g: u8,
    pub b: u8,
}

/// A character that may appear in a color string: `0-9`, `a-f` or `A-F`.
pub open spec fn is_hex_digit(c: char) -> bool {
    (('0' as int) <= (c as int) && (c as int) <= ('9' as int))
    || (('a' as int) <= (c as int) && (c as int) <= ('f' as int))
    || (('A' as int) <= (c as int) && (c as int) <= ('F' as int))
}

/// Numeric value of one hex digit.
pub open spec fn hex_digit_value(c: char) -> int
    recommends
        is_hex_digit(c),
{
    if ('0' as int) <= (c as int) && (c as int) <= ('9' as int) {
        c as int - '0' as int
    } else if ('a' as int) <= (c as int) && (c as int) <= ('f' as int) {
        10 + c as int - 'a' as int
    } else {
        10 + c as int - 'A' as int
    }
}

/// A well-formed color string: exactly six hex digits.
pub open spec fn valid_hex6(s: Seq<char>) -> bool {
    s.len() == 6 && (forall|i: int| 0 <= i < 6 ==> is_hex_digit(s[i]))
}

/// The channel byte written as the hex digits `hi` then `lo`.
pub open spec fn byte_of_hex_pair(hi: char, lo: char) -> u8
    recommends
        is_hex_digit(hi),
        is_hex_digit(lo),
{
    (hex_digit_value(hi) * 16 + hex_digit_value(lo)) as u8
}

/// The color a six-hex-digit string denotes, channels in `rrggbb` order.
pub open spec fn color_of_hex(s: Seq<char>) -> Rgb
    recommends
        valid_hex6(s),
{
    Rgb {
        r: byte_of_hex_pair(s[0], s[1]),
        g: byte_of_hex_pair(s[2], s[3]),
        b: byte_of_hex_pair(s[4], s[5]),
    }
}

/// Numeric value of one hex digit character, or `None` when it is not one.
fn hex_digit_val(c: char) -> (res: Option<u8>)
    ensures
        res is Some <==> is_hex_digit(c),
        res is Some ==> res->0 == hex_digit_value(c),
{
    let v = c as u32;
    if 48 <= v && v <= 57 {
        Some((v - 48) as u8)
    } else if 97 <= v && v <= 102 {
        Some((v - 87) as u8)
    } else if 65 <= v && v <= 70 {
        Some((v - 55) as u8)
    } else {
        None
    }
}

/// Parses a string of exactly six hex digits into its RGB channel bytes.
/// Any other string — wrong length or a character that is not a hex
/// digit — yields `None`.
pub fn hex_to_rgb(hex: &str) -> (res: Option<(u8, u8, u8)>)
    ensures
        res is Some <==> valid_hex6(hex@),
        res is Some ==> {
            let c = color_of_hex(hex@);
            res->0 == (c.r, c.g, c.b)
        },
{
    if hex.unicode_len() != 6 {
        return None;
    }
    let d0 = hex_digit_val(hex.get_char(0));
    let d1 = hex_digit_val(hex.get_char(1));
    let d2 = hex_digit_val(hex.get_char(2));
    let d3 = hex_digit_val(hex.get_char(3));
    let d4 = hex_digit_val(hex.get_char(4));
    let d5 = hex_digit_val(hex.get_char(5));
    match (d0, d1, d2, d3, d4, d5) {
        (Some(h0), Some(h1), Some(h2), Some(h3), Some(h4), Some(h5)) => {
            Some((h0 * 16 + h1, h2 * 16 + h3, h4 * 16 + h5))
        },
        _ => None,
    }
}

/// The lowercase hex digit for a nibble value.
pub open spec fn hex_char_of_nibble(n: int) -> char
    recommends
        0 <= n < 16,
{
    if n == 0 {
        '0'
    } else if n == 1 {
        '1'
    } else if n == 2 {
        '2'
    } else if n == 3 {
        '3'
    } else if n == 4 {
        '4'
    } else if n == 5 {
        '5'
    } else if n == 6 {
        '6'
    } else if n == 7 {
        '7'
    } else if n == 8 {
        '8'
    } else if n == 9 {
        '9'
    } else if n == 10 {
        'a'
    } else if n == 11 {
        'b'
    } else if n == 12 {
        'c'
    } else if n == 13 {
        'd'
    } else if n == 14 {
        'e'
    } else {
        'f'
    }
}

/// A channel byte written as two lowercase hex digits.
pub open spec fn hex_of_byte(v: int) -> Seq<char>
    recommends
        0 <= v < 256,
{
    seq![hex_char_of_nibble(v / 16), hex_char_of_nibble(v % 16)]
}

/// A color written as six lowercase hex digits, channels in `rrggbb`
/// order and no leading marker.
pub open spec fn hex_of_color(c: Rgb) -> Seq<char> {
    hex_of_byte(c.r as int) + hex_of_byte(c.g as int) + hex_of_byte(c.b as int)
}

/// A hex string with its uppercase digits lowered.
pub open spec fn lower_hex_digit(c: char) -> char {
    if ('A' as int) <= (c as int) && (c as int) <= ('F' as int) {
        hex_char_of_nibble(10 + c as int - 'A' as int)
    } else {
        c
    }
}

/// A string of hex digits with every uppercase digit lowered.
pub open spec fn lower_hex(s: Seq<char>) -> Seq<char> {
    s.map_values(|c: char| lower_hex_digit(c))
}

/// The one-character string for a nibble value.
fn nibble_str(n: u8) -> (r: &'static str)
    requires
        n < 16,
    ensures
        r@ =~= seq![hex_char_of_nibble(n as int)],
{
    proof {
        reveal_strlit("0");
        reveal_strlit("1");
        reveal_strlit("2");
        reveal_strlit("3");
        reveal_strlit("4");
        reveal_strlit("5");
        reveal_strlit("6");
        reveal_strlit("7");
        reveal_strlit("8");
        reveal_strlit("9");
        reveal_strlit("a");
        reveal_strlit("b");
        reveal_strlit("c");
        reveal_strlit("d");
        reveal_strlit("e");
        reveal_strlit("f");
    }
    if n == 0 {
        "0"
    } else if n == 1 {
        "1"
    } else if n == 2 {
        "2"
    } else if n == 3 {
        "3"
    } else if n == 4 {
        "4"
    } else if n == 5 {
        "5"
    } else if n == 6 {
        "6"
    } else if n == 7 {
        "7"
    } else if n == 8 {
        "8"
    } else if n == 9 {
        "9"
    } else if n == 10 {
        "a"
    } else if n == 11 {
        "b"
    } else if n == 12 {
        "c"
    } else if n == 13 {
        "d"
    } else if n == 14 {
        "e"
    } else {
        "f"
    }
}

/// Writes a color as six lowercase hex digits, `rrggbb`, with no leading
/// marker character.
pub fn rgb_to_hex(c: &Rgb) -> (s: String)
    ensures
        s@ == hex_of_color(*c),
{
    let mut s = String::new();
    s.append(nibble_str(c.r / 16));
    s.append(nibble_str(c.r % 16));
    s.append(nibble_str(c.g / 16));
    s.append(nibble_str(c.g % 16));
    s.append(nibble_str(c.b / 16));
    s.append(nibble_str(c.b % 16));
    proof {
        assert(s@ =~= hex_of_color(*c));
    }
    s
}

/// One hex digit survives a parse-and-write round trip, up to case.
proof fn lemma_nibble_round_trip(c: char)
    requires
        is_hex_digit(c),
    ensures
        hex_char_of_nibble(hex_digit_value(c)) == lower_hex_digit(c),
{
}

/// Law: a valid six-digit color string, parsed and written back, returns
/// letter for letter with its digits lowered.
pub proof fn lemma_hex_round_trip(s: Seq<char>)
    requires
        valid_hex6(s),
    ensures
        hex_of_color(color_of_hex(s)) == lower_hex(s),
{
    assert forall|i: int| 0 <= i < 6 implies #[trigger] lower_hex(s)[i] == hex_char_of_nibble(
        hex_digit_value(s[i]),
    ) by {
        lemma_nibble_round_trip(s[i]);
    }
    lemma_byte_split(s[0], s[1]);
    lemma_byte_split(s[2], s[3]);
    lemma_byte_split(s[4], s[5]);
    assert(hex_of_color(color_of_hex(s)) =~= lower_hex(s));
}

/// The two digits a channel byte was read from come back out of it.
proof fn lemma_byte_split(hi: char, lo: char)
    requires
        is_hex_digit(hi),
        is_hex_digit(lo),
    ensures
        byte_of_hex_pair(hi, lo) as int / 16 == hex_digit_value(hi),
        byte_of_hex_pair(hi, lo) as int % 16 == hex_digit_value(lo),
{
    lemma_fundamental_div_mod_converse(
        hex_digit_value(hi) * 16 + hex_digit_value(lo),
        16,
        hex_digit_value(hi),
        hex_digit_value(lo),
    );
}

} // verus!
