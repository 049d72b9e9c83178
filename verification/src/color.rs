//! 32-bit red-green-blue colour, written in HTML form (`#rrggbb`) at the
//! user-facing boundary and as three raw bytes on the device wire.

use vstd::prelude::*;
use vstd::string::StringSliceAdditionalSpecFns;

verus! {

/// ASCII `#`.
pub const HASH_BYTE: u8 = 35;

/// ASCII `0`.
pub const DIGIT_0: u8 = 48;

/// ASCII `9`.
pub const DIGIT_9: u8 = 57;

/// ASCII `a`.
pub const LOWER_A: u8 = 97;

/// ASCII `f`.
pub const LOWER_F: u8 = 102;

/// ASCII `A`.
pub const UPPER_A: u8 = 65;

/// ASCII `F`.
pub const UPPER_F: u8 = 70;

/// A red-green-blue backlight colour.
#[derive(Copy, Clone, Debug, PartialEq, Eq, Structural)]
pub struct Color {
    pub red: u8,
    pub green: u8,
    pub blue: u8,
}

impl Color {
    pub fn red(self) -> (r: u8)
        ensures
            r == self.red,
    {
        self.red
    }

    pub fn green(self) -> (r: u8)
        ensures
            r == self.green,
    {
        self.green
    }

    pub fn blue(self) -> (r: u8)
        ensures
            r == self.blue,
    {
        self.blue
    }

    /// The three channel bytes in wire order.
    pub fn to_bytes(self) -> (r: [u8; 3])
        ensures
            r@ == seq![self.red, self.green, self.blue],
    {
        let r = [self.red, self.green, self.blue];
        proof {
            assert(r@ =~= seq![self.red, self.green, self.blue]);
        }
        r
    }
}

impl Default for Color {
    /// Black, the all-zero colour.
    fn default() -> (r: Self)
        ensures
            r == (Color { red: 0, green: 0, blue: 0 }),
    {
        Color { red: 0, green: 0, blue: 0 }
    }
}

/// The colour packed into the low 24 bits of a word, `0xrrggbb`.
pub open spec fn color_from_u32(value: u32) -> Color {
    Color { red: (value >> 16) as u8, green: (value >> 8) as u8, blue: value as u8 }
}

impl From<u32> for Color {
    /// Unpack `0xrrggbb`; the top 8 bits are discarded.
    fn from(value: u32) -> (r: Self)
        ensures
            r == color_from_u32(value),
    {
        let red = #[verifier::truncate] ((value >> 16) as u8);
        let green = #[verifier::truncate] ((value >> 8) as u8);
        let blue = #[verifier::truncate] (value as u8);
        Color { red, green, blue }
    }
}

impl vstd::std_specs::convert::FromSpecImpl<u32> for Color {
    open spec fn obeys_from_spec() -> bool {
        true
    }

    open spec fn from_spec(value: u32) -> Color {
        color_from_u32(value)
    }
}

/// The word `0x00rrggbb` a colour packs into.
pub open spec fn color_to_u32(c: Color) -> u32 {
    (c.red as u32) << 16 | (c.green as u32) << 8 | c.blue as u32
}

impl From<Color> for u32 {
    fn from(color: Color) -> (r: Self)
        ensures
            r == color_to_u32(color),
    {
        (color.red as u32) << 16 | (color.green as u32) << 8 | color.blue as u32
    }
}

impl vstd::std_specs::convert::FromSpecImpl<Color> for u32 {
    open spec fn obeys_from_spec() -> bool {
        true
    }

    open spec fn from_spec(color: Color) -> u32 {
        color_to_u32(color)
    }
}

/// The error returned when a string is not a `#rrggbb` colour.
#[derive(Copy, Clone, Debug, PartialEq, Eq, Structural)]
pub struct ParseColorError;

/// A hexadecimal digit in either case.
pub open spec fn is_hex_digit(b: u8) -> bool {
    (DIGIT_0 <= b <= DIGIT_9) || (LOWER_A <= b <= LOWER_F) || (UPPER_A <= b <= UPPER_F)
}

/// The value of one hexadecimal digit.
pub open spec fn hex_digit_value(b: u8) -> int {
    if DIGIT_0 <= b <= DIGIT_9 {
        b - DIGIT_0
    } else if UPPER_A <= b <= UPPER_F {
        b - UPPER_A + 10
    } else {
        b - LOWER_A + 10
    }
}

/// A well-formed colour string: `#` followed by exactly six hex digits.
pub open spec fn is_hex_color(s: Seq<u8>) -> bool {
    s.len() == 7 && s[0] == HASH_BYTE && (forall|i: int| 1 <= i < 7 ==> is_hex_digit(#[trigger] s[i]))
}

/// The value of a two-digit hexadecimal pair.
pub open spec fn hex_pair_value(hi: u8, lo: u8) -> int {
    16 * hex_digit_value(hi) + hex_digit_value(lo)
}

/// The colour a well-formed `#rrggbb` string denotes.
pub open spec fn color_of_hex(s: Seq<u8>) -> Color {
    Color {
        red: hex_pair_value(s[1], s[2]) as u8,
        green: hex_pair_value(s[3], s[4]) as u8,
        blue: hex_pair_value(s[5], s[6]) as u8,
    }
}

/// One hexadecimal digit of `v`, lower case.
pub open spec fn hex_digit_byte(v: int) -> u8 {
    if v < 10 {
        (DIGIT_0 + v) as u8
    } else {
        (LOWER_A + (v - 10)) as u8
    }
}

/// The two lower-case hexadecimal digits of a byte.
pub open spec fn hex_byte_pair(v: u8) -> Seq<u8> {
    seq![hex_digit_byte(v as int / 16), hex_digit_byte(v as int % 16)]
}

/// The `#rrggbb` spelling of a colour, as ASCII bytes.
pub open spec fn hex_color_bytes(c: Color) -> Seq<u8> {
    seq![HASH_BYTE] + hex_byte_pair(c.red) + hex_byte_pair(c.green) + hex_byte_pair(c.blue)
}

/// The `#rrggbb` spelling of a colour, as characters.
pub open spec fn hex_color_chars(c: Color) -> Seq<char> {
    hex_color_bytes(c).map_values(|b: u8| b as char)
}

/// The value of one hexadecimal digit, or `None` for any other byte.
fn hex_digit(b: u8) -> (r: Option<u8>)
    ensures
        r is Some <==> is_hex_digit(b),
        r is Some ==> r->0 == hex_digit_value(b),
{
    if DIGIT_0 <= b && b <= DIGIT_9 {
        Some(b - DIGIT_0)
    } else if LOWER_A <= b && b <= LOWER_F {
        Some(b - LOWER_A + 10)
    } else if UPPER_A <= b && b <= UPPER_F {
        Some(b - UPPER_A + 10)
    } else {
        None
    }
}

impl Color {
    /// Parse a `#rrggbb` byte string; any other shape is an error.
    pub fn from_hex_bytes(s: &[u8]) -> (r: Result<Color, ParseColorError>)
        ensures
            r is Ok <==> is_hex_color(s@),
            r is Ok ==> r->Ok_0 == color_of_hex(s@),
    {
        if s.len() != 7 {
            return Err(ParseColorError);
        }
        if s[0] != HASH_BYTE {
            return Err(ParseColorError);
        }
        let hi_r = match hex_digit(s[1]) {
            Some(v) => v,
            None => return Err(ParseColorError),
        };
        let lo_r = match hex_digit(s[2]) {
            Some(v) => v,
            None => return Err(ParseColorError),
        };
        let hi_g = match hex_digit(s[3]) {
            Some(v) => v,
            None => return Err(ParseColorError),
        };
        let lo_g = match hex_digit(s[4]) {
            Some(v) => v,
            None => return Err(ParseColorError),
        };
        let hi_b = match hex_digit(s[5]) {
            Some(v) => v,
            None => return Err(ParseColorError),
        };
        let lo_b = match hex_digit(s[6]) {
            Some(v) => v,
            None => return Err(ParseColorError),
        };
        Ok(Color { red: 16 * hi_r + lo_r, green: 16 * hi_g + lo_g, blue: 16 * hi_b + lo_b })
    }

    /// Parse a `#rrggbb` string; any other shape is an error.
    pub fn from_hex_str(s: &str) -> (r: Result<Color, ParseColorError>)
        ensures
            r is Ok <==> is_hex_color(s.spec_bytes()),
            r is Ok ==> r->Ok_0 == color_of_hex(s.spec_bytes()),
    {
        Color::from_hex_bytes(s.as_bytes())
    }

    /// The `#rrggbb` spelling of this colour, lower case.
    pub fn to_hex_string(self) -> (r: String)
        ensures
            r@ == hex_color_chars(self),
    {
        let mut bytes: Vec<u8> = Vec::new();
        bytes.push(HASH_BYTE);
        push_hex_byte(&mut bytes, self.red);
        push_hex_byte(&mut bytes, self.green);
        push_hex_byte(&mut bytes, self.blue);
        proof {
            assert(bytes@ =~= hex_color_bytes(self));
            lemma_hex_color_bytes_ascii(self);
        }
        string_from_ascii(bytes)
    }
}

impl core::str::FromStr for Color {
    type Err = ParseColorError;

    fn from_str(s: &str) -> Result<Self, Self::Err> {
        Color::from_hex_str(s)
    }
}

/// Append the two lower-case hexadecimal digits of `v`.
fn push_hex_byte(out: &mut Vec<u8>, v: u8)
    ensures
        final(out)@ == old(out)@ + hex_byte_pair(v),
{
    let hi: u8 = v / 16;
    let lo: u8 = v % 16;
    out.push(if hi < 10 {
        DIGIT_0 + hi
    } else {
        LOWER_A + (hi - 10)
    });
    out.push(if lo < 10 {
        DIGIT_0 + lo
    } else {
        LOWER_A + (lo - 10)
    });
    proof {
        assert(final(out)@ =~= old(out)@ + hex_byte_pair(v));
    }
}

/// Every byte of a colour's `#rrggbb` spelling is ASCII.
proof fn lemma_hex_color_bytes_ascii(c: Color)
    ensures
        forall|i: int| 0 <= i < hex_color_bytes(c).len() ==> hex_color_bytes(c)[i] < 128,
{
    let s = hex_color_bytes(c);
    assert(s[0] < 128);
    assert(s[1] < 128);
    assert(s[2] < 128);
    assert(s[3] < 128);
    assert(s[4] < 128);
    assert(s[5] < 128);
    assert(s[6] < 128);
}

/// Relies on `String::from_utf8`: bytes below 128 are valid UTF-8, and the
/// resulting string holds exactly those character codes.
#[verifier::external_body]
fn string_from_ascii(bytes: Vec<u8>) -> (r: String)
    requires
        forall|i: int| 0 <= i < bytes@.len() ==> bytes@[i] < 128,
    ensures
        r@ == bytes@.map_values(|b: u8| b as char),
{
    String::from_utf8(bytes).unwrap_or_default()
}

/// Packing a colour and unpacking the word again is the identity, in both
/// directions on the 24 bits that a colour occupies.
pub proof fn lemma_color_u32_round_trip(c: Color, value: u32)
    ensures
        color_from_u32(color_to_u32(c)) == c,
        value < 0x1000000 ==> color_to_u32(color_from_u32(value)) == value,
{
    let r = c.red;
    let g = c.green;
    let b = c.blue;
    assert((((r as u32) << 16 | (g as u32) << 8 | (b as u32)) >> 16) as u8 == r) by (bit_vector);
    assert((((r as u32) << 16 | (g as u32) << 8 | (b as u32)) >> 8) as u8 == g) by (bit_vector);
    assert(((r as u32) << 16 | (g as u32) << 8 | (b as u32)) as u8 == b) by (bit_vector);
    assert(value < 0x1000000 ==> ((((value >> 16) as u8) as u32) << 16 | (((value >> 8) as u8)
        as u32) << 8 | ((value as u8) as u32)) == value) by (bit_vector);
}

} // verus!
