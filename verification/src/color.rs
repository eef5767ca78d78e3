//! The RGBA colour value that palettes are made of.
use vstd::prelude::*;
use vstd::string::StringExecFns;
use crate::errors::IndexedImageError;
use crate::text::all_hex_digits;
use crate::text::chars_of;
use crate::text::hex_char;
use crate::text::hex_pair;
use crate::text::is_hex_digit;
use crate::text::push_hex;
use crate::text::read_hex_digit;

verus! {

/// An RGBA colour, one byte per channel.
#[derive(Copy, Clone, Debug, PartialEq, Eq, Hash, Structural)]
pub struct Color {
    /// Red channel.
    pub r: u8,
    /// Green channel.
    pub g: u8,
    /// Blue channel.
    pub b: u8,
    /// Alpha channel.
    pub a: u8,
}

/// The number that the four bytes `[r, g, b, a]` spell, most significant
/// first.
pub open spec fn packed(c: Color) -> int {
    c.r * 0x100_0000 + c.g * 0x1_0000 + c.b * 0x100 + c.a
}

/// The colour whose bytes spell `v`, which lies in `0 .. 2^32`.
pub open spec fn unpacked(v: int) -> Color {
    Color {
        r: (v / 0x100_0000) as u8,
        g: ((v / 0x1_0000) % 0x100) as u8,
        b: ((v / 0x100) % 0x100) as u8,
        a: (v % 0x100) as u8,
    }
}

/// The unsigned number with the bits of `v` in two's complement.
pub open spec fn unsigned_of(v: i32) -> int {
    if v < 0 {
        v + 0x1_0000_0000
    } else {
        v as int
    }
}

/// The signed number with the bits of `v`, which lies in `0 .. 2^32`.
pub open spec fn signed_of(v: int) -> int {
    if v >= 0x8000_0000 {
        v - 0x1_0000_0000
    } else {
        v
    }
}

/// The point half way from the lower of two channel values to the higher,
/// rounded down.
pub open spec fn mid_channel(lhs: u8, rhs: u8) -> u8 {
    if lhs <= rhs {
        (lhs + (rhs - lhs) / 2) as u8
    } else {
        (rhs + (lhs - rhs) / 2) as u8
    }
}

/// The colour half way between two colours, channel by channel.
pub open spec fn midway(lhs: Color, rhs: Color) -> Color {
    Color {
        r: mid_channel(lhs.r, rhs.r),
        g: mid_channel(lhs.g, rhs.g),
        b: mid_channel(lhs.b, rhs.b),
        a: mid_channel(lhs.a, rhs.a),
    }
}

/// The distance between two channel values.
pub open spec fn channel_distance(lhs: u8, rhs: u8) -> int {
    if lhs <= rhs {
        rhs - lhs
    } else {
        lhs - rhs
    }
}

/// The sum of the distances of the four channels.
pub open spec fn distance(lhs: Color, rhs: Color) -> int {
    channel_distance(lhs.r, rhs.r) + channel_distance(lhs.g, rhs.g) + channel_distance(
        lhs.b,
        rhs.b,
    ) + channel_distance(lhs.a, rhs.a)
}

/// A channel value moved by `diff` and held within `0 ..= 255`.
pub open spec fn shifted_channel(current: u8, diff: int) -> u8 {
    if current + diff < 0 {
        0
    } else if current + diff > 255 {
        255
    } else {
        (current + diff) as u8
    }
}

/// A colour with each channel moved by its own amount.
pub open spec fn shifted(c: Color, r_diff: int, g_diff: int, b_diff: int, a_diff: int) -> Color {
    Color {
        r: shifted_channel(c.r, r_diff),
        g: shifted_channel(c.g, g_diff),
        b: shifted_channel(c.b, b_diff),
        a: shifted_channel(c.a, a_diff),
    }
}

/// Packing a colour and unpacking the number gives the colour back.
pub proof fn lemma_unpack_packed(c: Color)
    ensures
        0 <= packed(c) < 0x1_0000_0000,
        unpacked(packed(c)) == c,
{
    let v = packed(c);
    let t1 = c.r * 0x100 + c.g;
    let t2 = t1 * 0x100 + c.b;
    assert(v == t2 * 0x100 + c.a);
    assert(v / 0x100 == t2 && v % 0x100 == c.a);
    assert(t2 / 0x100 == t1 && t2 % 0x100 == c.b);
    assert(t1 / 0x100 == c.r && t1 % 0x100 == c.g);
    assert(v / 0x1_0000 == (v / 0x100) / 0x100);
    assert(v / 0x100_0000 == (v / 0x1_0000) / 0x100);
}

/// Unpacking a number and packing the colour gives the number back.
pub proof fn lemma_pack_unpacked(v: int)
    requires
        0 <= v < 0x1_0000_0000,
    ensures
        packed(unpacked(v)) == v,
{
    let q1 = v / 0x100;
    let q2 = v / 0x1_0000;
    let q3 = v / 0x100_0000;
    assert(q2 == q1 / 0x100);
    assert(q3 == q2 / 0x100);
}

/// A colour as text: `#`, then red, green, blue and alpha, each in two
/// upper-case hexadecimal digits.
pub open spec fn hex_text(c: Color) -> Seq<char> {
    seq![
        '#',
        hex_char(c.r as int / 16),
        hex_char(c.r as int % 16),
        hex_char(c.g as int / 16),
        hex_char(c.g as int % 16),
        hex_char(c.b as int / 16),
        hex_char(c.b as int % 16),
        hex_char(c.a as int / 16),
        hex_char(c.a as int % 16),
    ]
}

/// A text without the `#` in front of it, if it has one.
pub open spec fn without_hash(text: Seq<char>) -> Seq<char> {
    if text.len() > 0 && text[0] == '#' {
        text.drop_first()
    } else {
        text
    }
}

/// The colour that a text spells, or the reason why it spells none.
///
/// Behind an optional `#` stand six hexadecimal digits or eight, in either
/// case: two each for red, green and blue, and two for alpha, which is 255
/// where they are missing. The length is looked at before the digits.
pub open spec fn parse_hex(text: Seq<char>) -> Result<Color, Seq<char>> {
    let digits = without_hash(text);
    if digits.len() != 6 && digits.len() != 8 {
        Err("wrong length"@)
    } else if !all_hex_digits(digits) {
        Err("non hex digits"@)
    } else {
        Ok(
            Color {
                r: hex_pair(digits[0], digits[1]),
                g: hex_pair(digits[2], digits[3]),
                b: hex_pair(digits[4], digits[5]),
                a: if digits.len() == 8 {
                    hex_pair(digits[6], digits[7])
                } else {
                    255
                },
            },
        )
    }
}

fn midpoint(lhs: u8, rhs: u8) -> (m: u8)
    ensures
        m == mid_channel(lhs, rhs),
{
    if lhs <= rhs {
        lhs + (rhs - lhs) / 2
    } else {
        rhs + (lhs - rhs) / 2
    }
}

fn apart(lhs: u8, rhs: u8) -> (d: usize)
    ensures
        d == channel_distance(lhs, rhs),
{
    if lhs <= rhs {
        (rhs - lhs) as usize
    } else {
        (lhs - rhs) as usize
    }
}

fn shift(current: u8, diff: isize) -> (v: u8)
    ensures
        v == shifted_channel(current, diff as int),
{
    let sum: i128 = current as i128 + diff as i128;
    if sum < 0 {
        0
    } else if sum > 255 {
        255
    } else {
        sum as u8
    }
}

impl Color {
    /// A colour from its four channels.
    pub fn new(r: u8, g: u8, b: u8, a: u8) -> (c: Color)
        ensures
            c == (Color { r, g, b, a }),
    {
        Color { r, g, b, a }
    }

    /// An opaque colour with red, green and blue all `value`.
    pub fn gray(value: u8) -> (c: Color)
        ensures
            c == (Color { r: value, g: value, b: value, a: 255 }),
    {
        Color { r: value, g: value, b: value, a: 255 }
    }

    /// The colour that every channel of is zero, alpha too.
    pub fn transparent() -> (c: Color)
        ensures
            c == (Color { r: 0, g: 0, b: 0, a: 0 }),
    {
        Color { r: 0, g: 0, b: 0, a: 0 }
    }

    /// White.
    pub fn white() -> (c: Color)
        ensures
            c == (Color { r: 255, g: 255, b: 255, a: 255 }),
    {
        Color { r: 255, g: 255, b: 255, a: 255 }
    }

    /// A white that is a little gray.
    pub fn off_white() -> (c: Color)
        ensures
            c == (Color { r: 250, g: 250, b: 250, a: 255 }),
    {
        Color { r: 250, g: 250, b: 250, a: 255 }
    }

    /// Black.
    pub fn black() -> (c: Color)
        ensures
            c == (Color { r: 0, g: 0, b: 0, a: 255 }),
    {
        Color { r: 0, g: 0, b: 0, a: 255 }
    }

    /// A black that is a little gray.
    pub fn off_black() -> (c: Color)
        ensures
            c == (Color { r: 5, g: 5, b: 5, a: 255 }),
    {
        Color { r: 5, g: 5, b: 5, a: 255 }
    }

    /// The darkest of the five grays.
    pub fn darker_gray() -> (c: Color)
        ensures
            c == (Color { r: 45, g: 45, b: 45, a: 255 }),
    {
        Color { r: 45, g: 45, b: 45, a: 255 }
    }

    /// A dark gray.
    pub fn dark_gray() -> (c: Color)
        ensures
            c == (Color { r: 75, g: 75, b: 75, a: 255 }),
    {
        Color { r: 75, g: 75, b: 75, a: 255 }
    }

    /// The gray in the middle of the five.
    pub fn mid_gray() -> (c: Color)
        ensures
            c == (Color { r: 110, g: 110, b: 110, a: 255 }),
    {
        Color { r: 110, g: 110, b: 110, a: 255 }
    }

    /// A light gray.
    pub fn light_gray() -> (c: Color)
        ensures
            c == (Color { r: 180, g: 180, b: 180, a: 255 }),
    {
        Color { r: 180, g: 180, b: 180, a: 255 }
    }

    /// The lightest of the five grays.
    pub fn lighter_gray() -> (c: Color)
        ensures
            c == (Color { r: 205, g: 205, b: 205, a: 255 }),
    {
        Color { r: 205, g: 205, b: 205, a: 255 }
    }

    /// Red.
    pub fn red() -> (c: Color)
        ensures
            c == (Color { r: 255, g: 0, b: 0, a: 255 }),
    {
        Color { r: 255, g: 0, b: 0, a: 255 }
    }

    /// Green.
    pub fn green() -> (c: Color)
        ensures
            c == (Color { r: 0, g: 255, b: 0, a: 255 }),
    {
        Color { r: 0, g: 255, b: 0, a: 255 }
    }

    /// Blue.
    pub fn blue() -> (c: Color)
        ensures
            c == (Color { r: 0, g: 0, b: 255, a: 255 }),
    {
        Color { r: 0, g: 0, b: 255, a: 255 }
    }

    /// Magenta.
    pub fn magenta() -> (c: Color)
        ensures
            c == (Color { r: 255, g: 0, b: 255, a: 255 }),
    {
        Color { r: 255, g: 0, b: 255, a: 255 }
    }

    /// Yellow.
    pub fn yellow() -> (c: Color)
        ensures
            c == (Color { r: 255, g: 255, b: 0, a: 255 }),
    {
        Color { r: 255, g: 255, b: 0, a: 255 }
    }

    /// Orange.
    pub fn orange() -> (c: Color)
        ensures
            c == (Color { r: 255, g: 165, b: 0, a: 255 }),
    {
        Color { r: 255, g: 165, b: 0, a: 255 }
    }

    /// Brown.
    pub fn brown() -> (c: Color)
        ensures
            c == (Color { r: 139, g: 69, b: 19, a: 255 }),
    {
        Color { r: 139, g: 69, b: 19, a: 255 }
    }

    /// Purple.
    pub fn purple() -> (c: Color)
        ensures
            c == (Color { r: 75, g: 0, b: 130, a: 255 }),
    {
        Color { r: 75, g: 0, b: 130, a: 255 }
    }

    /// Cyan.
    pub fn cyan() -> (c: Color)
        ensures
            c == (Color { r: 0, g: 255, b: 255, a: 255 }),
    {
        Color { r: 0, g: 255, b: 255, a: 255 }
    }

    /// The darkest of the four greens of the Game Boy's screen, its foreground.
    pub fn gb_3() -> (c: Color)
        ensures
            c == (Color { r: 15, g: 56, b: 15, a: 255 }),
    {
        Color { r: 15, g: 56, b: 15, a: 255 }
    }

    /// The second darkest green of the Game Boy's screen.
    pub fn gb_2() -> (c: Color)
        ensures
            c == (Color { r: 48, g: 98, b: 48, a: 255 }),
    {
        Color { r: 48, g: 98, b: 48, a: 255 }
    }

    /// The second lightest green of the Game Boy's screen.
    pub fn gb_1() -> (c: Color)
        ensures
            c == (Color { r: 120, g: 145, b: 15, a: 255 }),
    {
        Color { r: 120, g: 145, b: 15, a: 255 }
    }

    /// The lightest of the four greens of the Game Boy's screen, its background.
    pub fn gb_0() -> (c: Color)
        ensures
            c == (Color { r: 155, g: 188, b: 15, a: 255 }),
    {
        Color { r: 155, g: 188, b: 15, a: 255 }
    }

    /// The colour with another red.
    pub fn with_red(&self, red: u8) -> (c: Color)
        ensures
            c == (Color { r: red, g: self.g, b: self.b, a: self.a }),
    {
        Color { r: red, g: self.g, b: self.b, a: self.a }
    }

    /// The colour with another green.
    pub fn with_green(&self, green: u8) -> (c: Color)
        ensures
            c == (Color { r: self.r, g: green, b: self.b, a: self.a }),
    {
        Color { r: self.r, g: green, b: self.b, a: self.a }
    }

    /// The colour with another blue.
    pub fn with_blue(&self, blue: u8) -> (c: Color)
        ensures
            c == (Color { r: self.r, g: self.g, b: blue, a: self.a }),
    {
        Color { r: self.r, g: self.g, b: blue, a: self.a }
    }

    /// The colour with another alpha.
    pub fn with_alpha(&self, alpha: u8) -> (c: Color)
        ensures
            c == (Color { r: self.r, g: self.g, b: self.b, a: alpha }),
    {
        Color { r: self.r, g: self.g, b: self.b, a: alpha }
    }

    /// The colour whose bytes `[r, g, b, a]` are the big-endian bytes of
    /// `value`.
    pub fn from_u32(value: u32) -> (c: Color)
        ensures
            c == unpacked(value as int),
    {
        Color {
            r: (value / 0x100_0000) as u8,
            g: ((value / 0x1_0000) % 0x100) as u8,
            b: ((value / 0x100) % 0x100) as u8,
            a: (value % 0x100) as u8,
        }
    }

    /// The number whose big-endian bytes are `[r, g, b, a]`.
    pub fn as_u32(&self) -> (v: u32)
        ensures
            v == packed(*self),
    {
        self.r as u32 * 0x100_0000 + self.g as u32 * 0x1_0000 + self.b as u32 * 0x100
            + self.a as u32
    }

    /// The colour whose bytes `[r, g, b, a]` are the big-endian bytes of
    /// `value` in two's complement.
    pub fn from_i32(value: i32) -> (c: Color)
        ensures
            c == unpacked(unsigned_of(value)),
    {
        let wide: i64 = if value < 0 {
            value as i64 + 0x1_0000_0000
        } else {
            value as i64
        };
        Color::from_u32(wide as u32)
    }

    /// Reads a colour from hexadecimal text: `RRGGBB` or `RRGGBBAA`, with
    /// or without `#` in front.
    pub fn from_hex(hex: &str) -> (r: Result<Color, IndexedImageError>)
        ensures
            match (r, parse_hex(hex@)) {
                (Ok(c), Ok(expected)) => c == expected,
                (Err(IndexedImageError::InvalidHexFormat(why)), Err(expected)) => why@
                    == expected,
                _ => false,
            },
    {
        let chars = chars_of(hex);
        let start: usize = if chars.len() > 0 && chars[0] == '#' {
            1
        } else {
            0
        };
        let ghost digits = chars@.skip(start as int);
        assert(digits =~= without_hash(hex@));
        let count: usize = chars.len() - start;
        if count != 6 && count != 8 {
            return Err(IndexedImageError::InvalidHexFormat(String::from_str("wrong length")));
        }
        let mut values: Vec<u8> = Vec::new();
        let mut i: usize = 0;
        while i < count
            invariant
                i <= count,
                count == chars@.len() - start,
                start <= 1,
                chars@.len() <= usize::MAX,
                digits == chars@.skip(start as int),
                digits == without_hash(hex@),
                count == 6 || count == 8,
                values@.len() == i,
                forall|j: int| 0 <= j < i ==> is_hex_digit(#[trigger] digits[j]),
                forall|j: int|
                    0 <= j < i ==> #[trigger] values@[j] == crate::text::hex_value(digits[j]),
            decreases count - i,
        {
            assert(digits[i as int] == chars@[start + i]);
            match read_hex_digit(chars[start + i]) {
                None => {
                    assert(!is_hex_digit(digits[i as int]));
                    return Err(
                        IndexedImageError::InvalidHexFormat(String::from_str("non hex digits")),
                    );
                },
                Some(value) => {
                    values.push(value);
                },
            }
            i += 1;
        }
        let a: u8 = if count == 8 {
            values[6] * 16 + values[7]
        } else {
            255
        };
        Ok(
            Color {
                r: values[0] * 16 + values[1],
                g: values[2] * 16 + values[3],
                b: values[4] * 16 + values[5],
                a,
            },
        )
    }

    /// The colour as `#RRGGBBAA`.
    pub fn to_hex(&self) -> (text: String)
        ensures
            text@ == hex_text(*self),
    {
        proof {
            reveal_strlit("#");
        }
        let mut text = String::from_str("#");
        push_hex(&mut text, self.r);
        push_hex(&mut text, self.g);
        push_hex(&mut text, self.b);
        push_hex(&mut text, self.a);
        assert(text@ =~= hex_text(*self));
        text
    }

    /// The channels in the order red, green, blue, alpha.
    pub fn as_array(&self) -> (bytes: [u8; 4])
        ensures
            bytes@ == seq![self.r, self.g, self.b, self.a],
    {
        let bytes: [u8; 4] = [self.r, self.g, self.b, self.a];
        assert(bytes@ =~= seq![self.r, self.g, self.b, self.a]);
        bytes
    }

    /// The signed number whose big-endian bytes in two's complement are
    /// `[r, g, b, a]`.
    pub fn as_i32(&self) -> (v: i32)
        ensures
            v == signed_of(packed(*self)),
    {
        let wide: i64 = self.as_u32() as i64;
        if wide >= 0x8000_0000 {
            (wide - 0x1_0000_0000) as i32
        } else {
            wide as i32
        }
    }

    /// Whether anything shows through: alpha below 255.
    pub fn is_transparent(&self) -> (t: bool)
        ensures
            t == (self.a < 255),
    {
        self.a < 255
    }

    /// The colour half way between two colours, channel by channel.
    pub fn mid(&self, other: &Color) -> (c: Color)
        ensures
            c == midway(*self, *other),
    {
        Color {
            r: midpoint(self.r, other.r),
            g: midpoint(self.g, other.g),
            b: midpoint(self.b, other.b),
            a: midpoint(self.a, other.a),
        }
    }

    /// How far two colours are apart: the sum over the channels of the
    /// distance between their values.
    pub fn diff(&self, other: &Color) -> (d: usize)
        ensures
            d == distance(*self, *other),
            d <= 1020,
    {
        apart(self.r, other.r) + apart(self.g, other.g) + apart(self.b, other.b) + apart(
            self.a,
            other.a,
        )
    }

    /// Adds an amount to each channel; a channel stops at 0 and at 255.
    pub fn tint_add(&mut self, r_diff: isize, g_diff: isize, b_diff: isize, a_diff: isize)
        ensures
            *final(self) == shifted(
                *old(self),
                r_diff as int,
                g_diff as int,
                b_diff as int,
                a_diff as int,
            ),
    {
        self.r = shift(self.r, r_diff);
        self.g = shift(self.g, g_diff);
        self.b = shift(self.b, b_diff);
        self.a = shift(self.a, a_diff);
    }
}

impl Default for Color {
    /// Opaque black.
    fn default() -> (c: Color)
        ensures
            c == (Color { r: 0, g: 0, b: 0, a: 255 }),
    {
        Color { r: 0, g: 0, b: 0, a: 255 }
    }
}

impl From<(u8, u8, u8, u8)> for Color {
    fn from(value: (u8, u8, u8, u8)) -> (c: Color) {
        Color { r: value.0, g: value.1, b: value.2, a: value.3 }
    }
}

impl vstd::std_specs::convert::FromSpecImpl<(u8, u8, u8, u8)> for Color {
    open spec fn obeys_from_spec() -> bool {
        true
    }

    open spec fn from_spec(value: (u8, u8, u8, u8)) -> Color {
        Color { r: value.0, g: value.1, b: value.2, a: value.3 }
    }
}

impl From<(u8, u8, u8)> for Color {
    fn from(value: (u8, u8, u8)) -> (c: Color) {
        Color { r: value.0, g: value.1, b: value.2, a: 255 }
    }
}

impl vstd::std_specs::convert::FromSpecImpl<(u8, u8, u8)> for Color {
    open spec fn obeys_from_spec() -> bool {
        true
    }

    open spec fn from_spec(value: (u8, u8, u8)) -> Color {
        Color { r: value.0, g: value.1, b: value.2, a: 255 }
    }
}

impl From<[u8; 4]> for Color {
    fn from(value: [u8; 4]) -> (c: Color) {
        Color { r: value[0], g: value[1], b: value[2], a: value[3] }
    }
}

impl vstd::std_specs::convert::FromSpecImpl<[u8; 4]> for Color {
    open spec fn obeys_from_spec() -> bool {
        true
    }

    open spec fn from_spec(value: [u8; 4]) -> Color {
        Color { r: value@[0], g: value@[1], b: value@[2], a: value@[3] }
    }
}

impl From<[u8; 3]> for Color {
    fn from(value: [u8; 3]) -> (c: Color) {
        Color { r: value[0], g: value[1], b: value[2], a: 255 }
    }
}

impl vstd::std_specs::convert::FromSpecImpl<[u8; 3]> for Color {
    open spec fn obeys_from_spec() -> bool {
        true
    }

    open spec fn from_spec(value: [u8; 3]) -> Color {
        Color { r: value@[0], g: value@[1], b: value@[2], a: 255 }
    }
}

impl From<u32> for Color {
    fn from(value: u32) -> (c: Color) {
        Color::from_u32(value)
    }
}

impl vstd::std_specs::convert::FromSpecImpl<u32> for Color {
    open spec fn obeys_from_spec() -> bool {
        true
    }

    open spec fn from_spec(value: u32) -> Color {
        unpacked(value as int)
    }
}

impl From<Color> for u32 {
    fn from(value: Color) -> (v: u32) {
        value.as_u32()
    }
}

impl vstd::std_specs::convert::FromSpecImpl<Color> for u32 {
    open spec fn obeys_from_spec() -> bool {
        true
    }

    open spec fn from_spec(value: Color) -> u32 {
        packed(value) as u32
    }
}

impl From<&Color> for u32 {
    fn from(value: &Color) -> (v: u32) {
        value.as_u32()
    }
}

impl vstd::std_specs::convert::FromSpecImpl<&Color> for u32 {
    open spec fn obeys_from_spec() -> bool {
        true
    }

    open spec fn from_spec(value: &Color) -> u32 {
        packed(*value) as u32
    }
}

} // verus!
