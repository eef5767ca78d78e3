//! A colour as three or four bytes in a row, as a tuple, or as one number.
use vstd::prelude::*;
use crate::color::Color;
use crate::color::packed;
use crate::color::unpacked;

verus! {

/// The number that the four bytes `[a, r, g, b]` spell, most significant
/// first.
pub open spec fn packed_argb(c: Color) -> int {
    c.a * 0x100_0000 + c.r * 0x1_0000 + c.g * 0x100 + c.b
}

/// The colour whose bytes `[a, r, g, b]` spell `v`, which lies in
/// `0 .. 2^32`.
pub open spec fn unpacked_argb(v: int) -> Color {
    Color {
        r: ((v / 0x1_0000) % 0x100) as u8,
        g: ((v / 0x100) % 0x100) as u8,
        b: (v % 0x100) as u8,
        a: (v / 0x100_0000) as u8,
    }
}

/// Packing a colour alpha first and unpacking the number gives the colour
/// back.
pub proof fn lemma_unpack_packed_argb(c: Color)
    ensures
        0 <= packed_argb(c) < 0x1_0000_0000,
        unpacked_argb(packed_argb(c)) == c,
{
    let v = packed_argb(c);
    let t1 = c.a * 0x100 + c.r;
    let t2 = t1 * 0x100 + c.g;
    assert(v == t2 * 0x100 + c.b);
    assert(v / 0x100 == t2 && v % 0x100 == c.b);
    assert(t2 / 0x100 == t1 && t2 % 0x100 == c.g);
    assert(t1 / 0x100 == c.a && t1 % 0x100 == c.r);
    assert(v / 0x1_0000 == (v / 0x100) / 0x100);
    assert(v / 0x100_0000 == (v / 0x1_0000) / 0x100);
}

/// Converts to and from RGB, without alpha.
pub trait OpaqueColorConversion<T>: Sized {
    /// Whether `value` is this colour as RGB.
    spec fn is_rgb(self, value: T) -> bool;

    /// The opaque colour that `value` is as RGB.
    spec fn of_rgb(value: T) -> Color;

    /// The colour without its alpha.
    fn to_rgb(self) -> (value: T)
        ensures
            self.is_rgb(value),
    ;

    /// The colour with these channels and an alpha of 255.
    fn from_rgb(value: T) -> (c: Color)
        ensures
            c == Self::of_rgb(value),
    ;
}

/// Converts to and from RGBA and ARGB.
pub trait ColorConversion<T>: Sized {
    /// Whether `value` is this colour as RGBA.
    spec fn is_rgba(self, value: T) -> bool;

    /// The colour that `value` is as RGBA.
    spec fn of_rgba(value: T) -> Color;

    /// Whether `value` is this colour as ARGB.
    spec fn is_argb(self, value: T) -> bool;

    /// The colour that `value` is as ARGB.
    spec fn of_argb(value: T) -> Color;

    fn to_rgba(self) -> (value: T)
        ensures
            self.is_rgba(value),
    ;

    fn from_rgba(value: T) -> (c: Color)
        ensures
            c == Self::of_rgba(value),
    ;

    fn to_argb(self) -> (value: T)
        ensures
            self.is_argb(value),
    ;

    fn from_argb(value: T) -> (c: Color)
        ensures
            c == Self::of_argb(value),
    ;
}

impl OpaqueColorConversion<[u8; 3]> for Color {
    open spec fn is_rgb(self, value: [u8; 3]) -> bool {
        value@ == seq![self.r, self.g, self.b]
    }

    open spec fn of_rgb(value: [u8; 3]) -> Color {
        Color { r: value@[0], g: value@[1], b: value@[2], a: 255 }
    }

    fn to_rgb(self) -> (value: [u8; 3]) {
        let value: [u8; 3] = [self.r, self.g, self.b];
        assert(value@ =~= seq![self.r, self.g, self.b]);
        value
    }

    fn from_rgb(value: [u8; 3]) -> (c: Color) {
        Color { r: value[0], g: value[1], b: value[2], a: 255 }
    }
}

impl OpaqueColorConversion<(u8, u8, u8)> for Color {
    open spec fn is_rgb(self, value: (u8, u8, u8)) -> bool {
        value == (self.r, self.g, self.b)
    }

    open spec fn of_rgb(value: (u8, u8, u8)) -> Color {
        Color { r: value.0, g: value.1, b: value.2, a: 255 }
    }

    fn to_rgb(self) -> (value: (u8, u8, u8)) {
        (self.r, self.g, self.b)
    }

    fn from_rgb(value: (u8, u8, u8)) -> (c: Color) {
        Color { r: value.0, g: value.1, b: value.2, a: 255 }
    }
}

impl ColorConversion<[u8; 4]> for Color {
    open spec fn is_rgba(self, value: [u8; 4]) -> bool {
        value@ == seq![self.r, self.g, self.b, self.a]
    }

    open spec fn of_rgba(value: [u8; 4]) -> Color {
        Color { r: value@[0], g: value@[1], b: value@[2], a: value@[3] }
    }

    open spec fn is_argb(self, value: [u8; 4]) -> bool {
        value@ == seq![self.a, self.r, self.g, self.b]
    }

    open spec fn of_argb(value: [u8; 4]) -> Color {
        Color { r: value@[1], g: value@[2], b: value@[3], a: value@[0] }
    }

    fn to_rgba(self) -> (value: [u8; 4]) {
        let value: [u8; 4] = [self.r, self.g, self.b, self.a];
        assert(value@ =~= seq![self.r, self.g, self.b, self.a]);
        value
    }

    fn to_argb(self) -> (value: [u8; 4]) {
        let value: [u8; 4] = [self.a, self.r, self.g, self.b];
        assert(value@ =~= seq![self.a, self.r, self.g, self.b]);
        value
    }

    fn from_rgba(value: [u8; 4]) -> (c: Color) {
        Color { r: value[0], g: value[1], b: value[2], a: value[3] }
    }

    fn from_argb(value: [u8; 4]) -> (c: Color) {
        Color { r: value[1], g: value[2], b: value[3], a: value[0] }
    }
}

impl ColorConversion<(u8, u8, u8, u8)> for Color {
    open spec fn is_rgba(self, value: (u8, u8, u8, u8)) -> bool {
        value == (self.r, self.g, self.b, self.a)
    }

    open spec fn of_rgba(value: (u8, u8, u8, u8)) -> Color {
        Color { r: value.0, g: value.1, b: value.2, a: value.3 }
    }

    open spec fn is_argb(self, value: (u8, u8, u8, u8)) -> bool {
        value == (self.a, self.r, self.g, self.b)
    }

    open spec fn of_argb(value: (u8, u8, u8, u8)) -> Color {
        Color { r: value.1, g: value.2, b: value.3, a: value.0 }
    }

    fn to_rgba(self) -> (value: (u8, u8, u8, u8)) {
        (self.r, self.g, self.b, self.a)
    }

    fn to_argb(self) -> (value: (u8, u8, u8, u8)) {
        (self.a, self.r, self.g, self.b)
    }

    fn from_rgba(value: (u8, u8, u8, u8)) -> (c: Color) {
        Color { r: value.0, g: value.1, b: value.2, a: value.3 }
    }

    fn from_argb(value: (u8, u8, u8, u8)) -> (c: Color) {
        Color { r: value.1, g: value.2, b: value.3, a: value.0 }
    }
}

impl ColorConversion<u32> for Color {
    open spec fn is_rgba(self, value: u32) -> bool {
        value == packed(self)
    }

    open spec fn of_rgba(value: u32) -> Color {
        unpacked(value as int)
    }

    open spec fn is_argb(self, value: u32) -> bool {
        value == packed_argb(self)
    }

    open spec fn of_argb(value: u32) -> Color {
        unpacked_argb(value as int)
    }

    fn to_rgba(self) -> (value: u32) {
        self.as_u32()
    }

    fn from_rgba(value: u32) -> (c: Color) {
        Color::from_u32(value)
    }

    fn to_argb(self) -> (value: u32) {
        self.a as u32 * 0x100_0000 + self.r as u32 * 0x1_0000 + self.g as u32 * 0x100
            + self.b as u32
    }

    fn from_argb(value: u32) -> (c: Color) {
        Color {
            r: ((value / 0x1_0000) % 0x100) as u8,
            g: ((value / 0x100) % 0x100) as u8,
            b: (value % 0x100) as u8,
            a: (value / 0x100_0000) as u8,
        }
    }
}

} // verus!
