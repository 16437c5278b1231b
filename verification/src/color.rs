use vstd::prelude::*;

verus! {

/// The sixteen palette entries of the text-mode device, in hardware order:
/// `code` maps them to the four-bit indices 0 through 15.
#[derive(Clone, Copy, PartialEq, Eq, Structural, Debug)]
pub enum Color {
    Black,
    Blue,
    Green,
    Cyan,
    Red,
    Magenta,
    Brown,
    LightGray,
    DarkGray,
    LightBlue,
    LightGreen,
    LightCyan,
    LightRed,
    Pink,
    Yellow,
    White,
}

impl Color {
    /// The four-bit hardware palette index of this color.
    pub open spec fn spec_code(self) -> u8 {
        match self {
            Color::Black => 0,
            Color::Blue => 1,
            Color::Green => 2,
            Color::Cyan => 3,
            Color::Red => 4,
            Color::Magenta => 5,
            Color::Brown => 6,
            Color::LightGray => 7,
            Color::DarkGray => 8,
            Color::LightBlue => 9,
            Color::LightGreen => 10,
            Color::LightCyan => 11,
            Color::LightRed => 12,
            Color::Pink => 13,
            Color::Yellow => 14,
            Color::White => 15,
        }
    }

    pub fn code(self) -> (r: u8)
        ensures
            r == self.spec_code(),
            r <= 15,
    {
        match self {
            Color::Black => 0,
            Color::Blue => 1,
            Color::Green => 2,
            Color::Cyan => 3,
            Color::Red => 4,
            Color::Magenta => 5,
            Color::Brown => 6,
            Color::LightGray => 7,
            Color::DarkGray => 8,
            Color::LightBlue => 9,
            Color::LightGreen => 10,
            Color::LightCyan => 11,
            Color::LightRed => 12,
            Color::Pink => 13,
            Color::Yellow => 14,
            Color::White => 15,
        }
    }
}

/// A packed color attribute byte: bits 0 through 3 hold the foreground
/// palette index, bits 4 through 7 the background palette index.
#[derive(Clone, Copy, PartialEq, Eq, Structural, Debug)]
pub struct ColorCode(pub u8);

impl ColorCode {
    /// The attribute byte that `new` packs for a foreground/background pair.
    pub open spec fn spec_new(foreground: Color, background: Color) -> ColorCode {
        ColorCode((background.spec_code() << 4) | (foreground.spec_code() & 0x0f))
    }

    pub fn new(foreground: Color, background: Color) -> (r: ColorCode)
        ensures
            r == ColorCode::spec_new(foreground, background),
    {
        ColorCode((background.code() << 4) | (foreground.code() & 0x0f))
    }

    /// Both nibbles of a packed code can be read back unchanged: the low
    /// nibble is the foreground index, the high nibble the background index.
    pub proof fn lemma_new_packs(foreground: Color, background: Color)
        ensures
            ColorCode::spec_new(foreground, background).0 & 0x0f == foreground.spec_code(),
            ColorCode::spec_new(foreground, background).0 >> 4 == background.spec_code(),
    {
        let f = foreground.spec_code();
        let b = background.spec_code();
        assert(f <= 15 && b <= 15);
        assert((((b << 4) | (f & 0x0f)) & 0x0f) == f) by (bit_vector)
            requires
                f <= 15,
                b <= 15,
        ;
        assert((((b << 4) | (f & 0x0f)) >> 4) == b) by (bit_vector)
            requires
                f <= 15,
                b <= 15,
        ;
    }
}

} // verus!
