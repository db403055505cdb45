//! Styled terminal cells: colors, attributes and one glyph per cell.

use vstd::prelude::*;
use vstd::string::*;
use vstd::utf8::*;

verus! {

/// A color packed as `0xAARRGGBB`. A zero alpha byte means "terminal
/// default", which is distinct from every RGB value, black included.
#[derive(Clone, Copy, Debug, PartialEq, Eq, Structural)]
pub struct Color(pub u32);

impl Color {
    /// No color: the terminal default.
    pub fn none() -> (c: Color)
        ensures
            c.0 == 0x00000000,
    {
        Color(0x00000000)
    }

    pub fn black() -> (c: Color)
        ensures
            c.0 == 0xFF000000,
    {
        Color(0xFF000000)
    }

    pub fn white() -> (c: Color)
        ensures
            c.0 == 0xFFFFFFFF,
    {
        Color(0xFFFFFFFF)
    }

    pub fn red() -> (c: Color)
        ensures
            c.0 == 0xFFFF0000,
    {
        Color(0xFFFF0000)
    }

    pub fn green() -> (c: Color)
        ensures
            c.0 == 0xFF00FF00,
    {
        Color(0xFF00FF00)
    }

    pub fn blue() -> (c: Color)
        ensures
            c.0 == 0xFF0000FF,
    {
        Color(0xFF0000FF)
    }

    pub fn yellow() -> (c: Color)
        ensures
            c.0 == 0xFFFFFF00,
    {
        Color(0xFFFFFF00)
    }

    pub fn cyan() -> (c: Color)
        ensures
            c.0 == 0xFF00FFFF,
    {
        Color(0xFF00FFFF)
    }

    pub fn magenta() -> (c: Color)
        ensures
            c.0 == 0xFFFF00FF,
    {
        Color(0xFFFF00FF)
    }

    pub fn gray() -> (c: Color)
        ensures
            c.0 == 0xFF808080,
    {
        Color(0xFF808080)
    }


    /// Whether the color is set (alpha byte non-zero).
    pub open spec fn set_spec(self) -> bool {
        self.0 >= 0x0100_0000
    }

    pub open spec fn red_byte(self) -> u8 {
        ((self.0 / 0x10000) % 0x100) as u8
    }

    pub open spec fn green_byte(self) -> u8 {
        ((self.0 / 0x100) % 0x100) as u8
    }

    pub open spec fn blue_byte(self) -> u8 {
        (self.0 % 0x100) as u8
    }

    pub fn rgb(r: u8, g: u8, b: u8) -> (c: Color)
        ensures
            c.0 == 0xFF00_0000 + r * 0x10000 + g * 0x100 + b,
            c.set_spec(),
            c.red_byte() == r,
            c.green_byte() == g,
            c.blue_byte() == b,
    {
        let v = 0xFF000000u32 | ((r as u32) << 16u32) | ((g as u32) << 8u32) | (b as u32);
        let (r32, g32, b32) = (r as u32, g as u32, b as u32);
        assert(v == 0xFF00_0000u32 + r32 * 0x10000u32 + g32 * 0x100u32 + b32
            && v >= 0x0100_0000u32 && (v / 0x10000u32) % 0x100u32 == r32
            && (v / 0x100u32) % 0x100u32 == g32 && v % 0x100u32 == b32) by (bit_vector)
            requires
                v == 0xFF000000u32 | (r32 << 16u32) | (g32 << 8u32) | b32,
                r32 < 256,
                g32 < 256,
                b32 < 256,
        ;
        Color(v)
    }

    pub fn is_set(self) -> (b: bool)
        ensures
            b == self.set_spec(),
    {
        let v = self.0;
        assert(((v >> 24u32) != 0) == (v >= 0x0100_0000u32)) by (bit_vector);
        (v >> 24u32) != 0
    }

    pub fn r(self) -> (c: u8)
        ensures
            c == self.red_byte(),
    {
        let v = self.0;
        assert(((v >> 16u32) & 0xFFu32) == (v / 0x10000u32) % 0x100u32) by (bit_vector);
        ((v >> 16u32) & 0xFF) as u8
    }

    pub fn g(self) -> (c: u8)
        ensures
            c == self.green_byte(),
    {
        let v = self.0;
        assert(((v >> 8u32) & 0xFFu32) == (v / 0x100u32) % 0x100u32) by (bit_vector);
        ((v >> 8u32) & 0xFF) as u8
    }

    pub fn b(self) -> (c: u8)
        ensures
            c == self.blue_byte(),
    {
        let v = self.0;
        assert((v & 0xFFu32) == v % 0x100u32) by (bit_vector);
        (v & 0xFF) as u8
    }
}

impl Default for Color {
    fn default() -> (c: Color)
        ensures
            c.0 == 0,
    {
        Color(0)
    }
}

/// Text attributes as a bitset; the flags are independent and combinable.
#[derive(Clone, Copy, Debug, PartialEq, Eq, Structural)]
pub struct Attributes(pub u8);

impl Attributes {
    pub fn none() -> (a: Attributes)
        ensures
            a.0 == 0,
    {
        Attributes(0)
    }

    pub fn bold() -> (a: Attributes)
        ensures
            a.0 == 1,
    {
        Attributes(1)
    }

    pub fn dim() -> (a: Attributes)
        ensures
            a.0 == 2,
    {
        Attributes(2)
    }

    pub fn italic() -> (a: Attributes)
        ensures
            a.0 == 4,
    {
        Attributes(4)
    }

    pub fn underline() -> (a: Attributes)
        ensures
            a.0 == 8,
    {
        Attributes(8)
    }

    pub fn blink() -> (a: Attributes)
        ensures
            a.0 == 16,
    {
        Attributes(16)
    }

    pub fn reverse() -> (a: Attributes)
        ensures
            a.0 == 32,
    {
        Attributes(32)
    }

    pub fn crossed() -> (a: Attributes)
        ensures
            a.0 == 64,
    {
        Attributes(64)
    }


    /// Whether every flag of `other` is set in `self`.
    pub fn contains(self, other: Attributes) -> (b: bool)
        ensures
            b == (self.0 & other.0 == other.0),
    {
        (self.0 & other.0) == other.0
    }
}

impl Default for Attributes {
    fn default() -> (a: Attributes)
        ensures
            a.0 == 0,
    {
        Attributes(0)
    }
}

/// One grid position: the UTF-8 bytes of one code point (zero-padded to
/// four bytes), a foreground and a background color, and attributes.
#[derive(Clone, Copy, Debug)]
pub struct Cell {
    pub ch: [u8; 4],
    pub fg: Color,
    pub bg: Color,
    pub attrs: Attributes,
}

/// The number of glyph bytes in a cell: those before the first zero byte.
pub open spec fn glyph_len(ch: Seq<u8>) -> int {
    if ch[0] == 0 {
        0
    } else if ch[1] == 0 {
        1
    } else if ch[2] == 0 {
        2
    } else if ch[3] == 0 {
        3
    } else {
        4
    }
}

/// The bytes that render a cell: its glyph bytes when they are valid UTF-8,
/// otherwise a single space.
pub open spec fn glyph(ch: Seq<u8>) -> Seq<u8> {
    let p = ch.take(glyph_len(ch));
    if valid_utf8(p) {
        p
    } else {
        seq![0x20u8]
    }
}

/// The cell bytes that hold `bytes`: at most the first four, zero-padded.
pub open spec fn padded_glyph(bytes: Seq<u8>) -> Seq<u8> {
    Seq::new(4, |i: int| if i < bytes.len() { bytes[i] } else { 0u8 })
}

/// The default cell: a single space, no colors, no attributes.
pub open spec fn blank_cell() -> Cell {
    Cell { ch: [0x20u8, 0u8, 0u8, 0u8], fg: Color(0), bg: Color(0), attrs: Attributes(0) }
}

impl Default for Cell {
    fn default() -> (c: Cell)
        ensures
            c == blank_cell(),
    {
        Cell { ch: [0x20u8, 0u8, 0u8, 0u8], fg: Color(0), bg: Color(0), attrs: Attributes(0) }
    }
}

impl PartialEq for Cell {
    fn eq(&self, o: &Cell) -> (b: bool) {
        let same_ch = self.ch[0] == o.ch[0] && self.ch[1] == o.ch[1] && self.ch[2] == o.ch[2]
            && self.ch[3] == o.ch[3];
        assert(same_ch ==> self.ch@ =~= o.ch@);
        same_ch && self.fg == o.fg && self.bg == o.bg && self.attrs == o.attrs
    }
}

impl vstd::std_specs::cmp::PartialEqSpecImpl for Cell {
    open spec fn obeys_eq_spec() -> bool {
        true
    }

    open spec fn eq_spec(&self, o: &Cell) -> bool {
        self.ch@ == o.ch@ && self.fg == o.fg && self.bg == o.bg && self.attrs == o.attrs
    }
}

impl Eq for Cell {
}

impl Cell {
    /// The glyph as a string slice; a single space when the bytes are not
    /// valid UTF-8.
    pub fn ch_str(&self) -> (s: &str)
        ensures
            s.spec_bytes() == glyph(self.ch@),
    {
        let len: usize = if self.ch[0] == 0 {
            0
        } else if self.ch[1] == 0 {
            1
        } else if self.ch[2] == 0 {
            2
        } else if self.ch[3] == 0 {
            3
        } else {
            4
        };
        let bytes = vstd::slice::slice_subrange(self.ch.as_slice(), 0, len);
        assert(bytes@ == self.ch@.take(glyph_len(self.ch@)));
        match core::str::from_utf8(bytes) {
            Ok(s) => s,
            Err(_) => {
                let sp = " ";
                proof {
                    reveal_strlit(" ");
                }
                assert(sp.spec_bytes() == seq![0x20u8]) by {
                    assert(sp@ == seq![' ']);
                    assert(is_ascii_chars(sp@));
                    vstd::string::is_ascii_spec_bytes(sp);
                }
                sp
            },
        }
    }

    /// Stores the first code point's bytes of `ch` (at most four bytes).
    pub fn set_char(&mut self, ch: &str)
        ensures
            final(self).ch@ == padded_glyph(ch.spec_bytes()),
            final(self).fg == old(self).fg,
            final(self).bg == old(self).bg,
            final(self).attrs == old(self).attrs,
    {
        let bytes = ch.as_bytes();
        self.set_bytes(bytes);
    }

    /// Stores at most the first four of `bytes`, zero-padded.
    pub fn set_bytes(&mut self, bytes: &[u8])
        ensures
            final(self).ch@ == padded_glyph(bytes@),
            final(self).fg == old(self).fg,
            final(self).bg == old(self).bg,
            final(self).attrs == old(self).attrs,
    {
        let mut ch: [u8; 4] = [0u8, 0u8, 0u8, 0u8];
        let n: usize = if bytes.len() < 4 { bytes.len() } else { 4 };
        let mut i: usize = 0;
        while i < n
            invariant
                n <= 4,
                n <= bytes@.len(),
                i <= n,
                forall|j: int| 0 <= j < i ==> ch@[j] == bytes@[j],
                forall|j: int| i <= j < 4 ==> ch@[j] == 0u8,
            decreases n - i,
        {
            ch[i] = bytes[i];
            i += 1;
        }
        assert(ch@ =~= padded_glyph(bytes@));
        self.ch = ch;
    }
}

/// Declares the error of `core::str::from_utf8`, carried through unread.
#[verifier::external_type_specification]
#[verifier::external_body]
pub struct ExUtf8Error(core::str::Utf8Error);

/// Relies on `core::str::from_utf8`: it succeeds exactly on valid UTF-8, and
/// the string it returns holds those same bytes.
pub assume_specification[ core::str::from_utf8 ](v: &[u8]) -> (r: Result<&str, core::str::Utf8Error>)
    ensures
        r is Ok <==> valid_utf8(v@),
        r matches Ok(s) ==> s.spec_bytes() == v@,
;

} // verus!
