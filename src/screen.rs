//! The cell grid: a back buffer that drawing mutates and a front buffer that
//! mirrors the terminal, with a flush that emits only what changed.

use vstd::prelude::*;
use vstd::string::*;
use vstd::utf8::encode_utf8;
use crate::cell::{blank_cell, glyph, padded_glyph, Cell, Color};
use crate::input::ESC;

verus! {

broadcast use vstd::array::group_array_axioms;

/// Whether two cells render identically.
pub open spec fn same_cell(a: Cell, b: Cell) -> bool {
    a.ch@ == b.ch@ && a.fg == b.fg && a.bg == b.bg && a.attrs == b.attrs
}

/// `c` with its glyph bytes replaced by those that hold `g`.
pub open spec fn glyph_cell(c: Cell, g: Seq<u8>) -> Cell {
    choose|d: Cell|
        d.ch@ == padded_glyph(g) && d.fg == c.fg && d.bg == c.bg && d.attrs == c.attrs
}

proof fn lemma_glyph_cell(c: Cell, g: Seq<u8>, d: Cell)
    requires
        d.ch@ == padded_glyph(g),
        d.fg == c.fg,
        d.bg == c.bg,
        d.attrs == c.attrs,
    ensures
        glyph_cell(c, g) == d,
{
    let e = glyph_cell(c, g);
    assert(e.ch@ == padded_glyph(g) && e.fg == c.fg && e.bg == c.bg && e.attrs == c.attrs);
    assert(e.ch == d.ch);
}

/// The decimal digits of `n`.
pub open spec fn dec(n: nat) -> Seq<u8>
    decreases n,
{
    if n < 10 {
        seq![(0x30 + n) as u8]
    } else {
        dec(n / 10) + seq![(0x30 + n % 10) as u8]
    }
}

/// `ESC [ row ; col H`, 1-based.
pub open spec fn cursor_seq(row: nat, col: nat) -> Seq<u8> {
    seq![ESC, 0x5bu8] + dec(row + 1) + seq![0x3bu8] + dec(col + 1) + seq![0x48u8]
}

/// The escape that selects color `c` for layer `layer` (`3` foreground, `4`
/// background): 24-bit RGB, or the terminal default when unset.
pub open spec fn color_seq(layer: u8, c: Color) -> Seq<u8> {
    if c.set_spec() {
        seq![ESC, 0x5bu8, layer, 0x38u8, 0x3bu8, 0x32u8, 0x3bu8] + dec(c.red_byte() as nat) + seq![
            0x3bu8,
        ] + dec(c.green_byte() as nat) + seq![0x3bu8] + dec(c.blue_byte() as nat) + seq![0x6du8]
    } else {
        seq![ESC, 0x5bu8, layer, 0x39u8, 0x6du8]
    }
}

pub open spec fn changed(back: Seq<Cell>, front: Seq<Cell>, i: int) -> bool {
    !same_cell(back[i], front[i])
}

/// The foreground color last emitted by a flush before cell `i`, if any.
pub open spec fn last_fg(back: Seq<Cell>, front: Seq<Cell>, i: int) -> Option<Color>
    decreases i,
{
    if i <= 0 {
        None
    } else if changed(back, front, i - 1) {
        Some(back[i - 1].fg)
    } else {
        last_fg(back, front, i - 1)
    }
}

/// The background color last emitted by a flush before cell `i`, if any.
pub open spec fn last_bg(back: Seq<Cell>, front: Seq<Cell>, i: int) -> Option<Color>
    decreases i,
{
    if i <= 0 {
        None
    } else if changed(back, front, i - 1) {
        Some(back[i - 1].bg)
    } else {
        last_bg(back, front, i - 1)
    }
}

/// What a flush emits for cell `i` (row-major, rows of `w` cells): nothing
/// when unchanged; else a cursor move unless the cell just before it on the
/// same row was written, each color escape whose color differs from the last
/// one emitted, and the glyph.
pub open spec fn cell_output(back: Seq<Cell>, front: Seq<Cell>, w: int, i: int) -> Seq<u8> {
    if !changed(back, front, i) {
        Seq::empty()
    } else {
        let c = back[i];
        let cursor = if i % w == 0 || !changed(back, front, i - 1) {
            cursor_seq((i / w) as nat, (i % w) as nat)
        } else {
            Seq::empty()
        };
        let fg = if last_fg(back, front, i) == Some(c.fg) {
            Seq::empty()
        } else {
            color_seq(0x33u8, c.fg)
        };
        let bg = if last_bg(back, front, i) == Some(c.bg) {
            Seq::empty()
        } else {
            color_seq(0x34u8, c.bg)
        };
        cursor + fg + bg + glyph(c.ch@)
    }
}

/// Everything a flush emits for the first `n` cells.
pub open spec fn flush_output(back: Seq<Cell>, front: Seq<Cell>, w: int, n: int) -> Seq<u8>
    decreases n,
{
    if n <= 0 {
        Seq::empty()
    } else {
        flush_output(back, front, w, n - 1) + cell_output(back, front, w, n - 1)
    }
}

/// Appends the decimal digits of `n`.
fn push_decimal(out: &mut Vec<u8>, n: usize)
    ensures
        final(out)@ == old(out)@ + dec(n as nat),
    decreases n,
{
    if n >= 10 {
        push_decimal(out, n / 10);
    }
    out.push(0x30 + (n % 10) as u8);
    proof {
        assert(final(out)@ =~= old(out)@ + dec(n as nat)) by {
            if n < 10 {
                assert(dec(n as nat) == seq![(0x30 + n) as u8]);
            }
        }
    }
}

fn push_bytes(out: &mut Vec<u8>, s: &[u8])
    ensures
        final(out)@ == old(out)@ + s@,
{
    let mut i: usize = 0;
    while i < s.len()
        invariant
            i <= s@.len(),
            out@ == old(out)@ + s@.take(i as int),
        decreases s@.len() - i,
    {
        out.push(s[i]);
        i += 1;
        assert(out@ =~= old(out)@ + s@.take(i as int));
    }
    assert(s@.take(s@.len() as int) =~= s@);
}

fn push_color(out: &mut Vec<u8>, layer: u8, c: Color)
    ensures
        final(out)@ == old(out)@ + color_seq(layer, c),
{
    if c.is_set() {
        let prefix: [u8; 7] = [ESC, 0x5b, layer, 0x38, 0x3b, 0x32, 0x3b];
        push_bytes(out, prefix.as_slice());
        push_decimal(out, c.r() as usize);
        out.push(0x3b);
        push_decimal(out, c.g() as usize);
        out.push(0x3b);
        push_decimal(out, c.b() as usize);
        out.push(0x6d);
    } else {
        let s: [u8; 5] = [ESC, 0x5b, layer, 0x39, 0x6d];
        push_bytes(out, s.as_slice());
    }
    assert(final(out)@ =~= old(out)@ + color_seq(layer, c));
}

fn push_cursor(out: &mut Vec<u8>, row: usize, col: usize)
    requires
        row < usize::MAX,
        col < usize::MAX,
    ensures
        final(out)@ == old(out)@ + cursor_seq(row as nat, col as nat),
{
    out.push(ESC);
    out.push(0x5b);
    push_decimal(out, row + 1);
    out.push(0x3b);
    push_decimal(out, col + 1);
    out.push(0x48);
    assert(final(out)@ =~= old(out)@ + cursor_seq(row as nat, col as nat));
}

/// The back cells after writing the characters `s` from (cx, cy) on, where
/// a newline returns to column `x0` of the next row and writing stops at the
/// first position off the grid.
pub open spec fn put_str_cells(
    cells: Seq<Cell>,
    w: int,
    h: int,
    x0: int,
    cx: int,
    cy: int,
    s: Seq<char>,
) -> Seq<Cell>
    decreases s.len(),
{
    if s.len() == 0 || cx >= w || cy >= h {
        cells
    } else if s[0] == '\n' {
        put_str_cells(cells, w, h, x0, x0, cy + 1, s.drop_first())
    } else {
        let i = cy * w + cx;
        put_str_cells(
            cells.update(i, glyph_cell(cells[i], encode_utf8(seq![s[0]]))),
            w,
            h,
            x0,
            cx + 1,
            cy,
            s.drop_first(),
        )
    }
}

pub struct Screen {
    back: Vec<Cell>,
    front: Vec<Cell>,
    width: usize,
    height: usize,
}

impl Screen {
    /// The cells that drawing has produced, row-major.
    pub closed spec fn back_cells(&self) -> Seq<Cell> {
        self.back@
    }

    /// The cells that the terminal shows, row-major.
    pub closed spec fn front_cells(&self) -> Seq<Cell> {
        self.front@
    }

    pub closed spec fn w(&self) -> nat {
        self.width as nat
    }

    pub closed spec fn h(&self) -> nat {
        self.height as nat
    }

    pub open spec fn wf(&self) -> bool {
        &&& self.w() <= usize::MAX
        &&& self.h() <= usize::MAX
        &&& self.back_cells().len() == self.w() * self.h()
        &&& self.front_cells().len() == self.w() * self.h()
        &&& self.w() * self.h() <= usize::MAX
    }

    /// The index of cell (x, y) when it lies on the grid.
    pub open spec fn index_of(&self, x: int, y: int) -> Option<int> {
        if 0 <= x < self.w() && 0 <= y < self.h() {
            Some(y * self.w() + x)
        } else {
            None
        }
    }

    /// The back cells after `f` replaces cell (x, y), or unchanged when
    /// (x, y) is off the grid.
    pub open spec fn back_with(&self, x: int, y: int, c: Cell) -> Seq<Cell> {
        match self.index_of(x, y) {
            Some(i) => self.back_cells().update(i, c),
            None => self.back_cells(),
        }
    }

    /// A grid of `width` by `height` default cells in both buffers.
    pub fn new(width: usize, height: usize) -> (s: Screen)
        requires
            width * height <= usize::MAX,
        ensures
            s.wf(),
            s.w() == width,
            s.h() == height,
            forall|i: int| 0 <= i < width * height ==> #[trigger] s.back_cells()[i] == blank_cell(),
            forall|i: int| 0 <= i < width * height ==> #[trigger] s.front_cells()[i] == blank_cell(),
    {
        let size = width * height;
        let mut back: Vec<Cell> = Vec::new();
        let mut front: Vec<Cell> = Vec::new();
        let mut i: usize = 0;
        while i < size
            invariant
                i <= size,
                back@.len() == i,
                front@.len() == i,
                forall|j: int| 0 <= j < i ==> #[trigger] back@[j] == blank_cell(),
                forall|j: int| 0 <= j < i ==> #[trigger] front@[j] == blank_cell(),
            decreases size - i,
        {
            back.push(Cell::default());
            front.push(Cell::default());
            i += 1;
        }
        Screen { back, front, width, height }
    }

    pub fn width(&self) -> (w: usize)
        ensures
            w == self.w(),
    {
        self.width
    }

    pub fn height(&self) -> (h: usize)
        ensures
            h == self.h(),
    {
        self.height
    }

    /// Resets every back cell to the default; the front buffer keeps what
    /// the terminal shows.
    pub fn clear(&mut self)
        requires
            old(self).wf(),
        ensures
            final(self).wf(),
            final(self).w() == old(self).w(),
            final(self).h() == old(self).h(),
            final(self).front_cells() == old(self).front_cells(),
            forall|i: int|
                0 <= i < old(self).back_cells().len() ==> #[trigger] final(self).back_cells()[i]
                    == blank_cell(),
    {
        let mut i: usize = 0;
        while i < self.back.len()
            invariant
                self.back@.len() == old(self).back@.len(),
                self.front == old(self).front,
                self.width == old(self).width,
                self.height == old(self).height,
                i <= self.back@.len(),
                forall|j: int| 0 <= j < i ==> #[trigger] self.back@[j] == blank_cell(),
            decreases self.back@.len() - i,
        {
            self.back.set(i, Cell::default());
            i += 1;
        }
    }

    fn cell_index(&self, x: usize, y: usize) -> (r: Option<usize>)
        requires
            self.wf(),
        ensures
            r matches Some(i) ==> self.index_of(x as int, y as int) == Some(i as int) && i
                < self.back_cells().len(),
            r is None ==> self.index_of(x as int, y as int) is None,
    {
        if x < self.width && y < self.height {
            proof {
                let (w, h) = (self.width as int, self.height as int);
                assert(y as int * w + x < h * w) by (nonlinear_arith)
                    requires
                        (y as int) < h,
                        (x as int) < w,
                ;
                assert(h * w == w * h) by (nonlinear_arith);
            }
            Some(y * self.width + x)
        } else {
            None
        }
    }

    /// Sets the glyph of back cell (x, y) to the first code point of `ch`;
    /// does nothing off the grid.
    pub fn put_char(&mut self, x: usize, y: usize, ch: &str)
        requires
            old(self).wf(),
        ensures
            final(self).wf(),
            final(self).w() == old(self).w(),
            final(self).h() == old(self).h(),
            final(self).front_cells() == old(self).front_cells(),
            final(self).back_cells() == match old(self).index_of(x as int, y as int) {
                Some(i) => old(self).back_cells().update(
                    i,
                    glyph_cell(old(self).back_cells()[i], ch.spec_bytes()),
                ),
                None => old(self).back_cells(),
            },
    {
        if let Some(i) = self.cell_index(x, y) {
            let mut c = self.back[i];
            c.set_char(ch);
            proof {
                lemma_glyph_cell(self.back@[i as int], ch.spec_bytes(), c);
            }
            self.back.set(i, c);
        }
    }

    /// Writes `s` from (x, y) on, one character per cell; a newline goes to
    /// column `x` of the next row, and writing stops at the grid's edge.
    pub fn put_str(&mut self, x: usize, y: usize, s: &str)
        requires
            old(self).wf(),
        ensures
            final(self).wf(),
            final(self).w() == old(self).w(),
            final(self).h() == old(self).h(),
            final(self).front_cells() == old(self).front_cells(),
            final(self).back_cells() == put_str_cells(
                old(self).back_cells(),
                old(self).w() as int,
                old(self).h() as int,
                x as int,
                x as int,
                y as int,
                s@,
            ),
    {
        let n = s.unicode_len();
        let mut cx = x;
        let mut cy = y;
        let mut k: usize = 0;
        let ghost w = self.width as int;
        let ghost h = self.height as int;
        assert(s@.skip(0) =~= s@);
        while k < n
            invariant
                self.wf(),
                w == self.w(),
                h == self.h(),
                self.w() == old(self).w(),
                self.h() == old(self).h(),
                self.front_cells() == old(self).front_cells(),
                n == s@.len(),
                k <= n,
                put_str_cells(old(self).back_cells(), w, h, x as int, x as int, y as int, s@)
                    == put_str_cells(self.back_cells(), w, h, x as int, cx as int, cy as int, s@.skip(k as int)),
            decreases n - k,
        {
            let ghost rest = s@.skip(k as int);
            proof {
                assert(rest.drop_first() =~= s@.skip(k + 1));
            }
            if cx >= self.width || cy >= self.height {
                return;
            }
            let ch = s.get_char(k);
            if ch == '\n' {
                cy += 1;
                cx = x;
            } else {
                let one = s.substring_char(k, k + 1);
                proof {
                    assert(one@ =~= seq![rest[0]]);
                    let i = cy * w + cx;
                    assert(cy * w + cx < h * w) by (nonlinear_arith)
                        requires
                            cy < h,
                            cx < w,
                    ;
                    assert(h * w == w * h) by (nonlinear_arith);
                    assert(self.index_of(cx as int, cy as int) == Some(i));
                }
                self.put_char(cx, cy, one);
                cx += 1;
            }
            k += 1;
        }
        proof {
            assert(s@.skip(n as int) =~= Seq::<char>::empty());
        }
    }

    /// Sets the foreground color of back cell (x, y); does nothing off the
    /// grid.
    pub fn set_fg_color(&mut self, x: usize, y: usize, color: Color)
        requires
            old(self).wf(),
        ensures
            final(self).wf(),
            final(self).w() == old(self).w(),
            final(self).h() == old(self).h(),
            final(self).front_cells() == old(self).front_cells(),
            final(self).back_cells() == match old(self).index_of(x as int, y as int) {
                Some(i) => old(self).back_cells().update(
                    i,
                    Cell { fg: color, ..old(self).back_cells()[i] },
                ),
                None => old(self).back_cells(),
            },
    {
        if let Some(i) = self.cell_index(x, y) {
            let mut c = self.back[i];
            c.fg = color;
            self.back.set(i, c);
        }
    }

    /// Sets the background color of back cell (x, y); does nothing off the
    /// grid.
    pub fn set_bg_color(&mut self, x: usize, y: usize, color: Color)
        requires
            old(self).wf(),
        ensures
            final(self).wf(),
            final(self).w() == old(self).w(),
            final(self).h() == old(self).h(),
            final(self).front_cells() == old(self).front_cells(),
            final(self).back_cells() == match old(self).index_of(x as int, y as int) {
                Some(i) => old(self).back_cells().update(
                    i,
                    Cell { bg: color, ..old(self).back_cells()[i] },
                ),
                None => old(self).back_cells(),
            },
    {
        if let Some(i) = self.cell_index(x, y) {
            let mut c = self.back[i];
            c.bg = color;
            self.back.set(i, c);
        }
    }

    /// Brings the front buffer up to the back buffer and returns the bytes
    /// that do the same to the terminal, to be written in one operation.
    #[verifier::rlimit(40)]
    pub fn flush(&mut self) -> (out: Vec<u8>)
        requires
            old(self).wf(),
        ensures
            final(self).wf(),
            final(self).w() == old(self).w(),
            final(self).h() == old(self).h(),
            final(self).back_cells() == old(self).back_cells(),
            final(self).front_cells() == old(self).back_cells(),
            out@ == flush_output(
                old(self).back_cells(),
                old(self).front_cells(),
                old(self).w() as int,
                old(self).back_cells().len() as int,
            ),
    {
        let ghost back = self.back@;
        let ghost front = self.front@;
        let ghost w = self.width as int;
        let n = self.back.len();
        let mut out: Vec<u8> = Vec::new();
        let mut prev_written = false;
        let mut fg: Option<Color> = None;
        let mut bg: Option<Color> = None;
        let mut i: usize = 0;
        while i < n
            invariant
                n == back.len(),
                n == front.len(),
                w == self.width as int,
                self.back@ == back,
                self.front@.len() == n,
                self.width == old(self).width,
                self.height == old(self).height,
                n == self.width * self.height,
                i <= n,
                forall|j: int| 0 <= j < i ==> #[trigger] self.front@[j] == back[j],
                forall|j: int| i <= j < n ==> #[trigger] self.front@[j] == front[j],
                prev_written == (i > 0 && changed(back, front, i - 1)),
                fg == last_fg(back, front, i as int),
                bg == last_bg(back, front, i as int),
                out@ == flush_output(back, front, w, i as int),
            decreases n - i,
        {
            let c = self.back[i];
            let same = c == self.front[i];
            if same {
                proof {
                    assert(c.ch =~= self.front@[i as int].ch);
                }
            } else {
                proof {
                    assert(self.width > 0) by (nonlinear_arith)
                        requires
                            n == self.width * self.height,
                            i < n,
                    ;
                }
                let col = i % self.width;
                if col == 0 || !prev_written {
                    proof {
                        assert(i / self.width <= i) by (nonlinear_arith)
                            requires
                                self.width > 0,
                        ;
                    }
                    push_cursor(&mut out, i / self.width, col);
                }
                if fg != Some(c.fg) {
                    push_color(&mut out, 0x33, c.fg);
                    fg = Some(c.fg);
                }
                if bg != Some(c.bg) {
                    push_color(&mut out, 0x34, c.bg);
                    bg = Some(c.bg);
                }
                let g = c.ch_str();
                push_bytes(&mut out, g.as_bytes());
                self.front.set(i, c);
            }
            prev_written = !same;
            proof {
                assert(flush_output(back, front, w, i + 1) == flush_output(back, front, w, i as int)
                    + cell_output(back, front, w, i as int));
                assert(out@ =~= flush_output(back, front, w, i + 1));
            }
            i += 1;
        }
        proof {
            assert(self.front@ =~= back);
        }
        out
    }
}

proof fn lemma_no_change_no_output(b: Seq<Cell>, w: int, k: int)
    ensures
        flush_output(b, b, w, k) == Seq::<u8>::empty(),
    decreases k,
{
    if k > 0 {
        lemma_no_change_no_output(b, w, k - 1);
        assert(!changed(b, b, k - 1));
        assert(flush_output(b, b, w, k) =~= Seq::<u8>::empty());
    }
}

/// Flushing twice with no drawing in between emits nothing the second time:
/// after a flush the front buffer equals the back buffer, and a flush on
/// equal buffers emits no byte.
pub proof fn lemma_flush_idempotent(s: Screen)
    requires
        s.wf(),
        s.front_cells() == s.back_cells(),
    ensures
        flush_output(s.back_cells(), s.front_cells(), s.w() as int, s.back_cells().len() as int)
            == Seq::<u8>::empty(),
{
    lemma_no_change_no_output(s.back_cells(), s.w() as int, s.back_cells().len() as int);
}

} // verus!
