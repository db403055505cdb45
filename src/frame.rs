//! The layout tree: a binary split-tree of rectangles that draws borders,
//! joints and widgets.

use vstd::prelude::*;
use vstd::string::*;
use crate::cell::{Cell, Color};
use crate::screen::{glyph_cell, Screen};
use crate::widget::{BBox, Widget};

verus! {

#[derive(Clone, Copy, Debug, PartialEq, Eq, Structural)]
pub enum FrameSplit {
    /// Side by side: the split coordinate is a column.
    Vertical,
    /// One above the other: the split coordinate is a row.
    Horizontal,
}

pub const UP_LEFT: &'static str = "\u{256D}";

pub const UP_RIGHT: &'static str = "\u{256E}";

pub const DOWN_LEFT: &'static str = "\u{2570}";

pub const DOWN_RIGHT: &'static str = "\u{256F}";

pub const HDASH: &'static str = "\u{2500}";

pub const VDASH: &'static str = "\u{2502}";

pub const FORK_DOWN: &'static str = "\u{252C}";

pub const FORK_LEFT: &'static str = "\u{2524}";

pub const FORK_UP: &'static str = "\u{2534}";

pub const FORK_RIGHT: &'static str = "\u{251C}";

/// A point to paint: column, row and box-drawing glyph.
pub type Pt = (int, int, &'static str);

/// A border cell: glyph `g` in the border color (gray), background and
/// attributes kept.
pub open spec fn border_cell(c: Cell, g: &str) -> Cell {
    Cell { fg: Color(0xFF80_8080), ..glyph_cell(c, g.spec_bytes()) }
}

/// The cells of a `w` by `h` grid after painting `p`; unchanged off the grid.
pub open spec fn paint_at(cells: Seq<Cell>, w: int, h: int, p: Pt) -> Seq<Cell> {
    if 0 <= p.0 < w && 0 <= p.1 < h {
        cells.update(p.1 * w + p.0, border_cell(cells[p.1 * w + p.0], p.2))
    } else {
        cells
    }
}

/// The cells after painting the points of `ps` in order.
pub open spec fn paint_all(cells: Seq<Cell>, w: int, h: int, ps: Seq<Pt>) -> Seq<Cell>
    decreases ps.len(),
{
    if ps.len() == 0 {
        cells
    } else {
        paint_at(paint_all(cells, w, h, ps.drop_last()), w, h, ps.last())
    }
}

/// `n` horizontal dashes from (x, y) rightwards (none when `n` is not
/// positive).
pub open spec fn dashes(x: int, y: int, n: int) -> Seq<Pt> {
    Seq::new(if n > 0 { n as nat } else { 0 }, |k: int| (x + k, y, HDASH))
}

/// The vertical bars of rows 1 to n-1 of a `w`-wide rectangle at (x, y):
/// the left one, and the right one when `w > 1`.
pub open spec fn sides(x: int, y: int, w: int, n: int) -> Seq<Pt>
    decreases n,
{
    if n <= 1 {
        seq![]
    } else {
        sides(x, y, w, n - 1) + if w > 1 {
            seq![(x, y + n - 1, VDASH), (x + w - 1, y + n - 1, VDASH)]
        } else {
            seq![(x, y + n - 1, VDASH)]
        }
    }
}

/// What a frame's border paints, in order: the top-left corner, the top
/// edge, the top-right corner, the sides, then the bottom-left corner, the
/// bottom edge and the bottom-right corner. Edges and corners that a
/// rectangle under two cells wide or high lacks are left out; an empty
/// rectangle paints nothing.
pub open spec fn border_points(r: BBox) -> Seq<Pt> {
    let (x, y, w, h) = (r.x as int, r.y as int, r.w as int, r.h as int);
    if w == 0 || h == 0 {
        seq![]
    } else {
        seq![(x, y, UP_LEFT)] + dashes(x + 1, y, w - 2) + (if w > 1 {
            seq![(x + w - 1, y, UP_RIGHT)]
        } else {
            seq![]
        }) + sides(x, y, w, h - 1) + if h > 1 {
            seq![(x, y + h - 1, DOWN_LEFT)] + dashes(x + 1, y + h - 1, w - 2) + if w > 1 {
                seq![(x + w - 1, y + h - 1, DOWN_RIGHT)]
            } else {
                seq![]
            }
        } else {
            seq![]
        }
    }
}

/// The tees where the second part of a split of `r` meets the parent's
/// border: top and bottom of the seam column for a vertical split, left
/// and right of the seam row for a horizontal one.
pub open spec fn joint_points(r: BBox, second: BBox) -> Seq<Pt> {
    let (x, y, w, h) = (r.x as int, r.y as int, r.w as int, r.h as int);
    if y == second.y {
        seq![(second.x as int, y, FORK_DOWN)] + if h > 1 {
            seq![(second.x as int, y + h - 1, FORK_UP)]
        } else {
            seq![]
        }
    } else {
        seq![(x, second.y as int, FORK_RIGHT)] + if w > 1 {
            seq![(x + w - 1, second.y as int, FORK_LEFT)]
        } else {
            seq![]
        }
    }
}

proof fn lemma_paint_push(cells: Seq<Cell>, w: int, h: int, ps: Seq<Pt>, p: Pt)
    ensures
        paint_all(cells, w, h, ps.push(p)) == paint_at(paint_all(cells, w, h, ps), w, h, p),
{
    assert(ps.push(p).drop_last() =~= ps);
}

proof fn lemma_paint_concat(cells: Seq<Cell>, w: int, h: int, a: Seq<Pt>, b: Seq<Pt>)
    ensures
        paint_all(cells, w, h, a + b) == paint_all(paint_all(cells, w, h, a), w, h, b),
    decreases b.len(),
{
    if b.len() == 0 {
        assert(a + b =~= a);
    } else {
        lemma_paint_concat(cells, w, h, a, b.drop_last());
        assert((a + b).drop_last() =~= a + b.drop_last());
    }
}

/// The two rectangles that splitting `r` at `coord` gives: the first keeps
/// the origin, the second starts at the first's last column (or row), so the
/// two share one border seam.
pub open spec fn split_rects(r: BBox, coord: u32, dir: FrameSplit) -> (BBox, BBox) {
    match dir {
        FrameSplit::Vertical => (
            BBox { x: r.x, y: r.y, w: coord, h: r.h },
            BBox { x: (r.x + coord - 1) as u32, y: r.y, w: (r.w - coord + 1) as u32, h: r.h },
        ),
        FrameSplit::Horizontal => (
            BBox { x: r.x, y: r.y, w: r.w, h: coord },
            BBox { x: r.x, y: (r.y + coord - 1) as u32, w: r.w, h: (r.h - coord + 1) as u32 },
        ),
    }
}

/// Whether a split of `r` at `coord` is well-formed: both parts non-empty and
/// every coordinate representable.
pub open spec fn can_split(r: BBox, coord: u32, dir: FrameSplit) -> bool {
    &&& 1 <= coord
    &&& match dir {
        FrameSplit::Vertical => coord <= r.w && r.x + r.w <= u32::MAX,
        FrameSplit::Horizontal => coord <= r.h && r.y + r.h <= u32::MAX,
    }
}

/// A rectangle's interior: inset by one cell on each side, clamped at zero
/// (an origin at the end of the coordinate range wraps to zero).
pub open spec fn interior(r: BBox) -> BBox {
    BBox {
        x: if r.x < u32::MAX { (r.x + 1) as u32 } else { 0 },
        y: if r.y < u32::MAX { (r.y + 1) as u32 } else { 0 },
        w: if r.w >= 2 { (r.w - 2) as u32 } else { 0 },
        h: if r.h >= 2 { (r.h - 2) as u32 } else { 0 },
    }
}

/// Whether coordinate `c` lies in the `len` cells from `start`.
pub open spec fn in_span(c: int, start: u32, len: u32) -> bool {
    start <= c < start + len
}

/// A split's two parts overlap in exactly one column (vertical split) or
/// row (horizontal split), the seam, and together cover exactly the parent;
/// across the split they keep the parent's extent.
pub proof fn lemma_split_seam(r: BBox, coord: u32, dir: FrameSplit)
    requires
        can_split(r, coord, dir),
    ensures
        ({
            let (a, b) = split_rects(r, coord, dir);
            match dir {
                FrameSplit::Vertical => {
                    &&& a.x == r.x && a.w == coord && b.x == r.x + coord - 1 && b.w == r.w - coord + 1
                    &&& a.y == r.y && b.y == r.y && a.h == r.h && b.h == r.h
                    &&& forall|c: int|
                        #[trigger] in_span(c, r.x, r.w) <==> (in_span(c, a.x, a.w) || in_span(
                            c,
                            b.x,
                            b.w,
                        ))
                    &&& forall|c: int|
                        (#[trigger] in_span(c, a.x, a.w) && in_span(c, b.x, b.w)) <==> c == b.x
                },
                FrameSplit::Horizontal => {
                    &&& a.y == r.y && a.h == coord && b.y == r.y + coord - 1 && b.h == r.h - coord + 1
                    &&& a.x == r.x && b.x == r.x && a.w == r.w && b.w == r.w
                    &&& forall|c: int|
                        #[trigger] in_span(c, r.y, r.h) <==> (in_span(c, a.y, a.h) || in_span(
                            c,
                            b.y,
                            b.h,
                        ))
                    &&& forall|c: int|
                        (#[trigger] in_span(c, a.y, a.h) && in_span(c, b.y, b.h)) <==> c == b.y
                },
            }
        }),
{
}

/// A node of the layout tree: a rectangle, the widgets registered on it, and
/// either no children or the two halves of one split.
pub struct Frame<W> {
    x: u32,
    y: u32,
    w: u32,
    h: u32,
    children: Option<(Box<Frame<W>>, Box<Frame<W>>)>,
    widgets: Vec<W>,
}

impl<W: Widget> Frame<W> {
    pub closed spec fn rect(&self) -> BBox {
        BBox { x: self.x, y: self.y, w: self.w, h: self.h }
    }

    pub closed spec fn child_frames(&self) -> Option<(Frame<W>, Frame<W>)> {
        match self.children {
            Some((a, b)) => Some((*a, *b)),
            None => None,
        }
    }

    pub closed spec fn widget_list(&self) -> Seq<W> {
        self.widgets@
    }

    /// The tees this node paints: those of its split, if it has one.
    pub closed spec fn own_joints(&self) -> Seq<Pt> {
        match self.children {
            Some((_, b)) => joint_points(self.rect(), b.rect()),
            None => seq![],
        }
    }

    /// The border points of the whole tree, children before their parent.
    pub closed spec fn border_tree(&self) -> Seq<Pt>
        decreases self,
    {
        match self.children {
            Some((a, b)) => a.border_tree() + b.border_tree() + border_points(self.rect()),
            None => border_points(self.rect()),
        }
    }

    /// The tees of the whole tree, children before their parent.
    pub closed spec fn joint_tree(&self) -> Seq<Pt>
        decreases self,
    {
        match self.children {
            Some((a, b)) => a.joint_tree() + b.joint_tree() + self.own_joints(),
            None => self.own_joints(),
        }
    }

    /// Whether no node of the tree holds a widget.
    pub closed spec fn no_widgets(&self) -> bool
        decreases self,
    {
        &&& self.widgets@.len() == 0
        &&& match self.children {
            Some((a, b)) => a.no_widgets() && b.no_widgets(),
            None => true,
        }
    }

    /// A leaf covering `w` by `h` cells from origin (x, y).
    pub fn new(w: u32, h: u32, x: u32, y: u32) -> (f: Frame<W>)
        ensures
            f.rect() == (BBox { x, y, w, h }),
            f.child_frames() is None,
            f.widget_list() == Seq::<W>::empty(),
    {
        Frame { x, y, w, h, children: None, widgets: Vec::new() }
    }

    pub fn width(&self) -> (w: u32)
        ensures
            w == self.rect().w,
    {
        self.w
    }

    pub fn height(&self) -> (h: u32)
        ensures
            h == self.rect().h,
    {
        self.h
    }

    /// The top-left corner (x, y).
    pub fn origin(&self) -> (o: (u32, u32))
        ensures
            o == (self.rect().x, self.rect().y),
    {
        (self.x, self.y)
    }

    /// Splits this frame at `coord` into two leaf children that share one
    /// border seam, and hands both back for further splits or widgets.
    pub fn split(&mut self, coord: u32, direction: FrameSplit) -> (r: (&mut Frame<W>, &mut Frame<W>))
        requires
            can_split(old(self).rect(), coord, direction),
        ensures
            r.0.rect() == split_rects(old(self).rect(), coord, direction).0,
            r.1.rect() == split_rects(old(self).rect(), coord, direction).1,
            r.0.child_frames() is None,
            r.1.child_frames() is None,
            r.0.widget_list() == Seq::<W>::empty(),
            r.1.widget_list() == Seq::<W>::empty(),
            final(self).rect() == old(self).rect(),
            final(self).widget_list() == old(self).widget_list(),
            final(self).child_frames() == Some((*final(r.0), *final(r.1))),
    {
        let (c1, c2) = match direction {
            FrameSplit::Vertical => (
                Frame::new(coord, self.h, self.x, self.y),
                Frame::new(self.w - coord + 1, self.h, self.x + coord - 1, self.y),
            ),
            FrameSplit::Horizontal => (
                Frame::new(self.w, coord, self.x, self.y),
                Frame::new(self.w, self.h - coord + 1, self.x, self.y + coord - 1),
            ),
        };
        self.children = Some((Box::new(c1), Box::new(c2)));
        match &mut self.children {
            Some((a, b)) => (a, b),
            None => vstd::pervasive::unreached(),
        }
    }

    /// Registers a widget on this node.
    pub fn add_widget(&mut self, widget: W)
        ensures
            final(self).rect() == old(self).rect(),
            final(self).child_frames() == old(self).child_frames(),
            final(self).widget_list() == old(self).widget_list().push(widget),
    {
        self.widgets.push(widget);
    }

    /// Draws the tree in three passes over all nodes, children before their
    /// parent in each: borders, then the joints where split seams meet a
    /// border, then every widget inside its node's interior.
    pub fn draw(&self, screen: &mut Screen)
        requires
            old(screen).wf(),
        ensures
            final(screen).wf(),
            final(screen).w() == old(screen).w(),
            final(screen).h() == old(screen).h(),
            final(screen).front_cells() == old(screen).front_cells(),
            self.no_widgets() ==> final(screen).back_cells() == paint_all(
                old(screen).back_cells(),
                old(screen).w() as int,
                old(screen).h() as int,
                self.border_tree() + self.joint_tree(),
            ),
    {
        let ghost b0 = screen.back_cells();
        self.draw_stage(screen, 1);
        self.draw_stage(screen, 2);
        proof {
            lemma_paint_concat(
                b0,
                screen.w() as int,
                screen.h() as int,
                self.border_tree(),
                self.joint_tree(),
            );
        }
        self.draw_stage(screen, 3);
    }

    fn draw_stage(&self, screen: &mut Screen, stage: u8)
        requires
            old(screen).wf(),
        ensures
            final(screen).wf(),
            final(screen).w() == old(screen).w(),
            final(screen).h() == old(screen).h(),
            final(screen).front_cells() == old(screen).front_cells(),
            stage == 1 ==> final(screen).back_cells() == paint_all(
                old(screen).back_cells(),
                old(screen).w() as int,
                old(screen).h() as int,
                self.border_tree(),
            ),
            stage == 2 ==> final(screen).back_cells() == paint_all(
                old(screen).back_cells(),
                old(screen).w() as int,
                old(screen).h() as int,
                self.joint_tree(),
            ),
            stage == 3 && self.no_widgets() ==> final(screen).back_cells() == old(
                screen,
            ).back_cells(),
        decreases self,
    {
        let ghost b0 = screen.back_cells();
        let ghost gw = screen.w() as int;
        let ghost gh = screen.h() as int;
        match &self.children {
            Some((a, b)) => {
                a.draw_stage(screen, stage);
                b.draw_stage(screen, stage);
                proof {
                    if stage == 1 {
                        lemma_paint_concat(b0, gw, gh, a.border_tree(), b.border_tree());
                        lemma_paint_concat(
                            b0,
                            gw,
                            gh,
                            a.border_tree() + b.border_tree(),
                            border_points(self.rect()),
                        );
                    } else if stage == 2 {
                        lemma_paint_concat(b0, gw, gh, a.joint_tree(), b.joint_tree());
                        lemma_paint_concat(
                            b0,
                            gw,
                            gh,
                            a.joint_tree() + b.joint_tree(),
                            self.own_joints(),
                        );
                    }
                }
            },
            None => {},
        }
        if stage == 1 {
            self.draw_borders(screen);
        } else if stage == 2 {
            self.draw_joints(screen);
        } else if stage == 3 {
            self.draw_widgets(screen);
        }
    }

    fn draw_borders(&self, screen: &mut Screen)
        requires
            old(screen).wf(),
        ensures
            final(screen).wf(),
            final(screen).w() == old(screen).w(),
            final(screen).h() == old(screen).h(),
            final(screen).front_cells() == old(screen).front_cells(),
            final(screen).back_cells() == paint_all(
                old(screen).back_cells(),
                old(screen).w() as int,
                old(screen).h() as int,
                border_points(self.rect()),
            ),
    {
        let ghost b0 = screen.back_cells();
        let ghost gw = screen.w() as int;
        let ghost gh = screen.h() as int;
        let (x, y, w, h) = (self.x as u64, self.y as u64, self.w as u64, self.h as u64);
        let ghost (xi, yi, wi, hi) = (x as int, y as int, w as int, h as int);
        if w == 0 || h == 0 {
            assert(border_points(self.rect()) =~= seq![]);
            return;
        }
        let ghost mut pre: Seq<Pt> = seq![];
        let ghost p = (xi, yi, UP_LEFT);
        paint(screen, x, y, UP_LEFT);
        proof {
            lemma_paint_push(b0, gw, gh, pre, p);
            pre = pre.push(p);
        }
        let ghost top = pre;
        let mut i: u64 = 1;
        while i + 1 < w
            invariant
                screen.wf(),
                screen.w() == old(screen).w(),
                screen.h() == old(screen).h(),
                screen.front_cells() == old(screen).front_cells(),
                screen.back_cells() == paint_all(b0, gw, gh, pre),
                gw == old(screen).w() as int,
                gh == old(screen).h() as int,
                x == self.x,
                y == self.y,
                w == self.w,
                h == self.h,
                xi == x as int,
                yi == y as int,
                wi == w as int,
                hi == h as int,
                1 <= i <= w,
                w == 1 || i <= w - 1,
                w >= 1,
                h >= 1,
                pre == top + dashes(xi + 1, yi, i - 1),
            decreases w - i,
        {
            let ghost p = (xi + i, yi, HDASH);
            paint(screen, x + i, y, HDASH);
            proof {
                lemma_paint_push(b0, gw, gh, pre, p);
                assert(top + dashes(xi + 1, yi, i as int) =~= pre.push(p));
                pre = pre.push(p);
            }
            i += 1;
        }
        proof {
            assert(dashes(xi + 1, yi, i - 1) =~= dashes(xi + 1, yi, wi - 2));
        }
        if w > 1 {
            let ghost p = (xi + wi - 1, yi, UP_RIGHT);
            paint(screen, x + w - 1, y, UP_RIGHT);
            proof {
                lemma_paint_push(b0, gw, gh, pre, p);
                pre = pre.push(p);
            }
        }
        let ghost corner = pre;
        let mut i: u64 = 1;
        while i + 1 < h
            invariant
                screen.wf(),
                screen.w() == old(screen).w(),
                screen.h() == old(screen).h(),
                screen.front_cells() == old(screen).front_cells(),
                screen.back_cells() == paint_all(b0, gw, gh, pre),
                gw == old(screen).w() as int,
                gh == old(screen).h() as int,
                x == self.x,
                y == self.y,
                w == self.w,
                h == self.h,
                xi == x as int,
                yi == y as int,
                wi == w as int,
                hi == h as int,
                1 <= i <= h,
                h == 1 || i <= h - 1,
                w >= 1,
                h >= 1,
                pre == corner + sides(xi, yi, wi, i as int),
            decreases h - i,
        {
            let ghost p = (xi, yi + i, VDASH);
            paint(screen, x, y + i, VDASH);
            proof {
                lemma_paint_push(b0, gw, gh, pre, p);
                pre = pre.push(p);
            }
            if w > 1 {
                let ghost q = (xi + wi - 1, yi + i, VDASH);
                paint(screen, x + w - 1, y + i, VDASH);
                proof {
                    lemma_paint_push(b0, gw, gh, pre, q);
                    pre = pre.push(q);
                }
            }
            proof {
                assert(corner + sides(xi, yi, wi, i + 1) =~= pre);
            }
            i += 1;
        }
        proof {
            assert(sides(xi, yi, wi, i as int) == sides(xi, yi, wi, hi - 1));
        }
        let ghost mid = pre;
        if h > 1 {
            let ghost p = (xi, yi + hi - 1, DOWN_LEFT);
            paint(screen, x, y + h - 1, DOWN_LEFT);
            proof {
                lemma_paint_push(b0, gw, gh, pre, p);
                pre = pre.push(p);
            }
            let ghost bl = pre;
            let mut i: u64 = 1;
            while i + 1 < w
                invariant
                screen.wf(),
                screen.w() == old(screen).w(),
                screen.h() == old(screen).h(),
                screen.front_cells() == old(screen).front_cells(),
                screen.back_cells() == paint_all(b0, gw, gh, pre),
                gw == old(screen).w() as int,
                gh == old(screen).h() as int,
                x == self.x,
                y == self.y,
                w == self.w,
                h == self.h,
                xi == x as int,
                yi == y as int,
                wi == w as int,
                hi == h as int,
                    1 <= i <= w,
                    w == 1 || i <= w - 1,
                    w >= 1,
                    h > 1,
                    pre == bl + dashes(xi + 1, yi + hi - 1, i - 1),
                decreases w - i,
            {
                let ghost p = (xi + i, yi + hi - 1, HDASH);
                paint(screen, x + i, y + h - 1, HDASH);
                proof {
                    lemma_paint_push(b0, gw, gh, pre, p);
                    assert(bl + dashes(xi + 1, yi + hi - 1, i as int) =~= pre.push(p));
                    pre = pre.push(p);
                }
                i += 1;
            }
            proof {
                assert(dashes(xi + 1, yi + hi - 1, i - 1) =~= dashes(xi + 1, yi + hi - 1, wi - 2));
            }
            if w > 1 {
                let ghost p = (xi + wi - 1, yi + hi - 1, DOWN_RIGHT);
                paint(screen, x + w - 1, y + h - 1, DOWN_RIGHT);
                proof {
                    lemma_paint_push(b0, gw, gh, pre, p);
                    pre = pre.push(p);
                }
            }
        }
        proof {
            assert(pre =~= border_points(self.rect()));
        }
    }

    fn draw_joints(&self, screen: &mut Screen)
        requires
            old(screen).wf(),
        ensures
            final(screen).wf(),
            final(screen).w() == old(screen).w(),
            final(screen).h() == old(screen).h(),
            final(screen).front_cells() == old(screen).front_cells(),
            final(screen).back_cells() == paint_all(
                old(screen).back_cells(),
                old(screen).w() as int,
                old(screen).h() as int,
                self.own_joints(),
            ),
    {
        let ghost b0 = screen.back_cells();
        let ghost gw = screen.w() as int;
        let ghost gh = screen.h() as int;
        let ghost mut pre: Seq<Pt> = seq![];
        match &self.children {
            Some((_, second)) => {
                let (x, y, w, h) = (self.x as u64, self.y as u64, self.w as u64, self.h as u64);
                let c2x = second.x as u64;
                let c2y = second.y as u64;
                if y == c2y {
                    let ghost p = (c2x as int, y as int, FORK_DOWN);
                    paint(screen, c2x, y, FORK_DOWN);
                    proof {
                        lemma_paint_push(b0, gw, gh, pre, p);
                        pre = pre.push(p);
                    }
                    if h > 1 {
                        let ghost q = (c2x as int, (y + h - 1) as int, FORK_UP);
                        paint(screen, c2x, y + h - 1, FORK_UP);
                        proof {
                            lemma_paint_push(b0, gw, gh, pre, q);
                            pre = pre.push(q);
                        }
                    }
                } else {
                    let ghost p = (x as int, c2y as int, FORK_RIGHT);
                    paint(screen, x, c2y, FORK_RIGHT);
                    proof {
                        lemma_paint_push(b0, gw, gh, pre, p);
                        pre = pre.push(p);
                    }
                    if w > 1 {
                        let ghost q = ((x + w - 1) as int, c2y as int, FORK_LEFT);
                        paint(screen, x + w - 1, c2y, FORK_LEFT);
                        proof {
                            lemma_paint_push(b0, gw, gh, pre, q);
                            pre = pre.push(q);
                        }
                    }
                }
                proof {
                    assert(pre =~= self.own_joints());
                }
            },
            None => {
                proof {
                    assert(paint_all(b0, gw, gh, self.own_joints()) == b0);
                }
            },
        }
    }

    fn draw_widgets(&self, screen: &mut Screen)
        requires
            old(screen).wf(),
        ensures
            final(screen).wf(),
            final(screen).w() == old(screen).w(),
            final(screen).h() == old(screen).h(),
            final(screen).front_cells() == old(screen).front_cells(),
            self.widgets@.len() == 0 ==> final(screen).back_cells() == old(screen).back_cells(),
    {
        let bbox = self.interior_box();
        let mut i: usize = 0;
        while i < self.widgets.len()
            invariant
                screen.wf(),
                screen.w() == old(screen).w(),
                screen.h() == old(screen).h(),
                screen.front_cells() == old(screen).front_cells(),
                i <= self.widgets@.len(),
                self.widgets@.len() == 0 ==> screen.back_cells() == old(screen).back_cells(),
            decreases self.widgets@.len() - i,
        {
            self.widgets[i].draw(screen, bbox);
            i += 1;
        }
    }

    /// The bounding box handed to this node's widgets.
    pub fn interior_box(&self) -> (b: BBox)
        ensures
            b == interior(self.rect()),
    {
        let x = if self.x < u32::MAX { self.x + 1 } else { 0 };
        let y = if self.y < u32::MAX { self.y + 1 } else { 0 };
        let w = if self.w >= 2 { self.w - 2 } else { 0 };
        let h = if self.h >= 2 { self.h - 2 } else { 0 };
        BBox { x, y, w, h }
    }
}

/// Puts border glyph `g` at (x, y) in the border color; a position beyond
/// the address range is off the grid too.
fn paint(screen: &mut Screen, x: u64, y: u64, g: &'static str)
    requires
        old(screen).wf(),
    ensures
        final(screen).wf(),
        final(screen).w() == old(screen).w(),
        final(screen).h() == old(screen).h(),
        final(screen).front_cells() == old(screen).front_cells(),
        final(screen).back_cells() == paint_at(
            old(screen).back_cells(),
            old(screen).w() as int,
            old(screen).h() as int,
            (x as int, y as int, g),
        ),
{
    if x <= usize::MAX as u64 && y <= usize::MAX as u64 {
        let ghost b0 = screen.back_cells();
        screen.put_char(x as usize, y as usize, g);
        let ghost b1 = screen.back_cells();
        let gray = Color::gray();
        assert(gray == Color(0xFF80_8080));
        screen.set_fg_color(x as usize, y as usize, gray);
        proof {
            if 0 <= x < screen.w() && 0 <= y < screen.h() {
                let (sw, sh) = (screen.w() as int, screen.h() as int);
                let i = y * sw + x;
                assert(y * sw + x < sw * sh) by (nonlinear_arith)
                    requires
                        0 <= x < sw,
                        0 <= y < sh,
                ;
                assert(b1[i] == glyph_cell(b0[i], g.spec_bytes()));
                assert(screen.back_cells() =~= b0.update(i, border_cell(b0[i], g)));
            }
        }
    }
}

} // verus!
