use invaders::frame::{Frame, FrameSplit};
use invaders::panel::{Panel, ValueSource};
use invaders::screen::Screen;
use invaders::widget::{BBox, Widget};

struct Fixed(&'static str);

impl ValueSource for Fixed {
    fn value(&self) -> String {
        self.0.to_string()
    }
}

type P = Panel<Fixed>;

fn text(bytes: Vec<u8>) -> String {
    String::from_utf8(bytes).unwrap()
}

#[test]
fn vertical_split_of_width_10_at_5() {
    let mut f: Frame<P> = Frame::new(10, 4, 2, 1);
    let (left, right) = f.split(5, FrameSplit::Vertical);
    assert_eq!(left.width(), 5);
    assert_eq!(left.origin(), (2, 1));
    assert_eq!(right.width(), 6);
    assert_eq!(right.origin(), (2 + 4, 1));
    assert_eq!(left.height(), 4);
    assert_eq!(right.height(), 4);
    let left_last = left.origin().0 + left.width() - 1;
    assert_eq!(left_last, right.origin().0);
}

#[test]
fn horizontal_split() {
    let mut f: Frame<P> = Frame::new(8, 10, 0, 0);
    let (top, bottom) = f.split(3, FrameSplit::Horizontal);
    assert_eq!((top.width(), top.height(), top.origin()), (8, 3, (0, 0)));
    assert_eq!((bottom.width(), bottom.height(), bottom.origin()), (8, 8, (0, 2)));
}

#[test]
fn nested_splits_keep_going() {
    let mut f: Frame<P> = Frame::new(30, 20, 0, 0);
    let (top, _bottom) = f.split(16, FrameSplit::Horizontal);
    let (game, stats) = top.split(20, FrameSplit::Vertical);
    assert_eq!((game.width(), game.height()), (20, 16));
    assert_eq!((stats.width(), stats.origin()), (11, (19, 0)));
}

#[test]
fn leaf_borders() {
    let mut s = Screen::new(2, 2);
    let f: Frame<P> = Frame::new(2, 2, 0, 0);
    f.draw(&mut s);
    assert_eq!(text(s.flush()), "\x1b[1;1H\x1b[38;2;128;128;128m\x1b[49m╭╮\x1b[2;1H╰╯");
}

#[test]
fn single_row_and_column_frames() {
    let mut s = Screen::new(3, 3);
    let f: Frame<P> = Frame::new(3, 1, 0, 0);
    f.draw(&mut s);
    let g: Frame<P> = Frame::new(1, 2, 0, 1);
    g.draw(&mut s);
    assert_eq!(
        text(s.flush()),
        "\x1b[1;1H\x1b[38;2;128;128;128m\x1b[49m╭─╮\x1b[2;1H╭\x1b[3;1H╰"
    );
    let empty: Frame<P> = Frame::new(0, 5, 0, 0);
    empty.draw(&mut s);
    assert!(s.flush().is_empty());
}

#[test]
fn vertical_split_joints() {
    let mut s = Screen::new(3, 2);
    let mut f: Frame<P> = Frame::new(3, 2, 0, 0);
    f.split(2, FrameSplit::Vertical);
    f.draw(&mut s);
    assert_eq!(text(s.flush()), "\x1b[1;1H\x1b[38;2;128;128;128m\x1b[49m╭┬╮\x1b[2;1H╰┴╯");
}

#[test]
fn horizontal_split_joints() {
    let mut s = Screen::new(2, 3);
    let mut f: Frame<P> = Frame::new(2, 3, 0, 0);
    f.split(2, FrameSplit::Horizontal);
    f.draw(&mut s);
    assert_eq!(text(s.flush()), "\x1b[1;1H\x1b[38;2;128;128;128m\x1b[49m╭╮\x1b[2;1H├┤\x1b[3;1H╰╯");
}

#[test]
fn widgets_draw_inside_the_border() {
    let mut s = Screen::new(10, 3);
    let mut f: Frame<P> = Frame::new(10, 3, 0, 0);
    let mut p: P = Panel::new();
    p.add_text("hi");
    f.add_widget(p);
    f.draw(&mut s);
    assert_eq!(
        text(s.flush()),
        "\x1b[1;1H\x1b[38;2;128;128;128m\x1b[49m╭────────╮\x1b[2;1H│\x1b[39mhi\x1b[2;10H\x1b[38;2;128;128;128m│\x1b[3;1H╰────────╯"
    );
}

#[test]
fn interior_box_is_clamped() {
    let f: Frame<P> = Frame::new(10, 3, 4, 5);
    assert_eq!(f.interior_box(), BBox { x: 5, y: 6, w: 8, h: 1 });
    let g: Frame<P> = Frame::new(1, 0, 0, 0);
    assert_eq!(g.interior_box(), BBox { x: 1, y: 1, w: 0, h: 0 });
}

#[test]
fn panel_lines() {
    let mut s = Screen::new(12, 3);
    let mut p: P = Panel::default();
    p.add_value("Score", Fixed("7"));
    p.add_empty_line();
    p.add_text("end");
    p.draw(&mut s, BBox { x: 0, y: 0, w: 12, h: 2 });
    assert_eq!(text(s.flush()), "\x1b[1;1H\x1b[39m\x1b[49mScore:\x1b[1;8H7");
}
