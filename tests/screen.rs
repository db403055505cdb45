use invaders::cell::{Attributes, Cell, Color};
use invaders::escape::terminal_size;
use invaders::screen::Screen;

const GRAY: &str = "\x1b[38;2;128;128;128m";

fn text(bytes: Vec<u8>) -> String {
    String::from_utf8(bytes).unwrap()
}

#[test]
fn second_flush_emits_nothing() {
    let mut s = Screen::new(4, 3);
    s.put_char(1, 1, "x");
    s.set_fg_color(2, 2, Color::red());
    assert!(!s.flush().is_empty());
    assert!(s.flush().is_empty());
}

#[test]
fn fresh_screen_flushes_nothing() {
    let mut s = Screen::new(5, 2);
    assert_eq!(s.width(), 5);
    assert_eq!(s.height(), 2);
    assert!(s.flush().is_empty());
}

#[test]
fn writes_off_the_grid_are_ignored() {
    let mut s = Screen::new(2, 1);
    s.put_char(2, 0, "x");
    s.put_char(0, 1, "x");
    s.put_char(usize::MAX, usize::MAX, "x");
    s.set_fg_color(5, 0, Color::red());
    s.set_bg_color(0, 9, Color::blue());
    s.put_str(3, 0, "abc");
    assert!(s.flush().is_empty());
}

#[test]
fn flush_positions_cursor_and_sets_default_colors() {
    let mut s = Screen::new(2, 1);
    s.put_char(0, 0, "a");
    assert_eq!(text(s.flush()), "\x1b[1;1H\x1b[39m\x1b[49ma");
}

#[test]
fn adjacent_cells_share_one_cursor_move() {
    let mut s = Screen::new(2, 1);
    s.put_char(0, 0, "a");
    s.put_char(1, 0, "b");
    assert_eq!(text(s.flush()), "\x1b[1;1H\x1b[39m\x1b[49mab");
}

#[test]
fn a_gap_needs_a_new_cursor_move_but_not_new_colors() {
    let mut s = Screen::new(3, 1);
    s.put_char(0, 0, "a");
    s.put_char(2, 0, "c");
    assert_eq!(text(s.flush()), "\x1b[1;1H\x1b[39m\x1b[49ma\x1b[1;3Hc");
}

#[test]
fn a_new_row_needs_a_cursor_move() {
    let mut s = Screen::new(3, 2);
    s.put_str(0, 0, "ab\ncd");
    assert_eq!(text(s.flush()), "\x1b[1;1H\x1b[39m\x1b[49mab\x1b[2;1Hcd");
}

#[test]
fn rgb_colors_are_emitted_once_while_unchanged() {
    let mut s = Screen::new(2, 2);
    s.set_fg_color(0, 1, Color::rgb(1, 2, 3));
    s.set_bg_color(0, 1, Color::rgb(255, 0, 10));
    s.set_fg_color(1, 1, Color::rgb(1, 2, 3));
    s.set_bg_color(1, 1, Color::rgb(255, 0, 10));
    assert_eq!(text(s.flush()), "\x1b[2;1H\x1b[38;2;1;2;3m\x1b[48;2;255;0;10m  ");
}

#[test]
fn clear_redraws_blank_cells_on_next_flush() {
    let mut s = Screen::new(1, 1);
    s.put_char(0, 0, "a");
    s.flush();
    s.clear();
    assert_eq!(text(s.flush()), "\x1b[1;1H\x1b[39m\x1b[49m ");
    s.clear();
    assert!(s.flush().is_empty());
}

#[test]
fn put_str_stops_at_the_edge() {
    let mut s = Screen::new(2, 1);
    s.put_str(0, 0, "abc");
    assert_eq!(text(s.flush()), "\x1b[1;1H\x1b[39m\x1b[49mab");
}

#[test]
fn multi_byte_glyphs() {
    let mut s = Screen::new(2, 1);
    s.put_str(0, 0, "é€");
    assert_eq!(text(s.flush()), "\x1b[1;1H\x1b[39m\x1b[49mé€");
}

#[test]
fn color_fields() {
    let c = Color::rgb(10, 20, 30);
    assert_eq!(c.0, 0xFF0A141E);
    assert!(c.is_set());
    assert_eq!((c.r(), c.g(), c.b()), (10, 20, 30));
    assert!(!Color::none().is_set());
    assert!(Color::black().is_set());
    assert_ne!(Color::black(), Color::none());
    assert_eq!(Color::gray().r(), 128);
    assert_eq!(Color::default(), Color::none());
}

#[test]
fn attribute_sets() {
    let a = Attributes(Attributes::bold().0 | Attributes::underline().0);
    assert!(a.contains(Attributes::bold()));
    assert!(a.contains(Attributes::underline()));
    assert!(!a.contains(Attributes::italic()));
    assert_eq!(Attributes::default(), Attributes::none());
}

#[test]
fn cell_glyphs() {
    let mut c = Cell::default();
    assert_eq!(c.ch_str(), " ");
    assert_eq!(c.ch, [b' ', 0, 0, 0]);
    c.set_char("€");
    assert_eq!(c.ch_str(), "€");
    c.set_char("abcdef");
    assert_eq!(c.ch, *b"abcd");
    assert_eq!(c.ch_str(), "abcd");
    c.ch = [0xff, 0, 0, 0];
    assert_eq!(c.ch_str(), " ");
    c.set_char("");
    assert_eq!(c.ch_str(), "");
    assert!(Cell::default() == Cell::default());
    assert!(c != Cell::default());
}

#[test]
fn terminal_size_falls_back_to_80_by_24() {
    assert_eq!(terminal_size(None), (80, 24));
    assert_eq!(terminal_size(Some((132, 43))), (132, 43));
}

#[test]
fn frame_border_color_is_gray() {
    assert_eq!(GRAY, "\x1b[38;2;128;128;128m");
}
