use invaders::menu::Menu;
use invaders::screen::Screen;

fn sample() -> Menu<u8> {
    let mut m: Menu<u8> = Menu::new();
    m.add_entry("Menu:", false, None);
    m.add_separator();
    m.add_entry("Continue", true, Some(1));
    m.add_entry("Quit", true, Some(2));
    m
}

#[test]
fn first_selectable_entry_is_selected() {
    let m = sample();
    assert_eq!(m.select(), Some(1));
}

#[test]
fn moving_skips_what_cannot_be_selected_and_stops_at_the_ends() {
    let mut m = sample();
    m.move_down();
    assert_eq!(m.select(), Some(2));
    m.move_down();
    assert_eq!(m.select(), Some(2));
    m.move_up();
    assert_eq!(m.select(), Some(1));
    m.move_up();
    assert_eq!(m.select(), Some(1));
}

#[test]
fn nothing_selectable_selects_nothing() {
    let mut m: Menu<u8> = Menu::default();
    m.add_entry("Title", false, Some(9));
    m.add_separator();
    assert_eq!(m.select(), None);
    m.move_up();
    m.move_down();
    assert_eq!(m.select(), None);
}

#[test]
fn menu_is_drawn_centered_with_indicator() {
    let mut s = Screen::new(12, 2);
    let mut m: Menu<u8> = Menu::new();
    m.add_entry("Go", true, Some(1));
    m.add_entry("No", false, None);
    m.draw_on(&mut s);
    assert_eq!(
        text(s.flush()),
        "\x1b[1;5H\x1b[38;2;255;255;255m\x1b[49mGo\x1b[1;8H\x1b[38;2;255;255;0m<\x1b[2;5H\x1b[38;2;128;128;128mNo"
    );
}

fn text(bytes: Vec<u8>) -> String {
    String::from_utf8(bytes).unwrap()
}
