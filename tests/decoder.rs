use invaders::decoder::{decode, poll, InputBuffer};
use invaders::input::{
    is_char, is_ctrl, is_key, Event, KeyCode, KeyEvent, KeyModifiers, MouseAction, MouseButton,
    MouseEvent, Step,
};

fn key(code: KeyCode, mods: u8) -> Event {
    Event::Key(KeyEvent { code, modifiers: KeyModifiers(mods) })
}

fn feed(bytes: &[u8]) -> Option<Event> {
    let mut ib = InputBuffer::new();
    poll(&mut ib, bytes)
}

#[test]
fn printable_ascii_bytes_are_plain_chars() {
    for c in 32u8..=126 {
        assert_eq!(feed(&[c]), Some(key(KeyCode::Char(c as char), 0)));
    }
}

#[test]
fn csi_up_arrow() {
    assert_eq!(feed(b"\x1b[A"), Some(key(KeyCode::Up, 0)));
}

#[test]
fn csi_up_arrow_with_control() {
    assert_eq!(feed(b"\x1b[1;5A"), Some(key(KeyCode::Up, 4)));
}

#[test]
fn csi_arrows_home_end_and_modifier_bits() {
    assert_eq!(feed(b"\x1b[B"), Some(key(KeyCode::Down, 0)));
    assert_eq!(feed(b"\x1b[C"), Some(key(KeyCode::Right, 0)));
    assert_eq!(feed(b"\x1b[D"), Some(key(KeyCode::Left, 0)));
    assert_eq!(feed(b"\x1b[H"), Some(key(KeyCode::Home, 0)));
    assert_eq!(feed(b"\x1b[F"), Some(key(KeyCode::End, 0)));
    assert_eq!(feed(b"\x1b[1;2D"), Some(key(KeyCode::Left, 1)));
    assert_eq!(feed(b"\x1b[1;3C"), Some(key(KeyCode::Right, 2)));
    assert_eq!(feed(b"\x1b[1;8B"), Some(key(KeyCode::Down, 7)));
    assert_eq!(feed(b"\x1b[1;1A"), Some(key(KeyCode::Up, 0)));
}

#[test]
fn csi_tilde_codes() {
    assert_eq!(feed(b"\x1b[1~"), Some(key(KeyCode::Home, 0)));
    assert_eq!(feed(b"\x1b[2~"), Some(key(KeyCode::Insert, 0)));
    assert_eq!(feed(b"\x1b[3~"), Some(key(KeyCode::Delete, 0)));
    assert_eq!(feed(b"\x1b[4~"), Some(key(KeyCode::End, 0)));
    assert_eq!(feed(b"\x1b[5~"), Some(key(KeyCode::PageUp, 0)));
    assert_eq!(feed(b"\x1b[6~"), Some(key(KeyCode::PageDown, 0)));
    assert_eq!(feed(b"\x1b[11~"), Some(key(KeyCode::F(1), 0)));
    assert_eq!(feed(b"\x1b[15~"), Some(key(KeyCode::F(5), 0)));
    assert_eq!(feed(b"\x1b[17~"), Some(key(KeyCode::F(6), 0)));
    assert_eq!(feed(b"\x1b[21~"), Some(key(KeyCode::F(10), 0)));
    assert_eq!(feed(b"\x1b[23~"), Some(key(KeyCode::F(11), 0)));
    assert_eq!(feed(b"\x1b[24~"), Some(key(KeyCode::F(12), 0)));
    assert_eq!(feed(b"\x1b[3;5~"), Some(key(KeyCode::Delete, 4)));
}

#[test]
fn unknown_tilde_code_is_consumed_without_event() {
    let mut ib = InputBuffer::new();
    assert_eq!(poll(&mut ib, b"\x1b[16~x"), None);
    assert_eq!(ib.remaining(), 1);
    assert_eq!(poll(&mut ib, b""), Some(key(KeyCode::Char('x'), 0)));
}

#[test]
fn split_csi_read_is_reassembled() {
    let mut ib = InputBuffer::new();
    assert_eq!(poll(&mut ib, b"\x1b["), None);
    assert_eq!(ib.unread(), b"\x1b[");
    assert_eq!(poll(&mut ib, b"A"), Some(key(KeyCode::Up, 0)));
    assert_eq!(ib.remaining(), 0);
}

#[test]
fn split_sgr_mouse_read_is_reassembled() {
    let mut ib = InputBuffer::new();
    assert_eq!(poll(&mut ib, b"\x1b[<0;1"), None);
    assert_eq!(ib.remaining(), 6);
    let e = poll(&mut ib, b"0;5M");
    assert_eq!(
        e,
        Some(Event::Mouse(MouseEvent {
            button: MouseButton::Left,
            action: MouseAction::Press,
            x: 9,
            y: 4,
            modifiers: KeyModifiers(0),
        }))
    );
}

#[test]
fn sgr_mouse_left_press() {
    assert_eq!(
        feed(b"\x1b[<0;10;5M"),
        Some(Event::Mouse(MouseEvent {
            button: MouseButton::Left,
            action: MouseAction::Press,
            x: 9,
            y: 4,
            modifiers: KeyModifiers(0),
        }))
    );
}

#[test]
fn sgr_mouse_release_drag_move_scroll_and_modifiers() {
    let m = |b: MouseButton, a: MouseAction, x: i32, y: i32, mods: u8| {
        Some(Event::Mouse(MouseEvent { button: b, action: a, x, y, modifiers: KeyModifiers(mods) }))
    };
    assert_eq!(feed(b"\x1b[<2;1;1m"), m(MouseButton::Right, MouseAction::Release, 0, 0, 0));
    assert_eq!(feed(b"\x1b[<1;3;4M"), m(MouseButton::Middle, MouseAction::Press, 2, 3, 0));
    assert_eq!(feed(b"\x1b[<32;5;6M"), m(MouseButton::Left, MouseAction::Drag, 4, 5, 0));
    assert_eq!(feed(b"\x1b[<35;5;6M"), m(MouseButton::NoButton, MouseAction::Move, 4, 5, 0));
    assert_eq!(feed(b"\x1b[<64;2;2M"), m(MouseButton::ScrollUp, MouseAction::Press, 1, 1, 0));
    assert_eq!(feed(b"\x1b[<65;2;2M"), m(MouseButton::ScrollDown, MouseAction::Press, 1, 1, 0));
    assert_eq!(feed(b"\x1b[<28;1;1M"), m(MouseButton::Left, MouseAction::Press, 0, 0, 7));
    assert_eq!(feed(b"\x1b[<3;1;1M"), m(MouseButton::NoButton, MouseAction::Press, 0, 0, 0));
}

#[test]
fn sgr_mouse_fields_saturate() {
    assert_eq!(
        feed(b"\x1b[<99999999999;0;99999999999M"),
        Some(Event::Mouse(MouseEvent {
            button: MouseButton::ScrollDown,
            action: MouseAction::Press,
            x: -1,
            y: 2147483646,
            modifiers: KeyModifiers(7),
        }))
    );
}

#[test]
fn csi_fields_saturate() {
    assert_eq!(feed(b"\x1b[99999999999;5A"), Some(key(KeyCode::Up, 4)));
    assert_eq!(feed(b"\x1b[1;99999999999A"), Some(key(KeyCode::Up, 6)));
}

#[test]
fn unknown_csi_final_is_consumed_and_decoding_resumes() {
    let mut ib = InputBuffer::new();
    assert_eq!(poll(&mut ib, b"\x1b[5Z"), None);
    assert_eq!(ib.remaining(), 0);
    assert_eq!(poll(&mut ib, b"\x1b[A"), Some(key(KeyCode::Up, 0)));
    let mut ib = InputBuffer::new();
    assert_eq!(poll(&mut ib, b"\x1b[12;3Qq"), None);
    assert_eq!(poll(&mut ib, b""), Some(key(KeyCode::Char('q'), 0)));
}

#[test]
fn ss3_keys() {
    assert_eq!(feed(b"\x1bOP"), Some(key(KeyCode::F(1), 0)));
    assert_eq!(feed(b"\x1bOQ"), Some(key(KeyCode::F(2), 0)));
    assert_eq!(feed(b"\x1bOR"), Some(key(KeyCode::F(3), 0)));
    assert_eq!(feed(b"\x1bOS"), Some(key(KeyCode::F(4), 0)));
    assert_eq!(feed(b"\x1bOA"), Some(key(KeyCode::Up, 0)));
    assert_eq!(feed(b"\x1bOH"), Some(key(KeyCode::Home, 0)));
    assert_eq!(feed(b"\x1bOF"), Some(key(KeyCode::End, 0)));
}

#[test]
fn ss3_prefix_waits_for_its_key() {
    let mut ib = InputBuffer::new();
    assert_eq!(poll(&mut ib, b"\x1bO"), None);
    assert_eq!(ib.remaining(), 2);
    assert_eq!(poll(&mut ib, b"B"), Some(key(KeyCode::Down, 0)));
}

#[test]
fn unknown_ss3_key_drops_the_escape() {
    let mut ib = InputBuffer::new();
    assert_eq!(poll(&mut ib, b"\x1bOz"), None);
    assert_eq!(ib.unread(), b"Oz");
}

#[test]
fn alt_prefixed_keys() {
    assert_eq!(feed(b"\x1bx"), Some(key(KeyCode::Char('x'), 2)));
    assert_eq!(feed(b"\x1b\x01"), Some(key(KeyCode::Char('a'), 6)));
    assert_eq!(feed(b"\x1b\x1a"), Some(key(KeyCode::Char('z'), 6)));
}

#[test]
fn lone_escape_is_the_escape_key() {
    assert_eq!(feed(b"\x1b"), Some(key(KeyCode::Escape, 0)));
}

#[test]
fn control_bytes() {
    assert_eq!(feed(b"\t"), Some(key(KeyCode::Tab, 0)));
    assert_eq!(feed(b"\r"), Some(key(KeyCode::Enter, 0)));
    assert_eq!(feed(b"\n"), Some(key(KeyCode::Enter, 0)));
    assert_eq!(feed(&[127]), Some(key(KeyCode::Backspace, 0)));
    assert_eq!(feed(&[1]), Some(key(KeyCode::Char('a'), 4)));
    assert_eq!(feed(&[26]), Some(key(KeyCode::Char('z'), 4)));
}

#[test]
fn unmatched_bytes_are_dropped_one_at_a_time() {
    let mut ib = InputBuffer::new();
    assert_eq!(poll(&mut ib, &[0, 28, b'k']), None);
    assert_eq!(ib.remaining(), 2);
    assert_eq!(poll(&mut ib, b""), None);
    assert_eq!(poll(&mut ib, b""), Some(key(KeyCode::Char('k'), 0)));
    assert_eq!(poll(&mut ib, b""), None);
}

#[test]
fn utf8_characters() {
    assert_eq!(feed("é".as_bytes()), Some(key(KeyCode::Char('é'), 0)));
    assert_eq!(feed("€".as_bytes()), Some(key(KeyCode::Char('€'), 0)));
    assert_eq!(feed("😀".as_bytes()), Some(key(KeyCode::Char('😀'), 0)));
}

#[test]
fn partial_utf8_waits_for_the_rest() {
    let bytes = "€".as_bytes();
    let mut ib = InputBuffer::new();
    assert_eq!(poll(&mut ib, &bytes[..2]), None);
    assert_eq!(ib.remaining(), 2);
    assert_eq!(poll(&mut ib, &bytes[2..]), Some(key(KeyCode::Char('€'), 0)));
}

#[test]
fn invalid_utf8_drops_exactly_one_byte() {
    let mut ib = InputBuffer::new();
    assert_eq!(poll(&mut ib, &[0xff, b'a']), None);
    assert_eq!(ib.remaining(), 1);
    let mut ib = InputBuffer::new();
    assert_eq!(poll(&mut ib, &[0xc3, b'a']), None);
    assert_eq!(ib.unread(), b"a");
    let mut ib = InputBuffer::new();
    assert_eq!(poll(&mut ib, &[0xed, 0xa0, 0x80]), None);
    assert_eq!(ib.remaining(), 2);
}

#[test]
fn decode_reports_steps() {
    assert_eq!(decode(b""), Step::Wait);
    assert_eq!(decode(b"\x1b[1;5"), Step::Wait);
    assert_eq!(decode(b"\x1b[5Zrest"), Step::Discard(4));
    assert_eq!(decode(b"\x1b[Aq"), Step::Emit(key(KeyCode::Up, 0), 3));
    assert_eq!(decode(&[0]), Step::Discard(1));
}

#[test]
fn full_buffer_of_an_unfinished_sequence_drops_one_byte() {
    let mut bytes = vec![0x1b, b'['];
    bytes.extend(std::iter::repeat(b'1').take(70));
    let mut ib = InputBuffer::new();
    assert_eq!(poll(&mut ib, &bytes), None);
    assert_eq!(ib.remaining(), 63);
    assert_eq!(ib.free_space(), 1);
}

#[test]
fn fill_takes_only_what_fits() {
    let mut ib = InputBuffer::new();
    assert_eq!(ib.free_space(), 64);
    assert_eq!(ib.fill(&[b'a'; 40]), 40);
    ib.consume(10);
    assert_eq!(ib.fill(&[b'b'; 40]), 34);
    assert_eq!(ib.remaining(), 64);
    assert_eq!(ib.unread()[29], b'a');
    assert_eq!(ib.unread()[30], b'b');
}

#[test]
fn key_matchers() {
    let a = KeyEvent { code: KeyCode::Char('A'), modifiers: KeyModifiers::none() };
    assert!(is_char(&a, 'a'));
    assert!(is_char(&a, 'A'));
    assert!(!is_char(&a, 'b'));
    let ctrl_a = KeyEvent { code: KeyCode::Char('a'), modifiers: KeyModifiers::control() };
    assert!(!is_char(&ctrl_a, 'a'));
    assert!(is_ctrl(&ctrl_a, 'A'));
    assert!(!is_ctrl(&a, 'a'));
    let alt_a = KeyEvent { code: KeyCode::Char('a'), modifiers: KeyModifiers::alt() };
    assert!(!is_char(&alt_a, 'a'));
    let up = KeyEvent { code: KeyCode::Up, modifiers: KeyModifiers::none() };
    assert!(is_key(&up, KeyCode::Up));
    assert!(!is_key(&up, KeyCode::Down));
    assert!(!is_char(&up, 'a'));
}

#[test]
fn modifier_sets() {
    let m = KeyModifiers::shift() | KeyModifiers::control();
    assert_eq!(m, KeyModifiers(5));
    assert!(m.contains(KeyModifiers::shift()));
    assert!(m.contains(KeyModifiers::control()));
    assert!(!m.contains(KeyModifiers::alt()));
    assert!(m.contains(KeyModifiers::none()));
}
