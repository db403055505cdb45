//! Input events and the incremental decoder that turns raw terminal bytes
//! into them.

use vstd::prelude::*;
use vstd::string::*;
use vstd::utf8::*;

verus! {

pub const ESC: u8 = 0x1b;

/// Capacity of the decoder's byte buffer.
pub const INPUT_CAPACITY: usize = 64;

pub const U32_CAP: u32 = 0xFFFF_FFFF;

pub const I32_CAP: u32 = 0x7FFF_FFFF;

#[derive(Clone, Copy, Debug, PartialEq, Eq, Structural)]
pub enum KeyCode {
    Char(char),
    Enter,
    Tab,
    Backspace,
    Escape,
    Up,
    Down,
    Left,
    Right,
    Home,
    End,
    PageUp,
    PageDown,
    Insert,
    Delete,
    F(u8),
}

/// Shift (bit 0), alt (bit 1) and control (bit 2) as a bitset.
#[derive(Clone, Copy, Debug, PartialEq, Eq, Structural)]
pub struct KeyModifiers(pub u8);

impl KeyModifiers {
    pub fn none() -> (m: KeyModifiers)
        ensures
            m.0 == 0,
    {
        KeyModifiers(0)
    }

    pub fn shift() -> (m: KeyModifiers)
        ensures
            m.0 == 1,
    {
        KeyModifiers(1)
    }

    pub fn alt() -> (m: KeyModifiers)
        ensures
            m.0 == 2,
    {
        KeyModifiers(2)
    }

    pub fn control() -> (m: KeyModifiers)
        ensures
            m.0 == 4,
    {
        KeyModifiers(4)
    }

    /// Whether every modifier of `other` is also in `self`.
    pub fn contains(self, other: KeyModifiers) -> (b: bool)
        ensures
            b == (self.0 & other.0 == other.0),
    {
        (self.0 & other.0) == other.0
    }
}

impl core::ops::BitOr for KeyModifiers {
    type Output = KeyModifiers;

    fn bitor(self, rhs: KeyModifiers) -> (m: KeyModifiers)
        ensures
            m.0 == self.0 | rhs.0,
    {
        KeyModifiers(self.0 | rhs.0)
    }
}

impl vstd::std_specs::ops::BitOrSpecImpl for KeyModifiers {
    open spec fn obeys_bitor_spec() -> bool {
        true
    }

    open spec fn bitor_req(self, rhs: KeyModifiers) -> bool {
        true
    }

    open spec fn bitor_spec(self, rhs: KeyModifiers) -> KeyModifiers {
        KeyModifiers(self.0 | rhs.0)
    }
}

#[derive(Clone, Copy, Debug, PartialEq, Eq, Structural)]
pub struct KeyEvent {
    pub code: KeyCode,
    pub modifiers: KeyModifiers,
}

#[derive(Clone, Copy, Debug, PartialEq, Eq, Structural)]
pub enum MouseButton {
    NoButton,
    Left,
    Middle,
    Right,
    ScrollUp,
    ScrollDown,
}

#[derive(Clone, Copy, Debug, PartialEq, Eq, Structural)]
pub enum MouseAction {
    Press,
    Release,
    Move,
    Drag,
}

#[derive(Clone, Copy, Debug, PartialEq, Eq, Structural)]
pub struct MouseEvent {
    pub button: MouseButton,
    pub action: MouseAction,
    pub x: i32,
    pub y: i32,
    pub modifiers: KeyModifiers,
}

#[derive(Clone, Copy, Debug, PartialEq, Eq, Structural)]
pub enum Event {
    Key(KeyEvent),
    Mouse(MouseEvent),
}

/// What the decoder does with the bytes at its read position.
#[derive(Clone, Copy, Debug, PartialEq, Eq, Structural)]
pub enum Step {
    /// Report the event and consume that many bytes.
    Emit(Event, usize),
    /// Consume that many bytes without an event.
    Discard(usize),
    /// Consume nothing: the bytes may be the start of a longer sequence.
    Wait,
}

pub open spec fn key(code: KeyCode, mods: u8) -> Event {
    Event::Key(KeyEvent { code, modifiers: KeyModifiers(mods) })
}

/// A decimal digit or the `;` parameter separator.
pub open spec fn is_param_byte(c: u8) -> bool {
    (0x30 <= c && c <= 0x39) || c == 0x3b
}

/// The first position at or after `i` that holds no parameter byte, if any.
pub open spec fn scan_params(s: Seq<u8>, i: int) -> Option<int>
    decreases s.len() - i,
{
    if i < 0 || i >= s.len() {
        None
    } else if !is_param_byte(s[i]) {
        Some(i)
    } else {
        scan_params(s, i + 1)
    }
}

/// `v` with decimal digit `d` appended, saturating at `cap`.
pub open spec fn push_digit(v: int, d: u8, cap: int) -> int {
    let n = v * 10 + (d - 0x30);
    if n > cap {
        cap
    } else {
        n
    }
}

/// The values of the `;`-separated decimal fields of `b`, each saturating
/// at `cap`; an empty field is zero.
pub open spec fn fields(b: Seq<u8>, cap: int) -> Seq<int>
    decreases b.len(),
{
    if b.len() == 0 {
        seq![0]
    } else {
        let p = fields(b.drop_last(), cap);
        if b.last() == 0x3b {
            p.push(0)
        } else {
            p.update(p.len() - 1, push_digit(p.last(), b.last(), cap))
        }
    }
}

/// Field `k` of `b`, or zero where `b` has fewer fields.
pub open spec fn field(b: Seq<u8>, k: int, cap: int) -> int {
    let f = fields(b, cap);
    if 0 <= k < f.len() {
        f[k]
    } else {
        0
    }
}

/// The key that a CSI sequence with final byte `fin` names, given its first
/// parameter.
pub open spec fn csi_key_code(fin: u8, first: int) -> Option<KeyCode> {
    if fin == 0x41 {
        Some(KeyCode::Up)
    } else if fin == 0x42 {
        Some(KeyCode::Down)
    } else if fin == 0x43 {
        Some(KeyCode::Right)
    } else if fin == 0x44 {
        Some(KeyCode::Left)
    } else if fin == 0x48 {
        Some(KeyCode::Home)
    } else if fin == 0x46 {
        Some(KeyCode::End)
    } else if fin == 0x7e {
        tilde_key_code(first)
    } else {
        None
    }
}

/// The key of a `ESC [ n ~` sequence.
pub open spec fn tilde_key_code(n: int) -> Option<KeyCode> {
    if n == 1 {
        Some(KeyCode::Home)
    } else if n == 2 {
        Some(KeyCode::Insert)
    } else if n == 3 {
        Some(KeyCode::Delete)
    } else if n == 4 {
        Some(KeyCode::End)
    } else if n == 5 {
        Some(KeyCode::PageUp)
    } else if n == 6 {
        Some(KeyCode::PageDown)
    } else if 11 <= n <= 15 {
        Some(KeyCode::F((n - 10) as u8))
    } else if 17 <= n <= 21 {
        Some(KeyCode::F((n - 11) as u8))
    } else if n == 23 || n == 24 {
        Some(KeyCode::F((n - 12) as u8))
    } else {
        None
    }
}

/// Modifiers of a CSI key: the second parameter, when above one, less one.
pub open spec fn csi_modifiers(b: Seq<u8>) -> u8 {
    let f = fields(b, U32_CAP as int);
    if f.len() >= 2 && f[1] > 1 {
        ((f[1] - 1) % 8) as u8
    } else {
        0
    }
}

/// The mouse event of an SGR report with button code `btn`, 1-based column
/// and row, and whether it ended in `m` (release).
pub open spec fn sgr_mouse_event(btn: int, col: int, row: int, released: bool) -> MouseEvent {
    let base = btn % 4;
    let motion = (btn / 32) % 2 == 1;
    let scroll = (btn / 64) % 2 == 1;
    let button = if scroll {
        if base == 0 {
            MouseButton::ScrollUp
        } else {
            MouseButton::ScrollDown
        }
    } else if base == 0 {
        MouseButton::Left
    } else if base == 1 {
        MouseButton::Middle
    } else if base == 2 {
        MouseButton::Right
    } else {
        MouseButton::NoButton
    };
    let action = if scroll {
        MouseAction::Press
    } else if motion {
        if base == 3 {
            MouseAction::Move
        } else {
            MouseAction::Drag
        }
    } else if released {
        MouseAction::Release
    } else {
        MouseAction::Press
    };
    MouseEvent {
        button,
        action,
        x: (col - 1) as i32,
        y: (row - 1) as i32,
        modifiers: KeyModifiers(((btn / 4) % 8) as u8),
    }
}

/// `ESC [ < b ; x ; y (M|m)`.
pub open spec fn mouse_rule(s: Seq<u8>) -> Option<Step> {
    if s.len() >= 3 && s[0] == ESC && s[1] == 0x5b && s[2] == 0x3c {
        match scan_params(s, 3) {
            None => Some(Step::Wait),
            Some(j) => if s[j] == 0x4d || s[j] == 0x6d {
                let b = s.subrange(3, j);
                let cap = I32_CAP as int;
                Some(
                    Step::Emit(
                        Event::Mouse(
                            sgr_mouse_event(
                                field(b, 0, cap),
                                field(b, 1, cap),
                                field(b, 2, cap),
                                s[j] == 0x6d,
                            ),
                        ),
                        (j + 1) as usize,
                    ),
                )
            } else {
                None
            },
        }
    } else {
        None
    }
}

/// `ESC [ params final`, final in `0x40..=0x7e`.
pub open spec fn csi_rule(s: Seq<u8>) -> Option<Step> {
    if s.len() >= 2 && s[0] == ESC && s[1] == 0x5b {
        match scan_params(s, 2) {
            None => Some(Step::Wait),
            Some(j) => if 0x40 <= s[j] <= 0x7e {
                let b = s.subrange(2, j);
                match csi_key_code(s[j], field(b, 0, U32_CAP as int)) {
                    Some(code) => Some(Step::Emit(key(code, csi_modifiers(b)), (j + 1) as usize)),
                    None => Some(Step::Discard((j + 1) as usize)),
                }
            } else {
                None
            },
        }
    } else {
        None
    }
}

/// The key of `ESC O c`.
pub open spec fn ss3_key_code(c: u8) -> Option<KeyCode> {
    if c == 0x50 {
        Some(KeyCode::F(1))
    } else if c == 0x51 {
        Some(KeyCode::F(2))
    } else if c == 0x52 {
        Some(KeyCode::F(3))
    } else if c == 0x53 {
        Some(KeyCode::F(4))
    } else if c == 0x41 {
        Some(KeyCode::Up)
    } else if c == 0x42 {
        Some(KeyCode::Down)
    } else if c == 0x43 {
        Some(KeyCode::Right)
    } else if c == 0x44 {
        Some(KeyCode::Left)
    } else if c == 0x48 {
        Some(KeyCode::Home)
    } else if c == 0x46 {
        Some(KeyCode::End)
    } else {
        None
    }
}

/// `ESC O c`.
pub open spec fn ss3_rule(s: Seq<u8>) -> Option<Step> {
    if s.len() >= 2 && s[0] == ESC && s[1] == 0x4f {
        if s.len() < 3 {
            Some(Step::Wait)
        } else {
            match ss3_key_code(s[2]) {
                Some(code) => Some(Step::Emit(key(code, 0), 3)),
                None => None,
            }
        }
    } else {
        None
    }
}

/// The letter that control byte `c` (1 to 26) stands for.
pub open spec fn ctrl_letter(c: u8) -> char {
    (0x60 + c) as u8 as char
}

/// `ESC c`: `c` with alt, and with control too for bytes 1 to 26.
pub open spec fn alt_rule(s: Seq<u8>) -> Option<Step> {
    if s.len() >= 2 && s[0] == ESC && s[1] != 0x5b && s[1] != 0x4f {
        let c = s[1];
        if 1 <= c <= 26 {
            Some(Step::Emit(key(KeyCode::Char(ctrl_letter(c)), 6), 2))
        } else if 32 <= c <= 126 {
            Some(Step::Emit(key(KeyCode::Char(c as char), 2), 2))
        } else {
            None
        }
    } else {
        None
    }
}

/// A lone `ESC` with nothing after it.
pub open spec fn escape_rule(s: Seq<u8>) -> Option<Step> {
    if s.len() == 1 && s[0] == ESC {
        Some(Step::Emit(key(KeyCode::Escape, 0), 1))
    } else {
        None
    }
}

/// The length of the UTF-8 sequence that lead byte `c` announces; 1 for a
/// byte that leads none.
pub open spec fn lead_width(c: u8) -> int {
    if 0xc0 <= c <= 0xdf {
        2
    } else if 0xe0 <= c <= 0xef {
        3
    } else if 0xf0 <= c <= 0xf7 {
        4
    } else {
        1
    }
}

/// Plain, control and UTF-8 bytes.
pub open spec fn char_rule(s: Seq<u8>) -> Option<Step> {
    if s.len() == 0 {
        None
    } else {
        let c = s[0];
        if c == 9 {
            Some(Step::Emit(key(KeyCode::Tab, 0), 1))
        } else if c == 10 || c == 13 {
            Some(Step::Emit(key(KeyCode::Enter, 0), 1))
        } else if c == 127 {
            Some(Step::Emit(key(KeyCode::Backspace, 0), 1))
        } else if 1 <= c <= 26 {
            Some(Step::Emit(key(KeyCode::Char(ctrl_letter(c)), 4), 1))
        } else if 32 <= c <= 126 {
            Some(Step::Emit(key(KeyCode::Char(c as char), 0), 1))
        } else if c >= 0x80 {
            let w = lead_width(c);
            if s.len() < w {
                Some(Step::Wait)
            } else if valid_utf8(s.take(w)) {
                Some(Step::Emit(key(KeyCode::Char(decode_utf8(s.take(w))[0]), 0), w as usize))
            } else {
                Some(Step::Discard(1))
            }
        } else {
            None
        }
    }
}

/// What the decoder does with unread bytes `s`: the first rule that
/// applies, in priority order, or else drop one byte.
pub open spec fn decode_step(s: Seq<u8>) -> Step {
    if s.len() == 0 {
        Step::Wait
    } else {
        match mouse_rule(s) {
            Some(st) => st,
            None => match csi_rule(s) {
                Some(st) => st,
                None => match ss3_rule(s) {
                    Some(st) => st,
                    None => match alt_rule(s) {
                        Some(st) => st,
                        None => match escape_rule(s) {
                            Some(st) => st,
                            None => match char_rule(s) {
                                Some(st) => st,
                                None => Step::Discard(1),
                            },
                        },
                    },
                },
            },
        }
    }
}

/// A step consumes at least one and at most all of the `n` bytes it saw.
pub open spec fn step_fits(st: Step, n: int) -> bool {
    match st {
        Step::Emit(_, k) => 1 <= k <= n,
        Step::Discard(k) => 1 <= k <= n,
        Step::Wait => true,
    }
}

/// The ASCII lower-case form of `c`; other characters are unchanged.
pub open spec fn ascii_lower(c: char) -> char {
    let v = c as u32;
    if 65 <= v <= 90 {
        (v + 32) as u8 as char
    } else {
        c
    }
}

fn to_ascii_lower(c: char) -> (r: char)
    ensures
        r == ascii_lower(c),
{
    let v = c as u32;
    if 65 <= v && v <= 90 {
        ((v + 32) as u8) as char
    } else {
        c
    }
}

/// Whether `key` is character `c`, ignoring ASCII case, without control or
/// alt.
pub open spec fn char_matches(key: KeyEvent, c: char) -> bool {
    key.code matches KeyCode::Char(ch) && ascii_lower(ch) == ascii_lower(c) && key.modifiers.0 & 4
        != 4 && key.modifiers.0 & 2 != 2
}

/// Whether `key` is control plus character `c`, ignoring ASCII case.
pub open spec fn ctrl_matches(key: KeyEvent, c: char) -> bool {
    key.code matches KeyCode::Char(ch) && ascii_lower(ch) == ascii_lower(c) && key.modifiers.0 & 4
        == 4
}

pub fn is_char(key: &KeyEvent, c: char) -> (b: bool)
    ensures
        b == char_matches(*key, c),
{
    let same = match key.code {
        KeyCode::Char(ch) => to_ascii_lower(ch) == to_ascii_lower(c),
        _ => false,
    };
    same && !key.modifiers.contains(KeyModifiers::control()) && !key.modifiers.contains(
        KeyModifiers::alt(),
    )
}

/// Whether `key` has key code `code`.
pub fn is_key(key: &KeyEvent, code: KeyCode) -> (b: bool)
    ensures
        b == (key.code == code),
{
    key.code == code
}

pub fn is_ctrl(key: &KeyEvent, c: char) -> (b: bool)
    ensures
        b == ctrl_matches(*key, c),
{
    let same = match key.code {
        KeyCode::Char(ch) => to_ascii_lower(ch) == to_ascii_lower(c),
        _ => false,
    };
    same && key.modifiers.contains(KeyModifiers::control())
}

} // verus!
