//! The executable decoder: one function per rule of `input`, each proved to
//! compute that rule, and the caller-owned byte buffer that `poll` feeds.

use vstd::prelude::*;
use vstd::slice::slice_subrange;
use vstd::string::*;
use vstd::utf8::*;
use crate::input::{
    alt_rule, char_rule, csi_key_code, csi_modifiers, csi_rule, decode_step, escape_rule, field, fields,
    is_param_byte, mouse_rule, push_digit, scan_params, sgr_mouse_event, ss3_key_code, ss3_rule,
    step_fits, tilde_key_code, Event, KeyCode, KeyEvent, KeyModifiers, MouseAction, MouseButton,
    MouseEvent, Step, ESC, I32_CAP, INPUT_CAPACITY, U32_CAP,
};

verus! {

proof fn lemma_fields_shape(b: Seq<u8>, cap: int)
    requires
        cap >= 0,
        forall|k: int| 0 <= k < b.len() ==> is_param_byte(#[trigger] b[k]),
    ensures
        fields(b, cap).len() >= 1,
        forall|k: int| 0 <= k < fields(b, cap).len() ==> 0 <= #[trigger] fields(b, cap)[k] <= cap,
    decreases b.len(),
{
    if b.len() > 0 {
        let p = b.drop_last();
        assert forall|k: int| 0 <= k < p.len() implies is_param_byte(#[trigger] p[k]) by {
            assert(p[k] == b[k]);
        }
        lemma_fields_shape(p, cap);
        assert(is_param_byte(b[b.len() - 1]));
    }
}

/// The first position at or after `start` that holds no parameter byte.
fn scan_param_bytes(s: &[u8], start: usize) -> (r: Option<usize>)
    ensures
        r matches Some(j) ==> scan_params(s@, start as int) == Some(j as int) && start <= j
            < s@.len(),
        r is None ==> scan_params(s@, start as int) is None,
        forall|k: int|
            start <= k < (match r {
                Some(j) => j as int,
                None => s@.len() as int,
            }) ==> is_param_byte(#[trigger] s@[k]),
{
    let mut i = start;
    while i < s.len()
        invariant
            start <= i,
            scan_params(s@, start as int) == scan_params(s@, i as int),
            forall|k: int| start <= k < i ==> is_param_byte(#[trigger] s@[k]),
        decreases s@.len() - i,
    {
        let c = s[i];
        if !((0x30 <= c && c <= 0x39) || c == 0x3b) {
            return Some(i);
        }
        i += 1;
    }
    None
}

/// Parses the first four `;`-separated decimal fields of `s[lo..hi]`, each
/// saturating at `cap`; returns them (zero where missing) and how many of the
/// four were present.
fn parse_fields(s: &[u8], lo: usize, hi: usize, cap: u32) -> (r: ([u32; 4], usize))
    requires
        lo <= hi <= s@.len(),
        forall|k: int| lo <= k < hi ==> is_param_byte(#[trigger] s@[k]),
    ensures
        r.1 as int == if fields(s@.subrange(lo as int, hi as int), cap as int).len() < 4 {
            fields(s@.subrange(lo as int, hi as int), cap as int).len() as int
        } else {
            4
        },
        forall|k: int|
            0 <= k < 4 ==> r.0@[k] as int == field(s@.subrange(lo as int, hi as int), k, cap as int),
{
    let ghost c = cap as int;
    let mut params: [u32; 4] = [0u32, 0u32, 0u32, 0u32];
    let mut idx: usize = 0;
    let mut cur: u32 = 0;
    let mut i = lo;
    proof {
        assert(s@.subrange(lo as int, lo as int) =~= Seq::<u8>::empty());
    }
    while i < hi
        invariant
            lo <= i <= hi <= s@.len(),
            forall|k: int| lo <= k < hi ==> is_param_byte(#[trigger] s@[k]),
            cur <= cap,
            c == cap as int,
            ({
                let f = fields(s@.subrange(lo as int, i as int), c);
                &&& f.len() >= 1
                &&& cur as int == f.last()
                &&& idx as int == if f.len() - 1 < 4 { f.len() - 1 } else { 4 }
                &&& forall|k: int|
                    0 <= k < 4 ==> #[trigger] params@[k] as int == if k < idx {
                        f[k]
                    } else {
                        0
                    }
            }),
        decreases hi - i,
    {
        let ghost f = fields(s@.subrange(lo as int, i as int), c);
        let ghost b1 = s@.subrange(lo as int, i as int + 1);
        proof {
            assert(b1.drop_last() =~= s@.subrange(lo as int, i as int));
            assert(b1.last() == s@[i as int]);
        }
        let d = s[i];
        assert(is_param_byte(s@[i as int]));
        let ghost cur0 = cur;
        if d == 0x3b {
            if idx < 4 {
                params[idx] = cur;
                idx += 1;
            }
            cur = 0;
        } else {
            let n: u64 = (cur as u64) * 10 + ((d - 0x30) as u64);
            assert(n as int == cur0 as int * 10 + (d - 0x30));
            if n > cap as u64 {
                cur = cap;
            } else {
                assert(n <= 0xFFFF_FFFFu64);
                cur = n as u32;
                assert(cur as int == n as int);
            }
            assert(cur as int == push_digit(cur0 as int, d, c));
        }
        i += 1;
        proof {
            let f1 = fields(s@.subrange(lo as int, i as int), c);
            assert(s@.subrange(lo as int, i as int) == b1);
            if d == 0x3b {
                assert(f1 == f.push(0));
                assert(f1.last() == 0);
            } else {
                assert(f1 == f.update(f.len() - 1, push_digit(f.last(), d, c)));
                assert(cur as int == push_digit(f.last(), d, c));
                assert(f1.last() == cur as int);
                assert(f1.len() == f.len());
            }
            assert forall|k: int| 0 <= k < 4 implies #[trigger] params@[k] as int == if k < idx {
                f1[k]
            } else {
                0
            } by {
                if d == 0x3b && k < idx {
                    assert(f1[k] == if k < f.len() { f[k] } else { 0 });
                }
            }
        }
    }
    if idx < 4 {
        params[idx] = cur;
        idx += 1;
    }
    proof {
        let b = s@.subrange(lo as int, hi as int);
        lemma_fields_shape(b, c);
    }
    (params, idx)
}

fn sgr_mouse(btn: u32, col: u32, row: u32, released: bool) -> (e: MouseEvent)
    requires
        btn <= I32_CAP,
        col <= I32_CAP,
        row <= I32_CAP,
    ensures
        e == sgr_mouse_event(btn as int, col as int, row as int, released),
{
    let base = btn % 4;
    let motion = (btn / 32) % 2 == 1;
    let scroll = (btn / 64) % 2 == 1;
    let button = if scroll {
        if base == 0 {
            MouseButton::ScrollUp
        } else {
            MouseButton::ScrollDown
        }
    } else if base == 0 {
        MouseButton::Left
    } else if base == 1 {
        MouseButton::Middle
    } else if base == 2 {
        MouseButton::Right
    } else {
        MouseButton::NoButton
    };
    let action = if scroll {
        MouseAction::Press
    } else if motion {
        if base == 3 {
            MouseAction::Move
        } else {
            MouseAction::Drag
        }
    } else if released {
        MouseAction::Release
    } else {
        MouseAction::Press
    };
    MouseEvent {
        button,
        action,
        x: (col as i32) - 1,
        y: (row as i32) - 1,
        modifiers: KeyModifiers(((btn / 4) % 8) as u8),
    }
}

fn mouse_step(s: &[u8]) -> (r: Option<Step>)
    ensures
        r == mouse_rule(s@),
        r matches Some(st) ==> step_fits(st, s@.len() as int),
{
    if !(s.len() >= 3 && s[0] == ESC && s[1] == 0x5b && s[2] == 0x3c) {
        return None;
    }
    match scan_param_bytes(s, 3) {
        None => Some(Step::Wait),
        Some(j) => {
            if s[j] == 0x4d || s[j] == 0x6d {
                let (p, _n) = parse_fields(s, 3, j, I32_CAP);
                proof {
                    lemma_fields_shape(s@.subrange(3, j as int), I32_CAP as int);
                }
                let e = sgr_mouse(p[0], p[1], p[2], s[j] == 0x6d);
                Some(Step::Emit(Event::Mouse(e), j + 1))
            } else {
                None
            }
        },
    }
}

fn tilde_key(n: u32) -> (r: Option<KeyCode>)
    ensures
        r == tilde_key_code(n as int),
{
    match n {
        1 => Some(KeyCode::Home),
        2 => Some(KeyCode::Insert),
        3 => Some(KeyCode::Delete),
        4 => Some(KeyCode::End),
        5 => Some(KeyCode::PageUp),
        6 => Some(KeyCode::PageDown),
        11..=15 => Some(KeyCode::F((n - 10) as u8)),
        17..=21 => Some(KeyCode::F((n - 11) as u8)),
        23 | 24 => Some(KeyCode::F((n - 12) as u8)),
        _ => None,
    }
}

fn csi_key(fin: u8, first: u32) -> (r: Option<KeyCode>)
    ensures
        r == csi_key_code(fin, first as int),
{
    match fin {
        0x41 => Some(KeyCode::Up),
        0x42 => Some(KeyCode::Down),
        0x43 => Some(KeyCode::Right),
        0x44 => Some(KeyCode::Left),
        0x48 => Some(KeyCode::Home),
        0x46 => Some(KeyCode::End),
        0x7e => tilde_key(first),
        _ => None,
    }
}

fn csi_step(s: &[u8]) -> (r: Option<Step>)
    ensures
        r == csi_rule(s@),
        r matches Some(st) ==> step_fits(st, s@.len() as int),
{
    if !(s.len() >= 2 && s[0] == ESC && s[1] == 0x5b) {
        return None;
    }
    match scan_param_bytes(s, 2) {
        None => Some(Step::Wait),
        Some(j) => {
            let fin = s[j];
            if 0x40 <= fin && fin <= 0x7e {
                let (p, n) = parse_fields(s, 2, j, U32_CAP);
                let ghost b = s@.subrange(2, j as int);
                proof {
                    lemma_fields_shape(b, U32_CAP as int);
                }
                let mods: u8 = if n >= 2 && p[1] > 1 {
                    ((p[1] - 1) % 8) as u8
                } else {
                    0
                };
                assert(mods == csi_modifiers(b));
                match csi_key(fin, p[0]) {
                    Some(code) => Some(
                        Step::Emit(Event::Key(KeyEvent { code, modifiers: KeyModifiers(mods) }), j + 1),
                    ),
                    None => Some(Step::Discard(j + 1)),
                }
            } else {
                None
            }
        },
    }
}

fn ss3_key(c: u8) -> (r: Option<KeyCode>)
    ensures
        r == ss3_key_code(c),
{
    match c {
        0x50 => Some(KeyCode::F(1)),
        0x51 => Some(KeyCode::F(2)),
        0x52 => Some(KeyCode::F(3)),
        0x53 => Some(KeyCode::F(4)),
        0x41 => Some(KeyCode::Up),
        0x42 => Some(KeyCode::Down),
        0x43 => Some(KeyCode::Right),
        0x44 => Some(KeyCode::Left),
        0x48 => Some(KeyCode::Home),
        0x46 => Some(KeyCode::End),
        _ => None,
    }
}

fn ss3_step(s: &[u8]) -> (r: Option<Step>)
    ensures
        r == ss3_rule(s@),
        r matches Some(st) ==> step_fits(st, s@.len() as int),
{
    if !(s.len() >= 2 && s[0] == ESC && s[1] == 0x4f) {
        return None;
    }
    if s.len() < 3 {
        return Some(Step::Wait);
    }
    match ss3_key(s[2]) {
        Some(code) => Some(
            Step::Emit(Event::Key(KeyEvent { code, modifiers: KeyModifiers(0) }), 3),
        ),
        None => None,
    }
}

fn alt_step(s: &[u8]) -> (r: Option<Step>)
    ensures
        r == alt_rule(s@),
        r matches Some(st) ==> step_fits(st, s@.len() as int),
{
    if !(s.len() >= 2 && s[0] == ESC && s[1] != 0x5b && s[1] != 0x4f) {
        return None;
    }
    let c = s[1];
    if 1 <= c && c <= 26 {
        let code = KeyCode::Char((0x60 + c) as char);
        Some(Step::Emit(Event::Key(KeyEvent { code, modifiers: KeyModifiers(6) }), 2))
    } else if 32 <= c && c <= 126 {
        let code = KeyCode::Char(c as char);
        Some(Step::Emit(Event::Key(KeyEvent { code, modifiers: KeyModifiers(2) }), 2))
    } else {
        None
    }
}

fn escape_step(s: &[u8]) -> (r: Option<Step>)
    ensures
        r == escape_rule(s@),
        r matches Some(st) ==> step_fits(st, s@.len() as int),
{
    if s.len() == 1 && s[0] == ESC {
        Some(Step::Emit(Event::Key(KeyEvent { code: KeyCode::Escape, modifiers: KeyModifiers(0) }), 1))
    } else {
        None
    }
}

fn char_step(s: &[u8]) -> (r: Option<Step>)
    ensures
        r == char_rule(s@),
        r matches Some(st) ==> step_fits(st, s@.len() as int),
{
    if s.len() == 0 {
        return None;
    }
    let c = s[0];
    let none = KeyModifiers(0);
    if c == 9 {
        Some(Step::Emit(Event::Key(KeyEvent { code: KeyCode::Tab, modifiers: none }), 1))
    } else if c == 10 || c == 13 {
        Some(Step::Emit(Event::Key(KeyEvent { code: KeyCode::Enter, modifiers: none }), 1))
    } else if c == 127 {
        Some(Step::Emit(Event::Key(KeyEvent { code: KeyCode::Backspace, modifiers: none }), 1))
    } else if 1 <= c && c <= 26 {
        let code = KeyCode::Char((0x60 + c) as char);
        Some(Step::Emit(Event::Key(KeyEvent { code, modifiers: KeyModifiers(4) }), 1))
    } else if 32 <= c && c <= 126 {
        Some(Step::Emit(Event::Key(KeyEvent { code: KeyCode::Char(c as char), modifiers: none }), 1))
    } else if c >= 0x80 {
        let w: usize = if 0xc0 <= c && c <= 0xdf {
            2
        } else if 0xe0 <= c && c <= 0xef {
            3
        } else if 0xf0 <= c && c <= 0xf7 {
            4
        } else {
            1
        };
        if s.len() < w {
            return Some(Step::Wait);
        }
        let bytes = slice_subrange(s, 0, w);
        assert(bytes@ == s@.take(w as int));
        match core::str::from_utf8(bytes) {
            Ok(st) => {
                proof {
                    encode_utf8_decode_utf8(st@);
                    if st@.len() == 0 {
                        assert(encode_utf8(st@) =~= Seq::<u8>::empty());
                    }
                }
                let ch = st.get_char(0);
                Some(Step::Emit(Event::Key(KeyEvent { code: KeyCode::Char(ch), modifiers: none }), w))
            },
            Err(_) => Some(Step::Discard(1)),
        }
    } else {
        None
    }
}

/// Decodes the unread bytes `s`: the first rule that applies, in priority
/// order (SGR mouse, CSI key, SS3, alt-prefixed, bare escape, plain/UTF-8),
/// or else one byte dropped.
pub fn decode(s: &[u8]) -> (r: Step)
    ensures
        r == decode_step(s@),
        step_fits(r, s@.len() as int),
{
    if s.len() == 0 {
        return Step::Wait;
    }
    if let Some(st) = mouse_step(s) {
        return st;
    }
    if let Some(st) = csi_step(s) {
        return st;
    }
    if let Some(st) = ss3_step(s) {
        return st;
    }
    if let Some(st) = alt_step(s) {
        return st;
    }
    if let Some(st) = escape_step(s) {
        return st;
    }
    if let Some(st) = char_step(s) {
        return st;
    }
    Step::Discard(1)
}

/// The decoder's byte buffer: bytes are appended behind the read position
/// and consumed from it. Its view is the unread bytes.
pub struct InputBuffer {
    buf: [u8; 64],
    len: usize,
    pos: usize,
}

impl View for InputBuffer {
    type V = Seq<u8>;

    closed spec fn view(&self) -> Seq<u8> {
        self.buf@.subrange(self.pos as int, self.len as int)
    }
}

/// The unread bytes after appending to `unread` as many of `incoming` as fit.
pub open spec fn fed(unread: Seq<u8>, incoming: Seq<u8>) -> Seq<u8> {
    let room = INPUT_CAPACITY - unread.len();
    unread + incoming.take(if incoming.len() < room { incoming.len() as int } else { room })
}

/// The event that one poll reports on unread bytes `s`, and the bytes left
/// unread afterwards. Bytes that may start a longer sequence are kept, unless
/// they fill the whole buffer: then one is dropped so that input never stalls.
pub open spec fn poll_outcome(s: Seq<u8>) -> (Option<Event>, Seq<u8>) {
    match decode_step(s) {
        Step::Emit(e, n) => (Some(e), s.skip(n as int)),
        Step::Discard(n) => (None, s.skip(n as int)),
        Step::Wait => if s.len() >= INPUT_CAPACITY {
            (None, s.skip(1))
        } else {
            (None, s)
        },
    }
}

impl InputBuffer {
    pub closed spec fn wf(&self) -> bool {
        self.pos <= self.len <= INPUT_CAPACITY
    }

    pub proof fn lemma_capacity(&self)
        requires
            self.wf(),
        ensures
            self@.len() <= INPUT_CAPACITY,
    {
    }

    pub fn new() -> (r: InputBuffer)
        ensures
            r.wf(),
            r@ == Seq::<u8>::empty(),
    {
        let r = InputBuffer { buf: [0u8; 64], len: 0, pos: 0 };
        assert(r@ =~= Seq::<u8>::empty());
        r
    }

    /// The number of unread bytes.
    pub fn remaining(&self) -> (n: usize)
        requires
            self.wf(),
        ensures
            n == self@.len(),
    {
        self.len - self.pos
    }

    /// How many bytes the next `fill` can take.
    pub fn free_space(&self) -> (n: usize)
        requires
            self.wf(),
        ensures
            n == INPUT_CAPACITY - self@.len(),
    {
        INPUT_CAPACITY - (self.len - self.pos)
    }

    pub fn unread(&self) -> (s: &[u8])
        requires
            self.wf(),
        ensures
            s@ == self@,
    {
        slice_subrange(self.buf.as_slice(), self.pos, self.len)
    }

    /// Moves the unread bytes to the start of the buffer.
    fn compact(&mut self)
        requires
            old(self).wf(),
        ensures
            final(self).wf(),
            final(self)@ == old(self)@,
            final(self).pos == 0,
    {
        let n = self.len - self.pos;
        let mut i: usize = 0;
        while i < n
            invariant
                self.pos <= self.len <= INPUT_CAPACITY,
                n == self.len - self.pos,
                i <= n,
                self.pos == old(self).pos,
                self.len == old(self).len,
                forall|k: int| 0 <= k < i ==> self.buf@[k] == old(self)@[k],
                forall|k: int| self.pos + i <= k < self.len ==> self.buf@[k] == old(self).buf@[k],
            decreases n - i,
        {
            let b = self.buf[self.pos + i];
            self.buf[i] = b;
            i += 1;
        }
        self.len = n;
        self.pos = 0;
        assert(self@ =~= old(self)@);
    }

    /// Compacts the buffer, then appends as many of `bytes` as fit; returns
    /// how many were taken.
    pub fn fill(&mut self, bytes: &[u8]) -> (n: usize)
        requires
            old(self).wf(),
        ensures
            final(self).wf(),
            final(self)@ == fed(old(self)@, bytes@),
            n == final(self)@.len() - old(self)@.len(),
    {
        self.compact();
        let room = INPUT_CAPACITY - self.len;
        let n = if bytes.len() < room {
            bytes.len()
        } else {
            room
        };
        let start = self.len;
        let mut i: usize = 0;
        while i < n
            invariant
                self.pos == 0,
                start == self.len,
                start + n <= INPUT_CAPACITY,
                n <= bytes@.len(),
                i <= n,
                forall|k: int| 0 <= k < start ==> self.buf@[k] == old(self)@[k],
                forall|k: int| 0 <= k < i ==> self.buf@[start + k] == bytes@[k],
                start == old(self)@.len(),
            decreases n - i,
        {
            self.buf[start + i] = bytes[i];
            i += 1;
        }
        self.len = start + n;
        assert(self@ =~= fed(old(self)@, bytes@));
        n
    }

    /// Drops the next `n` unread bytes.
    pub fn consume(&mut self, n: usize)
        requires
            old(self).wf(),
            n <= old(self)@.len(),
        ensures
            final(self).wf(),
            final(self)@ == old(self)@.skip(n as int),
    {
        self.pos = self.pos + n;
        assert(self@ =~= old(self)@.skip(n as int));
    }
}

/// Appends as many of `incoming` as fit to the unread bytes, then decodes at
/// most one event. Never blocks, never fails: a read that produced nothing is
/// an empty `incoming`.
pub fn poll(ib: &mut InputBuffer, incoming: &[u8]) -> (r: Option<Event>)
    requires
        old(ib).wf(),
    ensures
        final(ib).wf(),
        r == poll_outcome(fed(old(ib)@, incoming@)).0,
        final(ib)@ == poll_outcome(fed(old(ib)@, incoming@)).1,
{
    ib.fill(incoming);
    proof {
        ib.lemma_capacity();
    }
    let st = decode(ib.unread());
    match st {
        Step::Emit(e, n) => {
            ib.consume(n);
            Some(e)
        },
        Step::Discard(n) => {
            ib.consume(n);
            None
        },
        Step::Wait => {
            if ib.remaining() >= INPUT_CAPACITY {
                ib.consume(1);
            }
            None
        },
    }
}

proof fn lemma_scan_params(s: Seq<u8>, i: int, j: int)
    requires
        0 <= i <= j <= s.len(),
        forall|k: int| i <= k < j ==> is_param_byte(#[trigger] s[k]),
    ensures
        j < s.len() && !is_param_byte(s[j]) ==> scan_params(s, i) == Some(j),
        j == s.len() ==> scan_params(s, i) is None,
    decreases j - i,
{
    if i < j {
        lemma_scan_params(s, i + 1, j);
    }
}

/// A printable ASCII byte on its own is that character, without modifiers.
pub proof fn lemma_printable_byte(c: u8)
    requires
        32 <= c <= 126,
    ensures
        poll_outcome(fed(Seq::empty(), seq![c])) == (
            Some(Event::Key(KeyEvent { code: KeyCode::Char(c as char), modifiers: KeyModifiers(0) })),
            Seq::<u8>::empty(),
        ),
{
    let s = fed(Seq::empty(), seq![c]);
    assert(s =~= seq![c]);
    assert(s.skip(1) =~= Seq::<u8>::empty());
}

/// A CSI key sequence that arrives in two reads, split anywhere after its
/// `ESC [`, gives no event and loses no byte on the first read, and its key
/// once the rest has arrived.
pub proof fn lemma_csi_split_read(b: Seq<u8>, fin: u8, k: int)
    requires
        forall|i: int| 0 <= i < b.len() ==> is_param_byte(#[trigger] b[i]),
        0x40 <= fin <= 0x7e,
        csi_key_code(fin, field(b, 0, U32_CAP as int)) is Some,
        2 <= k < b.len() + 3,
        b.len() + 3 <= INPUT_CAPACITY,
    ensures
        ({
            let s = seq![ESC, 0x5bu8] + b + seq![fin];
            &&& poll_outcome(s.take(k)) == (None::<Event>, s.take(k))
            &&& poll_outcome(s) == (
                Some(
                    Event::Key(
                        KeyEvent {
                            code: csi_key_code(fin, field(b, 0, U32_CAP as int)).unwrap(),
                            modifiers: KeyModifiers(csi_modifiers(b)),
                        },
                    ),
                ),
                Seq::<u8>::empty(),
            )
        }),
{
    let s = seq![ESC, 0x5bu8] + b + seq![fin];
    let p = s.take(k);
    assert forall|i: int| 2 <= i < p.len() implies is_param_byte(#[trigger] p[i]) by {
        assert(p[i] == b[i - 2]);
    }
    lemma_scan_params(p, 2, p.len() as int);
    assert forall|i: int| 2 <= i < b.len() + 2 implies is_param_byte(#[trigger] s[i]) by {
        assert(s[i] == b[i - 2]);
    }
    lemma_scan_params(s, 2, b.len() + 2 as int);
    assert(s.subrange(2, b.len() + 2 as int) =~= b);
    assert(s.skip(b.len() + 3 as int) =~= Seq::<u8>::empty());
    if b.len() > 0 {
        assert(s[2] == b[0]);
    }
    if k >= 3 && b.len() > 0 {
        assert(p[2] == b[0]);
    }
}

/// A CSI sequence whose final byte (or `~` code) names no key is consumed
/// whole without an event, and the bytes after it are left to be decoded
/// on their own.
pub proof fn lemma_unknown_csi_skipped(b: Seq<u8>, fin: u8, rest: Seq<u8>)
    requires
        forall|i: int| 0 <= i < b.len() ==> is_param_byte(#[trigger] b[i]),
        0x40 <= fin <= 0x7e,
        csi_key_code(fin, field(b, 0, U32_CAP as int)) is None,
        b.len() + 3 + rest.len() <= INPUT_CAPACITY,
    ensures
        ({
            let s = seq![ESC, 0x5bu8] + b + seq![fin] + rest;
            &&& decode_step(s) == Step::Discard((b.len() + 3) as usize)
            &&& poll_outcome(s) == (None::<Event>, rest)
        }),
{
    let s = seq![ESC, 0x5bu8] + b + seq![fin] + rest;
    assert forall|i: int| 2 <= i < b.len() + 2 implies is_param_byte(#[trigger] s[i]) by {
        assert(s[i] == b[i - 2]);
    }
    assert(s[b.len() + 2 as int] == fin);
    lemma_scan_params(s, 2, b.len() + 2 as int);
    assert(s.subrange(2, b.len() + 2 as int) =~= b);
    assert(s.skip(b.len() + 3 as int) =~= rest);
    if b.len() > 0 {
        assert(s[2] == b[0]);
    }
}

} // verus!
