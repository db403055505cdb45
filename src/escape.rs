//! The output escape vocabulary of a terminal session, and its size
//! fallback.

use vstd::prelude::*;

verus! {

pub const ALT_SCREEN_ON: &'static str = "\x1b[?1049h";

pub const ALT_SCREEN_OFF: &'static str = "\x1b[?1049l";

pub const CURSOR_HIDE: &'static str = "\x1b[?25l";

pub const CURSOR_SHOW: &'static str = "\x1b[?25h";

/// Any-motion tracking with SGR extended coordinates.
pub const MOUSE_ON: &'static str = "\x1b[?1003h\x1b[?1006h";

pub const MOUSE_OFF: &'static str = "\x1b[?1003l\x1b[?1006l";

pub const CLEAR_SCREEN: &'static str = "\x1b[2J";

pub const RESET_ATTRS: &'static str = "\x1b[0m";

pub const DEFAULT_COLUMNS: u16 = 80;

pub const DEFAULT_ROWS: u16 = 24;

/// The grid size: the terminal's reported (columns, rows), or 80 by 24 when
/// the query failed.
pub fn terminal_size(queried: Option<(u16, u16)>) -> (s: (u16, u16))
    ensures
        s == match queried {
            Some(q) => q,
            None => (DEFAULT_COLUMNS, DEFAULT_ROWS),
        },
{
    match queried {
        Some(q) => q,
        None => (DEFAULT_COLUMNS, DEFAULT_ROWS),
    }
}

} // verus!
