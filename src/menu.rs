//! A vertical menu: entries, separators, a selection that skips what cannot
//! be selected, and an action per entry that the caller carries out.

use vstd::prelude::*;
use vstd::string::*;
use crate::cell::Color;
use crate::screen::Screen;

verus! {

/// A menu line: a name (none for a separator), whether it can be selected,
/// and the action that selecting it asks for.
pub struct Entry<A> {
    pub name: Option<String>,
    pub selectable: bool,
    pub action: Option<A>,
}

pub struct Menu<A> {
    entries: Vec<Entry<A>>,
    selected: i32,
}

/// The first selectable index at or after `i`.
pub open spec fn next_selectable<A>(es: Seq<Entry<A>>, i: int) -> Option<int>
    decreases es.len() - i,
{
    if i < 0 || i >= es.len() {
        None
    } else if es[i].selectable {
        Some(i)
    } else {
        next_selectable(es, i + 1)
    }
}

/// The last selectable index before `i`.
pub open spec fn prev_selectable<A>(es: Seq<Entry<A>>, i: int) -> Option<int>
    decreases i,
{
    if i <= 0 || i > es.len() {
        None
    } else if es[i - 1].selectable {
        Some(i - 1)
    } else {
        prev_selectable(es, i - 1)
    }
}

impl<A: Copy> Menu<A> {
    pub closed spec fn entries_v(&self) -> Seq<Entry<A>> {
        self.entries@
    }

    /// The selected index, or -1 while nothing is selected.
    pub closed spec fn selected_v(&self) -> int {
        self.selected as int
    }

    pub open spec fn wf(&self) -> bool {
        &&& self.entries_v().len() < i32::MAX
        &&& -1 <= self.selected_v() < self.entries_v().len()
    }

    pub fn new() -> (m: Menu<A>)
        ensures
            m.wf(),
            m.entries_v().len() == 0,
            m.selected_v() == -1,
    {
        Menu { entries: Vec::new(), selected: -1 }
    }

    /// Appends an entry; the first selectable one becomes selected.
    pub fn add_entry(&mut self, name: &str, selectable: bool, action: Option<A>)
        requires
            old(self).wf(),
            old(self).entries_v().len() + 1 < i32::MAX,
        ensures
            final(self).wf(),
            final(self).entries_v().len() == old(self).entries_v().len() + 1,
            final(self).entries_v().drop_last() == old(self).entries_v(),
            final(self).entries_v().last().name matches Some(n) && n@ == name@,
            final(self).entries_v().last().selectable == selectable,
            final(self).entries_v().last().action == action,
            final(self).selected_v() == if selectable && old(self).selected_v() < 0 {
                old(self).entries_v().len() as int
            } else {
                old(self).selected_v()
            },
    {
        self.entries.push(Entry { name: Some(String::from_str(name)), selectable, action });
        if selectable && self.selected < 0 {
            self.selected = (self.entries.len() - 1) as i32;
        }
        assert(self.entries@.drop_last() =~= old(self).entries@);
    }

    /// Appends a separator: no name, not selectable, no action.
    pub fn add_separator(&mut self)
        requires
            old(self).wf(),
            old(self).entries_v().len() + 1 < i32::MAX,
        ensures
            final(self).wf(),
            final(self).entries_v().len() == old(self).entries_v().len() + 1,
            final(self).entries_v().drop_last() == old(self).entries_v(),
            final(self).entries_v().last().name is None,
            !final(self).entries_v().last().selectable,
            final(self).entries_v().last().action is None,
            final(self).selected_v() == old(self).selected_v(),
    {
        self.entries.push(Entry { name: None, selectable: false, action: None });
        assert(self.entries@.drop_last() =~= old(self).entries@);
    }

    /// Selects the nearest selectable entry above; with nothing selected, the
    /// first selectable entry. Stays put where there is none.
    pub fn move_up(&mut self)
        requires
            old(self).wf(),
        ensures
            final(self).wf(),
            final(self).entries_v() == old(self).entries_v(),
            final(self).selected_v() == match (if old(self).selected_v() < 0 {
                next_selectable(old(self).entries_v(), 0)
            } else {
                prev_selectable(old(self).entries_v(), old(self).selected_v())
            }) {
                Some(i) => i,
                None => old(self).selected_v(),
            },
    {
        if self.selected < 0 {
            let mut i: usize = 0;
            while i < self.entries.len()
                invariant
                    i <= self.entries@.len(),
                    self.entries == old(self).entries,
                    self.selected == old(self).selected,
                    old(self).wf(),
                    old(self).selected_v() < 0,
                    next_selectable(self.entries@, 0) == next_selectable(self.entries@, i as int),
                decreases self.entries@.len() - i,
            {
                if self.entries[i].selectable {
                    assert(next_selectable(self.entries@, i as int) == Some(i as int));
                    self.selected = i as i32;
                    return;
                }
                i += 1;
            }
            assert(next_selectable(self.entries@, i as int) is None);
        } else {
            let mut i: usize = self.selected as usize;
            while i > 0
                invariant
                    0 <= i <= old(self).selected_v(),
                    old(self).selected_v() >= 0,
                    self.entries == old(self).entries,
                    self.selected == old(self).selected,
                    old(self).wf(),
                    prev_selectable(self.entries@, old(self).selected_v()) == prev_selectable(
                        self.entries@,
                        i as int,
                    ),
                decreases i,
            {
                if self.entries[i - 1].selectable {
                    assert(prev_selectable(self.entries@, i as int) == Some(i - 1));
                    self.selected = (i - 1) as i32;
                    return;
                }
                i -= 1;
            }
            assert(prev_selectable(self.entries@, i as int) is None);
        }
    }

    /// Selects the nearest selectable entry below (the first one when
    /// nothing is selected). Stays put where there is none.
    pub fn move_down(&mut self)
        requires
            old(self).wf(),
        ensures
            final(self).wf(),
            final(self).entries_v() == old(self).entries_v(),
            final(self).selected_v() == match next_selectable(
                old(self).entries_v(),
                old(self).selected_v() + 1,
            ) {
                Some(i) => i,
                None => old(self).selected_v(),
            },
    {
        let mut i: usize = (self.selected + 1) as usize;
        while i < self.entries.len()
            invariant
                i <= self.entries@.len(),
                i >= old(self).selected_v() + 1,
                self.entries == old(self).entries,
                self.selected == old(self).selected,
                old(self).wf(),
                next_selectable(self.entries@, old(self).selected_v() + 1) == next_selectable(
                    self.entries@,
                    i as int,
                ),
            decreases self.entries@.len() - i,
        {
            if self.entries[i].selectable {
                self.selected = i as i32;
                return;
            }
            i += 1;
        }
    }

    /// The action of the selected entry, for the caller to carry out.
    pub fn select(&self) -> (a: Option<A>)
        requires
            self.wf(),
        ensures
            a == if self.selected_v() >= 0 {
                self.entries_v()[self.selected_v()].action
            } else {
                None
            },
    {
        if self.selected >= 0 && (self.selected as usize) < self.entries.len() {
            self.entries[self.selected as usize].action
        } else {
            None
        }
    }

    /// Draws the entries centered on the screen: selectable names in white,
    /// others in gray, and a yellow `<` after the selected one.
    pub fn draw_on(&self, screen: &mut Screen)
        requires
            self.wf(),
            old(screen).wf(),
        ensures
            final(screen).wf(),
            final(screen).w() == old(screen).w(),
            final(screen).h() == old(screen).h(),
            final(screen).front_cells() == old(screen).front_cells(),
    {
        let mut max_len: usize = 0;
        let mut any = false;
        let mut i: usize = 0;
        while i < self.entries.len()
            invariant
                i <= self.entries@.len(),
                max_len <= usize::MAX - 2,
            decreases self.entries@.len() - i,
        {
            if let Some(name) = &self.entries[i].name {
                let l = name.as_str().len();
                let l2 = if l > usize::MAX - 4 { usize::MAX - 2 } else { l + 2 };
                if !any || l2 > max_len {
                    max_len = l2;
                }
                any = true;
            }
            i += 1;
        }
        if !any {
            max_len = 10;
        }
        let start_x = (if screen.width() > max_len { screen.width() - max_len } else { 0 }) / 2;
        let n = self.entries.len();
        let start_y = (if screen.height() > n { screen.height() - n } else { 0 }) / 2;
        let mut i: usize = 0;
        while i < n
            invariant
                n == self.entries@.len(),
                i <= n,
                self.wf(),
                screen.wf(),
                screen.w() == old(screen).w(),
                screen.h() == old(screen).h(),
                screen.front_cells() == old(screen).front_cells(),
                start_y <= usize::MAX / 2,
                start_x <= usize::MAX / 2,
            decreases n - i,
        {
            let y = start_y + i;
            if let Some(name) = &self.entries[i].name {
                let text = name.as_str();
                screen.put_str(start_x, y, text);
                let fg = if self.entries[i].selectable { Color::white() } else { Color::gray() };
                let len = text.len();
                let mut j: usize = 0;
                while j < len && len < usize::MAX / 2
                    invariant
                        start_x <= usize::MAX / 2,
                        screen.wf(),
                        screen.w() == old(screen).w(),
                        screen.h() == old(screen).h(),
                        screen.front_cells() == old(screen).front_cells(),
                    decreases len - j,
                {
                    screen.set_fg_color(start_x + j, y, fg);
                    j += 1;
                }
                if i as i32 == self.selected && len < usize::MAX / 2 {
                    let ix = start_x + len + 1;
                    proof {
                        reveal_strlit("<");
                    }
                    screen.put_str(ix, y, "<");
                    screen.set_fg_color(ix, y, Color::yellow());
                }
            }
            i += 1;
        }
    }
}

impl<A: Copy> Default for Menu<A> {
    fn default() -> (m: Menu<A>)
        ensures
            m.wf(),
            m.entries_v().len() == 0,
            m.selected_v() == -1,
    {
        Menu::new()
    }
}

} // verus!
