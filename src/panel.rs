//! A panel of text lines and labelled values, read from their sources each
//! time the panel is drawn.

use vstd::prelude::*;
use vstd::string::*;
use crate::screen::Screen;
use crate::widget::{BBox, Widget};

verus! {

/// Where a panel value comes from; asked afresh at every draw.
pub trait ValueSource {
    fn value(&self) -> String;
}

pub enum PanelItem<V> {
    Empty,
    Text(String),
    Value { label: String, source: V },
}

pub struct Panel<V> {
    items: Vec<PanelItem<V>>,
}

impl<V: ValueSource> Panel<V> {
    pub closed spec fn items_v(&self) -> Seq<PanelItem<V>> {
        self.items@
    }

    pub fn new() -> (p: Panel<V>)
        ensures
            p.items_v().len() == 0,
    {
        Panel { items: Vec::new() }
    }

    pub fn add_empty_line(&mut self)
        ensures
            final(self).items_v().len() == old(self).items_v().len() + 1,
            final(self).items_v().drop_last() == old(self).items_v(),
            final(self).items_v().last() is Empty,
    {
        self.items.push(PanelItem::Empty);
        assert(self.items@.drop_last() =~= old(self).items@);
    }

    pub fn add_text(&mut self, text: &str)
        ensures
            final(self).items_v().len() == old(self).items_v().len() + 1,
            final(self).items_v().drop_last() == old(self).items_v(),
            final(self).items_v().last() matches PanelItem::Text(t) && t@ == text@,
    {
        self.items.push(PanelItem::Text(String::from_str(text)));
        assert(self.items@.drop_last() =~= old(self).items@);
    }

    /// Adds a line `label: value`, the value read from `source` at each draw.
    pub fn add_value(&mut self, label: &str, source: V)
        ensures
            final(self).items_v().len() == old(self).items_v().len() + 1,
            final(self).items_v().drop_last() == old(self).items_v(),
            final(self).items_v().last() matches PanelItem::Value { label: l, source: s } && l@
                == label@ && s == source,
    {
        self.items.push(PanelItem::Value { label: String::from_str(label), source });
        assert(self.items@.drop_last() =~= old(self).items@);
    }
}

impl<V: ValueSource> Default for Panel<V> {
    fn default() -> (p: Panel<V>)
        ensures
            p.items_v().len() == 0,
    {
        Panel::new()
    }
}

impl<V: ValueSource> Widget for Panel<V> {
    /// One item per row from the box's top-left corner, as many as the box
    /// is tall.
    fn draw(&self, screen: &mut Screen, bbox: BBox) {
        let mut i: usize = 0;
        while i < self.items.len() && (i as u64) < bbox.h as u64
            invariant
                screen.wf(),
                screen.w() == old(screen).w(),
                screen.h() == old(screen).h(),
                screen.front_cells() == old(screen).front_cells(),
            decreases self.items@.len() - i,
        {
            let x = bbox.x as usize;
            let y = (bbox.y as u64 + i as u64) as usize;
            match &self.items[i] {
                PanelItem::Empty => {},
                PanelItem::Text(text) => {
                    screen.put_str(x, y, text.as_str());
                },
                PanelItem::Value { label, source } => {
                    let value = source.value();
                    let mut line = label.clone();
                    proof {
                        reveal_strlit(": ");
                    }
                    line.append(": ");
                    line.append(value.as_str());
                    screen.put_str(x, y, line.as_str());
                },
            }
            i += 1;
        }
    }
}

} // verus!
