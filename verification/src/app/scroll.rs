//! Scrolling the chat: the offset counts lines up from the bottom, and the
//! view follows new output while it is at the bottom.
use vstd::prelude::*;

use super::App;

verus! {

/// `a + b`, or the largest `u32` when it does not fit.
pub open spec fn sat_add(a: u32, b: u32) -> u32 {
    if a + b > u32::MAX {
        u32::MAX
    } else {
        (a + b) as u32
    }
}

/// Half the viewport, at least one line.
pub open spec fn half_page(viewport_height: u32) -> u32 {
    if viewport_height / 2 >= 1 {
        (viewport_height / 2) as u32
    } else {
        1
    }
}

/// The fields that scrolling leaves alone.
pub open spec fn same_but_scroll(a: &App, b: &App) -> bool {
    &&& a.messages == b.messages
    &&& a.viewport_height == b.viewport_height
    &&& a.streaming == b.streaming
    &&& a.tree == b.tree
    &&& a.plan == b.plan
}

impl App {
    pub fn scroll_up(&mut self)
        ensures
            final(self).scroll_offset == sat_add(old(self).scroll_offset, 1),
            !final(self).auto_scroll,
            same_but_scroll(&*final(self), &*old(self)),
    {
        self.scroll_offset = self.scroll_offset.saturating_add(1);
        self.auto_scroll = false;
    }

    pub fn scroll_down(&mut self)
        ensures
            old(self).scroll_offset > 0 ==> final(self).scroll_offset == old(self).scroll_offset - 1,
            old(self).scroll_offset == 0 ==> final(self).scroll_offset == 0,
            final(self).auto_scroll == (old(self).auto_scroll || old(self).scroll_offset == 1),
            same_but_scroll(&*final(self), &*old(self)),
    {
        if self.scroll_offset > 0 {
            self.scroll_offset -= 1;
            if self.scroll_offset == 0 {
                self.auto_scroll = true;
            }
        }
    }

    pub fn scroll_to_bottom(&mut self)
        ensures
            final(self).auto_scroll,
            final(self).scroll_offset == 0,
            same_but_scroll(&*final(self), &*old(self)),
    {
        self.auto_scroll = true;
        self.scroll_offset = 0;
    }

    fn half_page_exec(&self) -> (r: u32)
        ensures
            r == half_page(self.viewport_height),
    {
        let half = self.viewport_height / 2;
        if half >= 1 {
            half
        } else {
            1
        }
    }

    pub fn scroll_page_up(&mut self)
        ensures
            final(self).scroll_offset == sat_add(
                old(self).scroll_offset,
                half_page(old(self).viewport_height),
            ),
            !final(self).auto_scroll,
            same_but_scroll(&*final(self), &*old(self)),
    {
        let half = self.half_page_exec();
        self.scroll_offset = self.scroll_offset.saturating_add(half);
        self.auto_scroll = false;
    }

    pub fn scroll_page_down(&mut self)
        ensures
            final(self).scroll_offset == if old(self).scroll_offset > half_page(
                old(self).viewport_height,
            ) {
                (old(self).scroll_offset - half_page(old(self).viewport_height)) as u32
            } else {
                0
            },
            final(self).auto_scroll == (old(self).auto_scroll || final(self).scroll_offset == 0),
            same_but_scroll(&*final(self), &*old(self)),
    {
        let half = self.half_page_exec();
        self.scroll_offset = self.scroll_offset.saturating_sub(half);
        if self.scroll_offset == 0 {
            self.auto_scroll = true;
        }
    }
}

} // verus!
