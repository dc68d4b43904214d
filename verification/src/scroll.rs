//! Scroll position bookkeeping for a widget: a position clamped to the
//! content that does not fit in the view port.

use vstd::prelude::*;

verus! {

pub struct Scroll {
    pub scroll: usize,
    pub content_length: usize,
    pub view_port_height: usize,
}

impl Scroll {
    /// The lowest position: how much content lies beyond the view
    /// port.
    pub open spec fn spec_bottom(&self) -> int {
        if self.content_length >= self.view_port_height {
            self.content_length - self.view_port_height
        } else {
            0
        }
    }

    pub fn new() -> (r: Scroll)
        ensures
            r.scroll == 0,
            r.content_length == 0,
            r.view_port_height == 0,
    {
        Scroll { scroll: 0, content_length: 0, view_port_height: 0 }
    }

    pub fn set_position(&mut self, position: usize)
        ensures
            final(self).scroll == position,
            final(self).content_length == old(self).content_length,
            final(self).view_port_height == old(self).view_port_height,
    {
        self.scroll = position;
    }

    /// Moves the position by `offset`, kept within `0..=content_length`.
    pub fn offset(&mut self, offset: i32)
        ensures
            final(self).content_length == old(self).content_length,
            final(self).view_port_height == old(self).view_port_height,
            final(self).scroll == if old(self).scroll + offset < 0 {
                0
            } else if old(self).scroll + offset > old(self).content_length {
                old(self).content_length as int
            } else {
                old(self).scroll + offset
            },
    {
        let target: i128 = self.scroll as i128 + offset as i128;
        let limit: i128 = self.content_length as i128;
        let clamped: i128 = if target < 0 {
            0
        } else if target > limit {
            limit
        } else {
            target
        };
        self.scroll = clamped as usize;
    }

    pub fn set_content_length(&mut self, content_length: usize)
        ensures
            final(self).content_length == content_length,
            final(self).view_port_height == old(self).view_port_height,
            final(self).scroll == if old(self).scroll <= final(self).spec_bottom() {
                old(self).scroll as int
            } else {
                final(self).spec_bottom()
            },
    {
        self.content_length = content_length;
        self.clamp();
    }

    pub fn set_view_port_height(&mut self, view_port_size: usize)
        ensures
            final(self).view_port_height == view_port_size,
            final(self).content_length == old(self).content_length,
            final(self).scroll == if old(self).scroll <= final(self).spec_bottom() {
                old(self).scroll as int
            } else {
                final(self).spec_bottom()
            },
    {
        self.view_port_height = view_port_size;
        self.clamp();
    }

    /// Pulls the position back into range.
    pub fn clamp(&mut self)
        ensures
            final(self).content_length == old(self).content_length,
            final(self).view_port_height == old(self).view_port_height,
            final(self).scroll == if old(self).scroll <= old(self).spec_bottom() {
                old(self).scroll as int
            } else {
                old(self).spec_bottom()
            },
    {
        let b = self.bottom();
        if self.scroll > b {
            self.scroll = b;
        }
    }

    fn bottom(&self) -> (r: usize)
        ensures
            r == self.spec_bottom(),
    {
        if self.content_length >= self.view_port_height {
            self.content_length - self.view_port_height
        } else {
            0
        }
    }

    pub fn to_bottom(&mut self)
        ensures
            final(self).content_length == old(self).content_length,
            final(self).view_port_height == old(self).view_port_height,
            final(self).scroll == old(self).spec_bottom(),
    {
        let b = self.bottom();
        self.set_position(b);
    }
}

} // verus!
