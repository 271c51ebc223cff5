//! Vertical scrolling state of a view taller than its viewport.

use vstd::prelude::*;
use crate::xy::Vec2;

verus! {

/// Which lines of the content are shown, and whether the scrollbar thumb is
/// being dragged.
#[derive(Clone, Copy, Debug)]
pub struct ScrollBase {
    /// First content line shown.
    pub start_line: usize,
    /// Number of lines of content.
    pub content_height: usize,
    /// Number of lines that fit in the viewport.
    pub view_height: usize,
    /// Whether the scrollbar thumb is held.
    pub dragging: bool,
}

/// `sb` after scrolling as little as possible to show line `y`: up to it if
/// it is above the viewport, down until it is the last line shown if it is
/// below (no further than the last start line).
pub open spec fn scrolled_to(sb: ScrollBase, y: int) -> ScrollBase {
    let start = if y < sb.start_line {
        y
    } else if y >= sb.start_line + sb.view_height && y + 1 - sb.view_height <= sb.max_start() {
        y + 1 - sb.view_height
    } else if y >= sb.start_line + sb.view_height {
        sb.max_start()
    } else {
        sb.start_line as int
    };
    ScrollBase { start_line: start as usize, ..sb }
}

/// `sb` with new heights, its first line brought back in range.
pub open spec fn with_heights(sb: ScrollBase, view_height: usize, content_height: usize) -> ScrollBase {
    let t = ScrollBase { view_height, content_height, ..sb };
    ScrollBase {
        start_line: if sb.start_line <= t.max_start() {
            sb.start_line
        } else {
            t.max_start() as usize
        },
        ..t
    }
}

impl ScrollBase {
    /// Largest first line that still fills the viewport.
    pub open spec fn max_start(&self) -> int {
        if self.content_height > self.view_height {
            self.content_height - self.view_height
        } else {
            0
        }
    }

    pub open spec fn wf(&self) -> bool {
        self.start_line <= self.max_start()
    }

    /// Nothing to scroll yet.
    pub fn new() -> (r: ScrollBase)
        ensures
            r.wf(),
            r.start_line == 0,
            r.content_height == 0,
            r.view_height == 0,
            !r.dragging,
    {
        ScrollBase { start_line: 0, content_height: 0, view_height: 0, dragging: false }
    }

    /// Sets the two heights, and brings the first line back in range.
    pub fn set_heights(&mut self, view_height: usize, content_height: usize)
        ensures
            *final(self) == with_heights(*old(self), view_height, content_height),
            final(self).wf(),
    {
        self.view_height = view_height;
        self.content_height = content_height;
        let max = if content_height > view_height {
            content_height - view_height
        } else {
            0
        };
        if self.start_line > max {
            self.start_line = max;
        }
    }

    /// Whether the content is taller than the viewport.
    pub fn scrollable(&self) -> (r: bool)
        ensures
            r == (self.content_height > self.view_height),
    {
        self.content_height > self.view_height
    }

    /// Whether lines are hidden above the viewport.
    pub fn can_scroll_up(&self) -> (r: bool)
        ensures
            r == (self.start_line > 0),
    {
        self.start_line > 0
    }

    /// Whether lines are hidden below the viewport.
    pub fn can_scroll_down(&self) -> (r: bool)
        requires
            self.wf(),
        ensures
            r == (self.start_line < self.max_start()),
    {
        self.content_height > self.view_height && self.start_line < self.content_height
            - self.view_height
    }

    /// Scrolls up by `n` lines, stopping at the top.
    pub fn scroll_up(&mut self, n: usize)
        requires
            old(self).wf(),
        ensures
            final(self).wf(),
            final(self).start_line == if old(self).start_line >= n {
                old(self).start_line - n
            } else {
                0
            },
            final(self).content_height == old(self).content_height,
            final(self).view_height == old(self).view_height,
            final(self).dragging == old(self).dragging,
    {
        self.start_line = self.start_line.saturating_sub(n);
    }

    /// Scrolls down by `n` lines, stopping where the last line is shown.
    pub fn scroll_down(&mut self, n: usize)
        requires
            old(self).wf(),
        ensures
            final(self).wf(),
            final(self).start_line == if old(self).start_line + n <= old(self).max_start() {
                old(self).start_line + n
            } else {
                old(self).max_start()
            },
            final(self).content_height == old(self).content_height,
            final(self).view_height == old(self).view_height,
            final(self).dragging == old(self).dragging,
    {
        let max = if self.content_height > self.view_height {
            self.content_height - self.view_height
        } else {
            0
        };
        if n <= max - self.start_line {
            self.start_line = self.start_line + n;
        } else {
            self.start_line = max;
        }
    }

    /// Scrolls as little as possible so that line `y` is shown.
    pub fn scroll_to(&mut self, y: usize)
        requires
            old(self).wf(),
        ensures
            final(self).wf(),
            *final(self) == scrolled_to(*old(self), y as int),
    {
        if y < self.start_line {
            self.start_line = y;
        } else if y - self.start_line >= self.view_height {
            let max = if self.content_height > self.view_height {
                self.content_height - self.view_height
            } else {
                0
            };
            if self.view_height == 0 {
                self.start_line = if y < max {
                    y + 1
                } else {
                    max
                };
            } else {
                let want = y - (self.view_height - 1);
                self.start_line = if want <= max {
                    want
                } else {
                    max
                };
            }
        }
    }

    /// Starts dragging the thumb if `position` (relative to the view, which
    /// is `width` cells wide) is on the scrollbar column, the last one.
    pub fn start_drag(&mut self, position: Vec2, width: usize) -> (r: bool)
        requires
            old(self).wf(),
        ensures
            final(self).wf(),
            r == (old(self).content_height > old(self).view_height && position.x + 1 == width),
            r ==> final(self).dragging,
            !r ==> *final(self) == *old(self),
            final(self).content_height == old(self).content_height,
            final(self).view_height == old(self).view_height,
    {
        if self.content_height > self.view_height && width > 0 && position.x == width - 1 {
            self.dragging = true;
            self.drag(position);
            true
        } else {
            false
        }
    }

    /// While the thumb is held, shows the part of the content at the same
    /// proportion of its height as `position` is of the viewport's.
    pub fn drag(&mut self, position: Vec2)
        requires
            old(self).wf(),
        ensures
            final(self).wf(),
            final(self).content_height == old(self).content_height,
            final(self).view_height == old(self).view_height,
            final(self).dragging == old(self).dragging,
            !old(self).dragging ==> final(self).start_line == old(self).start_line,
    {
        if self.dragging && self.view_height > 0 && self.content_height > self.view_height {
            let max = self.content_height - self.view_height;
            let y = if position.y < self.view_height {
                position.y
            } else {
                self.view_height
            };
            // y * max / view_height, at most max
            let line = match y.checked_mul(max) {
                Some(p) => p / self.view_height,
                None => max,
            };
            self.start_line = if line <= max {
                line
            } else {
                max
            };
        }
    }

    /// Lets go of the thumb.
    pub fn release_grab(&mut self)
        ensures
            *final(self) == (ScrollBase { dragging: false, ..*old(self) }),
    {
        self.dragging = false;
    }
}

} // verus!
