use vstd::prelude::*;

verus! {

/// Scroll position and visible region tracking.
#[derive(Debug, Clone)]
pub struct Viewport {
    /// First visible logical line (0-indexed).
    pub scroll_top: usize,
    /// Number of visible rows available for the editor area.
    pub height: usize,
    /// Number of visible columns available for the editor area.
    pub width: usize,
}

impl Default for Viewport {
    fn default() -> (v: Self)
        ensures
            v.scroll_top == 0,
            v.height == 0,
            v.width == 0,
    {
        Viewport { scroll_top: 0, height: 0, width: 0 }
    }
}

impl Viewport {
    /// Scroll so that `line` is visible.
    pub fn ensure_visible(&mut self, line: usize)
        requires
            line < old(self).scroll_top || old(self).height == 0 || old(self).scroll_top + old(
                self,
            ).height <= usize::MAX,
        ensures
            final(self).height == old(self).height,
            final(self).width == old(self).width,
            final(self).scroll_top == scrolled_to(old(self).scroll_top, old(self).height, line),
            // With room for at least one row, the line ends up on screen.
            final(self).height > 0 ==> final(self).scroll_top <= line < final(self).scroll_top
                + final(self).height,
    {
        if line < self.scroll_top {
            self.scroll_top = line;
        } else if self.height > 0 && line >= self.scroll_top + self.height {
            self.scroll_top = line - self.height + 1;
        }
    }

    /// Scroll up by `n` lines.
    pub fn scroll_up(&mut self, n: usize)
        ensures
            final(self).height == old(self).height,
            final(self).width == old(self).width,
            final(self).scroll_top == scrolled_up(old(self).scroll_top as int, n as int),
    {
        self.scroll_top = self.scroll_top.saturating_sub(n);
    }

    /// Scroll down by `n` lines, never past the last of `total_lines`.
    pub fn scroll_down(&mut self, n: usize, total_lines: usize)
        requires
            old(self).scroll_top + n <= usize::MAX,
        ensures
            final(self).height == old(self).height,
            final(self).width == old(self).width,
            final(self).scroll_top == scrolled_down(old(self).scroll_top as int, n as int, total_lines),
    {
        let max = total_lines.saturating_sub(1);
        let target = self.scroll_top + n;
        self.scroll_top = if target < max { target } else { max };
    }

    /// Return the range of logical lines that are currently visible.
    pub fn visible_range(&self) -> (r: std::ops::Range<usize>)
        requires
            self.scroll_top + self.height <= usize::MAX,
        ensures
            r.start == self.scroll_top,
            r.end == self.scroll_top + self.height,
    {
        self.scroll_top..self.scroll_top + self.height
    }
}

/// The first line shown after scrolling from `top` so that `line` is on
/// one of `height` rows: up to the line when it is above, just far enough
/// down when it is below, otherwise unchanged.
pub open spec fn scrolled_to(top: usize, height: usize, line: usize) -> usize {
    if line < top {
        line
    } else if height > 0 && line >= top + height {
        (line - height + 1) as usize
    } else {
        top
    }
}

/// The index of the last of `total` lines (0 when there are none).
pub open spec fn last_line_index(total: usize) -> int {
    if total == 0 {
        0
    } else {
        total - 1
    }
}

/// Scrolling to a line that is already on screen does not move the view;
/// hence scrolling to the same line twice moves it no further than once.
pub proof fn law_ensure_visible_settles(top: usize, height: usize, line: usize)
    requires
        line < top || height == 0 || top + height <= usize::MAX,
    ensures
        top <= line < top + height ==> scrolled_to(top, height, line) == top,
        scrolled_to(scrolled_to(top, height, line), height, line) == scrolled_to(top, height, line),
{
}

/// The first line shown after scrolling up `n` lines from `top`: never
/// above the first line.
pub open spec fn scrolled_up(top: int, n: int) -> int {
    if top >= n {
        top - n
    } else {
        0
    }
}

/// The first line shown after scrolling down `n` lines from `top`: never
/// past the last of `total_lines`.
pub open spec fn scrolled_down(top: int, n: int, total_lines: usize) -> int {
    if top + n <= last_line_index(total_lines) {
        top + n
    } else {
        last_line_index(total_lines)
    }
}

/// Scrolling down by `n` lines and back up by `n` returns to the first
/// line shown, when the scroll down was not cut short at the last line (or
/// started from the top, where scrolling up stops anyway).
pub proof fn law_scroll_down_then_up_restores(top: usize, n: usize, total_lines: usize)
    requires
        top + n <= last_line_index(total_lines) || (top == 0 && last_line_index(total_lines) < n),
    ensures
        scrolled_up(scrolled_down(top as int, n as int, total_lines), n as int) == top,
{
}

} // verus!
