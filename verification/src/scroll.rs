//! Scroll state for terminal output: an offset above the live bottom
//! line, clamped to the available history.

use vstd::prelude::*;
use crate::keys::{KeyCode, KeyEvent};

verus! {

/// The largest valid offset: everything above one viewport of history.
pub open spec fn spec_max_offset(total_lines: int, viewport_height: int) -> int {
    if total_lines >= viewport_height {
        total_lines - viewport_height
    } else {
        0
    }
}

/// The offset after one navigation key: `j`/Down move toward the live
/// bottom, `k`/Up away from it, page keys move by a viewport, `g` jumps
/// to the top, `G` to the bottom; all clamped to the valid range.
pub open spec fn spec_scroll_key(
    offset: int,
    total_lines: int,
    viewport_height: int,
    key: KeyEvent,
) -> int {
    let max = spec_max_offset(total_lines, viewport_height);
    match key.code {
        KeyCode::Char(c) => {
            if c == 'j' {
                if offset >= 1 { offset - 1 } else { 0 }
            } else if c == 'k' {
                if offset + 1 <= max { offset + 1 } else { max }
            } else if c == 'g' {
                max
            } else if c == 'G' {
                0
            } else {
                offset
            }
        },
        KeyCode::Down => if offset >= 1 { offset - 1 } else { 0 },
        KeyCode::Up => if offset + 1 <= max { offset + 1 } else { max },
        KeyCode::PageDown => if offset >= viewport_height { offset - viewport_height } else { 0 },
        KeyCode::PageUp => if offset + viewport_height <= max { offset + viewport_height } else {
            max
        },
        _ => offset,
    }
}

/// Manages scroll state for terminal output.
#[derive(Debug, Clone)]
pub struct ScrollManager {
    /// Current scroll offset (0 = bottom, live output).
    pub offset: usize,
    /// Total lines available in terminal history.
    pub total_lines: usize,
    /// Viewport height (visible lines).
    pub viewport_height: usize,
}

impl ScrollManager {
    /// A manager at the live bottom of an empty history with a 24-line
    /// viewport.
    pub fn new() -> (s: ScrollManager)
        ensures
            s.offset == 0,
            s.total_lines == 0,
            s.viewport_height == 24,
    {
        ScrollManager { offset: 0, total_lines: 0, viewport_height: 24 }
    }

    /// Updates total lines and viewport height, clamping the offset to
    /// the new valid range.
    pub fn update_dimensions(&mut self, total_lines: usize, viewport_height: usize)
        ensures
            final(self).total_lines == total_lines,
            final(self).viewport_height == viewport_height,
            final(self).offset == if old(self).offset as int <= spec_max_offset(
                total_lines as int,
                viewport_height as int,
            ) {
                old(self).offset as int
            } else {
                spec_max_offset(total_lines as int, viewport_height as int)
            },
    {
        self.total_lines = total_lines;
        self.viewport_height = viewport_height;
        let max = self.max_offset();
        if self.offset > max {
            self.offset = max;
        }
    }

    /// Returns the current scroll offset.
    pub fn offset(&self) -> (r: usize)
        ensures
            r == self.offset,
    {
        self.offset
    }

    /// Handles one navigation key in scroll mode.
    pub fn handle_key(&mut self, key: KeyEvent)
        ensures
            final(self).total_lines == old(self).total_lines,
            final(self).viewport_height == old(self).viewport_height,
            final(self).offset == spec_scroll_key(
                old(self).offset as int,
                old(self).total_lines as int,
                old(self).viewport_height as int,
                key,
            ),
    {
        match key.code {
            KeyCode::Char(c) => {
                if c == 'j' {
                    self.scroll_down(1);
                } else if c == 'k' {
                    self.scroll_up(1);
                } else if c == 'g' {
                    self.jump_to_top();
                } else if c == 'G' {
                    self.jump_to_bottom();
                }
            },
            KeyCode::Down => self.scroll_down(1),
            KeyCode::Up => self.scroll_up(1),
            KeyCode::PageDown => {
                let n = self.viewport_height;
                self.scroll_down(n);
            },
            KeyCode::PageUp => {
                let n = self.viewport_height;
                self.scroll_up(n);
            },
            _ => {},
        }
    }

    /// Scrolls down (toward the live bottom) by `n` lines.
    fn scroll_down(&mut self, n: usize)
        ensures
            final(self).total_lines == old(self).total_lines,
            final(self).viewport_height == old(self).viewport_height,
            final(self).offset == if old(self).offset >= n {
                old(self).offset - n
            } else {
                0
            },
    {
        if self.offset >= n {
            self.offset = self.offset - n;
        } else {
            self.offset = 0;
        }
    }

    /// Scrolls up (into history) by `n` lines, stopping at the top.
    fn scroll_up(&mut self, n: usize)
        ensures
            final(self).total_lines == old(self).total_lines,
            final(self).viewport_height == old(self).viewport_height,
            final(self).offset == if old(self).offset + n <= spec_max_offset(
                old(self).total_lines as int,
                old(self).viewport_height as int,
            ) {
                old(self).offset + n
            } else {
                spec_max_offset(old(self).total_lines as int, old(self).viewport_height as int)
            },
    {
        let max = self.max_offset();
        if self.offset >= max {
            self.offset = max;
        } else if n <= max - self.offset {
            self.offset = self.offset + n;
        } else {
            self.offset = max;
        }
    }

    /// Jumps to the top of history.
    fn jump_to_top(&mut self)
        ensures
            final(self).total_lines == old(self).total_lines,
            final(self).viewport_height == old(self).viewport_height,
            final(self).offset == spec_max_offset(
                old(self).total_lines as int,
                old(self).viewport_height as int,
            ),
    {
        let max = self.max_offset();
        self.offset = max;
    }

    /// Jumps to the live bottom.
    fn jump_to_bottom(&mut self)
        ensures
            final(self).total_lines == old(self).total_lines,
            final(self).viewport_height == old(self).viewport_height,
            final(self).offset == 0,
    {
        self.offset = 0;
    }

    /// Returns the maximum valid offset.
    fn max_offset(&self) -> (r: usize)
        ensures
            r == spec_max_offset(self.total_lines as int, self.viewport_height as int),
    {
        if self.total_lines >= self.viewport_height {
            self.total_lines - self.viewport_height
        } else {
            0
        }
    }

    /// Resets to live output (bottom).
    pub fn reset(&mut self)
        ensures
            final(self).total_lines == old(self).total_lines,
            final(self).viewport_height == old(self).viewport_height,
            final(self).offset == 0,
    {
        self.offset = 0;
    }
}

} // verus!
