use vstd::prelude::*;

verus! {

/// Index of the highlighted entry of a list whose length is given at each use.
#[derive(Clone, Copy, Debug, PartialEq, Eq, Structural)]
pub struct SelectionState {
    pub selected: usize,
}

/// The selected index clamped to a list of `len` entries (0 for an empty list).
pub open spec fn clamp_selected(selected: int, len: int) -> int {
    if len <= 0 {
        0
    } else if selected < len {
        selected
    } else {
        len - 1
    }
}

/// The selection after one step down a list of `len` entries: the next entry, or
/// the last one.
pub open spec fn moved_down(selected: int, len: int) -> int {
    if len <= 0 {
        0
    } else if clamp_selected(selected, len) + 1 < len {
        clamp_selected(selected, len) + 1
    } else {
        len - 1
    }
}

/// An index or offset after one step up: the previous one, or the first.
pub open spec fn moved_up(index: int) -> int {
    if index <= 0 {
        0
    } else {
        index - 1
    }
}

impl SelectionState {
    /// Selection at the first entry.
    pub fn new() -> (r: Self)
        ensures
            r.selected == 0,
    {
        SelectionState { selected: 0 }
    }

    /// The stored index, whatever the list's length.
    pub fn selected(&self) -> (r: usize)
        ensures
            r == self.selected,
    {
        self.selected
    }

    /// The selected index clamped to a list of `len` entries.
    pub fn selected_for_len(&self, len: usize) -> (r: usize)
        ensures
            r == clamp_selected(self.selected as int, len as int),
            len > 0 ==> r < len,
    {
        if len == 0 {
            0
        } else if self.selected < len {
            self.selected
        } else {
            len - 1
        }
    }

    /// Selects `index`.
    pub fn select(&mut self, index: usize)
        ensures
            final(self).selected == index,
    {
        self.selected = index;
    }

    /// Moves to the next entry of a list of `len` entries, stopping at the last one.
    pub fn move_down(&mut self, len: usize)
        ensures
            final(self).selected == moved_down(old(self).selected as int, len as int),
    {
        let current = self.selected_for_len(len);
        if len == 0 {
            self.selected = 0;
        } else if current + 1 < len {
            self.selected = current + 1;
        } else {
            self.selected = len - 1;
        }
    }

    /// Moves to the previous entry, stopping at the first one.
    pub fn move_up(&mut self)
        ensures
            final(self).selected == moved_up(old(self).selected as int),
    {
        self.selected = self.selected.saturating_sub(1);
    }
}

/// Vertical scroll position of a text view of `total_lines` lines showing
/// `view_height` of them.
#[derive(Clone, Copy, Debug, PartialEq, Eq, Structural)]
pub struct ScrollState {
    pub scroll: usize,
    pub view_height: usize,
    pub total_lines: usize,
}

/// The greatest scroll offset that still fills the view.
pub open spec fn max_scroll_for(total_lines: int, view_height: int) -> int {
    if total_lines > view_height {
        total_lines - view_height
    } else {
        0
    }
}

/// The scroll offset after one line down: the next offset, or the greatest one.
pub open spec fn scrolled_down(scroll: int, total_lines: int, view_height: int) -> int {
    if scroll < max_scroll_for(total_lines, view_height) {
        scroll + 1
    } else {
        max_scroll_for(total_lines, view_height)
    }
}

impl ScrollState {
    /// Scrolled to the top of an empty view.
    pub fn new() -> (r: Self)
        ensures
            r.scroll == 0 && r.view_height == 0 && r.total_lines == 0,
    {
        ScrollState { scroll: 0, view_height: 0, total_lines: 0 }
    }

    /// The greatest scroll offset that still fills the view.
    pub fn max_scroll(&self) -> (r: usize)
        ensures
            r == max_scroll_for(self.total_lines as int, self.view_height as int),
    {
        self.total_lines.saturating_sub(self.view_height)
    }

    /// The scroll offset, never past the greatest one.
    pub fn scroll(&self) -> (r: usize)
        ensures
            r == if self.scroll <= max_scroll_for(
                self.total_lines as int,
                self.view_height as int,
            ) {
                self.scroll as int
            } else {
                max_scroll_for(self.total_lines as int, self.view_height as int)
            },
    {
        let max = self.max_scroll();
        if self.scroll <= max {
            self.scroll
        } else {
            max
        }
    }

    /// Scrolls one line down, stopping at the greatest offset.
    pub fn scroll_down(&mut self)
        ensures
            final(self).view_height == old(self).view_height,
            final(self).total_lines == old(self).total_lines,
            final(self).scroll == scrolled_down(
                old(self).scroll as int,
                old(self).total_lines as int,
                old(self).view_height as int,
            ),
    {
        let max = self.max_scroll();
        if self.scroll < max {
            self.scroll = self.scroll + 1;
        } else {
            self.scroll = max;
        }
    }

    /// Scrolls one line up, stopping at the top.
    pub fn scroll_up(&mut self)
        ensures
            final(self).view_height == old(self).view_height,
            final(self).total_lines == old(self).total_lines,
            final(self).scroll == moved_up(old(self).scroll as int),
    {
        self.scroll = self.scroll.saturating_sub(1);
    }

    /// Sets how many lines the view shows and keeps the offset in range.
    pub fn set_view_height(&mut self, height: usize)
        ensures
            final(self).view_height == height,
            final(self).total_lines == old(self).total_lines,
            final(self).scroll == if old(self).scroll <= max_scroll_for(
                old(self).total_lines as int,
                height as int,
            ) {
                old(self).scroll as int
            } else {
                max_scroll_for(old(self).total_lines as int, height as int)
            },
    {
        self.view_height = height;
        self.scroll = self.scroll();
    }

    /// Sets how many lines there are and keeps the offset in range.
    pub fn set_total_lines(&mut self, total_lines: usize)
        ensures
            final(self).total_lines == total_lines,
            final(self).view_height == old(self).view_height,
            final(self).scroll == if old(self).scroll <= max_scroll_for(
                total_lines as int,
                old(self).view_height as int,
            ) {
                old(self).scroll as int
            } else {
                max_scroll_for(total_lines as int, old(self).view_height as int)
            },
    {
        self.total_lines = total_lines;
        self.scroll = self.scroll();
    }
}

/// Selection and scroll offset of a sidebar list showing `view_height` rows.
#[derive(Clone, Copy, Debug, PartialEq, Eq, Structural)]
pub struct ListState {
    pub selected: usize,
    pub scroll: usize,
    pub view_height: usize,
}

impl ListState {
    /// At the top, showing no rows yet.
    pub fn new() -> (r: Self)
        ensures
            r.selected == 0 && r.scroll == 0 && r.view_height == 0,
    {
        ListState { selected: 0, scroll: 0, view_height: 0 }
    }

    /// Selects the first row and scrolls to the top.
    pub fn reset_selection_and_scroll(&mut self)
        ensures
            final(self).selected == 0,
            final(self).scroll == 0,
            final(self).view_height == old(self).view_height,
    {
        self.selected = 0;
        self.scroll = 0;
    }

    /// Scrolls the least amount that brings the selected row into view.
    pub fn keep_selection_visible(&mut self)
        ensures
            final(self).selected == old(self).selected,
            final(self).view_height == old(self).view_height,
            final(self).scroll == if old(self).selected < old(self).scroll {
                old(self).selected as int
            } else if old(self).view_height > 0 && old(self).selected >= old(self).scroll
                + old(self).view_height {
                old(self).selected + 1 - old(self).view_height
            } else {
                old(self).scroll as int
            },
            final(self).view_height > 0 ==> final(self).scroll <= final(self).selected
                < final(self).scroll + final(self).view_height,
    {
        if self.selected < self.scroll {
            self.scroll = self.selected;
        } else if self.view_height > 0 && self.selected - self.scroll >= self.view_height {
            self.scroll = (self.selected - self.view_height) + 1;
        }
    }
}

/// Window of at most `visible_items` entries of a list of `items_len` entries that
/// keeps `selected` at its bottom edge once the list scrolls.
pub open spec fn visible_item_range_spec(items_len: int, selected: int, visible_items: int) -> (
    int,
    int,
) {
    let next = if selected + 1 > usize::MAX {
        usize::MAX as int
    } else {
        selected + 1
    };
    let lowest = if next > visible_items {
        next - visible_items
    } else {
        0
    };
    let latest = if items_len > visible_items {
        items_len - visible_items
    } else {
        0
    };
    let start = if lowest < latest {
        lowest
    } else {
        latest
    };
    let end = if start + visible_items < items_len {
        start + visible_items
    } else {
        items_len
    };
    (start, end)
}

/// The window of at most `visible_items` entries of a list of `items_len` entries that
/// keeps `selected` in view, as the emoji reaction picker draws it.
pub fn visible_item_range(items_len: usize, selected: usize, visible_items: usize) -> (r:
    std::ops::Range<usize>)
    ensures
        (r.start as int, r.end as int) == visible_item_range_spec(
            items_len as int,
            selected as int,
            visible_items as int,
        ),
        r.start <= r.end <= items_len,
        r.end - r.start <= visible_items,
        selected < items_len ==> r.start <= selected < r.end || visible_items == 0,
{
    let start_low = selected.saturating_add(1).saturating_sub(visible_items);
    let latest = items_len.saturating_sub(visible_items);
    let start = if start_low < latest {
        start_low
    } else {
        latest
    };
    let end = if visible_items < items_len - start {
        start + visible_items
    } else {
        items_len
    };
    start..end
}


/// A step down a list followed by a step up returns to the entry that was selected,
/// unless the selection already stood at the last entry.
pub proof fn law_move_down_then_up_returns(selected: int, len: int)
    requires
        0 <= selected,
        selected + 1 < len,
    ensures
        moved_up(moved_down(selected, len)) == selected,
{
}

/// A step up followed by a step down returns to the entry that was selected, unless
/// the selection already stood at the first entry.
pub proof fn law_move_up_then_down_returns(selected: int, len: int)
    requires
        0 < selected < len,
    ensures
        moved_down(moved_up(selected), len) == selected,
{
}

/// Scrolling one line down and one line up returns to the offset, unless the view
/// was already scrolled to its end; the offset never passes the greatest one.
pub proof fn law_scroll_down_then_up_returns(scroll: int, total_lines: int, view_height: int)
    requires
        0 <= scroll < max_scroll_for(total_lines, view_height),
    ensures
        moved_up(scrolled_down(scroll, total_lines, view_height)) == scroll,
        scrolled_down(scroll, total_lines, view_height) <= max_scroll_for(total_lines, view_height),
{
}

} // verus!
