use vstd::prelude::*;

use crate::selection::ListState;
use crate::state::{DashboardState, FocusPane};
use crate::text_input::{byte_offset, max_text_bytes, TextInputState};
use crate::unicode::{utf8_len, utf8_width};

verus! {

/// A type-to-filter query over the guild or channel list.
#[derive(Debug)]
pub struct PaneFilterState {
    pub query: TextInputState,
    /// Keys still go to the query; a committed filter only narrows the list.
    pub editing: bool,
}

impl PaneFilterState {
    /// An empty query being edited.
    pub fn new() -> (r: Self)
        ensures
            r.editing,
            r.query.text() == Seq::<char>::empty(),
            r.query.cursor() == 0,
    {
        PaneFilterState { query: TextInputState::new(), editing: true }
    }

    /// Whether keys still go to the query.
    pub fn is_editing(&self) -> (r: bool)
        ensures
            r == self.editing,
    {
        self.editing
    }

    /// Stops editing; the query keeps filtering.
    pub fn commit(&mut self)
        ensures
            !final(self).editing,
            final(self).query == old(self).query,
    {
        self.editing = false;
    }

    /// The query text.
    pub fn query(&self) -> (r: &str)
        ensures
            r@ == self.query.text(),
    {
        self.query.value()
    }

    /// Byte offset of the query's cursor.
    pub fn cursor_byte_index(&self) -> (r: usize)
        ensures
            r == byte_offset(self.query.text(), self.query.cursor()),
    {
        self.query.cursor_byte_index()
    }

    /// Types `value` into the query.
    pub fn push_char(&mut self, value: char)
        requires
            utf8_len(old(self).query.text()) + utf8_width(value) <= max_text_bytes(),
        ensures
            final(self).editing == old(self).editing,
            final(self).query.text() == old(self).query.text().insert(
                old(self).query.cursor(),
                value,
            ),
            final(self).query.cursor() == old(self).query.cursor() + 1,
    {
        self.query.insert_char(value);
    }

    /// Deletes the grapheme cluster before the query's cursor.
    pub fn pop_char(&mut self)
        ensures
            final(self).editing == old(self).editing,
            old(self).query.cursor() > 0 ==> final(self).query.text() == old(self).query.text().take(
                crate::unicode::previous_grapheme_start(
                    old(self).query.text(),
                    old(self).query.cursor(),
                ),
            ) + old(self).query.text().skip(old(self).query.cursor()),
            old(self).query.cursor() > 0 ==> final(self).query.cursor()
                == crate::unicode::previous_grapheme_start(
                old(self).query.text(),
                old(self).query.cursor(),
            ),
            old(self).query.cursor() == 0 ==> final(self).query.text() == old(self).query.text()
                && final(self).query.cursor() == 0,
    {
        self.query.delete_previous_grapheme();
    }

    /// Moves the query's cursor one grapheme cluster left.
    pub fn cursor_left(&mut self)
        ensures
            final(self).editing == old(self).editing,
            final(self).query.text() == old(self).query.text(),
            old(self).query.cursor() > 0 ==> final(self).query.cursor()
                == crate::unicode::previous_grapheme_start(
                old(self).query.text(),
                old(self).query.cursor(),
            ),
            old(self).query.cursor() == 0 ==> final(self).query.cursor() == 0,
    {
        self.query.move_left();
    }

    /// Moves the query's cursor one grapheme cluster right.
    pub fn cursor_right(&mut self)
        ensures
            final(self).editing == old(self).editing,
            final(self).query.text() == old(self).query.text(),
            old(self).query.cursor() < old(self).query.text().len() ==> final(self).query.cursor() == crate::unicode::next_grapheme_end(
                old(self).query.text(),
                old(self).query.cursor(),
            ),
            old(self).query.cursor() == old(self).query.text().len() ==> final(self).query.cursor() == old(self).query.cursor(),
            old(self).query.cursor() < old(self).query.text().len()
                ==> crate::unicode::grapheme_lengths_cover(old(self).query.text()),
    {
        self.query.move_right();
    }
}

/// The filter of a pane (only the guild and channel panes have one).
pub open spec fn pane_filter_of(state: &DashboardState, pane: FocusPane) -> Option<
    PaneFilterState,
> {
    match pane {
        FocusPane::Guilds => state.navigation.guilds.filter,
        FocusPane::Channels => state.navigation.channels.filter,
        _ => None,
    }
}

/// The list of a pane that has a filter.
pub open spec fn pane_list_of(state: &DashboardState, pane: FocusPane) -> ListState {
    match pane {
        FocusPane::Guilds => state.navigation.guilds.list,
        _ => state.navigation.channels.list,
    }
}

/// Whether `pane` has a filter at all.
pub open spec fn is_filterable(pane: FocusPane) -> bool {
    pane == FocusPane::Guilds || pane == FocusPane::Channels
}

/// Everything outside the guild and channel panes' filters and lists is left as it was.
pub open spec fn same_outside_pane_filters(a: &DashboardState, b: &DashboardState) -> bool {
    &&& a.discord == b.discord
    &&& a.runtime == b.runtime
    &&& a.composer == b.composer
    &&& a.popups == b.popups
    &&& a.messages == b.messages
    &&& a.options == b.options
    &&& a.next_download_id == b.next_download_id
    &&& a.navigation.focus == b.navigation.focus
    &&& a.navigation.members == b.navigation.members
    &&& a.navigation.guilds.active == b.navigation.guilds.active
    &&& a.navigation.channels.active_channel_id == b.navigation.channels.active_channel_id
}

/// The pane other than `pane` keeps its filter and list.
pub open spec fn other_pane_unchanged(
    a: &DashboardState,
    b: &DashboardState,
    pane: FocusPane,
) -> bool {
    &&& pane != FocusPane::Guilds ==> a.navigation.guilds.filter == b.navigation.guilds.filter
        && a.navigation.guilds.list == b.navigation.guilds.list
    &&& pane != FocusPane::Channels ==> a.navigation.channels.filter
        == b.navigation.channels.filter && a.navigation.channels.list
        == b.navigation.channels.list
}

/// The list of `pane` after `keep_selection_visible` with selection and scroll reset.
pub open spec fn reset_list(list: ListState) -> ListState {
    ListState { selected: 0, scroll: 0, view_height: list.view_height }
}

impl DashboardState {
    /// Whether the guild or the channel pane has a filter.
    pub fn has_active_pane_filter(&self) -> (r: bool)
        ensures
            r == (self.navigation.guilds.filter is Some || self.navigation.channels.filter is Some),
    {
        self.is_pane_filter_active(FocusPane::Guilds) || self.is_pane_filter_active(
            FocusPane::Channels,
        )
    }

    /// Whether the guild pane has a filter.
    pub fn is_guild_pane_filter_active(&self) -> (r: bool)
        ensures
            r == self.navigation.guilds.filter is Some,
    {
        self.is_pane_filter_active(FocusPane::Guilds)
    }

    /// Whether the channel pane has a filter.
    pub fn is_channel_pane_filter_active(&self) -> (r: bool)
        ensures
            r == self.navigation.channels.filter is Some,
    {
        self.is_pane_filter_active(FocusPane::Channels)
    }

    /// Whether `pane` has a filter.
    pub fn is_pane_filter_active(&self, pane: FocusPane) -> (r: bool)
        ensures
            r == pane_filter_of(self, pane) is Some,
    {
        self.pane_filter(pane).is_some()
    }

    fn pane_filter(&self, pane: FocusPane) -> (r: Option<&PaneFilterState>)
        ensures
            r is Some <==> pane_filter_of(self, pane) is Some,
            r matches Some(f) ==> *f == pane_filter_of(self, pane)->0,
    {
        match pane {
            FocusPane::Guilds => self.navigation.guilds.filter.as_ref(),
            FocusPane::Channels => self.navigation.channels.filter.as_ref(),
            FocusPane::Messages | FocusPane::Members => None,
        }
    }

    /// The guild pane's filter query, if it has a filter.
    pub fn guild_pane_filter_query(&self) -> (r: Option<&str>)
        ensures
            r is Some <==> self.navigation.guilds.filter is Some,
            r matches Some(q) ==> q@ == self.navigation.guilds.filter->0.query.text(),
    {
        self.pane_filter_query(FocusPane::Guilds)
    }

    /// The channel pane's filter query, if it has a filter.
    pub fn channel_pane_filter_query(&self) -> (r: Option<&str>)
        ensures
            r is Some <==> self.navigation.channels.filter is Some,
            r matches Some(q) ==> q@ == self.navigation.channels.filter->0.query.text(),
    {
        self.pane_filter_query(FocusPane::Channels)
    }

    /// Byte offset of the guild filter's cursor, while that filter is being edited.
    pub fn guild_pane_filter_cursor(&self) -> (r: Option<usize>)
        ensures
            r is Some <==> (self.navigation.guilds.filter matches Some(f) && f.editing),
            r matches Some(c) ==> c == byte_offset(
                self.navigation.guilds.filter->0.query.text(),
                self.navigation.guilds.filter->0.query.cursor(),
            ),
    {
        self.pane_filter_cursor(FocusPane::Guilds)
    }

    /// Byte offset of the channel filter's cursor, while that filter is being edited.
    pub fn channel_pane_filter_cursor(&self) -> (r: Option<usize>)
        ensures
            r is Some <==> (self.navigation.channels.filter matches Some(f) && f.editing),
            r matches Some(c) ==> c == byte_offset(
                self.navigation.channels.filter->0.query.text(),
                self.navigation.channels.filter->0.query.cursor(),
            ),
    {
        self.pane_filter_cursor(FocusPane::Channels)
    }

    fn pane_filter_query(&self, pane: FocusPane) -> (r: Option<&str>)
        ensures
            r is Some <==> pane_filter_of(self, pane) is Some,
            r matches Some(q) ==> q@ == pane_filter_of(self, pane)->0.query.text(),
    {
        match self.pane_filter(pane) {
            Some(f) => Some(f.query()),
            None => None,
        }
    }

    fn pane_filter_cursor(&self, pane: FocusPane) -> (r: Option<usize>)
        ensures
            r is Some <==> (pane_filter_of(self, pane) matches Some(f) && f.editing),
            r matches Some(c) ==> c == byte_offset(
                pane_filter_of(self, pane)->0.query.text(),
                pane_filter_of(self, pane)->0.query.cursor(),
            ),
    {
        match self.pane_filter(pane) {
            Some(f) => {
                if f.is_editing() {
                    Some(f.cursor_byte_index())
                } else {
                    None
                }
            },
            None => None,
        }
    }

    /// Opens an empty filter on the guild pane.
    pub fn open_guild_pane_filter(&mut self)
        ensures
            final(self).navigation.guilds.filter matches Some(f) && f.editing
                && f.query.text().len() == 0 && f.query.cursor() == 0,
            final(self).navigation.guilds.list == reset_list(old(self).navigation.guilds.list),
            other_pane_unchanged(&*old(self), &*final(self), FocusPane::Guilds),
            same_outside_pane_filters(&*old(self), &*final(self)),
    {
        self.open_pane_filter(FocusPane::Guilds);
    }

    /// Opens an empty filter on the channel pane.
    pub fn open_channel_pane_filter(&mut self)
        ensures
            final(self).navigation.channels.filter matches Some(f) && f.editing
                && f.query.text().len() == 0 && f.query.cursor() == 0,
            final(self).navigation.channels.list == reset_list(
                old(self).navigation.channels.list,
            ),
            other_pane_unchanged(&*old(self), &*final(self), FocusPane::Channels),
            same_outside_pane_filters(&*old(self), &*final(self)),
    {
        self.open_pane_filter(FocusPane::Channels);
    }

    /// Opens an empty filter being edited on `pane`, resetting the pane's list to
    /// the top; the message and member panes have no filter and stay as they were.
    pub fn open_pane_filter(&mut self, pane: FocusPane)
        ensures
            is_filterable(pane) ==> (pane_filter_of(&*final(self), pane) matches Some(f)
                && f.editing && f.query.text().len() == 0 && f.query.cursor() == 0),
            is_filterable(pane) ==> pane_list_of(&*final(self), pane) == reset_list(
                pane_list_of(&*old(self), pane),
            ),
            other_pane_unchanged(&*old(self), &*final(self), pane),
            same_outside_pane_filters(&*old(self), &*final(self)),
    {
        self.reset_pane_filter_view(pane);
        self.set_pane_filter(pane, Some(PaneFilterState::new()));
    }

    /// Whether `pane` has a filter that is being edited.
    pub fn is_pane_filter_editing(&self, pane: FocusPane) -> (r: bool)
        ensures
            r == (pane_filter_of(self, pane) matches Some(f) && f.editing),
    {
        match self.pane_filter(pane) {
            Some(f) => f.is_editing(),
            None => false,
        }
    }

    /// Closes the filters of both the guild and the channel pane.
    pub fn close_active_pane_filters(&mut self)
        ensures
            final(self).navigation.guilds.filter is None,
            final(self).navigation.channels.filter is None,
            final(self).navigation.guilds.list == reset_list(old(self).navigation.guilds.list),
            final(self).navigation.channels.list == reset_list(
                old(self).navigation.channels.list,
            ),
            same_outside_pane_filters(&*old(self), &*final(self)),
    {
        self.close_pane_filter(FocusPane::Guilds);
        self.close_pane_filter(FocusPane::Channels);
    }

    /// Closes the filter of `pane` and resets the pane's list to the top.
    pub fn close_pane_filter(&mut self, pane: FocusPane)
        ensures
            pane_filter_of(&*final(self), pane) is None,
            is_filterable(pane) ==> pane_list_of(&*final(self), pane) == reset_list(
                pane_list_of(&*old(self), pane),
            ),
            other_pane_unchanged(&*old(self), &*final(self), pane),
            same_outside_pane_filters(&*old(self), &*final(self)),
    {
        self.set_pane_filter(pane, None);
        self.reset_pane_filter_view(pane);
    }

    /// Stops editing the filter of `pane`; the query keeps filtering.
    pub fn commit_pane_filter(&mut self, pane: FocusPane)
        ensures
            match pane_filter_of(&*old(self), pane) {
                Some(f) => pane_filter_of(&*final(self), pane) == Some(
                    PaneFilterState { query: f.query, editing: false },
                ),
                None => pane_filter_of(&*final(self), pane) is None,
            },
            is_filterable(pane) ==> pane_list_of(&*final(self), pane) == pane_list_of(
                &*old(self),
                pane,
            ),
            other_pane_unchanged(&*old(self), &*final(self), pane),
            same_outside_pane_filters(&*old(self), &*final(self)),
    {
        match pane {
            FocusPane::Guilds => {
                if let Some(f) = &mut self.navigation.guilds.filter {
                    f.commit();
                }
            },
            FocusPane::Channels => {
                if let Some(f) = &mut self.navigation.channels.filter {
                    f.commit();
                }
            },
            FocusPane::Messages | FocusPane::Members => {},
        }
    }

    /// Types `value` into the guild filter.
    pub fn push_guild_pane_filter_char(&mut self, value: char)
        requires
            old(self).navigation.guilds.filter matches Some(f) ==> utf8_len(f.query.text())
                + utf8_width(value) <= max_text_bytes(),
        ensures
            pane_filter_pushed(&*old(self), &*final(self), FocusPane::Guilds, value),
            other_pane_unchanged(&*old(self), &*final(self), FocusPane::Guilds),
            same_outside_pane_filters(&*old(self), &*final(self)),
    {
        self.push_pane_filter_char(FocusPane::Guilds, value);
    }

    /// Types `value` into the channel filter.
    pub fn push_channel_pane_filter_char(&mut self, value: char)
        requires
            old(self).navigation.channels.filter matches Some(f) ==> utf8_len(f.query.text())
                + utf8_width(value) <= max_text_bytes(),
        ensures
            pane_filter_pushed(&*old(self), &*final(self), FocusPane::Channels, value),
            other_pane_unchanged(&*old(self), &*final(self), FocusPane::Channels),
            same_outside_pane_filters(&*old(self), &*final(self)),
    {
        self.push_pane_filter_char(FocusPane::Channels, value);
    }

    /// Types `value` into the filter of `pane`, if it has one, and moves the pane's
    /// selection back to the top.
    pub fn push_pane_filter_char(&mut self, pane: FocusPane, value: char)
        requires
            pane_filter_of(&*old(self), pane) matches Some(f) ==> utf8_len(f.query.text())
                + utf8_width(value) <= max_text_bytes(),
        ensures
            pane_filter_pushed(&*old(self), &*final(self), pane, value),
            other_pane_unchanged(&*old(self), &*final(self), pane),
            same_outside_pane_filters(&*old(self), &*final(self)),
    {
        match pane {
            FocusPane::Guilds => {
                if let Some(f) = &mut self.navigation.guilds.filter {
                    f.push_char(value);
                    self.navigation.guilds.list.reset_selection_and_scroll();
                }
            },
            FocusPane::Channels => {
                if let Some(f) = &mut self.navigation.channels.filter {
                    f.push_char(value);
                    self.navigation.channels.list.reset_selection_and_scroll();
                }
            },
            FocusPane::Messages | FocusPane::Members => {},
        }
    }

    /// Deletes the grapheme cluster before the cursor of the filter of `pane`, if it has
    /// one, and moves the pane's selection back to the top.
    pub fn pop_pane_filter_char(&mut self, pane: FocusPane)
        ensures
            match pane_filter_of(&*old(self), pane) {
                Some(f) => {
                    &&& pane_filter_of(&*final(self), pane) matches Some(g)
                    &&& g.editing == f.editing
                    &&& f.query.cursor() > 0 ==> g.query.text() == f.query.text().take(
                        crate::unicode::previous_grapheme_start(f.query.text(), f.query.cursor()),
                    ) + f.query.text().skip(f.query.cursor())
                    &&& f.query.cursor() > 0 ==> g.query.cursor()
                        == crate::unicode::previous_grapheme_start(f.query.text(), f.query.cursor())
                    &&& f.query.cursor() == 0 ==> g.query.text() == f.query.text()
                        && g.query.cursor() == 0
                    &&& pane_list_of(&*final(self), pane) == reset_list(
                        pane_list_of(&*old(self), pane),
                    )
                },
                None => pane_filter_of(&*final(self), pane) is None && (is_filterable(pane)
                    ==> pane_list_of(&*final(self), pane) == pane_list_of(&*old(self), pane)),
            },
            other_pane_unchanged(&*old(self), &*final(self), pane),
            same_outside_pane_filters(&*old(self), &*final(self)),
    {
        match pane {
            FocusPane::Guilds => {
                if let Some(f) = &mut self.navigation.guilds.filter {
                    f.pop_char();
                    self.navigation.guilds.list.reset_selection_and_scroll();
                }
            },
            FocusPane::Channels => {
                if let Some(f) = &mut self.navigation.channels.filter {
                    f.pop_char();
                    self.navigation.channels.list.reset_selection_and_scroll();
                }
            },
            FocusPane::Messages | FocusPane::Members => {},
        }
    }

    /// Moves the cursor of the filter of `pane` one grapheme cluster left.
    pub fn move_pane_filter_cursor_left(&mut self, pane: FocusPane)
        ensures
            match pane_filter_of(&*old(self), pane) {
                Some(f) => {
                    &&& pane_filter_of(&*final(self), pane) matches Some(g)
                    &&& g.editing == f.editing
                    &&& g.query.text() == f.query.text()
                    &&& f.query.cursor() > 0 ==> g.query.cursor()
                        == crate::unicode::previous_grapheme_start(
                        f.query.text(),
                        f.query.cursor(),
                    )
                    &&& f.query.cursor() == 0 ==> g.query.cursor() == 0
                },
                None => pane_filter_of(&*final(self), pane) is None,
            },
            is_filterable(pane) ==> pane_list_of(&*final(self), pane) == pane_list_of(
                &*old(self),
                pane,
            ),
            other_pane_unchanged(&*old(self), &*final(self), pane),
            same_outside_pane_filters(&*old(self), &*final(self)),
    {
        match pane {
            FocusPane::Guilds => {
                if let Some(f) = &mut self.navigation.guilds.filter {
                    f.cursor_left();
                }
            },
            FocusPane::Channels => {
                if let Some(f) = &mut self.navigation.channels.filter {
                    f.cursor_left();
                }
            },
            FocusPane::Messages | FocusPane::Members => {},
        }
    }

    /// Moves the cursor of the filter of `pane` one grapheme cluster right.
    pub fn move_pane_filter_cursor_right(&mut self, pane: FocusPane)
        ensures
            match pane_filter_of(&*old(self), pane) {
                Some(f) => {
                    &&& pane_filter_of(&*final(self), pane) matches Some(g)
                    &&& g.editing == f.editing
                    &&& g.query.text() == f.query.text()
                    &&& f.query.cursor() < f.query.text().len() ==> g.query.cursor()
                        == crate::unicode::next_grapheme_end(f.query.text(), f.query.cursor())
                    &&& f.query.cursor() < f.query.text().len()
                        ==> crate::unicode::grapheme_lengths_cover(f.query.text())
                    &&& f.query.cursor() == f.query.text().len() ==> g.query.cursor()
                        == f.query.cursor()
                },
                None => pane_filter_of(&*final(self), pane) is None,
            },
            is_filterable(pane) ==> pane_list_of(&*final(self), pane) == pane_list_of(
                &*old(self),
                pane,
            ),
            other_pane_unchanged(&*old(self), &*final(self), pane),
            same_outside_pane_filters(&*old(self), &*final(self)),
    {
        match pane {
            FocusPane::Guilds => {
                if let Some(f) = &mut self.navigation.guilds.filter {
                    f.cursor_right();
                }
            },
            FocusPane::Channels => {
                if let Some(f) = &mut self.navigation.channels.filter {
                    f.cursor_right();
                }
            },
            FocusPane::Messages | FocusPane::Members => {},
        }
    }

    fn set_pane_filter(&mut self, pane: FocusPane, filter: Option<PaneFilterState>)
        ensures
            is_filterable(pane) ==> pane_filter_of(&*final(self), pane) == filter,
            !is_filterable(pane) ==> pane_filter_of(&*final(self), pane) is None,
            is_filterable(pane) ==> pane_list_of(&*final(self), pane) == pane_list_of(
                &*old(self),
                pane,
            ),
            other_pane_unchanged(&*old(self), &*final(self), pane),
            same_outside_pane_filters(&*old(self), &*final(self)),
    {
        match pane {
            FocusPane::Guilds => self.navigation.guilds.filter = filter,
            FocusPane::Channels => self.navigation.channels.filter = filter,
            FocusPane::Messages | FocusPane::Members => {},
        }
    }

    fn reset_pane_filter_view(&mut self, pane: FocusPane)
        ensures
            pane_filter_of(&*final(self), pane) == pane_filter_of(&*old(self), pane),
            is_filterable(pane) ==> pane_list_of(&*final(self), pane) == reset_list(
                pane_list_of(&*old(self), pane),
            ),
            other_pane_unchanged(&*old(self), &*final(self), pane),
            same_outside_pane_filters(&*old(self), &*final(self)),
    {
        self.reset_pane_filter_selection(pane);
        match pane {
            FocusPane::Guilds => self.navigation.guilds.list.keep_selection_visible(),
            FocusPane::Channels => self.navigation.channels.list.keep_selection_visible(),
            FocusPane::Messages | FocusPane::Members => {},
        }
    }

    fn reset_pane_filter_selection(&mut self, pane: FocusPane)
        ensures
            pane_filter_of(&*final(self), pane) == pane_filter_of(&*old(self), pane),
            is_filterable(pane) ==> pane_list_of(&*final(self), pane) == reset_list(
                pane_list_of(&*old(self), pane),
            ),
            other_pane_unchanged(&*old(self), &*final(self), pane),
            same_outside_pane_filters(&*old(self), &*final(self)),
    {
        match pane {
            FocusPane::Guilds => {
                self.navigation.guilds.list.reset_selection_and_scroll();
            },
            FocusPane::Channels => {
                self.navigation.channels.list.reset_selection_and_scroll();
            },
            FocusPane::Messages | FocusPane::Members => {},
        }
    }
}

/// What typing `value` into the filter of `pane` does: the query gets the char at
/// its cursor and the pane's list returns to the top; without a filter nothing changes.
pub open spec fn pane_filter_pushed(
    before: &DashboardState,
    after: &DashboardState,
    pane: FocusPane,
    value: char,
) -> bool {
    match pane_filter_of(before, pane) {
        Some(f) => {
            &&& pane_filter_of(after, pane) matches Some(g)
            &&& g.editing == f.editing
            &&& g.query.text() == f.query.text().insert(f.query.cursor(), value)
            &&& g.query.cursor() == f.query.cursor() + 1
            &&& pane_list_of(after, pane) == reset_list(pane_list_of(before, pane))
        },
        None => pane_filter_of(after, pane) is None && (is_filterable(pane) ==> pane_list_of(
            after,
            pane,
        ) == pane_list_of(before, pane)),
    }
}

} // verus!
