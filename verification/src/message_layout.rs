use vstd::prelude::*;

use crate::state::{DashboardState, MessageState};

verus! {

/// Blank rows after the last message of an author group.
pub const MESSAGE_ROW_GAP: usize = 1;

/// Longest pause, in milliseconds, between two messages of one author that still
/// shows them as one group.
pub const AUTHOR_GROUP_MAX_GAP_MILLIS: u64 = 300_000;

/// `a + b`, stopping at `usize::MAX`.
pub open spec fn sat_add(a: int, b: int) -> int {
    if a + b > usize::MAX {
        usize::MAX as int
    } else {
        a + b
    }
}

/// The rows a message occupies in the message pane, part by part.
#[derive(Clone, Copy, Debug, PartialEq, Eq, Structural)]
pub struct MessageRowMetrics {
    pub top_rows: usize,
    pub header_rows: usize,
    pub content_rows: usize,
    pub reaction_rows: usize,
    pub preview_rows: usize,
    pub selected_extra_top_rows: usize,
    pub selected_extra_bottom_rows: usize,
    pub bottom_gap_rows: usize,
}

/// All rows of a message: the sum of its parts, stopping at `usize::MAX`.
pub open spec fn total_rows_spec(m: MessageRowMetrics) -> int {
    let sum = m.top_rows + m.header_rows + m.content_rows + m.reaction_rows + m.preview_rows
        + m.selected_extra_top_rows + m.selected_extra_bottom_rows + m.bottom_gap_rows;
    if sum > usize::MAX {
        usize::MAX as int
    } else {
        sum
    }
}

impl MessageRowMetrics {
    /// Header and content rows.
    pub fn body_rows(self) -> (r: usize)
        ensures
            r == sat_add(self.header_rows as int, self.content_rows as int),
    {
        self.header_rows.saturating_add(self.content_rows)
    }

    /// Rows above the body: separators and the selection's extra top row.
    pub fn body_top_offset(self) -> (r: usize)
        ensures
            r == sat_add(self.top_rows as int, self.selected_extra_top_rows as int),
    {
        self.top_rows.saturating_add(self.selected_extra_top_rows)
    }

    /// Rows above the reactions: the body's offset, the body and the previews.
    pub fn reaction_top_offset(self) -> (r: usize)
        ensures
            r == sat_add(
                sat_add(
                    sat_add(self.top_rows as int, self.selected_extra_top_rows as int),
                    sat_add(self.header_rows as int, self.content_rows as int),
                ),
                self.preview_rows as int,
            ),
    {
        self.body_top_offset().saturating_add(self.body_rows()).saturating_add(self.preview_rows)
    }

    /// All rows of the message.
    pub fn total_rows(self) -> (r: usize)
        ensures
            r == total_rows_spec(self),
    {
        self.top_rows.saturating_add(self.body_rows()).saturating_add(self.reaction_rows).saturating_add(
            self.preview_rows,
        ).saturating_add(self.selected_extra_top_rows).saturating_add(
            self.selected_extra_bottom_rows,
        ).saturating_add(self.bottom_gap_rows)
    }

    /// The rows still shown once the first `line_offset` rows are scrolled away.
    pub fn visible_rows_after_scroll(self, line_offset: usize) -> (r: usize)
        ensures
            r == if total_rows_spec(self) > line_offset {
                total_rows_spec(self) - line_offset
            } else {
                0
            },
    {
        self.total_rows().saturating_sub(line_offset)
    }
}

/// The height of a message drawn on its own: a header row, its content, reactions
/// and previews, and the gap below.
pub fn standalone_message_rendered_height(
    content_rows: usize,
    reaction_rows: usize,
    preview_rows: usize,
) -> (r: usize)
    requires
        1 + content_rows + reaction_rows + preview_rows + MESSAGE_ROW_GAP <= usize::MAX,
    ensures
        r == 1 + content_rows + reaction_rows + preview_rows + MESSAGE_ROW_GAP,
{
    1 + content_rows + reaction_rows + preview_rows + MESSAGE_ROW_GAP
}

/// The rows of a message's formatted content, as the formatter lays it out.
#[derive(Clone, Copy, Debug, PartialEq, Eq, Structural)]
pub struct MessageRowContentMetrics {
    pub content_rows: usize,
    pub reaction_rows: usize,
    pub preview_rows: usize,
}

/// What the layout needs to know of a loaded message beyond its ids: the rows of its
/// formatted content, whether a date separator or the unread divider goes above it,
/// and when it was sent.
#[derive(Clone, Copy, Debug, PartialEq, Eq, Structural)]
pub struct MessageLayoutFacts {
    pub content: MessageRowContentMetrics,
    pub starts_new_day: bool,
    pub unread_divider: bool,
    pub created_unix_millis: u64,
}

/// Whether message `i` starts a new day (a message that is not loaded counts as one).
pub open spec fn starts_new_day_spec(len: int, facts: Seq<MessageLayoutFacts>, i: int) -> bool {
    !(0 <= i < len) || facts[i].starts_new_day
}

/// Separator rows above message `i`: a date separator and the unread divider.
pub open spec fn extra_top_spec(len: int, facts: Seq<MessageLayoutFacts>, i: int) -> int {
    (if starts_new_day_spec(len, facts, i) {
        1int
    } else {
        0int
    }) + (if 0 <= i < len && facts[i].unread_divider {
        1int
    } else {
        0int
    })
}

/// Whether two messages of one author are far enough apart to start a new group.
pub open spec fn exceeds_group_gap(previous: MessageLayoutFacts, current: MessageLayoutFacts) -> bool {
    current.created_unix_millis - previous.created_unix_millis >= AUTHOR_GROUP_MAX_GAP_MILLIS
}

/// Whether message `i` starts an author group (and so shows a header row): the first
/// message, one after a separator, another author's, or one after a long pause.
pub open spec fn starts_group_spec(
    messages: Seq<MessageState>,
    facts: Seq<MessageLayoutFacts>,
    i: int,
) -> bool {
    &&& 0 <= i < messages.len()
    &&& (i == 0 || extra_top_spec(messages.len() as int, facts, i) > 0 || messages[i - 1].author_id
        != messages[i].author_id || exceeds_group_gap(facts[i - 1], facts[i]))
}

/// The separator rows above a loaded message are the ones its viewport row draws: a
/// date separator when it starts a new day and the unread divider when it has one;
/// and a message with a separator above it starts an author group, so its header is
/// shown.
pub proof fn law_separator_rows_are_counted(
    messages: Seq<MessageState>,
    facts: Seq<MessageLayoutFacts>,
    selected: int,
    i: int,
    content: MessageRowContentMetrics,
    selected_for_bottom: bool,
)
    requires
        facts.len() == messages.len(),
        0 <= i < messages.len(),
    ensures
        extra_top_spec(messages.len() as int, facts, i) == (if facts[i].starts_new_day {
            1int
        } else {
            0int
        }) + (if facts[i].unread_divider {
            1int
        } else {
            0int
        }),
        row_metrics_spec(messages, facts, selected, i, content, selected_for_bottom).top_rows == (if facts[i].starts_new_day {
            1int
        } else {
            0int
        }) + (if facts[i].unread_divider {
            1int
        } else {
            0int
        }),
        facts[i].starts_new_day || facts[i].unread_divider ==> starts_group_spec(messages, facts, i),
{
}

/// Whether the gap row follows message `i`: it ends the list or its author group.
pub open spec fn bottom_gap_spec(
    messages: Seq<MessageState>,
    facts: Seq<MessageLayoutFacts>,
    i: int,
) -> bool {
    i + 1 > usize::MAX || i + 1 >= messages.len() || starts_group_spec(messages, facts, i + 1)
}

/// The row metrics of message `i`.
pub open spec fn row_metrics_spec(
    messages: Seq<MessageState>,
    facts: Seq<MessageLayoutFacts>,
    selected: int,
    i: int,
    content: MessageRowContentMetrics,
    selected_for_bottom: bool,
) -> MessageRowMetrics {
    MessageRowMetrics {
        top_rows: extra_top_spec(messages.len() as int, facts, i) as usize,
        header_rows: if starts_group_spec(messages, facts, i) {
            1
        } else {
            0
        },
        content_rows: content.content_rows,
        reaction_rows: content.reaction_rows,
        preview_rows: content.preview_rows,
        selected_extra_top_rows: if 0 <= i < messages.len() && i == selected && !starts_group_spec(
            messages,
            facts,
            i,
        ) {
            1
        } else {
            0
        },
        selected_extra_bottom_rows: if selected_for_bottom && !bottom_gap_spec(messages, facts, i) {
            1
        } else {
            0
        },
        bottom_gap_rows: if bottom_gap_spec(messages, facts, i) {
            MESSAGE_ROW_GAP
        } else {
            0
        },
    }
}

/// The rendered height of message `i` (0 past the end).
pub open spec fn height_at_spec(
    messages: Seq<MessageState>,
    facts: Seq<MessageLayoutFacts>,
    selected: int,
    i: int,
) -> int {
    if 0 <= i < messages.len() {
        total_rows_spec(row_metrics_spec(messages, facts, selected, i, facts[i].content, i == selected))
    } else {
        0
    }
}

/// The summed heights of messages `from` up to (not including) `to`.
pub open spec fn heights_between(
    messages: Seq<MessageState>,
    facts: Seq<MessageLayoutFacts>,
    selected: int,
    from: int,
    to: int,
) -> int
    decreases to - from,
{
    if to <= from {
        0
    } else {
        heights_between(messages, facts, selected, from, to - 1) + height_at_spec(
            messages,
            facts,
            selected,
            to - 1,
        )
    }
}

/// The sum of the first `n` card heights.
pub open spec fn cards_sum(heights: Seq<usize>, n: int) -> int
    decreases n,
{
    if n <= 0 || heights.len() == 0 {
        0
    } else if n > heights.len() {
        cards_sum(heights, heights.len() as int)
    } else {
        cards_sum(heights, n - 1) + heights[n - 1]
    }
}

/// Heights are never negative, so a sum over more messages is never smaller.
pub proof fn lemma_heights_between_mono(
    messages: Seq<MessageState>,
    facts: Seq<MessageLayoutFacts>,
    selected: int,
    from: int,
    mid: int,
    to: int,
)
    requires
        from <= mid <= to,
    ensures
        0 <= heights_between(messages, facts, selected, from, mid) <= heights_between(
            messages,
            facts,
            selected,
            from,
            to,
        ),
    decreases to - from,
{
    if to > mid {
        lemma_heights_between_mono(messages, facts, selected, from, mid, to - 1);
    } else if mid > from {
        lemma_heights_between_mono(messages, facts, selected, from, mid - 1, mid - 1);
    }
}

proof fn lemma_cards_sum_mono(heights: Seq<usize>, a: int, b: int)
    requires
        0 <= a <= b <= heights.len(),
    ensures
        0 <= cards_sum(heights, a) <= cards_sum(heights, b),
    decreases b,
{
    if b > a {
        lemma_cards_sum_mono(heights, a, b - 1);
    } else if a > 0 {
        lemma_cards_sum_mono(heights, a - 1, a - 1);
    }
}

impl DashboardState {
    /// Whether message `index` gets a date separator above it (a message that is not
    /// loaded counts as starting a day).
    pub fn message_starts_new_day_at(&self, index: usize, facts: &[MessageLayoutFacts]) -> (r: bool)
        requires
            facts@.len() == self.messages.messages@.len(),
        ensures
            r == starts_new_day_spec(self.messages.messages@.len() as int, facts@, index as int),
    {
        if index >= self.messages.messages.len() {
            return true;
        }
        facts[index].starts_new_day
    }

    /// Separator rows above message `index`.
    pub fn message_extra_top_lines(&self, index: usize, facts: &[MessageLayoutFacts]) -> (r: usize)
        requires
            facts@.len() == self.messages.messages@.len(),
        ensures
            r == extra_top_spec(self.messages.messages@.len() as int, facts@, index as int),
    {
        let mut extra: usize = if self.message_starts_new_day_at(index, facts) {
            1
        } else {
            0
        };
        if index < self.messages.messages.len() && facts[index].unread_divider {
            extra = extra + 1;
        }
        extra
    }

    /// Whether message `index` starts an author group.
    pub fn message_starts_author_group_at(&self, index: usize, facts: &[MessageLayoutFacts]) -> (r:
        bool)
        requires
            facts@.len() == self.messages.messages@.len(),
        ensures
            r == starts_group_spec(self.messages.messages@, facts@, index as int),
    {
        let messages = &self.messages.messages;
        if index >= messages.len() {
            return false;
        }
        if index == 0 || self.message_extra_top_lines(index, facts) > 0 {
            return true;
        }
        let previous = &messages[index - 1];
        let current = &messages[index];
        previous.author_id != current.author_id || facts[index].created_unix_millis.saturating_sub(
            facts[index - 1].created_unix_millis,
        ) >= AUTHOR_GROUP_MAX_GAP_MILLIS
    }

    /// Header rows of message `index`: one when it starts an author group.
    pub fn message_header_line_count_at(&self, index: usize, facts: &[MessageLayoutFacts]) -> (r:
        usize)
        requires
            facts@.len() == self.messages.messages@.len(),
        ensures
            r == (if starts_group_spec(self.messages.messages@, facts@, index as int) {
                1int
            } else {
                0int
            }),
    {
        if self.message_starts_author_group_at(index, facts) {
            1
        } else {
            0
        }
    }

    /// Whether the gap row follows message `index`.
    pub fn message_has_bottom_gap_after(&self, index: usize, facts: &[MessageLayoutFacts]) -> (r:
        bool)
        requires
            facts@.len() == self.messages.messages@.len(),
        ensures
            r == bottom_gap_spec(self.messages.messages@, facts@, index as int),
    {
        if index == usize::MAX {
            return true;
        }
        let next = index + 1;
        next >= self.messages.messages.len() || self.message_starts_author_group_at(next, facts)
    }

    /// Gap rows after message `index`.
    pub fn message_bottom_gap_after(&self, index: usize, facts: &[MessageLayoutFacts]) -> (r: usize)
        requires
            facts@.len() == self.messages.messages@.len(),
        ensures
            r == (if bottom_gap_spec(self.messages.messages@, facts@, index as int) {
                MESSAGE_ROW_GAP as int
            } else {
                0int
            }),
    {
        if self.message_has_bottom_gap_after(index, facts) {
            MESSAGE_ROW_GAP
        } else {
            0
        }
    }

    /// The extra top row a selected message gets when it continues an author group.
    pub fn selected_message_extra_top_line_at(&self, index: usize, facts: &[MessageLayoutFacts]) -> (r:
        usize)
        requires
            facts@.len() == self.messages.messages@.len(),
        ensures
            r == (if 0 <= index < self.messages.messages@.len() && index
                == self.messages.selected_message && !starts_group_spec(
                self.messages.messages@,
                facts@,
                index as int,
            ) {
                1int
            } else {
                0int
            }),
    {
        if index < self.messages.messages.len() && index == self.messages.selected_message
            && !self.message_starts_author_group_at(index, facts) {
            1
        } else {
            0
        }
    }

    /// The row metrics of message `index` with content rows `content`; the selection's
    /// extra bottom row is added when `selected_for_bottom` and no gap row follows.
    pub fn message_row_metrics_at_with_selected_bottom(
        &self,
        index: usize,
        content: MessageRowContentMetrics,
        facts: &[MessageLayoutFacts],
        selected_for_bottom: bool,
    ) -> (r: MessageRowMetrics)
        requires
            facts@.len() == self.messages.messages@.len(),
        ensures
            r == row_metrics_spec(
                self.messages.messages@,
                facts@,
                self.messages.selected_message as int,
                index as int,
                content,
                selected_for_bottom,
            ),
    {
        MessageRowMetrics {
            top_rows: self.message_extra_top_lines(index, facts),
            header_rows: self.message_header_line_count_at(index, facts),
            content_rows: content.content_rows,
            reaction_rows: content.reaction_rows,
            preview_rows: content.preview_rows,
            selected_extra_top_rows: self.selected_message_extra_top_line_at(index, facts),
            selected_extra_bottom_rows: if selected_for_bottom && !self.message_has_bottom_gap_after(
                index,
                facts,
            ) {
                1
            } else {
                0
            },
            bottom_gap_rows: self.message_bottom_gap_after(index, facts),
        }
    }

    /// The rendered height of message `index`, separators included (0 when it is not
    /// loaded).
    pub fn message_rendered_height_at(&self, index: usize, facts: &[MessageLayoutFacts]) -> (r: usize)
        requires
            facts@.len() == self.messages.messages@.len(),
        ensures
            r == height_at_spec(
                self.messages.messages@,
                facts@,
                self.messages.selected_message as int,
                index as int,
            ),
    {
        if index >= self.messages.messages.len() {
            return 0;
        }
        let metrics = self.message_row_metrics_at_with_selected_bottom(
            index,
            facts[index].content,
            facts,
            index == self.messages.selected_message,
        );
        metrics.total_rows()
    }

    fn heights_sum(&self, from: usize, to: usize, facts: &[MessageLayoutFacts]) -> (r: usize)
        requires
            facts@.len() == self.messages.messages@.len(),
            from <= to,
            heights_between(
                self.messages.messages@,
                facts@,
                self.messages.selected_message as int,
                from as int,
                to as int,
            ) <= usize::MAX,
        ensures
            r == heights_between(
                self.messages.messages@,
                facts@,
                self.messages.selected_message as int,
                from as int,
                to as int,
            ),
    {
        let ghost ms = self.messages.messages@;
        let ghost sel = self.messages.selected_message as int;
        let mut total: usize = 0;
        let mut i: usize = from;
        while i < to
            invariant
                from <= i <= to,
                facts@.len() == self.messages.messages@.len(),
                ms == self.messages.messages@,
                sel == self.messages.selected_message as int,
                total == heights_between(ms, facts@, sel, from as int, i as int),
                heights_between(ms, facts@, sel, from as int, to as int) <= usize::MAX,
            decreases to - i,
        {
            let h = self.message_rendered_height_at(i, facts);
            proof {
                lemma_heights_between_mono(ms, facts@, sel, from as int, i + 1, to as int);
            }
            total = total + h;
            i = i + 1;
        }
        total
    }

    fn card_heights_sum(heights: &[usize], n: usize) -> (r: usize)
        requires
            cards_sum(heights@, n as int) <= usize::MAX,
        ensures
            r == cards_sum(heights@, n as int),
    {
        let m = if n < heights.len() {
            n
        } else {
            heights.len()
        };
        let mut total: usize = 0;
        let mut i: usize = 0;
        proof {
            if n > heights@.len() && heights@.len() > 0 {
                assert(cards_sum(heights@, n as int) == cards_sum(heights@, heights@.len() as int));
            }
        }
        while i < m
            invariant
                m <= heights@.len(),
                i <= m,
                total == cards_sum(heights@, i as int),
                cards_sum(heights@, m as int) <= usize::MAX,
            decreases m - i,
        {
            proof {
                lemma_cards_sum_mono(heights@, i + 1, m as int);
            }
            total = total + heights[i];
            i = i + 1;
        }
        total
    }

    /// The row, counted from the top of all messages, the pane is scrolled to: the
    /// heights of the messages above the first shown one plus the rows scrolled within
    /// it (stopping at `usize::MAX`). When the pane shows thread cards, the heights of
    /// the cards above the first shown one.
    pub fn message_scroll_row_position(
        &self,
        facts: &[MessageLayoutFacts],
        thread_card_heights: Option<&[usize]>,
    ) -> (r: usize)
        requires
            facts@.len() == self.messages.messages@.len(),
            match thread_card_heights {
                Some(h) => cards_sum(h@, self.messages.message_scroll as int) <= usize::MAX,
                None => heights_between(
                    self.messages.messages@,
                    facts@,
                    self.messages.selected_message as int,
                    0,
                    self.messages.message_scroll as int,
                ) <= usize::MAX,
            },
        ensures
            r == match thread_card_heights {
                Some(h) => cards_sum(h@, self.messages.message_scroll as int),
                None => sat_add(
                    heights_between(
                        self.messages.messages@,
                        facts@,
                        self.messages.selected_message as int,
                        0,
                        self.messages.message_scroll as int,
                    ),
                    self.messages.message_line_scroll as int,
                ),
            },
    {
        match thread_card_heights {
            Some(h) => Self::card_heights_sum(h, self.messages.message_scroll),
            None => self.heights_sum(0, self.messages.message_scroll, facts).saturating_add(
                self.messages.message_line_scroll,
            ),
        }
    }

    /// The rendered rows of all loaded messages, or of all thread cards.
    pub fn message_total_rendered_rows(
        &self,
        facts: &[MessageLayoutFacts],
        thread_card_heights: Option<&[usize]>,
    ) -> (r: usize)
        requires
            facts@.len() == self.messages.messages@.len(),
            match thread_card_heights {
                Some(h) => cards_sum(h@, h@.len() as int) <= usize::MAX,
                None => heights_between(
                    self.messages.messages@,
                    facts@,
                    self.messages.selected_message as int,
                    0,
                    self.messages.messages@.len() as int,
                ) <= usize::MAX,
            },
        ensures
            r == match thread_card_heights {
                Some(h) => cards_sum(h@, h@.len() as int),
                None => heights_between(
                    self.messages.messages@,
                    facts@,
                    self.messages.selected_message as int,
                    0,
                    self.messages.messages@.len() as int,
                ),
            },
    {
        match thread_card_heights {
            Some(h) => Self::card_heights_sum(h, h.len()),
            None => self.heights_sum(0, self.messages.messages.len(), facts),
        }
    }

    /// The row of the selected message within the shown part of the pane: the heights
    /// of the messages from the first shown one to the selected one, less the rows
    /// scrolled within the first (not below 0).
    pub fn selected_message_rendered_row(&self, facts: &[MessageLayoutFacts]) -> (r: usize)
        requires
            facts@.len() == self.messages.messages@.len(),
            self.messages.message_scroll <= self.messages.selected_message ==> heights_between(
                self.messages.messages@,
                facts@,
                self.messages.selected_message as int,
                self.messages.message_scroll as int,
                self.messages.selected_message as int,
            ) <= usize::MAX,
        ensures
            r == if self.messages.message_scroll <= self.messages.selected_message {
                let row = heights_between(
                    self.messages.messages@,
                    facts@,
                    self.messages.selected_message as int,
                    self.messages.message_scroll as int,
                    self.messages.selected_message as int,
                );
                if row > self.messages.message_line_scroll {
                    row - self.messages.message_line_scroll
                } else {
                    0
                }
            } else {
                0
            },
    {
        let scroll = self.messages.message_scroll;
        let selected = self.messages.selected_message;
        let row = if scroll <= selected {
            self.heights_sum(scroll, selected, facts)
        } else {
            0
        };
        row.saturating_sub(self.messages.message_line_scroll)
    }

    /// The rendered height of the selected message (1 when none is loaded there).
    pub fn selected_message_rendered_height(&self, facts: &[MessageLayoutFacts]) -> (r: usize)
        requires
            facts@.len() == self.messages.messages@.len(),
        ensures
            r == if self.messages.selected_message < self.messages.messages@.len() {
                height_at_spec(
                    self.messages.messages@,
                    facts@,
                    self.messages.selected_message as int,
                    self.messages.selected_message as int,
                )
            } else {
                1
            },
    {
        if self.messages.selected_message >= self.messages.messages.len() {
            return 1;
        }
        self.message_rendered_height_at(self.messages.selected_message, facts)
    }

    /// The rendered rows of up to `count` messages after the selected one.
    pub fn following_message_rendered_rows(&self, facts: &[MessageLayoutFacts], count: usize) -> (r:
        usize)
        requires
            facts@.len() == self.messages.messages@.len(),
            ({
                let start = if self.messages.selected_message == usize::MAX {
                    usize::MAX as int
                } else {
                    self.messages.selected_message + 1
                };
                let end = if start + count < self.messages.messages@.len() {
                    start + count
                } else {
                    self.messages.messages@.len() as int
                };
                start >= end || heights_between(
                    self.messages.messages@,
                    facts@,
                    self.messages.selected_message as int,
                    start,
                    end,
                ) <= usize::MAX
            }),
        ensures
            r == ({
                let start = if self.messages.selected_message == usize::MAX {
                    usize::MAX as int
                } else {
                    self.messages.selected_message + 1
                };
                let end = if start + count < self.messages.messages@.len() {
                    start + count
                } else {
                    self.messages.messages@.len() as int
                };
                if start >= end {
                    0
                } else {
                    heights_between(
                        self.messages.messages@,
                        facts@,
                        self.messages.selected_message as int,
                        start,
                        end,
                    )
                }
            }),
    {
        let len = self.messages.messages.len();
        let start = self.messages.selected_message.saturating_add(1);
        if start >= len {
            return 0;
        }
        let end = if count < len - start {
            start + count
        } else {
            len
        };
        self.heights_sum(start, end, facts)
    }
}


/// One message of the message pane's visible window, placed: its index among the
/// loaded messages, its rows, where it starts relative to the pane's top (negative
/// when scrolled partly out of view), how many of its rows are scrolled away, and
/// what it draws above and below itself.
#[derive(Clone, Copy, Debug)]
pub struct MessageViewportRow<'a> {
    pub global_index: usize,
    pub message: &'a MessageState,
    pub metrics: MessageRowMetrics,
    pub message_top: isize,
    pub body_top: isize,
    pub reaction_top: isize,
    pub line_offset: usize,
    pub body_skip: usize,
    pub item_line_offset: usize,
    pub show_header: bool,
    pub bottom_gap: bool,
    pub selected: bool,
    pub starts_new_day: bool,
    pub shows_unread_divider: bool,
}

/// The placement of each message of the message pane's visible window.
#[derive(Clone, Debug)]
pub struct MessageViewportPlan<'a> {
    pub rows: Vec<MessageViewportRow<'a>>,
}

/// Rows a visible window of messages may take in all, as a machine limit: each
/// message's formatted rows plus the most separator, header, selection and gap rows
/// it can get.
pub open spec fn viewport_row_budget(contents: Seq<MessageRowContentMetrics>, n: int) -> int
    decreases n,
{
    if n <= 0 || n > contents.len() {
        0
    } else {
        viewport_row_budget(contents, n - 1) + contents[n - 1].content_rows
            + contents[n - 1].reaction_rows + contents[n - 1].preview_rows + 8
    }
}

/// The index among the loaded messages of the `k`th visible message.
pub open spec fn viewport_global_index(scroll: usize, k: int) -> int {
    sat_add(scroll as int, k)
}

/// Whether the visible message `m` is the loaded message at index `g`.
pub open spec fn is_loaded_at(messages: Seq<MessageState>, g: int, m: &MessageState) -> bool {
    0 <= g < messages.len() && messages[g].id == m.id
}

/// The rows scrolled away from the `k`th visible message: the pane's line scroll for
/// the first one, none for the others.
pub open spec fn viewport_line_offset(k: int, line_scroll: usize) -> int {
    if k == 0 {
        line_scroll as int
    } else {
        0
    }
}

/// The row metrics of the `k`th visible message.
pub open spec fn viewport_metrics(
    state: DashboardState,
    facts: Seq<MessageLayoutFacts>,
    contents: Seq<MessageRowContentMetrics>,
    selected: Option<usize>,
    k: int,
) -> MessageRowMetrics {
    row_metrics_spec(
        state.messages.messages@,
        facts,
        state.messages.selected_message as int,
        viewport_global_index(state.messages.message_scroll, k),
        contents[k],
        selected == Some(k as usize),
    )
}

/// The rows of the `k`th visible message still shown below its scrolled-away rows.
pub open spec fn viewport_visible_rows(
    state: DashboardState,
    facts: Seq<MessageLayoutFacts>,
    contents: Seq<MessageRowContentMetrics>,
    selected: Option<usize>,
    k: int,
) -> int {
    let total = total_rows_spec(viewport_metrics(state, facts, contents, selected, k));
    let offset = viewport_line_offset(k, state.messages.message_line_scroll);
    if total > offset {
        total - offset
    } else {
        0
    }
}

/// The rows drawn by the visible messages before the `k`th.
pub open spec fn viewport_rows_before(
    state: DashboardState,
    facts: Seq<MessageLayoutFacts>,
    contents: Seq<MessageRowContentMetrics>,
    selected: Option<usize>,
    k: int,
) -> int
    decreases k,
{
    if k <= 0 {
        0
    } else {
        viewport_rows_before(state, facts, contents, selected, k - 1) + viewport_visible_rows(
            state,
            facts,
            contents,
            selected,
            k - 1,
        )
    }
}

/// Whether `row` places the `k`th visible message `visible[k]`.
pub open spec fn viewport_row_ok(
    row: MessageViewportRow,
    state: DashboardState,
    facts: Seq<MessageLayoutFacts>,
    visible: Seq<&MessageState>,
    contents: Seq<MessageRowContentMetrics>,
    selected: Option<usize>,
    k: int,
) -> bool {
    let messages = state.messages.messages@;
    let g = viewport_global_index(state.messages.message_scroll, k);
    let loaded = is_loaded_at(messages, g, visible[k]);
    let new_day = loaded && facts[g].starts_new_day;
    let divider = loaded && facts[g].unread_divider;
    let show_header = !loaded || starts_group_spec(messages, facts, g);
    let selected_row = selected == Some(k as usize);
    let metrics = viewport_metrics(state, facts, contents, selected, k);
    let offset = viewport_line_offset(k, state.messages.message_line_scroll);
    let separators = (if new_day {
        1int
    } else {
        0int
    }) + (if divider {
        1int
    } else {
        0int
    });
    let body_skip = if offset > separators {
        offset - separators
    } else {
        0
    };
    let top = viewport_rows_before(state, facts, contents, selected, k) - offset;
    &&& row.global_index == g
    &&& row.message == visible[k]
    &&& row.metrics == metrics
    &&& row.line_offset == offset
    &&& row.starts_new_day == new_day
    &&& row.shows_unread_divider == divider
    &&& row.show_header == show_header
    &&& row.bottom_gap == (!loaded || bottom_gap_spec(messages, facts, g))
    &&& row.selected == selected_row
    &&& row.body_skip == body_skip
    &&& row.item_line_offset == if selected_row && !show_header && body_skip > 0 {
        body_skip - 1
    } else {
        body_skip
    }
    &&& row.message_top == top
    &&& row.body_top == top + sat_add(
        metrics.top_rows as int,
        metrics.selected_extra_top_rows as int,
    )
    &&& row.reaction_top == top + sat_add(
        sat_add(
            sat_add(metrics.top_rows as int, metrics.selected_extra_top_rows as int),
            sat_add(metrics.header_rows as int, metrics.content_rows as int),
        ),
        metrics.preview_rows as int,
    )
}

proof fn lemma_viewport_rows_bounded(
    state: DashboardState,
    facts: Seq<MessageLayoutFacts>,
    contents: Seq<MessageRowContentMetrics>,
    selected: Option<usize>,
    k: int,
)
    requires
        0 <= k <= contents.len(),
        viewport_row_budget(contents, contents.len() as int) <= isize::MAX,
    ensures
        0 <= viewport_rows_before(state, facts, contents, selected, k) <= viewport_row_budget(
            contents,
            k,
        ),
        viewport_row_budget(contents, k) <= viewport_row_budget(contents, contents.len() as int),
        k < contents.len() ==> total_rows_spec(viewport_metrics(state, facts, contents, selected, k))
            + viewport_rows_before(state, facts, contents, selected, k) <= viewport_row_budget(
            contents,
            k + 1,
        ),
    decreases contents.len() - k,
{
    if k < contents.len() {
        lemma_viewport_rows_bounded(state, facts, contents, selected, k + 1);
    }
    lemma_viewport_budget_prefix(state, facts, contents, selected, k);
}

proof fn lemma_viewport_budget_prefix(
    state: DashboardState,
    facts: Seq<MessageLayoutFacts>,
    contents: Seq<MessageRowContentMetrics>,
    selected: Option<usize>,
    k: int,
)
    requires
        0 <= k <= contents.len(),
        viewport_row_budget(contents, contents.len() as int) <= isize::MAX,
    ensures
        0 <= viewport_rows_before(state, facts, contents, selected, k) <= viewport_row_budget(
            contents,
            k,
        ),
        k < contents.len() ==> total_rows_spec(viewport_metrics(state, facts, contents, selected, k))
            + viewport_rows_before(state, facts, contents, selected, k) <= viewport_row_budget(
            contents,
            k + 1,
        ),
        viewport_row_budget(contents, k) <= viewport_row_budget(contents, contents.len() as int),
    decreases k,
{
    if k > 0 {
        lemma_viewport_budget_prefix(state, facts, contents, selected, k - 1);
    }
    lemma_budget_mono(contents, k, contents.len() as int);
}

proof fn lemma_budget_mono(contents: Seq<MessageRowContentMetrics>, a: int, b: int)
    requires
        0 <= a <= b <= contents.len(),
    ensures
        0 <= viewport_row_budget(contents, a) <= viewport_row_budget(contents, b),
    decreases b,
{
    if b > a {
        lemma_budget_mono(contents, a, b - 1);
    } else if a > 0 {
        lemma_budget_mono(contents, a - 1, a - 1);
    }
}

impl<'a> MessageViewportPlan<'a> {
    /// Places each of the `visible` messages of the pane, scrolled as the state says,
    /// with the formatted rows `contents` of each and the `selected` one (by position
    /// in `visible`) highlighted. Separators, headers and gaps come from the loaded
    /// message at the same index when it is the same message; a message that is not
    /// loaded there shows its header and gap and no separators.
    pub fn new(
        visible: &[&'a MessageState],
        contents: &[MessageRowContentMetrics],
        selected: Option<usize>,
        state: &DashboardState,
        facts: &[MessageLayoutFacts],
    ) -> (r: Self)
        requires
            facts@.len() == state.messages.messages@.len(),
            contents@.len() == visible@.len(),
            state.messages.message_line_scroll <= isize::MAX,
            viewport_row_budget(contents@, contents@.len() as int) <= isize::MAX,
        ensures
            r.rows@.len() == visible@.len(),
            forall|k: int|
                0 <= k < visible@.len() ==> viewport_row_ok(
                    #[trigger] r.rows@[k],
                    *state,
                    facts@,
                    visible@,
                    contents@,
                    selected,
                    k,
                ),
    {
        let ghost st = *state;
        let line_scroll = state.messages.message_line_scroll;
        let scroll = state.messages.message_scroll;
        let mut rendered: usize = 0;
        let mut rows: Vec<MessageViewportRow<'a>> = Vec::new();
        let mut k: usize = 0;
        while k < visible.len()
            invariant
                st == *state,
                k <= visible@.len(),
                contents@.len() == visible@.len(),
                facts@.len() == state.messages.messages@.len(),
                line_scroll == state.messages.message_line_scroll,
                scroll == state.messages.message_scroll,
                line_scroll <= isize::MAX,
                viewport_row_budget(contents@, contents@.len() as int) <= isize::MAX,
                rows@.len() == k,
                rendered == viewport_rows_before(st, facts@, contents@, selected, k as int),
                forall|j: int|
                    0 <= j < k ==> viewport_row_ok(
                        #[trigger] rows@[j],
                        st,
                        facts@,
                        visible@,
                        contents@,
                        selected,
                        j,
                    ),
            decreases visible@.len() - k,
        {
            proof {
                lemma_viewport_rows_bounded(st, facts@, contents@, selected, k as int);
                lemma_budget_mono(contents@, k + 1, contents@.len() as int);
            }
            let message = visible[k];
            let global_index = scroll.saturating_add(k);
            let line_offset: usize = if k == 0 {
                line_scroll
            } else {
                0
            };
            let loaded = global_index < state.messages.messages.len()
                && state.messages.messages[global_index].id == message.id;
            let starts_new_day = loaded && state.message_starts_new_day_at(global_index, facts);
            let shows_unread_divider = loaded && facts[global_index].unread_divider;
            let separator_lines: usize = (if starts_new_day {
                1usize
            } else {
                0usize
            }) + (if shows_unread_divider {
                1usize
            } else {
                0usize
            });
            let show_header = if loaded {
                state.message_starts_author_group_at(global_index, facts)
            } else {
                true
            };
            let bottom_gap = if loaded {
                state.message_bottom_gap_after(global_index, facts) > 0
            } else {
                true
            };
            let selected_row = match selected {
                Some(s) => s == k,
                None => false,
            };
            let metrics = state.message_row_metrics_at_with_selected_bottom(
                global_index,
                contents[k],
                facts,
                selected_row,
            );
            let total = metrics.total_rows();
            let visible_rows = metrics.visible_rows_after_scroll(line_offset);
            let body_offset = metrics.body_top_offset();
            let reaction_offset = metrics.reaction_top_offset();
            proof {
                assert(total as int == total_rows_spec(
                    viewport_metrics(st, facts@, contents@, selected, k as int),
                ));
                assert(reaction_offset <= total);
                assert(body_offset <= total);
            }
            let message_top: isize = (rendered as isize) - (line_offset as isize);
            let body_top: isize = message_top + (body_offset as isize);
            let reaction_top: isize = message_top + (reaction_offset as isize);
            let body_skip = line_offset.saturating_sub(separator_lines);
            let item_line_offset = if selected_row && !show_header {
                body_skip.saturating_sub(1)
            } else {
                body_skip
            };
            let row = MessageViewportRow {
                global_index,
                message,
                metrics,
                message_top,
                body_top,
                reaction_top,
                line_offset,
                body_skip,
                item_line_offset,
                show_header,
                bottom_gap,
                selected: selected_row,
                starts_new_day,
                shows_unread_divider,
            };
            proof {
                assert(viewport_row_ok(row, st, facts@, visible@, contents@, selected, k as int));
            }
            rows.push(row);
            rendered = rendered + visible_rows;
            k = k + 1;
        }
        MessageViewportPlan { rows }
    }

    /// The placed messages, top to bottom.
    pub fn rows(&self) -> (r: &[MessageViewportRow<'a>])
        ensures
            r@ == self.rows@,
    {
        self.rows.as_slice()
    }

    /// The placed message at `local_index` in the visible window, if any.
    pub fn row(&self, local_index: usize) -> (r: Option<&MessageViewportRow<'a>>)
        ensures
            local_index < self.rows@.len() ==> r == Some(&self.rows@[local_index as int]),
            local_index >= self.rows@.len() ==> r is None,
    {
        if local_index < self.rows.len() {
            Some(&self.rows[local_index])
        } else {
            None
        }
    }
}


/// What a cached measurement of a message's content depends on.
#[derive(Clone, Copy, Debug, PartialEq, Eq, Structural)]
pub struct MessageRowContentMetricsCacheKey {
    pub message_id: u64,
    pub content_width: usize,
    pub preview_width: u16,
    pub max_preview_height: u16,
    pub show_custom_emoji: bool,
}

/// The cache key of a measurement.
pub open spec fn metrics_cache_key(
    message_id: u64,
    content_width: usize,
    preview_width: u16,
    max_preview_height: u16,
    show_custom_emoji: bool,
) -> MessageRowContentMetricsCacheKey {
    MessageRowContentMetricsCacheKey {
        message_id,
        content_width,
        preview_width,
        max_preview_height,
        show_custom_emoji,
    }
}

/// One cached measurement.
struct MetricsSlot {
    key: MessageRowContentMetricsCacheKey,
    metrics: MessageRowContentMetrics,
}

/// Measurements of message contents already made, by what they depend on.
pub struct MessageRowContentMetricsCache {
    slots: Vec<MetricsSlot>,
    entries: Ghost<Map<MessageRowContentMetricsCacheKey, MessageRowContentMetrics>>,
}

impl MessageRowContentMetricsCache {
    /// Each key is cached once, and the measurements by key are those of the slots.
    pub closed spec fn wf(self) -> bool {
        &&& forall|i: int, j: int|
            0 <= i < j < self.slots@.len() ==> #[trigger] self.slots@[i].key != #[trigger] self.slots@[j].key
        &&& forall|i: int|
            0 <= i < self.slots@.len() ==> self.entries@.contains_key(#[trigger] self.slots@[i].key)
                && self.entries@[self.slots@[i].key] == self.slots@[i].metrics
        &&& forall|k: MessageRowContentMetricsCacheKey|
            #[trigger] self.entries@.contains_key(k) ==> exists|i: int|
                0 <= i < self.slots@.len() && #[trigger] self.slots@[i].key == k
    }

    /// The measurements by key.
    pub closed spec fn view(&self) -> Map<MessageRowContentMetricsCacheKey, MessageRowContentMetrics> {
        self.entries@
    }

    /// An empty cache.
    pub fn new() -> (r: Self)
        ensures
            r@ == Map::<MessageRowContentMetricsCacheKey, MessageRowContentMetrics>::empty(),
            r.wf(),
    {
        MessageRowContentMetricsCache { slots: Vec::new(), entries: Ghost(Map::empty()) }
    }

    /// The measurement cached under `key`, if any.
    pub fn get(&self, key: MessageRowContentMetricsCacheKey) -> (r: Option<MessageRowContentMetrics>)
        requires
            self.wf(),
        ensures
            r == (if self@.contains_key(key) {
                Some(self@[key])
            } else {
                None
            }),
    {
        let mut i: usize = 0;
        while i < self.slots.len()
            invariant
                self.wf(),
                i <= self.slots@.len(),
                forall|j: int| 0 <= j < i ==> #[trigger] self.slots@[j].key != key,
            decreases self.slots@.len() - i,
        {
            if self.slots[i].key == key {
                proof {
                    assert(self.entries@.contains_key(self.slots@[i as int].key));
                }
                return Some(self.slots[i].metrics);
            }
            i = i + 1;
        }
        proof {
            if self@.contains_key(key) {
                let j = choose|j: int| 0 <= j < self.slots@.len() && #[trigger] self.slots@[j].key == key;
                assert(self.slots@[j].key != key);
            }
        }
        None
    }

    /// Caches `metrics` under `key`, which holds nothing yet.
    pub fn insert_new(&mut self, key: MessageRowContentMetricsCacheKey, metrics: MessageRowContentMetrics)
        requires
            old(self).wf(),
            !old(self)@.contains_key(key),
        ensures
            final(self).wf(),
            final(self)@ == old(self)@.insert(key, metrics),
    {
        let ghost new_map = self.entries@.insert(key, metrics);
        let ghost entries = self.entries@;
        let ghost old_slots = self.slots@;
        let ghost n = old_slots.len();
        proof {
            assert forall|j: int| 0 <= j < n implies #[trigger] old_slots[j].key != key by {
                assert(entries.contains_key(old_slots[j].key));
            }
        }
        self.slots.push(MetricsSlot { key, metrics });
        self.entries = Ghost(new_map);
        proof {
            let slots = self.slots@;
            assert forall|k: MessageRowContentMetricsCacheKey| #[trigger] new_map.contains_key(k) implies exists|i: int|
                0 <= i < slots.len() && #[trigger] slots[i].key == k by {
                if k == key {
                    assert(slots[n as int].key == k);
                } else {
                    assert(entries.contains_key(k));
                    let i = choose|i: int| 0 <= i < n && #[trigger] old_slots[i].key == k;
                    assert(slots[i].key == old_slots[i].key);
                }
            }
            assert forall|i: int, j: int| 0 <= i < j < slots.len() implies #[trigger] slots[i].key
                != #[trigger] slots[j].key by {
                if j == n {
                    assert(slots[i].key == old_slots[i].key);
                } else {
                    assert(old_slots[i].key != old_slots[j].key);
                }
            }
            assert forall|i: int| 0 <= i < slots.len() implies new_map.contains_key(#[trigger] slots[i].key)
                && new_map[slots[i].key] == slots[i].metrics by {
                if i < n {
                    assert(entries.contains_key(old_slots[i].key));
                    assert(slots[i] == old_slots[i]);
                }
            }
        }
    }
}

impl DashboardState {
    /// The content rows of `message`, shown as the message at `index`: where the loaded
    /// message there is that message, the measurement is taken from `cache` or, made
    /// by `compute` once, stored there; otherwise it is made by `compute` and not kept.
    pub fn message_row_content_metrics(
        &self,
        cache: &mut MessageRowContentMetricsCache,
        index: usize,
        message: &MessageState,
        content_width: usize,
        preview_width: u16,
        max_preview_height: u16,
        show_custom_emoji: bool,
        compute: impl Fn() -> MessageRowContentMetrics,
    ) -> (r: MessageRowContentMetrics)
        requires
            old(cache).wf(),
            compute.requires(()),
        ensures
            final(cache).wf(),
            ({
                let key = metrics_cache_key(
                    message.id,
                    content_width,
                    preview_width,
                    max_preview_height,
                    show_custom_emoji,
                );
                if index < self.messages.messages@.len() && self.messages.messages@[index as int].id
                    == message.id {
                    if old(cache)@.contains_key(key) {
                        r == old(cache)@[key] && final(cache)@ == old(cache)@
                    } else {
                        compute.ensures((), r) && final(cache)@ == old(cache)@.insert(key, r)
                    }
                } else {
                    compute.ensures((), r) && final(cache)@ == old(cache)@
                }
            }),
    {
        if index >= self.messages.messages.len() || self.messages.messages[index].id != message.id {
            return compute();
        }
        let key = MessageRowContentMetricsCacheKey {
            message_id: message.id,
            content_width,
            preview_width,
            max_preview_height,
            show_custom_emoji,
        };
        match cache.get(key) {
            Some(metrics) => metrics,
            None => {
                let metrics = compute();
                cache.insert_new(key, metrics);
                metrics
            },
        }
    }
}

} // verus!
