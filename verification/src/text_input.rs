use vstd::prelude::*;

use crate::unicode::{
    char_is_whitespace, grapheme_lengths_cover, char_utf8_width, is_whitespace_char, lemma_utf8_len_concat,
    lemma_utf8_len_take_mono, lemma_utf8_len_take_step, next_grapheme_boundary,
    next_grapheme_end, previous_grapheme_boundary, previous_grapheme_start, str_chars,
    string_from_chars, utf8_len, utf8_width,
};

verus! {

/// Largest byte length a text input can hold, the limit `String` allocation has.
pub open spec fn max_text_bytes() -> int {
    isize::MAX as int
}

/// Whether the UTF-8 encoding of `s` stays within what a text input can hold.
pub open spec fn fits_in_input(s: Seq<char>) -> bool {
    utf8_len(s) <= max_text_bytes()
}

/// Byte offset in the UTF-8 encoding of `s` at which char index `k` starts.
pub open spec fn byte_offset(s: Seq<char>, k: int) -> int {
    utf8_len(s.take(k)) as int
}

/// Whether byte offset `b` falls on a char boundary of the UTF-8 encoding of `s`.
pub open spec fn is_byte_char_boundary(s: Seq<char>, b: int) -> bool {
    exists|k: int| 0 <= k <= s.len() && #[trigger] byte_offset(s, k) == b
}

/// The char index at which byte offset `b` starts, where `b` is a char boundary.
pub open spec fn char_index_at_byte(s: Seq<char>, b: int) -> int {
    choose|k: int| 0 <= k <= s.len() && #[trigger] byte_offset(s, k) == b
}

/// Index reached from `i` by stepping left over whitespace.
pub open spec fn skip_whitespace_left(s: Seq<char>, i: int) -> int
    decreases i,
{
    if 0 < i <= s.len() && is_whitespace_char(s[i - 1]) {
        skip_whitespace_left(s, i - 1)
    } else {
        i
    }
}

/// Index reached from `i` by stepping left over non-whitespace.
pub open spec fn skip_word_left(s: Seq<char>, i: int) -> int
    decreases i,
{
    if 0 < i <= s.len() && !is_whitespace_char(s[i - 1]) {
        skip_word_left(s, i - 1)
    } else {
        i
    }
}

/// Index reached from `i` by stepping right over whitespace.
pub open spec fn skip_whitespace_right(s: Seq<char>, i: int) -> int
    decreases s.len() - i,
{
    if 0 <= i < s.len() && is_whitespace_char(s[i]) {
        skip_whitespace_right(s, i + 1)
    } else {
        i
    }
}

/// Index reached from `i` by stepping right over non-whitespace.
pub open spec fn skip_word_right(s: Seq<char>, i: int) -> int
    decreases s.len() - i,
{
    if 0 <= i < s.len() && !is_whitespace_char(s[i]) {
        skip_word_right(s, i + 1)
    } else {
        i
    }
}

/// Start of the word before `i`: whitespace, then the word, are skipped leftwards.
pub open spec fn previous_word_start(s: Seq<char>, i: int) -> int {
    skip_word_left(s, skip_whitespace_left(s, i))
}

/// End of the word after `i`: whitespace, then the word, are skipped rightwards.
pub open spec fn next_word_end(s: Seq<char>, i: int) -> int {
    skip_word_right(s, skip_whitespace_right(s, i))
}

/// Start of the line holding index `i`.
pub open spec fn line_start(s: Seq<char>, i: int) -> int
    decreases i,
{
    if 0 < i <= s.len() && s[i - 1] != '\n' {
        line_start(s, i - 1)
    } else {
        i
    }
}

/// End (the newline or the end of the text) of the line holding index `i`.
pub open spec fn line_end(s: Seq<char>, i: int) -> int
    decreases s.len() - i,
{
    if 0 <= i < s.len() && s[i] != '\n' {
        line_end(s, i + 1)
    } else {
        i
    }
}

/// Where the cursor lands when it moves one line up (`up`) or down from index `i`,
/// keeping its column in chars where the target line is long enough; `None` when
/// there is no line in that direction.
pub open spec fn vertical_target(s: Seq<char>, i: int, up: bool) -> Option<int> {
    let start = line_start(s, i);
    let column = i - start;
    if up {
        if start == 0 {
            None
        } else {
            let prev_start = line_start(s, start - 1);
            let prev_len = (start - 1) - prev_start;
            Some(prev_start + if column < prev_len { column } else { prev_len })
        }
    } else {
        let end = line_end(s, i);
        if end >= s.len() {
            None
        } else {
            let next_start = end + 1;
            let next_len = line_end(s, next_start) - next_start;
            Some(next_start + if column < next_len { column } else { next_len })
        }
    }
}

proof fn lemma_line_end_props(s: Seq<char>, i: int)
    requires
        0 <= i <= s.len(),
    ensures
        i <= line_end(s, i) <= s.len(),
        line_end(s, i) < s.len() ==> s[line_end(s, i)] == '\n',
        forall|k: int| i <= k < line_end(s, i) ==> s[k] != '\n',
    decreases s.len() - i,
{
    if i < s.len() && s[i] != '\n' {
        lemma_line_end_props(s, i + 1);
    }
}

proof fn lemma_line_start_props(s: Seq<char>, i: int)
    requires
        0 <= i <= s.len(),
    ensures
        0 <= line_start(s, i) <= i,
        line_start(s, i) > 0 ==> s[line_start(s, i) - 1] == '\n',
        forall|k: int| line_start(s, i) <= k < i ==> s[k] != '\n',
    decreases i,
{
    if 0 < i && s[i - 1] != '\n' {
        lemma_line_start_props(s, i - 1);
    }
}

proof fn lemma_line_start_of_line(s: Seq<char>, start: int, t: int)
    requires
        0 <= start <= t <= s.len(),
        start == 0 || s[start - 1] == '\n',
        forall|k: int| start <= k < t ==> s[k] != '\n',
    ensures
        line_start(s, t) == start,
    decreases t - start,
{
    if t > start {
        assert(s[t - 1] != '\n');
        lemma_line_start_of_line(s, start, t - 1);
    }
}

/// Moving down from a line that has another below keeps the column: the cursor lands
/// on the next line (just past the newline that ends the current one), at the same
/// column, or at that line's end when it is shorter.
pub proof fn law_moving_down_keeps_the_column(s: Seq<char>, i: int)
    requires
        0 <= i <= s.len(),
        exists|k: int| i <= k < s.len() && s[k] == '\n',
    ensures
        ({
            let start = line_start(s, i);
            let column = i - start;
            let newline = line_end(s, i);
            let next_start = newline + 1;
            let next_len = line_end(s, next_start) - next_start;
            &&& i <= newline < s.len()
            &&& s[newline] == '\n'
            &&& forall|k: int| i <= k < newline ==> s[k] != '\n'
            &&& vertical_target(s, i, false) matches Some(t) && {
                &&& line_start(s, t) == next_start
                &&& next_start <= t <= line_end(s, next_start)
                &&& t - next_start == if column < next_len {
                    column
                } else {
                    next_len
                }
                &&& (column <= next_len ==> t - next_start == column)
                &&& (column > next_len ==> t == line_end(s, next_start))
            }
        }),
{
    lemma_line_end_props(s, i);
    lemma_line_start_props(s, i);
    let newline = line_end(s, i);
    let k = choose|k: int| i <= k < s.len() && s[k] == '\n';
    assert(newline <= k);
    let next_start = newline + 1;
    lemma_line_end_props(s, next_start);
    let t = vertical_target(s, i, false)->0;
    assert(forall|j: int| next_start <= j < t ==> s[j] != '\n');
    lemma_line_start_of_line(s, next_start, t);
}

/// Moving up from a line that has another above keeps the column: the cursor lands on
/// the previous line, at the same column, or at that line's end when it is shorter.
pub proof fn law_moving_up_keeps_the_column(s: Seq<char>, i: int)
    requires
        0 <= i <= s.len(),
        exists|k: int| 0 <= k < i && s[k] == '\n',
    ensures
        ({
            let start = line_start(s, i);
            let column = i - start;
            let prev_end = start - 1;
            let prev_start = line_start(s, prev_end);
            let prev_len = prev_end - prev_start;
            &&& 0 < start
            &&& s[prev_end] == '\n'
            &&& forall|k: int| start <= k < i ==> s[k] != '\n'
            &&& vertical_target(s, i, true) matches Some(t) && {
                &&& line_start(s, t) == prev_start
                &&& prev_start <= t <= prev_end
                &&& t - prev_start == if column < prev_len {
                    column
                } else {
                    prev_len
                }
                &&& (column <= prev_len ==> t - prev_start == column)
                &&& (column > prev_len ==> t == prev_end)
            }
        }),
{
    lemma_line_start_props(s, i);
    let start = line_start(s, i);
    let k = choose|k: int| 0 <= k < i && s[k] == '\n';
    assert(k < start) by {
        if k >= start {
            assert(s[k] != '\n');
        }
    }
    let prev_end = start - 1;
    lemma_line_start_props(s, prev_end);
    let prev_start = line_start(s, prev_end);
    let t = vertical_target(s, i, true)->0;
    assert(forall|j: int| prev_start <= j < t ==> s[j] != '\n');
    lemma_line_start_of_line(s, prev_start, t);
}

proof fn lemma_skip_left_bounds(s: Seq<char>, i: int)
    requires
        0 <= i <= s.len(),
    ensures
        0 <= skip_whitespace_left(s, i) <= i,
        0 <= skip_word_left(s, i) <= i,
        0 <= line_start(s, i) <= i,
    decreases i,
{
    if i > 0 {
        lemma_skip_left_bounds(s, i - 1);
    }
}

proof fn lemma_skip_right_bounds(s: Seq<char>, i: int)
    requires
        0 <= i <= s.len(),
    ensures
        i <= skip_whitespace_right(s, i) <= s.len(),
        i <= skip_word_right(s, i) <= s.len(),
        i <= line_end(s, i) <= s.len(),
    decreases s.len() - i,
{
    if i < s.len() {
        lemma_skip_right_bounds(s, i + 1);
    }
}

/// An editable single- or multi-line text value with a cursor. The cursor sits
/// between chars; byte offsets given out refer to the UTF-8 encoding of the value.
#[derive(Debug)]
pub struct TextInputState {
    value: String,
    chars: Vec<char>,
    cursor: usize,
}

impl TextInputState {
    #[verifier::type_invariant]
    spec fn inv(self) -> bool {
        &&& self.value@ == self.chars@
        &&& self.cursor <= self.chars.len()
        &&& fits_in_input(self.chars@)
    }

    /// The chars of the value.
    pub closed spec fn text(&self) -> Seq<char> {
        self.chars@
    }

    /// The cursor, as the number of chars before it.
    pub closed spec fn cursor(&self) -> int {
        self.cursor as int
    }

    /// The cursor is never past the end and the value fits.
    pub fn well_formed(&self) -> (b: bool)
        ensures
            b,
            0 <= self.cursor() <= self.text().len(),
            fits_in_input(self.text()),
    {
        proof {
            use_type_invariant(self);
        }
        true
    }

    fn from_parts(chars: Vec<char>, cursor: usize) -> (r: Self)
        requires
            cursor <= chars.len(),
            fits_in_input(chars@),
        ensures
            r.text() == chars@,
            r.cursor() == cursor,
    {
        let value = string_from_chars(chars.as_slice());
        TextInputState { value, chars, cursor }
    }

    /// An empty input with the cursor at the start.
    pub fn new() -> (r: Self)
        ensures
            r.text() == Seq::<char>::empty(),
            r.cursor() == 0,
    {
        Self::from_parts(Vec::new(), 0)
    }

    /// The current value.
    pub fn value(&self) -> (s: &str)
        ensures
            s@ == self.text(),
    {
        proof {
            use_type_invariant(self);
        }
        self.value.as_str()
    }

    /// Byte offset of the cursor in the UTF-8 encoding of the value; always a char boundary.
    pub fn cursor_byte_index(&self) -> (b: usize)
        ensures
            b == byte_offset(self.text(), self.cursor()),
            is_byte_char_boundary(self.text(), b as int),
    {
        proof {
            use_type_invariant(self);
        }
        let mut total: usize = 0;
        let mut k: usize = 0;
        while k < self.cursor
            invariant
                self.cursor <= self.chars.len(),
                fits_in_input(self.chars@),
                k <= self.cursor,
                total == byte_offset(self.chars@, k as int),
            decreases self.cursor - k,
        {
            proof {
                lemma_utf8_len_take_step(self.chars@, k as int);
                lemma_utf8_len_take_mono(self.chars@, k + 1, self.chars@.len() as int);
                assert(self.chars@.take(self.chars@.len() as int) =~= self.chars@);
            }
            total = total + char_utf8_width(self.chars[k]);
            k = k + 1;
        }
        proof {
            assert(byte_offset(self.chars@, self.cursor as int) == total);
        }
        total
    }

    /// Replaces the value and puts the cursor at its end.
    pub fn set_value(&mut self, value: String)
        requires
            fits_in_input(value@),
        ensures
            final(self).text() == value@,
            final(self).cursor() == value@.len(),
    {
        let chars = str_chars(value.as_str());
        let cursor = chars.len();
        *self = TextInputState { value, chars, cursor };
    }

    /// Empties the value.
    pub fn clear(&mut self)
        ensures
            final(self).text() == Seq::<char>::empty(),
            final(self).cursor() == 0,
    {
        *self = Self::new();
    }

    /// Inserts `value` at the cursor and moves the cursor after it.
    pub fn insert_char(&mut self, value: char)
        requires
            utf8_len(old(self).text()) + utf8_width(value) <= max_text_bytes(),
        ensures
            final(self).text() == old(self).text().insert(old(self).cursor(), value),
            final(self).cursor() == old(self).cursor() + 1,
    {
        proof {
            use_type_invariant(&*self);
        }
        let ghost old_text = self.chars@;
        let mut chars = self.chars.clone();
        let cursor = self.cursor;
        chars.insert(cursor, value);
        proof {
            assert(chars@ =~= old_text.take(cursor as int) + seq![value] + old_text.skip(
                cursor as int,
            ));
            assert(old_text =~= old_text.take(cursor as int) + old_text.skip(cursor as int));
            lemma_utf8_len_concat(old_text.take(cursor as int), old_text.skip(cursor as int));
            lemma_utf8_len_concat(old_text.take(cursor as int), seq![value]);
            lemma_utf8_len_concat(
                old_text.take(cursor as int) + seq![value],
                old_text.skip(cursor as int),
            );
            assert(seq![value].drop_last() =~= Seq::<char>::empty());
            reveal_with_fuel(utf8_len, 2);
            assert(chars.len() == old_text.len() + 1);
        }
        *self = Self::from_parts(chars, cursor + 1);
    }

    /// Inserts `value` at the cursor and moves the cursor after it; does nothing for an
    /// empty `value`.
    pub fn insert_str(&mut self, value: &str)
        requires
            utf8_len(old(self).text()) + utf8_len(value@) <= max_text_bytes(),
        ensures
            final(self).text() == old(self).text().take(old(self).cursor()) + value@ + old(self).text().skip(old(self).cursor()),
            final(self).cursor() == old(self).cursor() + value@.len(),
    {
        proof {
            use_type_invariant(&*self);
        }
        let ghost old_text = self.chars@;
        let inserted = str_chars(value);
        if inserted.len() == 0 {
            assert(old_text =~= old_text.take(self.cursor as int) + value@ + old_text.skip(
                self.cursor as int,
            ));
            return ;
        }
        let cursor = self.cursor;
        let mut chars: Vec<char> = Vec::new();
        let mut i: usize = 0;
        while i < cursor
            invariant
                cursor <= self.chars.len(),
                i <= cursor,
                chars@ =~= self.chars@.take(i as int),
            decreases cursor - i,
        {
            chars.push(self.chars[i]);
            i = i + 1;
        }
        let mut j: usize = 0;
        while j < inserted.len()
            invariant
                j <= inserted.len(),
                chars@ =~= self.chars@.take(cursor as int) + inserted@.take(j as int),
            decreases inserted.len() - j,
        {
            chars.push(inserted[j]);
            j = j + 1;
        }
        let mut k: usize = cursor;
        while k < self.chars.len()
            invariant
                cursor <= k <= self.chars.len(),
                chars@ =~= self.chars@.take(cursor as int) + inserted@ + self.chars@.subrange(
                    cursor as int,
                    k as int,
                ),
            decreases self.chars.len() - k,
        {
            chars.push(self.chars[k]);
            k = k + 1;
        }
        proof {
            assert(inserted@.take(inserted@.len() as int) =~= inserted@);
            assert(self.chars@.subrange(cursor as int, self.chars@.len() as int)
                =~= old_text.skip(cursor as int));
            assert(old_text =~= old_text.take(cursor as int) + old_text.skip(cursor as int));
            lemma_utf8_len_concat(old_text.take(cursor as int), old_text.skip(cursor as int));
            lemma_utf8_len_concat(old_text.take(cursor as int), inserted@);
            lemma_utf8_len_concat(
                old_text.take(cursor as int) + inserted@,
                old_text.skip(cursor as int),
            );
            assert(chars.len() == old_text.len() + inserted.len());
        }
        *self = Self::from_parts(chars, cursor + inserted.len());
    }

    /// Char index at which byte offset `b` of the value starts, if `b` is a char boundary.
    fn char_index_of_byte(&self, b: usize) -> (r: Option<usize>)
        ensures
            r is Some <==> is_byte_char_boundary(self.text(), b as int),
            r matches Some(k) ==> k <= self.text().len() && byte_offset(self.text(), k as int)
                == b && k == char_index_at_byte(self.text(), b as int),
    {
        proof {
            use_type_invariant(self);
        }
        let ghost s = self.chars@;
        let mut total: usize = 0;
        let mut k: usize = 0;
        while k < self.chars.len()
            invariant
                s == self.chars@,
                fits_in_input(s),
                k <= s.len(),
                total == byte_offset(s, k as int),
                forall|j: int| 0 <= j < k ==> #[trigger] byte_offset(s, j) < b,
            ensures
                total >= b || k == s.len(),
                total == byte_offset(s, k as int),
                forall|j: int| 0 <= j < k ==> #[trigger] byte_offset(s, j) < b,
            decreases s.len() - k,
        {
            if total >= b {
                break ;
            }
            proof {
                lemma_utf8_len_take_step(s, k as int);
                lemma_utf8_len_take_mono(s, k + 1, s.len() as int);
                assert(s.take(s.len() as int) =~= s);
            }
            total = total + char_utf8_width(self.chars[k]);
            k = k + 1;
        }
        if total == b {
            proof {
                let c = char_index_at_byte(s, b as int);
                assert(byte_offset(s, k as int) == b);
                assert(0 <= c <= s.len() && byte_offset(s, c) == b);
                if c < k {
                    lemma_utf8_len_take_mono(s, c, k as int);
                } else if c > k {
                    lemma_utf8_len_take_mono(s, k as int, c);
                }
            }
            Some(k)
        } else {
            proof {
                assert forall|j: int| 0 <= j <= s.len() implies #[trigger] byte_offset(s, j)
                    != b by {
                    if j > k {
                        lemma_utf8_len_take_mono(s, k as int, j);
                    }
                }
            }
            None
        }
    }

    /// Replaces the chars between byte offsets `range.start` and `range.end` with
    /// `replacement` and puts the cursor after it. Refuses, changing nothing, where the
    /// range is reversed or an end is not a char boundary of the value.
    pub fn replace_range(&mut self, range: std::ops::Range<usize>, replacement: &str) -> (ok:
        bool)
        requires
            utf8_len(old(self).text()) + utf8_len(replacement@) <= max_text_bytes(),
        ensures
            ok == (range.start <= range.end && is_byte_char_boundary(
                old(self).text(),
                range.start as int,
            ) && is_byte_char_boundary(old(self).text(), range.end as int)),
            ok ==> {
                let s = old(self).text();
                let from = char_index_at_byte(s, range.start as int);
                let to = char_index_at_byte(s, range.end as int);
                &&& final(self).text() == s.take(from) + replacement@ + s.skip(to)
                &&& final(self).cursor() == from + replacement@.len()
            },
            !ok ==> final(self).text() == old(self).text() && final(self).cursor() == old(self).cursor(),
    {
        proof {
            use_type_invariant(&*self);
        }
        if range.start > range.end {
            return false;
        }
        let from = match self.char_index_of_byte(range.start) {
            Some(k) => k,
            None => {
                return false;
            },
        };
        let to = match self.char_index_of_byte(range.end) {
            Some(k) => k,
            None => {
                return false;
            },
        };
        let ghost s = self.chars@;
        proof {
            if from > to {
                lemma_utf8_len_take_mono(s, to as int, from as int);
            }
        }
        let inserted = str_chars(replacement);
        let mut chars: Vec<char> = Vec::new();
        let mut i: usize = 0;
        while i < from
            invariant
                from <= to <= s.len(),
                s == self.chars@,
                i <= from,
                chars@ =~= s.take(i as int),
            decreases from - i,
        {
            chars.push(self.chars[i]);
            i = i + 1;
        }
        let mut j: usize = 0;
        while j < inserted.len()
            invariant
                j <= inserted.len(),
                chars@ =~= s.take(from as int) + inserted@.take(j as int),
            decreases inserted.len() - j,
        {
            chars.push(inserted[j]);
            j = j + 1;
        }
        let mut k: usize = to;
        while k < self.chars.len()
            invariant
                from <= to <= k <= s.len(),
                s == self.chars@,
                chars@ =~= s.take(from as int) + inserted@ + s.subrange(to as int, k as int),
            decreases s.len() - k,
        {
            chars.push(self.chars[k]);
            k = k + 1;
        }
        proof {
            assert(inserted@.take(inserted@.len() as int) =~= inserted@);
            assert(s.subrange(to as int, s.len() as int) =~= s.skip(to as int));
            assert(s =~= s.take(from as int) + s.subrange(from as int, to as int) + s.skip(
                to as int,
            ));
            lemma_utf8_len_concat(s.take(from as int), s.subrange(from as int, to as int));
            lemma_utf8_len_concat(
                s.take(from as int) + s.subrange(from as int, to as int),
                s.skip(to as int),
            );
            lemma_utf8_len_concat(s.take(from as int), inserted@);
            lemma_utf8_len_concat(s.take(from as int) + inserted@, s.skip(to as int));
            assert(chars.len() == from + inserted.len() + (s.len() - to));
        }
        *self = Self::from_parts(chars, from + inserted.len());
        true
    }

    /// Removes the chars from `from` to the cursor and puts the cursor at `from`.
    fn delete_back_to(&mut self, from: usize)
        requires
            from <= old(self).cursor(),
        ensures
            final(self).text() == old(self).text().take(from as int) + old(self).text().skip(
                old(self).cursor(),
            ),
            final(self).cursor() == from,
    {
        proof {
            use_type_invariant(&*self);
        }
        let ghost s = self.chars@;
        let to = self.cursor;
        let mut chars: Vec<char> = Vec::new();
        let mut i: usize = 0;
        while i < from
            invariant
                from <= to <= s.len(),
                s == self.chars@,
                i <= from,
                chars@ =~= s.take(i as int),
            decreases from - i,
        {
            chars.push(self.chars[i]);
            i = i + 1;
        }
        let mut k: usize = to;
        while k < self.chars.len()
            invariant
                from <= to <= k <= s.len(),
                s == self.chars@,
                chars@ =~= s.take(from as int) + s.subrange(to as int, k as int),
            decreases s.len() - k,
        {
            chars.push(self.chars[k]);
            k = k + 1;
        }
        proof {
            assert(s.subrange(to as int, s.len() as int) =~= s.skip(to as int));
            assert(s =~= s.take(from as int) + s.subrange(from as int, to as int) + s.skip(
                to as int,
            ));
            lemma_utf8_len_concat(s.take(from as int), s.subrange(from as int, to as int));
            lemma_utf8_len_concat(
                s.take(from as int) + s.subrange(from as int, to as int),
                s.skip(to as int),
            );
            lemma_utf8_len_concat(s.take(from as int), s.skip(to as int));
        }
        *self = Self::from_parts(chars, from);
    }

    /// Deletes the grapheme cluster before the cursor; `false`, changing nothing, at the start.
    pub fn delete_previous_grapheme(&mut self) -> (deleted: bool)
        ensures
            deleted == (old(self).cursor() > 0),
            deleted ==> {
                let start = previous_grapheme_start(old(self).text(), old(self).cursor());
                &&& final(self).text() == old(self).text().take(start) + old(self).text().skip(
                    old(self).cursor(),
                )
                &&& final(self).cursor() == start
            },
            !deleted ==> final(self).text() == old(self).text() && final(self).cursor() == 0,
    {
        proof {
            use_type_invariant(&*self);
        }
        if self.cursor == 0 {
            return false;
        }
        let start = previous_grapheme_boundary(&self.chars, self.cursor);
        self.delete_back_to(start);
        true
    }

    /// Deletes the word (and the whitespace after it) before the cursor; `false`,
    /// changing nothing, at the start.
    pub fn delete_previous_word(&mut self) -> (deleted: bool)
        ensures
            deleted == (old(self).cursor() > 0),
            deleted ==> {
                let start = previous_word_start(old(self).text(), old(self).cursor());
                &&& final(self).text() == old(self).text().take(start) + old(self).text().skip(
                    old(self).cursor(),
                )
                &&& final(self).cursor() == start
            },
            !deleted ==> final(self).text() == old(self).text() && final(self).cursor() == 0,
    {
        proof {
            use_type_invariant(&*self);
        }
        if self.cursor == 0 {
            return false;
        }
        let start = self.word_start_before_cursor();
        self.delete_back_to(start);
        true
    }

    fn word_start_before_cursor(&self) -> (r: usize)
        ensures
            r == previous_word_start(self.text(), self.cursor()),
            r <= self.cursor(),
    {
        proof {
            use_type_invariant(self);
        }
        let ghost s = self.chars@;
        let mut i = self.cursor;
        while i > 0 && char_is_whitespace(self.chars[i - 1])
            invariant
                s == self.chars@,
                i <= self.cursor <= s.len(),
                skip_whitespace_left(s, i as int) == skip_whitespace_left(s, self.cursor as int),
            decreases i,
        {
            i = i - 1;
        }
        let ghost mid = i;
        while i > 0 && !char_is_whitespace(self.chars[i - 1])
            invariant
                s == self.chars@,
                i <= mid <= self.cursor <= s.len(),
                mid == skip_whitespace_left(s, self.cursor as int),
                skip_word_left(s, i as int) == skip_word_left(s, mid as int),
            decreases i,
        {
            i = i - 1;
        }
        i
    }

    fn word_end_after_cursor(&self) -> (r: usize)
        ensures
            r == next_word_end(self.text(), self.cursor()),
            self.cursor() <= r <= self.text().len(),
    {
        proof {
            use_type_invariant(self);
        }
        let ghost s = self.chars@;
        let mut i = self.cursor;
        while i < self.chars.len() && char_is_whitespace(self.chars[i])
            invariant
                s == self.chars@,
                self.cursor <= i <= s.len(),
                skip_whitespace_right(s, i as int) == skip_whitespace_right(
                    s,
                    self.cursor as int,
                ),
            decreases s.len() - i,
        {
            i = i + 1;
        }
        let ghost mid = i;
        while i < self.chars.len() && !char_is_whitespace(self.chars[i])
            invariant
                s == self.chars@,
                self.cursor <= mid <= i <= s.len(),
                mid == skip_whitespace_right(s, self.cursor as int),
                skip_word_right(s, i as int) == skip_word_right(s, mid as int),
            decreases s.len() - i,
        {
            i = i + 1;
        }
        i
    }

    /// Moves the cursor to the start of the grapheme cluster before it (stays at the start).
    pub fn move_left(&mut self)
        ensures
            final(self).text() == old(self).text(),
            old(self).cursor() == 0 ==> final(self).cursor() == 0,
            old(self).cursor() > 0 ==> final(self).cursor() == previous_grapheme_start(
                old(self).text(),
                old(self).cursor(),
            ),
            old(self).cursor() > 0 ==> grapheme_lengths_cover(old(self).text()),
    {
        proof {
            use_type_invariant(&*self);
        }
        if self.cursor > 0 {
            let target = previous_grapheme_boundary(&self.chars, self.cursor);
            self.cursor = target;
        }
    }

    /// Moves the cursor to the end of the grapheme cluster after it (stays at the end).
    pub fn move_right(&mut self)
        ensures
            final(self).text() == old(self).text(),
            old(self).cursor() == old(self).text().len() ==> final(self).cursor() == old(self).cursor(),
            old(self).cursor() < old(self).text().len() ==> final(self).cursor()
                == next_grapheme_end(old(self).text(), old(self).cursor()),
            old(self).cursor() < old(self).text().len() ==> grapheme_lengths_cover(old(self).text()),
    {
        proof {
            use_type_invariant(&*self);
        }
        let target = next_grapheme_boundary(&self.chars, self.cursor);
        self.cursor = target;
    }

    /// Moves the cursor to the start of the word before it.
    pub fn move_word_left(&mut self)
        ensures
            final(self).text() == old(self).text(),
            final(self).cursor() == previous_word_start(old(self).text(), old(self).cursor()),
    {
        let target = self.word_start_before_cursor();
        proof {
            use_type_invariant(&*self);
        }
        self.cursor = target;
    }

    /// Moves the cursor to the end of the word after it.
    pub fn move_word_right(&mut self)
        ensures
            final(self).text() == old(self).text(),
            final(self).cursor() == next_word_end(old(self).text(), old(self).cursor()),
    {
        let target = self.word_end_after_cursor();
        proof {
            use_type_invariant(&*self);
        }
        self.cursor = target;
    }

    fn current_line_start(&self) -> (r: usize)
        ensures
            r == line_start(self.text(), self.cursor()),
    {
        proof {
            use_type_invariant(self);
        }
        let ghost s = self.chars@;
        let mut i = self.cursor;
        while i > 0 && self.chars[i - 1] != '\n'
            invariant
                s == self.chars@,
                i <= self.cursor <= s.len(),
                line_start(s, i as int) == line_start(s, self.cursor as int),
            decreases i,
        {
            i = i - 1;
        }
        i
    }

    fn line_start_at(&self, from: usize) -> (r: usize)
        requires
            from <= self.text().len(),
        ensures
            r == line_start(self.text(), from as int),
    {
        proof {
            use_type_invariant(self);
        }
        let ghost s = self.chars@;
        let mut i = from;
        while i > 0 && self.chars[i - 1] != '\n'
            invariant
                s == self.chars@,
                i <= from <= s.len(),
                line_start(s, i as int) == line_start(s, from as int),
            decreases i,
        {
            i = i - 1;
        }
        i
    }

    fn line_end_at(&self, from: usize) -> (r: usize)
        requires
            from <= self.text().len(),
        ensures
            r == line_end(self.text(), from as int),
    {
        proof {
            use_type_invariant(self);
        }
        let ghost s = self.chars@;
        let mut i = from;
        while i < self.chars.len() && self.chars[i] != '\n'
            invariant
                s == self.chars@,
                from <= i <= s.len(),
                line_end(s, i as int) == line_end(s, from as int),
            decreases s.len() - i,
        {
            i = i + 1;
        }
        i
    }

    fn vertical_cursor_target(&self, up: bool) -> (r: Option<usize>)
        ensures
            match vertical_target(self.text(), self.cursor(), up) {
                Some(t) => r == Some(t as usize) && 0 <= t <= self.text().len(),
                None => r is None,
            },
    {
        proof {
            use_type_invariant(self);
            lemma_skip_left_bounds(self.chars@, self.cursor as int);
            lemma_skip_right_bounds(self.chars@, self.cursor as int);
        }
        let start = self.current_line_start();
        let column = self.cursor - start;
        if up {
            if start == 0 {
                return None;
            }
            let prev_start = self.line_start_at(start - 1);
            proof {
                lemma_skip_left_bounds(self.chars@, start - 1);
            }
            let prev_len = (start - 1) - prev_start;
            Some(prev_start + if column < prev_len { column } else { prev_len })
        } else {
            let end = self.line_end_at(self.cursor);
            if end >= self.chars.len() {
                return None;
            }
            let next_start = end + 1;
            let next_end = self.line_end_at(next_start);
            proof {
                lemma_skip_right_bounds(self.chars@, next_start as int);
            }
            let next_len = next_end - next_start;
            Some(next_start + if column < next_len { column } else { next_len })
        }
    }

    /// Moves the cursor one line up, keeping its column where that line is long
    /// enough; does nothing on the first line.
    pub fn move_up(&mut self)
        ensures
            final(self).text() == old(self).text(),
            final(self).cursor() == match vertical_target(old(self).text(), old(self).cursor(), true) {
                Some(t) => t,
                None => old(self).cursor(),
            },
    {
        if let Some(target) = self.vertical_cursor_target(true) {
            proof {
                use_type_invariant(&*self);
            }
            self.cursor = target;
        }
    }

    /// Moves the cursor one line down, keeping its column where that line is long
    /// enough; does nothing on the last line.
    pub fn move_down(&mut self)
        ensures
            final(self).text() == old(self).text(),
            final(self).cursor() == match vertical_target(old(self).text(), old(self).cursor(), false) {
                Some(t) => t,
                None => old(self).cursor(),
            },
    {
        if let Some(target) = self.vertical_cursor_target(false) {
            proof {
                use_type_invariant(&*self);
            }
            self.cursor = target;
        }
    }

    /// Moves the cursor to the start of the value.
    pub fn move_home(&mut self)
        ensures
            final(self).text() == old(self).text(),
            final(self).cursor() == 0,
    {
        proof {
            use_type_invariant(&*self);
        }
        self.cursor = 0;
    }

    /// Moves the cursor to the end of the value.
    pub fn move_end(&mut self)
        ensures
            final(self).text() == old(self).text(),
            final(self).cursor() == old(self).text().len(),
    {
        proof {
            use_type_invariant(&*self);
        }
        self.cursor = self.chars.len();
    }
}

impl Default for TextInputState {
    fn default() -> (r: Self)
        ensures
            r.text() == Seq::<char>::empty(),
            r.cursor() == 0,
    {
        Self::new()
    }
}

} // verus!
