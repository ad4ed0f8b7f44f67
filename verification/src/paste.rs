use vstd::prelude::*;
use vstd::utf8::{decode_utf8, encode_utf8, valid_utf8};

use crate::text_util::{
    has_prefix, newline_piece_bounds, newline_pieces, push_chars, slice_chars,
    starts_with_chars, trim_range, trimmed,
};
use crate::state::{AttachmentUpload, ComposerState, DashboardState};
use crate::text_input::{max_text_bytes, TextInputState};
use crate::unicode::{
    char_is_whitespace, is_whitespace_char, str_chars, str_eq, string_from_chars, utf8_len, utf8_width,
};

verus! {

/// The value of an ASCII hex digit.
pub open spec fn hex_value_spec(value: u8) -> Option<u8> {
    if 0x30 <= value <= 0x39 {
        Some((value - 0x30) as u8)
    } else if 0x61 <= value <= 0x66 {
        Some((value - 0x61 + 10) as u8)
    } else if 0x41 <= value <= 0x46 {
        Some((value - 0x41 + 10) as u8)
    } else {
        None
    }
}

/// The value of the ASCII hex digit `value`, if it is one.
pub fn hex_value(value: u8) -> (r: Option<u8>)
    ensures
        r == hex_value_spec(value),
        r matches Some(v) ==> v < 16,
{
    if 0x30 <= value && value <= 0x39 {
        Some(value - 0x30)
    } else if 0x61 <= value && value <= 0x66 {
        Some(value - 0x61 + 10)
    } else if 0x41 <= value && value <= 0x46 {
        Some(value - 0x41 + 10)
    } else {
        None
    }
}

/// `bytes` with every `%XY` escape replaced by the byte it encodes; `None` when an
/// escape is cut short or holds a non-hex digit.
pub open spec fn percent_decoded(bytes: Seq<u8>) -> Option<Seq<u8>>
    decreases bytes.len(),
{
    if bytes.len() == 0 {
        Some(Seq::empty())
    } else if bytes[0] == 0x25 {
        if bytes.len() < 3 {
            None
        } else {
            match (hex_value_spec(bytes[1]), hex_value_spec(bytes[2])) {
                (Some(high), Some(low)) => match percent_decoded(bytes.skip(3)) {
                    Some(rest) => Some(seq![(high * 16 + low) as u8] + rest),
                    None => None,
                },
                _ => None,
            }
        }
    } else {
        match percent_decoded(bytes.skip(1)) {
            Some(rest) => Some(seq![bytes[0]] + rest),
            None => None,
        }
    }
}

/// The text a percent-encoded string stands for: its UTF-8 bytes decoded, when the
/// result is UTF-8 again.
pub open spec fn percent_decode_spec(value: Seq<char>) -> Option<Seq<char>> {
    match percent_decoded(encode_utf8(value)) {
        Some(bytes) => if valid_utf8(bytes) {
            Some(decode_utf8(bytes))
        } else {
            None
        },
        None => None,
    }
}

/// Reads `bytes` as UTF-8 with `String::from_utf8` (std), which succeeds exactly on
/// valid UTF-8 and then holds the chars those bytes encode.
#[verifier::external_body]
fn string_from_utf8(bytes: Vec<u8>) -> (r: Option<String>)
    ensures
        r is Some <==> valid_utf8(bytes@),
        r matches Some(s) ==> s@ == decode_utf8(bytes@),
{
    String::from_utf8(bytes).ok()
}

/// The bytes `done` before the decoding of `r`, or nothing.
pub open spec fn prepend_bytes(done: Seq<u8>, r: Option<Seq<u8>>) -> Option<Seq<u8>> {
    match r {
        Some(x) => Some(done + x),
        None => None,
    }
}

proof fn lemma_prepend_bytes_twice(a: Seq<u8>, b: Seq<u8>, r: Option<Seq<u8>>)
    ensures
        prepend_bytes(a, prepend_bytes(b, r)) == prepend_bytes(a + b, r),
{
    if let Some(x) = r {
        assert(a + (b + x) =~= (a + b) + x);
    }
}

/// Decodes `%XY` escapes in `value`; `None` when an escape is malformed or the
/// result is not UTF-8.
pub fn percent_decode(value: &str) -> (r: Option<String>)
    ensures
        match r {
            Some(s) => percent_decode_spec(value@) == Some(s@),
            None => percent_decode_spec(value@) is None,
        },
{
    let bytes = value.as_bytes();
    let ghost all = bytes@;
    let mut decoded: Vec<u8> = Vec::new();
    let mut index: usize = 0;
    proof {
        assert(all.skip(0) =~= all);
        if let Some(x) = percent_decoded(all) {
            assert(Seq::<u8>::empty() + x =~= x);
        }
    }
    while index < bytes.len()
        invariant
            bytes@ == all,
            all == encode_utf8(value@),
            index <= all.len(),
            percent_decoded(all) == prepend_bytes(decoded@, percent_decoded(all.skip(index as int))),
        decreases all.len() - index,
    {
        let ghost rest = all.skip(index as int);
        if bytes[index] == 0x25 {
            if bytes.len() - index < 3 {
                proof {
                    assert(rest.len() < 3 && rest[0] == 0x25);
                    assert(percent_decoded(rest) is None);
                }
                return None;
            }
            let high = hex_value(bytes[index + 1]);
            let low = hex_value(bytes[index + 2]);
            proof {
                assert(rest[1] == bytes@[index + 1] && rest[2] == bytes@[index + 2]);
            }
            match (high, low) {
                (Some(h), Some(l)) => {
                    let b = h * 16 + l;
                    proof {
                        assert(rest.skip(3) =~= all.skip(index + 3));
                        lemma_prepend_bytes_twice(
                            decoded@,
                            seq![b],
                            percent_decoded(all.skip(index + 3)),
                        );
                        assert(decoded@ + seq![b] =~= decoded@.push(b));
                    }
                    decoded.push(b);
                    index = index + 3;
                },
                _ => {
                    proof {
                        assert(percent_decoded(rest) is None);
                    }
                    return None;
                },
            }
        } else {
            let b = bytes[index];
            proof {
                assert(rest[0] == b);
                assert(rest.skip(1) =~= all.skip(index + 1));
                lemma_prepend_bytes_twice(decoded@, seq![b], percent_decoded(all.skip(index + 1)));
                assert(decoded@ + seq![b] =~= decoded@.push(b));
            }
            decoded.push(b);
            index = index + 1;
        }
    }
    proof {
        assert(all.skip(index as int) =~= Seq::<u8>::empty());
        assert(decoded@ + Seq::<u8>::empty() =~= decoded@);
    }
    string_from_utf8(decoded)
}

/// The path a `file://` URI names, given what follows `file://`: an optional
/// `localhost` host, then an absolute, percent-encoded path.
pub open spec fn file_uri_path_spec(uri_path: Seq<char>) -> Option<Seq<char>> {
    let path = if has_prefix(uri_path, "localhost"@) {
        uri_path.skip(9)
    } else {
        uri_path
    };
    if !(path.len() > 0 && path[0] == '/') {
        None
    } else {
        percent_decode_spec(path)
    }
}

/// The path a `file://` URI names, given what follows `file://`.
pub fn file_uri_path(uri_path: &str) -> (r: Option<String>)
    ensures
        match r {
            Some(s) => file_uri_path_spec(uri_path@) == Some(s@),
            None => file_uri_path_spec(uri_path@) is None,
        },
{
    let chars = str_chars(uri_path);
    let host = str_chars("localhost");
    proof {
        reveal_strlit("localhost");
    }
    let path_chars = if starts_with_chars(&chars, &host) {
        slice_chars(&chars, 9, chars.len())
    } else {
        slice_chars(&chars, 0, chars.len())
    };
    proof {
        if has_prefix(uri_path@, "localhost"@) {
            assert(path_chars@ =~= uri_path@.skip(9));
        } else {
            assert(path_chars@ =~= uri_path@);
        }
    }
    if !(path_chars.len() > 0 && path_chars[0] == '/') {
        return None;
    }
    let path = string_from_chars(path_chars.as_slice());
    percent_decode(path.as_str())
}

/// The local file a pasted value names: the path of a `file://` URI, or an absolute
/// path (one that starts at the root `/`) as it stands.
pub open spec fn pasted_file_path_spec(value: Seq<char>) -> Option<Seq<char>> {
    if has_prefix(value, "file://"@) {
        file_uri_path_spec(value.skip(7))
    } else if value.len() > 0 && value[0] == '/' {
        Some(value)
    } else {
        None
    }
}

/// The local file a pasted value names, if it names one.
pub fn pasted_file_path(value: &str) -> (r: Option<String>)
    ensures
        match r {
            Some(s) => pasted_file_path_spec(value@) == Some(s@),
            None => pasted_file_path_spec(value@) is None,
        },
{
    let chars = str_chars(value);
    let scheme = str_chars("file://");
    proof {
        reveal_strlit("file://");
    }
    if starts_with_chars(&chars, &scheme) {
        let rest = slice_chars(&chars, 7, chars.len());
        proof {
            assert(rest@ =~= value@.skip(7));
        }
        let rest_str = string_from_chars(rest.as_slice());
        return file_uri_path(rest_str.as_str());
    }
    if chars.len() > 0 && chars[0] == '/' {
        Some(string_from_chars(chars.as_slice()))
    } else {
        None
    }
}

/// Whether a trimmed pasted line carries a path: file managers add `copy` or `cut`
/// lines, a `x-special/gnome-copied-files` header and `#` comments.
pub open spec fn is_paste_path_line(line: Seq<char>) -> bool {
    &&& line.len() > 0
    &&& line != "copy"@
    &&& line != "cut"@
    &&& line != "x-special/gnome-copied-files"@
    &&& line[0] != '#'
}

/// The trimmed lines among `pieces` that carry a path, in order.
pub open spec fn paste_lines_from(pieces: Seq<Seq<char>>) -> Seq<Seq<char>>
    decreases pieces.len(),
{
    if pieces.len() == 0 {
        Seq::empty()
    } else {
        let rest = paste_lines_from(pieces.drop_last());
        let line = trimmed(pieces.last());
        if is_paste_path_line(line) {
            rest.push(line)
        } else {
            rest
        }
    }
}

/// The lines of pasted text that carry a path.
pub open spec fn meaningful_paste_lines_spec(text: Seq<char>) -> Seq<Seq<char>> {
    paste_lines_from(newline_pieces(text))
}

/// The lines of pasted `text` that may name files: trimmed, and without empty
/// lines, file manager verbs, headers and comments.
pub fn meaningful_paste_lines(text: &str) -> (r: Vec<String>)
    ensures
        r@.len() == meaningful_paste_lines_spec(text@).len(),
        forall|i: int|
            0 <= i < r@.len() ==> #[trigger] r@[i]@ == meaningful_paste_lines_spec(text@)[i],
{
    let chars = str_chars(text);
    let bounds = newline_piece_bounds(&chars);
    let ghost pieces = newline_pieces(chars@);
    let copy = str_chars("copy");
    let cut = str_chars("cut");
    let header = str_chars("x-special/gnome-copied-files");
    let mut lines: Vec<String> = Vec::new();
    let mut k: usize = 0;
    while k < bounds.len()
        invariant
            chars@ == text@,
            copy@ == "copy"@,
            cut@ == "cut"@,
            header@ == "x-special/gnome-copied-files"@,
            pieces == newline_pieces(chars@),
            bounds@.len() == pieces.len(),
            forall|m: int|
                0 <= m < bounds@.len() ==> {
                    let (a, b) = #[trigger] bounds@[m];
                    &&& a <= b <= chars@.len()
                    &&& chars@.subrange(a as int, b as int) == pieces[m]
                },
            k <= bounds@.len(),
            lines@.len() == paste_lines_from(pieces.take(k as int)).len(),
            forall|i: int|
                0 <= i < lines@.len() ==> #[trigger] lines@[i]@ == paste_lines_from(
                    pieces.take(k as int),
                )[i],
        decreases bounds@.len() - k,
    {
        let (a, b) = bounds[k];
        let (x, y) = trim_range(&chars, a, b);
        let line = slice_chars(&chars, x, y);
        proof {
            assert(pieces.take(k + 1).drop_last() =~= pieces.take(k as int));
            assert(pieces.take(k + 1).last() == pieces[k as int]);
            let piece = chars@.subrange(a as int, b as int);
            assert(line@ =~= trimmed(piece));
        }
        if line.len() > 0 && !crate::text_util::chars_eq(&line, &copy)
            && !crate::text_util::chars_eq(&line, &cut) && !crate::text_util::chars_eq(
            &line,
            &header,
        ) && line[0] != '#' {
            lines.push(string_from_chars(line.as_slice()));
        }
        k = k + 1;
    }
    proof {
        assert(pieces.take(pieces.len() as int) =~= pieces);
    }
    lines
}

/// The words a shell would read from `s` from index `i` on, with the word `cur`
/// begun and the quote state given: whitespace outside quotes separates words,
/// quotes group, and a backslash outside single quotes takes the next char as it is.
/// `None` when a quote stays open or a backslash ends the line.
pub open spec fn shell_words_from(
    s: Seq<char>,
    i: int,
    cur: Seq<char>,
    in_single: bool,
    in_double: bool,
) -> Option<Seq<Seq<char>>>
    decreases s.len() - i,
{
    if i < 0 || i >= s.len() {
        if in_single || in_double {
            None
        } else if cur.len() > 0 {
            Some(seq![cur])
        } else {
            Some(Seq::empty())
        }
    } else {
        let c = s[i];
        if c == '\\' && !in_single {
            if i + 1 < s.len() {
                shell_words_from(s, i + 2, cur.push(s[i + 1]), in_single, in_double)
            } else {
                None
            }
        } else if c == '\'' && !in_double {
            shell_words_from(s, i + 1, cur, !in_single, in_double)
        } else if c == '"' && !in_single {
            shell_words_from(s, i + 1, cur, in_single, !in_double)
        } else if is_whitespace_char(c) && !in_single && !in_double {
            if cur.len() > 0 {
                prepend_words(seq![cur], shell_words_from(s, i + 1, Seq::empty(), false, false))
            } else {
                shell_words_from(s, i + 1, cur, in_single, in_double)
            }
        } else {
            shell_words_from(s, i + 1, cur.push(c), in_single, in_double)
        }
    }
}

/// The words `done` before the words of `r`, or nothing.
pub open spec fn prepend_words(done: Seq<Seq<char>>, r: Option<Seq<Seq<char>>>) -> Option<
    Seq<Seq<char>>,
> {
    match r {
        Some(x) => Some(done + x),
        None => None,
    }
}

proof fn lemma_prepend_words_twice(
    a: Seq<Seq<char>>,
    b: Seq<Seq<char>>,
    r: Option<Seq<Seq<char>>>,
)
    ensures
        prepend_words(a, prepend_words(b, r)) == prepend_words(a + b, r),
{
    if let Some(x) = r {
        assert(a + (b + x) =~= (a + b) + x);
    }
}

/// The words of a pasted line, split the way a shell would split it.
pub open spec fn shell_path_words_spec(line: Seq<char>) -> Option<Seq<Seq<char>>> {
    shell_words_from(line, 0, Seq::empty(), false, false)
}

/// The chars of each string.
pub open spec fn string_views(v: Seq<String>) -> Seq<Seq<char>> {
    v.map_values(|s: String| s@)
}

/// The words of a pasted line, split the way a shell would split it; `None` when a
/// quote stays open or the line ends in a backslash.
pub fn shell_path_words(line: &str) -> (r: Option<Vec<String>>)
    ensures
        match r {
            Some(words) => shell_path_words_spec(line@) == Some(string_views(words@)),
            None => shell_path_words_spec(line@) is None,
        },
{
    let chars = str_chars(line);
    let ghost s = chars@;
    let mut words: Vec<String> = Vec::new();
    let mut current: Vec<char> = Vec::new();
    let mut in_single = false;
    let mut in_double = false;
    let mut i: usize = 0;
    proof {
        assert(string_views(words@) =~= Seq::<Seq<char>>::empty());
        if let Some(x) = shell_path_words_spec(line@) {
            assert(Seq::<Seq<char>>::empty() + x =~= x);
        }
    }
    while i < chars.len()
        invariant
            chars@ == s,
            s == line@,
            i <= s.len(),
            shell_path_words_spec(line@) == prepend_words(
                string_views(words@),
                shell_words_from(s, i as int, current@, in_single, in_double),
            ),
        decreases s.len() - i,
    {
        let c = chars[i];
        if c == '\\' && !in_single {
            if i + 1 >= chars.len() {
                return None;
            }
            current.push(chars[i + 1]);
            i = i + 2;
        } else if c == '\'' && !in_double {
            in_single = !in_single;
            i = i + 1;
        } else if c == '"' && !in_single {
            in_double = !in_double;
            i = i + 1;
        } else if char_is_whitespace(c) && !in_single && !in_double {
            if current.len() > 0 {
                let word = string_from_chars(current.as_slice());
                proof {
                    lemma_prepend_words_twice(
                        string_views(words@),
                        seq![current@],
                        shell_words_from(s, i + 1, Seq::empty(), false, false),
                    );
                    assert(string_views(words@.push(word)) =~= string_views(words@) + seq![
                        current@,
                    ]);
                }
                words.push(word);
                current = Vec::new();
            }
            i = i + 1;
        } else {
            current.push(c);
            i = i + 1;
        }
    }
    if in_single || in_double {
        return None;
    }
    if current.len() > 0 {
        let word = string_from_chars(current.as_slice());
        proof {
            assert(string_views(words@.push(word)) =~= string_views(words@) + seq![current@]);
        }
        words.push(word);
    } else {
        proof {
            assert(string_views(words@) + Seq::<Seq<char>>::empty() =~= string_views(words@));
        }
    }
    Some(words)
}

/// The test that keeps every char but a carriage return.
pub open spec fn not_cr() -> spec_fn(char) -> bool {
    |c: char| c != '\r'
}

/// `s` without carriage returns.
pub open spec fn cr_free(s: Seq<char>) -> Seq<char> {
    s.filter(not_cr())
}

proof fn lemma_cr_free_len(s: Seq<char>)
    ensures
        utf8_len(cr_free(s)) <= utf8_len(s),
    decreases s.len(),
{
    reveal(Seq::filter);
    if s.len() > 0 {
        lemma_cr_free_len(s.drop_last());
        if s.last() != '\r' {
            assert(cr_free(s).drop_last() =~= cr_free(s.drop_last()));
            assert(cr_free(s).last() == s.last());
        }
    }
}

fn strip_cr(text: &str) -> (r: String)
    ensures
        r@ == cr_free(text@),
{
    let chars = str_chars(text);
    let mut out: Vec<char> = Vec::new();
    let mut i: usize = 0;
    proof {
        reveal(Seq::filter);
        assert(cr_free(chars@.take(0)) =~= Seq::<char>::empty());
    }
    while i < chars.len()
        invariant
            i <= chars@.len(),
            out@ == cr_free(chars@.take(i as int)),
        decreases chars@.len() - i,
    {
        proof {
            reveal(Seq::filter);
            assert(chars@.take(i + 1).drop_last() =~= chars@.take(i as int));
            assert(chars@.take(i + 1).last() == chars@[i as int]);
        }
        if chars[i] != '\r' {
            out.push(chars[i]);
        }
        i = i + 1;
    }
    proof {
        assert(chars@.take(i as int) =~= chars@);
    }
    string_from_chars(out.as_slice())
}

/// `input` after pasting `value` at its cursor.
pub open spec fn pasted_into(before: TextInputState, after: TextInputState, value: Seq<char>) -> bool {
    &&& after.text() == before.text().take(before.cursor()) + value + before.text().skip(before.cursor())
    &&& after.cursor() == before.cursor() + value.len()
}

/// Whether each text input of the state can take `text` pasted in.
pub open spec fn paste_fits(state: DashboardState, text: Seq<char>) -> bool {
    &&& utf8_len(state.composer.input.text()) + utf8_len(text) <= max_text_bytes()
    &&& utf8_len(state.composer.profile_edit.text()) + utf8_len(text) <= max_text_bytes()
    &&& utf8_len(state.composer.forum_post_input.text()) + utf8_len(text) <= max_text_bytes()
    &&& utf8_len(state.composer.thread_edit_input.text()) + utf8_len(text) <= max_text_bytes()
}

impl DashboardState {
    /// Pastes `text` into the user profile field being edited.
    pub fn insert_user_profile_edit_text(&mut self, text: &str)
        requires
            utf8_len(old(self).composer.profile_edit.text()) + utf8_len(text@) <= max_text_bytes(),
        ensures
            pasted_into(old(self).composer.profile_edit, final(self).composer.profile_edit, text@),
            final(self).composer.input == old(self).composer.input,
            final(self).composer.forum_post_input == old(self).composer.forum_post_input,
            final(self).composer.thread_edit_input == old(self).composer.thread_edit_input,
            *final(self) == (DashboardState {
                composer: ComposerState { profile_edit: final(self).composer.profile_edit, ..old(self).composer },
                ..*old(self)
            }),
    {
        self.composer.profile_edit.insert_str(text);
    }

    /// Pastes `text` at the composer's cursor.
    pub fn insert_composer_text_at_cursor(&mut self, text: &str)
        requires
            utf8_len(old(self).composer.input.text()) + utf8_len(text@) <= max_text_bytes(),
        ensures
            pasted_into(old(self).composer.input, final(self).composer.input, text@),
            final(self).composer.profile_edit == old(self).composer.profile_edit,
            final(self).composer.forum_post_input == old(self).composer.forum_post_input,
            final(self).composer.thread_edit_input == old(self).composer.thread_edit_input,
            *final(self) == (DashboardState {
                composer: ComposerState { input: final(self).composer.input, ..old(self).composer },
                ..*old(self)
            }),
    {
        self.composer.input.insert_str(text);
    }

    /// Pastes `text`, without carriage returns, into the forum post being written;
    /// says whether any text was pasted.
    pub fn insert_forum_post_text(&mut self, text: &str) -> (r: bool)
        requires
            utf8_len(old(self).composer.forum_post_input.text()) + utf8_len(text@) <= max_text_bytes(),
        ensures
            r == (cr_free(text@).len() > 0),
            pasted_into(old(self).composer.forum_post_input, final(self).composer.forum_post_input, cr_free(text@)),
            final(self).composer.input == old(self).composer.input,
            final(self).composer.profile_edit == old(self).composer.profile_edit,
            final(self).composer.thread_edit_input == old(self).composer.thread_edit_input,
            *final(self) == (DashboardState {
                composer: ComposerState { forum_post_input: final(self).composer.forum_post_input, ..old(self).composer },
                ..*old(self)
            }),
    {
        let pasted = strip_cr(text);
        proof {
            lemma_cr_free_len(text@);
        }
        self.composer.forum_post_input.insert_str(pasted.as_str());
        !pasted.as_str().is_empty()
    }

    /// Pastes `text`, without carriage returns, into the thread title being edited;
    /// says whether any text was pasted.
    pub fn insert_thread_edit_text(&mut self, text: &str) -> (r: bool)
        requires
            utf8_len(old(self).composer.thread_edit_input.text()) + utf8_len(text@) <= max_text_bytes(),
        ensures
            r == (cr_free(text@).len() > 0),
            pasted_into(old(self).composer.thread_edit_input, final(self).composer.thread_edit_input, cr_free(text@)),
            final(self).composer.input == old(self).composer.input,
            final(self).composer.profile_edit == old(self).composer.profile_edit,
            final(self).composer.forum_post_input == old(self).composer.forum_post_input,
            *final(self) == (DashboardState {
                composer: ComposerState { thread_edit_input: final(self).composer.thread_edit_input, ..old(self).composer },
                ..*old(self)
            }),
    {
        let pasted = strip_cr(text);
        proof {
            lemma_cr_free_len(text@);
        }
        self.composer.thread_edit_input.insert_str(pasted.as_str());
        !pasted.as_str().is_empty()
    }
}

/// Takes the first pasted file as the new user profile avatar, when the profile
/// popup waits for one; says whether it did.
pub fn handle_pasted_user_profile_avatar(state: &mut DashboardState, files: Option<Vec<AttachmentUpload>>) -> (r: bool)
    ensures
        r == (old(state).composer.accepts_user_profile_avatar_paste && (files matches Some(v) && v@.len() > 0)),
        r ==> final(state).composer.pending_user_profile_avatar == Some(files->0@[0]),
        !r ==> *final(state) == *old(state),
        final(state).composer.input == old(state).composer.input,
        final(state).composer.composing == old(state).composer.composing,
        final(state).composer.pending_composer_attachments == old(state).composer.pending_composer_attachments,
        r ==> *final(state) == (DashboardState {
            composer: ComposerState {
                pending_user_profile_avatar: Some(files->0@[0]),
                ..old(state).composer
            },
            ..*old(state)
        }),
{
    if !state.composer.accepts_user_profile_avatar_paste {
        return false;
    }
    match files {
        Some(mut attachments) => {
            if attachments.len() == 0 {
                return false;
            }
            let first = attachments.remove(0);
            state.composer.pending_user_profile_avatar = Some(first);
            true
        },
        None => false,
    }
}

/// The local files that pasted `values` name, in order, when each names one that is
/// among `existing`; `None` otherwise.
pub open spec fn value_paths(values: Seq<Seq<char>>, existing: Seq<Seq<char>>) -> Option<Seq<Seq<char>>>
    decreases values.len(),
{
    if values.len() == 0 {
        Some(Seq::empty())
    } else {
        match (value_paths(values.drop_last(), existing), pasted_file_path_spec(values.last())) {
            (Some(paths), Some(p)) => if existing.contains(p) {
                Some(paths.push(p))
            } else {
                None
            },
            _ => None,
        }
    }
}

/// The values a pasted line stands for: the whole line when it names an existing
/// file, otherwise its shell words.
pub open spec fn line_values(line: Seq<char>, existing: Seq<Seq<char>>) -> Option<Seq<Seq<char>>> {
    match pasted_file_path_spec(line) {
        Some(p) if existing.contains(p) => Some(seq![p]),
        _ => shell_path_words_spec(line),
    }
}

/// The files a pasted line names, when all of them exist.
pub open spec fn line_paths(line: Seq<char>, existing: Seq<Seq<char>>) -> Option<Seq<Seq<char>>> {
    match line_values(line, existing) {
        Some(values) => value_paths(values, existing),
        None => None,
    }
}

/// The files pasted `lines` name, in order, when every line names existing files.
pub open spec fn lines_paths(lines: Seq<Seq<char>>, existing: Seq<Seq<char>>) -> Option<Seq<Seq<char>>>
    decreases lines.len(),
{
    if lines.len() == 0 {
        Some(Seq::empty())
    } else {
        match (lines_paths(lines.drop_last(), existing), line_paths(lines.last(), existing)) {
            (Some(a), Some(b)) => Some(a + b),
            _ => None,
        }
    }
}

/// The files pasted `text` names, given which of the paths it may name are existing
/// files: every meaningful line is a file URI or absolute path of an existing file,
/// or shell words that each are; `None` when one is not, or when no file is named.
pub open spec fn pasted_file_paths_spec(text: Seq<char>, existing: Seq<Seq<char>>) -> Option<
    Seq<Seq<char>>,
> {
    match lines_paths(meaningful_paste_lines_spec(text), existing) {
        Some(paths) => if paths.len() > 0 {
            Some(paths)
        } else {
            None
        },
        None => None,
    }
}

/// A path, as a sequence of none or one.
pub open spec fn opt_path(p: Option<Seq<char>>) -> Seq<Seq<char>> {
    match p {
        Some(q) => seq![q],
        None => Seq::empty(),
    }
}

/// The paths that pasted `values` may name.
pub open spec fn value_candidates(values: Seq<Seq<char>>) -> Seq<Seq<char>>
    decreases values.len(),
{
    if values.len() == 0 {
        Seq::empty()
    } else {
        value_candidates(values.drop_last()) + opt_path(pasted_file_path_spec(values.last()))
    }
}

/// The paths a pasted line may name: the whole line's, that path read again as a
/// value, and its shell words'.
pub open spec fn line_candidates(line: Seq<char>) -> Seq<Seq<char>> {
    let whole = pasted_file_path_spec(line);
    opt_path(whole) + match whole {
        Some(p) => opt_path(pasted_file_path_spec(p)),
        None => Seq::empty(),
    } + match shell_path_words_spec(line) {
        Some(words) => value_candidates(words),
        None => Seq::empty(),
    }
}

/// The paths pasted `lines` may name, in order.
pub open spec fn lines_candidates(lines: Seq<Seq<char>>) -> Seq<Seq<char>>
    decreases lines.len(),
{
    if lines.len() == 0 {
        Seq::empty()
    } else {
        lines_candidates(lines.drop_last()) + line_candidates(lines.last())
    }
}

/// Strings taken by their chars, when there are some.
pub open spec fn opt_string_views(r: Option<Vec<String>>) -> Option<Seq<Seq<char>>> {
    match r {
        Some(v) => Some(string_views(v@)),
        None => None,
    }
}

proof fn lemma_value_paths_none(values: Seq<Seq<char>>, existing: Seq<Seq<char>>, k: int)
    requires
        0 <= k <= values.len(),
        value_paths(values.take(k), existing) is None,
    ensures
        value_paths(values, existing) is None,
    decreases values.len() - k,
{
    if k < values.len() {
        assert(values.take(k + 1).drop_last() =~= values.take(k));
        lemma_value_paths_none(values, existing, k + 1);
    } else {
        assert(values.take(k) =~= values);
    }
}

proof fn lemma_lines_paths_none(lines: Seq<Seq<char>>, existing: Seq<Seq<char>>, k: int)
    requires
        0 <= k <= lines.len(),
        lines_paths(lines.take(k), existing) is None,
    ensures
        lines_paths(lines, existing) is None,
    decreases lines.len() - k,
{
    if k < lines.len() {
        assert(lines.take(k + 1).drop_last() =~= lines.take(k));
        lemma_lines_paths_none(lines, existing, k + 1);
    } else {
        assert(lines.take(k) =~= lines);
    }
}

/// Whether `s` is one of `v`.
fn contains_string(v: &Vec<String>, s: &str) -> (r: bool)
    ensures
        r == string_views(v@).contains(s@),
{
    let mut i: usize = 0;
    while i < v.len()
        invariant
            i <= v@.len(),
            forall|j: int| 0 <= j < i ==> v@[j]@ != s@,
        decreases v@.len() - i,
    {
        if str_eq(v[i].as_str(), s) {
            proof {
                assert(string_views(v@)[i as int] == s@);
            }
            return true;
        }
        i = i + 1;
    }
    proof {
        if string_views(v@).contains(s@) {
            let j = choose|j: int| 0 <= j < string_views(v@).len() && string_views(v@)[j] == s@;
            assert(v@[j]@ == s@);
        }
    }
    false
}

/// Appends the local file each of `values` names to `out`, when each names one among
/// `existing`; `false` otherwise.
fn push_value_paths(out: &mut Vec<String>, values: &Vec<String>, existing: &Vec<String>) -> (ok: bool)
    ensures
        ok == value_paths(string_views(values@), string_views(existing@)) is Some,
        ok ==> string_views(final(out)@) == string_views(old(out)@) + value_paths(
            string_views(values@),
            string_views(existing@),
        )->0,
{
    let ghost vs = string_views(values@);
    let ghost ex = string_views(existing@);
    let ghost start = string_views(out@);
    let mut j: usize = 0;
    while j < values.len()
        invariant
            vs == string_views(values@),
            ex == string_views(existing@),
            start == string_views(old(out)@),
            j <= values@.len(),
            value_paths(vs.take(j as int), ex) matches Some(ps) && string_views(out@) == start + ps,
        decreases values@.len() - j,
    {
        proof {
            assert(vs.take(j + 1).drop_last() =~= vs.take(j as int));
            assert(vs.take(j + 1).last() == values@[j as int]@);
        }
        let path = match pasted_file_path(values[j].as_str()) {
            Some(p) => p,
            None => {
                proof {
                    lemma_value_paths_none(vs, ex, j + 1);
                }
                return false;
            },
        };
        if !contains_string(existing, path.as_str()) {
            proof {
                lemma_value_paths_none(vs, ex, j + 1);
            }
            return false;
        }
        let ghost before = string_views(out@);
        out.push(path);
        proof {
            assert(string_views(out@) =~= before.push(path@));
            let ps = value_paths(vs.take(j as int), ex)->0;
            assert(start + ps.push(path@) =~= (start + ps).push(path@));
        }
        j = j + 1;
    }
    proof {
        assert(vs.take(j as int) =~= vs);
    }
    true
}

/// The local files pasted `text` names (see `pasted_file_paths_spec`), given the paths
/// among `pasted_path_candidates(text)` that are existing files.
pub fn pasted_file_paths(text: &str, existing: &Vec<String>) -> (r: Option<Vec<String>>)
    ensures
        opt_string_views(r) == pasted_file_paths_spec(text@, string_views(existing@)),
{
    let lines = meaningful_paste_lines(text);
    let ghost ls = meaningful_paste_lines_spec(text@);
    let ghost ex = string_views(existing@);
    proof {
        assert(string_views(lines@) =~= ls);
    }
    let mut paths: Vec<String> = Vec::new();
    let mut i: usize = 0;
    while i < lines.len()
        invariant
            ls == meaningful_paste_lines_spec(text@),
            ex == string_views(existing@),
            string_views(lines@) == ls,
            i <= lines@.len(),
            lines_paths(ls.take(i as int), ex) == Some(string_views(paths@)),
        decreases lines@.len() - i,
    {
        let line = lines[i].as_str();
        proof {
            assert(ls.take(i + 1).drop_last() =~= ls.take(i as int));
            assert(ls.take(i + 1).last() == ls[i as int]);
            assert(ls[i as int] == lines@[i as int]@);
        }
        let whole = match pasted_file_path(line) {
            Some(p) => if contains_string(existing, p.as_str()) {
                Some(p)
            } else {
                None
            },
            None => None,
        };
        let values: Vec<String> = match whole {
            Some(p) => {
                let mut v: Vec<String> = Vec::new();
                v.push(p);
                v
            },
            None => match shell_path_words(line) {
                Some(words) => words,
                None => {
                    proof {
                        lemma_lines_paths_none(ls, ex, i + 1);
                    }
                    return None;
                },
            },
        };
        proof {
            assert(line_values(ls[i as int], ex) == Some(string_views(values@)));
        }
        let ghost before = string_views(paths@);
        if !push_value_paths(&mut paths, &values, existing) {
            proof {
                lemma_lines_paths_none(ls, ex, i + 1);
            }
            return None;
        }
        i = i + 1;
    }
    proof {
        assert(ls.take(i as int) =~= ls);
    }
    if paths.len() == 0 {
        None
    } else {
        Some(paths)
    }
}

/// Appends to `out` the path each of `values` may name.
fn push_value_candidates(out: &mut Vec<String>, values: &Vec<String>)
    ensures
        string_views(final(out)@) == string_views(old(out)@) + value_candidates(string_views(values@)),
{
    let ghost vs = string_views(values@);
    let ghost start = string_views(out@);
    let mut j: usize = 0;
    while j < values.len()
        invariant
            vs == string_views(values@),
            start == string_views(old(out)@),
            j <= values@.len(),
            string_views(out@) == start + value_candidates(vs.take(j as int)),
        decreases values@.len() - j,
    {
        proof {
            assert(vs.take(j + 1).drop_last() =~= vs.take(j as int));
            assert(vs.take(j + 1).last() == values@[j as int]@);
        }
        let ghost before = string_views(out@);
        match pasted_file_path(values[j].as_str()) {
            Some(p) => {
                out.push(p);
                proof {
                    assert(string_views(out@) =~= before.push(p@));
                    assert(start + value_candidates(vs.take(j + 1)) =~= start + value_candidates(
                        vs.take(j as int),
                    ) + seq![p@]);
                }
            },
            None => {
                proof {
                    assert(start + value_candidates(vs.take(j + 1)) =~= start + value_candidates(
                        vs.take(j as int),
                    ));
                }
            },
        }
        j = j + 1;
    }
    proof {
        assert(vs.take(j as int) =~= vs);
    }
}

/// Every path pasted `text` may name, in order: each meaningful line's whole-line
/// path, that path read again, and its shell words' paths. Which of these are
/// existing files decides `pasted_file_paths`.
pub fn pasted_path_candidates(text: &str) -> (r: Vec<String>)
    ensures
        string_views(r@) == lines_candidates(meaningful_paste_lines_spec(text@)),
{
    let lines = meaningful_paste_lines(text);
    let ghost ls = meaningful_paste_lines_spec(text@);
    proof {
        assert(string_views(lines@) =~= ls);
    }
    let mut out: Vec<String> = Vec::new();
    let mut i: usize = 0;
    while i < lines.len()
        invariant
            ls == meaningful_paste_lines_spec(text@),
            string_views(lines@) == ls,
            i <= lines@.len(),
            string_views(out@) == lines_candidates(ls.take(i as int)),
        decreases lines@.len() - i,
    {
        let line = lines[i].as_str();
        proof {
            assert(ls.take(i + 1).drop_last() =~= ls.take(i as int));
            assert(ls.take(i + 1).last() == ls[i as int]);
            assert(ls[i as int] == lines@[i as int]@);
        }
        let ghost start = string_views(out@);
        let mut first: Vec<String> = Vec::new();
        match pasted_file_path(line) {
            Some(p) => {
                let again = pasted_file_path(p.as_str());
                first.push(p);
                match again {
                    Some(q) => first.push(q),
                    None => {},
                }
            },
            None => {},
        }
        let mut words: Vec<String> = Vec::new();
        match shell_path_words(line) {
            Some(ws) => push_value_candidates(&mut words, &ws),
            None => {},
        }
        proof {
            assert(string_views(first@) + string_views(words@) =~= line_candidates(ls[i as int]));
        }
        let mut k: usize = 0;
        while k < first.len()
            invariant
                k <= first@.len(),
                string_views(out@) == start + string_views(first@).take(k as int),
            decreases first@.len() - k,
        {
            let ghost b = string_views(out@);
            out.push(first[k].clone());
            proof {
                assert(string_views(out@) =~= b.push(first@[k as int]@));
                assert(string_views(first@).take(k + 1) =~= string_views(first@).take(k as int).push(
                    first@[k as int]@,
                ));
            }
            k = k + 1;
        }
        let mut k: usize = 0;
        while k < words.len()
            invariant
                k <= words@.len(),
                string_views(out@) == start + string_views(first@) + string_views(words@).take(
                    k as int,
                ),
            decreases words@.len() - k,
        {
            let ghost b = string_views(out@);
            out.push(words[k].clone());
            proof {
                assert(string_views(out@) =~= b.push(words@[k as int]@));
                assert(string_views(words@).take(k + 1) =~= string_views(words@).take(k as int).push(
                    words@[k as int]@,
                ));
            }
            k = k + 1;
        }
        proof {
            assert(string_views(first@).take(first@.len() as int) =~= string_views(first@));
            assert(string_views(words@).take(words@.len() as int) =~= string_views(words@));
            assert(start + string_views(first@) + string_views(words@) =~= start + line_candidates(
                ls[i as int],
            ));
        }
        i = i + 1;
    }
    proof {
        assert(ls.take(i as int) =~= ls);
    }
    out
}

/// Adds pasted files as pending attachments of the forum post or message being
/// written, where they are taken; says whether it did.
pub fn handle_pasted_file_attachments(state: &mut DashboardState, files: Option<Vec<AttachmentUpload>>) -> (r: bool)
    ensures
        old(state).composer.forum_post_accepts_attachment_paste ==> r == files is Some && (r ==> final(
            state).composer.pending_forum_post_attachments@ == old(state).composer.pending_forum_post_attachments@
            + files->0@) && final(state).composer.pending_composer_attachments == old(state).composer.pending_composer_attachments,
        !old(state).composer.forum_post_accepts_attachment_paste ==> r == (old(state).composer.composing
            && old(state).composer.accepts_attachments && files is Some) && (r ==> final(
            state).composer.pending_composer_attachments@ == old(state).composer.pending_composer_attachments@
            + files->0@) && final(state).composer.pending_forum_post_attachments == old(state).composer.pending_forum_post_attachments,
        !r ==> *final(state) == *old(state),
        final(state).composer.input == old(state).composer.input,
        final(state).composer.profile_edit == old(state).composer.profile_edit,
        final(state).composer.forum_post_input == old(state).composer.forum_post_input,
        final(state).composer.thread_edit_input == old(state).composer.thread_edit_input,
        final(state).composer.pending_user_profile_avatar == old(state).composer.pending_user_profile_avatar,
        *final(state) == (DashboardState {
            composer: ComposerState {
                pending_composer_attachments: final(state).composer.pending_composer_attachments,
                pending_forum_post_attachments: final(state).composer.pending_forum_post_attachments,
                ..old(state).composer
            },
            ..*old(state)
        }),
{
    if state.composer.forum_post_accepts_attachment_paste {
        return match files {
            Some(mut attachments) => {
                state.composer.pending_forum_post_attachments.append(&mut attachments);
                true
            },
            None => false,
        };
    }
    if !state.composer.composing || !state.composer.accepts_attachments {
        return false;
    }
    match files {
        Some(mut attachments) => {
            state.composer.pending_composer_attachments.append(&mut attachments);
            true
        },
        None => false,
    }
}

/// Where a paste goes, by what is open.
#[derive(Clone, Copy, Debug, PartialEq, Eq, Structural)]
pub enum PasteTarget {
    ProfileAvatar,
    ProfileField,
    ForumPost,
    ForumClosed,
    ThreadTitle,
    Nowhere,
    Composer,
}

/// Where a paste goes: a waiting profile avatar takes pasted files first; then the
/// profile field being edited, the forum post composer, a thread title being edited,
/// and the message composer, in that order.
pub open spec fn paste_target(state: DashboardState, files: Option<Vec<AttachmentUpload>>) -> PasteTarget {
    if state.composer.accepts_user_profile_avatar_paste && (files matches Some(v) && v@.len() > 0) {
        PasteTarget::ProfileAvatar
    } else if state.composer.user_profile_popup_editing {
        PasteTarget::ProfileField
    } else if state.composer.forum_post_composer_active {
        if state.composer.forum_post_editing {
            PasteTarget::ForumPost
        } else {
            PasteTarget::ForumClosed
        }
    } else if state.composer.thread_edit_title_editing {
        PasteTarget::ThreadTitle
    } else if !state.composer.composing {
        PasteTarget::Nowhere
    } else {
        PasteTarget::Composer
    }
}

/// Handles pasted `text`, whose files (when it names existing files) are `files`:
/// files go to the profile avatar or as attachments where taken; text goes, without
/// carriage returns, into the field being edited. Says whether the paste was used.
pub fn handle_paste(state: &mut DashboardState, text: &str, files: Option<Vec<AttachmentUpload>>) -> (r: bool)
    requires
        paste_fits(*old(state), text@),
    ensures
        match paste_target(*old(state), files) {
            PasteTarget::ProfileAvatar => r && *final(state) == (DashboardState {
                composer: ComposerState {
                    pending_user_profile_avatar: Some(files->0@[0]),
                    ..old(state).composer
                },
                ..*old(state)
            }),
            PasteTarget::ProfileField => r == (cr_free(text@).len() > 0) && (r ==> pasted_into(
                old(state).composer.profile_edit,
                final(state).composer.profile_edit,
                cr_free(text@),
            ) && *final(state) == (DashboardState {
                composer: ComposerState {
                    profile_edit: final(state).composer.profile_edit,
                    ..old(state).composer
                },
                ..*old(state)
            })) && (!r ==> *final(state) == *old(state)),
            PasteTarget::ForumPost => if old(state).composer.forum_post_accepts_attachment_paste && files is Some {
                r && final(state).composer.pending_forum_post_attachments@
                    == old(state).composer.pending_forum_post_attachments@ + files->0@
                    && *final(state) == (DashboardState {
                    composer: ComposerState {
                        pending_forum_post_attachments: final(state).composer.pending_forum_post_attachments,
                        ..old(state).composer
                    },
                    ..*old(state)
                })
            } else {
                r == (cr_free(text@).len() > 0) && pasted_into(
                    old(state).composer.forum_post_input,
                    final(state).composer.forum_post_input,
                    cr_free(text@),
                ) && *final(state) == (DashboardState {
                    composer: ComposerState {
                        forum_post_input: final(state).composer.forum_post_input,
                        ..old(state).composer
                    },
                    ..*old(state)
                })
            },
            PasteTarget::ForumClosed => !r && *final(state) == *old(state),
            PasteTarget::ThreadTitle => r == (cr_free(text@).len() > 0) && pasted_into(
                old(state).composer.thread_edit_input,
                final(state).composer.thread_edit_input,
                cr_free(text@),
            ) && *final(state) == (DashboardState {
                composer: ComposerState {
                    thread_edit_input: final(state).composer.thread_edit_input,
                    ..old(state).composer
                },
                ..*old(state)
            }),
            PasteTarget::Nowhere => !r && *final(state) == *old(state),
            PasteTarget::Composer => if (old(state).composer.forum_post_accepts_attachment_paste
                || old(state).composer.accepts_attachments) && files is Some {
                r && (old(state).composer.forum_post_accepts_attachment_paste ==> final(state).composer.pending_forum_post_attachments@
                    == old(state).composer.pending_forum_post_attachments@ + files->0@
                    && final(state).composer.pending_composer_attachments
                    == old(state).composer.pending_composer_attachments)
                    && (!old(state).composer.forum_post_accepts_attachment_paste ==> final(state).composer.pending_composer_attachments@
                    == old(state).composer.pending_composer_attachments@ + files->0@
                    && final(state).composer.pending_forum_post_attachments
                    == old(state).composer.pending_forum_post_attachments)
                    && *final(state) == (DashboardState {
                    composer: ComposerState {
                        pending_composer_attachments: final(state).composer.pending_composer_attachments,
                        pending_forum_post_attachments: final(state).composer.pending_forum_post_attachments,
                        ..old(state).composer
                    },
                    ..*old(state)
                })
            } else {
                r == (cr_free(text@).len() > 0) && (r ==> pasted_into(
                    old(state).composer.input,
                    final(state).composer.input,
                    cr_free(text@),
                ) && *final(state) == (DashboardState {
                    composer: ComposerState { input: final(state).composer.input, ..old(state).composer },
                    ..*old(state)
                })) && (!r ==> *final(state) == *old(state))
            },
        },
{
    if state.composer.accepts_user_profile_avatar_paste {
        let has_files = match &files {
            Some(v) => v.len() > 0,
            None => false,
        };
        if has_files {
            return handle_pasted_user_profile_avatar(state, files);
        }
    }
    proof {
        lemma_cr_free_len(text@);
    }
    if state.composer.user_profile_popup_editing {
        let pasted = strip_cr(text);
        if pasted.as_str().is_empty() {
            return false;
        }
        state.insert_user_profile_edit_text(pasted.as_str());
        return true;
    }
    if state.composer.forum_post_composer_active {
        if state.composer.forum_post_editing {
            if state.composer.forum_post_accepts_attachment_paste && files.is_some() {
                return handle_pasted_file_attachments(state, files);
            }
            return state.insert_forum_post_text(text);
        }
        return false;
    }
    if state.composer.thread_edit_title_editing {
        return state.insert_thread_edit_text(text);
    }
    if !state.composer.composing {
        return false;
    }
    if (state.composer.forum_post_accepts_attachment_paste || state.composer.accepts_attachments) && files.is_some() {
        return handle_pasted_file_attachments(state, files);
    }
    let pasted = strip_cr(text);
    if pasted.as_str().is_empty() {
        return false;
    }
    state.insert_composer_text_at_cursor(pasted.as_str());
    true
}

} // verus!
