use vstd::prelude::*;

use crate::polls::{ascii_lowercase, to_ascii_lowercase};
use crate::text_util::{
    chars_eq, contains_chars, contains_seq, decimal, index_of_char, lemma_next_index_bounds,
    next_index_of, piece_bounds, push_chars, push_decimal, push_str, slice_chars,
    split_pieces, trim_chars, trimmed,
};
use crate::unicode::{str_chars, string_from_chars};

verus! {

/// A key on the keyboard, as the terminal reports it.
#[derive(Clone, Copy, Debug, PartialEq, Eq, Structural)]
pub enum KeyCode {
    Char(char),
    Tab,
    BackTab,
    Enter,
    Esc,
    Backspace,
    Delete,
    Insert,
    Left,
    Right,
    Up,
    Down,
    Home,
    End,
    PageUp,
    PageDown,
    F(u8),
    Null,
}

/// The modifiers a key binding can name: Shift, Control and Alt. Other modifier
/// bits a terminal may report play no part in matching.
#[derive(Clone, Copy, Debug, PartialEq, Eq, Structural)]
pub struct KeyModifiers {
    pub shift: bool,
    pub control: bool,
    pub alt: bool,
}

/// A key together with its modifiers.
#[derive(Clone, Copy, Debug, PartialEq, Eq, Structural)]
pub struct KeyChord {
    pub code: KeyCode,
    pub modifiers: KeyModifiers,
}

/// A key press reported by the terminal.
#[derive(Clone, Copy, Debug, PartialEq, Eq, Structural)]
pub struct KeyEvent {
    pub code: KeyCode,
    pub modifiers: KeyModifiers,
}

/// No modifier held.
pub open spec fn no_modifiers() -> KeyModifiers {
    KeyModifiers { shift: false, control: false, alt: false }
}

/// Shift alone.
pub open spec fn shift_only() -> KeyModifiers {
    KeyModifiers { shift: true, control: false, alt: false }
}

impl KeyModifiers {
    /// No modifier held.
    pub fn none() -> (r: KeyModifiers)
        ensures
            r == no_modifiers(),
    {
        KeyModifiers { shift: false, control: false, alt: false }
    }

    /// Shift alone.
    pub fn shift() -> (r: KeyModifiers)
        ensures
            r == shift_only(),
    {
        KeyModifiers { shift: true, control: false, alt: false }
    }

    /// Whether no modifier is held.
    pub fn is_empty(&self) -> (r: bool)
        ensures
            r == (*self == no_modifiers()),
    {
        !self.shift && !self.control && !self.alt
    }
}

impl KeyEvent {
    /// A key press of `code` with `modifiers`.
    pub fn new(code: KeyCode, modifiers: KeyModifiers) -> (r: KeyEvent)
        ensures
            r.code == code,
            r.modifiers == modifiers,
    {
        KeyEvent { code, modifiers }
    }
}

/// The uppercase form of an ASCII letter, as `char::to_ascii_uppercase` gives it.
pub open spec fn ascii_uppercase(c: char) -> char {
    if 'a' <= c <= 'z' {
        ((c as u32) - 32) as char
    } else {
        c
    }
}

/// The uppercase form of an ASCII letter.
pub fn to_ascii_uppercase(c: char) -> (r: char)
    ensures
        r == ascii_uppercase(c),
{
    if 'a' <= c && c <= 'z' {
        let v = (c as u8) - 32;
        v as char
    } else {
        c
    }
}

/// The form a chord is compared in: Shift+Tab arrives as BackTab from some
/// terminals, so BackTab stands for Tab with Shift.
pub open spec fn canonical_chord(c: KeyChord) -> KeyChord {
    if c.code == KeyCode::BackTab {
        KeyChord {
            code: KeyCode::Tab,
            modifiers: KeyModifiers {
                shift: true,
                control: c.modifiers.control,
                alt: c.modifiers.alt,
            },
        }
    } else {
        c
    }
}

/// Whether a chord matches a key press of `code` with `modifiers`. Shifted letters
/// reach the application in several encodings (`r` with Shift, `R`, or `R` with
/// Shift), so those are treated as the same physical key press.
pub open spec fn chord_matches(chord: KeyChord, code: KeyCode, modifiers: KeyModifiers) -> bool {
    let expected = canonical_chord(chord);
    let actual = canonical_chord(KeyChord { code, modifiers });
    ||| expected == actual
    ||| (expected.code matches KeyCode::Char(v) && 'a' <= v <= 'z' && expected.modifiers.shift
        && actual.code == KeyCode::Char(ascii_uppercase(v)) && actual.modifiers
        == expected.modifiers)
    ||| (expected.code is Char && expected.modifiers == no_modifiers() && actual.code
        == expected.code && actual.modifiers == shift_only())
}

/// A bare character chord matches its character pressed with Shift alone, whatever
/// the character: terminals report Shift with `?`, `:` and the like.
pub proof fn law_bare_char_chord_matches_shifted_press(c: char)
    ensures
        chord_matches(
            KeyChord { code: KeyCode::Char(c), modifiers: no_modifiers() },
            KeyCode::Char(c),
            shift_only(),
        ),
{
}

/// The key presses a chord can arrive as: its canonical form and, for a character,
/// its uppercase letter with Shift and its lowercase letter alone.
pub open spec fn candidate_events(chord: KeyChord) -> Seq<KeyEvent> {
    let c = canonical_chord(chord);
    let first = seq![KeyEvent { code: c.code, modifiers: c.modifiers }];
    match c.code {
        KeyCode::Char(v) => first + seq![
            KeyEvent { code: KeyCode::Char(ascii_uppercase(v)), modifiers: shift_only() },
            KeyEvent { code: KeyCode::Char(ascii_lowercase(v)), modifiers: no_modifiers() },
        ],
        _ => first,
    }
}

/// Whether two chords can be produced by the same key press.
pub open spec fn chords_share_event(left: KeyChord, right: KeyChord) -> bool {
    let events = candidate_events(left) + candidate_events(right);
    exists|i: int|
        0 <= i < events.len() && chord_matches(left, #[trigger] events[i].code, events[i].modifiers)
            && chord_matches(right, events[i].code, events[i].modifiers)
}

/// A chord of `code` with no modifier.
pub fn key_chord(code: KeyCode) -> (r: KeyChord)
    ensures
        r == (KeyChord { code, modifiers: no_modifiers() }),
{
    KeyChord { code, modifiers: KeyModifiers::none() }
}

/// A chord of the character `value` with no modifier.
pub fn char_chord(value: char) -> (r: KeyChord)
    ensures
        r == (KeyChord { code: KeyCode::Char(value), modifiers: no_modifiers() }),
{
    key_chord(KeyCode::Char(value))
}

/// A chord of the character `value` with Control.
pub fn ctrl_chord(value: char) -> (r: KeyChord)
    ensures
        r == (KeyChord {
            code: KeyCode::Char(value),
            modifiers: KeyModifiers { shift: false, control: true, alt: false },
        }),
{
    modified_key_chord(KeyCode::Char(value), KeyModifiers { shift: false, control: true, alt: false })
}

/// A chord of `code` with `modifiers`.
pub fn modified_key_chord(code: KeyCode, modifiers: KeyModifiers) -> (r: KeyChord)
    ensures
        r == (KeyChord { code, modifiers }),
{
    KeyChord { code, modifiers }
}

/// The name a key code is shown under.
pub open spec fn key_code_label_spec(code: KeyCode) -> Seq<char> {
    match code {
        KeyCode::Char(v) => if v == ' ' {
            "Space"@
        } else {
            seq![v]
        },
        KeyCode::BackTab => "Shift+Tab"@,
        KeyCode::PageUp => "PageUp"@,
        KeyCode::PageDown => "PageDown"@,
        KeyCode::Left => "Left"@,
        KeyCode::Right => "Right"@,
        KeyCode::Up => "Up"@,
        KeyCode::Down => "Down"@,
        KeyCode::Enter => "Enter"@,
        KeyCode::Esc => "Esc"@,
        KeyCode::Backspace => "Backspace"@,
        KeyCode::Delete => "Delete"@,
        KeyCode::Home => "Home"@,
        KeyCode::End => "End"@,
        KeyCode::Tab => "Tab"@,
        KeyCode::F(n) => "F"@ + decimal(n as nat),
        KeyCode::Insert => "Insert"@,
        KeyCode::Null => "Null"@,
    }
}

fn push_key_code_label(out: &mut Vec<char>, code: KeyCode)
    ensures
        final(out)@ == old(out)@ + key_code_label_spec(code),
{
    match code {
        KeyCode::Char(v) => {
            if v == ' ' {
                push_str(out, "Space");
            } else {
                out.push(v);
            }
        },
        KeyCode::BackTab => push_str(out, "Shift+Tab"),
        KeyCode::PageUp => push_str(out, "PageUp"),
        KeyCode::PageDown => push_str(out, "PageDown"),
        KeyCode::Left => push_str(out, "Left"),
        KeyCode::Right => push_str(out, "Right"),
        KeyCode::Up => push_str(out, "Up"),
        KeyCode::Down => push_str(out, "Down"),
        KeyCode::Enter => push_str(out, "Enter"),
        KeyCode::Esc => push_str(out, "Esc"),
        KeyCode::Backspace => push_str(out, "Backspace"),
        KeyCode::Delete => push_str(out, "Delete"),
        KeyCode::Home => push_str(out, "Home"),
        KeyCode::End => push_str(out, "End"),
        KeyCode::Tab => push_str(out, "Tab"),
        KeyCode::F(n) => {
            push_str(out, "F");
            push_decimal(out, n as u64);
            proof {
                assert(old(out)@ + "F"@ + decimal(n as nat) =~= old(out)@ + ("F"@ + decimal(
                    n as nat,
                )));
            }
        },
        KeyCode::Insert => push_str(out, "Insert"),
        KeyCode::Null => push_str(out, "Null"),
    }
}

/// The name a key code is shown under.
pub fn key_code_label(code: KeyCode) -> (r: String)
    ensures
        r@ == key_code_label_spec(code),
{
    let mut out: Vec<char> = Vec::new();
    push_key_code_label(&mut out, code);
    proof {
        assert(out@ =~= key_code_label_spec(code));
    }
    string_from_chars(out.as_slice())
}

/// A chord as shown in help text: `Ctrl+Alt+Shift+` as held, then the key.
pub open spec fn chord_label(c: KeyChord) -> Seq<char> {
    (if c.modifiers.control {
        "Ctrl+"@
    } else {
        Seq::empty()
    }) + (if c.modifiers.alt {
        "Alt+"@
    } else {
        Seq::empty()
    }) + (if c.modifiers.shift {
        "Shift+"@
    } else {
        Seq::empty()
    }) + key_code_label_spec(c.code)
}

/// A chord as shown in titles: a bare character as itself, anything else in
/// Vim-style angle brackets such as `<C-S-x>`.
pub open spec fn chord_title_label(c: KeyChord) -> Seq<char> {
    if c.modifiers == no_modifiers() && c.code is Char {
        seq![c.code->Char_0]
    } else {
        "<"@ + (if c.modifiers.control {
            "C-"@
        } else {
            Seq::empty()
        }) + (if c.modifiers.alt {
            "A-"@
        } else {
            Seq::empty()
        }) + (if c.modifiers.shift {
            "S-"@
        } else {
            Seq::empty()
        }) + key_code_label_spec(c.code) + ">"@
    }
}

impl KeyChord {
    /// The chord in the form it is compared in.
    pub fn canonical(self) -> (r: KeyChord)
        ensures
            r == canonical_chord(self),
    {
        if self.code == KeyCode::BackTab {
            KeyChord {
                code: KeyCode::Tab,
                modifiers: KeyModifiers {
                    shift: true,
                    control: self.modifiers.control,
                    alt: self.modifiers.alt,
                },
            }
        } else {
            self
        }
    }

    /// Whether this chord matches the key press `key`.
    pub fn matches(self, key: KeyEvent) -> (r: bool)
        ensures
            r == chord_matches(self, key.code, key.modifiers),
    {
        let expected = self.canonical();
        let actual = KeyChord { code: key.code, modifiers: key.modifiers }.canonical();
        if expected == actual {
            return true;
        }
        match expected.code {
            KeyCode::Char(v) => {
                if 'a' <= v && v <= 'z' && expected.modifiers.shift && actual.code == KeyCode::Char(
                    to_ascii_uppercase(v),
                ) && actual.modifiers == expected.modifiers {
                    return true;
                }
                expected.modifiers.is_empty() && actual.code == expected.code && actual.modifiers
                    == KeyModifiers::shift()
            },
            _ => false,
        }
    }

    /// Whether this chord and `other` can be produced by the same key press.
    pub fn matches_chord(self, other: KeyChord) -> (r: bool)
        ensures
            r == chords_share_event(self, other),
    {
        key_chords_match_same_event(self, other)
    }

    /// Whether this chord can be produced by typing `value`.
    pub fn matches_char(self, value: char) -> (r: bool)
        ensures
            r == chords_share_event(
                self,
                KeyChord { code: KeyCode::Char(value), modifiers: no_modifiers() },
            ),
    {
        self.matches_chord(char_chord(value))
    }

    /// The chord as shown in help text, such as `Ctrl+Shift+Tab`.
    pub fn label(self) -> (r: String)
        ensures
            r@ == chord_label(self),
    {
        let mut out: Vec<char> = Vec::new();
        if self.modifiers.control {
            push_str(&mut out, "Ctrl+");
        }
        if self.modifiers.alt {
            push_str(&mut out, "Alt+");
        }
        if self.modifiers.shift {
            push_str(&mut out, "Shift+");
        }
        push_key_code_label(&mut out, self.code);
        proof {
            assert(out@ =~= chord_label(self));
        }
        string_from_chars(out.as_slice())
    }

    /// The chord as shown in titles, such as `x` or `<C-x>`.
    pub fn title_label(self) -> (r: String)
        ensures
            r@ == chord_title_label(self),
    {
        if self.modifiers.is_empty() {
            if let KeyCode::Char(v) = self.code {
                let mut one: Vec<char> = Vec::new();
                one.push(v);
                return string_from_chars(one.as_slice());
            }
        }
        let mut out: Vec<char> = Vec::new();
        push_str(&mut out, "<");
        if self.modifiers.control {
            push_str(&mut out, "C-");
        }
        if self.modifiers.alt {
            push_str(&mut out, "A-");
        }
        if self.modifiers.shift {
            push_str(&mut out, "S-");
        }
        push_key_code_label(&mut out, self.code);
        push_str(&mut out, ">");
        proof {
            assert(out@ =~= chord_title_label(self));
        }
        string_from_chars(out.as_slice())
    }
}

/// The key presses `chord` can arrive as.
pub fn candidate_key_events(chord: KeyChord) -> (r: Vec<KeyEvent>)
    ensures
        r@ == candidate_events(chord),
{
    let c = chord.canonical();
    let mut events: Vec<KeyEvent> = Vec::new();
    events.push(KeyEvent::new(c.code, c.modifiers));
    if let KeyCode::Char(v) = c.code {
        events.push(KeyEvent::new(KeyCode::Char(to_ascii_uppercase(v)), KeyModifiers::shift()));
        events.push(KeyEvent::new(KeyCode::Char(to_ascii_lowercase(v)), KeyModifiers::none()));
    }
    proof {
        assert(events@ =~= candidate_events(chord));
    }
    events
}

/// Whether two chords can be produced by the same key press: they are compared by
/// the key presses they can arrive as, so `A`, `Shift+a` and `Shift+A` are not taken
/// for independent shortcuts.
pub fn key_chords_match_same_event(left: KeyChord, right: KeyChord) -> (r: bool)
    ensures
        r == chords_share_event(left, right),
{
    let mut events = candidate_key_events(left);
    let more = candidate_key_events(right);
    let mut k: usize = 0;
    while k < more.len()
        invariant
            events@ == candidate_events(left) + more@.take(k as int),
            more@ == candidate_events(right),
            k <= more@.len(),
        decreases more@.len() - k,
    {
        events.push(more[k]);
        k = k + 1;
        proof {
            assert(more@.take(k as int) =~= more@.take(k - 1).push(more@[k - 1]));
        }
    }
    proof {
        assert(more@.take(k as int) =~= more@);
    }
    let ghost all = events@;
    let mut i: usize = 0;
    while i < events.len()
        invariant
            events@ == all,
            all == candidate_events(left) + candidate_events(right),
            i <= all.len(),
            forall|j: int|
                0 <= j < i ==> !(chord_matches(left, #[trigger] all[j].code, all[j].modifiers)
                    && chord_matches(right, all[j].code, all[j].modifiers)),
        decreases all.len() - i,
    {
        let e = events[i];
        if left.matches(e) && right.matches(e) {
            return true;
        }
        i = i + 1;
    }
    false
}

/// A parse result: the value, or the error message.
pub open spec fn agrees<T>(r: Result<T, String>, s: Result<T, Seq<char>>) -> bool {
    match r {
        Ok(x) => s == Ok::<T, Seq<char>>(x),
        Err(e) => s == Err::<T, Seq<char>>(e@),
    }
}

/// A parse result of several chords: the chords, or the error message.
pub open spec fn agrees_chords(
    r: Result<Vec<KeyChord>, String>,
    s: Result<Seq<KeyChord>, Seq<char>>,
) -> bool {
    match r {
        Ok(x) => s == Ok::<Seq<KeyChord>, Seq<char>>(x@),
        Err(e) => s == Err::<Seq<KeyChord>, Seq<char>>(e@),
    }
}

/// `s` with ASCII letters lowercased, as `str::to_ascii_lowercase` gives it.
pub open spec fn ascii_lower_seq(s: Seq<char>) -> Seq<char> {
    s.map_values(|c: char| ascii_lowercase(c))
}

/// The message for a key written with `+` or a bare `C-x` outside angle brackets.
pub open spec fn angle_modifier_hint(key: Seq<char>) -> Seq<char> {
    "unsupported key `"@ + key + "`; use Vim-style angle modifiers like `<C-w>`"@
}

/// The message for a key that is not known.
pub open spec fn unsupported_key_message(key: Seq<char>) -> Seq<char> {
    "unsupported key `"@ + key + "`"@
}

/// The message for an angle key written with `+`.
pub open spec fn hyphen_modifier_hint(key: Seq<char>) -> Seq<char> {
    "unsupported angle key `"@ + key + "`; use Vim-style hyphen modifiers like `C-w`"@
}

/// The message for an unknown modifier inside angle brackets.
pub open spec fn unknown_modifier_message(modifier: Seq<char>) -> Seq<char> {
    "unsupported angle key modifier `"@ + modifier + "`"@
}

/// Whether `c` is an ASCII digit.
pub open spec fn is_digit(c: char) -> bool {
    '0' <= c <= '9'
}

/// The number the ASCII digits `s` spell.
pub open spec fn digits_value(s: Seq<char>) -> int
    decreases s.len(),
{
    if s.len() == 0 {
        0
    } else {
        digits_value(s.drop_last()) * 10 + ((s.last() as int) - ('0' as int))
    }
}

/// `s` without a leading `+`.
pub open spec fn unsigned_digits(s: Seq<char>) -> Seq<char> {
    if s.len() > 0 && s[0] == '+' {
        s.skip(1)
    } else {
        s
    }
}

/// Whether every char of `s` is an ASCII digit.
pub open spec fn all_digits(s: Seq<char>) -> bool {
    forall|i: int| 0 <= i < s.len() ==> is_digit(#[trigger] s[i])
}

/// `s` read as a `u8` the way `str::parse::<u8>` reads it: an optional `+`, then one
/// or more ASCII digits whose value fits.
pub open spec fn parse_u8_spec(s: Seq<char>) -> Option<u8> {
    let d = unsigned_digits(s);
    if d.len() > 0 && all_digits(d) && digits_value(d) <= 255 {
        Some(digits_value(d) as u8)
    } else {
        None
    }
}

fn parse_u8_chars(s: &Vec<char>) -> (r: Option<u8>)
    ensures
        r == parse_u8_spec(s@),
{
    let start: usize = if s.len() > 0 && s[0] == '+' {
        1
    } else {
        0
    };
    let ghost d = unsigned_digits(s@);
    proof {
        assert(d =~= s@.skip(start as int));
    }
    if start == s.len() {
        return None;
    }
    let mut v: u32 = 0;
    let mut i: usize = start;
    while i < s.len()
        invariant
            start <= i <= s@.len(),
            d == s@.skip(start as int),
            d == unsigned_digits(s@),
            forall|k: int| 0 <= k < i - start ==> is_digit(#[trigger] d[k]),
            v == if digits_value(d.take(i - start)) < 256 {
                digits_value(d.take(i - start))
            } else {
                256
            },
            0 <= digits_value(d.take(i - start)),
        decreases s@.len() - i,
    {
        let c = s[i];
        if !('0' <= c && c <= '9') {
            proof {
                assert(d[i - start] == c);
                assert(!is_digit(d[i - start]));
                assert(!all_digits(d));
            }
            return None;
        }
        let dv = (c as u32) - ('0' as u32);
        let next = v * 10 + dv;
        v = if next > 256 {
            256
        } else {
            next
        };
        proof {
            assert(d.take(i - start + 1).drop_last() =~= d.take(i - start));
            assert(d.take(i - start + 1).last() == c);
        }
        i = i + 1;
    }
    proof {
        assert(d.take(i - start) =~= d);
    }
    if v > 255 {
        None
    } else {
        Some(v as u8)
    }
}

/// Whether `s` holds the char `c`.
fn has_char(s: &Vec<char>, c: char) -> (r: bool)
    ensures
        r == s@.contains(c),
{
    let i = index_of_char(s, c, 0);
    if i < s.len() {
        proof {
            assert(s@[i as int] == c);
        }
        true
    } else {
        false
    }
}

/// `s` with ASCII letters lowercased.
fn lower_chars(s: &Vec<char>) -> (r: Vec<char>)
    ensures
        r@ == ascii_lower_seq(s@),
{
    let mut out: Vec<char> = Vec::new();
    let mut i: usize = 0;
    while i < s.len()
        invariant
            i <= s@.len(),
            out@ == ascii_lower_seq(s@.take(i as int)),
        decreases s@.len() - i,
    {
        out.push(to_ascii_lowercase(s[i]));
        i = i + 1;
        proof {
            assert(ascii_lower_seq(s@.take(i as int)) =~= ascii_lower_seq(s@.take(i - 1)).push(
                ascii_lowercase(s@[i - 1]),
            ));
        }
    }
    proof {
        assert(s@.take(i as int) =~= s@);
    }
    out
}

/// Whether `v` spells `word`.
fn is_word(v: &Vec<char>, word: &str) -> (r: bool)
    ensures
        r == (v@ == word@),
{
    chars_eq(v, &str_chars(word))
}

fn message_around(head: &str, middle: &Vec<char>, tail: &str) -> (r: String)
    ensures
        r@ == head@ + middle@ + tail@,
{
    let mut out: Vec<char> = Vec::new();
    push_str(&mut out, head);
    push_chars(&mut out, middle);
    push_str(&mut out, tail);
    string_from_chars(out.as_slice())
}

/// The key code a name stands for: one character stands for itself; otherwise a
/// name such as `enter`, `page-up` or `f5`, in any ASCII case.
pub open spec fn parse_key_code_spec(v: Seq<char>) -> Result<KeyCode, Seq<char>> {
    if v.len() == 1 {
        Ok(KeyCode::Char(v[0]))
    } else {
        let lower = ascii_lower_seq(v);
        if lower == "space"@ {
            Ok(KeyCode::Char(' '))
        } else if lower == "tab"@ {
            Ok(KeyCode::Tab)
        } else if lower == "backtab"@ {
            Ok(KeyCode::BackTab)
        } else if lower == "enter"@ {
            Ok(KeyCode::Enter)
        } else if lower == "esc"@ || lower == "escape"@ {
            Ok(KeyCode::Esc)
        } else if lower == "backspace"@ {
            Ok(KeyCode::Backspace)
        } else if lower == "delete"@ || lower == "del"@ {
            Ok(KeyCode::Delete)
        } else if lower == "left"@ {
            Ok(KeyCode::Left)
        } else if lower == "right"@ {
            Ok(KeyCode::Right)
        } else if lower == "up"@ {
            Ok(KeyCode::Up)
        } else if lower == "down"@ {
            Ok(KeyCode::Down)
        } else if lower == "home"@ {
            Ok(KeyCode::Home)
        } else if lower == "end"@ {
            Ok(KeyCode::End)
        } else if lower == "pageup"@ || lower == "page-up"@ {
            Ok(KeyCode::PageUp)
        } else if lower == "pagedown"@ || lower == "page-down"@ {
            Ok(KeyCode::PageDown)
        } else if lower.len() > 0 && lower[0] == 'f' {
            match parse_u8_spec(lower.skip(1)) {
                Some(n) => Ok(KeyCode::F(n)),
                None => Err(unsupported_key_message(lower)),
            }
        } else {
            Err(unsupported_key_message(v))
        }
    }
}

fn key_code_of(v: &Vec<char>) -> (r: Result<KeyCode, String>)
    ensures
        agrees(r, parse_key_code_spec(v@)),
{
    if v.len() == 1 {
        return Ok(KeyCode::Char(v[0]));
    }
    let lower = lower_chars(v);
    if is_word(&lower, "space") {
        Ok(KeyCode::Char(' '))
    } else if is_word(&lower, "tab") {
        Ok(KeyCode::Tab)
    } else if is_word(&lower, "backtab") {
        Ok(KeyCode::BackTab)
    } else if is_word(&lower, "enter") {
        Ok(KeyCode::Enter)
    } else if is_word(&lower, "esc") || is_word(&lower, "escape") {
        Ok(KeyCode::Esc)
    } else if is_word(&lower, "backspace") {
        Ok(KeyCode::Backspace)
    } else if is_word(&lower, "delete") || is_word(&lower, "del") {
        Ok(KeyCode::Delete)
    } else if is_word(&lower, "left") {
        Ok(KeyCode::Left)
    } else if is_word(&lower, "right") {
        Ok(KeyCode::Right)
    } else if is_word(&lower, "up") {
        Ok(KeyCode::Up)
    } else if is_word(&lower, "down") {
        Ok(KeyCode::Down)
    } else if is_word(&lower, "home") {
        Ok(KeyCode::Home)
    } else if is_word(&lower, "end") {
        Ok(KeyCode::End)
    } else if is_word(&lower, "pageup") || is_word(&lower, "page-up") {
        Ok(KeyCode::PageUp)
    } else if is_word(&lower, "pagedown") || is_word(&lower, "page-down") {
        Ok(KeyCode::PageDown)
    } else if lower.len() > 0 && lower[0] == 'f' {
        let digits = slice_chars(&lower, 1, lower.len());
        proof {
            assert(digits@ =~= lower@.skip(1));
        }
        match parse_u8_chars(&digits) {
            Some(n) => Ok(KeyCode::F(n)),
            None => Err(message_around("unsupported key `", &lower, "`")),
        }
    } else {
        Err(message_around("unsupported key `", v, "`"))
    }
}

/// The key code `value` names, or why it names none.
pub fn parse_key_code(value: &str) -> (r: Result<KeyCode, String>)
    ensures
        agrees(r, parse_key_code_spec(value@)),
{
    key_code_of(&str_chars(value))
}

/// A single key binding without modifiers, such as `q` or `enter`.
pub open spec fn chord_from_str_spec(value: Seq<char>) -> Result<KeyChord, Seq<char>> {
    let v = trimmed(value);
    if v.len() == 0 {
        Err("keybinding cannot be empty"@)
    } else if v.contains('+') {
        Err(angle_modifier_hint(v))
    } else {
        match parse_key_code_spec(v) {
            Ok(code) => Ok(KeyChord { code, modifiers: no_modifiers() }),
            Err(e) => Err(e),
        }
    }
}

fn chord_of(value: &Vec<char>) -> (r: Result<KeyChord, String>)
    ensures
        agrees(r, chord_from_str_spec(value@)),
{
    let v = trim_chars(value);
    if v.len() == 0 {
        let mut out: Vec<char> = Vec::new();
        push_str(&mut out, "keybinding cannot be empty");
        return Err(string_from_chars(out.as_slice()));
    }
    if has_char(&v, '+') {
        return Err(
            message_around("unsupported key `", &v, "`; use Vim-style angle modifiers like `<C-w>`"),
        );
    }
    match key_code_of(&v) {
        Ok(code) => Ok(KeyChord { code, modifiers: KeyModifiers::none() }),
        Err(e) => Err(e),
    }
}

impl KeyChord {
    /// The key binding `value` names, without modifiers, or why it names none.
    pub fn from_str(value: &str) -> (r: Result<KeyChord, String>)
        ensures
            agrees(r, chord_from_str_spec(value@)),
    {
        chord_of(&str_chars(value))
    }
}

/// The modifier names that, before a `-`, mark a Vim-style modifier key.
pub open spec fn is_modifier_word(m: Seq<char>) -> bool {
    ||| m == "C"@
    ||| m == "S"@
    ||| m == "A"@
    ||| m == "M"@
    ||| m == "c"@
    ||| m == "s"@
    ||| m == "a"@
    ||| m == "m"@
    ||| m == "ctrl"@
    ||| m == "control"@
    ||| m == "shift"@
    ||| m == "alt"@
    ||| m == "meta"@
}

/// Whether `value` looks like a modifier key written without angle brackets, such as
/// `C-w`: a modifier name, a `-`, and something after it.
pub open spec fn bare_modifier_key(value: Seq<char>) -> bool {
    let idx = next_index_of(value, '-', 0);
    idx + 1 < value.len() && is_modifier_word(value.take(idx))
}

fn bare_modifier(value: &Vec<char>) -> (r: bool)
    ensures
        r == bare_modifier_key(value@),
{
    let idx = index_of_char(value, '-', 0);
    if idx >= value.len() || idx + 1 >= value.len() {
        return false;
    }
    let m = slice_chars(value, 0, idx);
    proof {
        assert(m@ =~= value@.take(idx as int));
    }
    is_word(&m, "C") || is_word(&m, "S") || is_word(&m, "A") || is_word(&m, "M") || is_word(&m, "c")
        || is_word(&m, "s") || is_word(&m, "a") || is_word(&m, "m") || is_word(&m, "ctrl")
        || is_word(&m, "control") || is_word(&m, "shift") || is_word(&m, "alt") || is_word(
        &m,
        "meta",
    )
}

/// Whether `value` looks like a modifier key written without angle brackets.
pub fn looks_like_bare_modifier_key(value: &str) -> (r: bool)
    ensures
        r == bare_modifier_key(value@),
{
    bare_modifier(&str_chars(value))
}

/// The pieces of `value` between `-`, each trimmed.
pub open spec fn trimmed_pieces(value: Seq<char>) -> Seq<Seq<char>> {
    split_pieces(value, '-').map_values(|p: Seq<char>| trimmed(p))
}

/// The modifiers named by `parts`, read left to right: `C`, `S`, and `A` or `M`;
/// the first other name is refused.
pub open spec fn modifiers_from(parts: Seq<Seq<char>>) -> Result<KeyModifiers, Seq<char>>
    decreases parts.len(),
{
    if parts.len() == 0 {
        Ok(no_modifiers())
    } else {
        match modifiers_from(parts.drop_last()) {
            Err(e) => Err(e),
            Ok(m) => {
                let p = parts.last();
                if p == "C"@ {
                    Ok(KeyModifiers { shift: m.shift, control: true, alt: m.alt })
                } else if p == "S"@ {
                    Ok(KeyModifiers { shift: true, control: m.control, alt: m.alt })
                } else if p == "A"@ || p == "M"@ {
                    Ok(KeyModifiers { shift: m.shift, control: m.control, alt: true })
                } else {
                    Err(unknown_modifier_message(p))
                }
            },
        }
    }
}

/// The chord written inside angle brackets, such as `C-w` or `A-S-enter`.
pub open spec fn parse_angle_key_spec(value: Seq<char>) -> Result<KeyChord, Seq<char>> {
    if value.contains('+') {
        Err(hyphen_modifier_hint(value))
    } else {
        let parts = trimmed_pieces(value);
        if parts.len() <= 1 {
            chord_from_str_spec(value)
        } else {
            match modifiers_from(parts.drop_last()) {
                Err(e) => Err(e),
                Ok(m) => match parse_key_code_spec(parts.last()) {
                    Ok(code) => Ok(KeyChord { code, modifiers: m }),
                    Err(e) => Err(e),
                },
            }
        }
    }
}

fn angle_key_of(value: &Vec<char>) -> (r: Result<KeyChord, String>)
    ensures
        agrees(r, parse_angle_key_spec(value@)),
{
    if has_char(value, '+') {
        return Err(
            message_around(
                "unsupported angle key `",
                value,
                "`; use Vim-style hyphen modifiers like `C-w`",
            ),
        );
    }
    let bounds = piece_bounds(value, '-');
    let ghost parts = trimmed_pieces(value@);
    let ghost pieces = split_pieces(value@, '-');
    if bounds.len() <= 1 {
        return chord_of(value);
    }
    let last = bounds.len() - 1;
    let mut mods = KeyModifiers::none();
    let mut k: usize = 0;
    while k < last
        invariant
            last + 1 == bounds@.len(),
            bounds@.len() == pieces.len(),
            pieces == split_pieces(value@, '-'),
            parts == trimmed_pieces(value@),
            forall|m: int|
                0 <= m < bounds@.len() ==> {
                    let (a, b) = #[trigger] bounds@[m];
                    &&& a <= b <= value@.len()
                    &&& value@.subrange(a as int, b as int) == pieces[m]
                },
            k <= last,
            modifiers_from(parts.take(k as int)) == Ok::<KeyModifiers, Seq<char>>(mods),
            !value@.contains('+'),
        decreases last - k,
    {
        let (a, b) = bounds[k];
        let p = trim_chars(&slice_chars(value, a, b));
        proof {
            assert(parts.take(k + 1).drop_last() =~= parts.take(k as int));
            assert(parts.take(k + 1).last() == p@);
        }
        if is_word(&p, "C") {
            mods.control = true;
        } else if is_word(&p, "S") {
            mods.shift = true;
        } else if is_word(&p, "A") || is_word(&p, "M") {
            mods.alt = true;
        } else {
            proof {
                assert(parts.take(last as int).take(k + 1) =~= parts.take(k + 1));
            }
            let e = message_around("unsupported angle key modifier `", &p, "`");
            proof {
                assert(modifiers_from(parts.take(k + 1)) == Err::<KeyModifiers, Seq<char>>(
                    unknown_modifier_message(p@),
                ));
                assert(parts.len() == bounds@.len());
                assert(!value@.contains('+'));
                lemma_modifiers_error_prefix(parts.take(last as int), k + 1);
                assert(parts.take(last as int) =~= parts.drop_last());
            }
            return Err(e);
        }
        k = k + 1;
    }
    let (a, b) = bounds[last];
    let key = trim_chars(&slice_chars(value, a, b));
    proof {
        assert(parts.take(last as int) =~= parts.drop_last());
        assert(parts.last() == key@);
    }
    match key_code_of(&key) {
        Ok(code) => Ok(KeyChord { code, modifiers: mods }),
        Err(e) => Err(e),
    }
}

/// An error among the first `k` modifier names is the error of the whole list.
proof fn lemma_modifiers_error_prefix(parts: Seq<Seq<char>>, k: int)
    requires
        0 <= k <= parts.len(),
        modifiers_from(parts.take(k)) is Err,
    ensures
        modifiers_from(parts) == modifiers_from(parts.take(k)),
    decreases parts.len() - k,
{
    if k < parts.len() {
        assert(parts.take(k + 1).drop_last() =~= parts.take(k));
        assert(modifiers_from(parts.take(k + 1)) == modifiers_from(parts.take(k)));
        lemma_modifiers_error_prefix(parts, k + 1);
    } else {
        assert(parts.take(k) =~= parts);
    }
}

/// The chord written inside angle brackets, or why it is refused.
pub fn parse_angle_key(value: &str) -> (r: Result<KeyChord, String>)
    ensures
        agrees(r, parse_angle_key_spec(value@)),
{
    angle_key_of(&str_chars(value))
}

/// The unmodified chord of the char `c`.
pub open spec fn char_key(c: char) -> KeyChord {
    KeyChord { code: KeyCode::Char(c), modifiers: no_modifiers() }
}

/// One unmodified chord per char of `s`.
pub open spec fn char_chords_spec(s: Seq<char>) -> Seq<KeyChord> {
    s.map_values(|c: char| char_key(c))
}

fn push_char_chords(keys: &mut Vec<KeyChord>, s: &Vec<char>)
    ensures
        final(keys)@ == old(keys)@ + char_chords_spec(s@),
{
    let ghost start = keys@;
    let mut i: usize = 0;
    proof {
        assert(char_chords_spec(s@.take(0)) =~= Seq::<KeyChord>::empty());
        assert(start + Seq::<KeyChord>::empty() =~= start);
    }
    while i < s.len()
        invariant
            i <= s@.len(),
            keys@ == start + char_chords_spec(s@.take(i as int)),
        decreases s@.len() - i,
    {
        let ghost before = keys@;
        keys.push(char_chord(s[i]));
        i = i + 1;
        proof {
            let prev = char_chords_spec(s@.take(i - 1));
            let now = char_chords_spec(s@.take(i as int));
            assert(now.len() == prev.len() + 1);
            assert(now =~= prev.push(char_key(s@[i - 1])));
            assert(keys@ =~= start + now);
        }
    }
    proof {
        assert(s@.take(i as int) =~= s@);
    }
}

/// A sequence token written without angle brackets: a named key such as `enter`, or
/// else each of its chars as a key.
pub open spec fn plain_token_spec(t: Seq<char>) -> Result<Seq<KeyChord>, Seq<char>> {
    if bare_modifier_key(t) {
        Err(angle_modifier_hint(t))
    } else {
        match chord_from_str_spec(t) {
            Ok(k) => Ok(seq![k]),
            Err(e) => if t.contains('+') {
                Err(e)
            } else {
                Ok(char_chords_spec(t))
            },
        }
    }
}

fn plain_token_of(t: &Vec<char>) -> (r: Result<Vec<KeyChord>, String>)
    ensures
        agrees_chords(r, plain_token_spec(t@)),
{
    if bare_modifier(t) {
        return Err(
            message_around("unsupported key `", t, "`; use Vim-style angle modifiers like `<C-w>`"),
        );
    }
    match chord_of(t) {
        Ok(k) => {
            let mut keys: Vec<KeyChord> = Vec::new();
            keys.push(k);
            proof {
                assert(keys@ =~= seq![k]);
            }
            Ok(keys)
        },
        Err(e) => {
            if has_char(t, '+') {
                Err(e)
            } else {
                let mut keys: Vec<KeyChord> = Vec::new();
                push_char_chords(&mut keys, t);
                proof {
                    assert(keys@ =~= char_chords_spec(t@));
                }
                Ok(keys)
            }
        },
    }
}

/// The chords of a sequence token written without angle brackets, or why it is
/// refused.
pub fn parse_plain_sequence_token(token: &str) -> (r: Result<Vec<KeyChord>, String>)
    ensures
        agrees_chords(r, plain_token_spec(token@)),
{
    plain_token_of(&str_chars(token))
}

/// The chords `ks` before the chords of `r`, or the error of `r`.
pub open spec fn prepend_chords(ks: Seq<KeyChord>, r: Result<Seq<KeyChord>, Seq<char>>) -> Result<
    Seq<KeyChord>,
    Seq<char>,
> {
    match r {
        Ok(x) => Ok(ks + x),
        Err(e) => Err(e),
    }
}

proof fn lemma_prepend_twice(a: Seq<KeyChord>, b: Seq<KeyChord>, r: Result<Seq<KeyChord>, Seq<char>>)
    ensures
        prepend_chords(a, prepend_chords(b, r)) == prepend_chords(a + b, r),
{
    if let Ok(x) = r {
        assert(a + (b + x) =~= (a + b) + x);
    }
}

/// The chords of a token that mixes angle-bracket keys such as `<C-w>` or `<leader>`
/// with plain chars, read left to right.
pub open spec fn angle_tokens(rest: Seq<char>, leader: KeyChord) -> Result<
    Seq<KeyChord>,
    Seq<char>,
>
    decreases rest.len(),
{
    if rest.len() == 0 {
        Ok(Seq::empty())
    } else if rest[0] == '<' {
        let after = rest.skip(1);
        let close = next_index_of(after, '>', 0);
        proof {
            lemma_next_index_bounds(after, '>', 0);
        }
        if close >= after.len() {
            Err(unsupported_key_message(rest))
        } else {
            let inner = after.take(close);
            let first = if ascii_lower_seq(inner) == "leader"@ {
                Ok(leader)
            } else {
                parse_angle_key_spec(inner)
            };
            match first {
                Err(e) => Err(e),
                Ok(k) => prepend_chords(seq![k], angle_tokens(after.skip(close + 1), leader)),
            }
        }
    } else {
        let next_angle = next_index_of(rest, '<', 0);
        proof {
            lemma_next_index_bounds(rest, '<', 1);
        }
        let segment = rest.take(next_angle);
        if bare_modifier_key(segment) {
            Err(angle_modifier_hint(segment))
        } else {
            prepend_chords(char_chords_spec(segment), angle_tokens(rest.skip(next_angle), leader))
        }
    }
}

/// `next_index_of` in a suffix is `next_index_of` in the whole, shifted.
pub proof fn lemma_next_index_skip(s: Seq<char>, c: char, k: int, i: int)
    requires
        0 <= k <= s.len(),
        0 <= i <= s.len() - k,
    ensures
        next_index_of(s.skip(k), c, i) == next_index_of(s, c, k + i) - k,
    decreases s.len() - k - i,
{
    if i < s.len() - k {
        assert(s.skip(k)[i] == s[k + i]);
        lemma_next_index_skip(s, c, k, i + 1);
    }
}

/// The chords of one whitespace-free token of a key sequence.
pub open spec fn sequence_token_spec(token: Seq<char>, leader: KeyChord) -> Result<
    Seq<KeyChord>,
    Seq<char>,
> {
    let t = trimmed(token);
    if t.len() == 0 {
        Ok(Seq::empty())
    } else if t.contains('+') {
        Err(angle_modifier_hint(t))
    } else if !t.contains('<') {
        plain_token_spec(t)
    } else {
        angle_tokens(t, leader)
    }
}

fn sequence_token_of(token: &Vec<char>, leader: KeyChord) -> (r: Result<Vec<KeyChord>, String>)
    ensures
        agrees_chords(r, sequence_token_spec(token@, leader)),
{
    let t = trim_chars(token);
    if t.len() == 0 {
        let keys: Vec<KeyChord> = Vec::new();
        proof {
            assert(keys@ =~= Seq::<KeyChord>::empty());
        }
        return Ok(keys);
    }
    if has_char(&t, '+') {
        return Err(
            message_around("unsupported key `", &t, "`; use Vim-style angle modifiers like `<C-w>`"),
        );
    }
    if !has_char(&t, '<') {
        return plain_token_of(&t);
    }
    let mut keys: Vec<KeyChord> = Vec::new();
    let mut pos: usize = 0;
    proof {
        assert(t@.skip(0) =~= t@);
        assert(keys@ + Seq::<KeyChord>::empty() =~= keys@);
        if let Ok(x) = angle_tokens(t@, leader) {
            assert(keys@ + x =~= x);
        }
    }
    while pos < t.len()
        invariant
            pos <= t@.len(),
            angle_tokens(t@, leader) == prepend_chords(keys@, angle_tokens(t@.skip(pos as int), leader)),
            t@ == trimmed(token@),
            t@.len() > 0,
            t@.contains('<'),
            !t@.contains('+'),
        decreases t@.len() - pos,
    {
        let ghost rest = t@.skip(pos as int);
        if t[pos] == '<' {
            let ci = index_of_char(&t, '>', pos + 1);
            proof {
                assert(rest.skip(1) =~= t@.skip(pos + 1));
                lemma_next_index_skip(t@, '>', pos + 1, 0);
            }
            if ci >= t.len() {
                let tail = slice_chars(&t, pos, t.len());
                proof {
                    assert(tail@ =~= rest);
                    assert(rest.len() > 0 && rest[0] == '<');
                    assert(angle_tokens(rest, leader) == Err::<Seq<KeyChord>, Seq<char>>(
                        unsupported_key_message(rest),
                    ));
                    assert(t@.contains('<'));
                }
                return Err(message_around("unsupported key `", &tail, "`"));
            }
            let inner = slice_chars(&t, pos + 1, ci);
            proof {
                assert(inner@ =~= rest.skip(1).take(ci - pos - 1));
                assert(rest.skip(1).skip(ci - pos) =~= t@.skip(ci + 1));
            }
            let lower = lower_chars(&inner);
            let k = if is_word(&lower, "leader") {
                leader
            } else {
                match angle_key_of(&inner) {
                    Ok(k) => k,
                    Err(e) => {
                        return Err(e);
                    },
                }
            };
            proof {
                lemma_prepend_twice(keys@, seq![k], angle_tokens(t@.skip(ci + 1), leader));
                assert(keys@ + seq![k] =~= keys@.push(k));
            }
            keys.push(k);
            pos = ci + 1;
        } else {
            let na = index_of_char(&t, '<', pos);
            proof {
                lemma_next_index_skip(t@, '<', pos as int, 0);
            }
            let segment = slice_chars(&t, pos, na);
            proof {
                assert(segment@ =~= rest.take(na - pos));
                assert(rest.skip(na - pos) =~= t@.skip(na as int));
            }
            if bare_modifier(&segment) {
                proof {
                    assert(rest.len() > 0 && rest[0] != '<');
                    assert(angle_tokens(rest, leader) == Err::<Seq<KeyChord>, Seq<char>>(
                        angle_modifier_hint(segment@),
                    ));
                    assert(t@.contains('<'));
                }
                return Err(
                    message_around(
                        "unsupported key `",
                        &segment,
                        "`; use Vim-style angle modifiers like `<C-w>`",
                    ),
                );
            }
            proof {
                lemma_prepend_twice(
                    keys@,
                    char_chords_spec(segment@),
                    angle_tokens(t@.skip(na as int), leader),
                );
            }
            push_char_chords(&mut keys, &segment);
            pos = na;
        }
    }
    proof {
        assert(keys@ + Seq::<KeyChord>::empty() =~= keys@);
    }
    Ok(keys)
}

/// The chords of one token of a key sequence, where `<leader>` stands for `leader`,
/// or why the token is refused.
pub fn parse_sequence_token(token: &str, leader: KeyChord) -> (r: Result<Vec<KeyChord>, String>)
    ensures
        agrees_chords(r, sequence_token_spec(token@, leader)),
{
    sequence_token_of(&str_chars(token), leader)
}


/// Comparing a chord's canonical form changes nothing more: the canonical form of a
/// canonical chord is itself.
pub proof fn law_canonical_is_idempotent(c: KeyChord)
    ensures
        canonical_chord(canonical_chord(c)) == canonical_chord(c),
{
}

/// Every chord is matched by the key press it names, and so shares an event with
/// itself.
pub proof fn law_chord_matches_its_own_key_press(c: KeyChord)
    ensures
        chord_matches(c, c.code, c.modifiers),
        chords_share_event(c, c),
{
    let events = candidate_events(c) + candidate_events(c);
    assert(events[0] == KeyEvent {
        code: canonical_chord(c).code,
        modifiers: canonical_chord(c).modifiers,
    });
    assert(canonical_chord(KeyChord { code: canonical_chord(c).code, modifiers: canonical_chord(c).modifiers }) == canonical_chord(c));
    assert(chord_matches(c, events[0].code, events[0].modifiers));
}

/// Whether two chords can be produced by the same key press does not depend on the
/// order in which they are compared.
pub proof fn law_shared_event_is_symmetric(a: KeyChord, b: KeyChord)
    ensures
        chords_share_event(a, b) == chords_share_event(b, a),
{
    let ab = candidate_events(a) + candidate_events(b);
    let ba = candidate_events(b) + candidate_events(a);
    if chords_share_event(a, b) {
        let i = choose|i: int|
            0 <= i < ab.len() && chord_matches(a, #[trigger] ab[i].code, ab[i].modifiers)
                && chord_matches(b, ab[i].code, ab[i].modifiers);
        let j = if i < candidate_events(a).len() {
            i + candidate_events(b).len()
        } else {
            i - candidate_events(a).len()
        };
        assert(ba[j] == ab[i]);
    }
    if chords_share_event(b, a) {
        let i = choose|i: int|
            0 <= i < ba.len() && chord_matches(b, #[trigger] ba[i].code, ba[i].modifiers)
                && chord_matches(a, ba[i].code, ba[i].modifiers);
        let j = if i < candidate_events(b).len() {
            i + candidate_events(a).len()
        } else {
            i - candidate_events(b).len()
        };
        assert(ab[j] == ba[i]);
    }
}

/// A shifted letter is one key press however the terminal encodes it: `v` with
/// Shift, `V`, and `V` with Shift all share an event with one another.
pub proof fn law_shifted_letter_encodings_share_an_event(v: char)
    requires
        'a' <= v <= 'z',
    ensures
        chords_share_event(
            KeyChord { code: KeyCode::Char(v), modifiers: shift_only() },
            KeyChord { code: KeyCode::Char(ascii_uppercase(v)), modifiers: no_modifiers() },
        ),
        chords_share_event(
            KeyChord { code: KeyCode::Char(v), modifiers: shift_only() },
            KeyChord { code: KeyCode::Char(ascii_uppercase(v)), modifiers: shift_only() },
        ),
        chords_share_event(
            KeyChord { code: KeyCode::Char(ascii_uppercase(v)), modifiers: shift_only() },
            KeyChord { code: KeyCode::Char(ascii_uppercase(v)), modifiers: no_modifiers() },
        ),
{
    let lower_shift = KeyChord { code: KeyCode::Char(v), modifiers: shift_only() };
    let upper = KeyChord { code: KeyCode::Char(ascii_uppercase(v)), modifiers: no_modifiers() };
    let upper_shift = KeyChord { code: KeyCode::Char(ascii_uppercase(v)), modifiers: shift_only() };
    let shifted = KeyEvent { code: KeyCode::Char(ascii_uppercase(v)), modifiers: shift_only() };
    assert(chord_matches(lower_shift, shifted.code, shifted.modifiers));
    assert(chord_matches(upper, shifted.code, shifted.modifiers));
    assert(chord_matches(upper_shift, shifted.code, shifted.modifiers));
    let e1 = candidate_events(lower_shift) + candidate_events(upper);
    assert(e1[1] == shifted);
    let e2 = candidate_events(lower_shift) + candidate_events(upper_shift);
    assert(e2[1] == shifted);
    let e3 = candidate_events(upper_shift) + candidate_events(upper);
    assert(e3[0] == shifted);
}

} // verus!
