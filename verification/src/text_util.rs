use vstd::prelude::*;

use crate::unicode::{char_is_whitespace, is_whitespace_char, str_chars};

verus! {

/// Whether `needle` occurs in `hay` starting at index `i`.
pub open spec fn occurs_at(hay: Seq<char>, needle: Seq<char>, i: int) -> bool {
    0 <= i && i + needle.len() <= hay.len() && hay.subrange(i, i + needle.len()) == needle
}

/// Whether `needle` occurs somewhere in `hay`.
pub open spec fn contains_seq(hay: Seq<char>, needle: Seq<char>) -> bool {
    exists|i: int| occurs_at(hay, needle, i)
}

/// Whether `hay` starts with `prefix`.
pub open spec fn has_prefix(hay: Seq<char>, prefix: Seq<char>) -> bool {
    prefix.len() <= hay.len() && hay.take(prefix.len() as int) == prefix
}

/// Whether `needle` occurs in `hay` at index `i`.
pub fn occurs_at_exec(hay: &Vec<char>, needle: &Vec<char>, i: usize) -> (r: bool)
    ensures
        r == occurs_at(hay@, needle@, i as int),
{
    if i > hay.len() || needle.len() > hay.len() - i {
        return false;
    }
    let mut k: usize = 0;
    while k < needle.len()
        invariant
            i + needle.len() <= hay.len(),
            k <= needle@.len(),
            forall|m: int| 0 <= m < k ==> hay@[i + m] == #[trigger] needle@[m],
        decreases needle@.len() - k,
    {
        assert(i + k < hay.len());
        if hay[i + k] != needle[k] {
            proof {
                assert(hay@.subrange(i as int, i + needle@.len())[k as int] != needle@[k as int]);
            }
            return false;
        }
        k = k + 1;
    }
    proof {
        assert(hay@.subrange(i as int, i + needle@.len()) =~= needle@);
    }
    true
}

/// The first index at or after `from` at which `needle` occurs in `hay`.
pub fn find_from(hay: &Vec<char>, needle: &Vec<char>, from: usize) -> (r: Option<usize>)
    ensures
        match r {
            Some(i) => from <= i && occurs_at(hay@, needle@, i as int) && forall|j: int|
                from <= j < i ==> !#[trigger] occurs_at(hay@, needle@, j),
            None => forall|j: int| from <= j ==> !#[trigger] occurs_at(hay@, needle@, j),
        },
{
    let mut i = from;
    while i <= hay.len()
        invariant
            from <= i,
            forall|j: int| from <= j < i ==> !#[trigger] occurs_at(hay@, needle@, j),
        decreases hay@.len() + 1 - i,
    {
        if occurs_at_exec(hay, needle, i) {
            return Some(i);
        }
        if i == hay.len() {
            proof {
                assert forall|j: int| from <= j implies !#[trigger] occurs_at(hay@, needle@, j) by {
                    if j < i {
                    } else if j > i {
                        assert(!(j + needle@.len() <= hay@.len()));
                    }
                }
            }
            return None;
        }
        i = i + 1;
    }
    proof {
        assert forall|j: int| from <= j implies !#[trigger] occurs_at(hay@, needle@, j) by {
            if j >= i {
                assert(!(j + needle@.len() <= hay@.len()));
            }
        }
    }
    None
}

/// Whether `needle` occurs in `hay`, as `str::contains` tests.
pub fn contains_chars(hay: &Vec<char>, needle: &Vec<char>) -> (r: bool)
    ensures
        r == contains_seq(hay@, needle@),
{
    match find_from(hay, needle, 0) {
        Some(_) => true,
        None => false,
    }
}

/// Whether `hay` starts with `prefix`, as `str::starts_with` tests.
pub fn starts_with_chars(hay: &Vec<char>, prefix: &Vec<char>) -> (r: bool)
    ensures
        r == has_prefix(hay@, prefix@),
{
    let r = occurs_at_exec(hay, prefix, 0);
    proof {
        if prefix@.len() <= hay@.len() {
            assert(hay@.subrange(0, prefix@.len() as int) =~= hay@.take(prefix@.len() as int));
        }
    }
    r
}

/// Index of the first non-whitespace char at or after `i` (or the end).
pub open spec fn trim_start_index(s: Seq<char>, i: int) -> int
    decreases s.len() - i,
{
    if 0 <= i < s.len() && is_whitespace_char(s[i]) {
        trim_start_index(s, i + 1)
    } else {
        i
    }
}

/// Index just after the last non-whitespace char before `j`, not going below `lo`.
pub open spec fn trim_end_index(s: Seq<char>, lo: int, j: int) -> int
    decreases j - lo,
{
    if lo < j && is_whitespace_char(s[j - 1]) {
        trim_end_index(s, lo, j - 1)
    } else {
        j
    }
}

/// `s` without leading and trailing whitespace, as `str::trim` gives it.
pub open spec fn trimmed(s: Seq<char>) -> Seq<char> {
    let lo = trim_start_index(s, 0);
    s.subrange(lo, trim_end_index(s, lo, s.len() as int))
}

proof fn lemma_trim_bounds(s: Seq<char>, i: int, lo: int, j: int)
    requires
        0 <= i <= s.len(),
        0 <= lo <= j <= s.len(),
    ensures
        i <= trim_start_index(s, i) <= s.len(),
        lo <= trim_end_index(s, lo, j) <= j,
    decreases s.len() - i + j - lo,
{
    if i < s.len() {
        lemma_trim_bounds(s, i + 1, lo, j);
    }
    if lo < j {
        lemma_trim_bounds(s, i, lo, j - 1);
    }
}

/// Bounds of `s[from..to]` without leading and trailing whitespace.
pub fn trim_range(s: &Vec<char>, from: usize, to: usize) -> (r: (usize, usize))
    requires
        from <= to <= s.len(),
    ensures
        r.0 == from + trim_start_index(s@.subrange(from as int, to as int), 0),
        r.1 == from + trim_end_index(
            s@.subrange(from as int, to as int),
            trim_start_index(s@.subrange(from as int, to as int), 0),
            to - from,
        ),
        from <= r.0 <= r.1 <= to,
{
    let ghost sub = s@.subrange(from as int, to as int);
    proof {
        lemma_trim_bounds(sub, 0, 0, sub.len() as int);
    }
    let mut i = from;
    while i < to && char_is_whitespace(s[i])
        invariant
            from <= i <= to <= s@.len(),
            sub == s@.subrange(from as int, to as int),
            trim_start_index(sub, i - from) == trim_start_index(sub, 0),
        decreases to - i,
    {
        i = i + 1;
    }
    let ghost lo = i - from;
    let mut j = to;
    while j > i && char_is_whitespace(s[j - 1])
        invariant
            from <= i <= j <= to <= s@.len(),
            sub == s@.subrange(from as int, to as int),
            lo == i - from,
            trim_end_index(sub, lo, j - from) == trim_end_index(sub, lo, to - from),
        decreases j,
    {
        j = j - 1;
    }
    (i, j)
}

/// `s` without leading and trailing whitespace.
pub fn trim_chars(s: &Vec<char>) -> (r: Vec<char>)
    ensures
        r@ == trimmed(s@),
{
    let (a, b) = trim_range(s, 0, s.len());
    proof {
        assert(s@.subrange(0, s@.len() as int) =~= s@);
    }
    slice_chars(s, a, b)
}

/// The chars `s[from..to]`.
pub fn slice_chars(s: &Vec<char>, from: usize, to: usize) -> (r: Vec<char>)
    requires
        from <= to <= s.len(),
    ensures
        r@ == s@.subrange(from as int, to as int),
{
    let mut out: Vec<char> = Vec::new();
    let mut i = from;
    while i < to
        invariant
            from <= i <= to <= s@.len(),
            out@ =~= s@.subrange(from as int, i as int),
        decreases to - i,
    {
        out.push(s[i]);
        i = i + 1;
    }
    out
}

/// Index of the first `c` at or after `i`, or the end of `s`.
pub open spec fn next_index_of(s: Seq<char>, c: char, i: int) -> int
    decreases s.len() - i,
{
    if 0 <= i < s.len() && s[i] != c {
        next_index_of(s, c, i + 1)
    } else {
        i
    }
}

/// The pieces of `s` between occurrences of `sep`, from index `i` on.
pub open spec fn pieces_from(s: Seq<char>, sep: char, i: int) -> Seq<Seq<char>>
    decreases s.len() - i, 1int,
{
    if i < 0 || i > s.len() {
        Seq::empty()
    } else {
        let end = next_index_of(s, sep, i);
        if end >= s.len() || end < i {
            seq![s.subrange(i, s.len() as int)]
        } else {
            seq![s.subrange(i, end)] + pieces_from(s, sep, end + 1)
        }
    }
}

/// The pieces of `s` between occurrences of `sep`, as `str::split` yields them.
pub open spec fn split_pieces(s: Seq<char>, sep: char) -> Seq<Seq<char>> {
    pieces_from(s, sep, 0)
}

pub proof fn lemma_next_index_bounds(s: Seq<char>, c: char, i: int)
    requires
        0 <= i <= s.len(),
    ensures
        i <= next_index_of(s, c, i) <= s.len(),
        next_index_of(s, c, i) < s.len() ==> s[next_index_of(s, c, i)] == c,
        forall|k: int| i <= k < next_index_of(s, c, i) ==> s[k] != c,
    decreases s.len() - i,
{
    if i < s.len() && s[i] != c {
        lemma_next_index_bounds(s, c, i + 1);
    }
}

/// The pieces of `s` between newlines (a trailing empty piece included).
pub open spec fn newline_pieces(s: Seq<char>) -> Seq<Seq<char>> {
    split_pieces(s, '\n')
}

/// The trimmed, non-empty lines of `s`, in order.
pub open spec fn meaningful_lines_from(pieces: Seq<Seq<char>>) -> Seq<Seq<char>>
    decreases pieces.len(),
{
    if pieces.len() == 0 {
        Seq::empty()
    } else {
        let rest = meaningful_lines_from(pieces.drop_last());
        let line = trimmed(pieces.last());
        if line.len() == 0 {
            rest
        } else {
            rest.push(line)
        }
    }
}

/// The trimmed lines of `s` that are not empty, in order.
pub open spec fn trimmed_nonempty_lines(s: Seq<char>) -> Seq<Seq<char>> {
    meaningful_lines_from(newline_pieces(s))
}

/// Bounds of each newline-separated piece of `s`, in order.
pub fn newline_piece_bounds(s: &Vec<char>) -> (r: Vec<(usize, usize)>)
    ensures
        r@.len() == newline_pieces(s@).len(),
        forall|k: int|
            0 <= k < r@.len() ==> {
                let (a, b) = #[trigger] r@[k];
                &&& a <= b <= s@.len()
                &&& s@.subrange(a as int, b as int) == newline_pieces(s@)[k]
            },
{
    piece_bounds(s, '\n')
}

/// Bounds of each piece of `s` between occurrences of `sep`, in order.
pub fn piece_bounds(s: &Vec<char>, sep: char) -> (r: Vec<(usize, usize)>)
    ensures
        r@.len() == split_pieces(s@, sep).len(),
        forall|k: int|
            0 <= k < r@.len() ==> {
                let (a, b) = #[trigger] r@[k];
                &&& a <= b <= s@.len()
                &&& s@.subrange(a as int, b as int) == split_pieces(s@, sep)[k]
            },
{
    let mut out: Vec<(usize, usize)> = Vec::new();
    let mut start: usize = 0;
    let ghost acc: Seq<Seq<char>> = Seq::empty();
    loop
        invariant
            start <= s@.len(),
            out@.len() == acc.len(),
            forall|k: int|
                0 <= k < out@.len() ==> {
                    let (a, b) = #[trigger] out@[k];
                    &&& a <= b <= s@.len()
                    &&& s@.subrange(a as int, b as int) == acc[k]
                },
            acc + pieces_from(s@, sep, start as int) == split_pieces(s@, sep),
        decreases s@.len() - start,
    {
        let mut end = start;
        while end < s.len() && s[end] != sep
            invariant
                start <= end <= s@.len(),
                next_index_of(s@, sep, end as int) == next_index_of(s@, sep, start as int),
            decreases s@.len() - end,
        {
            end = end + 1;
        }
        proof {
            lemma_next_index_bounds(s@, sep, start as int);
        }
        out.push((start, end));
        if end >= s.len() {
            proof {
                assert(pieces_from(s@, sep, start as int) == seq![
                    s@.subrange(start as int, s@.len() as int),
                ]);
                acc = acc.push(s@.subrange(start as int, end as int));
                assert(acc =~= split_pieces(s@, sep));
            }
            return out;
        }
        proof {
            let piece = s@.subrange(start as int, end as int);
            assert(pieces_from(s@, sep, start as int) == seq![piece] + pieces_from(
                s@,
                sep,
                end + 1,
            ));
            assert(acc + pieces_from(s@, sep, start as int) =~= acc.push(piece) + pieces_from(
                s@,
                sep,
                end + 1,
            ));
            acc = acc.push(piece);
        }
        start = end + 1;
    }
}

/// Index of the first `c` in `s[from..]`, or `s.len()` if there is none.
pub fn index_of_char(s: &Vec<char>, c: char, from: usize) -> (r: usize)
    requires
        from <= s.len(),
    ensures
        r == next_index_of(s@, c, from as int),
        from <= r <= s.len(),
        r < s.len() ==> s@[r as int] == c,
        forall|k: int| from <= k < r ==> s@[k] != c,
{
    proof {
        lemma_next_index_bounds(s@, c, from as int);
    }
    let mut i = from;
    while i < s.len() && s[i] != c
        invariant
            from <= i <= s@.len(),
            next_index_of(s@, c, i as int) == next_index_of(s@, c, from as int),
        decreases s@.len() - i,
    {
        i = i + 1;
    }
    i
}

/// Whether two char sequences are equal.
pub fn chars_eq(a: &Vec<char>, b: &Vec<char>) -> (r: bool)
    ensures
        r == (a@ == b@),
{
    if a.len() != b.len() {
        return false;
    }
    let mut i: usize = 0;
    while i < a.len()
        invariant
            a@.len() == b@.len(),
            i <= a@.len(),
            forall|k: int| 0 <= k < i ==> a@[k] == b@[k],
        decreases a@.len() - i,
    {
        if a[i] != b[i] {
            return false;
        }
        i = i + 1;
    }
    proof {
        assert(a@ =~= b@);
    }
    true
}

/// Joining one more part adds the separator and the part (just the part when it is
/// the first).
pub proof fn lemma_join_push(parts: Seq<Seq<char>>, sep: Seq<char>, x: Seq<char>)
    ensures
        join_with(parts.push(x), sep) == if parts.len() == 0 {
            x
        } else {
            join_with(parts, sep) + sep + x
        },
{
    assert(parts.push(x).drop_last() =~= parts);
    if parts.len() == 0 {
        assert(parts.push(x)[0] == x);
    }
}

/// `parts` joined with `sep` between consecutive parts.
pub open spec fn join_with(parts: Seq<Seq<char>>, sep: Seq<char>) -> Seq<char>
    decreases parts.len(),
{
    if parts.len() == 0 {
        Seq::empty()
    } else if parts.len() == 1 {
        parts[0]
    } else {
        join_with(parts.drop_last(), sep) + sep + parts.last()
    }
}

/// Decimal digits of `n`.
pub open spec fn decimal(n: nat) -> Seq<char>
    decreases n,
{
    if n < 10 {
        seq![digit_char(n)]
    } else {
        decimal(n / 10).push(digit_char(n % 10))
    }
}

/// The char of digit `d`.
pub open spec fn digit_char(d: nat) -> char {
    if d == 0 {
        '0'
    } else if d == 1 {
        '1'
    } else if d == 2 {
        '2'
    } else if d == 3 {
        '3'
    } else if d == 4 {
        '4'
    } else if d == 5 {
        '5'
    } else if d == 6 {
        '6'
    } else if d == 7 {
        '7'
    } else if d == 8 {
        '8'
    } else {
        '9'
    }
}

fn digit(d: u64) -> (c: char)
    requires
        d < 10,
    ensures
        c == digit_char(d as nat),
{
    if d == 0 {
        '0'
    } else if d == 1 {
        '1'
    } else if d == 2 {
        '2'
    } else if d == 3 {
        '3'
    } else if d == 4 {
        '4'
    } else if d == 5 {
        '5'
    } else if d == 6 {
        '6'
    } else if d == 7 {
        '7'
    } else if d == 8 {
        '8'
    } else {
        '9'
    }
}

/// Appends the decimal digits of `n` to `out`.
pub fn push_decimal(out: &mut Vec<char>, n: u64)
    ensures
        final(out)@ == old(out)@ + decimal(n as nat),
    decreases n,
{
    if n < 10 {
        out.push(digit(n));
    } else {
        push_decimal(out, n / 10);
        out.push(digit(n % 10));
        proof {
            assert(old(out)@ + decimal(n as nat) =~= old(out)@ + decimal((n / 10) as nat) + seq![
                digit_char((n % 10) as nat),
            ]);
        }
    }
}

/// Appends the chars of `s` to `out`.
pub fn push_str(out: &mut Vec<char>, s: &str)
    ensures
        final(out)@ == old(out)@ + s@,
{
    let chars = str_chars(s);
    push_chars(out, &chars);
}

/// Appends `extra` to `out`.
pub fn push_chars(out: &mut Vec<char>, extra: &Vec<char>)
    ensures
        final(out)@ == old(out)@ + extra@,
{
    let ghost start = out@;
    let mut i: usize = 0;
    while i < extra.len()
        invariant
            i <= extra@.len(),
            out@ =~= start + extra@.take(i as int),
        decreases extra@.len() - i,
    {
        out.push(extra[i]);
        i = i + 1;
    }
    proof {
        assert(extra@.take(extra@.len() as int) =~= extra@);
    }
}


proof fn lemma_next_index_concat(x: Seq<char>, y: Seq<char>, c: char, i: int)
    requires
        0 <= i <= y.len(),
    ensures
        next_index_of(x + y, c, x.len() + i) == x.len() + next_index_of(y, c, i),
    decreases y.len() - i,
{
    if i < y.len() {
        assert((x + y)[x.len() + i] == y[i]);
        lemma_next_index_concat(x, y, c, i + 1);
    }
}

pub proof fn lemma_next_index_clear(s: Seq<char>, c: char, i: int, j: int)
    requires
        0 <= i <= j <= s.len(),
        forall|k: int| i <= k < j ==> s[k] != c,
    ensures
        next_index_of(s, c, i) == next_index_of(s, c, j),
    decreases j - i,
{
    if i < j {
        lemma_next_index_clear(s, c, i + 1, j);
    }
}

proof fn lemma_pieces_shift(x: Seq<char>, y: Seq<char>, sep: char, i: int)
    requires
        0 <= i <= y.len(),
    ensures
        pieces_from(x + y, sep, x.len() + i) == pieces_from(y, sep, i),
    decreases y.len() - i,
{
    let s = x + y;
    lemma_next_index_concat(x, y, sep, i);
    lemma_next_index_bounds(y, sep, i);
    let end = next_index_of(y, sep, i);
    if end >= y.len() {
        assert(s.subrange(x.len() + i, s.len() as int) =~= y.subrange(i, y.len() as int));
    } else {
        assert(s.subrange(x.len() + i, x.len() + end) =~= y.subrange(i, end));
        lemma_pieces_shift(x, y, sep, end + 1);
    }
}

/// Splitting the parts of `a`, a separator and `b` gives `a`, then the parts of `b`,
/// when `a` holds no separator.
pub proof fn lemma_split_front(a: Seq<char>, b: Seq<char>, sep: char)
    requires
        !a.contains(sep),
    ensures
        split_pieces(a + seq![sep] + b, sep) == seq![a] + split_pieces(b, sep),
{
    let x = a + seq![sep];
    let s = x + b;
    assert(a + seq![sep] + b == s);
    assert forall|k: int| 0 <= k < a.len() implies s[k] != sep by {
        assert(s[k] == a[k]);
        if s[k] == sep {
            assert(a.contains(sep));
        }
    }
    lemma_next_index_clear(s, sep, 0, a.len() as int);
    assert(s[a.len() as int] == sep);
    assert(next_index_of(s, sep, a.len() as int) == a.len());
    assert(s.subrange(0, a.len() as int) =~= a);
    lemma_pieces_shift(x, b, sep, 0);
    assert(x.len() + 0 == a.len() + 1);
}

/// A text holding no separator splits into itself alone.
pub proof fn lemma_split_single(a: Seq<char>, sep: char)
    requires
        !a.contains(sep),
    ensures
        split_pieces(a, sep) == seq![a],
{
    assert forall|k: int| 0 <= k < a.len() implies a[k] != sep by {
        if a[k] == sep {
            assert(a.contains(sep));
        }
    }
    lemma_next_index_clear(a, sep, 0, a.len() as int);
    assert(a.subrange(0, a.len() as int) =~= a);
}

/// Joining at least two parts puts the first part, the separator, then the rest
/// joined.
pub proof fn lemma_join_front(parts: Seq<Seq<char>>, sep: Seq<char>)
    requires
        parts.len() >= 2,
    ensures
        join_with(parts, sep) == parts[0] + sep + join_with(parts.skip(1), sep),
    decreases parts.len(),
{
    let d = parts.drop_last();
    assert(d[0] == parts[0]);
    assert(join_with(parts, sep) == join_with(d, sep) + sep + parts.last());
    if parts.len() == 2 {
        assert(parts.skip(1) =~= seq![parts[1]]);
        assert(join_with(d, sep) == parts[0]);
        assert(join_with(parts.skip(1), sep) == parts[1]);
    } else {
        lemma_join_front(d, sep);
        assert(d.skip(1) =~= parts.skip(1).drop_last());
        assert(parts.skip(1).last() == parts.last());
        assert(join_with(parts.skip(1), sep) == join_with(d.skip(1), sep) + sep + parts.last());
        assert(parts[0] + sep + (join_with(d.skip(1), sep) + sep + parts.last()) =~= (parts[0] + sep
            + join_with(d.skip(1), sep)) + sep + parts.last());
    }
}

/// Splitting parts joined with a one-char separator gives the parts back, when no part
/// holds the separator.
pub proof fn lemma_split_join(parts: Seq<Seq<char>>, sep: char)
    requires
        parts.len() >= 1,
        forall|i: int| 0 <= i < parts.len() ==> !(#[trigger] parts[i]).contains(sep),
    ensures
        split_pieces(join_with(parts, seq![sep]), sep) == parts,
    decreases parts.len(),
{
    if parts.len() == 1 {
        lemma_split_single(parts[0], sep);
        assert(seq![parts[0]] =~= parts);
    } else {
        let rest = parts.skip(1);
        lemma_join_front(parts, seq![sep]);
        assert forall|i: int| 0 <= i < rest.len() implies !(#[trigger] rest[i]).contains(sep) by {
            assert(rest[i] == parts[i + 1]);
        }
        lemma_split_join(rest, sep);
        assert(!parts[0].contains(sep));
        lemma_split_front(parts[0], join_with(rest, seq![sep]), sep);
        assert(seq![parts[0]] + rest =~= parts);
    }
}

/// No piece of a split holds the separator.
pub proof fn lemma_pieces_clear(s: Seq<char>, sep: char, i: int)
    requires
        0 <= i <= s.len(),
    ensures
        forall|k: int|
            0 <= k < pieces_from(s, sep, i).len() ==> !(#[trigger] pieces_from(s, sep, i)[k]).contains(
                sep,
            ),
    decreases s.len() - i,
{
    lemma_next_index_bounds(s, sep, i);
    let end = next_index_of(s, sep, i);
    let ps = pieces_from(s, sep, i);
    if end >= s.len() {
        let p = s.subrange(i, s.len() as int);
        assert forall|m: int| 0 <= m < p.len() implies p[m] != sep by {
            assert(p[m] == s[i + m]);
        }
        assert(ps == seq![p]);
        assert forall|k: int| 0 <= k < ps.len() implies !(#[trigger] ps[k]).contains(sep) by {
            if p.contains(sep) {
                let m = choose|m: int| 0 <= m < p.len() && p[m] == sep;
                assert(p[m] != sep);
            }
        }
    } else {
        let p = s.subrange(i, end);
        lemma_pieces_clear(s, sep, end + 1);
        let rest = pieces_from(s, sep, end + 1);
        assert(ps == seq![p] + rest);
        assert forall|k: int| 0 <= k < ps.len() implies !(#[trigger] ps[k]).contains(sep) by {
            if k == 0 {
                if p.contains(sep) {
                    let m = choose|m: int| 0 <= m < p.len() && p[m] == sep;
                    assert(p[m] == s[i + m]);
                }
            } else {
                assert(ps[k] == rest[k - 1]);
            }
        }
    }
}

/// Decimal digits are digits: no other char occurs among them.
pub proof fn lemma_decimal_digits(n: nat, c: char)
    requires
        !('0' <= c <= '9'),
    ensures
        !decimal(n).contains(c),
    decreases n,
{
    if n >= 10 {
        lemma_decimal_digits(n / 10, c);
        let d = decimal(n / 10).push(digit_char(n % 10));
        if d.contains(c) {
            let k = choose|k: int| 0 <= k < d.len() && d[k] == c;
            if k < decimal(n / 10).len() {
                assert(decimal(n / 10)[k] == c);
            }
        }
    } else {
        if decimal(n).contains(c) {
            let k = choose|k: int| 0 <= k < decimal(n).len() && decimal(n)[k] == c;
            assert(k == 0);
        }
    }
}

} // verus!
