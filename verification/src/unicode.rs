use unicode_segmentation::UnicodeSegmentation;
use vstd::prelude::*;

verus! {

/// Number of bytes the UTF-8 encoding of `c` takes.
pub open spec fn utf8_width(c: char) -> nat {
    let v = c as int;
    if v < 0x80 {
        1
    } else if v < 0x800 {
        2
    } else if v < 0x10000 {
        3
    } else {
        4
    }
}

/// Number of bytes the UTF-8 encoding of `s` takes.
pub open spec fn utf8_len(s: Seq<char>) -> nat
    decreases s.len(),
{
    if s.len() == 0 {
        0
    } else {
        utf8_len(s.drop_last()) + utf8_width(s.last())
    }
}

/// The UTF-8 length of a prefix grows by the width of the next char.
pub proof fn lemma_utf8_len_take_step(s: Seq<char>, k: int)
    requires
        0 <= k < s.len(),
    ensures
        utf8_len(s.take(k + 1)) == utf8_len(s.take(k)) + utf8_width(s[k]),
{
    assert(s.take(k + 1).drop_last() =~= s.take(k));
}

/// UTF-8 length is additive over concatenation.
pub proof fn lemma_utf8_len_concat(a: Seq<char>, b: Seq<char>)
    ensures
        utf8_len(a + b) == utf8_len(a) + utf8_len(b),
    decreases b.len(),
{
    if b.len() == 0 {
        assert(a + b =~= a);
    } else {
        assert((a + b).drop_last() =~= a + b.drop_last());
        lemma_utf8_len_concat(a, b.drop_last());
    }
}

/// UTF-8 length of a prefix is monotone in the prefix length and bounded by the whole.
pub proof fn lemma_utf8_len_take_mono(s: Seq<char>, j: int, k: int)
    requires
        0 <= j <= k <= s.len(),
    ensures
        utf8_len(s.take(j)) <= utf8_len(s.take(k)),
        j < k ==> utf8_len(s.take(j)) < utf8_len(s.take(k)),
    decreases k - j,
{
    if j < k {
        lemma_utf8_len_take_step(s, k - 1);
        lemma_utf8_len_take_mono(s, j, k - 1);
    }
}

/// The UTF-8 width of `c`, as `char::len_utf8` computes it.
pub fn char_utf8_width(c: char) -> (w: usize)
    ensures
        w == utf8_width(c),
        1 <= w <= 4,
{
    let v = c as u32;
    if v < 0x80 {
        1
    } else if v < 0x800 {
        2
    } else if v < 0x10000 {
        3
    } else {
        4
    }
}

/// Unicode `White_Space`, the property `char::is_whitespace` tests.
pub open spec fn is_whitespace_char(c: char) -> bool {
    let v = c as int;
    ||| 0x09 <= v <= 0x0D
    ||| v == 0x20
    ||| v == 0x85
    ||| v == 0xA0
    ||| v == 0x1680
    ||| 0x2000 <= v <= 0x200A
    ||| v == 0x2028
    ||| v == 0x2029
    ||| v == 0x202F
    ||| v == 0x205F
    ||| v == 0x3000
}

/// Whether `c` is Unicode whitespace.
pub fn char_is_whitespace(c: char) -> (b: bool)
    ensures
        b == is_whitespace_char(c),
{
    let v = c as u32;
    (0x09 <= v && v <= 0x0D) || v == 0x20 || v == 0x85 || v == 0xA0 || v == 0x1680 || (0x2000
        <= v && v <= 0x200A) || v == 0x2028 || v == 0x2029 || v == 0x202F || v == 0x205F || v
        == 0x3000
}

/// Sum of the first `k` lengths.
pub open spec fn prefix_sum(lens: Seq<usize>, k: int) -> int
    decreases k,
{
    if k <= 0 {
        0
    } else {
        prefix_sum(lens, k - 1) + lens[k - 1]
    }
}

/// All lengths are at least one.
pub open spec fn all_positive(lens: Seq<usize>) -> bool {
    forall|i: int| 0 <= i < lens.len() ==> #[trigger] lens[i] >= 1
}

/// Prefix sums of positive lengths strictly increase.
pub proof fn lemma_prefix_sum_mono(lens: Seq<usize>, j: int, k: int)
    requires
        all_positive(lens),
        0 <= j <= k <= lens.len(),
    ensures
        prefix_sum(lens, j) <= prefix_sum(lens, k),
        j < k ==> prefix_sum(lens, j) + (k - j) <= prefix_sum(lens, k),
    decreases k - j,
{
    if j < k {
        lemma_prefix_sum_mono(lens, j, k - 1);
        assert(lens[k - 1] >= 1);
    }
}

/// Lengths, in chars, of the extended grapheme clusters of a text.
pub uninterp spec fn grapheme_lengths(text: Seq<char>) -> Seq<usize>;

/// Char offsets at which an extended grapheme cluster of `text` starts or ends.
pub open spec fn is_grapheme_boundary(text: Seq<char>, b: int) -> bool {
    exists|k: int|
        0 <= k <= grapheme_lengths(text).len() && #[trigger] prefix_sum(grapheme_lengths(text), k)
            == b
}

/// The greatest grapheme boundary strictly below `cursor`.
pub open spec fn previous_grapheme_start(text: Seq<char>, cursor: int) -> int {
    choose|r: int|
        r < cursor && is_grapheme_boundary(text, r) && forall|b: int|
            r < b < cursor ==> !is_grapheme_boundary(text, b)
}

/// The least grapheme boundary strictly above `cursor`.
pub open spec fn next_grapheme_end(text: Seq<char>, cursor: int) -> int {
    choose|r: int|
        cursor < r && is_grapheme_boundary(text, r) && forall|b: int|
            cursor < b < r ==> !is_grapheme_boundary(text, b)
}

/// The grapheme clusters of `text` are non-empty and cover it: what splitting a text
/// gives (see `grapheme_char_lengths`).
pub open spec fn grapheme_lengths_cover(text: Seq<char>) -> bool {
    &&& all_positive(grapheme_lengths(text))
    &&& prefix_sum(grapheme_lengths(text), grapheme_lengths(text).len() as int) == text.len()
}

/// `r` is the least grapheme boundary above `c`.
pub open spec fn is_next_boundary(text: Seq<char>, c: int, r: int) -> bool {
    c < r && is_grapheme_boundary(text, r) && forall|b: int|
        c < b < r ==> !is_grapheme_boundary(text, b)
}

/// Two consecutive grapheme boundaries name each other: the greatest boundary below
/// `r` is `c`, and the least above `c` is `r`.
proof fn lemma_consecutive_boundaries(text: Seq<char>, c: int, r: int)
    requires
        is_grapheme_boundary(text, c),
        is_next_boundary(text, c, r),
    ensures
        previous_grapheme_start(text, r) == c,
        next_grapheme_end(text, c) == r,
{
    let p = previous_grapheme_start(text, r);
    assert(c < r && is_grapheme_boundary(text, c) && forall|b: int|
        c < b < r ==> !is_grapheme_boundary(text, b));
    assert(p < r && is_grapheme_boundary(text, p) && forall|b: int|
        p < b < r ==> !is_grapheme_boundary(text, b));
    assert(p == c) by {
        if p < c {
            assert(p < c < r);
        } else if p > c {
            assert(c < p < r);
        }
    }
    let n = next_grapheme_end(text, c);
    assert(is_next_boundary(text, c, n));
    assert(n == r) by {
        if n < r {
            assert(c < n < r);
        } else if n > r {
            assert(c < r < n);
        }
    }
}

/// Where grapheme `k` of `text` ends, with `k` below the number of clusters, is the
/// least boundary above where it starts.
proof fn lemma_cluster_bounds(text: Seq<char>, k: int)
    requires
        grapheme_lengths_cover(text),
        0 <= k < grapheme_lengths(text).len(),
    ensures
        is_next_boundary(
            text,
            prefix_sum(grapheme_lengths(text), k),
            prefix_sum(grapheme_lengths(text), k + 1),
        ),
        is_grapheme_boundary(text, prefix_sum(grapheme_lengths(text), k)),
        prefix_sum(grapheme_lengths(text), k + 1) <= text.len(),
{
    let g = grapheme_lengths(text);
    lemma_prefix_sum_mono(g, k, k + 1);
    lemma_prefix_sum_mono(g, k + 1, g.len() as int);
    assert(is_grapheme_boundary(text, prefix_sum(g, k)));
    assert(is_grapheme_boundary(text, prefix_sum(g, k + 1)));
    assert forall|b: int| prefix_sum(g, k) < b < prefix_sum(g, k + 1) implies !is_grapheme_boundary(
        text,
        b,
    ) by {
        if is_grapheme_boundary(text, b) {
            let j = choose|j: int| 0 <= j <= g.len() && #[trigger] prefix_sum(g, j) == b;
            if j <= k {
                lemma_prefix_sum_mono(g, j, k);
            } else {
                lemma_prefix_sum_mono(g, k + 1, j);
            }
        }
    }
}

/// Stepping over one grapheme cluster to the right and then one to the left returns
/// to where the step started, from any cluster boundary before the end of the text.
pub proof fn law_grapheme_step_right_then_left_returns(text: Seq<char>, c: int)
    requires
        grapheme_lengths_cover(text),
        is_grapheme_boundary(text, c),
        c < text.len(),
    ensures
        c < next_grapheme_end(text, c) <= text.len(),
        previous_grapheme_start(text, next_grapheme_end(text, c)) == c,
{
    let g = grapheme_lengths(text);
    let k = choose|k: int| 0 <= k <= g.len() && #[trigger] prefix_sum(g, k) == c;
    assert(k < g.len());
    lemma_cluster_bounds(text, k);
    lemma_consecutive_boundaries(text, c, prefix_sum(g, k + 1));
}

/// Stepping over one grapheme cluster to the left and then one to the right returns
/// to where the step started, from any cluster boundary after the start of the text.
pub proof fn law_grapheme_step_left_then_right_returns(text: Seq<char>, c: int)
    requires
        grapheme_lengths_cover(text),
        is_grapheme_boundary(text, c),
        0 < c,
    ensures
        0 <= previous_grapheme_start(text, c) < c,
        next_grapheme_end(text, previous_grapheme_start(text, c)) == c,
{
    let g = grapheme_lengths(text);
    let k = choose|k: int| 0 <= k <= g.len() && #[trigger] prefix_sum(g, k) == c;
    assert(k > 0);
    lemma_cluster_bounds(text, k - 1);
    lemma_prefix_sum_mono(g, 0, k - 1);
    lemma_consecutive_boundaries(text, prefix_sum(g, k - 1), c);
}

/// Splits `text` with `UnicodeSegmentation::graphemes(_, true)` from the
/// unicode-segmentation crate and reports the length in chars of each extended
/// grapheme cluster. The crate yields consecutive non-empty slices that cover the
/// text, so every length is at least one and the lengths add up to the text's
/// length; where the clusters break is not stated beyond the name.
#[verifier::external_body]
fn grapheme_char_lengths(text: &Vec<char>) -> (lens: Vec<usize>)
    ensures
        lens@ == grapheme_lengths(text@),
        all_positive(lens@),
        prefix_sum(lens@, lens@.len() as int) == text.len(),
{
    let s: String = text.iter().collect();
    s.graphemes(true).map(|g| g.chars().count()).collect()
}

/// Start of the grapheme cluster that ends at or contains the char just before `cursor`:
/// the greatest grapheme boundary below `cursor`.
pub fn previous_grapheme_boundary(text: &Vec<char>, cursor: usize) -> (r: usize)
    requires
        0 < cursor <= text.len(),
    ensures
        r < cursor,
        is_grapheme_boundary(text@, r as int),
        forall|b: int| r < b < cursor ==> !is_grapheme_boundary(text@, b),
        r == previous_grapheme_start(text@, cursor as int),
        grapheme_lengths_cover(text@),
{
    let lens = grapheme_char_lengths(text);
    let ghost g = lens@;
    let mut acc: usize = 0;
    let mut k: usize = 0;
    while k < lens.len()
        invariant_except_break
            acc < cursor,
        invariant
            g == lens@,
            g == grapheme_lengths(text@),
            all_positive(g),
            prefix_sum(g, g.len() as int) == text.len(),
            0 < cursor <= text.len(),
            k <= lens.len(),
            acc == prefix_sum(g, k as int),
        ensures
            acc < cursor,
            k < lens.len(),
            prefix_sum(g, k + 1) >= cursor,
        decreases lens.len() - k,
    {
        proof {
            lemma_prefix_sum_mono(g, k + 1, g.len() as int);
        }
        let next = acc + lens[k];
        if next >= cursor {
            break ;
        }
        acc = next;
        k = k + 1;
    }
    proof {
        assert(is_grapheme_boundary(text@, acc as int)) by {
            assert(prefix_sum(g, k as int) == acc);
        }
        assert forall|b: int| acc < b < cursor implies !is_grapheme_boundary(text@, b) by {
            if is_grapheme_boundary(text@, b) {
                let j = choose|j: int| 0 <= j <= g.len() && #[trigger] prefix_sum(g, j) == b;
                if j <= k {
                    lemma_prefix_sum_mono(g, j, k as int);
                } else {
                    lemma_prefix_sum_mono(g, k + 1, j);
                }
            }
        }
        let p = previous_grapheme_start(text@, cursor as int);
        assert(p < cursor && is_grapheme_boundary(text@, p) && forall|b: int|
            p < b < cursor ==> !is_grapheme_boundary(text@, b));
        assert(p == acc);
    }
    acc
}

/// End of the grapheme cluster that starts at or contains the char at `cursor`:
/// the least grapheme boundary above `cursor`, or `cursor` itself at the end of the text.
pub fn next_grapheme_boundary(text: &Vec<char>, cursor: usize) -> (r: usize)
    requires
        cursor <= text.len(),
    ensures
        cursor == text.len() ==> r == cursor,
        cursor < text.len() ==> {
            &&& cursor < r <= text.len()
            &&& is_grapheme_boundary(text@, r as int)
            &&& forall|b: int| cursor < b < r ==> !is_grapheme_boundary(text@, b)
            &&& r == next_grapheme_end(text@, cursor as int)
            &&& grapheme_lengths_cover(text@)
        },
{
    if cursor == text.len() {
        return cursor;
    }
    let lens = grapheme_char_lengths(text);
    let ghost g = lens@;
    let mut acc: usize = 0;
    let mut k: usize = 0;
    while k < lens.len()
        invariant_except_break
            acc <= cursor,
            acc == prefix_sum(g, k as int),
        invariant
            g == lens@,
            g == grapheme_lengths(text@),
            all_positive(g),
            prefix_sum(g, g.len() as int) == text.len(),
            cursor < text.len(),
            k <= lens.len(),
        ensures
            k < lens.len(),
            prefix_sum(g, k as int) <= cursor,
            acc == prefix_sum(g, k + 1),
            acc > cursor,
        decreases lens.len() - k,
    {
        proof {
            lemma_prefix_sum_mono(g, k + 1, g.len() as int);
        }
        let next = acc + lens[k];
        if next > cursor {
            acc = next;
            break ;
        }
        acc = next;
        k = k + 1;
    }
    proof {
        lemma_prefix_sum_mono(g, k + 1, g.len() as int);
        assert(is_grapheme_boundary(text@, acc as int)) by {
            assert(prefix_sum(g, k + 1) == acc);
        }
        assert forall|b: int| cursor < b < acc implies !is_grapheme_boundary(text@, b) by {
            if is_grapheme_boundary(text@, b) {
                let j = choose|j: int| 0 <= j <= g.len() && #[trigger] prefix_sum(g, j) == b;
                if j <= k {
                    lemma_prefix_sum_mono(g, j, k as int);
                } else {
                    lemma_prefix_sum_mono(g, k + 1, j);
                }
            }
        }
        let p = next_grapheme_end(text@, cursor as int);
        assert(cursor < p && is_grapheme_boundary(text@, p) && forall|b: int|
            cursor < b < p ==> !is_grapheme_boundary(text@, b));
        assert(p == acc);
    }
    acc
}

/// The chars of `s`, as `str::chars` yields them.
pub(crate) fn str_chars(s: &str) -> (v: Vec<char>)
    ensures
        v@ == s@,
{
    let mut it = s.chars();
    let mut out: Vec<char> = Vec::new();
    loop
        invariant
            out@ + vstd::std_specs::iter::IteratorSpec::remaining(&it) == s@,
            vstd::std_specs::iter::IteratorSpec::decrease(&it) is Some,
        ensures
            out@ == s@,
        decreases vstd::std_specs::iter::IteratorSpec::decrease(&it)->0,
    {
        let ghost before = vstd::std_specs::iter::IteratorSpec::remaining(&it);
        match it.next() {
            Some(c) => {
                proof {
                    assert(out@.push(c) + vstd::std_specs::iter::IteratorSpec::remaining(&it) =~= out@ + before);
                }
                out.push(c);
            },
            None => {
                proof {
                    assert(out@ + before =~= out@);
                }
                break;
            },
        }
    }
    out
}

/// The string made of the chars of `v`, as `String: FromIterator<char>` builds it.
#[verifier::external_body]
pub(crate) fn string_from_chars(v: &[char]) -> (s: String)
    ensures
        s@ == v@,
{
    v.iter().collect()
}

/// Whether two strings hold the same chars.
pub(crate) fn str_eq(a: &str, b: &str) -> (r: bool)
    ensures
        r == (a@ == b@),
{
    let x = str_chars(a);
    let y = str_chars(b);
    if x.len() != y.len() {
        return false;
    }
    let mut i: usize = 0;
    while i < x.len()
        invariant
            x@ == a@,
            y@ == b@,
            x@.len() == y@.len(),
            i <= x@.len(),
            forall|j: int| 0 <= j < i ==> x@[j] == y@[j],
        decreases x@.len() - i,
    {
        if x[i] != y[i] {
            return false;
        }
        i = i + 1;
    }
    proof {
        assert(x@ =~= y@);
    }
    true
}

} // verus!
