use vstd::prelude::*;

use crate::text_input::byte_offset;
use crate::text_util::{find_from, occurs_at};
use crate::unicode::{
    char_utf8_width, lemma_utf8_len_concat, lemma_utf8_len_take_mono, lemma_utf8_len_take_step, str_chars,
    utf8_len,
};

verus! {

/// What a highlighted span of message text mentions.
#[derive(Clone, Copy, Debug, PartialEq, Eq, Structural)]
pub enum TextHighlightKind {
    SelfMention,
    OtherMention,
}

/// A highlighted span of message text, from byte `start` to byte `end`.
#[derive(Clone, Copy, Debug, PartialEq, Eq, Structural)]
pub struct TextHighlight {
    pub start: usize,
    pub end: usize,
    pub kind: TextHighlightKind,
}

/// Whether `a` comes before `b` or ties with it in the order by `(start, end)`.
pub open spec fn range_le(a: TextHighlight, b: TextHighlight) -> bool {
    a.start < b.start || (a.start == b.start && a.end <= b.end)
}

/// Whether `s` is ordered by `(start, end)`.
pub open spec fn sorted_by_range(s: Seq<TextHighlight>) -> bool {
    forall|i: int, j: int| 0 <= i < j < s.len() ==> range_le(#[trigger] s[i], #[trigger] s[j])
}

/// Whether every highlight runs forward.
pub open spec fn all_forward(s: Seq<TextHighlight>) -> bool {
    forall|i: int| 0 <= i < s.len() ==> #[trigger] s[i].start <= s[i].end
}

/// Whether `h` lies within `o`.
pub open spec fn lies_within(h: TextHighlight, o: TextHighlight) -> bool {
    o.start <= h.start && h.end <= o.end
}

/// Whether `h` lies within one of the spans `out`.
pub open spec fn lies_in_one(h: TextHighlight, out: Seq<TextHighlight>) -> bool {
    exists|k: int| 0 <= k < out.len() && lies_within(h, #[trigger] out[k])
}

/// Whether one of the first `n` spans of `s` starts at byte `x`.
pub open spec fn start_seen(s: Seq<TextHighlight>, n: int, x: usize) -> bool {
    exists|j: int| 0 <= j < n && #[trigger] s[j].start == x
}

/// Whether one of the first `n` spans of `s` ends at byte `x`.
pub open spec fn end_seen(s: Seq<TextHighlight>, n: int, x: usize) -> bool {
    exists|j: int| 0 <= j < n && #[trigger] s[j].end == x
}

/// Whether byte `p` lies in the closed span of `h`.
pub open spec fn covers(h: TextHighlight, p: int) -> bool {
    h.start <= p <= h.end
}

/// Whether `h` starts within the closed span of `o`.
pub open spec fn starts_in(h: TextHighlight, o: TextHighlight) -> bool {
    o.start <= h.start <= o.end
}

/// Whether `s` is ordered with a gap between each span and the next.
pub open spec fn apart(s: Seq<TextHighlight>) -> bool {
    forall|i: int| 0 <= i < s.len() - 1 ==> #[trigger] s[i].end < s[i + 1].start
}

/// Whether the normalized spans `out` describe the spans `input`: every span lies
/// within one of them, each begins and ends where a span does, and, for forward
/// spans, they cover the same bytes and a span is a self mention exactly when one of
/// the spans starting in it is.
pub open spec fn normalized_from(input: Seq<TextHighlight>, out: Seq<TextHighlight>) -> bool {
    &&& apart(out)
    &&& forall|i: int| 0 <= i < input.len() ==> #[trigger] lies_in_one(input[i], out)
    &&& forall|k: int|
        0 <= k < out.len() ==> #[trigger] start_seen(input, input.len() as int, out[k].start)
    &&& forall|k: int| 0 <= k < out.len() ==> #[trigger] end_seen(input, input.len() as int, out[k].end)
    &&& all_forward(input) ==> {
        &&& all_forward(out)
        &&& forall|k: int, p: int|
            0 <= k < out.len() && #[trigger] covers(out[k], p) ==> exists|i: int|
                0 <= i < input.len() && #[trigger] covers(input[i], p)
        &&& forall|k: int|
            0 <= k < out.len() ==> ((#[trigger] out[k]).kind == TextHighlightKind::SelfMention
                <==> exists|i: int|
                0 <= i < input.len() && input[i].kind == TextHighlightKind::SelfMention
                    && #[trigger] starts_in(input[i], out[k]))
    }
}

/// `h` inserted into `s` after every span that does not come after it, as insertion
/// sort places it.
pub open spec fn insert_sorted(s: Seq<TextHighlight>, h: TextHighlight) -> Seq<TextHighlight>
    decreases s.len(),
{
    if s.len() == 0 {
        seq![h]
    } else if range_le(s.last(), h) {
        s.push(h)
    } else {
        insert_sorted(s.drop_last(), h).push(s.last())
    }
}

/// `s` ordered by `(start, end)`, equal spans kept in their order.
pub open spec fn sort_spec(s: Seq<TextHighlight>) -> Seq<TextHighlight>
    decreases s.len(),
{
    if s.len() == 0 {
        Seq::empty()
    } else {
        insert_sorted(sort_spec(s.drop_last()), s.last())
    }
}

/// The spans of `s` merged in order, each joining the last merged span when it starts
/// within it.
pub open spec fn merge_all(s: Seq<TextHighlight>) -> Seq<TextHighlight>
    decreases s.len(),
{
    if s.len() == 0 {
        Seq::empty()
    } else {
        merge_step(merge_all(s.drop_last()), s.last())
    }
}

/// The highlights as normalizing leaves them: sorted, then merged.
pub open spec fn normalized_spec(s: Seq<TextHighlight>) -> Seq<TextHighlight> {
    merge_all(sort_spec(s))
}

proof fn lemma_insert_sorted_at(s: Seq<TextHighlight>, h: TextHighlight, pos: int)
    requires
        0 <= pos <= s.len(),
        forall|j: int| pos <= j < s.len() ==> !range_le(#[trigger] s[j], h),
        pos == 0 || range_le(s[pos - 1], h),
    ensures
        insert_sorted(s, h) == s.insert(pos, h),
    decreases s.len(),
{
    if s.len() == 0 {
        assert(s.insert(pos, h) =~= seq![h]);
    } else if range_le(s.last(), h) {
        if pos < s.len() {
            assert(!range_le(s[s.len() - 1], h));
        }
        assert(s.insert(pos, h) =~= s.push(h));
    } else {
        let d = s.drop_last();
        if pos == s.len() {
            assert(range_le(s[pos - 1], h));
        }
        assert forall|j: int| pos <= j < d.len() implies !range_le(#[trigger] d[j], h) by {
            assert(d[j] == s[j]);
        }
        if pos > 0 {
            assert(d[pos - 1] == s[pos - 1]);
        }
        lemma_insert_sorted_at(d, h, pos);
        assert(d.insert(pos, h).push(s.last()) =~= s.insert(pos, h));
    }
}

/// Orders `input` by `(start, end)`, keeping equal spans in their order.
fn sort_by_range(input: &Vec<TextHighlight>) -> (r: Vec<TextHighlight>)
    ensures
        r@ == sort_spec(input@),
        sorted_by_range(r@),
        r@.len() == input@.len(),
        forall|i: int| 0 <= i < input@.len() ==> r@.contains(#[trigger] input@[i]),
        forall|i: int| 0 <= i < r@.len() ==> input@.contains(#[trigger] r@[i]),
{
    let mut sorted: Vec<TextHighlight> = Vec::new();
    let mut i: usize = 0;
    while i < input.len()
        invariant
            i <= input@.len(),
            sorted@.len() == i,
            sorted@ == sort_spec(input@.take(i as int)),
            sorted_by_range(sorted@),
            forall|j: int| 0 <= j < i ==> sorted@.contains(#[trigger] input@[j]),
            forall|j: int| 0 <= j < sorted@.len() ==> input@.take(i as int).contains(#[trigger] sorted@[j]),
        decreases input@.len() - i,
    {
        let h = input[i];
        let mut pos: usize = sorted.len();
        while pos > 0 && !range_le_exec(sorted[pos - 1], h)
            invariant
                pos <= sorted@.len(),
                forall|j: int| pos <= j < sorted@.len() ==> !range_le(#[trigger] sorted@[j], h),
            decreases pos,
        {
            pos = pos - 1;
        }
        let ghost before = sorted@;
        proof {
            assert forall|j: int| 0 <= j < pos implies range_le(#[trigger] before[j], h) by {
                if pos > 0 {
                    assert(range_le(before[pos - 1], h));
                    assert(range_le(before[j], before[pos - 1]) || j == pos - 1);
                }
            }
        }
        sorted.insert(pos, h);
        proof {
            assert(sorted@ =~= before.insert(pos as int, h));
            lemma_insert_sorted_at(before, h, pos as int);
            assert(input@.take(i + 1).drop_last() =~= input@.take(i as int));
            assert(input@.take(i + 1).last() == h);
            assert forall|a: int, b: int| 0 <= a < b < sorted@.len() implies range_le(
                #[trigger] sorted@[a],
                #[trigger] sorted@[b],
            ) by {
                if a < pos && b < pos {
                    assert(sorted@[a] == before[a] && sorted@[b] == before[b]);
                } else if a < pos && b == pos {
                } else if a < pos {
                    assert(sorted@[a] == before[a] && sorted@[b] == before[b - 1]);
                    assert(range_le(before[a], h));
                    assert(!range_le(before[b - 1], h));
                } else if a == pos {
                    assert(sorted@[b] == before[b - 1]);
                    assert(!range_le(before[b - 1], h));
                } else {
                    assert(sorted@[a] == before[a - 1] && sorted@[b] == before[b - 1]);
                }
            }
            assert forall|j: int| 0 <= j < i + 1 implies sorted@.contains(#[trigger] input@[j]) by {
                if j == i {
                    assert(sorted@[pos as int] == h);
                } else {
                    let k = choose|k: int| 0 <= k < before.len() && before[k] == input@[j];
                    if k < pos {
                        assert(sorted@[k] == input@[j]);
                    } else {
                        assert(sorted@[k + 1] == input@[j]);
                    }
                }
            }
            let taken = input@.take(i + 1);
            assert forall|j: int| 0 <= j < sorted@.len() implies taken.contains(#[trigger] sorted@[j]) by {
                if j == pos {
                    assert(taken[i as int] == h);
                } else {
                    let b = if j < pos {
                        j
                    } else {
                        j - 1
                    };
                    assert(sorted@[j] == before[b]);
                    let k = choose|k: int| 0 <= k < input@.take(i as int).len() && input@.take(i as int)[k] == before[b];
                    assert(taken[k] == before[b]);
                }
            }
        }
        i = i + 1;
    }
    proof {
        assert(input@.take(i as int) =~= input@);
    }
    sorted
}

fn range_le_exec(a: TextHighlight, b: TextHighlight) -> (r: bool)
    ensures
        r == range_le(a, b),
{
    a.start < b.start || (a.start == b.start && a.end <= b.end)
}

/// The merged spans keep their order: each ends before the next starts.
#[verifier::opaque]
pub open spec fn merge_order(nz: Seq<TextHighlight>) -> bool {
    &&& forall|a: int, b: int| 0 <= a < b < nz.len() ==> #[trigger] nz[a].end < #[trigger] nz[b].start
    &&& forall|a: int, b: int| 0 <= a < b < nz.len() ==> #[trigger] nz[a].start <= #[trigger] nz[b].start
}

/// Each of the first `i` spans lies within a merged span.
#[verifier::opaque]
pub open spec fn merge_within(sorted: Seq<TextHighlight>, i: int, nz: Seq<TextHighlight>) -> bool {
    forall|j: int| 0 <= j < i ==> #[trigger] lies_in_one(sorted[j], nz)
}

/// Each merged span begins and ends where one of the first `i` spans does.
#[verifier::opaque]
pub open spec fn merge_witness(sorted: Seq<TextHighlight>, i: int, nz: Seq<TextHighlight>) -> bool {
    &&& forall|k: int| 0 <= k < nz.len() ==> #[trigger] start_seen(sorted, i, nz[k].start)
    &&& forall|k: int| 0 <= k < nz.len() ==> #[trigger] end_seen(sorted, i, nz[k].end)
}

/// For forward spans: the merged spans run forward and cover only bytes the first `i`
/// spans cover.
#[verifier::opaque]
pub open spec fn merge_cover(sorted: Seq<TextHighlight>, i: int, nz: Seq<TextHighlight>) -> bool {
    all_forward(sorted) ==> {
        &&& all_forward(nz)
        &&& forall|k: int, p: int|
            0 <= k < nz.len() && #[trigger] covers(nz[k], p) ==> exists|j: int|
                0 <= j < i && #[trigger] covers(sorted[j], p)
    }
}

/// For forward spans: a merged span is a self mention exactly when one of the first
/// `i` spans starting in it is.
#[verifier::opaque]
pub open spec fn merge_kind(sorted: Seq<TextHighlight>, i: int, nz: Seq<TextHighlight>) -> bool {
    all_forward(sorted) ==> forall|k: int|
        0 <= k < nz.len() ==> ((#[trigger] nz[k]).kind == TextHighlightKind::SelfMention
            <==> exists|j: int|
            0 <= j < i && sorted[j].kind == TextHighlightKind::SelfMention
                && #[trigger] starts_in(sorted[j], nz[k]))
}

/// For forward spans: each of the first `i` spans starts in the last merged span or
/// before it.
#[verifier::opaque]
pub open spec fn merge_tail(sorted: Seq<TextHighlight>, i: int, nz: Seq<TextHighlight>) -> bool {
    all_forward(sorted) && i > 0 ==> forall|j: int|
        0 <= j < i ==> #[trigger] starts_in(sorted[j], nz.last()) || sorted[j].start
            < nz.last().start
}

/// Spans `nz` merged from the first `i` spans of `sorted`, as the merge pass keeps them.
pub open spec fn merge_inv(sorted: Seq<TextHighlight>, i: int, nz: Seq<TextHighlight>) -> bool {
    &&& 0 <= i <= sorted.len()
    &&& (i > 0 <==> nz.len() > 0)
    &&& merge_order(nz)
    &&& merge_within(sorted, i, nz)
    &&& merge_witness(sorted, i, nz)
    &&& merge_cover(sorted, i, nz)
    &&& merge_kind(sorted, i, nz)
    &&& merge_tail(sorted, i, nz)
}

/// One step of the merge pass: `h` joins the last span when it starts within it, and
/// follows it otherwise.
pub open spec fn merge_step(nz: Seq<TextHighlight>, h: TextHighlight) -> Seq<TextHighlight> {
    if nz.len() > 0 && h.start <= nz.last().end {
        let last = nz.last();
        nz.update(
            nz.len() - 1,
            TextHighlight {
                start: last.start,
                end: if h.end > last.end {
                    h.end
                } else {
                    last.end
                },
                kind: if h.kind == TextHighlightKind::SelfMention {
                    TextHighlightKind::SelfMention
                } else {
                    last.kind
                },
            },
        )
    } else {
        nz.push(h)
    }
}

/// Whether `h` joins the last merged span.
pub open spec fn joins(nz: Seq<TextHighlight>, h: TextHighlight) -> bool {
    nz.len() > 0 && h.start <= nz.last().end
}

proof fn lemma_last_start(sorted: Seq<TextHighlight>, i: int, nz: Seq<TextHighlight>)
    requires
        sorted_by_range(sorted),
        0 <= i < sorted.len(),
        nz.len() > 0,
        merge_witness(sorted, i, nz),
    ensures
        nz.last().start <= sorted[i].start,
        forall|j: int| 0 <= j < i ==> #[trigger] sorted[j].start <= sorted[i].start,
{
    reveal(merge_witness);
    let lk = nz.len() - 1;
    assert(start_seen(sorted, i, nz[lk].start));
    let j0 = choose|j: int| 0 <= j < i && #[trigger] sorted[j].start == nz[lk].start;
    assert(range_le(sorted[j0], sorted[i]));
    assert forall|j: int| 0 <= j < i implies #[trigger] sorted[j].start <= sorted[i].start by {
        assert(range_le(sorted[j], sorted[i]));
    }
}

proof fn lemma_step_order(nz: Seq<TextHighlight>, h: TextHighlight)
    requires
        merge_order(nz),
        nz.len() > 0 ==> nz.last().start <= h.start,
    ensures
        merge_order(merge_step(nz, h)),
{
    reveal(merge_order);
    let nn = merge_step(nz, h);
    if !joins(nz, h) {
        let n = nz.len();
        assert forall|a: int, b: int| 0 <= a < b < nn.len() implies #[trigger] nn[a].end
            < #[trigger] nn[b].start by {
            if b == n && a < n - 1 {
                assert(nz[a].end < nz[n - 1].start);
            }
        }
        assert forall|a: int, b: int| 0 <= a < b < nn.len() implies #[trigger] nn[a].start
            <= #[trigger] nn[b].start by {
            if b == n && a < n - 1 {
                assert(nz[a].start <= nz[n - 1].start);
            }
        }
    }
}

proof fn lemma_step_within(sorted: Seq<TextHighlight>, i: int, nz: Seq<TextHighlight>)
    requires
        0 <= i < sorted.len(),
        merge_within(sorted, i, nz),
        nz.len() > 0 ==> nz.last().start <= sorted[i].start,
    ensures
        merge_within(sorted, i + 1, merge_step(nz, sorted[i])),
{
    reveal(merge_within);
    let h = sorted[i];
    let nn = merge_step(nz, sorted[i]);
    let lk = nz.len() - 1;
    assert forall|j: int| 0 <= j < i + 1 implies #[trigger] lies_in_one(sorted[j], nn) by {
        if j == i {
            if joins(nz, h) {
                assert(lies_within(sorted[j], nn[lk]));
            } else {
                assert(lies_within(sorted[j], nn[nz.len() as int]));
            }
        } else {
            assert(lies_in_one(sorted[j], nz));
            let k = choose|k: int| 0 <= k < nz.len() && lies_within(sorted[j], #[trigger] nz[k]);
            assert(lies_within(sorted[j], nn[k]));
        }
    }
}

proof fn lemma_step_witness(sorted: Seq<TextHighlight>, i: int, nz: Seq<TextHighlight>)
    requires
        0 <= i < sorted.len(),
        merge_witness(sorted, i, nz),
    ensures
        merge_witness(sorted, i + 1, merge_step(nz, sorted[i])),
{
    reveal(merge_witness);
    let h = sorted[i];
    let nn = merge_step(nz, sorted[i]);
    let lk = nz.len() - 1;
    assert forall|k: int| 0 <= k < nn.len() implies start_seen(sorted, i + 1, nn[k].start)
        && end_seen(sorted, i + 1, nn[k].end) by {
        if k < nz.len() {
            assert(start_seen(sorted, i, nz[k].start) && end_seen(sorted, i, nz[k].end));
            let j1 = choose|j: int| 0 <= j < i && #[trigger] sorted[j].start == nz[k].start;
            assert(sorted[j1].start == nn[k].start);
            if k == lk && joins(nz, h) && h.end > nz.last().end {
                assert(sorted[i].end == nn[k].end);
            } else {
                let j2 = choose|j: int| 0 <= j < i && #[trigger] sorted[j].end == nz[k].end;
                assert(sorted[j2].end == nn[k].end);
            }
        } else {
            assert(sorted[i].start == nn[k].start);
            assert(sorted[i].end == nn[k].end);
        }
    }
}

proof fn lemma_step_cover(sorted: Seq<TextHighlight>, i: int, nz: Seq<TextHighlight>)
    requires
        0 <= i < sorted.len(),
        merge_cover(sorted, i, nz),
    ensures
        merge_cover(sorted, i + 1, merge_step(nz, sorted[i])),
{
    reveal(merge_cover);
    let h = sorted[i];
    let nn = merge_step(nz, h);
    let lk = nz.len() - 1;
    if all_forward(sorted) {
        assert(h.start <= h.end);
        assert forall|k: int| 0 <= k < nn.len() implies #[trigger] nn[k].start <= nn[k].end by {
            if k < nz.len() {
                assert(nz[k].start <= nz[k].end);
            }
        }
        assert forall|k: int, p: int|
            0 <= k < nn.len() && #[trigger] covers(nn[k], p) implies exists|j: int|
                0 <= j < i + 1 && #[trigger] covers(sorted[j], p) by {
            if k < nz.len() && !(k == lk && joins(nz, h) && p > nz.last().end) {
                assert(covers(nz[k], p));
                let j = choose|j: int| 0 <= j < i && #[trigger] covers(sorted[j], p);
            } else {
                assert(covers(sorted[i], p));
            }
        }
    }
}

proof fn lemma_step_kind_tail(sorted: Seq<TextHighlight>, i: int, nz: Seq<TextHighlight>)
    requires
        0 <= i < sorted.len(),
        (i > 0 <==> nz.len() > 0),
        merge_order(nz),
        merge_kind(sorted, i, nz),
        merge_tail(sorted, i, nz),
        nz.len() > 0 ==> nz.last().start <= sorted[i].start,
        forall|j: int| 0 <= j < i ==> #[trigger] sorted[j].start <= sorted[i].start,
    ensures
        merge_kind(sorted, i + 1, merge_step(nz, sorted[i])),
        merge_tail(sorted, i + 1, merge_step(nz, sorted[i])),
{
    reveal(merge_kind);
    reveal(merge_tail);
    reveal(merge_order);
    let h = sorted[i];
    let nn = merge_step(nz, h);
    let lk = nz.len() - 1;
    if all_forward(sorted) {
        assert(h.start <= h.end);
        if !joins(nz, h) {
            assert forall|j: int| 0 <= j < i implies sorted[j].start < h.start by {
                if starts_in(sorted[j], nz.last()) {
                } else {
                    assert(sorted[j].start < nz.last().start);
                }
            }
        }
        assert forall|k: int|
            0 <= k < nn.len() implies ((#[trigger] nn[k]).kind == TextHighlightKind::SelfMention
                <==> exists|j: int|
                0 <= j < i + 1 && sorted[j].kind == TextHighlightKind::SelfMention
                    && #[trigger] starts_in(sorted[j], nn[k])) by {
            let is_new_last = (joins(nz, h) && k == lk) || (!joins(nz, h) && k == nz.len());
            if !is_new_last {
                assert(nn[k] == nz[k]);
                assert(!starts_in(sorted[i], nn[k])) by {
                    if k < lk {
                        assert(nz[k].end < nz[lk].start);
                    }
                }
                if exists|j: int|
                    0 <= j < i + 1 && sorted[j].kind == TextHighlightKind::SelfMention
                        && #[trigger] starts_in(sorted[j], nn[k]) {
                    let j = choose|j: int|
                        0 <= j < i + 1 && sorted[j].kind == TextHighlightKind::SelfMention
                            && #[trigger] starts_in(sorted[j], nn[k]);
                    assert(j < i);
                    assert(starts_in(sorted[j], nz[k]));
                }
                if nz[k].kind == TextHighlightKind::SelfMention {
                    let j = choose|j: int|
                        0 <= j < i && sorted[j].kind == TextHighlightKind::SelfMention
                            && #[trigger] starts_in(sorted[j], nz[k]);
                    assert(starts_in(sorted[j], nn[k]));
                }
            } else if joins(nz, h) {
                assert(starts_in(sorted[i], nn[k]));
                if exists|j: int|
                    0 <= j < i + 1 && sorted[j].kind == TextHighlightKind::SelfMention
                        && #[trigger] starts_in(sorted[j], nn[k]) {
                    let j = choose|j: int|
                        0 <= j < i + 1 && sorted[j].kind == TextHighlightKind::SelfMention
                            && #[trigger] starts_in(sorted[j], nn[k]);
                    if j < i {
                        assert(starts_in(sorted[j], nz[k]));
                    }
                }
                if nz[k].kind == TextHighlightKind::SelfMention {
                    let j = choose|j: int|
                        0 <= j < i && sorted[j].kind == TextHighlightKind::SelfMention
                            && #[trigger] starts_in(sorted[j], nz[k]);
                    assert(starts_in(sorted[j], nn[k]));
                }
            } else {
                assert(starts_in(sorted[i], nn[k]));
                if exists|j: int|
                    0 <= j < i + 1 && sorted[j].kind == TextHighlightKind::SelfMention
                        && #[trigger] starts_in(sorted[j], nn[k]) {
                    let j = choose|j: int|
                        0 <= j < i + 1 && sorted[j].kind == TextHighlightKind::SelfMention
                            && #[trigger] starts_in(sorted[j], nn[k]);
                    assert(j == i);
                }
            }
        }
        assert forall|j: int| 0 <= j < i + 1 implies #[trigger] starts_in(sorted[j], nn.last())
            || sorted[j].start < nn.last().start by {
            if j == i {
                assert(starts_in(sorted[j], nn.last()));
            } else if joins(nz, h) {
                if starts_in(sorted[j], nz.last()) {
                    assert(starts_in(sorted[j], nn.last()));
                }
            }
        }
    }
}

proof fn lemma_merge_step(sorted: Seq<TextHighlight>, i: int, nz: Seq<TextHighlight>)
    requires
        sorted_by_range(sorted),
        merge_inv(sorted, i, nz),
        i < sorted.len(),
    ensures
        merge_inv(sorted, i + 1, merge_step(nz, sorted[i])),
{
    if nz.len() > 0 {
        lemma_last_start(sorted, i, nz);
    } else {
        assert forall|j: int| 0 <= j < i implies #[trigger] sorted[j].start <= sorted[i].start by {}
    }
    lemma_step_order(nz, sorted[i]);
    lemma_step_within(sorted, i, nz);
    lemma_step_witness(sorted, i, nz);
    lemma_step_cover(sorted, i, nz);
    lemma_step_kind_tail(sorted, i, nz);
}

proof fn lemma_merge_start(sorted: Seq<TextHighlight>)
    ensures
        merge_inv(sorted, 0, Seq::empty()),
{
    reveal(merge_order);
    reveal(merge_within);
    reveal(merge_witness);
    reveal(merge_cover);
    reveal(merge_kind);
    reveal(merge_tail);
}

proof fn lemma_normalized_transfer(
    input: Seq<TextHighlight>,
    sorted: Seq<TextHighlight>,
    nz: Seq<TextHighlight>,
)
    requires
        merge_inv(sorted, sorted.len() as int, nz),
        forall|i: int| 0 <= i < input.len() ==> sorted.contains(#[trigger] input[i]),
        forall|i: int| 0 <= i < sorted.len() ==> input.contains(#[trigger] sorted[i]),
    ensures
        normalized_from(input, nz),
{
    reveal(merge_order);
    reveal(merge_within);
    reveal(merge_witness);
    reveal(merge_cover);
    reveal(merge_kind);
    assert forall|i: int| 0 <= i < input.len() implies #[trigger] lies_in_one(input[i], nz) by {
        assert(sorted.contains(input[i]));
        let j = choose|j: int| 0 <= j < sorted.len() && sorted[j] == input[i];
        assert(lies_in_one(sorted[j], nz));
    }
    assert forall|k: int| 0 <= k < nz.len() implies start_seen(
        input,
        input.len() as int,
        nz[k].start,
    ) && end_seen(input, input.len() as int, nz[k].end) by {
        assert(start_seen(sorted, sorted.len() as int, nz[k].start));
        assert(end_seen(sorted, sorted.len() as int, nz[k].end));
        let j = choose|j: int| 0 <= j < sorted.len() && #[trigger] sorted[j].start == nz[k].start;
        assert(input.contains(sorted[j]));
        let i = choose|i: int| 0 <= i < input.len() && input[i] == sorted[j];
        assert(input[i].start == nz[k].start);
        let j2 = choose|j: int| 0 <= j < sorted.len() && #[trigger] sorted[j].end == nz[k].end;
        assert(input.contains(sorted[j2]));
        let i2 = choose|i: int| 0 <= i < input.len() && input[i] == sorted[j2];
        assert(input[i2].end == nz[k].end);
    }
    if all_forward(input) {
        assert forall|j: int| 0 <= j < sorted.len() implies #[trigger] sorted[j].start <= sorted[j].end by {
            let i = choose|i: int| 0 <= i < input.len() && input[i] == sorted[j];
            assert(input[i].start <= input[i].end);
        }
        assert(all_forward(sorted));
        assert forall|k: int, p: int|
            0 <= k < nz.len() && #[trigger] covers(nz[k], p) implies exists|i: int|
                0 <= i < input.len() && #[trigger] covers(input[i], p) by {
            let j = choose|j: int| 0 <= j < sorted.len() && #[trigger] covers(sorted[j], p);
            let i = choose|i: int| 0 <= i < input.len() && input[i] == sorted[j];
            assert(covers(input[i], p));
        }
        assert forall|k: int|
            0 <= k < nz.len() implies ((#[trigger] nz[k]).kind == TextHighlightKind::SelfMention
                <==> exists|i: int|
                0 <= i < input.len() && input[i].kind == TextHighlightKind::SelfMention
                    && #[trigger] starts_in(input[i], nz[k])) by {
            if nz[k].kind == TextHighlightKind::SelfMention {
                let j = choose|j: int|
                    0 <= j < sorted.len() && sorted[j].kind == TextHighlightKind::SelfMention
                        && #[trigger] starts_in(sorted[j], nz[k]);
                let i = choose|i: int| 0 <= i < input.len() && input[i] == sorted[j];
                assert(starts_in(input[i], nz[k]));
            }
            if exists|i: int|
                0 <= i < input.len() && input[i].kind == TextHighlightKind::SelfMention
                    && #[trigger] starts_in(input[i], nz[k]) {
                let i = choose|i: int|
                    0 <= i < input.len() && input[i].kind == TextHighlightKind::SelfMention
                        && #[trigger] starts_in(input[i], nz[k]);
                let j = choose|j: int| 0 <= j < sorted.len() && sorted[j] == input[i];
                assert(starts_in(sorted[j], nz[k]));
            }
        }
    }
}

proof fn lemma_insert_sorted_props(s: Seq<TextHighlight>, h: TextHighlight)
    requires
        sorted_by_range(s),
    ensures
        sorted_by_range(insert_sorted(s, h)),
        insert_sorted(s, h).len() == s.len() + 1,
        insert_sorted(s, h).contains(h),
        forall|j: int| 0 <= j < s.len() ==> insert_sorted(s, h).contains(#[trigger] s[j]),
        forall|j: int|
            0 <= j < insert_sorted(s, h).len() ==> s.contains(#[trigger] insert_sorted(s, h)[j])
                || insert_sorted(s, h)[j] == h,
    decreases s.len(),
{
    let r = insert_sorted(s, h);
    if s.len() == 0 {
        assert(r[0] == h);
    } else if range_le(s.last(), h) {
        assert(r =~= s.push(h));
        assert(r[s.len() as int] == h);
        assert forall|j: int| 0 <= j < s.len() implies r.contains(#[trigger] s[j]) by {
            assert(r[j] == s[j]);
        }
        assert forall|a: int, b: int| 0 <= a < b < r.len() implies range_le(
            #[trigger] r[a],
            #[trigger] r[b],
        ) by {
            if b < s.len() {
                assert(r[a] == s[a] && r[b] == s[b]);
            } else {
                assert(r[a] == s[a]);
                if a < s.len() - 1 {
                    assert(range_le(s[a], s[s.len() - 1]));
                }
            }
        }
        assert forall|j: int| 0 <= j < r.len() implies s.contains(#[trigger] r[j]) || r[j] == h by {
            if j < s.len() {
                assert(r[j] == s[j]);
            }
        }
    } else {
        let d = s.drop_last();
        let last = s.last();
        assert forall|a: int, b: int| 0 <= a < b < d.len() implies range_le(
            #[trigger] d[a],
            #[trigger] d[b],
        ) by {
            assert(d[a] == s[a] && d[b] == s[b]);
        }
        lemma_insert_sorted_props(d, h);
        let r2 = insert_sorted(d, h);
        assert(r =~= r2.push(last));
        assert(r[r2.len() as int] == last);
        assert forall|j: int| 0 <= j < r2.len() implies range_le(#[trigger] r2[j], last) by {
            if r2[j] == h {
            } else {
                assert(d.contains(r2[j]));
                let k = choose|k: int| 0 <= k < d.len() && d[k] == r2[j];
                assert(range_le(s[k], s[s.len() - 1]));
            }
        }
        assert forall|a: int, b: int| 0 <= a < b < r.len() implies range_le(
            #[trigger] r[a],
            #[trigger] r[b],
        ) by {
            if b < r2.len() {
                assert(r[a] == r2[a] && r[b] == r2[b]);
            } else {
                assert(r[a] == r2[a]);
            }
        }
        assert(r2.contains(h));
        let kh = choose|k: int| 0 <= k < r2.len() && r2[k] == h;
        assert(r[kh] == h);
        assert forall|j: int| 0 <= j < s.len() implies r.contains(#[trigger] s[j]) by {
            if j == s.len() - 1 {
                assert(r[r2.len() as int] == s[j]);
            } else {
                assert(d[j] == s[j]);
                assert(r2.contains(d[j]));
                let k = choose|k: int| 0 <= k < r2.len() && r2[k] == d[j];
                assert(r[k] == s[j]);
            }
        }
        assert forall|j: int| 0 <= j < r.len() implies s.contains(#[trigger] r[j]) || r[j] == h by {
            if j == r2.len() {
                assert(s[s.len() - 1] == r[j]);
            } else {
                assert(r[j] == r2[j]);
                if r2[j] != h {
                    assert(d.contains(r2[j]));
                    let k = choose|k: int| 0 <= k < d.len() && d[k] == r2[j];
                    assert(s[k] == r[j]);
                }
            }
        }
    }
}

proof fn lemma_sort_spec_props(x: Seq<TextHighlight>)
    ensures
        sorted_by_range(sort_spec(x)),
        sort_spec(x).len() == x.len(),
        forall|i: int| 0 <= i < x.len() ==> sort_spec(x).contains(#[trigger] x[i]),
        forall|i: int| 0 <= i < sort_spec(x).len() ==> x.contains(#[trigger] sort_spec(x)[i]),
    decreases x.len(),
{
    if x.len() > 0 {
        let d = x.drop_last();
        lemma_sort_spec_props(d);
        let sd = sort_spec(d);
        lemma_insert_sorted_props(sd, x.last());
        let r = sort_spec(x);
        assert forall|i: int| 0 <= i < x.len() implies r.contains(#[trigger] x[i]) by {
            if i < d.len() {
                assert(d[i] == x[i]);
                assert(sd.contains(d[i]));
                let k = choose|k: int| 0 <= k < sd.len() && sd[k] == d[i];
                assert(r.contains(sd[k]));
            }
        }
        assert forall|i: int| 0 <= i < r.len() implies x.contains(#[trigger] r[i]) by {
            if r[i] == x.last() {
                assert(x[x.len() - 1] == r[i]);
            } else {
                assert(sd.contains(r[i]));
                let k = choose|k: int| 0 <= k < sd.len() && sd[k] == r[i];
                assert(d.contains(sd[k]));
                let m = choose|m: int| 0 <= m < d.len() && d[m] == sd[k];
                assert(x[m] == r[i]);
            }
        }
    }
}

proof fn lemma_merge_all_inv(sorted: Seq<TextHighlight>, i: int)
    requires
        sorted_by_range(sorted),
        0 <= i <= sorted.len(),
    ensures
        merge_inv(sorted, i, merge_all(sorted.take(i))),
    decreases i,
{
    if i == 0 {
        assert(sorted.take(0) =~= Seq::<TextHighlight>::empty());
        lemma_merge_start(sorted);
    } else {
        lemma_merge_all_inv(sorted, i - 1);
        lemma_merge_step(sorted, i - 1, merge_all(sorted.take(i - 1)));
        assert(sorted.take(i).drop_last() =~= sorted.take(i - 1));
        assert(sorted.take(i).last() == sorted[i - 1]);
    }
}

proof fn lemma_normalized_spec_from(x: Seq<TextHighlight>)
    ensures
        normalized_from(x, normalized_spec(x)),
        forall|a: int, b: int|
            0 <= a < b < normalized_spec(x).len() ==> #[trigger] normalized_spec(x)[a].end
                < #[trigger] normalized_spec(x)[b].start,
{
    let sorted = sort_spec(x);
    lemma_sort_spec_props(x);
    lemma_merge_all_inv(sorted, sorted.len() as int);
    assert(sorted.take(sorted.len() as int) =~= sorted);
    lemma_normalized_transfer(x, sorted, merge_all(sorted));
    reveal(merge_order);
}

proof fn lemma_sort_spec_of_sorted(y: Seq<TextHighlight>)
    requires
        sorted_by_range(y),
    ensures
        sort_spec(y) == y,
    decreases y.len(),
{
    if y.len() > 0 {
        let d = y.drop_last();
        assert forall|a: int, b: int| 0 <= a < b < d.len() implies range_le(
            #[trigger] d[a],
            #[trigger] d[b],
        ) by {
            assert(d[a] == y[a] && d[b] == y[b]);
        }
        lemma_sort_spec_of_sorted(d);
        if d.len() > 0 {
            assert(range_le(y[d.len() - 1], y[y.len() - 1]));
            assert(d.last() == y[d.len() - 1]);
        }
        assert(insert_sorted(d, y.last()) =~= y);
    }
}

proof fn lemma_merge_all_of_apart(y: Seq<TextHighlight>)
    requires
        forall|a: int, b: int| 0 <= a < b < y.len() ==> #[trigger] y[a].end < #[trigger] y[b].start,
    ensures
        merge_all(y) == y,
    decreases y.len(),
{
    if y.len() > 0 {
        let d = y.drop_last();
        assert forall|a: int, b: int| 0 <= a < b < d.len() implies #[trigger] d[a].end
            < #[trigger] d[b].start by {
            assert(d[a] == y[a] && d[b] == y[b]);
        }
        lemma_merge_all_of_apart(d);
        if d.len() > 0 {
            assert(y[d.len() - 1].end < y[y.len() - 1].start);
            assert(d.last() == y[d.len() - 1]);
        }
        assert(merge_step(d, y.last()) =~= y);
    }
}

/// Normalized highlights are a fixed point: for spans that run forward, normalizing
/// the result of normalizing changes nothing.
pub proof fn law_normalizing_twice_changes_nothing(x: Seq<TextHighlight>)
    requires
        all_forward(x),
    ensures
        normalized_spec(normalized_spec(x)) == normalized_spec(x),
{
    let y = normalized_spec(x);
    lemma_normalized_spec_from(x);
    assert(all_forward(y));
    assert forall|a: int, b: int| 0 <= a < b < y.len() implies range_le(
        #[trigger] y[a],
        #[trigger] y[b],
    ) by {
        assert(y[a].start <= y[a].end);
        assert(y[a].end < y[b].start);
    }
    lemma_sort_spec_of_sorted(y);
    lemma_merge_all_of_apart(y);
}

/// Sorts the highlights by `(start, end)` and merges spans that overlap or touch;
/// a merged span is a self mention when any of its parts is.
pub fn normalize_text_highlights(highlights: &mut Vec<TextHighlight>)
    ensures
        final(highlights)@ == normalized_spec(old(highlights)@),
        normalized_from(old(highlights)@, final(highlights)@),
{
    let sorted = sort_by_range(highlights);
    let mut normalized: Vec<TextHighlight> = Vec::new();
    let mut i: usize = 0;
    proof {
        lemma_merge_start(sorted@);
        assert(normalized@ =~= Seq::<TextHighlight>::empty());
    }
    while i < sorted.len()
        invariant
            i <= sorted@.len(),
            sorted_by_range(sorted@),
            sorted@ == sort_spec(highlights@),
            normalized@ == merge_all(sorted@.take(i as int)),
            merge_inv(sorted@, i as int, normalized@),
        decreases sorted@.len() - i,
    {
        let h = sorted[i];
        let n = normalized.len();
        proof {
            lemma_merge_step(sorted@, i as int, normalized@);
        }
        let ghost expected = merge_step(normalized@, h);
        if n > 0 && h.start <= normalized[n - 1].end {
            let mut last = normalized[n - 1];
            if h.end > last.end {
                last.end = h.end;
            }
            if h.kind == TextHighlightKind::SelfMention {
                last.kind = TextHighlightKind::SelfMention;
            }
            normalized.set(n - 1, last);
        } else {
            normalized.push(h);
        }
        proof {
            assert(normalized@ =~= expected);
            assert(sorted@.take(i + 1).drop_last() =~= sorted@.take(i as int));
            assert(sorted@.take(i + 1).last() == h);
        }
        i = i + 1;
    }
    proof {
        lemma_normalized_transfer(highlights@, sorted@, normalized@);
        assert(sorted@.take(i as int) =~= sorted@);
    }
    *highlights = normalized;
}

/// Message text with its highlighted spans.
#[derive(Debug)]
pub struct RenderedText {
    pub text: String,
    pub highlights: Vec<TextHighlight>,
}

/// Whether `c` can be part of a word around a mention: an ASCII letter or digit, or `_`.
pub open spec fn is_mention_word_char(c: char) -> bool {
    ('a' <= c <= 'z') || ('A' <= c <= 'Z') || ('0' <= c <= '9') || c == '_'
}

/// Whether `c` can be part of a word around a mention.
pub fn is_literal_mention_word_char(value: char) -> (r: bool)
    ensures
        r == is_mention_word_char(value),
{
    ('a' <= value && value <= 'z') || ('A' <= value && value <= 'Z') || ('0' <= value && value
        <= '9') || value == '_'
}

/// Whether the chars `start..end` of `text` stand alone: no word char touches them.
pub open spec fn stands_alone(text: Seq<char>, start: int, end: int) -> bool {
    &&& !(start > 0 && is_mention_word_char(text[start - 1]))
    &&& !(end < text.len() && is_mention_word_char(text[end]))
}

/// Whether the chars `start..end` of `text` stand alone.
pub fn is_literal_mention_boundary(text: &Vec<char>, start: usize, end: usize) -> (r: bool)
    requires
        start <= end <= text@.len(),
    ensures
        r == stands_alone(text@, start as int, end as int),
{
    let before = start > 0 && is_literal_mention_word_char(text[start - 1]);
    let after = end < text.len() && is_literal_mention_word_char(text[end]);
    !before && !after
}

/// The first index at or after `from` where `m` occurs in `text`.
pub open spec fn first_occurrence(text: Seq<char>, m: Seq<char>, from: int) -> Option<int>
    decreases text.len() + 1 - from,
{
    if from < 0 || from > text.len() {
        None
    } else if occurs_at(text, m, from) {
        Some(from)
    } else {
        first_occurrence(text, m, from + 1)
    }
}

proof fn lemma_first_occurrence(text: Seq<char>, m: Seq<char>, from: int, r: Option<int>)
    requires
        0 <= from,
        match r {
            Some(i) => from <= i && occurs_at(text, m, i) && forall|j: int|
                from <= j < i ==> !#[trigger] occurs_at(text, m, j),
            None => forall|j: int| from <= j ==> !#[trigger] occurs_at(text, m, j),
        },
    ensures
        first_occurrence(text, m, from) == r,
    decreases text.len() + 1 - from,
{
    if from <= text.len() {
        match r {
            Some(i) => {
                if i > from {
                    assert(!occurs_at(text, m, from));
                    lemma_first_occurrence(text, m, from + 1, r);
                }
            },
            None => {
                assert(!occurs_at(text, m, from));
                lemma_first_occurrence(text, m, from + 1, r);
            },
        }
    } else {
        if let Some(i) = r {
            assert(!(i + m.len() <= text.len()));
        }
    }
}

/// The highlights for the stand-alone occurrences of `m` in `text` from char `from`
/// on, found left to right without overlap, as byte spans.
pub open spec fn mention_spans(text: Seq<char>, m: Seq<char>, from: int, kind: TextHighlightKind) -> Seq<
    TextHighlight,
>
    decreases text.len() + 1 - from,
{
    if m.len() == 0 || from < 0 {
        Seq::empty()
    } else {
        match first_occurrence(text, m, from) {
            None => Seq::empty(),
            Some(s) => {
                let e = s + m.len();
                proof {
                    lemma_first_occurrence_bounds(text, m, from);
                }
                if s < from {
                    Seq::empty()
                } else {
                    let rest = mention_spans(text, m, e, kind);
                    if stands_alone(text, s, e) {
                        seq![
                            TextHighlight {
                                start: byte_offset(text, s) as usize,
                                end: byte_offset(text, e) as usize,
                                kind,
                            },
                        ] + rest
                    } else {
                        rest
                    }
                }
            },
        }
    }
}

pub proof fn lemma_first_occurrence_bounds(text: Seq<char>, m: Seq<char>, from: int)
    requires
        0 <= from,
    ensures
        first_occurrence(text, m, from) matches Some(s) ==> from <= s && s + m.len() <= text.len(),
    decreases text.len() + 1 - from,
{
    if from <= text.len() && !occurs_at(text, m, from) {
        lemma_first_occurrence_bounds(text, m, from + 1);
    }
}

/// Whether `h` highlights, with `kind`, exactly the UTF-8 bytes of one occurrence of
/// `m` in `text`.
pub open spec fn spans_mention(text: Seq<char>, m: Seq<char>, kind: TextHighlightKind, h: TextHighlight) -> bool {
    &&& h.kind == kind
    &&& h.end - h.start == utf8_len(m)
    &&& exists|s: int|
        0 <= s && s + m.len() <= text.len() && #[trigger] text.subrange(s, s + m.len()) == m && h.start
            == byte_offset(text, s)
}

proof fn lemma_first_occurrence_occurs(text: Seq<char>, m: Seq<char>, from: int)
    requires
        0 <= from,
    ensures
        first_occurrence(text, m, from) matches Some(s) ==> occurs_at(text, m, s),
    decreases text.len() + 1 - from,
{
    if from <= text.len() && !occurs_at(text, m, from) {
        lemma_first_occurrence_occurs(text, m, from + 1);
    }
}

/// Every mention highlight covers exactly the UTF-8 bytes of one occurrence of the
/// mention: it is as long as the mention's encoding, and the chars it starts at are
/// the mention's.
pub proof fn law_mention_highlights_span_the_mention(
    text: Seq<char>,
    m: Seq<char>,
    from: int,
    kind: TextHighlightKind,
)
    requires
        m.len() > 0,
        0 <= from,
        utf8_len(text) <= usize::MAX,
    ensures
        forall|j: int|
            0 <= j < mention_spans(text, m, from, kind).len() ==> spans_mention(
                text,
                m,
                kind,
                #[trigger] mention_spans(text, m, from, kind)[j],
            ),
    decreases text.len() + 1 - from,
{
    let spans = mention_spans(text, m, from, kind);
    lemma_first_occurrence_bounds(text, m, from);
    lemma_first_occurrence_occurs(text, m, from);
    match first_occurrence(text, m, from) {
        None => {},
        Some(s) => {
            let e = s + m.len();
            if s >= from {
                law_mention_highlights_span_the_mention(text, m, e, kind);
                if stands_alone(text, s, e) {
                    assert(text.take(e) =~= text.take(s) + text.subrange(s, e));
                    lemma_utf8_len_concat(text.take(s), text.subrange(s, e));
                    lemma_utf8_len_take_mono(text, s, e);
                    lemma_utf8_len_take_mono(text, e, text.len() as int);
                    assert(text.take(text.len() as int) =~= text);
                    let h = spans[0];
                    assert(text.subrange(s, s + m.len()) == m);
                    assert(spans_mention(text, m, kind, h));
                    let rest = mention_spans(text, m, e, kind);
                    assert(spans =~= seq![h] + rest);
                    assert forall|j: int| 0 <= j < spans.len() implies spans_mention(
                        text,
                        m,
                        kind,
                        #[trigger] spans[j],
                    ) by {
                        if j > 0 {
                            assert(spans[j] == rest[j - 1]);
                        }
                    }
                } else {
                    let rest = mention_spans(text, m, e, kind);
                    assert(spans == rest);
                    assert forall|j: int| 0 <= j < spans.len() implies spans_mention(
                        text,
                        m,
                        kind,
                        #[trigger] spans[j],
                    ) by {
                        assert(spans[j] == rest[j]);
                    }
                }
            }
        },
    }
}

proof fn lemma_added_spans(
    before: Seq<TextHighlight>,
    after: Seq<TextHighlight>,
    text: Seq<char>,
    m: Seq<char>,
    kind: TextHighlightKind,
)
    requires
        after == before + mention_spans(text, m, 0, kind),
        m.len() > 0,
        utf8_len(text) <= usize::MAX,
    ensures
        forall|j: int| before.len() <= j < after.len() ==> spans_mention(text, m, kind, #[trigger] after[j]),
{
    law_mention_highlights_span_the_mention(text, m, 0, kind);
    let added = mention_spans(text, m, 0, kind);
    assert forall|j: int| before.len() <= j < after.len() implies spans_mention(
        text,
        m,
        kind,
        #[trigger] after[j],
    ) by {
        assert(after[j] == added[j - before.len()]);
    }
}

/// Adds a highlight of `kind` for each occurrence of `mention` in the text that no
/// word char touches, scanning left to right without overlap.
pub fn add_literal_mention_highlights(rendered: &mut RenderedText, mention: &str, kind: TextHighlightKind)
    requires
        mention@.len() > 0,
        utf8_len(old(rendered).text@) <= usize::MAX,
    ensures
        final(rendered).text == old(rendered).text,
        final(rendered).highlights@ == old(rendered).highlights@ + mention_spans(
            old(rendered).text@,
            mention@,
            0,
            kind,
        ),
        forall|j: int|
            old(rendered).highlights@.len() <= j < final(rendered).highlights@.len() ==> spans_mention(
                old(rendered).text@,
                mention@,
                kind,
                #[trigger] final(rendered).highlights@[j],
            ),
{
    let chars = str_chars(rendered.text.as_str());
    let m = str_chars(mention);
    let ghost text = chars@;
    let ghost start_highlights = rendered.highlights@;
    let mut cursor: usize = 0;
    let mut cursor_byte: usize = 0;
    proof {
        assert(text.take(0) =~= Seq::<char>::empty());
        assert(start_highlights + Seq::<TextHighlight>::empty() =~= start_highlights);
    }
    while cursor <= chars.len()
        invariant
            text == chars@,
            text == rendered.text@,
            rendered.text == old(rendered).text,
            start_highlights == old(rendered).highlights@,
            m@ == mention@,
            m@.len() > 0,
            utf8_len(text) <= usize::MAX,
            cursor <= text.len() + 1,
            cursor <= text.len() ==> cursor_byte == byte_offset(text, cursor as int),
            start_highlights + mention_spans(text, m@, 0, kind) == rendered.highlights@
                + mention_spans(text, m@, cursor as int, kind),
        decreases text.len() + 1 - cursor,
    {
        let found = find_from(&chars, &m, cursor);
        proof {
            lemma_first_occurrence(text, m@, cursor as int, match found {
                Some(i) => Some(i as int),
                None => None,
            });
            lemma_first_occurrence_bounds(text, m@, cursor as int);
        }
        let start = match found {
            Some(i) => i,
            None => {
                proof {
                    assert(mention_spans(text, m@, cursor as int, kind) =~= Seq::<TextHighlight>::empty());
                    assert(rendered.highlights@ + Seq::<TextHighlight>::empty() =~= rendered.highlights@);
                    lemma_added_spans(start_highlights, rendered.highlights@, text, m@, kind);
                }
                return ;
            },
        };
        let end = start + m.len();
        let mut start_byte = cursor_byte;
        let mut k = cursor;
        while k < start
            invariant
                text == chars@,
                cursor <= k <= start,
                start + m@.len() <= text.len(),
                utf8_len(text) <= usize::MAX,
                start_byte == byte_offset(text, k as int),
            decreases start - k,
        {
            proof {
                lemma_utf8_len_take_step(text, k as int);
                lemma_utf8_len_take_mono(text, k + 1, text.len() as int);
                assert(text.take(text.len() as int) =~= text);
            }
            start_byte = start_byte + char_utf8_width(chars[k]);
            k = k + 1;
        }
        let mut end_byte = start_byte;
        while k < end
            invariant
                text == chars@,
                start <= k <= end,
                end <= text.len(),
                utf8_len(text) <= usize::MAX,
                end_byte == byte_offset(text, k as int),
            decreases end - k,
        {
            proof {
                lemma_utf8_len_take_step(text, k as int);
                lemma_utf8_len_take_mono(text, k + 1, text.len() as int);
                assert(text.take(text.len() as int) =~= text);
            }
            end_byte = end_byte + char_utf8_width(chars[k]);
            k = k + 1;
        }
        let ghost rest = mention_spans(text, m@, end as int, kind);
        if is_literal_mention_boundary(&chars, start, end) {
            let h = TextHighlight { start: start_byte, end: end_byte, kind };
            proof {
                assert(mention_spans(text, m@, cursor as int, kind) == seq![h] + rest);
                assert(rendered.highlights@.push(h) + rest =~= rendered.highlights@ + (seq![h] + rest));
            }
            rendered.highlights.push(h);
        } else {
            proof {
                assert(mention_spans(text, m@, cursor as int, kind) == rest);
            }
        }
        cursor = end;
        cursor_byte = end_byte;
    }
    proof {
        assert(mention_spans(text, m@, cursor as int, kind) =~= Seq::<TextHighlight>::empty());
        assert(rendered.highlights@ + Seq::<TextHighlight>::empty() =~= rendered.highlights@);
        lemma_added_spans(start_highlights, rendered.highlights@, text, m@, kind);
    }
}

} // verus!
