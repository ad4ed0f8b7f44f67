use vstd::prelude::*;

use crate::state::ChannelState;
use crate::subscriptions::channel_sorts_before;

verus! {

/// How a channel hangs off its category in the channel tree.
#[derive(Clone, Copy, Debug, PartialEq, Eq, Structural)]
pub enum ChannelBranch {
    Middle,
    Last,
}

/// The branch glyph of child `index` among `len` children: the last one closes the
/// branch.
pub fn child_branch(index: usize, len: usize) -> (r: ChannelBranch)
    ensures
        r == if index == (if len == 0 {
            0
        } else {
            len - 1
        }) {
            ChannelBranch::Last
        } else {
            ChannelBranch::Middle
        },
{
    if index == len.saturating_sub(1) {
        ChannelBranch::Last
    } else {
        ChannelBranch::Middle
    }
}

/// A row of the channel pane.
#[derive(Clone, Copy, Debug, PartialEq, Eq, Structural)]
pub enum ChannelPaneEntry {
    CategoryHeader { category_id: u64 },
    Channel { channel_id: u64 },
}

/// The category of the header nearest above row `selected`, looking only at rows
/// before it; `None` past the end or when no header comes before.
pub open spec fn preceding_category_spec(entries: Seq<ChannelPaneEntry>, selected: int) -> Option<u64>
    decreases selected,
{
    if selected <= 0 || selected > entries.len() {
        None
    } else {
        match entries[selected - 1] {
            ChannelPaneEntry::CategoryHeader { category_id } => Some(category_id),
            _ => preceding_category_spec(entries, selected - 1),
        }
    }
}

/// The category of the header nearest above row `selected`.
pub fn preceding_category_id(entries: &[ChannelPaneEntry], selected: usize) -> (r: Option<u64>)
    ensures
        r == preceding_category_spec(entries@, selected as int),
{
    if selected > entries.len() {
        return None;
    }
    let mut i = selected;
    while i > 0
        invariant
            i <= selected <= entries@.len(),
            preceding_category_spec(entries@, selected as int) == preceding_category_spec(
                entries@,
                i as int,
            ),
        decreases i,
    {
        match entries[i - 1] {
            ChannelPaneEntry::CategoryHeader { category_id } => {
                return Some(category_id);
            },
            _ => {},
        }
        i = i - 1;
    }
    None
}

/// Whether `id` is the id of a category among `channels`.
pub open spec fn is_category_id(channels: Seq<&ChannelState>, id: u64) -> bool {
    exists|i: int| 0 <= i < channels.len() && channels[i].is_category && #[trigger] channels[i].id == id
}

/// The ids of the categories among `channels`.
pub fn channel_category_ids(channels: &[&ChannelState]) -> (r: Vec<u64>)
    ensures
        forall|id: u64| r@.contains(id) <==> is_category_id(channels@, id),
{
    let mut ids: Vec<u64> = Vec::new();
    let mut i: usize = 0;
    while i < channels.len()
        invariant
            i <= channels@.len(),
            forall|id: u64| ids@.contains(id) <==> is_category_id(channels@.take(i as int), id),
        decreases channels@.len() - i,
    {
        let ghost before = ids@;
        if channels[i].is_category {
            ids.push(channels[i].id);
        }
        proof {
            let prev = channels@.take(i as int);
            let next = channels@.take(i + 1);
            assert forall|id: u64| ids@.contains(id) <==> is_category_id(next, id) by {
                if is_category_id(next, id) {
                    let j = choose|j: int| 0 <= j < next.len() && next[j].is_category && #[trigger] next[j].id == id;
                    if j < i {
                        assert(prev[j] == next[j]);
                        assert(is_category_id(prev, id));
                        assert(before.contains(id));
                        let k = choose|k: int| 0 <= k < before.len() && before[k] == id;
                        assert(ids@[k] == id);
                    } else {
                        assert(ids@[ids@.len() - 1] == id);
                    }
                }
                if ids@.contains(id) {
                    let k = choose|k: int| 0 <= k < ids@.len() && ids@[k] == id;
                    if k < before.len() {
                        assert(before.contains(id));
                        let j = choose|j: int| 0 <= j < prev.len() && prev[j].is_category && #[trigger] prev[j].id == id;
                        assert(next[j] == prev[j]);
                    } else {
                        assert(next[i as int] == channels@[i as int]);
                    }
                }
            }
        }
        i = i + 1;
    }
    proof {
        assert(channels@.take(i as int) =~= channels@);
    }
    ids
}

fn has_id(ids: &Vec<u64>, id: u64) -> (r: bool)
    ensures
        r == ids@.contains(id),
{
    let mut i: usize = 0;
    while i < ids.len()
        invariant
            i <= ids@.len(),
            forall|j: int| 0 <= j < i ==> ids@[j] != id,
        decreases ids@.len() - i,
    {
        if ids[i] == id {
            return true;
        }
        i = i + 1;
    }
    false
}

/// Whether `ch` is drawn at the root of the channel tree: a category, or a channel
/// that is not a thread and whose parent is not one of the categories.
pub open spec fn is_tree_root(channels: Seq<&ChannelState>, ch: &ChannelState) -> bool {
    ch.is_category || (!ch.is_thread && match ch.parent_id {
        None => true,
        Some(p) => !is_category_id(channels, p),
    })
}

/// The test for tree roots among `channels`.
pub open spec fn root_filter(channels: Seq<&ChannelState>) -> spec_fn(&ChannelState) -> bool {
    |c: &ChannelState| is_tree_root(channels, c)
}

/// Whether `s` is in sidebar order.
pub open spec fn in_sidebar_order(s: Seq<&ChannelState>) -> bool {
    forall|i: int, j: int| 0 <= i < j < s.len() ==> channel_sorts_before(*#[trigger] s[i], *#[trigger] s[j])
}

/// Whether `s` is ordered newest thread first (by descending id).
pub open spec fn newest_first(s: Seq<&ChannelState>) -> bool {
    forall|i: int, j: int| 0 <= i < j < s.len() ==> (#[trigger] s[i]).id >= (#[trigger] s[j]).id
}

fn sorts_before_exec(a: &ChannelState, b: &ChannelState) -> (r: bool)
    ensures
        r == channel_sorts_before(*a, *b),
{
    a.position < b.position || (a.position == b.position && a.id <= b.id)
}

/// Whether `a` may stay before `b`: in sidebar order, or newest thread first.
fn stays_before(a: &ChannelState, b: &ChannelState, by_sidebar: bool) -> (r: bool)
    ensures
        by_sidebar ==> r == channel_sorts_before(*a, *b),
        !by_sidebar ==> r == (a.id >= b.id),
{
    if by_sidebar {
        sorts_before_exec(a, b)
    } else {
        a.id >= b.id
    }
}

proof fn lemma_insert_sidebar(before: Seq<&ChannelState>, pos: int, h: &ChannelState)
    requires
        0 <= pos <= before.len(),
        in_sidebar_order(before),
        pos > 0 ==> channel_sorts_before(*before[pos - 1], *h),
        forall|j: int| pos <= j < before.len() ==> !channel_sorts_before(*#[trigger] before[j], *h),
    ensures
        in_sidebar_order(before.insert(pos, h)),
{
    let after = before.insert(pos, h);
    assert forall|a: int, b: int| 0 <= a < b < after.len() implies channel_sorts_before(
        *#[trigger] after[a],
        *#[trigger] after[b],
    ) by {
        if pos > 0 && a < pos - 1 {
            assert(channel_sorts_before(*before[a], *before[pos - 1]));
        }
        if b > pos {
            assert(!channel_sorts_before(*before[b - 1], *h));
        }
    }
}

proof fn lemma_insert_newest(before: Seq<&ChannelState>, pos: int, h: &ChannelState)
    requires
        0 <= pos <= before.len(),
        newest_first(before),
        pos > 0 ==> before[pos - 1].id >= h.id,
        forall|j: int| pos <= j < before.len() ==> !((#[trigger] before[j]).id >= h.id),
    ensures
        newest_first(before.insert(pos, h)),
{
    let after = before.insert(pos, h);
    assert forall|a: int, b: int| 0 <= a < b < after.len() implies (#[trigger] after[a]).id
        >= (#[trigger] after[b]).id by {
        if pos > 0 && a < pos - 1 {
            assert(before[a].id >= before[pos - 1].id);
        }
        if b > pos {
            assert(!(before[b - 1].id >= h.id));
        }
    }
}

proof fn lemma_insert_members(
    items: Seq<&ChannelState>,
    i: int,
    before: Seq<&ChannelState>,
    pos: int,
)
    requires
        0 <= i < items.len(),
        0 <= pos <= before.len(),
        forall|j: int| 0 <= j < i ==> before.contains(#[trigger] items[j]),
        forall|j: int| 0 <= j < before.len() ==> items.take(i).contains(#[trigger] before[j]),
    ensures
        forall|j: int| 0 <= j < i + 1 ==> before.insert(pos, items[i]).contains(#[trigger] items[j]),
        forall|j: int|
            0 <= j < before.len() + 1 ==> items.take(i + 1).contains(
                #[trigger] before.insert(pos, items[i])[j],
            ),
{
    let h = items[i];
    let after = before.insert(pos, h);
    assert forall|j: int| 0 <= j < i + 1 implies after.contains(#[trigger] items[j]) by {
        if j == i {
            assert(after[pos] == h);
        } else {
            let k = choose|k: int| 0 <= k < before.len() && before[k] == items[j];
            if k < pos {
                assert(after[k] == items[j]);
            } else {
                assert(after[k + 1] == items[j]);
            }
        }
    }
    let taken = items.take(i + 1);
    assert forall|j: int| 0 <= j < before.len() + 1 implies taken.contains(#[trigger] after[j]) by {
        if j == pos {
            assert(taken[i] == h);
        } else {
            let b = if j < pos {
                j
            } else {
                j - 1
            };
            assert(after[j] == before[b]);
            let prev = items.take(i);
            let k = choose|k: int| 0 <= k < prev.len() && prev[k] == before[b];
            assert(taken[k] == before[b]);
        }
    }
}

/// `items` reordered: insertion keeps equal items in their order.
fn insertion_sort<'a>(items: Vec<&'a ChannelState>, by_sidebar: bool) -> (r: Vec<&'a ChannelState>)
    ensures
        r@.len() == items@.len(),
        r@.to_multiset() == items@.to_multiset(),
        by_sidebar ==> in_sidebar_order(r@),
        !by_sidebar ==> newest_first(r@),
        forall|i: int| 0 <= i < items@.len() ==> r@.contains(#[trigger] items@[i]),
        forall|i: int| 0 <= i < r@.len() ==> items@.contains(#[trigger] r@[i]),
{
    let mut sorted: Vec<&'a ChannelState> = Vec::new();
    let mut i: usize = 0;
    proof {
        assert(items@.take(0) =~= Seq::<&ChannelState>::empty());
        assert(sorted@ =~= Seq::<&ChannelState>::empty());
    }
    while i < items.len()
        invariant
            i <= items@.len(),
            sorted@.len() == i,
            sorted@.to_multiset() == items@.take(i as int).to_multiset(),
            by_sidebar ==> in_sidebar_order(sorted@),
            !by_sidebar ==> newest_first(sorted@),
            forall|j: int| 0 <= j < i ==> sorted@.contains(#[trigger] items@[j]),
            forall|j: int| 0 <= j < sorted@.len() ==> items@.take(i as int).contains(#[trigger] sorted@[j]),
        decreases items@.len() - i,
    {
        let h = items[i];
        let mut pos: usize = sorted.len();
        while pos > 0 && !stays_before(sorted[pos - 1], h, by_sidebar)
            invariant
                pos <= sorted@.len(),
                by_sidebar ==> forall|j: int| pos <= j < sorted@.len() ==> !channel_sorts_before(*#[trigger] sorted@[j], *h),
                !by_sidebar ==> forall|j: int| pos <= j < sorted@.len() ==> !((#[trigger] sorted@[j]).id >= h.id),
            decreases pos,
        {
            pos = pos - 1;
        }
        let ghost before = sorted@;
        sorted.insert(pos, h);
        proof {
            assert(sorted@ =~= before.insert(pos as int, h));
            if by_sidebar {
                lemma_insert_sidebar(before, pos as int, h);
            } else {
                lemma_insert_newest(before, pos as int, h);
            }
            lemma_insert_members(items@, i as int, before, pos as int);
            vstd::seq_lib::to_multiset_insert(before, pos as int, h);
            assert(items@.take(i + 1) =~= items@.take(i as int).push(h));
            vstd::seq_lib::to_multiset_build(items@.take(i as int), h);
        }
        i = i + 1;
    }
    proof {
        assert(items@.take(i as int) =~= items@);
    }
    sorted
}

/// The channels drawn at the root of the channel tree, in sidebar order.
pub fn sorted_channel_tree_roots<'a>(channels: &[&'a ChannelState]) -> (r: Vec<&'a ChannelState>)
    ensures
        in_sidebar_order(r@),
        r@.len() == channels@.filter(root_filter(channels@)).len(),
        r@.to_multiset() == channels@.filter(root_filter(channels@)).to_multiset(),
        forall|i: int|
            0 <= i < channels@.len() && is_tree_root(channels@, channels@[i]) ==> r@.contains(
                #[trigger] channels@[i],
            ),
        forall|i: int|
            0 <= i < r@.len() ==> channels@.contains(#[trigger] r@[i]) && is_tree_root(
                channels@,
                r@[i],
            ),
{
    let category_ids = channel_category_ids(channels);
    let mut roots: Vec<&'a ChannelState> = Vec::new();
    let mut i: usize = 0;
    proof {
        reveal(Seq::filter);
        assert(channels@.take(0).filter(root_filter(channels@)) =~= Seq::<&ChannelState>::empty());
    }
    while i < channels.len()
        invariant
            i <= channels@.len(),
            forall|id: u64| category_ids@.contains(id) <==> is_category_id(channels@, id),
            roots@ == channels@.take(i as int).filter(root_filter(channels@)),
        decreases channels@.len() - i,
    {
        let c = channels[i];
        let keep = c.is_category || (!c.is_thread && match c.parent_id {
            None => true,
            Some(p) => !has_id(&category_ids, p),
        });
        proof {
            assert(channels@.take(i + 1).drop_last() =~= channels@.take(i as int));
            assert(keep == is_tree_root(channels@, c));
            reveal(Seq::filter);
            assert(channels@.take(i + 1).last() == c);
        }
        if keep {
            roots.push(c);
        }
        i = i + 1;
    }
    proof {
        assert(channels@.take(i as int) =~= channels@);
        let f = channels@.filter(root_filter(channels@));
        assert forall|i: int|
            0 <= i < channels@.len() && is_tree_root(channels@, channels@[i]) implies f.contains(
                #[trigger] channels@[i],
            ) by {
            channels@.lemma_filter_contains(root_filter(channels@), i);
        }
        #[allow(deprecated)]
        channels@.filter_lemma(root_filter(channels@));
        assert forall|i: int| 0 <= i < f.len() implies channels@.contains(#[trigger] f[i]) && is_tree_root(
            channels@,
            f[i],
        ) by {
            channels@.lemma_filter_contains_rev(root_filter(channels@), f[i]);
        }
    }
    insertion_sort(roots, true)
}

/// Whether `ch` hangs directly under `parent`: as a thread when `threads`, else as a
/// plain channel of the category `parent`.
pub open spec fn is_child(ch: &ChannelState, parent: u64, threads: bool) -> bool {
    if threads {
        ch.is_thread && ch.parent_id == Some(parent)
    } else {
        !ch.is_category && !ch.is_thread && ch.parent_id == Some(parent)
    }
}

/// The test for children of `parent`.
pub open spec fn child_filter<'a>(parent: u64, threads: bool) -> spec_fn(&'a ChannelState) -> bool {
    |c: &'a ChannelState| is_child(c, parent, threads)
}

fn collect_children<'a>(channels: &[&'a ChannelState], parent: u64, threads: bool) -> (r: Vec<
    &'a ChannelState,
>)
    ensures
        r@ == channels@.filter(child_filter(parent, threads)),
{
    let mut out: Vec<&'a ChannelState> = Vec::new();
    let mut i: usize = 0;
    proof {
        reveal(Seq::filter);
        assert(channels@.take(0).filter(child_filter(parent, threads)) =~= Seq::<&ChannelState>::empty());
    }
    while i < channels.len()
        invariant
            i <= channels@.len(),
            out@ == channels@.take(i as int).filter(child_filter(parent, threads)),
        decreases channels@.len() - i,
    {
        let c = channels[i];
        let keep = if threads {
            c.is_thread && c.parent_id == Some(parent)
        } else {
            !c.is_category && !c.is_thread && c.parent_id == Some(parent)
        };
        proof {
            assert(channels@.take(i + 1).drop_last() =~= channels@.take(i as int));
            reveal(Seq::filter);
            assert(channels@.take(i + 1).last() == c);
        }
        if keep {
            out.push(c);
        }
        i = i + 1;
    }
    proof {
        assert(channels@.take(i as int) =~= channels@);
    }
    out
}

proof fn lemma_filter_members(channels: Seq<&ChannelState>, pred: spec_fn(&ChannelState) -> bool)
    ensures
        forall|i: int|
            0 <= i < channels.len() && pred(channels[i]) ==> channels.filter(pred).contains(
                #[trigger] channels[i],
            ),
        forall|i: int|
            0 <= i < channels.filter(pred).len() ==> channels.contains(
                #[trigger] channels.filter(pred)[i],
            ) && pred(channels.filter(pred)[i]),
{
    assert forall|i: int| 0 <= i < channels.len() && pred(channels[i]) implies channels.filter(
        pred,
    ).contains(#[trigger] channels[i]) by {
        channels.lemma_filter_contains(pred, i);
    }
    #[allow(deprecated)]
    channels.filter_lemma(pred);
    assert forall|i: int| 0 <= i < channels.filter(pred).len() implies channels.contains(
        #[trigger] channels.filter(pred)[i],
    ) && pred(channels.filter(pred)[i]) by {
        channels.lemma_filter_contains_rev(pred, channels.filter(pred)[i]);
    }
}

/// The plain channels of the category `category_id`, in sidebar order.
pub fn sorted_category_children<'a>(channels: &[&'a ChannelState], category_id: u64) -> (r: Vec<
    &'a ChannelState,
>)
    ensures
        in_sidebar_order(r@),
        r@.len() == channels@.filter(child_filter(category_id, false)).len(),
        r@.to_multiset() == channels@.filter(child_filter(category_id, false)).to_multiset(),
        forall|i: int|
            0 <= i < channels@.len() && is_child(channels@[i], category_id, false) ==> r@.contains(
                #[trigger] channels@[i],
            ),
        forall|i: int|
            0 <= i < r@.len() ==> channels@.contains(#[trigger] r@[i]) && is_child(
                r@[i],
                category_id,
                false,
            ),
{
    let children = collect_children(channels, category_id, false);
    proof {
        lemma_filter_members(channels@, child_filter(category_id, false));
    }
    insertion_sort(children, true)
}

/// The threads under the channel `parent_id`, newest first.
pub fn sorted_child_threads<'a>(channels: &[&'a ChannelState], parent_id: u64) -> (r: Vec<
    &'a ChannelState,
>)
    ensures
        newest_first(r@),
        r@.len() == channels@.filter(child_filter(parent_id, true)).len(),
        r@.to_multiset() == channels@.filter(child_filter(parent_id, true)).to_multiset(),
        forall|i: int|
            0 <= i < channels@.len() && is_child(channels@[i], parent_id, true) ==> r@.contains(
                #[trigger] channels@[i],
            ),
        forall|i: int|
            0 <= i < r@.len() ==> channels@.contains(#[trigger] r@[i]) && is_child(
                r@[i],
                parent_id,
                true,
            ),
{
    let threads = collect_children(channels, parent_id, true);
    proof {
        lemma_filter_members(channels@, child_filter(parent_id, true));
    }
    insertion_sort(threads, false)
}

/// Orders threads newest first (by descending id), keeping equal ids in their order.
pub fn sort_thread_channels<'a>(channels: &mut Vec<&'a ChannelState>)
    ensures
        newest_first(final(channels)@),
        final(channels)@.len() == old(channels)@.len(),
        final(channels)@.to_multiset() == old(channels)@.to_multiset(),
        forall|i: int| 0 <= i < old(channels)@.len() ==> final(channels)@.contains(#[trigger] old(channels)@[i]),
        forall|i: int| 0 <= i < final(channels)@.len() ==> old(channels)@.contains(#[trigger] final(channels)@[i]),
{
    let mut items: Vec<&'a ChannelState> = Vec::new();
    std::mem::swap(channels, &mut items);
    let sorted = insertion_sort(items, false);
    *channels = sorted;
}

} // verus!
