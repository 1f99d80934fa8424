//! Dealing a number of items out over a fixed number of contiguous ranges.

use vstd::prelude::*;

verus! {

/// The smaller of two naturals.
pub open spec fn least(a: nat, b: nat) -> nat {
    if a <= b {
        a
    } else {
        b
    }
}

/// The index at which range `index` begins when `num_items` items are dealt
/// out over `num_ranges` ranges.
///
/// Every range gets `num_items / num_ranges` items, and each of the first
/// `num_items % num_ranges` ranges gets one more.
pub open spec fn range_start(num_items: nat, num_ranges: nat, index: nat) -> nat {
    index * (num_items / num_ranges) + least(index, num_items % num_ranges)
}

/// The number of items in range `index`.
pub open spec fn range_len(num_items: nat, num_ranges: nat, index: nat) -> nat {
    if index < num_items % num_ranges {
        num_items / num_ranges + 1
    } else {
        num_items / num_ranges
    }
}

/// The half-open ranges `[start, end)`, in order, that `num_items` items are
/// dealt out to.
pub open spec fn split_ranges(num_items: nat, num_ranges: nat) -> Seq<(nat, nat)> {
    Seq::new(
        num_ranges,
        |i: int| (range_start(num_items, num_ranges, i as nat), range_start(num_items, num_ranges, (i + 1) as nat)),
    )
}

/// The ranges of a vector as pairs of naturals.
pub open spec fn ranges_view(ranges: Seq<(usize, usize)>) -> Seq<(nat, nat)> {
    Seq::new(ranges.len(), |i: int| (ranges[i].0 as nat, ranges[i].1 as nat))
}

/// Each range begins where the one before it ended plus that one's length.
pub proof fn lemma_range_start_step(num_items: nat, num_ranges: nat, index: nat)
    requires
        num_ranges >= 1,
    ensures
        range_start(num_items, num_ranges, index + 1) == range_start(num_items, num_ranges, index)
            + range_len(num_items, num_ranges, index),
{
    let q = num_items / num_ranges;
    assert((index + 1) * q == index * q + q) by (nonlinear_arith);
}

/// No range reaches past the last item, and the last range ends there.
pub proof fn lemma_range_start_bound(num_items: nat, num_ranges: nat, index: nat)
    requires
        num_ranges >= 1,
        index <= num_ranges,
    ensures
        range_start(num_items, num_ranges, index) <= num_items,
        range_start(num_items, num_ranges, num_ranges) == num_items,
        range_start(num_items, num_ranges, 0) == 0,
{
    let q = num_items / num_ranges;
    let r = num_items % num_ranges;
    vstd::arithmetic::div_mod::lemma_fundamental_div_mod(num_items as int, num_ranges as int);
    assert(r < num_ranges);
    assert(index * q <= num_ranges * q) by (nonlinear_arith)
        requires
            index <= num_ranges,
    ;
    assert(0 * q == 0) by (nonlinear_arith);
}

/// Deals the indices `0..num_items` out over `num_ranges` contiguous ranges
/// whose lengths differ by at most one, the longer ranges first.
pub fn split_indices_into_ranges(num_items: usize, num_ranges: usize) -> (ranges: Vec<(usize, usize)>)
    requires
        num_ranges >= 1,
    ensures
        ranges_view(ranges@) == split_ranges(num_items as nat, num_ranges as nat),
        ranges@.len() == num_ranges,
        forall|i: int|
            0 <= i < num_ranges ==> (#[trigger] ranges@[i]).0 == range_start(
                num_items as nat,
                num_ranges as nat,
                i as nat,
            ) && ranges@[i].1 == range_start(num_items as nat, num_ranges as nat, (i + 1) as nat),
{
    let per_range: usize = num_items / num_ranges;
    let longer: usize = num_items % num_ranges;
    let mut ranges: Vec<(usize, usize)> = Vec::with_capacity(num_ranges);
    let mut start: usize = 0;
    let mut index: usize = 0;
    proof {
        lemma_range_start_bound(num_items as nat, num_ranges as nat, 0);
    }
    while index < num_ranges
        invariant
            num_ranges >= 1,
            per_range == num_items / num_ranges,
            longer == num_items % num_ranges,
            index <= num_ranges,
            ranges@.len() == index,
            start == range_start(num_items as nat, num_ranges as nat, index as nat),
            forall|i: int|
                0 <= i < index ==> (#[trigger] ranges@[i]).0 == range_start(
                    num_items as nat,
                    num_ranges as nat,
                    i as nat,
                ) && ranges@[i].1 == range_start(num_items as nat, num_ranges as nat, (i + 1) as nat),
        decreases num_ranges - index,
    {
        proof {
            lemma_range_start_step(num_items as nat, num_ranges as nat, index as nat);
            lemma_range_start_bound(num_items as nat, num_ranges as nat, (index + 1) as nat);
        }
        let len: usize = if index < longer {
            per_range + 1
        } else {
            per_range
        };
        let end: usize = start + len;
        ranges.push((start, end));
        start = end;
        index = index + 1;
    }
    proof {
        assert(ranges_view(ranges@) =~= split_ranges(num_items as nat, num_ranges as nat));
    }
    ranges
}

/// Whether `item` lies in the half-open range `range`.
pub open spec fn range_holds(range: (nat, nat), item: nat) -> bool {
    range.0 <= item < range.1
}

/// Ranges begin in the order of their indices.
pub proof fn lemma_range_start_monotonic(num_items: nat, num_ranges: nat, first: nat, second: nat)
    requires
        num_ranges >= 1,
        first <= second,
    ensures
        range_start(num_items, num_ranges, first) <= range_start(num_items, num_ranges, second),
{
    let q = num_items / num_ranges;
    assert(first * q <= second * q) by (nonlinear_arith)
        requires
            first <= second,
    ;
}

/// Finds a range below `upper` that holds `item`.
proof fn lemma_owner_below(num_items: nat, num_ranges: nat, item: nat, upper: nat) -> (owner: nat)
    requires
        num_ranges >= 1,
        item < range_start(num_items, num_ranges, upper),
    ensures
        owner < upper,
        range_start(num_items, num_ranges, owner) <= item < range_start(num_items, num_ranges, owner + 1),
    decreases upper,
{
    if upper == 0 {
        lemma_range_start_bound(num_items, num_ranges, 0);
        0
    } else if range_start(num_items, num_ranges, (upper - 1) as nat) <= item {
        (upper - 1) as nat
    } else {
        lemma_owner_below(num_items, num_ranges, item, (upper - 1) as nat)
    }
}

/// The ranges are contiguous: the first begins at zero, each begins where the
/// one before it ended, the last ends at `num_items`, and none runs backwards.
pub proof fn split_is_contiguous(num_items: nat, num_ranges: nat)
    requires
        num_ranges >= 1,
    ensures
        split_ranges(num_items, num_ranges).len() == num_ranges,
        split_ranges(num_items, num_ranges)[0].0 == 0,
        split_ranges(num_items, num_ranges)[num_ranges - 1].1 == num_items,
        forall|i: int|
            0 <= i < num_ranges - 1 ==> (#[trigger] split_ranges(num_items, num_ranges)[i]).1
                == split_ranges(num_items, num_ranges)[i + 1].0,
        forall|i: int|
            0 <= i < num_ranges ==> (#[trigger] split_ranges(num_items, num_ranges)[i]).0
                <= split_ranges(num_items, num_ranges)[i].1 <= num_items,
{
    lemma_range_start_bound(num_items, num_ranges, 0);
    assert forall|i: int| 0 <= i < num_ranges implies (#[trigger] split_ranges(num_items, num_ranges)[i]).0
        <= split_ranges(num_items, num_ranges)[i].1 <= num_items by {
        lemma_range_start_monotonic(num_items, num_ranges, i as nat, (i + 1) as nat);
        lemma_range_start_bound(num_items, num_ranges, (i + 1) as nat);
    }
}

/// Every index below `num_items` lies in exactly one range, and no range
/// holds an index that is not below `num_items`: the ranges partition
/// `0..num_items` without gap or overlap.
pub proof fn split_covers_every_index_once(num_items: nat, num_ranges: nat, item: nat)
    requires
        num_ranges >= 1,
    ensures
        item < num_items ==> exists|i: int|
            0 <= i < num_ranges && range_holds(#[trigger] split_ranges(num_items, num_ranges)[i], item),
        item >= num_items ==> forall|i: int|
            0 <= i < num_ranges ==> !range_holds(#[trigger] split_ranges(num_items, num_ranges)[i], item),
        forall|i: int, j: int|
            0 <= i < num_ranges && 0 <= j < num_ranges && range_holds(
                #[trigger] split_ranges(num_items, num_ranges)[i],
                item,
            ) && range_holds(#[trigger] split_ranges(num_items, num_ranges)[j], item) ==> i == j,
{
    let ranges = split_ranges(num_items, num_ranges);
    if item < num_items {
        lemma_range_start_bound(num_items, num_ranges, num_ranges);
        let owner = lemma_owner_below(num_items, num_ranges, item, num_ranges);
        assert(range_holds(ranges[owner as int], item));
    } else {
        assert forall|i: int| 0 <= i < num_ranges implies !range_holds(#[trigger] ranges[i], item) by {
            lemma_range_start_bound(num_items, num_ranges, (i + 1) as nat);
        }
    }
    assert forall|i: int, j: int|
        0 <= i < num_ranges && 0 <= j < num_ranges && range_holds(#[trigger] ranges[i], item) && range_holds(
            #[trigger] ranges[j],
            item,
        ) implies i == j by {
        if i < j {
            lemma_range_start_monotonic(num_items, num_ranges, (i + 1) as nat, j as nat);
        }
        if j < i {
            lemma_range_start_monotonic(num_items, num_ranges, (j + 1) as nat, i as nat);
        }
    }
}

/// Every range holds `num_items / num_ranges` items or one more, so the
/// lengths of two ranges differ by at most one; a range is never shorter than
/// a later one.
pub proof fn split_is_balanced(num_items: nat, num_ranges: nat, first: nat, second: nat)
    requires
        num_ranges >= 1,
        first <= second < num_ranges,
    ensures
        split_ranges(num_items, num_ranges)[first as int].1 - split_ranges(num_items, num_ranges)[first as int].0
            == range_len(num_items, num_ranges, first),
        split_ranges(num_items, num_ranges)[second as int].1 - split_ranges(
            num_items,
            num_ranges,
        )[second as int].0 == range_len(num_items, num_ranges, second),
        range_len(num_items, num_ranges, second) <= range_len(num_items, num_ranges, first)
            <= range_len(num_items, num_ranges, second) + 1,
{
    lemma_range_start_step(num_items, num_ranges, first);
    lemma_range_start_step(num_items, num_ranges, second);
}

/// With nothing to deal out, every range is empty.
pub proof fn split_of_nothing_is_empty(num_ranges: nat, index: nat)
    requires
        num_ranges >= 1,
        index < num_ranges,
    ensures
        split_ranges(0, num_ranges)[index as int] == (0nat, 0nat),
{
    lemma_range_start_bound(0, num_ranges, index);
    lemma_range_start_bound(0, num_ranges, index + 1);
}

/// A single range holds everything.
pub proof fn split_into_one_is_whole(num_items: nat)
    ensures
        split_ranges(num_items, 1) =~= seq![(0nat, num_items)],
{
    lemma_range_start_bound(num_items, 1, 0);
}

} // verus!
