//! Sharing the height of a display among the windows of a stack.

use vstd::prelude::*;

use crate::geometry::{floor_div, POINT};
#[allow(unused_imports)]
use crate::geometry::{floor_point, law_floor_point, least};

verus! {

/// The height that is left when the first `k` windows stand one below the other in `total`, each
/// as tall as it asks to be.
///
/// A window that asks for at least what is left takes all of it, provided that every window not
/// yet placed could still be `min` tall there; otherwise it cannot be placed, nor can any after it.
pub open spec fn room(heights: Seq<i64>, min: int, total: int, k: int) -> Option<int>
    decreases k,
{
    if k <= 0 {
        Some(total)
    } else {
        match room(heights, min, total, k - 1) {
            None => None,
            Some(left) => if heights[k - 1] < left {
                Some(left - heights[k - 1])
            } else if left >= min * (heights.len() - (k - 1)) {
                Some(0)
            } else {
                None
            },
        }
    }
}

/// The largest number of windows, at most `k`, that can be placed.
pub open spec fn placeable(heights: Seq<i64>, min: int, total: int, k: int) -> int
    decreases k,
{
    if k <= 0 {
        0
    } else if room(heights, min, total, k) is Some {
        k
    } else {
        placeable(heights, min, total, k - 1)
    }
}

/// The height of window `i` among `count` placed windows: what it asks for, but the last of them,
/// and one that asks for more than is left, has all that is left.
pub open spec fn granted(heights: Seq<i64>, min: int, total: int, count: int, i: int) -> int {
    let left = room(heights, min, total, i)->0;
    if heights[i] < left && i + 1 != count {
        heights[i] as int
    } else {
        left
    }
}

/// The height that each window has which could not be placed, and the last one that could: they
/// share in whole points what was left before that one.
pub open spec fn share(heights: Seq<i64>, min: int, total: int) -> int {
    let count = placeable(heights, min, total, heights.len() as int);
    floor_point(room(heights, min, total, count - 1)->0 / (heights.len() - count + 1))
}

/// The heights of all windows of a stack, or `None` if they cannot share `total`.
pub open spec fn packed(heights: Seq<i64>, min: int, total: int) -> Option<Seq<int>> {
    let count = placeable(heights, min, total, heights.len() as int);
    if count == heights.len() {
        Some(Seq::new(heights.len(), |i: int| granted(heights, min, total, count, i)))
    } else if count == 0 || share(heights, min, total) < min {
        None
    } else {
        Some(
            Seq::new(
                heights.len(),
                |i: int|
                    if i < count - 1 {
                        granted(heights, min, total, count, i)
                    } else {
                        share(heights, min, total)
                    },
            ),
        )
    }
}

/// What sharing a height asks of the machine: the windows are countable in 32 bits, and what is
/// left at any window is a length. A `min` below zero must leave room for the first window.
pub open spec fn packable(heights: Seq<i64>, min: int, total: int) -> bool {
    &&& heights.len() <= u32::MAX
    &&& forall|k: int|
        0 <= k < heights.len() ==> match #[trigger] room(heights, min, total, k) {
            Some(left) => i64::MIN <= left <= i64::MAX,
            None => true,
        }
    &&& min >= 0 || heights.len() == 0 || placeable(
        heights,
        min,
        total,
        heights.len() as int,
    ) > 0
}

/// The lengths of a sequence, added up.
pub open spec fn sum(lengths: Seq<int>) -> int
    decreases lengths.len(),
{
    if lengths.len() == 0 {
        0
    } else {
        sum(lengths.drop_last()) + lengths.last()
    }
}

/// Shares `total_height` among windows that ask for `heights`, none of them reduced below
/// `min_height`.
///
/// The windows keep the heights that they ask for as long as there is room, and the last one is
/// stretched to the end. When the room runs out, the last window that still had some and all
/// below it share that room equally. `None` if they would be less than `min_height` tall.
pub fn binpack_heights(heights: &[i64], min_height: i64, total_height: i64) -> (output: Option<
    Vec<i64>,
>)
    requires
        packable(heights@, min_height as int, total_height as int),
    ensures
        match (output, packed(heights@, min_height as int, total_height as int)) {
            (Some(out), Some(spec)) => out@.map_values(|h: i64| h as int) =~= spec,
            (None, None) => true,
            _ => false,
        },
{
    let n: usize = heights.len();
    let ghost (hs, min, total) = (heights@, min_height as int, total_height as int);
    let mut output: Vec<i64> = Vec::new();
    let mut remaining: i128 = total_height as i128;
    let mut before: i128 = total_height as i128;
    let mut idx: usize = 0;
    let mut stuck: bool = false;
    while idx < n && !stuck
        invariant
            n == heights@.len(),
            hs == heights@,
            min == min_height as int,
            total == total_height as int,
            packable(hs, min, total),
            0 <= idx <= n,
            room(hs, min, total, idx as int) == Some(remaining as int),
            idx > 0 ==> room(hs, min, total, idx - 1) == Some(before as int),
            stuck ==> idx < n && room(hs, min, total, idx + 1) is None,
            output@.len() == idx,
            forall|i: int|
                0 <= i < idx ==> #[trigger] output@[i] == granted(hs, min, total, n + 1, i),
        decreases
            n - idx,
            if stuck {
                0int
            } else {
                1
            },
    {
        let height: i64 = heights[idx];
        let needed: i128 = {
            let waiting: i128 = (n - idx) as i128;
            assert(-0x8000_0000_0000_0000 * 0xffff_ffff <= min_height * waiting
                <= 0x7fff_ffff_ffff_ffff * 0xffff_ffff) by (nonlinear_arith)
                requires
                    -0x8000_0000_0000_0000 <= min_height <= 0x7fff_ffff_ffff_ffff,
                    0 <= waiting <= 0xffff_ffff,
            ;
            min_height as i128 * waiting
        };
        assert(room(hs, min, total, idx as int) is Some);
        if (height as i128) < remaining {
            output.push(height);
            before = remaining;
            remaining = remaining - height as i128;
            idx += 1;
        } else if remaining >= needed {
            output.push(remaining as i64);
            before = remaining;
            remaining = 0;
            idx += 1;
        } else {
            stuck = true;
        }
    }
    proof {
        lemma_placeable(hs, min, total, n as int, idx as int);
    }
    if idx == n {
        if n > 0 {
            output.set(n - 1, before as i64);
        }
        Some(output)
    } else if idx == 0 {
        None
    } else {
        let sharing: i128 = (n - idx) as i128 + 1;
        let share: i128 = {
            let each: i128 = floor_div(before, sharing);
            proof {
                let (b, s): (int, int) = (before as int, sharing as int);
                assert(b >= 0 ==> 0 <= b / s <= b) by (nonlinear_arith)
                    requires
                        s > 0,
                ;
                assert(b < 0 ==> b <= b / s < 0) by (nonlinear_arith)
                    requires
                        s > 0,
                ;
            }
            floor_div(each, POINT as i128) * POINT as i128
        };
        if share < min_height as i128 {
            return None;
        }
        output.truncate(idx - 1);
        let mut count: usize = idx - 1;
        while count < n
            invariant
                n == heights@.len(),
                hs == heights@,
                min == min_height as int,
                total == total_height as int,
                0 < idx < n,
                idx - 1 <= count <= n,
                output@.len() == count,
                i64::MIN <= share <= i64::MAX,
                forall|i: int|
                    0 <= i < idx - 1 ==> #[trigger] output@[i] == granted(
                        hs,
                        min,
                        total,
                        idx as int,
                        i,
                    ),
                forall|i: int| idx - 1 <= i < count ==> #[trigger] output@[i] == share,
            decreases n - count,
        {
            output.push(share as i64);
            count += 1;
        }
        Some(output)
    }
}

/// Where the walk stops is the number of windows that can be placed.
proof fn lemma_placeable(heights: Seq<i64>, min: int, total: int, n: int, idx: int)
    requires
        0 <= idx <= n,
        room(heights, min, total, idx) is Some,
        idx < n ==> room(heights, min, total, idx + 1) is None,
    ensures
        placeable(heights, min, total, n) == idx,
    decreases n,
{
    if idx < n {
        lemma_room_stays_none(heights, min, total, idx + 1, n);
        lemma_placeable(heights, min, total, n - 1, idx);
    }
}

/// Behind a window that cannot be placed none can.
proof fn lemma_room_stays_none(heights: Seq<i64>, min: int, total: int, i: int, j: int)
    requires
        0 <= i <= j,
        room(heights, min, total, i) is None,
    ensures
        room(heights, min, total, j) is None,
    decreases j,
{
    if i < j {
        lemma_room_stays_none(heights, min, total, i, j - 1);
    }
}

/// Windows of ordinary heights never leave more room than there was, nor a debt.
proof fn lemma_room_bounded(heights: Seq<i64>, min: int, total: int, k: int)
    requires
        0 <= k <= heights.len(),
        forall|i: int| 0 <= i < heights.len() ==> heights[i] >= 0,
    ensures
        match room(heights, min, total, k) {
            Some(left) => (k > 0 ==> 0 <= left) && (left <= total || left == 0),
            None => true,
        },
    decreases k,
{
    if k > 0 {
        lemma_room_bounded(heights, min, total, k - 1);
    }
}

/// Windows of ordinary heights, at most 32 bits many, can share any length.
pub proof fn lemma_packable(heights: Seq<i64>, min: int, total: int)
    requires
        heights.len() <= u32::MAX,
        forall|i: int| 0 <= i < heights.len() ==> heights[i] >= 0,
        min >= 0,
        i64::MIN <= total <= i64::MAX,
    ensures
        packable(heights, min, total),
{
    assert forall|k: int| 0 <= k < heights.len() implies match #[trigger] room(
        heights,
        min,
        total,
        k,
    ) {
        Some(left) => i64::MIN <= left <= i64::MAX,
        None => true,
    } by {
        lemma_room_bounded(heights, min, total, k);
    }
}

/// Only the last placed window can have taken all that was left, and then nothing follows it.
proof fn lemma_asked_for(heights: Seq<i64>, min: int, total: int, count: int, i: int)
    requires
        0 <= i < count - 1,
        count <= heights.len(),
        forall|j: int| 0 <= j < heights.len() ==> heights[j] >= 0,
        min > 0,
        room(heights, min, total, count) is Some,
    ensures
        room(heights, min, total, i) is Some,
        heights[i] < room(heights, min, total, i)->0,
        granted(heights, min, total, count, i) == heights[i],
{
    if room(heights, min, total, i) is None {
        lemma_room_stays_none(heights, min, total, i, count);
    }
    if room(heights, min, total, i + 2) is None {
        lemma_room_stays_none(heights, min, total, i + 2, count);
    }
    reveal_with_fuel(room, 3);
    let rest = heights.len() - (i + 1);
    assert(min * rest > 0) by (nonlinear_arith)
        requires
            min > 0,
            rest > 0,
    ;
}

/// The windows above position `k` fill exactly what is no longer left there.
proof fn lemma_granted_sum(heights: Seq<i64>, min: int, total: int, count: int, k: int)
    requires
        0 <= k < count <= heights.len(),
        forall|j: int| 0 <= j < heights.len() ==> heights[j] >= 0,
        min > 0,
        room(heights, min, total, count) is Some,
    ensures
        room(heights, min, total, k) is Some,
        sum(Seq::new(k as nat, |i: int| granted(heights, min, total, count, i))) == total - room(
            heights,
            min,
            total,
            k,
        )->0,
    decreases k,
{
    let all = Seq::new(k as nat, |i: int| granted(heights, min, total, count, i));
    if k > 0 {
        lemma_granted_sum(heights, min, total, count, k - 1);
        lemma_asked_for(heights, min, total, count, k - 1);
        assert(all.drop_last() =~= Seq::new(
            (k - 1) as nat,
            |i: int| granted(heights, min, total, count, i),
        ));
    }
    if room(heights, min, total, k) is None {
        lemma_room_stays_none(heights, min, total, k, count);
    }
}

/// Equal lengths add up to a product.
proof fn lemma_sum_with_tail(all: Seq<int>, head: int, each: int)
    requires
        0 <= head <= all.len(),
        forall|i: int| head <= i < all.len() ==> all[i] == each,
    ensures
        sum(all) == sum(all.take(head)) + (all.len() - head) * each,
    decreases all.len(),
{
    if head < all.len() {
        lemma_sum_with_tail(all.drop_last(), head, each);
        assert(all.drop_last().take(head) =~= all.take(head));
        assert((all.len() - head) * each == (all.len() - 1 - head) * each + each)
            by (nonlinear_arith);
    } else {
        assert(all.take(head) =~= all);
    }
}

/// What `room` and `placeable` say of each other.
proof fn lemma_placeable_room(heights: Seq<i64>, min: int, total: int, k: int)
    requires
        0 <= k <= heights.len(),
    ensures
        0 <= placeable(heights, min, total, k) <= k,
        room(heights, min, total, placeable(heights, min, total, k)) is Some,
        forall|i: int|
            placeable(heights, min, total, k) < i <= k ==> #[trigger] room(
                heights,
                min,
                total,
                i,
            ) is None,
    decreases k,
{
    if k > 0 {
        lemma_placeable_room(heights, min, total, k - 1);
    }
}

/// A stack never outgrows its display: the heights that its windows are given add up to at most
/// the height that they share, and to exactly that height if every window could be placed.
pub proof fn law_stack_within_total(heights: Seq<i64>, min: int, total: int)
    requires
        heights.len() > 0,
        forall|i: int| 0 <= i < heights.len() ==> heights[i] >= 0,
        min > 0,
        packed(heights, min, total) is Some,
    ensures
        sum(packed(heights, min, total)->0) <= total,
        room(heights, min, total, heights.len() as int) is Some ==> sum(
            packed(heights, min, total)->0,
        ) == total,
{
    let n = heights.len() as int;
    let count = placeable(heights, min, total, n);
    let out = packed(heights, min, total)->0;
    lemma_placeable_room(heights, min, total, n);
    lemma_granted_sum(heights, min, total, count, count - 1);
    let left = room(heights, min, total, count - 1)->0;
    let kept = Seq::new((count - 1) as nat, |i: int| granted(heights, min, total, count, i));
    assert(out.take(count - 1) =~= kept);
    if count == n {
        assert(out.drop_last() =~= kept);
        assert(out.last() == left);
    } else {
        let each = share(heights, min, total);
        let sharing = n - count + 1;
        lemma_sum_with_tail(out, count - 1, each);
        let whole = left / sharing;
        assert(whole * sharing <= left) by (nonlinear_arith)
            requires
                sharing > 0,
                whole == left / sharing,
        ;
        assert(each <= whole);
        assert(sharing * each <= whole * sharing) by (nonlinear_arith)
            requires
                sharing > 0,
                each <= whole,
        ;
    }
}

/// No window of a stack is squeezed: each is at least as tall as it asks to be, or at least the
/// minimum.
pub proof fn law_stack_keeps_minimum(heights: Seq<i64>, min: int, total: int, i: int)
    requires
        0 <= i < heights.len(),
        forall|j: int| 0 <= j < heights.len() ==> heights[j] >= 0,
        min > 0,
        packed(heights, min, total) is Some,
    ensures
        packed(heights, min, total)->0[i] >= least(heights[i] as int, min),
{
    let n = heights.len() as int;
    let count = placeable(heights, min, total, n);
    lemma_placeable_room(heights, min, total, n);
    if i < count - 1 {
        lemma_asked_for(heights, min, total, count, i);
    } else if count == n {
        assert(room(heights, min, total, n - 1) is Some);
        assert(min * (n - (n - 1)) == min) by (nonlinear_arith);
    }
}

/// The lengths of a sequence add up one by one.
pub proof fn law_sum_adds_up(lengths: Seq<int>, length: int)
    ensures
        sum(Seq::<int>::empty()) == 0,
        sum(lengths.push(length)) == sum(lengths) + length,
{
    assert(lengths.push(length).drop_last() =~= lengths);
}

/// How tall the first `k` windows ask to be together.
pub open spec fn asked(heights: Seq<i64>, k: int) -> int
    decreases k,
{
    if k <= 0 {
        0
    } else {
        asked(heights, k - 1) + heights[k - 1]
    }
}

/// Window `i` need not give anything up for those below it: it is not the last one, it fits with
/// those above it, and either the next one fits too or all below it could be `min` tall in what it
/// leaves.
pub open spec fn leaves_enough(heights: Seq<i64>, min: int, total: int, i: int) -> bool {
    &&& i + 1 < heights.len()
    &&& asked(heights, i + 1) < total
    &&& asked(heights, i + 2) < total || total - asked(heights, i + 1) >= min * (heights.len() - (i
        + 1))
}

/// Window `i` is the first one that does not leave enough to those below it.
pub open spec fn is_first_short(heights: Seq<i64>, min: int, total: int, i: int) -> bool {
    &&& 0 <= i < heights.len()
    &&& !leaves_enough(heights, min, total, i)
    &&& i > 0 ==> leaves_enough(heights, min, total, i - 1)
}

proof fn lemma_asked_grows(heights: Seq<i64>, i: int, j: int)
    requires
        0 <= i <= j <= heights.len(),
        forall|k: int| 0 <= k < heights.len() ==> heights[k] >= 0,
    ensures
        0 <= asked(heights, i) <= asked(heights, j),
    decreases j,
{
    if j > 0 {
        if i < j {
            lemma_asked_grows(heights, i, j - 1);
        } else {
            lemma_asked_grows(heights, i - 1, j - 1);
        }
    }
}

/// As long as the windows fit, what is left is what they do not ask for.
proof fn lemma_room_is_rest(heights: Seq<i64>, min: int, total: int, k: int)
    requires
        0 <= k <= heights.len(),
        forall|i: int| 0 <= i < heights.len() ==> heights[i] >= 0,
        k == 0 || asked(heights, k) < total,
    ensures
        room(heights, min, total, k) == Some(total - asked(heights, k)),
    decreases k,
{
    if k > 0 {
        lemma_asked_grows(heights, k - 1, k);
        lemma_room_is_rest(heights, min, total, k - 1);
    }
}

/// Where a window leaves enough, so do those above it.
proof fn lemma_leave_enough_above(heights: Seq<i64>, min: int, total: int, j: int, i: int)
    requires
        0 <= j <= i,
        forall|k: int| 0 <= k < heights.len() ==> heights[k] >= 0,
        leaves_enough(heights, min, total, i),
    ensures
        leaves_enough(heights, min, total, j),
{
    if j < i {
        lemma_asked_grows(heights, j + 1, i + 1);
        lemma_asked_grows(heights, j + 2, i + 1);
    }
}

/// Some window of a stack does not leave enough: at the latest the last one. This is the first one
/// from `from` on.
pub proof fn lemma_find_short(heights: Seq<i64>, min: int, total: int, from: int) -> (i: int)
    requires
        0 <= from < heights.len(),
        from > 0 ==> leaves_enough(heights, min, total, from - 1),
    ensures
        from <= i,
        is_first_short(heights, min, total, i),
    decreases heights.len() - from,
{
    if leaves_enough(heights, min, total, from) {
        lemma_find_short(heights, min, total, from + 1)
    } else {
        from
    }
}

/// How many windows can be placed, seen from the first one that does not leave enough.
proof fn lemma_placed_up_to_short(heights: Seq<i64>, min: int, total: int, i: int)
    requires
        forall|k: int| 0 <= k < heights.len() ==> heights[k] >= 0,
        min > 0,
        is_first_short(heights, min, total, i),
    ensures
        ({
            let n = heights.len() as int;
            let left = total - asked(heights, i);
            let count = placeable(heights, min, total, n);
            &&& room(heights, min, total, i) == Some(left)
            &&& i == n - 1 && (heights[i] < left || left >= min) ==> count == n
            &&& i == n - 1 && !(heights[i] < left || left >= min) ==> i == 0 && count == 0
            &&& i < n - 1 ==> count == i + 1 || (count == 0 && i == 0 && left < min * n)
        }),
{
    let n = heights.len() as int;
    let left = total - asked(heights, i);
    lemma_room_is_rest(heights, min, total, i);
    assert(min * 1 == min) by (nonlinear_arith);
    reveal_with_fuel(room, 3);
    reveal_with_fuel(asked, 3);
    if i == n - 1 {
        if heights[i] < left || left >= min {
            lemma_placeable(heights, min, total, n, n);
        } else {
            lemma_placeable(heights, min, total, n, i);
        }
    } else if asked(heights, i + 1) < total {
        lemma_room_is_rest(heights, min, total, i + 1);
        lemma_placeable(heights, min, total, n, i + 1);
    } else if left >= min * (n - i) {
        let rest = n - (i + 1);
        assert(min * rest > 0) by (nonlinear_arith)
            requires
                min > 0,
                rest > 0,
        ;
        lemma_placeable(heights, min, total, n, i + 1);
    } else {
        lemma_placeable(heights, min, total, n, i);
    }
}

/// A window that leaves enough to those below it is as tall as it asks to be.
pub proof fn law_stack_keeps_what_fits(heights: Seq<i64>, min: int, total: int, i: int)
    requires
        0 <= i < heights.len(),
        forall|k: int| 0 <= k < heights.len() ==> heights[k] >= 0,
        min > 0,
        leaves_enough(heights, min, total, i),
        packed(heights, min, total) is Some,
    ensures
        packed(heights, min, total)->0.len() == heights.len(),
        packed(heights, min, total)->0[i] == heights[i],
{
    let c = lemma_find_short(heights, min, total, i + 1);
    lemma_placed_up_to_short(heights, min, total, c);
    lemma_asked_grows(heights, i, i + 1);
    lemma_room_is_rest(heights, min, total, i);
}

/// The first window that does not leave enough and all below it share what the windows above it
/// leave: they are equally tall, in whole points, and so tall that less than a point each stays
/// empty. The last window, when it has nothing to share, is stretched to the very end.
pub proof fn law_stack_shares_the_rest(heights: Seq<i64>, min: int, total: int, i: int, j: int)
    requires
        forall|k: int| 0 <= k < heights.len() ==> heights[k] >= 0,
        min > 0,
        is_first_short(heights, min, total, i),
        i <= j < heights.len(),
        packed(heights, min, total) is Some,
    ensures
        ({
            let out = packed(heights, min, total)->0;
            let left = total - asked(heights, i);
            let sharing = heights.len() - i;
            &&& out.len() == heights.len()
            &&& out[j] == out[i]
            &&& out[i] * sharing <= left < (out[i] + 65_536) * sharing
            &&& sharing > 1 ==> out[i] % 65_536 == 0 && out[i] >= min
            &&& sharing == 1 ==> out[i] == left
        }),
{
    lemma_placed_up_to_short(heights, min, total, i);
    let left = total - asked(heights, i);
    let sharing = heights.len() - i;
    if sharing > 1 {
        let whole = left / sharing;
        let each = floor_point(whole);
        law_floor_point(whole);
        assert(each * sharing <= left < (each + 65_536) * sharing) by (nonlinear_arith)
            requires
                sharing > 0,
                whole == left / sharing,
                each <= whole < each + 65_536,
        ;
    }
}

proof fn lemma_sum_of_kept(heights: Seq<i64>, out: Seq<int>, k: int)
    requires
        0 <= k <= heights.len() == out.len(),
        forall|j: int| 0 <= j < k ==> #[trigger] out[j] == heights[j],
    ensures
        sum(out.take(k)) == asked(heights, k),
    decreases k,
{
    if k > 0 {
        lemma_sum_of_kept(heights, out, k - 1);
        assert(out.take(k).drop_last() =~= out.take(k - 1));
    }
}

/// A stack fills its display: less than a point stays empty for each window that shares, and
/// nothing if none does.
pub proof fn law_stack_fills_total(heights: Seq<i64>, min: int, total: int, i: int)
    requires
        forall|k: int| 0 <= k < heights.len() ==> heights[k] >= 0,
        min > 0,
        is_first_short(heights, min, total, i),
        packed(heights, min, total) is Some,
    ensures
        ({
            let filled = sum(packed(heights, min, total)->0);
            &&& filled <= total < filled + 65_536 * (heights.len() - i)
            &&& i == heights.len() - 1 ==> filled == total
        }),
{
    let out = packed(heights, min, total)->0;
    law_stack_shares_the_rest(heights, min, total, i, i);
    assert forall|j: int| i <= j < out.len() implies out[j] == out[i] by {
        law_stack_shares_the_rest(heights, min, total, i, j);
    }
    assert forall|j: int| 0 <= j < i implies #[trigger] out[j] == heights[j] by {
        lemma_leave_enough_above(heights, min, total, j, i - 1);
        law_stack_keeps_what_fits(heights, min, total, j);
    }
    lemma_sum_of_kept(heights, out, i);
    lemma_sum_with_tail(out, i, out[i]);
    let (each, sharing) = (out[i], heights.len() - i);
    assert((each + 65_536) * sharing == each * sharing + 65_536 * sharing && each * sharing
        == sharing * each) by (nonlinear_arith);
}

/// Windows can share a height if and only if there is a height in whole points, no less than the
/// minimum, that the first one that does not leave enough and all below it can have; or if the
/// last one is the first to be short and fits, or what is left for it is no less than the minimum.
pub proof fn law_stack_fits(heights: Seq<i64>, min: int, total: int, i: int)
    requires
        forall|k: int| 0 <= k < heights.len() ==> heights[k] >= 0,
        min > 0,
        is_first_short(heights, min, total, i),
    ensures
        ({
            let left = total - asked(heights, i);
            let sharing = heights.len() - i;
            packed(heights, min, total) is Some <==> {
                ||| sharing == 1 && (heights[i] < left || left >= min)
                ||| exists|h: int| #[trigger] is_share(h, min, left, sharing)
            }
        }),
{
    let left = total - asked(heights, i);
    let sharing = heights.len() - i;
    lemma_placed_up_to_short(heights, min, total, i);
    if packed(heights, min, total) is Some {
        law_stack_shares_the_rest(heights, min, total, i, i);
        let h = packed(heights, min, total)->0[i];
        if sharing > 1 {
            assert(is_share(h, min, left, sharing));
        }
    } else {
        let each = share(heights, min, total);
        assert forall|h: int| !#[trigger] is_share(h, min, left, sharing) by {
            if is_share(h, min, left, sharing) {
                let whole = left / sharing;
                law_floor_point(whole);
                assert(h <= whole) by (nonlinear_arith)
                    requires
                        sharing > 0,
                        h * sharing <= left,
                        whole == left / sharing,
                ;
                assert(min * sharing <= left) by (nonlinear_arith)
                    requires
                        sharing > 0,
                        h >= min,
                        h * sharing <= left,
                ;
                assert(sharing == 1 ==> min * sharing == min) by (nonlinear_arith);
            }
        }
    }
}

/// Windows that share `left` can each be `h` tall.
pub open spec fn is_share(h: int, min: int, left: int, sharing: int) -> bool {
    h % 65_536 == 0 && h >= min && h * sharing <= left
}

/// No windows need no height.
pub proof fn law_empty_stack(min: int, total: int)
    ensures
        packed(Seq::<i64>::empty(), min, total) == Some(Seq::<int>::empty()),
{
    assert(packed(Seq::<i64>::empty(), min, total)->0 =~= Seq::<int>::empty());
}

proof fn lemma_room_without_minimum(heights: Seq<i64>, min: int, total: int, k: int)
    requires
        0 <= k <= heights.len(),
        forall|i: int| 0 <= i < heights.len() ==> heights[i] >= 0,
        min <= 0 <= total,
    ensures
        room(heights, min, total, k) == Some(
            if asked(heights, k) <= total {
                total - asked(heights, k)
            } else {
                0
            },
        ),
    decreases k,
{
    if k > 0 {
        lemma_room_without_minimum(heights, min, total, k - 1);
        let waiting = heights.len() - (k - 1);
        assert(min * waiting <= 0) by (nonlinear_arith)
            requires
                min <= 0,
                waiting >= 0,
        ;
    }
}

/// Without a minimum every stack fits: each window has what it asks for, as far as those above it
/// leave that much, and else all that they leave; the last one always has all that they leave.
pub proof fn law_stack_without_minimum(heights: Seq<i64>, min: int, total: int, i: int)
    requires
        0 <= i < heights.len(),
        forall|k: int| 0 <= k < heights.len() ==> heights[k] >= 0,
        min <= 0 <= total,
    ensures
        ({
            let left = if asked(heights, i) <= total {
                total - asked(heights, i)
            } else {
                0
            };
            let out = packed(heights, min, total);
            &&& out is Some
            &&& out->0.len() == heights.len()
            &&& i + 1 < heights.len() && heights[i] <= left ==> out->0[i] == heights[i]
            &&& i + 1 == heights.len() || heights[i] > left ==> out->0[i] == left
        }),
{
    let n = heights.len() as int;
    lemma_room_without_minimum(heights, min, total, i);
    lemma_room_without_minimum(heights, min, total, n);
}

} // verus!
