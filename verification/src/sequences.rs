//! Sequences built item by item.

use vstd::prelude::*;

verus! {

/// The sequences that `f` makes of the items of `s`, one behind the other.
pub open spec fn gather<A, B>(s: Seq<A>, f: spec_fn(A) -> Seq<B>) -> Seq<B>
    decreases s.len(),
{
    if s.len() == 0 {
        Seq::empty()
    } else {
        gather(s.drop_last(), f) + f(s.last())
    }
}

/// The sequences that `f` makes of the numbers below `n`, one behind the other.
pub open spec fn gather_below<B>(n: int, f: spec_fn(int) -> Seq<B>) -> Seq<B>
    decreases n,
{
    if n <= 0 {
        Seq::empty()
    } else {
        gather_below(n - 1, f) + f(n - 1)
    }
}

/// The position of the first item of `s` for which `p` holds, counted from `from`; the length of
/// `s` if there is none.
pub open spec fn first_where<A>(s: Seq<A>, p: spec_fn(A) -> bool, from: int) -> int
    decreases s.len() - from,
{
    if from < 0 || from >= s.len() {
        s.len() as int
    } else if p(s[from]) {
        from
    } else {
        first_where(s, p, from + 1)
    }
}

/// The first item of `s` for which `p` holds.
pub open spec fn find_where<A>(s: Seq<A>, p: spec_fn(A) -> bool) -> Option<A> {
    let i = first_where(s, p, 0);
    if i < s.len() {
        Some(s[i])
    } else {
        None
    }
}

/// One more item adds what `f` makes of it.
pub proof fn lemma_gather_step<A, B>(s: Seq<A>, f: spec_fn(A) -> Seq<B>, i: int)
    requires
        0 <= i < s.len(),
    ensures
        gather(s.take(i + 1), f) == gather(s.take(i), f) + f(s[i]),
{
    assert(s.take(i + 1).drop_last() =~= s.take(i));
}

/// What is gathered of the first items comes first in what is gathered of all.
pub proof fn lemma_gather_prefix<A, B>(s: Seq<A>, f: spec_fn(A) -> Seq<B>, i: int)
    requires
        0 <= i <= s.len(),
    ensures
        gather(s.take(i), f).len() <= gather(s, f).len(),
        gather(s.take(i), f) == gather(s, f).take(gather(s.take(i), f).len() as int),
{
    lemma_gather_add(s.take(i), s.skip(i), f);
    assert(s.take(i) + s.skip(i) =~= s);
    assert(gather(s.take(i), f) =~= gather(s, f).take(gather(s.take(i), f).len() as int));
}

/// What `f` makes of an item stands behind what is gathered of those before it.
pub proof fn lemma_gather_at<A, B>(s: Seq<A>, f: spec_fn(A) -> Seq<B>, i: int, k: int)
    requires
        0 <= i < s.len(),
        0 <= k < f(s[i]).len(),
    ensures
        gather(s.take(i), f).len() + k < gather(s, f).len(),
        gather(s, f)[gather(s.take(i), f).len() + k] == f(s[i])[k],
{
    lemma_gather_step(s, f, i);
    lemma_gather_prefix(s, f, i + 1);
    let n = gather(s.take(i), f).len();
    assert(gather(s.take(i + 1), f)[n + k] == f(s[i])[k]);
}

/// Where `f` makes one item of each, what it makes of an item stands at the same position.
pub proof fn lemma_gather_singles<A, B>(s: Seq<A>, f: spec_fn(A) -> Seq<B>)
    requires
        forall|i: int| 0 <= i < s.len() ==> f(#[trigger] s[i]).len() == 1,
    ensures
        gather(s, f) == Seq::new(s.len(), |i: int| f(s[i])[0]),
    decreases s.len(),
{
    if s.len() > 0 {
        let rest = s.drop_last();
        assert forall|i: int| 0 <= i < rest.len() implies f(#[trigger] rest[i]).len() == 1 by {
            assert(f(s[i]).len() == 1);
        }
        lemma_gather_singles(rest, f);
        assert(f(s[s.len() - 1]).len() == 1);
    }
    assert(gather(s, f) =~= Seq::new(s.len(), |i: int| f(s[i])[0]));
}

/// Everything that is gathered is made of some item.
pub proof fn lemma_gathered_of<A, B>(s: Seq<A>, f: spec_fn(A) -> Seq<B>, k: int) -> (i: int)
    requires
        0 <= k < gather(s, f).len(),
    ensures
        0 <= i < s.len(),
        f(s[i]).contains(gather(s, f)[k]),
    decreases s.len(),
{
    let before = gather(s.drop_last(), f);
    if k < before.len() {
        lemma_gathered_of(s.drop_last(), f, k)
    } else {
        assert(f(s.last())[k - before.len()] == gather(s, f)[k]);
        s.len() - 1
    }
}

/// Gathering over a concatenation is concatenating what is gathered.
pub proof fn lemma_gather_add<A, B>(s: Seq<A>, t: Seq<A>, f: spec_fn(A) -> Seq<B>)
    ensures
        gather(s + t, f) == gather(s, f) + gather(t, f),
    decreases t.len(),
{
    if t.len() == 0 {
        assert(s + t =~= s);
        assert(gather(s, f) + gather(t, f) =~= gather(s, f));
    } else {
        lemma_gather_add(s, t.drop_last(), f);
        assert((s + t).drop_last() =~= s + t.drop_last());
        assert(gather(s, f) + (gather(t.drop_last(), f) + f(t.last())) =~= (gather(s, f) + gather(
            t.drop_last(),
            f,
        )) + f(t.last()));
    }
}

/// Where nothing matched so far, the first match is the one at hand.
pub proof fn lemma_first_where<A>(s: Seq<A>, p: spec_fn(A) -> bool, from: int, i: int)
    requires
        0 <= from <= i <= s.len(),
        forall|j: int| from <= j < i ==> !p(#[trigger] s[j]),
        i < s.len() ==> p(s[i]),
    ensures
        first_where(s, p, from) == i,
    decreases i - from,
{
    if from < i {
        lemma_first_where(s, p, from + 1, i);
    }
}

/// The first match is one, and nothing before it is.
pub proof fn lemma_first_where_is<A>(s: Seq<A>, p: spec_fn(A) -> bool, from: int)
    requires
        0 <= from <= s.len(),
    ensures
        from <= first_where(s, p, from) <= s.len(),
        first_where(s, p, from) < s.len() ==> p(s[first_where(s, p, from)]),
        forall|j: int| from <= j < first_where(s, p, from) ==> !p(#[trigger] s[j]),
    decreases s.len() - from,
{
    if from < s.len() && !p(s[from]) {
        lemma_first_where_is(s, p, from + 1);
    }
}

/// What is found is the first match; nothing is found if and only if nothing matches.
pub proof fn law_find_where<A>(s: Seq<A>, p: spec_fn(A) -> bool)
    ensures
        match find_where(s, p) {
            Some(found) => exists|i: int|
                #![trigger s[i]]
                0 <= i < s.len() && s[i] == found && p(s[i]) && forall|j: int|
                    0 <= j < i ==> !p(#[trigger] s[j]),
            None => forall|i: int| 0 <= i < s.len() ==> !p(#[trigger] s[i]),
        },
{
    lemma_first_where_is(s, p, 0);
    let i = first_where(s, p, 0);
    if i < s.len() {
        assert(s[i] == find_where(s, p)->0);
    }
}

/// A match before which there is none is what is found.
pub proof fn law_first_match_is_found<A>(s: Seq<A>, p: spec_fn(A) -> bool, i: int)
    requires
        0 <= i < s.len(),
        p(s[i]),
        forall|j: int| 0 <= j < i ==> !p(#[trigger] s[j]),
    ensures
        find_where(s, p) == Some(s[i]),
        first_where(s, p, 0) == i,
{
    lemma_first_where(s, p, 0, i);
}

/// Gathering over numbers is gathering over their sequence.
pub proof fn law_gather_below<B>(n: int, f: spec_fn(int) -> Seq<B>)
    requires
        n >= 0,
    ensures
        gather_below(n, f) == gather(Seq::new(n as nat, |i: int| i), f),
    decreases n,
{
    let numbers = Seq::new(n as nat, |i: int| i);
    if n > 0 {
        law_gather_below(n - 1, f);
        assert(numbers.drop_last() =~= Seq::new((n - 1) as nat, |i: int| i));
    }
}

/// Gathering over nothing gives nothing, and one more item adds what `f` makes of it at the end.
pub proof fn law_gather_appends<A, B>(s: Seq<A>, f: spec_fn(A) -> Seq<B>, item: A)
    ensures
        gather(Seq::<A>::empty(), f) == Seq::<B>::empty(),
        gather(s.push(item), f) == gather(s, f) + f(item),
{
    assert(s.push(item).drop_last() =~= s);
}

/// Where two items are made of each number, those of number `i` stand at `2 * i` and behind it.
pub proof fn lemma_gather_pairs<B>(n: int, f: spec_fn(int) -> Seq<B>, i: int)
    requires
        0 <= i < n,
        forall|k: int| 0 <= k < n ==> (#[trigger] f(k)).len() == 2,
    ensures
        gather_below(n, f).len() == 2 * n,
        gather_below(n, f)[2 * i] == f(i)[0],
        gather_below(n, f)[2 * i + 1] == f(i)[1],
    decreases n,
{
    assert(f(n - 1).len() == 2);
    if n > 1 {
        lemma_gather_pairs(n - 1, f, if i < n - 1 {
            i
        } else {
            0
        });
    } else {
        assert(gather_below(0, f).len() == 0);
    }
}

/// What `f` makes of a number below `n` is among what is gathered.
pub proof fn lemma_gather_below_has<B>(n: int, f: spec_fn(int) -> Seq<B>, i: int, item: B)
    requires
        0 <= i < n,
        f(i).contains(item),
    ensures
        gather_below(n, f).contains(item),
    decreases n,
{
    let before = gather_below(n - 1, f);
    let all = gather_below(n, f);
    if i < n - 1 {
        lemma_gather_below_has(n - 1, f, i, item);
        let k = choose|k: int| 0 <= k < before.len() && before[k] == item;
        assert(all[k] == item);
    } else {
        let made = f(i);
        let k = choose|k: int| 0 <= k < made.len() && made[k] == item;
        assert(all[before.len() + k] == item);
    }
}

/// Everything that is gathered is made of some number below `n`.
pub proof fn lemma_gathered_below<B>(n: int, f: spec_fn(int) -> Seq<B>, item: B) -> (i: int)
    requires
        gather_below(n, f).contains(item),
    ensures
        0 <= i < n,
        f(i).contains(item),
    decreases n,
{
    let before = gather_below(n - 1, f);
    let all = gather_below(n, f);
    let k = choose|k: int| 0 <= k < all.len() && all[k] == item;
    if k < before.len() {
        assert(before[k] == item);
        lemma_gathered_below(n - 1, f, item)
    } else {
        assert(f(n - 1)[k - before.len()] == item);
        n - 1
    }
}

/// What is gathered depends only on what is made of the numbers below `n`.
pub proof fn lemma_gather_below_same<B>(n: int, f: spec_fn(int) -> Seq<B>, g: spec_fn(int) -> Seq<B>)
    requires
        forall|i: int| 0 <= i < n ==> #[trigger] f(i) == g(i),
    ensures
        gather_below(n, f) == gather_below(n, g),
    decreases n,
{
    if n > 0 {
        lemma_gather_below_same(n - 1, f, g);
        assert(f(n - 1) == g(n - 1));
    }
}

} // verus!
