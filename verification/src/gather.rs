//! Stringing together what each item of a sequence gives, and what holds of
//! the result.

use vstd::prelude::*;

verus! {

/// A sequence of one element, or of none.
pub open spec fn optional<B>(item: Option<B>) -> Seq<B> {
    match item {
        Some(b) => seq![b],
        None => Seq::empty(),
    }
}

/// What `per_item` gives for each item, strung together in the items' order.
pub open spec fn gather<T, B>(items: Seq<T>, per_item: spec_fn(T) -> Seq<B>) -> Seq<B>
    decreases items.len(),
{
    if items.len() == 0 {
        Seq::empty()
    } else {
        gather(items.drop_last(), per_item) + per_item(items.last())
    }
}

/// Gathering over one more item appends what that item gives.
pub proof fn lemma_gather_push<T, B>(items: Seq<T>, last: T, per_item: spec_fn(T) -> Seq<B>)
    ensures
        gather(items.push(last), per_item) == gather(items, per_item) + per_item(last),
{
    assert(items.push(last).drop_last() == items);
}

/// Gathering over the first `i + 1` items appends what item `i` gives to what
/// the first `i` items give.
pub proof fn lemma_gather_take<T, B>(items: Seq<T>, i: int, per_item: spec_fn(T) -> Seq<B>)
    requires
        0 <= i < items.len(),
    ensures
        gather(items.take(i + 1), per_item) == gather(items.take(i), per_item) + per_item(
            items[i],
        ),
        i + 1 == items.len() ==> items.take(i + 1) == items,
{
    assert(items.take(i + 1) == items.take(i).push(items[i]));
    lemma_gather_push(items.take(i), items[i], per_item);
    if i + 1 == items.len() {
        assert(items.take(i + 1) == items);
    }
}

/// Everything gathered was given by some item.
pub proof fn lemma_gather_from<T, B>(items: Seq<T>, per_item: spec_fn(T) -> Seq<B>, j: int)
    requires
        0 <= j < gather(items, per_item).len(),
    ensures
        exists|k: int, n: int|
            0 <= k < items.len() && 0 <= n < per_item(items[k]).len() && gather(items, per_item)[j]
                == #[trigger] per_item(items[k])[n],
    decreases items.len(),
{
    let rest = items.drop_last();
    let head = gather(rest, per_item);
    if j < head.len() {
        lemma_gather_from(rest, per_item, j);
        let (k, n) = choose|k: int, n: int|
            0 <= k < rest.len() && 0 <= n < per_item(rest[k]).len() && head[j]
                == #[trigger] per_item(rest[k])[n];
        assert(rest[k] == items[k]);
        assert(gather(items, per_item)[j] == per_item(items[k])[n]);
    } else {
        let k = items.len() - 1;
        let n = j - head.len();
        assert(gather(items, per_item)[j] == per_item(items[k])[n]);
    }
}

/// Everything that an item gives is among what is gathered.
pub proof fn lemma_gather_has<T, B>(
    items: Seq<T>,
    per_item: spec_fn(T) -> Seq<B>,
    k: int,
    n: int,
)
    requires
        0 <= k < items.len(),
        0 <= n < per_item(items[k]).len(),
    ensures
        exists|j: int|
            0 <= j < gather(items, per_item).len() && #[trigger] gather(items, per_item)[j]
                == per_item(items[k])[n],
    decreases items.len(),
{
    let rest = items.drop_last();
    let head = gather(rest, per_item);
    if k == items.len() - 1 {
        let j = head.len() + n;
        assert(gather(items, per_item)[j] == per_item(items[k])[n]);
    } else {
        lemma_gather_has(rest, per_item, k, n);
        assert(rest[k] == items[k]);
        let j = choose|j: int| 0 <= j < head.len() && #[trigger] head[j] == per_item(rest[k])[n];
        assert(gather(items, per_item)[j] == head[j]);
    }
}

/// Items that give nothing leave nothing gathered.
pub proof fn lemma_gather_nothing<T, B>(items: Seq<T>, per_item: spec_fn(T) -> Seq<B>)
    requires
        forall|k: int| 0 <= k < items.len() ==> per_item(#[trigger] items[k]).len() == 0,
    ensures
        gather(items, per_item) == Seq::<B>::empty(),
    decreases items.len(),
{
    if items.len() > 0 {
        lemma_gather_nothing(items.drop_last(), per_item);
        assert(per_item(items[items.len() - 1]).len() == 0);
        assert(gather(items, per_item) =~= Seq::<B>::empty());
    }
}

/// Two ways of giving that agree on every item gather the same.
pub proof fn lemma_gather_same<T, B>(
    items: Seq<T>,
    first: spec_fn(T) -> Seq<B>,
    second: spec_fn(T) -> Seq<B>,
)
    requires
        forall|k: int| 0 <= k < items.len() ==> first(#[trigger] items[k]) == second(items[k]),
    ensures
        gather(items, first) == gather(items, second),
    decreases items.len(),
{
    if items.len() > 0 {
        lemma_gather_same(items.drop_last(), first, second);
        assert(first(items[items.len() - 1]) == second(items[items.len() - 1]));
    }
}

/// Where no item gives more than one thing, what is gathered keeps the
/// items' order: of two gathered things, the earlier was given by the
/// earlier item.
pub proof fn lemma_gather_order<T, B>(
    items: Seq<T>,
    per_item: spec_fn(T) -> Seq<B>,
    i: int,
    j: int,
)
    requires
        forall|k: int| 0 <= k < items.len() ==> per_item(#[trigger] items[k]).len() <= 1,
        0 <= i < j < gather(items, per_item).len(),
    ensures
        exists|a: int, b: int|
            0 <= a < b < items.len() && per_item(items[a]).len() == 1 && per_item(items[b]).len()
                == 1 && gather(items, per_item)[i] == #[trigger] per_item(items[a])[0] && gather(
                items,
                per_item,
            )[j] == #[trigger] per_item(items[b])[0],
    decreases items.len(),
{
    let rest = items.drop_last();
    let head = gather(rest, per_item);
    assert forall|k: int| 0 <= k < rest.len() implies per_item(#[trigger] rest[k]).len() <= 1 by {
        assert(rest[k] == items[k]);
    }
    assert(per_item(items[items.len() - 1]).len() <= 1);
    if j < head.len() {
        lemma_gather_order(rest, per_item, i, j);
        let (a, b) = choose|a: int, b: int|
            0 <= a < b < rest.len() && per_item(rest[a]).len() == 1 && per_item(rest[b]).len() == 1
                && head[i] == #[trigger] per_item(rest[a])[0] && head[j] == #[trigger] per_item(
                rest[b],
            )[0];
        assert(rest[a] == items[a] && rest[b] == items[b]);
        assert(gather(items, per_item)[i] == per_item(items[a])[0]);
        assert(gather(items, per_item)[j] == per_item(items[b])[0]);
    } else {
        lemma_gather_from(rest, per_item, i);
        let (a, n) = choose|a: int, n: int|
            0 <= a < rest.len() && 0 <= n < per_item(rest[a]).len() && head[i]
                == #[trigger] per_item(rest[a])[n];
        assert(rest[a] == items[a]);
        let b = items.len() - 1;
        assert(gather(items, per_item)[i] == per_item(items[a])[0]);
        assert(gather(items, per_item)[j] == per_item(items[b])[0]);
    }
}

} // verus!
