//! Conversions of a list, item by item, that stop at the first failure.

use vstd::prelude::*;

verus! {

/// Converts every item in order, handing a state from one item to the next. The
/// result is the first failure, if any item fails; else the converted items with
/// the last state.
pub open spec fn try_fold<S, A, B, E>(
    init: S,
    items: Seq<A>,
    step: spec_fn(S, A) -> Result<(B, S), E>,
) -> Result<(Seq<B>, S), E>
    decreases items.len(),
{
    if items.len() == 0 {
        Ok((Seq::empty(), init))
    } else {
        match try_fold(init, items.drop_last(), step) {
            Err(e) => Err(e),
            Ok((front, state)) => match step(state, items.last()) {
                Err(e) => Err(e),
                Ok((b, next)) => Ok((front.push(b), next)),
            },
        }
    }
}

/// What one more item adds to a conversion.
pub proof fn lemma_try_fold_step<S, A, B, E>(
    init: S,
    items: Seq<A>,
    step: spec_fn(S, A) -> Result<(B, S), E>,
    i: int,
)
    requires
        0 <= i < items.len(),
    ensures
        try_fold(init, items.take(i + 1), step) == match try_fold(init, items.take(i), step) {
            Err(e) => Err(e),
            Ok((front, state)) => match step(state, items[i]) {
                Err(e) => Err(e),
                Ok((b, next)) => Ok((front.push(b), next)),
            },
        },
{
    assert(items.take(i + 1).drop_last() =~= items.take(i));
    assert(items.take(i + 1).last() == items[i]);
}

/// A failure on a prefix is the failure of the whole list.
pub proof fn lemma_try_fold_failure<S, A, B, E>(
    init: S,
    items: Seq<A>,
    step: spec_fn(S, A) -> Result<(B, S), E>,
    k: int,
)
    requires
        0 <= k <= items.len(),
        try_fold(init, items.take(k), step) is Err,
    ensures
        try_fold(init, items, step) == try_fold(init, items.take(k), step),
    decreases items.len() - k,
{
    if k == items.len() {
        assert(items.take(k) =~= items);
    } else {
        lemma_try_fold_step(init, items, step, k);
        lemma_try_fold_failure(init, items, step, k + 1);
    }
}

/// The conversion of the whole list, once every item is converted.
pub proof fn lemma_try_fold_done<S, A, B, E>(
    init: S,
    items: Seq<A>,
    step: spec_fn(S, A) -> Result<(B, S), E>,
)
    ensures
        try_fold(init, items.take(items.len() as int), step) == try_fold(init, items, step),
        try_fold(init, items.take(0), step) == Ok::<(Seq<B>, S), E>((Seq::empty(), init)),
{
    assert(items.take(items.len() as int) =~= items);
}

/// Converts every item in order. The result is the first failure, if any item
/// fails; else the converted items.
pub open spec fn try_map<A, B, E>(items: Seq<A>, step: spec_fn(A) -> Result<B, E>) -> Result<
    Seq<B>,
    E,
>
    decreases items.len(),
{
    if items.len() == 0 {
        Ok(Seq::empty())
    } else {
        match try_map(items.drop_last(), step) {
            Err(e) => Err(e),
            Ok(front) => match step(items.last()) {
                Err(e) => Err(e),
                Ok(b) => Ok(front.push(b)),
            },
        }
    }
}

/// What one more item adds to a conversion.
pub proof fn lemma_try_map_step<A, B, E>(items: Seq<A>, step: spec_fn(A) -> Result<B, E>, i: int)
    requires
        0 <= i < items.len(),
    ensures
        try_map(items.take(i + 1), step) == match try_map(items.take(i), step) {
            Err(e) => Err(e),
            Ok(front) => match step(items[i]) {
                Err(e) => Err(e),
                Ok(b) => Ok(front.push(b)),
            },
        },
{
    assert(items.take(i + 1).drop_last() =~= items.take(i));
    assert(items.take(i + 1).last() == items[i]);
}

/// A failure on a prefix is the failure of the whole list.
pub proof fn lemma_try_map_failure<A, B, E>(
    items: Seq<A>,
    step: spec_fn(A) -> Result<B, E>,
    k: int,
)
    requires
        0 <= k <= items.len(),
        try_map(items.take(k), step) is Err,
    ensures
        try_map(items, step) == try_map(items.take(k), step),
    decreases items.len() - k,
{
    if k == items.len() {
        assert(items.take(k) =~= items);
    } else {
        lemma_try_map_step(items, step, k);
        lemma_try_map_failure(items, step, k + 1);
    }
}

/// The conversion of the whole list, once every item is converted.
pub proof fn lemma_try_map_done<A, B, E>(items: Seq<A>, step: spec_fn(A) -> Result<B, E>)
    ensures
        try_map(items.take(items.len() as int), step) == try_map(items, step),
        try_map(items.take(0), step) == Ok::<Seq<B>, E>(Seq::empty()),
{
    assert(items.take(items.len() as int) =~= items);
}

/// Handles every item in order, handing a state from one item to the next. The
/// result is the first failure, if any item fails; else the last state.
pub open spec fn try_each<S, A, E>(init: S, items: Seq<A>, step: spec_fn(S, A) -> Result<S, E>)
    -> Result<S, E>
    decreases items.len(),
{
    if items.len() == 0 {
        Ok(init)
    } else {
        match try_each(init, items.drop_last(), step) {
            Err(e) => Err(e),
            Ok(state) => step(state, items.last()),
        }
    }
}

/// What one more item adds.
pub proof fn lemma_try_each_step<S, A, E>(
    init: S,
    items: Seq<A>,
    step: spec_fn(S, A) -> Result<S, E>,
    i: int,
)
    requires
        0 <= i < items.len(),
    ensures
        try_each(init, items.take(i + 1), step) == match try_each(init, items.take(i), step) {
            Err(e) => Err(e),
            Ok(state) => step(state, items[i]),
        },
{
    assert(items.take(i + 1).drop_last() =~= items.take(i));
    assert(items.take(i + 1).last() == items[i]);
}

/// A failure on a prefix is the failure of the whole list.
pub proof fn lemma_try_each_failure<S, A, E>(
    init: S,
    items: Seq<A>,
    step: spec_fn(S, A) -> Result<S, E>,
    k: int,
)
    requires
        0 <= k <= items.len(),
        try_each(init, items.take(k), step) is Err,
    ensures
        try_each(init, items, step) == try_each(init, items.take(k), step),
    decreases items.len() - k,
{
    if k == items.len() {
        assert(items.take(k) =~= items);
    } else {
        lemma_try_each_step(init, items, step, k);
        lemma_try_each_failure(init, items, step, k + 1);
    }
}

/// The whole list, once every item is handled.
pub proof fn lemma_try_each_done<S, A, E>(init: S, items: Seq<A>, step: spec_fn(S, A) -> Result<S, E>)
    ensures
        try_each(init, items.take(items.len() as int), step) == try_each(init, items, step),
        try_each(init, items.take(0), step) == Ok::<S, E>(init),
{
    assert(items.take(items.len() as int) =~= items);
}

/// The last state that is reached: the state that the items leave, where none
/// of them fails; else the state before the first item that fails.
pub open spec fn reached<S, A, E>(init: S, items: Seq<A>, step: spec_fn(S, A) -> Result<S, E>) -> S
    decreases items.len(),
{
    if items.len() == 0 {
        init
    } else {
        match try_each(init, items.drop_last(), step) {
            Err(_) => reached(init, items.drop_last(), step),
            Ok(state) => match step(state, items.last()) {
                Ok(next) => next,
                Err(_) => state,
            },
        }
    }
}

/// Where an item fails, the last state reached is the state before it.
pub proof fn lemma_reached_failure<S, A, E>(
    init: S,
    items: Seq<A>,
    step: spec_fn(S, A) -> Result<S, E>,
    k: int,
    n: int,
)
    requires
        0 <= k < n <= items.len(),
        try_each(init, items.take(k), step) is Ok,
        step(try_each(init, items.take(k), step)->Ok_0, items[k]) is Err,
    ensures
        reached(init, items.take(n), step) == try_each(init, items.take(k), step)->Ok_0,
        try_each(init, items.take(n), step) is Err,
    decreases n - k,
{
    assert(items.take(n).drop_last() =~= items.take(n - 1));
    assert(items.take(n).last() == items[n - 1]);
    if n > k + 1 {
        lemma_reached_failure(init, items, step, k, n - 1);
    }
}

/// What holds of the first state, and is kept by every step that succeeds,
/// holds of the last state.
pub proof fn lemma_try_fold_keeps<S, A, B, E>(
    init: S,
    items: Seq<A>,
    step: spec_fn(S, A) -> Result<(B, S), E>,
    kept: spec_fn(S) -> bool,
)
    requires
        kept(init),
        forall|s: S, a: A|
            kept(s) && (#[trigger] step(s, a)) is Ok ==> kept(step(s, a)->Ok_0.1),
    ensures
        try_fold(init, items, step) is Ok ==> kept(try_fold(init, items, step)->Ok_0.1),
    decreases items.len(),
{
    if items.len() > 0 {
        lemma_try_fold_keeps(init, items.drop_last(), step, kept);
    }
}

/// What holds of the first state, and is kept by every step that succeeds,
/// holds of the last state.
pub proof fn lemma_try_each_keeps<S, A, E>(
    init: S,
    items: Seq<A>,
    step: spec_fn(S, A) -> Result<S, E>,
    kept: spec_fn(S) -> bool,
)
    requires
        kept(init),
        forall|s: S, a: A| kept(s) && (#[trigger] step(s, a)) is Ok ==> kept(step(s, a)->Ok_0),
    ensures
        try_each(init, items, step) is Ok ==> kept(try_each(init, items, step)->Ok_0),
    decreases items.len(),
{
    if items.len() > 0 {
        lemma_try_each_keeps(init, items.drop_last(), step, kept);
    }
}

/// What holds of the first state, and is kept by every step that succeeds,
/// holds of the last state; and what holds of every item that such a step
/// converts, holds of every item converted.
pub proof fn lemma_try_fold_items<S, A, B, E>(
    init: S,
    items: Seq<A>,
    step: spec_fn(S, A) -> Result<(B, S), E>,
    kept: spec_fn(S) -> bool,
    good: spec_fn(B) -> bool,
)
    requires
        kept(init),
        forall|s: S, a: A|
            kept(s) && (#[trigger] step(s, a)) is Ok ==> kept(step(s, a)->Ok_0.1) && good(
                step(s, a)->Ok_0.0,
            ),
    ensures
        try_fold(init, items, step) is Ok ==> kept(try_fold(init, items, step)->Ok_0.1)
            && forall|i: int|
            0 <= i < try_fold(init, items, step)->Ok_0.0.len() ==> good(
                #[trigger] try_fold(init, items, step)->Ok_0.0[i],
            ),
    decreases items.len(),
{
    if items.len() > 0 {
        lemma_try_fold_items(init, items.drop_last(), step, kept, good);
    }
}

/// What the items of a list yield, one after the other.
pub open spec fn flat_map<A, B>(items: Seq<A>, each: spec_fn(A) -> Seq<B>) -> Seq<B>
    decreases items.len(),
{
    if items.len() == 0 {
        Seq::empty()
    } else {
        flat_map(items.drop_last(), each) + each(items.last())
    }
}

/// What one more item adds.
pub proof fn lemma_flat_map_step<A, B>(items: Seq<A>, each: spec_fn(A) -> Seq<B>, i: int)
    requires
        0 <= i < items.len(),
    ensures
        flat_map(items.take(i + 1), each) == flat_map(items.take(i), each) + each(items[i]),
{
    assert(items.take(i + 1).drop_last() =~= items.take(i));
    assert(items.take(i + 1).last() == items[i]);
}

/// What no item yields, and what all of them do.
pub proof fn lemma_flat_map_ends<A, B>(items: Seq<A>, each: spec_fn(A) -> Seq<B>)
    ensures
        flat_map(items.take(0), each) == Seq::<B>::empty(),
        flat_map(items.take(items.len() as int), each) == flat_map(items, each),
{
    assert(items.take(items.len() as int) =~= items);
}

/// Going through a list of views is going through the list itself.
pub proof fn lemma_flat_map_views<A, V, B>(
    items: Seq<A>,
    view: spec_fn(A) -> V,
    each: spec_fn(V) -> Seq<B>,
    both: spec_fn(A) -> Seq<B>,
)
    requires
        forall|a: A| #[trigger] both(a) == each(view(a)),
    ensures
        flat_map(items.map_values(view), each) == flat_map(items, both),
    decreases items.len(),
{
    if items.len() > 0 {
        lemma_flat_map_views(items.drop_last(), view, each, both);
        assert(items.map_values(view).drop_last() =~= items.drop_last().map_values(view));
    }
}

/// An item of the list yields a part of what the list yields.
pub proof fn lemma_flat_map_contains<A, B>(items: Seq<A>, each: spec_fn(A) -> Seq<B>, i: int, b: B)
    requires
        0 <= i < items.len(),
        each(items[i]).contains(b),
    ensures
        flat_map(items, each).contains(b),
    decreases items.len(),
{
    let last = each(items.last());
    let front = flat_map(items.drop_last(), each);
    if i == items.len() - 1 {
        let k = choose|k: int| 0 <= k < last.len() && last[k] == b;
        assert((front + last)[front.len() + k] == b);
    } else {
        lemma_flat_map_contains(items.drop_last(), each, i, b);
        let k = choose|k: int| 0 <= k < front.len() && front[k] == b;
        assert((front + last)[k] == b);
    }
}

/// The place of the first item of a list that meets a condition.
pub open spec fn first_index<A>(items: Seq<A>, meets: spec_fn(A) -> bool) -> Option<int>
    decreases items.len(),
{
    if items.len() == 0 {
        None
    } else {
        match first_index(items.drop_last(), meets) {
            Some(i) => Some(i),
            None => if meets(items.last()) {
                Some(items.len() - 1)
            } else {
                None
            },
        }
    }
}

/// What the first place is: the item there meets the condition, and no item
/// before it does; and where there is no such place, no item meets it.
pub proof fn lemma_first_index<A>(items: Seq<A>, meets: spec_fn(A) -> bool)
    ensures
        match first_index(items, meets) {
            Some(i) => 0 <= i < items.len() && meets(items[i]) && forall|j: int|
                0 <= j < i ==> !meets(#[trigger] items[j]),
            None => forall|j: int| 0 <= j < items.len() ==> !meets(#[trigger] items[j]),
        },
    decreases items.len(),
{
    if items.len() > 0 {
        let front = items.drop_last();
        lemma_first_index(front, meets);
        match first_index(front, meets) {
            Some(i) => {
                assert(front[i] == items[i]);
                assert forall|j: int| 0 <= j < i implies !meets(#[trigger] items[j]) by {
                    assert(front[j] == items[j]);
                }
            },
            None => {
                assert forall|j: int| 0 <= j < items.len() - 1 implies !meets(
                    #[trigger] items[j],
                ) by {
                    assert(front[j] == items[j]);
                }
            },
        }
    }
}

/// The place at which the condition is met first is the first place.
pub proof fn lemma_first_index_at<A>(items: Seq<A>, meets: spec_fn(A) -> bool, i: int)
    requires
        0 <= i < items.len(),
        meets(items[i]),
        forall|j: int| 0 <= j < i ==> !meets(#[trigger] items[j]),
    ensures
        first_index(items, meets) == Some(i),
{
    lemma_first_index(items, meets);
}

/// Where no item meets the condition, there is no first place.
pub proof fn lemma_first_index_none<A>(items: Seq<A>, meets: spec_fn(A) -> bool)
    requires
        forall|j: int| 0 <= j < items.len() ==> !meets(#[trigger] items[j]),
    ensures
        first_index(items, meets) is None,
{
    lemma_first_index(items, meets);
}

/// The place of the first occurrence of a name in a list of names.
pub open spec fn position(names: Seq<Seq<char>>, name: Seq<char>) -> Option<int>
    decreases names.len(),
{
    if names.len() == 0 {
        None
    } else {
        match position(names.drop_last(), name) {
            Some(i) => Some(i),
            None => if names.last() == name {
                Some(names.len() - 1)
            } else {
                None
            },
        }
    }
}

/// What the place of a name is: the name stands there, and nowhere before; and
/// where it has no place, it stands nowhere.
pub proof fn lemma_position(names: Seq<Seq<char>>, name: Seq<char>)
    ensures
        match position(names, name) {
            Some(i) => 0 <= i < names.len() && names[i] == name && forall|j: int|
                0 <= j < i ==> (#[trigger] names[j]) != name,
            None => forall|j: int| 0 <= j < names.len() ==> (#[trigger] names[j]) != name,
        },
    decreases names.len(),
{
    if names.len() > 0 {
        let front = names.drop_last();
        lemma_position(front, name);
        match position(front, name) {
            Some(i) => {
                assert(front[i] == names[i]);
                assert forall|j: int| 0 <= j < i implies (#[trigger] names[j]) != name by {
                    assert(front[j] == names[j]);
                }
            },
            None => {
                assert forall|j: int| 0 <= j < names.len() - 1 implies (#[trigger] names[j])
                    != name by {
                    assert(front[j] == names[j]);
                }
            },
        }
    }
}

/// The views of the items of a list, in order.
pub open spec fn views<T: View>(items: Seq<T>) -> Seq<T::V> {
    items.map_values(|x: T| x@)
}

/// The references to the items of a list, in order.
pub fn refs<T>(items: &Vec<T>) -> (r: Vec<&T>)
    ensures
        r@.len() == items@.len(),
        forall|i: int| 0 <= i < r@.len() ==> *(#[trigger] r@[i]) == items@[i],
{
    let mut out: Vec<&T> = Vec::new();
    let mut i: usize = 0;
    while i < items.len()
        invariant
            i <= items@.len(),
            out@.len() == i,
            forall|j: int| 0 <= j < i ==> *(#[trigger] out@[j]) == items@[j],
        decreases items@.len() - i,
    {
        out.push(&items[i]);
        i += 1;
    }
    out
}

} // verus!
