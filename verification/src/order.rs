//! Putting things in order.

use vstd::prelude::*;

verus! {

/// Where an item goes in a list: in front of the first thing that it comes before.
pub open spec fn slot<V>(list: Seq<V>, item: V, before: spec_fn(V, V) -> bool) -> nat
    decreases list.len(),
{
    if list.len() == 0 || before(item, list[0]) {
        0
    } else {
        1 + slot(list.skip(1), item, before)
    }
}

/// A list with one more item in its place.
pub open spec fn placed<V>(list: Seq<V>, item: V, before: spec_fn(V, V) -> bool) -> Seq<V> {
    list.insert(slot(list, item, before) as int, item)
}

/// The items in order: each is put in its place among those that come earlier in `items`.
pub open spec fn arranged<V>(items: Seq<V>, before: spec_fn(V, V) -> bool) -> Seq<V>
    decreases items.len(),
{
    if items.len() == 0 {
        Seq::empty()
    } else {
        placed(arranged(items.drop_last(), before), items.last(), before)
    }
}

/// A slot is inside the list or at its end; the item comes before what stands there, and before nothing in
/// front of it.
pub proof fn slot_fits<V>(list: Seq<V>, item: V, before: spec_fn(V, V) -> bool)
    ensures
        slot(list, item, before) <= list.len(),
        slot(list, item, before) < list.len() ==> before(item, list[slot(list, item, before) as int]),
        forall|k: int| 0 <= k < slot(list, item, before) ==> !before(item, #[trigger] list[k]),
    decreases list.len(),
{
    if list.len() > 0 && !before(item, list[0]) {
        slot_fits(list.skip(1), item, before);
        assert forall|k: int| 0 <= k < slot(list, item, before) implies !before(item, #[trigger] list[k]) by {
            if k > 0 {
                assert(list[k] == list.skip(1)[k - 1]);
            }
        }
    }
}

/// A place with nothing but smaller or equal things in front of it and a greater one, or none, behind it is
/// the slot.
pub proof fn slot_found<V>(list: Seq<V>, item: V, before: spec_fn(V, V) -> bool, at: int)
    requires
        0 <= at <= list.len(),
        at < list.len() ==> before(item, list[at]),
        forall|k: int| 0 <= k < at ==> !before(item, #[trigger] list[k]),
    ensures
        slot(list, item, before) == at,
    decreases list.len(),
{
    if at > 0 {
        assert(!before(item, list[0]));
        assert forall|k: int| 0 <= k < at - 1 implies !before(item, #[trigger] list.skip(1)[k]) by {
            assert(list.skip(1)[k] == list[k + 1]);
        }
        slot_found(list.skip(1), item, before, at - 1);
    }
}

/// Whether `before` orders things: never both ways round, and what is not before something that is not before
/// a third is not before the third either.
pub open spec fn orders<V>(before: spec_fn(V, V) -> bool) -> bool {
    &&& forall|a: V, b: V| #[trigger] before(a, b) ==> !before(b, a)
    &&& forall|a: V, b: V, c: V|
        #![trigger before(b, a), before(c, b)]
        !before(b, a) && !before(c, b) ==> !before(c, a)
}

/// Whether no item of a list comes before an earlier one.
pub open spec fn in_order<V>(list: Seq<V>, before: spec_fn(V, V) -> bool) -> bool {
    forall|i: int, j: int| 0 <= i < j < list.len() ==> !before(#[trigger] list[j], #[trigger] list[i])
}

/// Putting an item in its place keeps a list in order.
pub proof fn placed_in_order<V>(list: Seq<V>, item: V, before: spec_fn(V, V) -> bool)
    requires
        orders(before),
        in_order(list, before),
    ensures
        in_order(placed(list, item, before), before),
{
    slot_fits(list, item, before);
    let at = slot(list, item, before) as int;
    let all = placed(list, item, before);
    assert forall|i: int, j: int| 0 <= i < j < all.len() implies !before(#[trigger] all[j], #[trigger] all[i]) by {
        if i < at && j < at {
            assert(all[i] == list[i] && all[j] == list[j]);
        } else if i < at && j == at {
            assert(all[i] == list[i] && all[j] == item);
        } else if i < at {
            assert(all[i] == list[i] && all[j] == list[j - 1]);
        } else if i == at {
            assert(all[i] == item && all[j] == list[j - 1]);
            if j - 1 > at {
                assert(!before(list[j - 1], list[at]));
                assert(!before(list[at], item));
            }
        } else {
            assert(all[i] == list[i - 1] && all[j] == list[j - 1]);
        }
    }
}

/// The arranged items are in order.
pub proof fn arranged_in_order<V>(items: Seq<V>, before: spec_fn(V, V) -> bool)
    requires
        orders(before),
    ensures
        in_order(arranged(items, before), before),
    decreases items.len(),
{
    if items.len() > 0 {
        arranged_in_order(items.drop_last(), before);
        placed_in_order(arranged(items.drop_last(), before), items.last(), before);
    }
}

/// The arranged items are the items, each as often as before.
pub proof fn arranged_keeps_all<V>(items: Seq<V>, before: spec_fn(V, V) -> bool)
    ensures
        arranged(items, before).len() == items.len(),
        arranged(items, before).to_multiset() == items.to_multiset(),
    decreases items.len(),
{
    broadcast use vstd::seq_lib::group_to_multiset_ensures;

    if items.len() > 0 {
        arranged_keeps_all(items.drop_last(), before);
        slot_fits(arranged(items.drop_last(), before), items.last(), before);
        assert(items =~= items.drop_last().push(items.last()));
        assert(items.to_multiset() =~= items.drop_last().to_multiset().insert(items.last()));
    }
}

/// Whether bytes stand in strictly ascending order.
pub open spec fn ascending_u8(values: Seq<u8>) -> bool {
    forall|i: int, j: int| 0 <= i < j < values.len() ==> #[trigger] values[i] < #[trigger] values[j]
}

/// Puts a value in its place among ascending values, unless it is there already.
pub fn insert_ascending_u8(values: &mut Vec<u8>, value: u8)
    requires
        ascending_u8(old(values)@),
    ensures
        ascending_u8(final(values)@),
        final(values)@.to_set() == old(values)@.to_set().insert(value),
{
    let ghost before = values@;
    let mut at: usize = values.len();
    while at > 0 && values[at - 1] > value
        invariant
            at <= values.len(),
            values@ == before,
            forall|k: int| at <= k < before.len() ==> value < #[trigger] before[k],
        decreases at,
    {
        at = at - 1;
    }
    if at > 0 && values[at - 1] == value {
        assert(before.to_set().contains(before[at - 1]));
        assert(before.to_set() =~= before.to_set().insert(value));
        return;
    }
    values.insert(at, value);
    proof {
        let after = values@;
        assert forall|i: int| 0 <= i < after.len() implies #[trigger] after[i] == if i < at {
            before[i]
        } else if i == at {
            value
        } else {
            before[i - 1]
        } by {}
        assert forall|v: u8| after.to_set().contains(v) <==> #[trigger] before.to_set().insert(value).contains(v) by {
            if after.contains(v) {
                let i = choose|i: int| 0 <= i < after.len() && after[i] == v;
                if i < at {
                    assert(before[i] == v);
                } else if i > at {
                    assert(before[i - 1] == v);
                }
            }
            if before.contains(v) {
                let i = choose|i: int| 0 <= i < before.len() && before[i] == v;
                if i < at {
                    assert(after[i] == v);
                } else {
                    assert(after[i + 1] == v);
                }
            }
            assert(after[at as int] == value);
        }
        assert(after.to_set() =~= before.to_set().insert(value));
    }
}

/// Whether 16-bit numbers stand in strictly ascending order.
pub open spec fn ascending_u16(values: Seq<u16>) -> bool {
    forall|i: int, j: int| 0 <= i < j < values.len() ==> #[trigger] values[i] < #[trigger] values[j]
}

/// Puts a value in its place among ascending values, unless it is there already.
pub fn insert_ascending_u16(values: &mut Vec<u16>, value: u16)
    requires
        ascending_u16(old(values)@),
    ensures
        ascending_u16(final(values)@),
        final(values)@.to_set() == old(values)@.to_set().insert(value),
{
    let ghost before = values@;
    let mut at: usize = values.len();
    while at > 0 && values[at - 1] > value
        invariant
            at <= values.len(),
            values@ == before,
            forall|k: int| at <= k < before.len() ==> value < #[trigger] before[k],
        decreases at,
    {
        at = at - 1;
    }
    if at > 0 && values[at - 1] == value {
        assert(before.to_set().contains(before[at - 1]));
        assert(before.to_set() =~= before.to_set().insert(value));
        return;
    }
    values.insert(at, value);
    proof {
        let after = values@;
        assert forall|i: int| 0 <= i < after.len() implies #[trigger] after[i] == if i < at {
            before[i]
        } else if i == at {
            value
        } else {
            before[i - 1]
        } by {}
        assert forall|v: u16| after.to_set().contains(v) <==> #[trigger] before.to_set().insert(value).contains(v) by {
            if after.contains(v) {
                let i = choose|i: int| 0 <= i < after.len() && after[i] == v;
                if i < at {
                    assert(before[i] == v);
                } else if i > at {
                    assert(before[i - 1] == v);
                }
            }
            if before.contains(v) {
                let i = choose|i: int| 0 <= i < before.len() && before[i] == v;
                if i < at {
                    assert(after[i] == v);
                } else {
                    assert(after[i + 1] == v);
                }
            }
            assert(after[at as int] == value);
        }
        assert(after.to_set() =~= before.to_set().insert(value));
    }
}

/// Whether 32-bit numbers stand in strictly ascending order.
pub open spec fn ascending_u32(values: Seq<u32>) -> bool {
    forall|i: int, j: int| 0 <= i < j < values.len() ==> #[trigger] values[i] < #[trigger] values[j]
}

/// Puts a value in its place among ascending values, unless it is there already.
pub fn insert_ascending_u32(values: &mut Vec<u32>, value: u32)
    requires
        ascending_u32(old(values)@),
    ensures
        ascending_u32(final(values)@),
        final(values)@.to_set() == old(values)@.to_set().insert(value),
{
    let ghost before = values@;
    let mut at: usize = values.len();
    while at > 0 && values[at - 1] > value
        invariant
            at <= values.len(),
            values@ == before,
            forall|k: int| at <= k < before.len() ==> value < #[trigger] before[k],
        decreases at,
    {
        at = at - 1;
    }
    if at > 0 && values[at - 1] == value {
        assert(before.to_set().contains(before[at - 1]));
        assert(before.to_set() =~= before.to_set().insert(value));
        return;
    }
    values.insert(at, value);
    proof {
        let after = values@;
        assert forall|i: int| 0 <= i < after.len() implies #[trigger] after[i] == if i < at {
            before[i]
        } else if i == at {
            value
        } else {
            before[i - 1]
        } by {}
        assert forall|v: u32| after.to_set().contains(v) <==> #[trigger] before.to_set().insert(value).contains(v) by {
            if after.contains(v) {
                let i = choose|i: int| 0 <= i < after.len() && after[i] == v;
                if i < at {
                    assert(before[i] == v);
                } else if i > at {
                    assert(before[i - 1] == v);
                }
            }
            if before.contains(v) {
                let i = choose|i: int| 0 <= i < before.len() && before[i] == v;
                if i < at {
                    assert(after[i] == v);
                } else {
                    assert(after[i + 1] == v);
                }
            }
            assert(after[at as int] == value);
        }
        assert(after.to_set() =~= before.to_set().insert(value));
    }
}

/// Ascending values with one more in its place, unless it is there already.
pub open spec fn with_value(values: Seq<u16>, value: u16) -> Seq<u16>
    decreases values.len(),
{
    if values.len() == 0 {
        seq![value]
    } else if value < values[0] {
        seq![value] + values
    } else if value == values[0] {
        values
    } else {
        seq![values[0]] + with_value(values.skip(1), value)
    }
}

/// The values in ascending order, each once.
pub open spec fn sorted_distinct(values: Seq<u16>) -> Seq<u16>
    decreases values.len(),
{
    if values.len() == 0 {
        Seq::empty()
    } else {
        with_value(sorted_distinct(values.drop_last()), values.last())
    }
}

/// Two ascending sequences of the same values are the same.
pub proof fn ascending_is_determined(a: Seq<u16>, b: Seq<u16>)
    requires
        ascending_u16(a),
        ascending_u16(b),
        a.to_set() == b.to_set(),
    ensures
        a == b,
    decreases a.len(),
{
    if a.len() == 0 {
        if b.len() > 0 {
            assert(b.to_set().contains(b[0]));
            assert(a.to_set().contains(b[0]));
        }
        assert(a =~= b);
    } else {
        assert(a.to_set().contains(a[0]));
        assert(b.contains(a[0]));
        assert(b.to_set().contains(b[0]));
        assert(a.contains(b[0]));
        assert(a[0] == b[0]);
        let ra = a.skip(1);
        let rb = b.skip(1);
        assert forall|i: int, j: int| 0 <= i < j < ra.len() implies #[trigger] ra[i] < #[trigger] ra[j] by {
            assert(a[i + 1] < a[j + 1]);
        }
        assert forall|i: int, j: int| 0 <= i < j < rb.len() implies #[trigger] rb[i] < #[trigger] rb[j] by {
            assert(b[i + 1] < b[j + 1]);
        }
        assert forall|v: u16| ra.to_set().contains(v) <==> #[trigger] rb.to_set().contains(v) by {
            if ra.contains(v) {
                let i = choose|i: int| 0 <= i < ra.len() && ra[i] == v;
                assert(a[i + 1] == v);
                assert(a.to_set().contains(v));
                assert(b.contains(v));
                let j = choose|j: int| 0 <= j < b.len() && b[j] == v;
                assert(a[0] < a[i + 1]);
                assert(j != 0);
                assert(rb[j - 1] == v);
            }
            if rb.contains(v) {
                let i = choose|i: int| 0 <= i < rb.len() && rb[i] == v;
                assert(b[i + 1] == v);
                assert(b.to_set().contains(v));
                assert(a.contains(v));
                let j = choose|j: int| 0 <= j < a.len() && a[j] == v;
                assert(b[0] < b[i + 1]);
                assert(j != 0);
                assert(ra[j - 1] == v);
            }
        }
        assert(ra.to_set() =~= rb.to_set());
        ascending_is_determined(ra, rb);
        assert(a =~= seq![a[0]] + ra);
        assert(b =~= seq![b[0]] + rb);
    }
}

/// One more value in its place keeps values ascending and adds just that value.
pub proof fn with_value_ascends(values: Seq<u16>, value: u16)
    requires
        ascending_u16(values),
    ensures
        ascending_u16(with_value(values, value)),
        with_value(values, value).to_set() == values.to_set().insert(value),
    decreases values.len(),
{
    let all = with_value(values, value);
    if values.len() == 0 {
        assert(all[0] == value);
        assert(all.to_set() =~= values.to_set().insert(value));
    } else if value < values[0] {
        assert forall|v: u16| all.to_set().contains(v) <==> #[trigger] values.to_set().insert(value).contains(v) by {
            assert(all[0] == value);
            if values.contains(v) {
                let i = choose|i: int| 0 <= i < values.len() && values[i] == v;
                assert(all[i + 1] == v);
            }
        }
        assert(all.to_set() =~= values.to_set().insert(value));
    } else if value == values[0] {
        assert(values.to_set().contains(values[0]));
        assert(all.to_set() =~= values.to_set().insert(value));
    } else {
        let rest = values.skip(1);
        assert forall|i: int, j: int| 0 <= i < j < rest.len() implies #[trigger] rest[i] < #[trigger] rest[j] by {
            assert(values[i + 1] < values[j + 1]);
        }
        with_value_ascends(rest, value);
        let more = with_value(rest, value);
        assert forall|j: int| 0 <= j < more.len() implies values[0] < #[trigger] more[j] by {
            assert(more.to_set().contains(more[j]));
            if more[j] != value {
                assert(rest.to_set().contains(more[j]));
                let i = choose|i: int| 0 <= i < rest.len() && rest[i] == more[j];
                assert(values[0] < values[i + 1]);
            }
        }
        assert forall|i: int, j: int| 0 <= i < j < all.len() implies #[trigger] all[i] < #[trigger] all[j] by {
            assert(all[j] == more[j - 1]);
            if i > 0 {
                assert(all[i] == more[i - 1]);
            }
        }
        assert forall|v: u16| all.to_set().contains(v) <==> #[trigger] values.to_set().insert(value).contains(v) by {
            if all.contains(v) {
                let i = choose|i: int| 0 <= i < all.len() && all[i] == v;
                if i > 0 {
                    assert(more[i - 1] == v);
                    assert(more.to_set().contains(v));
                    if v != value {
                        assert(rest.to_set().contains(v));
                        let k = choose|k: int| 0 <= k < rest.len() && rest[k] == v;
                        assert(values[k + 1] == v);
                    }
                } else {
                    assert(values[0] == v);
                }
            }
            if values.to_set().insert(value).contains(v) {
                if values.contains(v) && v != values[0] {
                    let k = choose|k: int| 0 <= k < values.len() && values[k] == v;
                    assert(rest[k - 1] == v);
                    assert(rest.to_set().contains(v));
                }
                if v == values[0] {
                    assert(all[0] == v);
                } else {
                    assert(more.to_set().contains(v));
                    let i = choose|i: int| 0 <= i < more.len() && more[i] == v;
                    assert(all[i + 1] == v);
                }
            }
        }
        assert(all.to_set() =~= values.to_set().insert(value));
    }
}

/// The sorted values ascend and are the values.
pub proof fn sorted_distinct_ascends(values: Seq<u16>)
    ensures
        ascending_u16(sorted_distinct(values)),
        sorted_distinct(values).to_set() == values.to_set(),
        sorted_distinct(values).len() <= values.len(),
    decreases values.len(),
{
    if values.len() > 0 {
        let front = values.drop_last();
        sorted_distinct_ascends(front);
        with_value_ascends(sorted_distinct(front), values.last());
        with_value_len(sorted_distinct(front), values.last());
        assert forall|v: u16| values.to_set().contains(v) <==> #[trigger] front.to_set().insert(values.last()).contains(
            v,
        ) by {
            if values.contains(v) {
                let i = choose|i: int| 0 <= i < values.len() && values[i] == v;
                if i < front.len() {
                    assert(front[i] == v);
                }
            }
            if front.contains(v) {
                let i = choose|i: int| 0 <= i < front.len() && front[i] == v;
                assert(values[i] == v);
            }
            assert(values[values.len() - 1] == values.last());
        }
        assert(values.to_set() =~= front.to_set().insert(values.last()));
    } else {
        assert(sorted_distinct(values).to_set() =~= values.to_set());
    }
}

proof fn with_value_len(values: Seq<u16>, value: u16)
    ensures
        values.len() <= with_value(values, value).len() <= values.len() + 1,
        with_value(values, value).len() > 0,
    decreases values.len(),
{
    if values.len() > 0 && value > values[0] {
        with_value_len(values.skip(1), value);
    }
}

/// Sorting what ascends already changes nothing.
pub proof fn sorted_distinct_keeps_ascending(values: Seq<u16>)
    requires
        ascending_u16(values),
    ensures
        sorted_distinct(values) == values,
{
    sorted_distinct_ascends(values);
    ascending_is_determined(sorted_distinct(values), values);
}

/// Puts a value in its place among ascending values, unless it is there already.
pub fn add_value(values: &mut Vec<u16>, value: u16)
    requires
        ascending_u16(old(values)@),
    ensures
        final(values)@ == with_value(old(values)@, value),
        ascending_u16(final(values)@),
{
    insert_ascending_u16(values, value);
    proof {
        with_value_ascends(old(values)@, value);
        ascending_is_determined(values@, with_value(old(values)@, value));
    }
}

/// The values in ascending order, each once.
pub fn sort_distinct(values: &Vec<u16>) -> (sorted: Vec<u16>)
    ensures
        sorted@ == sorted_distinct(values@),
{
    let mut sorted: Vec<u16> = Vec::new();
    let mut i: usize = 0;
    assert(values@.take(0) =~= Seq::empty());
    while i < values.len()
        invariant
            i <= values.len(),
            ascending_u16(sorted@),
            sorted@ == sorted_distinct(values@.take(i as int)),
        decreases values.len() - i,
    {
        add_value(&mut sorted, values[i]);
        assert(values@.take(i + 1).drop_last() =~= values@.take(i as int));
        i = i + 1;
    }
    assert(values@.take(values@.len() as int) =~= values@);
    sorted
}

/// The place of the first of `values` that is `value`, from `from` on.
pub open spec fn place_of(values: Seq<u16>, value: u16, from: int) -> Option<usize>
    decreases values.len() - from,
{
    if from < 0 || from >= values.len() {
        None
    } else if values[from] == value {
        Some(from as usize)
    } else {
        place_of(values, value, from + 1)
    }
}

/// The place of the first of `values` that is `value`.
pub fn find_value(values: &[u16], value: u16) -> (place: Option<usize>)
    ensures
        place == place_of(values@, value, 0),
        match place {
            Some(at) => at < values@.len() && values@[at as int] == value,
            None => !values@.contains(value),
        },
{
    let mut i: usize = 0;
    while i < values.len()
        invariant
            i <= values.len(),
            place_of(values@, value, 0) == place_of(values@, value, i as int),
            forall|k: int| 0 <= k < i ==> values@[k] != value,
        decreases values.len() - i,
    {
        if values[i] == value {
            return Some(i);
        }
        i = i + 1;
    }
    None
}

}
