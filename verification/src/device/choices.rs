//! What a mouse says of the sensitivities that it offers.

use vstd::prelude::*;

use crate::device::dpi::{
    capability_record, decoded_dpi_list, dpi_capabilities_at, dpi_pages_at, evenly_spaced, listed_values, progression,
};
use crate::error::Outcome;
use crate::hidpp::asking::{
    answered, at_index, first_feature_is_found, missing_feature_is_named, offers, read_gives_answer,
};
use crate::hidpp::features::FeatureView;
use crate::hidpp::session::{Step, Wire};
use crate::order::{ascending_u16, sorted_distinct, sorted_distinct_ascends};

verus! {

proof fn multiple_goes_on(distance: int, step: int)
    requires
        step > 0,
    ensures
        distance % step == 0 <==> (distance - step) % step == 0,
{
    vstd::arithmetic::div_mod::lemma_mod_sub_multiples_vanish(distance, step);
}

/// The values of a range go from its start to its end in whole steps.
pub proof fn range_goes_in_steps(start: int, step: int, maximum: int, value: u16)
    requires
        step > 0,
        0 <= start,
        maximum <= 65535,
    ensures
        progression(start, step, maximum).contains(value) <==> start <= value <= maximum && (value - start) % step == 0,
    decreases maximum + step + 1 - start,
{
    if start <= maximum {
        range_goes_in_steps(start + step, step, maximum, value);
        let rest = progression(start + step, step, maximum);
        let all = progression(start, step, maximum);
        assert(all == seq![start as u16] + rest);
        multiple_goes_on(value - start, step);
        assert(all[0] == start as u16);
        if rest.contains(value) {
            let i = choose|i: int| 0 <= i < rest.len() && rest[i] == value;
            assert(all[i + 1] == value);
        }
        if all.contains(value) && value != start {
            let i = choose|i: int| 0 <= i < all.len() && all[i] == value;
            assert(rest[i - 1] == value);
        }
        if start <= value < start + step && value != start {
            assert((value - start) % step != 0) by {
                vstd::arithmetic::div_mod::lemma_small_mod((value - start) as nat, step as nat);
            }
        }
        if value == start {
            assert((value - start) % step == 0) by {
                vstd::arithmetic::div_mod::lemma_small_mod(0, step as nat);
            }
        }
    }
}

/// A list of sensitivities ends where no whole word is left, or at a word of zero.
pub proof fn list_ends(bytes: Seq<u8>, offset: int, values: Seq<u16>)
    requires
        0 <= offset,
        offset + 1 >= bytes.len() || (bytes[offset] == 0 && bytes[offset + 1] == 0),
    ensures
        listed_values(bytes, offset, values) == Outcome::Ok(values),
{
}

/// A word from 1 to 0xdfff, high byte first, is a sensitivity.
pub proof fn list_goes_on_with_value(bytes: Seq<u8>, offset: int, values: Seq<u16>, value: u16)
    requires
        0 <= offset,
        offset + 1 < bytes.len(),
        256 * bytes[offset] + bytes[offset + 1] == value,
        1 <= value < 0xe000,
    ensures
        listed_values(bytes, offset, values) == listed_values(bytes, offset + 2, values.push(value)),
{
}

/// A word of 0xe000 and more tells the step of a range from the last sensitivity on; the word behind it is its end.
/// Every value that whole steps lead to, up to the end, is on the list.
pub proof fn list_goes_on_with_range(
    bytes: Seq<u8>,
    offset: int,
    values: Seq<u16>,
    step: int,
    end: u16,
) -> (more: Seq<u16>)
    requires
        0 <= offset,
        offset + 3 < bytes.len(),
        256 * bytes[offset] + bytes[offset + 1] == 0xe000 + step,
        256 * bytes[offset + 2] + bytes[offset + 3] == end,
        step > 0,
        values.len() > 0,
        values.last() + step <= end,
    ensures
        listed_values(bytes, offset, values) == listed_values(bytes, offset + 4, values + more),
        forall|value: u16| #[trigger]
            more.contains(value) <==> values.last() < value <= end && (value - values.last()) % step == 0,
{
    let last = values.last() as int;
    let more = progression(last + step, step, end as int);
    assert forall|value: u16| #[trigger] more.contains(value) <==> last < value <= end && (value - last) % step
        == 0 by {
        range_goes_in_steps(last + step, step, end as int, value);
        multiple_goes_on(value - last, step);
        if last < value < last + step {
            vstd::arithmetic::div_mod::lemma_small_mod((value - last) as nat, step as nat);
        }
    }
    more
}

/// A range without a step, without an end, without a sensitivity before it, or that ends before its first step, makes
/// the list invalid.
pub proof fn broken_range_is_an_error(bytes: Seq<u8>, offset: int, values: Seq<u16>, step: int)
    requires
        0 <= offset,
        offset + 1 < bytes.len(),
        256 * bytes[offset] + bytes[offset + 1] == 0xe000 + step,
        step == 0 || offset + 3 >= bytes.len() || values.len() == 0 || (0 < step && 256 * bytes[offset + 2]
            + bytes[offset + 3] < values.last() + step && values.last() + step <= 65535),
        step >= 0,
    ensures
        listed_values(bytes, offset, values) is Err,
{
}

/// The list is in ascending order, holds each sensitivity once, and no other.
pub proof fn list_is_sorted(bytes: Seq<u8>, value: u16)
    ensures
        decoded_dpi_list(bytes) is Ok <==> listed_values(bytes, 0, Seq::empty()) is Ok,
        decoded_dpi_list(bytes) matches Ok(list) ==> (list.contains(value) <==> listed_values(
            bytes,
            0,
            Seq::empty(),
        )->Ok_0.contains(value)) && forall|i: int, j: int|
            0 <= i < j < list.len() ==> #[trigger] list[i] < #[trigger] list[j],
{
    if let Ok(values) = listed_values(bytes, 0, Seq::empty()) {
        sorted_distinct_ascends(values);
        assert(sorted_distinct(values).to_set().contains(value) <==> values.to_set().contains(value));
    }
}

/// A list of one range holds exactly the sensitivities from its start to its end in whole steps.
pub proof fn single_range_is_offered(bytes: Seq<u8>, start: u16, step: int, end: u16, value: u16)
    requires
        bytes.len() >= 6,
        256 * bytes[0] + bytes[1] == start,
        256 * bytes[2] + bytes[3] == 0xe000 + step,
        256 * bytes[4] + bytes[5] == end,
        bytes.len() < 8 || (bytes[6] == 0 && bytes[7] == 0),
        1 <= start < 0xe000,
        step > 0,
        start + step <= end,
    ensures
        decoded_dpi_list(bytes) matches Ok(list) && (list.contains(value) <==> start <= value <= end && (value - start)
            % step == 0),
{
    let none = Seq::<u16>::empty();
    list_goes_on_with_value(bytes, 0, none, start);
    let first = none.push(start);
    let more = list_goes_on_with_range(bytes, 2, first, step, end);
    list_ends(bytes, 6, first + more);
    list_is_sorted(bytes, value);
    let all = first + more;
    assert(all[0] == start);
    if more.contains(value) {
        let i = choose|i: int| 0 <= i < more.len() && more[i] == value;
        assert(all[i + 1] == value);
    }
    if all.contains(value) && value != start {
        let i = choose|i: int| 0 <= i < all.len() && all[i] == value;
        assert(more[i - 1] == value);
    }
    if value == start {
        vstd::arithmetic::div_mod::lemma_small_mod(0, step as nat);
    }
}

/// The list comes in pages, asked for with the sensor, the direction and the number of the page. The list is over with
/// the page that brings two zeros on end; the start of a reply that repeats the question is passed over.
pub proof fn pages_are_asked_for_in_turn(
    wire: Wire,
    at: int,
    feature_index: u8,
    function: u8,
    direction: u8,
    ignore: int,
    page: u8,
    encoded: Seq<u8>,
    reply: Seq<u8>,
    next: int,
)
    requires
        ignore >= 0,
        answered(wire, at, feature_index, function as int, seq![0u8, direction, page], reply, next),
    ensures
        ({
            let step = dpi_pages_at(wire, at, feature_index, function, direction, ignore, page as int, encoded);
            let all = encoded + reply.skip(ignore);
            if reply.len() <= ignore {
                step matches Step::Failed { next: end, .. } && end == next
            } else if exists|i: int| 0 <= i < all.len() - 1 && #[trigger] all[i] == 0 && all[i + 1] == 0 {
                match decoded_dpi_list(all) {
                    Ok(list) => step == (Step::Done { value: list, next }),
                    Err(error) => step == (Step::<Seq<u16>>::Failed { error, next }),
                }
            } else {
                step == dpi_pages_at(wire, next, feature_index, function, direction, ignore, page + 1, all)
            }
        }),
{
    read_gives_answer(wire, at, feature_index, function, seq![0u8, direction, page], reply, next);
}

/// What is told of a list: its first and its last sensitivity, and the distance between neighbours where all have the
/// same. An empty list is an error.
pub proof fn list_is_summed_up(
    feature: Seq<char>,
    x_values: Seq<u16>,
    y_values: Option<Seq<u16>>,
    separate_xy: bool,
    lift_off_distance: bool,
)
    requires
        ascending_u16(x_values),
    ensures
        match capability_record(feature, x_values, y_values, separate_xy, lift_off_distance) {
            Err(_) => x_values.len() == 0,
            Ok(told) => {
                &&& x_values.len() > 0
                &&& told.feature == feature
                &&& told.x_values == x_values
                &&& told.y_values == y_values
                &&& told.separate_xy == separate_xy
                &&& told.lift_off_distance == lift_off_distance
                &&& x_values.contains(told.minimum) && x_values.contains(told.maximum)
                &&& forall|i: int| 0 <= i < x_values.len() ==> told.minimum <= #[trigger] x_values[i] <= told.maximum
                &&& match told.step {
                    Some(step) => x_values.len() >= 2 && forall|i: int|
                        0 <= i < x_values.len() - 1 ==> (#[trigger] x_values[i]) + step == x_values[i + 1],
                    None => x_values.len() == 1 || exists|i: int|
                        0 <= i < x_values.len() - 1 && x_values[i + 1] - (#[trigger] x_values[i]) != x_values[1]
                            - x_values[0],
                }
            },
        },
{
    if x_values.len() > 0 {
        assert(x_values[0] == capability_record(feature, x_values, y_values, separate_xy, lift_off_distance)->Ok_0.minimum);
        assert(x_values[x_values.len() - 1] == x_values.last());
        if x_values.len() >= 2 {
            let distance = x_values[1] - x_values[0];
            if !evenly_spaced(x_values, distance, 0) {
                let i = choose|i: int|
                    0 <= i < x_values.len() - 1 && #[trigger] x_values[i] + distance != x_values[i + 1];
                assert(x_values[i + 1] - x_values[i] != x_values[1] - x_values[0]);
            }
        }
    }
}

/// A mouse with the plain feature alone is asked for its list with function 1 of it, for direction 0, and each reply
/// repeats the sensor in its first byte. The one list is for both directions.
pub proof fn plain_list_is_read(wire: Wire, at: int, features: Seq<FeatureView>, index: u8)
    requires
        !offers(features, 0x2202),
        at_index(features, 0x2201, index),
        dpi_pages_at(wire, at, index, 0x10, 0, 1, 0, Seq::empty()) is Done,
    ensures
        ({
            let list = dpi_pages_at(wire, at, index, 0x10, 0, 1, 0, Seq::empty());
            match dpi_capabilities_at(wire, at, features) {
                Step::Done { value, next } => list->value.len() > 0 && next == list->Done_next && value.x_values
                    == list->value && value.y_values is None && !value.separate_xy && !value.lift_off_distance,
                Step::Failed { next, .. } => list->value.len() == 0 && next == list->Done_next,
                Step::Astray => false,
            }
        }),
{
    reveal(dpi_capabilities_at);
    first_feature_is_found(features, 0x2202);
    missing_feature_is_named(features, 0x2201);
}

/// A mouse with the extended feature tells with function 1 of it what it can do: the lowest bit of the third byte, that
/// it has a list for each direction, the next one, that it has a lift-off distance. Its lists are asked for with
/// function 2, and each reply repeats the question in its first three bytes.
pub proof fn extended_lists_are_read(
    wire: Wire,
    at: int,
    features: Seq<FeatureView>,
    index: u8,
    reply: Seq<u8>,
    next: int,
)
    requires
        at_index(features, 0x2202, index),
        answered(wire, at, index, 0x10, seq![0u8], reply, next),
        reply.len() >= 3,
        dpi_pages_at(wire, next, index, 0x20, 0, 3, 0, Seq::empty()) is Done,
        dpi_pages_at(wire, next, index, 0x20, 0, 3, 0, Seq::empty())->value.len() > 0,
    ensures
        ({
            let along = dpi_pages_at(wire, next, index, 0x20, 0, 3, 0, Seq::empty());
            let across = dpi_pages_at(wire, along->Done_next, index, 0x20, 1, 3, 0, Seq::empty());
            let told = dpi_capabilities_at(wire, at, features);
            if reply[2] % 2 == 0 {
                &&& told is Done
                &&& told->Done_next == along->Done_next
                &&& told->value.x_values == along->value
                &&& told->value.y_values is None
                &&& !told->value.separate_xy
                &&& told->value.lift_off_distance == ((reply[2] / 2) % 2 == 1)
            } else {
                across is Done ==> {
                    &&& told is Done
                    &&& told->Done_next == across->Done_next
                    &&& told->value.x_values == along->value
                    &&& told->value.y_values == Some(across->value)
                    &&& told->value.separate_xy
                    &&& told->value.lift_off_distance == ((reply[2] / 2) % 2 == 1)
                }
            }
        }),
{
    reveal(dpi_capabilities_at);
    first_feature_is_found(features, 0x2202);
    read_gives_answer(wire, at, index, 0x10, seq![0u8], reply, next);
    let flags = reply[2];
    assert((flags & 0x01 != 0) == (flags % 2 == 1)) by (bit_vector);
    assert((flags & 0x02 != 0) == ((flags / 2) % 2 == 1)) by (bit_vector);
}

}
