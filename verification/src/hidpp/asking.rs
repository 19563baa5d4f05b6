//! What goes over the wire when a feature of a device is asked, and what the answers mean.

use vstd::prelude::*;

use crate::bytes::{high_of, low_of, word_of};
use crate::error::{ErrorView, Outcome};
use crate::hidpp::features::{
    discovery_at, find_feature, listed, listing_at, looked_up, lookup_at, name_of_feature, required_feature,
    FeatureView,
};
use crate::hidpp::session::{call_at, read_at, Request, Step, Wire};

verus! {

/// Whether an exchange of a record asks a feature of the device, by its index, for one of its functions, in a long
/// report that is answered.
pub open spec fn asked(wire: Wire, at: int, feature_index: u8, function: int, parameters: Seq<u8>) -> bool {
    &&& 0 <= at < wire.exchanges.len()
    &&& wire.exchanges[at].request.device_index == wire.device_index
    &&& wire.exchanges[at].request.feature_index == feature_index
    &&& wire.exchanges[at].request.function == function
    &&& wire.exchanges[at].request.parameters == parameters
    &&& wire.exchanges[at].request.long
    &&& wire.exchanges[at].awaits_reply
}

/// Whether an exchange brought a reply.
pub open spec fn replied(wire: Wire, at: int, reply: Seq<u8>) -> bool {
    wire.exchanges[at].reply == Outcome::Ok(reply)
}

/// Whether the time of an exchange ran out.
pub open spec fn ran_out(wire: Wire, at: int) -> bool {
    wire.exchanges[at].reply matches Err(error) && error is Timeout
}

/// Whether a call was made at a place of a record and brought a reply.
pub open spec fn called(
    wire: Wire,
    at: int,
    feature_index: u8,
    function: int,
    parameters: Seq<u8>,
    reply: Seq<u8>,
) -> bool {
    &&& asked(wire, at, feature_index, function, parameters)
    &&& !wire.exchanges[at].retry
    &&& replied(wire, at, reply)
}

/// Whether a question that may be put twice was put at a place of a record, and brought a reply: at once, or when its
/// time ran out and it was put again. The record goes on at the next place.
pub open spec fn answered(
    wire: Wire,
    at: int,
    feature_index: u8,
    function: int,
    parameters: Seq<u8>,
    reply: Seq<u8>,
    next: int,
) -> bool {
    &&& asked(wire, at, feature_index, function, parameters)
    &&& !wire.exchanges[at].retry
    &&& if next == at + 1 {
        replied(wire, at, reply)
    } else {
        &&& next == at + 2
        &&& ran_out(wire, at)
        &&& asked(wire, at + 1, feature_index, function, parameters)
        &&& wire.exchanges[at + 1].retry
        &&& replied(wire, at + 1, reply)
    }
}

/// Whether a question with a single parameter was put and brought a reply.
pub open spec fn answered_of(
    wire: Wire,
    at: int,
    feature_index: u8,
    function: int,
    parameter: u8,
    reply: Seq<u8>,
    next: int,
) -> bool {
    answered(wire, at, feature_index, function, seq![parameter], reply, next)
}

/// A call gives the reply of its exchange, and the record goes on behind it.
pub proof fn call_gives_reply(
    wire: Wire,
    at: int,
    feature_index: u8,
    function: u8,
    parameters: Seq<u8>,
    reply: Seq<u8>,
    next: int,
)
    ensures
        call_at(wire, at, feature_index, function, parameters) == (Step::Done { value: reply, next }) <==> called(
            wire,
            at,
            feature_index,
            function as int,
            parameters,
            reply,
        ) && next == at + 1,
{
    if called(wire, at, feature_index, function as int, parameters, reply) {
        assert(wire.exchanges[at].request == (Request {
            device_index: wire.device_index,
            feature_index,
            function,
            parameters,
            long: true,
        }));
    }
}

/// A question gives the reply that it brought, at once or when it was put again.
pub proof fn read_gives_answer(
    wire: Wire,
    at: int,
    feature_index: u8,
    function: u8,
    parameters: Seq<u8>,
    reply: Seq<u8>,
    next: int,
)
    ensures
        read_at(wire, at, feature_index, function, parameters) == (Step::Done { value: reply, next }) <==> answered(
            wire,
            at,
            feature_index,
            function as int,
            parameters,
            reply,
            next,
        ),
{
    let request = Request { device_index: wire.device_index, feature_index, function, parameters, long: true };
    if asked(wire, at, feature_index, function as int, parameters) {
        assert(wire.exchanges[at].request == request);
    }
    if asked(wire, at + 1, feature_index, function as int, parameters) {
        assert(wire.exchanges[at + 1].request == request);
    }
}

/// Whether a device has a feature, by its ID.
pub open spec fn offers(features: Seq<FeatureView>, id: int) -> bool {
    exists|i: int| 0 <= i < features.len() && #[trigger] features[i].id == id
}

/// Whether the first feature with an ID has an index.
pub open spec fn at_index(features: Seq<FeatureView>, id: int, index: u8) -> bool {
    exists|i: int|
        0 <= i < features.len() && #[trigger] features[i].id == id && features[i].index == index && forall|j: int|
            0 <= j < i ==> #[trigger] features[j].id != id
}

/// A feature is found exactly where the device has it, and it is the first one with its ID.
pub proof fn first_feature_is_found(features: Seq<FeatureView>, id: u16)
    ensures
        find_feature(features, id) is Some <==> offers(features, id as int),
        find_feature(features, id) matches Some(feature) ==> feature.id == id && at_index(
            features,
            id as int,
            feature.index,
        ) && features.contains(feature),
        forall|index: u8| #[trigger]
            at_index(features, id as int, index) ==> (find_feature(features, id) matches Some(feature) && feature.index
                == index),
    decreases features.len(),
{
    if features.len() > 0 {
        let rest = features.skip(1);
        first_feature_is_found(rest, id);
        assert forall|i: int| 0 <= i < rest.len() implies #[trigger] rest[i] == features[i + 1] by {}
        if features[0].id != id {
            if offers(features, id as int) {
                let i = choose|i: int| 0 <= i < features.len() && #[trigger] features[i].id == id;
                assert(rest[i - 1].id == id);
            }
            if let Some(feature) = find_feature(features, id) {
                let i = choose|i: int|
                    0 <= i < rest.len() && #[trigger] rest[i].id == id as int && rest[i].index == feature.index
                        && forall|j: int| 0 <= j < i ==> #[trigger] rest[j].id != id as int;
                assert(features[i + 1].id == id && features[i + 1].index == feature.index);
                assert forall|j: int| 0 <= j < i + 1 implies #[trigger] features[j].id != id as int by {
                    if j > 0 {
                        assert(rest[j - 1].id != id as int);
                    }
                }
                let k = choose|k: int| 0 <= k < rest.len() && rest[k] == feature;
                assert(features[k + 1] == feature);
            }
            assert forall|index: u8| #[trigger] at_index(features, id as int, index) implies (find_feature(
                features,
                id,
            ) matches Some(feature) && feature.index == index) by {
                let i = choose|i: int|
                    0 <= i < features.len() && #[trigger] features[i].id == id as int && features[i].index == index
                        && forall|j: int| 0 <= j < i ==> #[trigger] features[j].id != id as int;
                assert(rest[i - 1].id == id && rest[i - 1].index == index);
                assert forall|j: int| 0 <= j < i - 1 implies #[trigger] rest[j].id != id as int by {
                    assert(features[j + 1].id != id as int);
                }
                assert(at_index(rest, id as int, index));
            }
        } else {
            assert(features[0].id == id);
            assert(at_index(features, id as int, features[0].index));
        }
    }
}

/// A feature that is required and missing is an error that names its ID; one that is there is given.
pub proof fn missing_feature_is_named(features: Seq<FeatureView>, id: u16)
    ensures
        match required_feature(features, id) {
            Ok(feature) => feature.id == id && at_index(features, id as int, feature.index),
            Err(error) => !offers(features, id as int) && (error matches ErrorView::UnsupportedFeature { id: named, .. }
                && named == id),
        },
        offers(features, id as int) <==> required_feature(features, id) is Ok,
        forall|index: u8| #[trigger]
            at_index(features, id as int, index) ==> (required_feature(features, id) matches Ok(feature)
                && feature.index == index),
{
    first_feature_is_found(features, id);
}

/// The bytes of a word: its high byte times 256 and its low byte make it up, and nothing else does.
pub proof fn bytes_make_word(high: u8, low: u8, word: u16)
    ensures
        256 * high + low == word <==> high == high_of(word) && low == low_of(word),
        256 * high_of(word) + low_of(word) == word,
        word_of(high, low) == 256 * high + low,
{
}

/// A feature is looked up by its ID, high byte first, with the first function of the feature at index 0. The reply has
/// its index, its type and its version.
pub proof fn lookup_asks_for_id(wire: Wire, at: int, id: u16, high: u8, low: u8, reply: Seq<u8>, next: int)
    requires
        256 * high + low == id,
        answered(wire, at, 0, 0x00, seq![high, low], reply, next),
    ensures
        reply.len() >= 3 ==> (lookup_at(wire, at, id) matches Step::Done { value, next: end } && end == next && value.id
            == id && value.index == reply[0] && value.feature_type == reply[1] && value.version == reply[2]),
        reply.len() < 3 ==> (lookup_at(wire, at, id) matches Step::Failed { next: end, .. } && end == next),
{
    bytes_make_word(high, low, id);
    read_gives_answer(wire, at, 0, 0x00, seq![high, low], reply, next);
}

/// Whether a feature is what a reply says of it: its ID, high byte first, its type and its version.
pub open spec fn says_feature(reply: Seq<u8>, index: int, feature: FeatureView) -> bool {
    &&& reply.len() >= 4
    &&& feature.index == index
    &&& feature.id == 256 * reply[0] + reply[1]
    &&& feature.feature_type == reply[2]
    &&& feature.version == reply[3]
}

/// Whether a record tells of a feature what a listing says: the set was asked for it by its index.
pub open spec fn told_of(wire: Wire, from: int, to: int, set_index: u8, feature: FeatureView) -> bool {
    exists|at: int, next: int, reply: Seq<u8>|
        from <= at < next <= to && #[trigger] answered_of(
            wire,
            at,
            set_index,
            0x10,
            feature.index,
            reply,
            next,
        ) && says_feature(reply, feature.index as int, feature)
}

proof fn listing_tells_of_each(
    wire: Wire,
    from: int,
    at: int,
    set_index: u8,
    index: int,
    count: int,
    known: Seq<FeatureView>,
)
    requires
        0 <= index == known.len() <= count + 1 <= 256,
        from <= at,
        forall|k: int|
            0 <= k < known.len() ==> (#[trigger] known[k]).index == k && told_of(wire, from, at, set_index, known[k]),
    ensures
        listing_at(wire, at, set_index, index, count, known) matches Step::Done { value, next } ==> {
            &&& value.len() == count + 1
            &&& at <= next
            &&& forall|k: int|
                0 <= k < value.len() ==> (#[trigger] value[k]).index == k && told_of(
                    wire,
                    from,
                    next,
                    set_index,
                    value[k],
                )
        },
    decreases count + 1 - index,
{
    if index <= count {
        if let Step::Done { value: reply, next } = read_at(wire, at, set_index, 0x10, seq![index as u8]) {
            read_gives_answer(wire, at, set_index, 0x10, seq![index as u8], reply, next);
            if let Ok(feature) = listed(index as u8, reply) {
                bytes_make_word(reply[0], reply[1], feature.id);
                let more = known.push(feature);
                assert(says_feature(reply, feature.index as int, feature));
                assert(answered_of(wire, at, set_index, 0x10, feature.index, reply, next));
                assert forall|k: int| 0 <= k < more.len() implies (#[trigger] more[k]).index == k && told_of(
                    wire,
                    from,
                    next,
                    set_index,
                    more[k],
                ) by {
                    if k < known.len() {
                        let (a, n, r) = choose|a: int, n: int, r: Seq<u8>|
                            from <= a < n <= at && #[trigger] answered_of(
                                wire,
                                a,
                                set_index,
                                0x10,
                                known[k].index,
                                r,
                                n,
                            ) && says_feature(r, known[k].index as int, known[k]);
                        assert(known[k] == more[k]);
                        assert(answered_of(wire, a, set_index, 0x10, more[k].index, r, n));
                    }
                }
                listing_tells_of_each(wire, from, next, set_index, index + 1, count, more);
            }
        }
    }
}

/// A listing of the features starts with where the feature set is, asked for by its ID, and with how many features there
/// are beside the first. It holds that many and one more, in the order of their indexes, each as the set tells of it.
/// The law gives the two replies at the start and where the record goes on behind each.
pub proof fn listing_holds_every_feature(wire: Wire, at: int) -> (start: (Seq<u8>, int, Seq<u8>, int))
    requires
        discovery_at(wire, at) is Done,
    ensures
        ({
            let (found, counting, count, listing) = start;
            let (value, next) = (discovery_at(wire, at)->value, discovery_at(wire, at)->Done_next);
            &&& answered(wire, at, 0, 0x00, seq![0u8, 1u8], found, counting)
            &&& found.len() >= 3 && found[0] != 0
            &&& answered(wire, counting, found[0], 0x00, Seq::empty(), count, listing)
            &&& count.len() >= 1
            &&& value.len() == count[0] + 1
            &&& forall|k: int|
                0 <= k < value.len() ==> (#[trigger] value[k]).index == k && told_of(
                    wire,
                    listing,
                    next,
                    found[0],
                    value[k],
                )
        }),
{
    reveal(discovery_at);
    let id: u16 = 0x0001;
    bytes_make_word(0, 1, id);
    assert(high_of(id) == 0 && low_of(id) == 1);
    let set = lookup_at(wire, at, id)->value;
    let counting = lookup_at(wire, at, id)->Done_next;
    let found = read_at(wire, at, 0, 0x00, seq![0u8, 1u8])->value;
    read_gives_answer(wire, at, 0, 0x00, seq![0u8, 1u8], found, counting);
    let count = read_at(wire, counting, set.index, 0x00, Seq::empty())->value;
    let listing = read_at(wire, counting, set.index, 0x00, Seq::empty())->Done_next;
    read_gives_answer(wire, counting, set.index, 0x00, Seq::empty(), count, listing);
    listing_tells_of_each(wire, listing, listing, set.index, 0, count[0] as int, Seq::empty());
    (found, counting, count, listing)
}

/// What the features are called.
pub proof fn features_have_names(id: u16)
    ensures
        name_of_feature(id) == (match id {
            0x0000 => "ROOT"@,
            0x0001 => "FEATURE_SET"@,
            0x0002 => "FEATURE_INFO"@,
            0x0003 => "DEVICE_FW_VERSION"@,
            0x0004 => "DEVICE_UNIT_ID"@,
            0x0005 => "DEVICE_NAME"@,
            0x0007 => "DEVICE_FRIENDLY_NAME"@,
            0x0020 => "CONFIG_CHANGE"@,
            0x1000 => "BATTERY_STATUS"@,
            0x1001 => "BATTERY_VOLTAGE"@,
            0x1004 => "UNIFIED_BATTERY"@,
            0x1500 => "FORCE_PAIRING"@,
            0x1802 => "DEVICE_RESET"@,
            0x1805 => "OOBSTATE"@,
            0x1806 => "CONFIG_DEVICE_PROPS"@,
            0x1d4b => "WIRELESS_DEVICE_STATUS"@,
            0x1e00 => "ENABLE_HIDDEN_FEATURES"@,
            0x2201 => "ADJUSTABLE_DPI"@,
            0x2202 => "EXTENDED_ADJUSTABLE_DPI"@,
            0x2250 => "XY_STATS"@,
            0x2251 => "WHEEL_STATS"@,
            0x8060 => "REPORT_RATE"@,
            0x8061 => "EXTENDED_ADJUSTABLE_REPORT_RATE"@,
            0x8070 => "COLOR_LED_EFFECTS"@,
            0x8071 => "RGB_EFFECTS"@,
            0x8090 => "MODE_STATUS"@,
            0x80e0 => "BUNNY_HOPPING"@,
            0x8100 => "ONBOARD_PROFILES"@,
            0x8110 => "MOUSE_BUTTON_SPY"@,
            _ => "UNKNOWN"@,
        }),
{
}

/// A feature that is looked up or listed is called by its ID.
pub proof fn listed_features_have_names(id: u16, index: u8, reply: Seq<u8>)
    ensures
        looked_up(id, reply) matches Ok(feature) ==> feature.name == name_of_feature(feature.id),
        listed(index, reply) matches Ok(feature) ==> feature.name == name_of_feature(feature.id),
        looked_up(id, reply) is Ok <==> reply.len() >= 3,
        listed(index, reply) is Ok <==> reply.len() >= 4,
{
}

}
