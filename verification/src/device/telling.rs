//! What a mouse says of its battery, its name, its firmware and its numbers.

use vstd::prelude::*;

use crate::device::DeviceView;
use crate::device::battery::{battery_at, charge_at, charge_from};
use crate::device::identity::{
    connection_ids, device_name_at, firmware_at, firmware_of, firmware_records_at, identity_at, identity_of, ids_at,
    name_fragments_at, up_to_zero, without_nulls, DeviceIdsView, FirmwareView, TransportIdView,
};
use crate::hexcode::hex_text;
use crate::hidpp::asking::{
    answered, answered_of, at_index, first_feature_is_found, missing_feature_is_named, offers, read_gives_answer,
};
use crate::hidpp::features::FeatureView;
use crate::hidpp::session::{read_at, Step, Wire};
use crate::text::{dec, hex2, hex4};
use crate::utf8::text_or_lossy;
use vstd::utf8::{decode_utf8, valid_utf8};

verus! {

/// What a charging state is called.
pub open spec fn charging(status: u8) -> Seq<char> {
    match status {
        0 => "discharging"@,
        1 => "recharging"@,
        2 => "almost-full"@,
        3 => "full"@,
        4 => "slow-recharge"@,
        5 => "invalid-battery"@,
        6 => "thermal-error"@,
        _ => "unknown"@,
    }
}

/// What the bits of a charge level are called.
pub open spec fn level(bits: u8) -> Seq<char> {
    match bits {
        8 => "full"@,
        4 => "good"@,
        2 => "low"@,
        1 => "critical"@,
        _ => "empty"@,
    }
}

/// A mouse with the unified feature tells its battery with function 1 of it: the charge in percent, zero where it does
/// not know it, the level, and the charging state.
pub proof fn unified_battery_is_read(
    wire: Wire,
    at: int,
    features: Seq<FeatureView>,
    index: u8,
    reply: Seq<u8>,
    next: int,
)
    requires
        at_index(features, 0x1004, index),
        answered(wire, at, index, 0x10, Seq::empty(), reply, next),
    ensures
        reply.len() < 4 ==> (battery_at(wire, at, features) matches Step::Failed { next: end, .. } && end == next),
        reply.len() >= 4 ==> (battery_at(wire, at, features) matches Step::Done { value, next: end } && end == next
            && value.percentage == (if reply[0] == 0 {
            None
        } else {
            Some(reply[0])
        }) && value.approximate_level == Some(level(reply[1])) && value.next_level is None && value.status
            == charging(reply[2]) && value.voltage_mv is None && value.raw_hex == hex_text(reply, true)),
{
    reveal(battery_at);
    first_feature_is_found(features, 0x1004);
    read_gives_answer(wire, at, index, 0x10, Seq::empty(), reply, next);
}

/// A mouse with the status feature, and not the unified one, tells its battery with function 0 of it: the charge in
/// percent, zero where it does not know it, the next charge that it will tell, and the charging state.
pub proof fn battery_status_is_read(
    wire: Wire,
    at: int,
    features: Seq<FeatureView>,
    index: u8,
    reply: Seq<u8>,
    next: int,
)
    requires
        !offers(features, 0x1004),
        at_index(features, 0x1000, index),
        answered(wire, at, index, 0x00, Seq::empty(), reply, next),
    ensures
        reply.len() < 3 ==> (battery_at(wire, at, features) matches Step::Failed { next: end, .. } && end == next),
        reply.len() >= 3 ==> (battery_at(wire, at, features) matches Step::Done { value, next: end } && end == next
            && value.percentage == (if reply[0] == 0 {
            None
        } else {
            Some(reply[0])
        }) && value.approximate_level is None && value.next_level == Some(reply[1]) && value.status == charging(reply[2]) && value.voltage_mv is None && value.raw_hex == hex_text(reply, true)),
{
    reveal(battery_at);
    first_feature_is_found(features, 0x1004);
    first_feature_is_found(features, 0x1000);
    read_gives_answer(wire, at, index, 0x00, Seq::empty(), reply, next);
}

/// A mouse with the voltage feature alone tells its battery with function 0 of it: the voltage in millivolts, high byte
/// first, and in the highest bit of the third byte whether it is charging. The charge is estimated from the voltage.
pub proof fn battery_voltage_is_read(
    wire: Wire,
    at: int,
    features: Seq<FeatureView>,
    index: u8,
    reply: Seq<u8>,
    next: int,
    voltage: u16,
)
    requires
        !offers(features, 0x1004),
        !offers(features, 0x1000),
        at_index(features, 0x1001, index),
        answered(wire, at, index, 0x00, Seq::empty(), reply, next),
        reply.len() >= 3 ==> 256 * reply[0] + reply[1] == voltage,
    ensures
        reply.len() < 3 ==> (battery_at(wire, at, features) matches Step::Failed { next: end, .. } && end == next),
        reply.len() >= 3 ==> (battery_at(wire, at, features) matches Step::Done { value, next: end } && end == next
            && value.percentage == charge_at(voltage) && value.approximate_level is None && value.next_level is None
            && value.status == (if reply[2] >= 128 {
            "charging"@
        } else {
            "discharging"@
        }) && value.voltage_mv == Some(voltage) && value.raw_hex == hex_text(reply, true)),
{
    reveal(battery_at);
    first_feature_is_found(features, 0x1004);
    first_feature_is_found(features, 0x1000);
    first_feature_is_found(features, 0x1001);
    read_gives_answer(wire, at, index, 0x00, Seq::empty(), reply, next);
    if reply.len() >= 3 {
        let flags = reply[2];
        assert((flags & 0x80 != 0) == (flags >= 128)) by (bit_vector);
    }
}

/// A device without any of the three has no battery to tell of.
pub proof fn battery_may_be_missing(wire: Wire, at: int, features: Seq<FeatureView>)
    requires
        !offers(features, 0x1004),
        !offers(features, 0x1000),
        !offers(features, 0x1001),
    ensures
        battery_at(wire, at, features) matches Step::Failed { error, next } && next == at
            && error is UnsupportedFeature,
{
    reveal(battery_at);
    first_feature_is_found(features, 0x1004);
    first_feature_is_found(features, 0x1000);
    first_feature_is_found(features, 0x1001);
}

/// The charge of a cell at a voltage between two that are ten percent apart.
pub open spec fn between(mv: int, low: int, high: int, percent: int) -> int {
    percent + 10 * (mv - low) / (high - low)
}

/// The charge that is estimated from a voltage: none below 3500 and above 4386 millivolts, full from 4186 on, and between
/// the voltages of the tens of percent in proportion, rounded down.
pub proof fn charge_follows_voltage(mv: u16)
    ensures
        mv < 3500 || mv > 4386 ==> charge_at(mv) is None,
        4186 <= mv <= 4386 ==> charge_at(mv) == Some(100u8),
        4067 <= mv <= 4186 ==> (charge_at(mv) matches Some(percent) && percent == between(mv as int, 4067, 4186, 90)),
        3989 <= mv < 4067 ==> (charge_at(mv) matches Some(percent) && percent == between(mv as int, 3989, 4067, 80)),
        3922 <= mv < 3989 ==> (charge_at(mv) matches Some(percent) && percent == between(mv as int, 3922, 3989, 70)),
        3859 <= mv < 3922 ==> (charge_at(mv) matches Some(percent) && percent == between(mv as int, 3859, 3922, 60)),
        3811 <= mv < 3859 ==> (charge_at(mv) matches Some(percent) && percent == between(mv as int, 3811, 3859, 50)),
        3778 <= mv < 3811 ==> (charge_at(mv) matches Some(percent) && percent == between(mv as int, 3778, 3811, 40)),
        3751 <= mv < 3778 ==> (charge_at(mv) matches Some(percent) && percent == between(mv as int, 3751, 3778, 30)),
        3731 <= mv < 3751 ==> (charge_at(mv) matches Some(percent) && percent == between(mv as int, 3731, 3751, 20)),
        3716 <= mv < 3731 ==> (charge_at(mv) matches Some(percent) && percent == between(mv as int, 3716, 3731, 10)),
        3500 <= mv < 3716 ==> (charge_at(mv) matches Some(percent) && percent == between(mv as int, 3500, 3716, 0)),
{
    reveal_with_fuel(charge_from, 12);
    assert(10 * (4186int - 4067) / (4186int - 4067) == 10);
}

/// Whether a name is what the bytes of its parts say, up to its length.
pub open spec fn name_part_taken(name: Seq<u8>, length: int, reply: Seq<u8>) -> Seq<u8> {
    if length - name.len() < reply.len() {
        name + reply.take(length - name.len())
    } else {
        name + reply
    }
}

/// The name of a device comes in parts, each asked for with function 1 by how much of it is known, until it has its
/// length; what is more is cut.
pub proof fn name_is_read_in_parts(
    wire: Wire,
    at: int,
    feature_index: u8,
    length: int,
    name: Seq<u8>,
    reply: Seq<u8>,
    next: int,
)
    requires
        length <= 255,
    ensures
        name.len() >= length ==> name_fragments_at(wire, at, feature_index, length, name) == (Step::Done {
            value: name,
            next: at,
        }),
        name.len() < length && answered(
            wire,
            at,
            feature_index,
            0x10,
            seq![name.len() as u8],
            reply,
            next,
        ) ==> (if reply.len() == 0 {
            name_fragments_at(wire, at, feature_index, length, name) matches Step::Failed { next: end, .. } && end
                == next
        } else {
            name_fragments_at(wire, at, feature_index, length, name) == name_fragments_at(
                wire,
                next,
                feature_index,
                length,
                name_part_taken(name, length, reply),
            )
        }),
{
    read_gives_answer(wire, at, feature_index, 0x10, seq![name.len() as u8], reply, next);
    assert(reply.take(reply.len() as int) =~= reply);
}

/// The length of the name comes with function 0 of feature 0005, and the name is the text of its bytes.
pub proof fn name_is_text_of_bytes(
    wire: Wire,
    at: int,
    features: Seq<FeatureView>,
    index: u8,
    reply: Seq<u8>,
    next: int,
)
    requires
        at_index(features, 0x0005, index),
        answered(wire, at, index, 0x00, Seq::empty(), reply, next),
        reply.len() > 0,
    ensures
        match name_fragments_at(wire, next, index, reply[0] as int, Seq::empty()) {
            Step::Done { value: bytes, next: end } => if valid_utf8(bytes) {
                device_name_at(wire, at, features) == (Step::Done { value: decode_utf8(bytes), next: end })
            } else {
                device_name_at(wire, at, features) matches Step::Failed { next: stop, .. } && stop == end
            },
            Step::Failed { error, next: end } => device_name_at(wire, at, features) == (Step::<Seq<char>>::Failed {
                error,
                next: end,
            }),
            Step::Astray => device_name_at(wire, at, features) is Astray,
        },
{
    reveal(device_name_at);
    missing_feature_is_named(features, 0x0005);
    read_gives_answer(wire, at, index, 0x00, Seq::empty(), reply, next);
}

/// Whether a record says what is told of a part of the firmware. The lower half of the first byte is its kind. Firmware
/// and a boot loader have a name of three bytes, a version of two bytes and a build, high byte first, that is told where
/// it is not zero; hardware has a number.
pub open spec fn says_firmware(reply: Seq<u8>, told: FirmwareView) -> bool {
    let kind = reply[0] % 16;
    let build = 256 * reply[6] + reply[7];
    if kind <= 1 && reply.len() >= 8 {
        &&& told.kind == (if kind == 0 {
            "firmware"@
        } else {
            "bootloader"@
        })
        &&& told.name == Some(without_nulls(text_or_lossy(seq![reply[1], reply[2], reply[3]])))
        &&& told.version == Some(
            if build == 0 {
                hex2(reply[4], true) + "."@ + hex2(reply[5], true)
            } else {
                hex2(reply[4], true) + "."@ + hex2(reply[5], true) + (".B"@ + hex4(build as u16, true))
            },
        )
    } else if kind == 2 {
        told.kind == "hardware"@ && told.name is None && told.version == Some(dec(reply[1] as nat))
            && told.extra_hex is None
    } else {
        told.kind == "other-"@ + dec(kind as nat) && told.name is None && told.version is None && told.extra_hex == Some(
            hex_text(reply, true),
        )
    }
}

/// What a record of the firmware says; one of less than two bytes is an error.
pub proof fn firmware_is_told_by_record(index: u8, reply: Seq<u8>)
    ensures
        match firmware_of(index, reply) {
            Err(_) => reply.len() < 2,
            Ok(told) => reply.len() >= 2 && says_firmware(reply, told),
        },
{
    if reply.len() >= 4 {
        assert(reply.subrange(1, 4) =~= seq![reply[1], reply[2], reply[3]]);
    }
}

/// The bytes that are told as more of firmware are those from the tenth on, up to a zero.
pub proof fn firmware_may_say_more(index: u8, reply: Seq<u8>, end: int)
    requires
        8 <= reply.len(),
        reply[0] % 16 <= 1,
        9 <= end <= reply.len() || end == 9,
        forall|i: int| 9 <= i < end ==> #[trigger] reply[i] != 0,
        end >= reply.len() || reply[end] == 0,
    ensures
        firmware_of(index, reply) matches Ok(told) && told.extra_hex == (if end == 9 {
            None
        } else {
            Some(hex_text(reply.subrange(9, end), true))
        }),
{
    bytes_up_to_zero(reply, 9, end);
}

proof fn bytes_up_to_zero(bytes: Seq<u8>, from: int, end: int)
    requires
        0 <= from <= end,
        end <= bytes.len() || from == end,
        forall|i: int| from <= i < end ==> #[trigger] bytes[i] != 0,
        end >= bytes.len() || bytes[end] == 0,
    ensures
        up_to_zero(bytes, from).len() == end - from,
        from < end ==> up_to_zero(bytes, from) == bytes.subrange(from, end),
    decreases end - from,
{
    if from < end {
        bytes_up_to_zero(bytes, from + 1, end);
        assert(up_to_zero(bytes, from) =~= bytes.subrange(from, end));
    }
}

/// The nulls at the end of a text are taken from it, and nothing else.
pub proof fn nulls_are_taken_from_the_end(text: Seq<char>)
    ensures
        without_nulls(text).len() <= text.len(),
        without_nulls(text) == text.take(without_nulls(text).len() as int),
        without_nulls(text).len() > 0 ==> without_nulls(text).last() != '\0',
        forall|i: int| without_nulls(text).len() <= i < text.len() ==> #[trigger] text[i] == '\0',
    decreases text.len(),
{
    if text.len() > 0 && text.last() == '\0' {
        nulls_are_taken_from_the_end(text.drop_last());
        let kept = without_nulls(text);
        assert(kept =~= text.take(kept.len() as int));
        assert forall|i: int| kept.len() <= i < text.len() implies #[trigger] text[i] == '\0' by {
            if i < text.len() - 1 {
                assert(text.drop_last()[i] == '\0');
            }
        }
    } else {
        assert(text =~= text.take(text.len() as int));
    }
}

/// Whether a record tells of a part of the firmware what is told: it was asked for with function 1 by its number.
pub open spec fn firmware_asked(
    wire: Wire,
    from: int,
    to: int,
    feature_index: u8,
    number: int,
    told: FirmwareView,
) -> bool {
    exists|at: int, next: int, reply: Seq<u8>|
        from <= at < next <= to && #[trigger] answered_of(
            wire,
            at,
            feature_index,
            0x10,
            number as u8,
            reply,
            next,
        ) && reply.len() >= 2 && says_firmware(reply, told)
}

proof fn firmware_records_are_asked(
    wire: Wire,
    from: int,
    at: int,
    feature_index: u8,
    index: int,
    count: int,
    known: Seq<FirmwareView>,
)
    requires
        0 <= index == known.len() <= count <= 255,
        from <= at,
        forall|k: int|
            0 <= k < known.len() ==> firmware_asked(wire, from, at, feature_index, k, #[trigger] known[k]),
        firmware_records_at(wire, at, feature_index, index, count, known) is Done,
    ensures
        ({
            let told = firmware_records_at(wire, at, feature_index, index, count, known)->value;
            let next = firmware_records_at(wire, at, feature_index, index, count, known)->Done_next;
            &&& at <= next
            &&& told.len() == count
            &&& forall|k: int|
                0 <= k < told.len() ==> firmware_asked(wire, from, next, feature_index, k, #[trigger] told[k])
        }),
    decreases count - index,
{
    if index < count {
        let reply = read_at(wire, at, feature_index, 0x10, seq![index as u8])->value;
        let next = read_at(wire, at, feature_index, 0x10, seq![index as u8])->Done_next;
        read_gives_answer(wire, at, feature_index, 0x10, seq![index as u8], reply, next);
        firmware_is_told_by_record(index as u8, reply);
        let told = firmware_of(index as u8, reply)->Ok_0;
        let more = known.push(told);
        assert forall|k: int| 0 <= k < more.len() implies firmware_asked(
            wire,
            from,
            next,
            feature_index,
            k,
            #[trigger] more[k],
        ) by {
            if k < known.len() {
                assert(more[k] == known[k]);
                let (a, n, r) = choose|a: int, n: int, r: Seq<u8>|
                    from <= a < n <= at && #[trigger] answered_of(wire, a, feature_index, 0x10, k as u8, r, n) && r.len()
                        >= 2 && says_firmware(r, known[k]);
                assert(answered_of(wire, a, feature_index, 0x10, k as u8, r, n));
            } else {
                assert(answered_of(wire, at, feature_index, 0x10, k as u8, reply, next));
            }
        }
        firmware_records_are_asked(wire, from, next, feature_index, index + 1, count, more);
    }
}

/// A device tells with function 0 of feature 0003 how many parts its firmware has, and each of them is asked for by its
/// number, from zero on.
pub proof fn every_part_of_firmware_is_told(wire: Wire, at: int, features: Seq<FeatureView>) -> (start: (
    u8,
    Seq<u8>,
    int,
))
    requires
        firmware_at(wire, at, features) is Done,
    ensures
        ({
            let (index, count, listing) = start;
            let told = firmware_at(wire, at, features)->value;
            let next = firmware_at(wire, at, features)->Done_next;
            &&& at_index(features, 0x0003, index)
            &&& answered(wire, at, index, 0x00, Seq::empty(), count, listing)
            &&& count.len() > 0
            &&& told.len() == count[0]
            &&& forall|k: int|
                0 <= k < told.len() ==> firmware_asked(wire, listing, next, index, k, #[trigger] told[k])
        }),
{
    reveal(firmware_at);
    missing_feature_is_named(features, 0x0003);
    let index = crate::hidpp::features::required_feature(features, 0x0003)->Ok_0.index;
    let count = read_at(wire, at, index, 0x00, Seq::empty())->value;
    let listing = read_at(wire, at, index, 0x00, Seq::empty())->Done_next;
    read_gives_answer(wire, at, index, 0x00, Seq::empty(), count, listing);
    firmware_records_are_asked(wire, listing, listing, index, 0, count[0] as int, Seq::empty());
    (index, count, listing)
}

/// Whether a way to connect is among those that the lowest four bits of a byte tell.
pub open spec fn connects(flags: u8, way: int) -> bool {
    if way == 0 {
        flags % 2 == 1
    } else if way == 1 {
        (flags / 2) % 2 == 1
    } else if way == 2 {
        (flags / 4) % 2 == 1
    } else {
        (flags / 8) % 2 == 1
    }
}

/// What the ways to connect are called.
pub open spec fn way_name(way: int) -> Seq<char> {
    if way == 0 {
        "bluetooth"@
    } else if way == 1 {
        "bluetooth-le"@
    } else if way == 2 {
        "wireless"@
    } else {
        "usb"@
    }
}

/// The two bytes of each way to connect stand one behind the other, for those ways alone that the device has, in the order
/// of the bits.
pub proof fn ways_have_numbers(reply: Seq<u8>, way: int, offset: int)
    requires
        reply.len() >= 13,
        0 <= way < 4,
        0 <= offset,
    ensures
        connects(reply[6], way) && offset + 2 <= reply.len() ==> connection_ids(reply, way, offset) == seq![
            TransportIdView {
                transport: way_name(way),
                id: hex_text(seq![reply[offset], reply[offset + 1]], true),
            },
        ] + connection_ids(reply, way + 1, offset + 2),
        !(connects(reply[6], way) && offset + 2 <= reply.len()) ==> connection_ids(reply, way, offset) == connection_ids(
            reply,
            way + 1,
            offset,
        ),
        connection_ids(reply, 4, offset) == Seq::<TransportIdView>::empty(),
{
    let flags = reply[6];
    assert((flags & 0x01 != 0) == (flags % 2 == 1)) by (bit_vector);
    assert((flags & 0x02 != 0) == ((flags / 2) % 2 == 1)) by (bit_vector);
    assert((flags & 0x04 != 0) == ((flags / 4) % 2 == 1)) by (bit_vector);
    assert((flags & 0x08 != 0) == ((flags / 8) % 2 == 1)) by (bit_vector);
    if offset + 2 <= reply.len() {
        assert(reply.subrange(offset, offset + 2) =~= seq![reply[offset], reply[offset + 1]]);
    }
}

/// A device tells its numbers with function 0 of feature 0003: that of the unit in the four bytes behind the first, that
/// of the model in six bytes from the eighth on, and those of its ways to connect from the eighth byte on too. A shorter
/// reply, and a device without the feature, tell none.
pub proof fn numbers_are_told(
    wire: Wire,
    at: int,
    features: Seq<FeatureView>,
    index: u8,
    reply: Seq<u8>,
    next: int,
)
    ensures
        !offers(features, 0x0003) ==> (ids_at(wire, at, features) matches Step::Done { value, next: end } && end == at
            && value.unit_id is None && value.model_id is None && value.transport_ids.len() == 0),
        at_index(features, 0x0003, index) && answered(wire, at, index, 0x00, Seq::empty(), reply, next) ==> (ids_at(
            wire,
            at,
            features,
        ) matches Step::Done { value, next: end } && end == next && if reply.len() >= 13 {
            &&& value.unit_id == Some(hex_text(seq![reply[1], reply[2], reply[3], reply[4]], true))
            &&& value.model_id == Some(
                hex_text(seq![reply[7], reply[8], reply[9], reply[10], reply[11], reply[12]], true),
            )
            &&& value.transport_ids == connection_ids(reply, 0, 7)
        } else {
            value.unit_id is None && value.model_id is None && value.transport_ids.len() == 0
        }),
{
    first_feature_is_found(features, 0x0003);
    read_gives_answer(wire, at, index, 0x00, Seq::empty(), reply, next);
    if reply.len() >= 13 {
        assert(reply.subrange(1, 5) =~= seq![reply[1], reply[2], reply[3], reply[4]]);
        assert(reply.subrange(7, 13) =~= seq![reply[7], reply[8], reply[9], reply[10], reply[11], reply[12]]);
    }
}

/// Who a device is: its name, version and index, its node, its numbers, and the format of its memory. Its serial number is
/// that of the unit, or else that of the node.
pub proof fn identity_is_put_together(device: DeviceView, ids: DeviceIdsView, profile_format: Option<u8>)
    ensures
        ({
            let told = identity_of(device, ids, profile_format);
            &&& told.name == device.name
            &&& told.hidpp_version == device.protocol
            &&& told.device_index == device.device_index
            &&& told.receiver.vid == hex4(device.endpoint.vendor_id, false)
            &&& told.receiver.pid == hex4(device.endpoint.product_id, false)
            &&& told.receiver.path == device.endpoint.path
            &&& told.receiver.serial == device.endpoint.serial_number
            &&& told.unit_id == ids.unit_id
            &&& told.model_id == ids.model_id
            &&& told.transport_ids == ids.transport_ids
            &&& told.profile_format == profile_format
            &&& told.serial == (match ids.unit_id {
                Some(unit) => Some(unit),
                None => device.endpoint.serial_number,
            })
        }),
{
}

/// Who a device is follows from its numbers and from the format of its memory, if it has one.
pub proof fn identity_is_asked_for(wire: Wire, at: int, device: DeviceView)
    requires
        ids_at(wire, at, device.features) is Done,
    ensures
        ({
            let ids = ids_at(wire, at, device.features);
            let info = crate::device::onboard::onboard_info_at(wire, ids->Done_next, device.features);
            &&& !offers(device.features, 0x8100) ==> identity_at(wire, at, device) == (Step::Done {
                value: identity_of(device, ids->value, None),
                next: ids->Done_next,
            })
            &&& offers(device.features, 0x8100) && info is Done ==> identity_at(wire, at, device) == (Step::Done {
                value: identity_of(device, ids->value, Some(info->value.profile_format)),
                next: info->Done_next,
            })
        }),
{
    reveal(identity_at);
    first_feature_is_found(device.features, 0x8100);
}

}
