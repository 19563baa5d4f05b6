//! What storing in the memory of a mouse sends to it, and what it leaves alone.

use vstd::prelude::*;

use crate::bytes::{high_of, low_of, overwritten};
use crate::device::format07::{bytes_of_sector, with_crc};
use crate::device::memory::{
    activate_at, confirm_at, current_stage_at, directory_with, enable_at, enabled_slot, header_of_slot, payload_of,
    payloads_at, plan_at, restore_at, set_stage_at, undone, verify_write_at, write_profile_at, write_sector_at,
    write_start, OnboardProfileWrite, PlanView,
};
use crate::device::onboard::{
    computed_crc_of, crc16, directory_at, header_of, headers_at, headers_from, onboard_info_at, onboard_status_at,
    sector_at, set_onboard_mode_at, HeaderView,
};
use crate::error::{error_text, ErrorView, Outcome};
use crate::hexcode::hex_text;
use crate::hidpp::asking::{
    answered, asked, at_index, bytes_make_word, call_gives_reply, called, missing_feature_is_named, offers,
    read_gives_answer,
};
use crate::hidpp::features::{required_feature, FeatureView};
use crate::hidpp::session::{call_at, Request, Step, Wire};
use crate::profile::ProfileView;
use crate::text::dec;

verus! {

/// Whether the last two bytes of a sector are the checksum of those before them, high byte first.
pub open spec fn ends_with_checksum(bytes: Seq<u8>) -> bool {
    bytes.len() >= 2 && 256 * bytes[bytes.len() - 2] + bytes[bytes.len() - 1] == crc16(bytes.take(bytes.len() - 2))
}

/// Setting the checksum changes the last two bytes alone.
pub proof fn checksum_is_put_at_the_end(bytes: Seq<u8>)
    requires
        bytes.len() >= 2,
    ensures
        with_crc(bytes).len() == bytes.len(),
        forall|i: int| 0 <= i < bytes.len() - 2 ==> #[trigger] with_crc(bytes)[i] == bytes[i],
        ends_with_checksum(with_crc(bytes)),
{
    let after = with_crc(bytes);
    assert(after.take(after.len() - 2) =~= bytes.take(bytes.len() - 2));
    bytes_make_word(high_of(computed_crc_of(bytes)), low_of(computed_crc_of(bytes)), computed_crc_of(bytes));
}

/// Whether two directories are alike in everything but the record of a slot and the checksum at the end.
pub open spec fn alike_but_for_slot(before: Seq<u8>, after: Seq<u8>, slot: int) -> bool {
    &&& after.len() == before.len()
    &&& forall|i: int|
        0 <= i < before.len() - 2 && !(4 * (slot - 1) <= i < 4 * slot) ==> #[trigger] after[i] == before[i]
}

/// Whether the record of a slot says that it is enabled, at a sector.
pub open spec fn slot_enabled(directory: Seq<u8>, slot: int, sector: int) -> bool {
    &&& 256 * directory[4 * (slot - 1)] + directory[4 * (slot - 1) + 1] == sector
    &&& directory[4 * (slot - 1) + 2] == 1
    &&& directory[4 * (slot - 1) + 3] == 0
}

/// Enabling a slot changes nothing of the directory but the four bytes of that slot and the checksum. It fails exactly
/// where the record of the slot would not lie before the checksum.
pub proof fn enabling_changes_one_record(directory: Seq<u8>, slot: u8, sector: u16)
    requires
        slot >= 1,
    ensures
        match directory_with(directory, slot, sector) {
            None => 4 * slot > directory.len() - 2,
            Some(after) => {
                &&& 4 * slot <= directory.len() - 2
                &&& alike_but_for_slot(directory, after, slot as int)
                &&& slot_enabled(after, slot as int, sector as int)
                &&& ends_with_checksum(after)
            },
        },
{
    bytes_make_word(high_of(sector), low_of(sector), sector);
    if 4 * slot <= directory.len() - 2 {
        checksum_is_put_at_the_end(
            overwritten(directory, 4 * (slot - 1), seq![high_of(sector), low_of(sector), 1u8, 0u8]),
        );
    }
}

/// What the four bytes of a record in the directory say: the sector, high byte first, whether the slot is enabled, and
/// its flags. Slots are counted from one.
pub proof fn record_says_slot(bytes: Seq<u8>, index: int)
    requires
        0 <= index < 255,
        4 * index + 4 <= bytes.len(),
    ensures
        ({
            let header = header_of(bytes, index);
            &&& header.slot == index + 1
            &&& header.sector == 256 * bytes[4 * index] + bytes[4 * index + 1]
            &&& header.enabled <==> bytes[4 * index + 2] == 1
            &&& header.enabled_code == bytes[4 * index + 2]
            &&& header.flags == bytes[4 * index + 3]
            &&& header.raw_hex == hex_text(
                seq![bytes[4 * index], bytes[4 * index + 1], bytes[4 * index + 2], bytes[4 * index + 3]],
                true,
            )
        }),
{
    assert(bytes.subrange(4 * index, 4 * index + 4) =~= seq![
        bytes[4 * index],
        bytes[4 * index + 1],
        bytes[4 * index + 2],
        bytes[4 * index + 3],
    ]);
}

/// Whether the directory goes on at a place: there is a whole record, and its sector is not all ones.
pub open spec fn record_there(bytes: Seq<u8>, index: int) -> bool {
    4 * index + 4 <= bytes.len() && !(bytes[4 * index] == 0xff && bytes[4 * index + 1] == 0xff)
}

/// The directory lists its records from the first on, up to as many as there can be, and ends before the first one that
/// is missing.
pub proof fn directory_lists_records(bytes: Seq<u8>, count: int, index: int)
    requires
        0 <= index <= count <= 255,
    ensures
        ({
            let headers = headers_from(bytes, count, index);
            &&& index + headers.len() <= count
            &&& forall|k: int|
                0 <= k < headers.len() ==> #[trigger] headers[k] == header_of(bytes, index + k) && record_there(
                    bytes,
                    index + k,
                )
            &&& index + headers.len() < count ==> !record_there(bytes, index + headers.len())
        }),
    decreases count - index,
{
    if index < count && record_there(bytes, index) {
        directory_lists_records(bytes, count, index + 1);
        let rest = headers_from(bytes, count, index + 1);
        let headers = headers_from(bytes, count, index);
        assert(headers == seq![header_of(bytes, index)] + rest);
        assert forall|k: int| 0 <= k < headers.len() implies #[trigger] headers[k] == header_of(bytes, index + k)
            && record_there(bytes, index + k) by {
            if k > 0 {
                assert(headers[k] == rest[k - 1]);
            }
        }
    }
}

proof fn same_records_are_listed(before: Seq<u8>, after: Seq<u8>, slot: int, sector: u16, count: int, index: int)
    requires
        0 <= index <= count <= 255,
        1 <= slot <= count,
        4 * count <= before.len() - 2,
        sector != 0xffff,
        alike_but_for_slot(before, after, slot),
        slot_enabled(after, slot, sector as int),
        record_there(before, slot - 1),
    ensures
        headers_from(after, count, index).len() == headers_from(before, count, index).len(),
        forall|k: int|
            0 <= k < headers_from(before, count, index).len() && index + k != slot - 1 ==> #[trigger] headers_from(
                after,
                count,
                index,
            )[k] == headers_from(before, count, index)[k],
    decreases count - index,
{
    if index < count {
        assert(record_there(after, index) <==> record_there(before, index)) by {
            if index != slot - 1 {
                assert(after[4 * index] == before[4 * index]);
                assert(after[4 * index + 1] == before[4 * index + 1]);
            }
        }
        if index != slot - 1 {
            assert(after[4 * index + 2] == before[4 * index + 2]);
            assert(after[4 * index + 3] == before[4 * index + 3]);
            assert(after[4 * index] == before[4 * index]);
            assert(after[4 * index + 1] == before[4 * index + 1]);
            assert(after.subrange(4 * index, 4 * index + 4) =~= before.subrange(4 * index, 4 * index + 4));
            assert(header_of(after, index) == header_of(before, index));
        }
        if record_there(before, index) {
            same_records_are_listed(before, after, slot, sector, count, index + 1);
            let (earlier, later) = (headers_from(before, count, index), headers_from(after, count, index));
            let (earlier_rest, later_rest) = (
                headers_from(before, count, index + 1),
                headers_from(after, count, index + 1),
            );
            assert(earlier == seq![header_of(before, index)] + earlier_rest);
            assert(later == seq![header_of(after, index)] + later_rest);
            assert forall|k: int| 0 <= k < earlier.len() && index + k != slot - 1 implies #[trigger] later[k]
                == earlier[k] by {
                if k > 0 {
                    assert(later[k] == later_rest[k - 1] && earlier[k] == earlier_rest[k - 1]);
                }
            }
        }
    }
}

/// The slots that are listed after one of them was enabled are those listed before. Only the one that was enabled is
/// changed, and it is enabled at its sector.
pub proof fn enabling_lists_the_same_slots(directory: Seq<u8>, slot: u8, sector: u16, count: int)
    requires
        count <= 255,
        4 * count <= directory.len() - 2,
        1 <= slot <= headers_from(directory, count, 0).len(),
        sector != 0xffff,
    ensures
        ({
            let before = headers_from(directory, count, 0);
            let after = headers_from(directory_with(directory, slot, sector)->0, count, 0);
            &&& directory_with(directory, slot, sector) is Some
            &&& after.len() == before.len()
            &&& forall|k: int| 0 <= k < before.len() && k != slot - 1 ==> #[trigger] after[k] == before[k]
            &&& after[slot - 1].slot == slot
            &&& after[slot - 1].sector == sector
            &&& after[slot - 1].enabled
            &&& after[slot - 1].enabled_code == 1
            &&& after[slot - 1].flags == 0
        }),
{
    enabling_changes_one_record(directory, slot, sector);
    directory_lists_records(directory, count, 0);
    let after = directory_with(directory, slot, sector)->0;
    assert(headers_from(directory, count, 0)[slot - 1] == header_of(directory, slot - 1));
    same_records_are_listed(directory, after, slot as int, sector, count, 0);
    directory_lists_records(after, count, 0);
    assert(headers_from(after, count, 0)[slot - 1] == header_of(after, slot - 1));
    record_says_slot(after, slot - 1);
}

/// Whether an exchange sends sixteen bytes of the data from a place on, with function 7, and ones behind its end.
pub open spec fn part_sent(wire: Wire, at: int, feature_index: u8, data: Seq<u8>, place: int) -> bool {
    let parameters = wire.exchanges[at].request.parameters;
    &&& asked(wire, at, feature_index, 0x70, parameters)
    &&& wire.exchanges[at].reply is Ok
    &&& parameters.len() == 16
    &&& forall|j: int|
        0 <= j < 16 ==> #[trigger] parameters[j] == (if place + j < data.len() {
            data[place + j]
        } else {
            0xff
        })
}

/// How many parts of sixteen bytes it takes to send data of a length.
pub open spec fn parts(length: int) -> int {
    (length + 15) / 16
}

proof fn parts_are_sent(wire: Wire, at: int, feature_index: u8, data: Seq<u8>, offset: int)
    requires
        0 <= offset,
        offset % 16 == 0,
        payloads_at(wire, at, feature_index, data, offset) is Done,
    ensures
        ({
            let next = payloads_at(wire, at, feature_index, data, offset)->Done_next;
            &&& at <= next
            &&& offset < data.len() ==> next == at + parts(data.len() - offset)
            &&& offset >= data.len() ==> next == at
            &&& forall|k: int|
                0 <= k < next - at ==> #[trigger] part_sent(wire, at + k, feature_index, data, offset + 16 * k)
        }),
    decreases data.len() + 16 - offset,
{
    if offset < data.len() {
        let payload = payload_of(data, offset);
        let reply = call_at(wire, at, feature_index, 0x70, payload)->value;
        call_gives_reply(wire, at, feature_index, 0x70, payload, reply, at + 1);
        parts_are_sent(wire, at + 1, feature_index, data, offset + 16);
        let next = payloads_at(wire, at, feature_index, data, offset)->Done_next;
        assert(part_sent(wire, at, feature_index, data, offset));
        assert forall|k: int| 0 <= k < next - at implies #[trigger] part_sent(
            wire,
            at + k,
            feature_index,
            data,
            offset + 16 * k,
        ) by {
            if k > 0 {
                assert(part_sent(wire, at + 1 + (k - 1), feature_index, data, offset + 16 + 16 * (k - 1)));
            }
        }
    }
}

/// Writing a sector sends where it starts and how long it is, high byte first, with function 6; then the bytes, sixteen
/// at a time and each once, with their checksum in the last two, with function 7; and then the end with function 8.
pub proof fn writing_sends_every_byte(wire: Wire, at: int, features: Seq<FeatureView>, sector: u16, bytes: Seq<u8>) -> (index:
    u8)
    requires
        write_sector_at(wire, at, features, sector, bytes) is Done,
    ensures
        16 <= bytes.len() <= 65535,
        at_index(features, 0x8100, index),
        ({
            let start = wire.exchanges[at].request.parameters;
            let end = at + 1 + parts(bytes.len() as int);
            &&& asked(wire, at, index, 0x60, start)
            &&& start.len() == 6
            &&& 256 * start[0] + start[1] == sector
            &&& start[2] == 0 && start[3] == 0
            &&& 256 * start[4] + start[5] == bytes.len()
            &&& forall|k: int|
                0 <= k < parts(bytes.len() as int) ==> #[trigger] part_sent(
                    wire,
                    at + 1 + k,
                    index,
                    with_crc(bytes),
                    16 * k,
                )
            &&& asked(wire, end, index, 0x80, Seq::empty())
            &&& wire.exchanges[end].reply is Ok
        }),
{
    reveal(write_sector_at);
    missing_feature_is_named(features, 0x8100);
    let data = with_crc(bytes);
    checksum_is_put_at_the_end(bytes);
    let length = bytes.len() as u16;
    bytes_make_word(high_of(sector), low_of(sector), sector);
    bytes_make_word(high_of(length), low_of(length), length);
    let index = required_feature(features, 0x8100)->Ok_0.index;
    let start = write_start(sector, data.len());
    let started = call_at(wire, at, index, 0x60, start)->value;
    call_gives_reply(wire, at, index, 0x60, start, started, at + 1);
    parts_are_sent(wire, at + 1, index, data, 0);
    let end = payloads_at(wire, at + 1, index, data, 0)->Done_next;
    let ended = call_at(wire, end, index, 0x80, Seq::empty())->value;
    call_gives_reply(wire, end, index, 0x80, Seq::empty(), ended, end + 1);
    assert forall|k: int| 0 <= k < parts(bytes.len() as int) implies #[trigger] part_sent(
        wire,
        at + 1 + k,
        index,
        data,
        16 * k,
    ) by {
        assert(part_sent(wire, at + 1 + k, index, data, 0 + 16 * k));
    }
    index
}

/// The slots that a mouse lists are counted from one.
pub proof fn listed_slots_are_counted_from_one(wire: Wire, at: int, features: Seq<FeatureView>, k: int)
    requires
        headers_at(wire, at, features) is Done,
        0 <= k < headers_at(wire, at, features)->value.len(),
    ensures
        headers_at(wire, at, features)->value[k].slot == k + 1,
{
    reveal(headers_at);
    let info = onboard_info_at(wire, at, features);
    let index = required_feature(features, 0x8100)->Ok_0.index;
    let count = info->value.profile_count as int;
    let directory = directory_at(wire, info->Done_next, index, 0, count * 4 + 4, Seq::empty())->value;
    directory_lists_records(directory, count, 0);
    assert(headers_at(wire, at, features)->value[k] == header_of(directory, k));
    assert(record_there(directory, k));
    record_says_slot(directory, k);
}

proof fn found_slot_is_listed(headers: Seq<HeaderView>, slot: u8, from: int) -> (k: int)
    requires
        0 <= from,
        header_of_slot(headers, slot, from) is Some,
    ensures
        from <= k < headers.len(),
        headers[k].slot == slot,
    decreases headers.len() - from,
{
    if headers[from].slot == slot {
        from
    } else {
        found_slot_is_listed(headers, slot, from + 1)
    }
}

/// What is planned is planned for a slot that is listed, and so for none before the first.
pub proof fn planned_slot_is_listed(wire: Wire, at: int, features: Seq<FeatureView>, slot: u8, profile: ProfileView)
    requires
        plan_at(wire, at, features, slot, profile) is Done,
    ensures
        slot >= 1,
{
    reveal(plan_at);
    let told = onboard_info_at(wire, at, features)->Done_next;
    let headers = headers_at(wire, told, features)->value;
    let k = found_slot_is_listed(headers, slot, 0);
    listed_slots_are_counted_from_one(wire, told, features, k);
}

/// Storing a profile in a slot writes its bytes to the sector of the slot, where they differ from what is there, and then
/// the directory, where the slot is not enabled at that sector yet. What is written as the directory differs from the one
/// that was read in the record of that slot and in the checksum alone.
pub proof fn storing_writes_profile_and_directory(
    wire: Wire,
    at: int,
    features: Seq<FeatureView>,
    slot: u8,
    profile: ProfileView,
) -> (directory: Seq<u8>)
    requires
        write_profile_at(wire, at, features, slot, profile) is Done,
    ensures
        ({
            let planning = plan_at(wire, at, features, slot, profile);
            let plan = planning->value;
            let written = write_profile_at(wire, at, features, slot, profile)->value;
            let storing = write_sector_at(wire, planning->Done_next, features, plan.sector, plan.profile);
            let enabling_at = if written.profile_written {
                storing->Done_next
            } else {
                planning->Done_next
            };
            &&& planning is Done
            &&& alike_but_for_slot(plan.original_directory, directory, slot as int)
            &&& slot_enabled(directory, slot as int, plan.sector as int)
            &&& ends_with_checksum(directory)
            &&& written.profile_written <==> plan.profile != plan.original_profile
            &&& written.directory_written <==> directory != plan.original_directory
            &&& written.profile_written ==> storing is Done
            &&& written.directory_written ==> write_sector_at(wire, enabling_at, features, 0, directory) is Done
        }),
{
    reveal(write_profile_at);
    reveal(enable_at);
    reveal(confirm_at);
    let plan = plan_at(wire, at, features, slot, profile)->value;
    planned_slot_is_listed(wire, at, features, slot, profile);
    enabling_changes_one_record(plan.original_directory, slot, plan.sector);
    directory_with(plan.original_directory, slot, plan.sector)->0
}

/// Switching between the memory and the host sends 1 or 2 with function 1, and succeeds with what the mouse reports then
/// where that is the mode asked for.
pub proof fn mode_is_switched(
    wire: Wire,
    at: int,
    features: Seq<FeatureView>,
    index: u8,
    onboard: bool,
    mode: u8,
    reply: Seq<u8>,
)
    requires
        at_index(features, 0x8100, index),
        onboard ==> mode == 1,
        !onboard ==> mode == 2,
        called(wire, at, index, 0x10, seq![mode], reply),
    ensures
        match onboard_status_at(wire, at + 1, features) {
            Step::Done { value, next } => if value.mode_code == mode {
                set_onboard_mode_at(wire, at, features, onboard) == (Step::Done { value, next })
            } else {
                set_onboard_mode_at(wire, at, features, onboard) matches Step::Failed { error, next: end } && end
                    == next && error is Verification
            },
            step => set_onboard_mode_at(wire, at, features, onboard) == step,
        },
{
    reveal(set_onboard_mode_at);
    missing_feature_is_named(features, 0x8100);
    call_gives_reply(wire, at, index, 0x10, seq![mode], reply, at + 1);
}

/// A mouse tells which mode it is in with function 2: 1 under a profile of its memory, and then, with function 4, the
/// sector of that profile, high byte first; 2 under the host.
pub proof fn mode_is_told(
    wire: Wire,
    at: int,
    features: Seq<FeatureView>,
    index: u8,
    reply: Seq<u8>,
    next: int,
    active: Seq<u8>,
    end: int,
)
    requires
        at_index(features, 0x8100, index),
        answered(wire, at, index, 0x20, Seq::empty(), reply, next),
        reply.len() > 0,
        reply[0] == 1 ==> answered(wire, next, index, 0x40, Seq::empty(), active, end),
        reply[0] != 1 ==> end == next,
    ensures
        onboard_status_at(wire, at, features) matches Step::Done { value, next: stop } && stop == end && value.mode_code
            == reply[0] && value.mode == (if reply[0] == 1 {
            "onboard"@
        } else if reply[0] == 2 {
            "host"@
        } else {
            "unknown"@
        }) && match value.active_sector {
            Some(sector) => reply[0] == 1 && active.len() >= 2 && sector == 256 * active[0] + active[1],
            None => reply[0] != 1 || active.len() < 2,
        },
{
    reveal(onboard_status_at);
    missing_feature_is_named(features, 0x8100);
    read_gives_answer(wire, at, index, 0x20, Seq::empty(), reply, next);
    if reply[0] == 1 {
        read_gives_answer(wire, next, index, 0x40, Seq::empty(), active, end);
    }
}

/// Choosing a stage sends it with function 12, and the mouse tells its stage with function 11. The choice succeeds where
/// they are the same, and only one of the five stages can be chosen.
pub proof fn stage_is_chosen(
    wire: Wire,
    at: int,
    features: Seq<FeatureView>,
    index: u8,
    stage: u8,
    reply: Seq<u8>,
    told: Seq<u8>,
    next: int,
)
    requires
        at_index(features, 0x8100, index),
    ensures
        stage >= 5 ==> (set_stage_at(wire, at, features, stage) matches Step::Failed { error, next: end }
            && error is Validation && end == at),
        stage < 5 && called(wire, at, index, 0xc0, seq![stage], reply) && answered(
            wire,
            at + 1,
            index,
            0xb0,
            Seq::empty(),
            told,
            next,
        ) ==> (if told.len() > 0 && told[0] == stage {
            set_stage_at(wire, at, features, stage) == (Step::Done { value: stage, next })
        } else {
            set_stage_at(wire, at, features, stage) matches Step::Failed { next: end, .. } && end == next
        }),
        answered(wire, at, index, 0xb0, Seq::empty(), told, next) ==> (if told.len() > 0 {
            current_stage_at(wire, at, features) == (Step::Done { value: told[0], next })
        } else {
            current_stage_at(wire, at, features) matches Step::Failed { next: end, .. } && end == next
        }),
{
    reveal(set_stage_at);
    reveal(current_stage_at);
    missing_feature_is_named(features, 0x8100);
    call_gives_reply(wire, at, index, 0xc0, seq![stage], reply, at + 1);
    read_gives_answer(wire, at + 1, index, 0xb0, Seq::empty(), told, next);
    read_gives_answer(wire, at, index, 0xb0, Seq::empty(), told, next);
}

/// The slot that is taken is the first one of its number that is enabled.
pub proof fn enabled_slot_is_found(headers: Seq<HeaderView>, slot: u8, from: int)
    requires
        0 <= from,
    ensures
        match enabled_slot(headers, slot, from) {
            Some(header) => exists|k: int|
                from <= k < headers.len() && #[trigger] headers[k] == header && header.slot == slot && header.enabled
                    && forall|j: int| from <= j < k ==> (#[trigger] headers[j]).slot != slot || !headers[j].enabled,
            None => forall|j: int|
                from <= j < headers.len() ==> (#[trigger] headers[j]).slot != slot || !headers[j].enabled,
        },
    decreases headers.len() - from,
{
    if from < headers.len() && !(headers[from].slot == slot && headers[from].enabled) {
        enabled_slot_is_found(headers, slot, from + 1);
        if let Some(header) = enabled_slot(headers, slot, from) {
            let k = choose|k: int|
                from + 1 <= k < headers.len() && #[trigger] headers[k] == header && header.slot == slot
                    && header.enabled && forall|j: int|
                    from + 1 <= j < k ==> (#[trigger] headers[j]).slot != slot || !headers[j].enabled;
            assert(headers[k] == header);
        }
    } else if from < headers.len() {
        assert(headers[from].slot == slot);
    }
}

/// Making the profile of a slot the active one sends the slot with function 3, behind a zero, and succeeds with what the
/// mouse reports then where that names the sector of the slot. A slot that is not enabled is refused.
pub proof fn slot_is_made_active(
    wire: Wire,
    at: int,
    features: Seq<FeatureView>,
    index: u8,
    slot: u8,
    reply: Seq<u8>,
)
    requires
        at_index(features, 0x8100, index),
        headers_at(wire, at, features) is Done,
    ensures
        ({
            let headers = headers_at(wire, at, features)->value;
            let next = headers_at(wire, at, features)->Done_next;
            match enabled_slot(headers, slot, 0) {
                None => activate_at(wire, at, features, slot) matches Step::Failed { error, next: end }
                    && error is Validation && end == next,
                Some(header) => called(wire, next, index, 0x30, seq![0u8, slot], reply) ==> match onboard_status_at(
                    wire,
                    next + 1,
                    features,
                ) {
                    Step::Done { value, next: end } => if value.active_sector == Some(header.sector) {
                        activate_at(wire, at, features, slot) == (Step::Done { value, next: end })
                    } else {
                        activate_at(wire, at, features, slot) matches Step::Failed { error, next: stop } && stop == end
                            && error is Verification
                    },
                    step => activate_at(wire, at, features, slot) == step,
                },
            }
        }),
{
    reveal(activate_at);
    missing_feature_is_named(features, 0x8100);
    let next = headers_at(wire, at, features)->Done_next;
    call_gives_reply(wire, next, index, 0x30, seq![0u8, slot], reply, next + 1);
}

proof fn sent_parts_are_taken(wire: Wire, at: int, feature_index: u8, data: Seq<u8>, offset: int)
    requires
        0 <= offset,
        offset % 16 == 0,
        forall|k: int|
            #![trigger part_sent(wire, at + k, feature_index, data, offset + 16 * k)]
            0 <= k && offset + 16 * k < data.len() ==> part_sent(
                wire,
                at + k,
                feature_index,
                data,
                offset + 16 * k,
            ) && !wire.exchanges[at + k].retry,
    ensures
        payloads_at(wire, at, feature_index, data, offset) == (Step::Done {
            value: (),
            next: if offset < data.len() {
                at + parts(data.len() - offset)
            } else {
                at
            },
        }),
    decreases data.len() + 16 - offset,
{
    if offset < data.len() {
        let payload = payload_of(data, offset);
        assert(part_sent(wire, at + 0, feature_index, data, offset + 16 * 0));
        let sent = wire.exchanges[at].request.parameters;
        assert(sent =~= payload);
        let reply = wire.exchanges[at].reply->Ok_0;
        call_gives_reply(wire, at, feature_index, 0x70, payload, reply, at + 1);
        assert forall|k: int|
            #![trigger part_sent(wire, at + 1 + k, feature_index, data, offset + 16 + 16 * k)]
            0 <= k && offset + 16 + 16 * k < data.len() implies part_sent(
            wire,
            at + 1 + k,
            feature_index,
            data,
            offset + 16 + 16 * k,
        ) && !wire.exchanges[at + 1 + k].retry by {
            assert(part_sent(wire, at + (k + 1), feature_index, data, offset + 16 * (k + 1)));
        }
        sent_parts_are_taken(wire, at + 1, feature_index, data, offset + 16);
    }
}

/// A mouse that takes the start, every part and the end, and then gives back the bytes with a valid checksum, makes a write
/// succeed; one that gives back anything else makes it fail.
pub proof fn taken_sector_is_written(
    wire: Wire,
    at: int,
    features: Seq<FeatureView>,
    sector: u16,
    bytes: Seq<u8>,
    index: u8,
    start: Seq<u8>,
    started: Seq<u8>,
    ended: Seq<u8>,
)
    requires
        16 <= bytes.len() <= 65535,
        at_index(features, 0x8100, index),
        start.len() == 6,
        256 * start[0] + start[1] == sector,
        start[2] == 0 && start[3] == 0,
        256 * start[4] + start[5] == bytes.len(),
        called(wire, at, index, 0x60, start, started),
        forall|k: int|
            #![trigger part_sent(wire, at + 1 + k, index, with_crc(bytes), 16 * k)]
            0 <= k && 16 * k < bytes.len() ==> part_sent(wire, at + 1 + k, index, with_crc(bytes), 16 * k)
                && !wire.exchanges[at + 1 + k].retry,
        called(wire, at + 1 + parts(bytes.len() as int), index, 0x80, Seq::empty(), ended),
    ensures
        ({
            let end = at + 2 + parts(bytes.len() as int);
            match sector_at(wire, end, features, sector, bytes.len() as u16) {
                Step::Done { value, next } => if value.crc_valid && value.data_hex == hex_text(with_crc(bytes), true) {
                    write_sector_at(wire, at, features, sector, bytes) == (Step::Done { value: (), next })
                } else {
                    write_sector_at(wire, at, features, sector, bytes) matches Step::Failed { error, next: stop } && stop
                        == next && error is Verification
                },
                Step::Failed { error, next } => write_sector_at(wire, at, features, sector, bytes) == (Step::<
                    (),
                >::Failed { error, next }),
                Step::Astray => true,
            }
        }),
{
    reveal(write_sector_at);
    missing_feature_is_named(features, 0x8100);
    let data = with_crc(bytes);
    checksum_is_put_at_the_end(bytes);
    let length = bytes.len() as u16;
    bytes_make_word(start[0], start[1], sector);
    bytes_make_word(start[4], start[5], length);
    assert(start =~= write_start(sector, data.len()));
    call_gives_reply(wire, at, index, 0x60, start, started, at + 1);
    assert forall|k: int|
        #![trigger part_sent(wire, at + 1 + k, index, data, 0 + 16 * k)]
        0 <= k && 0 + 16 * k < data.len() implies part_sent(wire, at + 1 + k, index, data, 0 + 16 * k)
        && !wire.exchanges[at + 1 + k].retry by {
        assert(part_sent(wire, at + 1 + k, index, data, 16 * k));
    }
    sent_parts_are_taken(wire, at + 1, index, data, 0);
    let end = at + 1 + parts(bytes.len() as int);
    call_gives_reply(wire, end, index, 0x80, Seq::empty(), ended, end + 1);
}

/// A sector of less than 16 bytes, or of more than a word can tell, is never written, and a mouse without a memory is asked
/// nothing.
pub proof fn unfit_sector_is_not_written(wire: Wire, at: int, features: Seq<FeatureView>, sector: u16, bytes: Seq<u8>)
    ensures
        bytes.len() < 16 || bytes.len() > 65535 ==> (write_sector_at(wire, at, features, sector, bytes) matches Step::Failed {
            error,
            next,
        } && error is Validation && next == at),
        16 <= bytes.len() <= 65535 && !offers(features, 0x8100) ==> (write_sector_at(wire, at, features, sector, bytes) matches Step::Failed {
            error,
            next,
        } && error is UnsupportedFeature && next == at),
{
    reveal(write_sector_at);
    missing_feature_is_named(features, 0x8100);
}

/// Where a mouse refuses a part, the write is ended with function 8 all the same, and fails with the error of the part.
pub proof fn refused_part_ends_the_write(
    wire: Wire,
    at: int,
    feature_index: u8,
    data: Seq<u8>,
    offset: int,
    error: ErrorView,
)
    requires
        0 <= offset < data.len(),
        asked(wire, at, feature_index, 0x70, payload_of(data, offset)),
        !wire.exchanges[at].retry,
        wire.exchanges[at].reply == Outcome::<Seq<u8>>::Err(error),
        asked(wire, at + 1, feature_index, 0x80, Seq::empty()),
        !wire.exchanges[at + 1].retry,
    ensures
        payloads_at(wire, at, feature_index, data, offset) == (Step::<()>::Failed { error, next: at + 2 }),
{
    assert(wire.exchanges[at].request == (Request {
        device_index: wire.device_index,
        feature_index,
        function: 0x70,
        parameters: payload_of(data, offset),
        long: true,
    }));
    assert(wire.exchanges[at + 1].request == (Request {
        device_index: wire.device_index,
        feature_index,
        function: 0x80,
        parameters: Seq::empty(),
        long: true,
    }));
}

/// A write that went wrong is undone by writing what was there before: the directory where it was written, and then the
/// profile where it was written. The error tells what went wrong, and whether that could be undone.
pub proof fn undoing_writes_what_was_there(
    wire: Wire,
    at: int,
    features: Seq<FeatureView>,
    plan: PlanView,
    directory_written: bool,
    profile_written: bool,
    error: ErrorView,
)
    ensures
        ({
            let directory = write_sector_at(wire, at, features, 0, plan.original_directory);
            let between = if directory_written {
                match directory {
                    Step::Done { next, .. } => next,
                    Step::Failed { next, .. } => next,
                    Step::Astray => 0,
                }
            } else {
                at
            };
            let profile = write_sector_at(wire, between, features, plan.sector, plan.original_profile);
            let restored = restore_at(wire, at, features, plan, directory_written, profile_written);
            &&& directory_written && directory is Astray ==> restored is Astray
            &&& !(directory_written && directory is Astray) && profile_written && profile is Astray ==> restored is Astray
            &&& restored is Done ==> (directory_written ==> directory is Done) && (profile_written ==> profile is Done)
            &&& (directory_written ==> directory is Done) && (profile_written ==> profile is Done) ==> restored is Done
            &&& undone::<()>(restored, error) matches Step::Failed { error: told, .. } ==> (match restored {
                Step::Done { .. } => told == ErrorView::Other(
                    error_text(error) + "; the original onboard data was restored"@,
                ),
                Step::Failed { error: second, .. } => told == ErrorView::Other(
                    error_text(error) + "; restoring the original onboard data also failed: "@ + error_text(second),
                ),
                Step::Astray => false,
            })
            &&& !(undone::<()>(restored, error) is Done)
        }),
{
    reveal(restore_at);
}

/// After a profile and its directory are written, the sector is read once more. Where it does not hold the profile with a
/// valid checksum, everything that was written is undone.
pub proof fn stored_profile_is_read_once_more(
    wire: Wire,
    at: int,
    features: Seq<FeatureView>,
    slot: u8,
    plan: PlanView,
    directory_written: bool,
    profile_written: bool,
)
    requires
        sector_at(wire, at, features, plan.sector, plan.sector_size) is Done,
    ensures
        ({
            let read = sector_at(wire, at, features, plan.sector, plan.sector_size)->value;
            let next = sector_at(wire, at, features, plan.sector, plan.sector_size)->Done_next;
            let told = confirm_at(wire, at, features, slot, plan, directory_written, profile_written);
            if read.crc_valid && read.data_hex == hex_text(plan.profile, true) {
                told == (Step::Done {
                    value: OnboardProfileWrite {
                        slot,
                        sector: plan.sector,
                        profile_written,
                        directory_written,
                        crc_valid: true,
                    },
                    next,
                })
            } else {
                exists|error: ErrorView| #[trigger]
                    undone::<OnboardProfileWrite>(
                        restore_at(wire, next, features, plan, directory_written, profile_written),
                        error,
                    ) == told && error is Verification
            }
        }),
{
    reveal(confirm_at);
    let next = sector_at(wire, at, features, plan.sector, plan.sector_size)->Done_next;
    let told = confirm_at(wire, at, features, slot, plan, directory_written, profile_written);
    let error = ErrorView::Verification("onboard profile slot "@ + dec(slot as nat) + " did not match after writing"@);
    assert(told is Done || undone::<OnboardProfileWrite>(
        restore_at(wire, next, features, plan, directory_written, profile_written),
        error,
    ) == told);
}

/// Storing a profile succeeds where the plan can be made, what is to be written is written, and the sector then reads as
/// planned. What was the same before is not written.
pub proof fn planned_profile_is_stored(
    wire: Wire,
    at: int,
    features: Seq<FeatureView>,
    slot: u8,
    profile: ProfileView,
    directory: Seq<u8>,
    begun: int,
    stored: int,
    enabled: int,
)
    requires
        plan_at(wire, at, features, slot, profile) is Done,
        plan_at(wire, at, features, slot, profile)->Done_next == begun,
        ({
            let plan = plan_at(wire, at, features, slot, profile)->value;
            let read = sector_at(wire, enabled, features, plan.sector, plan.sector_size);
            &&& directory_with(plan.original_directory, slot, plan.sector) == Some(directory)
            &&& plan.profile == plan.original_profile ==> stored == begun
            &&& plan.profile != plan.original_profile ==> write_sector_at(
                wire,
                begun,
                features,
                plan.sector,
                plan.profile,
            ) == (Step::Done { value: (), next: stored })
            &&& directory == plan.original_directory ==> enabled == stored
            &&& directory != plan.original_directory ==> write_sector_at(wire, stored, features, 0, directory) == (
            Step::Done { value: (), next: enabled })
            &&& read is Done && read->value.crc_valid && read->value.data_hex == hex_text(plan.profile, true)
        }),
    ensures
        write_profile_at(wire, at, features, slot, profile) is Done,
        ({
            let plan = plan_at(wire, at, features, slot, profile)->value;
            let told = write_profile_at(wire, at, features, slot, profile)->value;
            &&& told.slot == slot
            &&& told.sector == plan.sector
            &&& told.profile_written <==> plan.profile != plan.original_profile
            &&& told.directory_written <==> directory != plan.original_directory
            &&& told.crc_valid
        }),
{
    reveal(write_profile_at);
    reveal(enable_at);
    reveal(confirm_at);
}

/// A sector is verified by writing what was read and reading it again. It succeeds where both readings are the same, and
/// otherwise what was read is written once more.
pub proof fn sector_is_verified(
    wire: Wire,
    at: int,
    features: Seq<FeatureView>,
    sector: u16,
    told: int,
    read: int,
    bytes: Seq<u8>,
    written: int,
)
    requires
        onboard_info_at(wire, at, features) is Done,
        onboard_info_at(wire, at, features)->Done_next == told,
        ({
            let info = onboard_info_at(wire, at, features)->value;
            let original = sector_at(wire, told, features, sector, info.sector_size);
            &&& info.memory_model == 1 && info.profile_format == 7 && info.sector_size >= 70
            &&& sector < info.sector_count
            &&& original is Done
            &&& original->Done_next == read
            &&& original->value.crc_valid
            &&& bytes_of_sector(original->value) == Outcome::Ok(bytes)
            &&& write_sector_at(wire, read, features, sector, bytes) == (Step::Done { value: (), next: written })
            &&& sector_at(wire, written, features, sector, info.sector_size) is Done
        }),
    ensures
        ({
            let info = onboard_info_at(wire, at, features)->value;
            let original = sector_at(wire, told, features, sector, info.sector_size)->value;
            let again = sector_at(wire, written, features, sector, info.sector_size);
            &&& again->value == original ==> verify_write_at(wire, at, features, sector) == again
            &&& again->value != original ==> !(verify_write_at(wire, at, features, sector) is Done)
        }),
{
    reveal(verify_write_at);
}

}
