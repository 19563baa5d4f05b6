//! What reading the memory of a mouse asks for, and what the replies say.

use vstd::prelude::*;

use crate::bytes::{high_of, low_of, overwritten};
use crate::device::format07::{encoded_profile, encoding_keeps_length, profile_refusal, with_crc};
use crate::device::guarantees::{end_of, holds, planning_only_reads, reading_a_sector_only_reads};
use crate::device::memory::{
    confirm_at, enable_at, header_of_slot, payload_of, payloads_at, plan_at, planned, restore_at, write_if_at,
    write_profile_at, write_sector_at, write_start, PlanView,
};
use crate::device::onboard::{
    chunk_at, crc16, crc_shift, crc_shifts, directory_at, headers_at, headers_from, offset_after, onboard_info_at,
    sector_at, sector_bytes_at, HeaderView,
};
use crate::device::storing::{checksum_is_put_at_the_end, ends_with_checksum};
use crate::hexcode::hex_text;
use crate::hidpp::asking::{answered, asked, at_index, bytes_make_word, missing_feature_is_named, read_gives_answer};
use crate::hidpp::features::{required_feature, FeatureView};
use crate::hidpp::session::{call_at, Step, Wire};
use crate::profile::ProfileView;

verus! {

/// The checksum of bytes followed by one more. The top half of the checksum meets the byte and is folded once; the fold
/// comes back at bits 12, 5 and 0. Without bytes, the checksum is all ones.
pub proof fn checksum_takes_in_a_byte(bytes: Seq<u8>, byte: u8)
    ensures
        crc16(Seq::empty()) == 0xffff,
        ({
            let crc = crc16(bytes);
            let met = (crc >> 8) ^ (byte as u16);
            let fold = met ^ (met >> 4);
            crc16(bytes.push(byte)) == (crc << 8) ^ (fold << 12) ^ (fold << 5) ^ fold
        }),
{
    let crc = crc16(bytes);
    let b = byte as u16;
    assert(bytes.push(byte).drop_last() =~= bytes);
    assert(bytes.push(byte).last() == byte);
    reveal_with_fuel(crc_shifts, 9);
    let s0 = crc ^ (b << 8);
    let s1 = crc_shift(s0);
    let s2 = crc_shift(s1);
    let s3 = crc_shift(s2);
    let s4 = crc_shift(s3);
    let s5 = crc_shift(s4);
    let s6 = crc_shift(s5);
    let s7 = crc_shift(s6);
    let s8 = crc_shift(s7);
    assert(crc16(bytes.push(byte)) == s8);
    let met = (crc >> 8) ^ b;
    let fold = met ^ (met >> 4);
    assert(s8 == (crc << 8) ^ (fold << 12) ^ (fold << 5) ^ fold) by (bit_vector)
        requires
            b <= 0xff,
            s0 == crc ^ (b << 8),
            s1 == if s0 & 0x8000 != 0 { (s0 << 1) ^ 0x1021 } else { s0 << 1 },
            s2 == if s1 & 0x8000 != 0 { (s1 << 1) ^ 0x1021 } else { s1 << 1 },
            s3 == if s2 & 0x8000 != 0 { (s2 << 1) ^ 0x1021 } else { s2 << 1 },
            s4 == if s3 & 0x8000 != 0 { (s3 << 1) ^ 0x1021 } else { s3 << 1 },
            s5 == if s4 & 0x8000 != 0 { (s4 << 1) ^ 0x1021 } else { s4 << 1 },
            s6 == if s5 & 0x8000 != 0 { (s5 << 1) ^ 0x1021 } else { s5 << 1 },
            s7 == if s6 & 0x8000 != 0 { (s6 << 1) ^ 0x1021 } else { s6 << 1 },
            s8 == if s7 & 0x8000 != 0 { (s7 << 1) ^ 0x1021 } else { s7 << 1 },
            met == (crc >> 8) ^ b,
            fold == met ^ (met >> 4),
    ;
}

/// A mouse tells of its memory with function 0, byte by byte; the size of a sector is a word, high byte first.
pub proof fn memory_is_told_of(wire: Wire, at: int, features: Seq<FeatureView>, index: u8, reply: Seq<u8>, next: int)
    requires
        at_index(features, 0x8100, index),
        answered(wire, at, index, 0x00, Seq::empty(), reply, next),
    ensures
        reply.len() < 16 ==> (onboard_info_at(wire, at, features) matches Step::Failed { next: end, .. } && end == next),
        reply.len() >= 16 ==> (onboard_info_at(wire, at, features) matches Step::Done { value, next: end } && end == next
            && value.memory_model == reply[0] && value.profile_format == reply[1] && value.macro_format == reply[2]
            && value.profile_count == reply[3] && value.rom_profile_count == reply[4] && value.button_count == reply[5]
            && value.sector_count == reply[6] && value.sector_size == 256 * reply[7] + reply[8]
            && value.mechanical_layout == reply[9] && value.various_info == reply[10] && value.reserved_hex == hex_text(
            seq![reply[11], reply[12], reply[13], reply[14], reply[15]],
            true,
        ) && value.raw_hex == hex_text(reply.take(16), true)),
{
    reveal(onboard_info_at);
    missing_feature_is_named(features, 0x8100);
    read_gives_answer(wire, at, index, 0x00, Seq::empty(), reply, next);
    if reply.len() >= 16 {
        assert(reply.subrange(11, 16) =~= seq![reply[11], reply[12], reply[13], reply[14], reply[15]]);
        assert(reply.subrange(0, 16) =~= reply.take(16));
    }
}

/// Whether sixteen bytes or more of a sector were asked for with function 5, from an offset on, and came.
pub open spec fn chunk_answered(
    wire: Wire,
    at: int,
    feature_index: u8,
    sector: int,
    offset: int,
    reply: Seq<u8>,
    next: int,
) -> bool {
    let parameters = wire.exchanges[at].request.parameters;
    &&& parameters.len() == 4
    &&& 256 * parameters[0] + parameters[1] == sector
    &&& 256 * parameters[2] + parameters[3] == offset
    &&& answered(wire, at, feature_index, 0x50, parameters, reply, next)
    &&& reply.len() >= 16
}

/// A part of a sector is read exactly where it was asked for by the sector and the offset, each high byte first, and came
/// whole.
pub proof fn chunk_is_asked_for(
    wire: Wire,
    at: int,
    feature_index: u8,
    sector: u16,
    offset: u16,
    reply: Seq<u8>,
    next: int,
)
    ensures
        chunk_at(wire, at, feature_index, sector, offset) == (Step::Done { value: reply, next }) <==> chunk_answered(
            wire,
            at,
            feature_index,
            sector as int,
            offset as int,
            reply,
            next,
        ),
{
    let parameters = seq![high_of(sector), low_of(sector), high_of(offset), low_of(offset)];
    bytes_make_word(high_of(sector), low_of(sector), sector);
    bytes_make_word(high_of(offset), low_of(offset), offset);
    read_gives_answer(wire, at, feature_index, 0x50, parameters, reply, next);
    if chunk_answered(wire, at, feature_index, sector as int, offset as int, reply, next) {
        let sent = wire.exchanges[at].request.parameters;
        bytes_make_word(sent[0], sent[1], sector);
        bytes_make_word(sent[2], sent[3], offset);
        assert(sent =~= parameters);
    }
}

/// Whether a byte of a sector is one that a reply brought, at its place.
pub open spec fn byte_read(
    wire: Wire,
    from: int,
    to: int,
    feature_index: u8,
    sector: int,
    place: int,
    byte: u8,
) -> bool {
    exists|at: int, offset: int, reply: Seq<u8>, next: int|
        from <= at < next <= to && offset <= place < offset + 16 && reply[place - offset] == byte
            && #[trigger] chunk_answered(wire, at, feature_index, sector, offset, reply, next)
}

proof fn later_bytes_are_read(
    wire: Wire,
    from: int,
    to: int,
    later: int,
    feature_index: u8,
    sector: int,
    place: int,
    byte: u8,
)
    requires
        byte_read(wire, from, to, feature_index, sector, place, byte),
        to <= later,
    ensures
        byte_read(wire, from, later, feature_index, sector, place, byte),
{
    let (at, offset, reply, next) = choose|at: int, offset: int, reply: Seq<u8>, next: int|
        from <= at < next <= to && offset <= place < offset + 16 && reply[place - offset] == byte
            && #[trigger] chunk_answered(wire, at, feature_index, sector, offset, reply, next);
    assert(chunk_answered(wire, at, feature_index, sector, offset, reply, next));
}

proof fn every_byte_is_read(
    wire: Wire,
    from: int,
    at: int,
    feature_index: u8,
    sector: u16,
    offset: int,
    bytes: Seq<u8>,
)
    requires
        from <= at,
        0 <= offset <= bytes.len() - 16,
        bytes.len() <= 0xffff,
        forall|i: int|
            0 <= i < offset ==> byte_read(wire, from, at, feature_index, sector as int, i, #[trigger] bytes[i]),
        sector_bytes_at(wire, at, feature_index, sector, offset, bytes) is Done,
    ensures
        ({
            let read = sector_bytes_at(wire, at, feature_index, sector, offset, bytes)->value;
            let next = sector_bytes_at(wire, at, feature_index, sector, offset, bytes)->Done_next;
            &&& at <= next
            &&& read.len() == bytes.len()
            &&& forall|i: int|
                0 <= i < read.len() ==> byte_read(wire, from, next, feature_index, sector as int, i, #[trigger] read[i])
        }),
    decreases bytes.len() - offset,
{
    let reply = chunk_at(wire, at, feature_index, sector, offset as u16)->value;
    let next = chunk_at(wire, at, feature_index, sector, offset as u16)->Done_next;
    chunk_is_asked_for(wire, at, feature_index, sector, offset as u16, reply, next);
    let filled = overwritten(bytes, offset, reply.take(16));
    assert forall|i: int| 0 <= i < offset + 16 implies byte_read(
        wire,
        from,
        next,
        feature_index,
        sector as int,
        i,
        #[trigger] filled[i],
    ) by {
        if i >= offset {
            assert(filled[i] == reply[i - offset]);
            assert(chunk_answered(wire, at, feature_index, sector as int, offset, reply, next));
        } else {
            assert(filled[i] == bytes[i]);
            later_bytes_are_read(wire, from, at, next, feature_index, sector as int, i, bytes[i]);
        }
    }
    if offset < bytes.len() - 16 {
        every_byte_is_read(
            wire,
            from,
            next,
            feature_index,
            sector,
            offset_after(offset, bytes.len() as int),
            filled,
        );
    }
}

/// A sector that was read has the size that was asked for, and every byte of it is one that a reply brought, at its place.
/// Its checksum is the word in its last two bytes, high byte first, and is valid where it is that of the bytes before.
pub proof fn sector_is_read_byte_by_byte(wire: Wire, at: int, features: Seq<FeatureView>, sector: u16, size: u16) -> (read: (
    u8,
    Seq<u8>,
))
    requires
        sector_at(wire, at, features, sector, size) is Done,
    ensures
        ({
            let (index, bytes) = read;
            let told = sector_at(wire, at, features, sector, size)->value;
            let next = sector_at(wire, at, features, sector, size)->Done_next;
            &&& size >= 16
            &&& at_index(features, 0x8100, index)
            &&& bytes.len() == size
            &&& forall|i: int|
                0 <= i < size ==> byte_read(wire, at, next, index, sector as int, i, #[trigger] bytes[i])
            &&& told.sector == sector
            &&& told.size == size
            &&& told.data_hex == hex_text(bytes, true)
            &&& told.stored_crc == 256 * bytes[size - 2] + bytes[size - 1]
            &&& told.computed_crc == crc16(bytes.take(size - 2))
            &&& told.crc_valid <==> ends_with_checksum(bytes)
        }),
{
    reveal(sector_at);
    missing_feature_is_named(features, 0x8100);
    let index = required_feature(features, 0x8100)->Ok_0.index;
    let zeros = Seq::new(size as nat, |i: int| 0u8);
    every_byte_is_read(wire, at, at, index, sector, 0, zeros);
    let bytes = sector_bytes_at(wire, at, index, sector, 0, zeros)->value;
    (index, bytes)
}

/// The directory is read from sector 0 in parts of sixteen bytes, until there are enough.
pub proof fn directory_is_read_in_parts(
    wire: Wire,
    at: int,
    feature_index: u8,
    offset: int,
    required: int,
    bytes: Seq<u8>,
    reply: Seq<u8>,
    next: int,
)
    requires
        0 <= offset <= 65535,
    ensures
        offset >= required ==> directory_at(wire, at, feature_index, offset, required, bytes) == (Step::Done {
            value: bytes,
            next: at,
        }),
        offset < required && chunk_answered(wire, at, feature_index, 0, offset, reply, next) ==> directory_at(
            wire,
            at,
            feature_index,
            offset,
            required,
            bytes,
        ) == directory_at(wire, next, feature_index, offset + 16, required, bytes + reply),
{
    chunk_is_asked_for(wire, at, feature_index, 0, offset as u16, reply, next);
}

/// The slots that a mouse lists are those of the directory, which is read for four bytes for each profile that there can
/// be, and four more.
pub proof fn slots_are_those_of_directory(wire: Wire, at: int, features: Seq<FeatureView>, index: u8)
    requires
        at_index(features, 0x8100, index),
        onboard_info_at(wire, at, features) is Done,
    ensures
        ({
            let info = onboard_info_at(wire, at, features);
            let count = info->value.profile_count as int;
            match directory_at(wire, info->Done_next, index, 0, 4 * count + 4, Seq::empty()) {
                Step::Done { value, next } => headers_at(wire, at, features) == (Step::Done {
                    value: headers_from(value, count, 0),
                    next,
                }),
                Step::Failed { error, next } => headers_at(wire, at, features) == (Step::<Seq<HeaderView>>::Failed {
                    error,
                    next,
                }),
                Step::Astray => headers_at(wire, at, features) is Astray,
            }
        }),
{
    reveal(headers_at);
    missing_feature_is_named(features, 0x8100);
}

/// The slot that is taken is the first one of its number.
pub proof fn slot_is_found(headers: Seq<HeaderView>, slot: u8, from: int)
    requires
        0 <= from,
    ensures
        match header_of_slot(headers, slot, from) {
            Some(header) => exists|k: int|
                from <= k < headers.len() && #[trigger] headers[k] == header && header.slot == slot && forall|j: int|
                    from <= j < k ==> (#[trigger] headers[j]).slot != slot,
            None => forall|j: int| from <= j < headers.len() ==> (#[trigger] headers[j]).slot != slot,
        },
    decreases headers.len() - from,
{
    if from < headers.len() && headers[from].slot != slot {
        slot_is_found(headers, slot, from + 1);
        if let Some(header) = header_of_slot(headers, slot, from) {
            let k = choose|k: int|
                from + 1 <= k < headers.len() && #[trigger] headers[k] == header && header.slot == slot && forall|
                    j: int,
                |
                    from + 1 <= j < k ==> (#[trigger] headers[j]).slot != slot;
            assert(headers[k] == header);
        }
    } else if from < headers.len() {
        assert(headers[from].slot == slot);
    }
}

/// What is planned for a slot. The memory is one that can be edited: model 1, format 7, sectors of 70 bytes or more. The
/// sector is that of the first slot of the number, and it is there. What is on it and the directory are read with valid
/// checksums; and what is to be written on it is the profile in the place of the old one, with its checksum.
pub proof fn plan_is_made_from_memory(wire: Wire, at: int, features: Seq<FeatureView>, slot: u8, profile: ProfileView)
    requires
        plan_at(wire, at, features, slot, profile) is Done,
    ensures
        ({
            let plan = plan_at(wire, at, features, slot, profile)->value;
            let told = onboard_info_at(wire, at, features);
            let listed = headers_at(wire, told->Done_next, features);
            let header = header_of_slot(listed->value, slot, 0)->0;
            let old_profile = sector_at(wire, listed->Done_next, features, plan.sector, plan.sector_size);
            let old_directory = sector_at(wire, old_profile->Done_next, features, 0, plan.sector_size);
            let encoded = encoded_profile(plan.original_profile, profile);
            &&& told is Done && told->value.memory_model == 1 && told->value.profile_format == 7
            &&& told->value.sector_size >= 70 && plan.sector_size == told->value.sector_size
            &&& listed is Done && header_of_slot(listed->value, slot, 0) is Some
            &&& plan.sector == header.sector && plan.sector < told->value.sector_count
            &&& old_profile is Done && old_profile->value.crc_valid
            &&& old_directory is Done && old_directory->value.crc_valid
            &&& holds(old_profile->value, plan.original_profile)
            &&& holds(old_directory->value, plan.original_directory)
            &&& plan_at(wire, at, features, slot, profile)->Done_next == old_directory->Done_next
            &&& encoded.1 is Ok
            &&& plan.profile.len() == plan.original_profile.len()
            &&& forall|i: int| 0 <= i < plan.profile.len() - 2 ==> #[trigger] plan.profile[i] == encoded.0[i]
            &&& ends_with_checksum(plan.profile)
        }),
{
    reveal(plan_at);
    let plan = plan_at(wire, at, features, slot, profile)->value;
    encoding_keeps_length(plan.original_profile, profile);
    checksum_is_put_at_the_end(encoded_profile(plan.original_profile, profile).0);
}

/// Whether every exchange of a stretch of a record reads the memory, or belongs to a write of sector 0 or of another
/// sector.
pub open spec fn keeps_to_sectors(wire: Wire, from: int, to: int, sector: int) -> bool {
    forall|i: int|
        from <= i < to && 0 <= i < wire.exchanges.len() ==> keeps_to_sector(
            (#[trigger] wire.exchanges[i]).request.function,
            wire.exchanges[i].request.parameters,
            sector,
        )
}

/// Whether a function of the memory reads it, goes on with a write, or starts one of sector 0 or of another sector.
pub open spec fn keeps_to_sector(function: u8, parameters: Seq<u8>, sector: int) -> bool {
    ||| function == 0x00 || function == 0x20 || function == 0x40 || function == 0x50
    ||| function == 0x70 || function == 0x80
    ||| function == 0x60 && (256 * parameters[0] + parameters[1] == 0 || 256 * parameters[0] + parameters[1] == sector)
}

proof fn payloads_keep_to_sectors(wire: Wire, at: int, feature_index: u8, data: Seq<u8>, offset: int, sector: int)
    ensures
        end_of(payloads_at(wire, at, feature_index, data, offset)) matches Some(next) ==> at <= next
            && keeps_to_sectors(wire, at, next, sector),
    decreases data.len() + 16 - offset,
{
    if 0 <= offset < data.len() {
        if let Step::Done { next, .. } = call_at(wire, at, feature_index, 0x70, payload_of(data, offset)) {
            payloads_keep_to_sectors(wire, next, feature_index, data, offset + 16, sector);
        }
    }
}

proof fn write_keeps_to_sectors(
    wire: Wire,
    at: int,
    features: Seq<FeatureView>,
    target: u16,
    bytes: Seq<u8>,
    sector: int,
)
    requires
        target == 0 || target == sector,
    ensures
        end_of(write_sector_at(wire, at, features, target, bytes)) matches Some(next) ==> at <= next
            && keeps_to_sectors(wire, at, next, sector),
{
    reveal(write_sector_at);
    if 16 <= bytes.len() <= u16::MAX {
        let data = with_crc(bytes);
        if let Ok(feature) = required_feature(features, 0x8100) {
            bytes_make_word(high_of(target), low_of(target), target);
            let start = write_start(target, data.len());
            assert(256 * start[0] + start[1] == target);
            let started = call_at(wire, at, feature.index, 0x60, start);
            assert(end_of(started) matches Some(next) ==> keeps_to_sectors(wire, at, next, sector));
            if let Step::Done { next, .. } = started {
                payloads_keep_to_sectors(wire, next, feature.index, data, 0, sector);
                if let Step::Done { next: sent, .. } = payloads_at(wire, next, feature.index, data, 0) {
                    let ended = call_at(wire, sent, feature.index, 0x80, Seq::empty());
                    assert(end_of(ended) matches Some(next) ==> keeps_to_sectors(wire, at, next, sector));
                    if let Step::Done { next: over, .. } = ended {
                        reading_a_sector_only_reads(wire, over, features, target, data.len() as u16);
                    }
                }
            }
        }
    }
}

/// Storing a profile writes to the sector of its slot and to sector 0, which holds the directory, and to no other, also
/// where it fails and undoes what it did. It changes neither the mode nor the stage nor the active profile.
pub proof fn storing_keeps_to_its_sector(wire: Wire, at: int, features: Seq<FeatureView>, slot: u8, profile: ProfileView)
    requires
        plan_at(wire, at, features, slot, profile) is Done,
    ensures
        end_of(write_profile_at(wire, at, features, slot, profile)) matches Some(next) ==> at <= next
            && keeps_to_sectors(wire, at, next, plan_at(wire, at, features, slot, profile)->value.sector as int),
{
    reveal(write_profile_at);
    reveal(enable_at);
    reveal(confirm_at);
    reveal(restore_at);
    planning_only_reads(wire, at, features, slot, profile);
    let planning = plan_at(wire, at, features, slot, profile);
    let plan = planning->value;
    let sector = plan.sector as int;
    let begun = planning->Done_next;
    assert(keeps_to_sectors(wire, at, begun, sector));
    let profile_written = plan.profile != plan.original_profile;
    write_keeps_to_sectors(wire, begun, features, plan.sector, plan.profile, sector);
    match write_if_at(wire, begun, features, profile_written, plan.sector, plan.profile) {
        Step::Astray => {},
        Step::Failed { next, .. } => {
            write_keeps_to_sectors(wire, next, features, plan.sector, plan.original_profile, sector);
        },
        Step::Done { next, .. } => {
            enabling_keeps_to_sectors(wire, next, features, slot, plan, profile_written);
        },
    }
}

proof fn restoring_keeps_to_sectors(
    wire: Wire,
    at: int,
    features: Seq<FeatureView>,
    plan: PlanView,
    directory_written: bool,
    profile_written: bool,
)
    ensures
        end_of(restore_at(wire, at, features, plan, directory_written, profile_written)) matches Some(next) ==> at
            <= next && keeps_to_sectors(wire, at, next, plan.sector as int),
{
    reveal(restore_at);
    let sector = plan.sector as int;
    write_keeps_to_sectors(wire, at, features, 0, plan.original_directory, sector);
    let first = write_if_at(wire, at, features, directory_written, 0, plan.original_directory);
    if let Some(next) = end_of(first) {
        write_keeps_to_sectors(wire, next, features, plan.sector, plan.original_profile, sector);
    }
}

proof fn enabling_keeps_to_sectors(
    wire: Wire,
    at: int,
    features: Seq<FeatureView>,
    slot: u8,
    plan: PlanView,
    profile_written: bool,
)
    ensures
        end_of(enable_at(wire, at, features, slot, plan, profile_written)) matches Some(next) ==> at <= next
            && keeps_to_sectors(wire, at, next, plan.sector as int),
{
    reveal(enable_at);
    reveal(confirm_at);
    let sector = plan.sector as int;
    match crate::device::memory::directory_with(plan.original_directory, slot, plan.sector) {
        None => {
            write_keeps_to_sectors(wire, at, features, plan.sector, plan.original_profile, sector);
        },
        Some(directory) => {
            let directory_written = directory != plan.original_directory;
            write_keeps_to_sectors(wire, at, features, 0, directory, sector);
            match write_if_at(wire, at, features, directory_written, 0, directory) {
                Step::Astray => {},
                Step::Failed { next, .. } => {
                    restoring_keeps_to_sectors(wire, next, features, plan, true, profile_written);
                },
                Step::Done { next, .. } => {
                    reading_a_sector_only_reads(wire, next, features, plan.sector, plan.sector_size);
                    if let Some(read) = end_of(sector_at(wire, next, features, plan.sector, plan.sector_size)) {
                        restoring_keeps_to_sectors(wire, read, features, plan, directory_written, profile_written);
                    }
                },
            }
        },
    }
}

/// A plan can be made where the profile can be stored, the memory can be edited, the slot is listed at a sector of the
/// memory, and both sectors are read with valid checksums. Otherwise nothing is planned: a slot that is not listed is
/// refused, and a sector that is not there, or a checksum that is not valid, is an error.
pub proof fn plan_is_owed(
    wire: Wire,
    at: int,
    features: Seq<FeatureView>,
    slot: u8,
    profile: ProfileView,
    told: int,
    listed: int,
    old_profile: Seq<u8>,
    old_directory: Seq<u8>,
)
    requires
        profile_refusal(profile) is None,
        onboard_info_at(wire, at, features) is Done,
        onboard_info_at(wire, at, features)->Done_next == told,
        ({
            let info = onboard_info_at(wire, at, features)->value;
            info.memory_model == 1 && info.profile_format == 7 && info.sector_size >= 70
        }),
        headers_at(wire, told, features) is Done,
        headers_at(wire, told, features)->Done_next == listed,
    ensures
        ({
            let info = onboard_info_at(wire, at, features)->value;
            let step = plan_at(wire, at, features, slot, profile);
            match header_of_slot(headers_at(wire, told, features)->value, slot, 0) {
                None => step matches Step::Failed { error, next } && error is Validation && next == listed,
                Some(header) => if header.sector >= info.sector_count {
                    step matches Step::Failed { error, next } && error is Verification && next == listed
                } else {
                    let first = sector_at(wire, listed, features, header.sector, info.sector_size);
                    let second = sector_at(wire, first->Done_next, features, 0, info.sector_size);
                    first is Done && second is Done ==> {
                        &&& !first->value.crc_valid || !second->value.crc_valid ==> (step matches Step::Failed {
                            error,
                            next,
                        } && error is Verification && next == second->Done_next)
                        &&& holds(first->value, old_profile) && holds(second->value, old_directory) && encoded_profile(
                            old_profile,
                            profile,
                        ).1 is Ok ==> (step matches Step::Done { value, next } && next == second->Done_next
                            && value.sector == header.sector && value.sector_size == info.sector_size
                            && value.original_profile == old_profile && value.original_directory == old_directory)
                    }
                },
            }
        }),
{
    reveal(plan_at);
}

}
