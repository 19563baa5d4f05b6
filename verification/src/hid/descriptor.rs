//! HID report descriptors: which reports a node has and how long they are.

use std::collections::BTreeMap;

use vstd::prelude::*;

use crate::hexcode::{encode, hex_text};
use crate::order::{ascending_u32, ascending_u8, insert_ascending_u32, insert_ascending_u8};

verus! {

broadcast use vstd::std_specs::btree::group_btree_axioms;

/// What a report descriptor says: its report IDs, the bits of each report and the usage pages.
#[derive(Debug, Clone, PartialEq, Eq)]
pub struct ReportDescriptorSummary {
    pub byte_length: usize,
    pub report_ids: Vec<u8>,
    pub input_bits: BTreeMap<u8, usize>,
    pub output_bits: BTreeMap<u8, usize>,
    pub feature_bits: BTreeMap<u8, usize>,
    pub usage_pages: Vec<u32>,
    pub raw_hex: String,
}

/// What has been read of a descriptor.
pub struct Survey {
    pub report_id: u8,
    pub report_size: int,
    pub report_count: int,
    pub report_ids: Set<u8>,
    pub usage_pages: Set<u32>,
    pub input_bits: Map<u8, usize>,
    pub output_bits: Map<u8, usize>,
    pub feature_bits: Map<u8, usize>,
}

/// What is known before the first item.
pub open spec fn blank_survey() -> Survey {
    Survey {
        report_id: 0,
        report_size: 0,
        report_count: 0,
        report_ids: Set::empty(),
        usage_pages: Set::empty(),
        input_bits: Map::empty(),
        output_bits: Map::empty(),
        feature_bits: Map::empty(),
    }
}

/// The number that bytes stand for, the lowest byte first.
pub open spec fn little(bytes: Seq<u8>) -> int
    decreases bytes.len(),
{
    if bytes.len() == 0 {
        0
    } else {
        bytes[0] + 256 * little(bytes.skip(1))
    }
}

/// How many bytes follow the prefix of a short item.
pub open spec fn item_size(prefix: u8) -> int {
    if prefix % 4 == 3 {
        4
    } else {
        (prefix % 4) as int
    }
}

/// The bits of `count` fields of `size` bits, as far as a word of the machine holds them.
pub open spec fn field_bits(size: int, count: int) -> int {
    if size * count > usize::MAX {
        usize::MAX as int
    } else {
        size * count
    }
}

/// A total with more bits added, round the end of a word of the machine.
pub open spec fn wrapped_sum(total: int, more: int) -> int {
    if total + more > usize::MAX {
        total + more - usize::MAX - 1
    } else {
        total + more
    }
}

/// The bits of the reports with the main item's fields added to the current report.
pub open spec fn with_fields(bits: Map<u8, usize>, survey: Survey) -> Map<u8, usize> {
    let total: int = if bits.contains_key(survey.report_id) {
        bits[survey.report_id] as int
    } else {
        0
    };
    bits.insert(
        survey.report_id,
        wrapped_sum(total, field_bits(survey.report_size, survey.report_count)) as usize,
    )
}

/// What is known after one more short item.
pub open spec fn noted(survey: Survey, prefix: u8, value: int) -> Survey {
    let kind = prefix / 4 % 4;
    let tag = prefix / 16;
    if kind == 1 && tag == 0 {
        Survey { usage_pages: survey.usage_pages.insert(value as u32), ..survey }
    } else if kind == 1 && tag == 7 {
        Survey { report_size: value, ..survey }
    } else if kind == 1 && tag == 8 {
        Survey {
            report_id: (value % 256) as u8,
            report_ids: survey.report_ids.insert((value % 256) as u8),
            ..survey
        }
    } else if kind == 1 && tag == 9 {
        Survey { report_count: value, ..survey }
    } else if kind == 0 && tag == 8 {
        Survey { input_bits: with_fields(survey.input_bits, survey), ..survey }
    } else if kind == 0 && tag == 9 {
        Survey { output_bits: with_fields(survey.output_bits, survey), ..survey }
    } else if kind == 0 && tag == 11 {
        Survey { feature_bits: with_fields(survey.feature_bits, survey), ..survey }
    } else {
        survey
    }
}

/// What a descriptor says from `offset` on, after what is known already. Long items are passed over; an item
/// that is cut short ends the descriptor.
pub open spec fn surveyed(bytes: Seq<u8>, offset: int, survey: Survey) -> Survey
    decreases bytes.len() - offset,
{
    if offset < 0 || offset >= bytes.len() {
        survey
    } else if bytes[offset] == 0xfe {
        if offset + 3 > bytes.len() {
            survey
        } else {
            let end = offset + 3 + bytes[offset + 1];
            surveyed(
                bytes,
                if end > bytes.len() {
                    bytes.len() as int
                } else {
                    end
                },
                survey,
            )
        }
    } else {
        let size = item_size(bytes[offset]);
        if offset + 1 + size > bytes.len() {
            survey
        } else {
            surveyed(
                bytes,
                offset + 1 + size,
                noted(survey, bytes[offset], little(bytes.subrange(offset + 1, offset + 1 + size))),
            )
        }
    }
}

/// Whether a summary says what a survey found.
pub open spec fn summarizes(summary: ReportDescriptorSummary, survey: Survey) -> bool {
    &&& ascending_u8(summary.report_ids@)
    &&& summary.report_ids@.to_set() == survey.report_ids
    &&& ascending_u32(summary.usage_pages@)
    &&& summary.usage_pages@.to_set() == survey.usage_pages
    &&& summary.input_bits@ == survey.input_bits
    &&& summary.output_bits@ == survey.output_bits
    &&& summary.feature_bits@ == survey.feature_bits
}

proof fn little_bound(bytes: Seq<u8>)
    requires
        bytes.len() <= 4,
    ensures
        0 <= little(bytes) <= u32::MAX,
{
    reveal_with_fuel(little, 5);
}

fn little_value(bytes: &[u8]) -> (value: u32)
    requires
        bytes@.len() <= 4,
    ensures
        value == little(bytes@),
{
    let mut value: u64 = 0;
    let mut i: usize = bytes.len();
    assert(bytes@.skip(i as int) =~= Seq::empty());
    while i > 0
        invariant
            i <= bytes.len() <= 4,
            value == little(bytes@.skip(i as int)),
        decreases i,
    {
        i = i - 1;
        assert(bytes@.skip(i as int).skip(1) =~= bytes@.skip(i + 1));
        proof {
            little_bound(bytes@.skip(i as int));
        }
        value = bytes[i] as u64 + 256 * value;
    }
    assert(bytes@.skip(0) =~= bytes@);
    proof {
        little_bound(bytes@);
    }
    value as u32
}

fn add_bits(map: &mut BTreeMap<u8, usize>, report_id: u8, report_size: u32, report_count: u32)
    ensures
        forall|survey: Survey|
            survey.report_id == report_id && survey.report_size == report_size && survey.report_count == report_count
                ==> final(map)@ == #[trigger] with_fields(old(map)@, survey),
{
    let product: u64 = {
        assert(report_size * report_count <= u64::MAX) by (nonlinear_arith)
            requires
                report_size <= u32::MAX,
                report_count <= u32::MAX,
        ;
        report_size as u64 * report_count as u64
    };
    let bits: usize = if product > usize::MAX as u64 { usize::MAX } else { product as usize };
    let total: usize = match map.get(&report_id) {
        Some(total) => *total,
        None => 0,
    };
    map.insert(report_id, total.wrapping_add(bits));
}

/// Reads a report descriptor.
pub fn inspect(bytes: &[u8]) -> (summary: ReportDescriptorSummary)
    ensures
        summary.byte_length == bytes@.len(),
        summary.raw_hex@ == hex_text(bytes@, false),
        summarizes(summary, surveyed(bytes@, 0, blank_survey())),
{
    let mut report_id: u8 = 0;
    let mut report_size: u32 = 0;
    let mut report_count: u32 = 0;
    let mut summary = ReportDescriptorSummary {
        byte_length: bytes.len(),
        report_ids: Vec::new(),
        input_bits: BTreeMap::new(),
        output_bits: BTreeMap::new(),
        feature_bits: BTreeMap::new(),
        usage_pages: Vec::new(),
        raw_hex: encode(bytes),
    };
    let mut offset: usize = 0;
    let ghost mut survey = blank_survey();
    assert(summary.report_ids@.to_set() =~= Set::empty());
    assert(summary.usage_pages@.to_set() =~= Set::empty());
    while offset < bytes.len()
        invariant_except_break
            surveyed(bytes@, 0, blank_survey()) == surveyed(bytes@, offset as int, survey),
        invariant
            summary.byte_length == bytes@.len(),
            summary.raw_hex@ == hex_text(bytes@, false),
            summarizes(summary, survey),
            survey.report_id == report_id,
            survey.report_size == report_size,
            survey.report_count == report_count,
        ensures
            surveyed(bytes@, 0, blank_survey()) == survey,
        decreases bytes.len() - offset,
    {
        let prefix: u8 = bytes[offset];
        if prefix == 0xfe {
            if bytes.len() - offset < 3 {
                break;
            }
            let length: usize = bytes[offset + 1] as usize;
            offset = if length >= bytes.len() - offset - 3 { bytes.len() } else { offset + 3 + length };
            continue;
        }
        let size: usize = if prefix % 4 == 3 { 4 } else { (prefix % 4) as usize };
        if bytes.len() - offset - 1 < size {
            break;
        }
        let value: u32 = little_value(vstd::slice::slice_subrange(bytes, offset + 1, offset + 1 + size));
        let kind: u8 = prefix / 4 % 4;
        let tag: u8 = prefix / 16;
        let ghost known = survey;
        proof {
            survey = noted(survey, prefix, value as int);
        }
        offset = offset + 1 + size;
        if kind == 1 && tag == 0 {
            insert_ascending_u32(&mut summary.usage_pages, value);
        } else if kind == 1 && tag == 7 {
            report_size = value;
        } else if kind == 1 && tag == 8 {
            report_id = (value % 256) as u8;
            insert_ascending_u8(&mut summary.report_ids, report_id);
        } else if kind == 1 && tag == 9 {
            report_count = value;
        } else if kind == 0 && tag == 8 {
            add_bits(&mut summary.input_bits, report_id, report_size, report_count);
        } else if kind == 0 && tag == 9 {
            add_bits(&mut summary.output_bits, report_id, report_size, report_count);
        } else if kind == 0 && tag == 11 {
            add_bits(&mut summary.feature_bits, report_id, report_size, report_count);
        }
    }
    summary
}

}
