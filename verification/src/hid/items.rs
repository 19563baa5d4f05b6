//! What the items of a report descriptor mean.

use vstd::prelude::*;

use crate::hid::descriptor::{blank_survey, item_size, little, noted, surveyed, Survey};

verus! {

/// The value of an item is that of its bytes, the lowest first.
pub proof fn items_are_low_byte_first(a: u8, b: u8, c: u8, d: u8)
    ensures
        little(Seq::empty()) == 0,
        little(seq![a]) == a,
        little(seq![a, b]) == a + 256 * b,
        little(seq![a, b, c, d]) == a + 256 * b + 65536 * c + 16777216 * d,
{
    reveal_with_fuel(little, 5);
    assert(seq![a].skip(1) =~= Seq::<u8>::empty());
    assert(seq![a, b].skip(1) =~= seq![b]);
    assert(seq![b].skip(1) =~= Seq::<u8>::empty());
    assert(seq![a, b, c, d].skip(1) =~= seq![b, c, d]);
    assert(seq![b, c, d].skip(1) =~= seq![c, d]);
    assert(seq![c, d].skip(1) =~= seq![d]);
    assert(seq![d].skip(1) =~= Seq::<u8>::empty());
}

/// The two lowest bits of the first byte of an item tell how many bytes follow: none, one, two or four.
pub proof fn items_tell_their_size(prefix: u8)
    ensures
        prefix % 4 == 0 ==> item_size(prefix) == 0,
        prefix % 4 == 1 ==> item_size(prefix) == 1,
        prefix % 4 == 2 ==> item_size(prefix) == 2,
        prefix % 4 == 3 ==> item_size(prefix) == 4,
{
}

/// The kind of an item, by its first byte without the two lowest bits: 0x04 adds a usage page; 0x74 sets the size and
/// 0x94 the number of the fields that follow; 0x84 sets the report ID; 0x80, 0x90 and 0xb0 add the fields to the input,
/// to the output and to the features. Any other changes nothing.
pub proof fn items_have_meanings(survey: Survey, prefix: u8, value: int)
    requires
        0 <= value <= 0xffff_ffff,
    ensures
        ({
            let kind = prefix - prefix % 4;
            let after = noted(survey, prefix, value);
            &&& after.usage_pages == (if kind == 0x04 {
                survey.usage_pages.insert(value as u32)
            } else {
                survey.usage_pages
            })
            &&& after.report_size == (if kind == 0x74 {
                value
            } else {
                survey.report_size
            })
            &&& after.report_count == (if kind == 0x94 {
                value
            } else {
                survey.report_count
            })
            &&& after.report_id == (if kind == 0x84 {
                value % 256
            } else {
                survey.report_id as int
            })
            &&& after.report_ids == (if kind == 0x84 {
                survey.report_ids.insert((value % 256) as u8)
            } else {
                survey.report_ids
            })
            &&& kind != 0x80 ==> after.input_bits == survey.input_bits
            &&& kind == 0x80 ==> fields_added(survey.input_bits, after.input_bits, survey)
            &&& kind != 0x90 ==> after.output_bits == survey.output_bits
            &&& kind == 0x90 ==> fields_added(survey.output_bits, after.output_bits, survey)
            &&& kind != 0xb0 ==> after.feature_bits == survey.feature_bits
            &&& kind == 0xb0 ==> fields_added(survey.feature_bits, after.feature_bits, survey)
        }),
{
}

/// Whether the bits of the fields that are due were added to those of the report that they belong to, and to those of no
/// other.
pub open spec fn fields_added(before: Map<u8, usize>, after: Map<u8, usize>, survey: Survey) -> bool {
    let more = survey.report_size * survey.report_count;
    let total: int = if before.contains_key(survey.report_id) {
        before[survey.report_id] as int
    } else {
        0
    };
    &&& after.dom() == before.dom().insert(survey.report_id)
    &&& forall|id: u8| id != survey.report_id && before.contains_key(id) ==> #[trigger] after[id] == before[id]
    &&& total + more <= usize::MAX && more >= 0 ==> after[survey.report_id] == total + more
}

/// A descriptor is read item by item. A long item, which starts with 0xfe and then tells its size, is passed over; a short
/// item that is cut off ends the reading.
pub proof fn descriptor_is_read_item_by_item(bytes: Seq<u8>, offset: int, survey: Survey)
    requires
        0 <= offset,
    ensures
        offset >= bytes.len() ==> surveyed(bytes, offset, survey) == survey,
        offset < bytes.len() && bytes[offset] == 0xfe && offset + 3 > bytes.len() ==> surveyed(bytes, offset, survey)
            == survey,
        offset < bytes.len() && bytes[offset] == 0xfe && offset + 3 + bytes[offset + 1] <= bytes.len() ==> surveyed(
            bytes,
            offset,
            survey,
        ) == surveyed(bytes, offset + 3 + bytes[offset + 1], survey),
        offset < bytes.len() && bytes[offset] != 0xfe ==> ({
            let size: int = if bytes[offset] % 4 == 3 {
                4
            } else {
                (bytes[offset] % 4) as int
            };
            surveyed(bytes, offset, survey) == (if offset + 1 + size > bytes.len() {
                survey
            } else {
                surveyed(
                    bytes,
                    offset + 1 + size,
                    noted(survey, bytes[offset], little(bytes.subrange(offset + 1, offset + 1 + size))),
                )
            })
        }),
        blank_survey().report_id == 0 && blank_survey().report_size == 0 && blank_survey().report_count == 0,
{
}

}
