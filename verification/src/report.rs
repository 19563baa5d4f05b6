//! What commands come to, as lines of text.

use std::collections::BTreeMap;

use vstd::prelude::*;

use crate::cli::{
    can_be_summarized, spaced_from_compact_hex, spaced_out, summarize_numbers, summary_parts, yes_no, yes_or_no,
};
use crate::command::{
    printable, OnboardProfileList, OnboardProfileSummary, ProfileListView, RawReply, RawReplyView, Report, ReportView,
    SummaryView,
};
use crate::device::battery::{BatteryInfo, BatteryView};
use crate::device::dpi::{DpiCapabilities, DpiCapabilitiesView, DpiState};
use crate::device::identity::{DeviceIdentity, FirmwareInfo, FirmwareView, IdentityView};
use crate::device::onboard::{
    OnboardInfo, OnboardInfoView, OnboardSector, OnboardStatus, OnboardStatusView, SectorView,
};
use crate::device::rate::RateCapabilities;
use crate::device::{DeviceView, DiscoveryOutcome, DiscoveryView, LogicalDevice};
use crate::hid::descriptor::ReportDescriptorSummary;
use crate::hid::{EndpointView, HidEndpoint};
use crate::hidpp::features::{feature_name, name_of_feature, Feature, FeatureTable, FeatureView};
use crate::hidpp::protocol::{spaced_hex, spaced_pairs, version_text};
use crate::text::{
    align_left, align_right, dec, decimal, hex2, hex4, hex_at_least4, hex_byte, hex_wide, hex_word, join2, join3, join4,
    join5, join_all, joined, left_aligned, right_aligned, signed_dec, signed_decimal, texts,
};

verus! {

broadcast use vstd::std_specs::btree::group_btree_axioms;

/// The level of a battery in a word or a number.
pub open spec fn level_text(battery: BatteryView) -> Seq<char> {
    match battery.percentage {
        Some(level) => dec(level as nat) + "%"@,
        None => match battery.approximate_level {
            Some(level) => level,
            None => "unknown"@,
        },
    }
}

/// The level of a battery in a word or a number.
pub fn battery_level_text(battery: &BatteryInfo) -> (text: String)
    ensures
        text@ == level_text(battery@),
{
    match battery.percentage {
        Some(level) => join2(decimal(level as u64).as_str(), "%"),
        None => match &battery.approximate_level {
            Some(level) => level.clone(),
            None => "unknown".to_owned(),
        },
    }
}

/// A line where there is something to say, and none where there is not.
pub open spec fn optional_line(label: Seq<char>, text: Option<Seq<char>>) -> Seq<Seq<char>> {
    match text {
        Some(text) => seq![label + text],
        None => Seq::empty(),
    }
}

/// What is known of a battery.
pub open spec fn battery_lines(battery: BatteryView) -> Seq<Seq<char>> {
    seq!["Level: "@ + level_text(battery), "Status: "@ + battery.status] + optional_line(
        "Voltage: "@,
        match battery.voltage_mv {
            Some(voltage) => Some(dec(voltage as nat) + " mV"@),
            None => None,
        },
    ) + seq!["Source: "@ + battery.source, "Raw: "@ + spaced_out(battery.raw_hex)]
}

fn battery_details(battery: &BatteryInfo) -> (lines: Vec<String>)
    ensures
        texts(lines@) == battery_lines(battery@),
{
    let mut lines: Vec<String> = Vec::new();
    lines.push(join2("Level: ", battery_level_text(battery).as_str()));
    lines.push(join2("Status: ", battery.status.as_str()));
    if let Some(voltage) = battery.voltage_mv {
        lines.push(join2("Voltage: ", join2(decimal(voltage as u64).as_str(), " mV").as_str()));
    }
    lines.push(join2("Source: ", battery.source.as_str()));
    lines.push(join2("Raw: ", spaced_from_compact_hex(battery.raw_hex.as_str()).as_str()));
    assert(texts(lines@) =~= battery_lines(battery@));
    lines
}

/// Who a device is.
pub open spec fn identity_lines(identity: IdentityView) -> Seq<Seq<char>> {
    seq![
        "Name: "@ + identity.name,
        "HID++: "@ + version_text(identity.hidpp_version),
        "Receiver: "@ + identity.receiver.vid + ":"@ + identity.receiver.pid,
    ] + optional_line("Receiver serial: "@, identity.receiver.serial) + seq![
        "Path: "@ + identity.receiver.path,
        "Device index: 0x"@ + hex2(identity.device_index, true),
    ] + optional_line("Unit ID: "@, identity.unit_id) + optional_line(
        "Profile format: 0x"@,
        match identity.profile_format {
            Some(format) => Some(hex2(format, true)),
            None => None,
        },
    )
}

fn identity_text(identity: &DeviceIdentity) -> (lines: Vec<String>)
    ensures
        texts(lines@) == identity_lines(identity@),
{
    let mut lines: Vec<String> = Vec::new();
    lines.push(join2("Name: ", identity.name.as_str()));
    lines.push(join2("HID++: ", identity.hidpp_version.text().as_str()));
    lines.push(join4("Receiver: ", identity.receiver.vid.as_str(), ":", identity.receiver.pid.as_str()));
    if let Some(serial) = &identity.receiver.serial {
        lines.push(join2("Receiver serial: ", serial.as_str()));
    }
    lines.push(join2("Path: ", identity.receiver.path.as_str()));
    lines.push(join2("Device index: 0x", hex_byte(identity.device_index, true).as_str()));
    if let Some(unit_id) = &identity.unit_id {
        lines.push(join2("Unit ID: ", unit_id.as_str()));
    }
    if let Some(format) = identity.profile_format {
        lines.push(join2("Profile format: 0x", hex_byte(format, true).as_str()));
    }
    assert(texts(lines@) =~= identity_lines(identity@));
    lines
}

/// A feature as a row of a table.
pub open spec fn feature_row(feature: FeatureView) -> Seq<char> {
    "0x"@ + hex2(feature.index, true) + "  0x"@ + hex4(feature.id, true) + ("   "@ + right_aligned(
        dec(feature.version as nat),
        3,
    ) + "      0x"@ + hex2(feature.feature_type, true) + ("  "@ + feature.name))
}

/// The features of a device as a table.
pub open spec fn feature_lines(features: Seq<FeatureView>) -> Seq<Seq<char>> {
    seq!["Index  Feature  Version  Type  Name"@] + features.map_values(|feature: FeatureView| feature_row(feature))
}

fn feature_rows(table: &FeatureTable) -> (lines: Vec<String>)
    ensures
        texts(lines@) == feature_lines(table@),
{
    let mut lines: Vec<String> = Vec::new();
    lines.push("Index  Feature  Version  Type  Name".to_owned());
    let mut i: usize = 0;
    while i < table.features.len()
        invariant
            i <= table.features.len(),
            lines@.len() == i + 1,
            lines@[0]@ == "Index  Feature  Version  Type  Name"@,
            forall|k: int| 0 <= k < i ==> #[trigger] lines@[k + 1]@ == feature_row(table.features@[k]@),
        decreases table.features.len() - i,
    {
        let feature = &table.features[i];
        let mut line = join4(
            "0x",
            hex_byte(feature.index, true).as_str(),
            "  0x",
            hex_word(feature.id, true).as_str(),
        );
        let mut rest = join4(
            "   ",
            align_right(decimal(feature.version as u64).as_str(), 3).as_str(),
            "      0x",
            hex_byte(feature.feature_type, true).as_str(),
        );
        rest.append(join2("  ", feature.name.as_str()).as_str());
        line.append(rest.as_str());
        lines.push(line);
        i = i + 1;
    }
    proof {
        let expected = feature_lines(table@);
        assert forall|k: int| 0 <= k < expected.len() implies texts(lines@)[k] == expected[k] by {
            if k > 0 {
                assert(lines@[(k - 1) + 1]@ == feature_row(table.features@[k - 1]@));
            }
        }
        assert(texts(lines@) =~= expected);
    }
    lines
}

/// A feature in one line, as it is of use for finding faults.
pub open spec fn feature_debug_line(feature: FeatureView) -> Seq<char> {
    "index=0x"@ + hex2(feature.index, true) + " id=0x"@ + hex4(feature.id, true) + (" version="@ + dec(
        feature.version as nat,
    ) + " type=0x"@ + hex2(feature.feature_type, true) + (" "@ + feature.name))
}

fn feature_debug_lines(table: &FeatureTable) -> (lines: Vec<String>)
    ensures
        texts(lines@) == table@.map_values(|feature: FeatureView| feature_debug_line(feature)),
{
    let mut lines: Vec<String> = Vec::new();
    let mut i: usize = 0;
    while i < table.features.len()
        invariant
            i <= table.features.len(),
            lines@.len() == i,
            forall|k: int| 0 <= k < i ==> #[trigger] lines@[k]@ == feature_debug_line(table.features@[k]@),
        decreases table.features.len() - i,
    {
        let feature = &table.features[i];
        let mut line = join4(
            "index=0x",
            hex_byte(feature.index, true).as_str(),
            " id=0x",
            hex_word(feature.id, true).as_str(),
        );
        let mut rest = join4(
            " version=",
            decimal(feature.version as u64).as_str(),
            " type=0x",
            hex_byte(feature.feature_type, true).as_str(),
        );
        rest.append(join2(" ", feature.name.as_str()).as_str());
        line.append(rest.as_str());
        lines.push(line);
        i = i + 1;
    }
    assert(texts(lines@) =~= table@.map_values(|feature: FeatureView| feature_debug_line(feature)));
    lines
}

/// A program of a device in one line.
pub open spec fn firmware_line(firmware: FirmwareView) -> Seq<char> {
    firmware.kind + ": "@ + (match firmware.name {
        Some(name) => name + " "@,
        None => Seq::empty(),
    }) + (match firmware.version {
        Some(version) => version,
        None => "unknown"@,
    })
}

fn firmware_lines(records: &Vec<FirmwareInfo>) -> (lines: Vec<String>)
    ensures
        texts(lines@) == crate::device::identity::firmware_views(records@).map_values(
            |firmware: FirmwareView| firmware_line(firmware),
        ),
{
    let mut lines: Vec<String> = Vec::new();
    let mut i: usize = 0;
    while i < records.len()
        invariant
            i <= records.len(),
            lines@.len() == i,
            forall|k: int| 0 <= k < i ==> #[trigger] lines@[k]@ == firmware_line(records@[k]@),
        decreases records.len() - i,
    {
        let record = &records[i];
        let name = match &record.name {
            Some(name) => join2(name.as_str(), " "),
            None => String::new(),
        };
        let version = match &record.version {
            Some(version) => version.clone(),
            None => "unknown".to_owned(),
        };
        assert(name@ =~= match record@.name {
            Some(name) => name + " "@,
            None => Seq::empty(),
        });
        lines.push(join4(record.kind.as_str(), ": ", name.as_str(), version.as_str()));
        i = i + 1;
    }
    assert(texts(lines@) =~= crate::device::identity::firmware_views(records@).map_values(
        |firmware: FirmwareView| firmware_line(firmware),
    ));
    lines
}

/// What the sensitivity is.
pub open spec fn dpi_lines(dpi: DpiState) -> Seq<Seq<char>> {
    seq!["X: "@ + dec(dpi.x as nat) + " DPI"@, "Y: "@ + dec(dpi.y as nat) + " DPI"@] + optional_line(
        "Lift-off distance code: "@,
        match dpi.lift_off_distance {
            Some(distance) => Some(dec(distance as nat)),
            None => None,
        },
    )
}

fn dpi_text(dpi: &DpiState) -> (lines: Vec<String>)
    ensures
        texts(lines@) == dpi_lines(*dpi),
{
    let mut lines: Vec<String> = Vec::new();
    lines.push(join3("X: ", decimal(dpi.x as u64).as_str(), " DPI"));
    lines.push(join3("Y: ", decimal(dpi.y as u64).as_str(), " DPI"));
    if let Some(distance) = dpi.lift_off_distance {
        lines.push(join2("Lift-off distance code: ", decimal(distance as u64).as_str()));
    }
    assert(texts(lines@) =~= dpi_lines(*dpi));
    lines
}

/// What the sensitivity can be: its range and step, what can be set beside it, and the values, runs of at least four
/// of them drawn together.
pub open spec fn dpi_capability_lines(capabilities: DpiCapabilitiesView) -> Seq<Seq<char>> {
    seq![
        "Minimum: "@ + dec(capabilities.minimum as nat) + " DPI"@,
        "Maximum: "@ + dec(capabilities.maximum as nat) + " DPI"@,
        "Step: "@ + match capabilities.step {
            Some(step) => dec(step as nat) + " DPI"@,
            None => "variable"@,
        },
        "Separate X/Y: "@ + yes_or_no(capabilities.separate_xy),
        "Lift-off distance: "@ + yes_or_no(capabilities.lift_off_distance),
        "Values: "@ + joined(summary_parts(capabilities.x_values, 0), ", "@),
    ]
}

fn dpi_capability_text(capabilities: &DpiCapabilities) -> (lines: Vec<String>)
    requires
        can_be_summarized(capabilities@.x_values, 0),
    ensures
        texts(lines@) == dpi_capability_lines(capabilities@),
{
    let step = match capabilities.step {
        Some(step) => join2(decimal(step as u64).as_str(), " DPI"),
        None => "variable".to_owned(),
    };
    let mut lines: Vec<String> = Vec::new();
    lines.push(join3("Minimum: ", decimal(capabilities.minimum as u64).as_str(), " DPI"));
    lines.push(join3("Maximum: ", decimal(capabilities.maximum as u64).as_str(), " DPI"));
    lines.push(join2("Step: ", step.as_str()));
    lines.push(join2("Separate X/Y: ", yes_no(capabilities.separate_xy)));
    lines.push(join2("Lift-off distance: ", yes_no(capabilities.lift_off_distance)));
    lines.push(join2("Values: ", summarize_numbers(capabilities.x_values.as_slice()).as_str()));
    assert(texts(lines@) =~= dpi_capability_lines(capabilities@));
    lines
}

/// Who controls the settings of the mouse.
pub open spec fn status_lines(status: OnboardStatusView) -> Seq<Seq<char>> {
    seq!["Mode: "@ + status.mode] + optional_line(
        "Active profile sector: 0x"@,
        match status.active_sector {
            Some(sector) => Some(hex4(sector, true)),
            None => None,
        },
    )
}

fn status_text(status: &OnboardStatus) -> (lines: Vec<String>)
    ensures
        texts(lines@) == status_lines(status@),
{
    let mut lines: Vec<String> = Vec::new();
    lines.push(join2("Mode: ", status.mode.as_str()));
    if let Some(sector) = status.active_sector {
        lines.push(join2("Active profile sector: 0x", hex_word(sector, true).as_str()));
    }
    assert(texts(lines@) =~= status_lines(status@));
    lines
}

/// What the memory of a mouse is like.
pub open spec fn info_lines(info: OnboardInfoView, raw: bool) -> Seq<Seq<char>> {
    seq![
        "Memory model:      0x"@ + hex2(info.memory_model, true),
        "Profile format:    0x"@ + hex2(info.profile_format, true),
        "Macro format:      0x"@ + hex2(info.macro_format, true),
        "Profile count:     "@ + dec(info.profile_count as nat),
        "ROM profiles:      "@ + dec(info.rom_profile_count as nat),
        "Button count:      "@ + dec(info.button_count as nat),
        "Sector count:      "@ + dec(info.sector_count as nat),
        "Sector size:       "@ + dec(info.sector_size as nat),
        "Mechanical layout: 0x"@ + hex2(info.mechanical_layout, true),
        "Various info:      0x"@ + hex2(info.various_info, true),
        "Reserved:          "@ + spaced_out(info.reserved_hex),
    ] + (if raw {
        seq!["Raw:               "@ + spaced_out(info.raw_hex)]
    } else {
        Seq::empty()
    })
}

fn info_text(info: &OnboardInfo, raw: bool) -> (lines: Vec<String>)
    ensures
        texts(lines@) == info_lines(info@, raw),
{
    let mut lines: Vec<String> = Vec::new();
    lines.push(join2("Memory model:      0x", hex_byte(info.memory_model, true).as_str()));
    lines.push(join2("Profile format:    0x", hex_byte(info.profile_format, true).as_str()));
    lines.push(join2("Macro format:      0x", hex_byte(info.macro_format, true).as_str()));
    lines.push(join2("Profile count:     ", decimal(info.profile_count as u64).as_str()));
    lines.push(join2("ROM profiles:      ", decimal(info.rom_profile_count as u64).as_str()));
    lines.push(join2("Button count:      ", decimal(info.button_count as u64).as_str()));
    lines.push(join2("Sector count:      ", decimal(info.sector_count as u64).as_str()));
    lines.push(join2("Sector size:       ", decimal(info.sector_size as u64).as_str()));
    lines.push(join2("Mechanical layout: 0x", hex_byte(info.mechanical_layout, true).as_str()));
    lines.push(join2("Various info:      0x", hex_byte(info.various_info, true).as_str()));
    lines.push(join2("Reserved:          ", spaced_from_compact_hex(info.reserved_hex.as_str()).as_str()));
    if raw {
        lines.push(join2("Raw:               ", spaced_from_compact_hex(info.raw_hex.as_str()).as_str()));
    }
    assert(texts(lines@) =~= info_lines(info@, raw));
    lines
}

/// A sector of the memory.
pub open spec fn sector_lines(sector: SectorView) -> Seq<Seq<char>> {
    seq![
        "Sector:       0x"@ + hex4(sector.sector, true),
        "Size:         "@ + dec(sector.size as nat) + " bytes"@,
        "Stored CRC:   0x"@ + hex4(sector.stored_crc, true),
        "Computed CRC: 0x"@ + hex4(sector.computed_crc, true),
        "CRC valid:    "@ + if sector.crc_valid {
            "true"@
        } else {
            "false"@
        },
        "Data:         "@ + spaced_out(sector.data_hex),
    ]
}

fn sector_text(sector: &OnboardSector) -> (lines: Vec<String>)
    ensures
        texts(lines@) == sector_lines(sector@),
{
    let mut lines: Vec<String> = Vec::new();
    lines.push(join2("Sector:       0x", hex_word(sector.sector, true).as_str()));
    lines.push(join3("Size:         ", decimal(sector.size as u64).as_str(), " bytes"));
    lines.push(join2("Stored CRC:   0x", hex_word(sector.stored_crc, true).as_str()));
    lines.push(join2("Computed CRC: 0x", hex_word(sector.computed_crc, true).as_str()));
    lines.push(join2("CRC valid:    ", if sector.crc_valid { "true" } else { "false" }));
    lines.push(join2("Data:         ", spaced_from_compact_hex(sector.data_hex.as_str()).as_str()));
    assert(texts(lines@) =~= sector_lines(sector@));
    lines
}

/// Numbers between brackets.
pub open spec fn listed_numbers(numbers: Seq<u16>) -> Seq<char> {
    "["@ + joined(numbers.map_values(|number: u16| dec(number as nat)), ", "@) + "]"@
}

fn list_numbers(numbers: &Vec<u16>) -> (text: String)
    ensures
        text@ == listed_numbers(numbers@),
{
    let mut parts: Vec<String> = Vec::new();
    let mut i: usize = 0;
    while i < numbers.len()
        invariant
            i <= numbers.len(),
            parts@.len() == i,
            forall|k: int| 0 <= k < i ==> #[trigger] parts@[k]@ == dec(numbers@[k] as nat),
        decreases numbers.len() - i,
    {
        parts.push(decimal(numbers[i] as u64));
        i = i + 1;
    }
    assert(texts(parts@) =~= numbers@.map_values(|number: u16| dec(number as nat)));
    join3("[", join_all(&parts, ", ").as_str(), "]")
}

/// Whether a profile is in use, as a word.
pub open spec fn profile_state(summary: SummaryView) -> Seq<char> {
    if summary.active {
        "active"@
    } else if summary.enabled {
        "enabled"@
    } else {
        "disabled"@
    }
}

/// A profile in one line.
pub open spec fn summary_line(summary: SummaryView) -> Seq<char> {
    "Slot "@ + dec(summary.slot as nat) + "  sector 0x"@ + hex4(summary.sector, true) + ("  "@ + left_aligned(
        profile_state(summary),
        8,
    ) + "  "@ + dec(summary.report_rate as nat) + " Hz  DPI "@) + (listed_numbers(summary.dpi_points) + "  CRC "@
        + if summary.crc_valid {
        "valid"@
    } else {
        "INVALID"@
    })
}

fn summary_text(summary: &OnboardProfileSummary) -> (line: String)
    ensures
        line@ == summary_line(summary@),
{
    let state: &str = if summary.active {
        "active"
    } else if summary.enabled {
        "enabled"
    } else {
        "disabled"
    };
    let mut line = join4(
        "Slot ",
        decimal(summary.slot as u64).as_str(),
        "  sector 0x",
        hex_word(summary.sector, true).as_str(),
    );
    let middle = join5(
        "  ",
        align_left(state, 8).as_str(),
        "  ",
        decimal(summary.report_rate as u64).as_str(),
        " Hz  DPI ",
    );
    let rest = join3(
        list_numbers(&summary.dpi_points).as_str(),
        "  CRC ",
        if summary.crc_valid { "valid" } else { "INVALID" },
    );
    line.append(middle.as_str());
    line.append(rest.as_str());
    line
}

/// A profile, and under it what its buttons do.
pub open spec fn summary_lines(summary: SummaryView) -> Seq<Seq<char>> {
    seq![summary_line(summary)] + summary.buttons.map_values(|button: Seq<char>| "  "@ + button)
}

/// Profiles one after the other.
pub open spec fn summaries_lines(summaries: Seq<SummaryView>) -> Seq<Seq<char>>
    decreases summaries.len(),
{
    if summaries.len() == 0 {
        Seq::empty()
    } else {
        summaries_lines(summaries.drop_last()) + summary_lines(summaries.last())
    }
}

/// The stored profiles of a mouse.
pub open spec fn profile_list_lines(list: ProfileListView) -> Seq<Seq<char>> {
    seq!["Profile format: 0x"@ + hex2(list.profile_format, true)] + summaries_lines(list.profiles)
}

fn push_summary(lines: &mut Vec<String>, summary: &OnboardProfileSummary)
    ensures
        texts(final(lines)@) == texts(old(lines)@) + summary_lines(summary@),
{
    lines.push(summary_text(summary));
    let mut i: usize = 0;
    while i < summary.buttons.len()
        invariant
            i <= summary.buttons.len(),
            lines@.len() == old(lines)@.len() + 1 + i,
            forall|k: int| 0 <= k < old(lines)@.len() ==> #[trigger] lines@[k] == old(lines)@[k],
            lines@[old(lines)@.len() as int]@ == summary_line(summary@),
            forall|k: int|
                old(lines)@.len() < k <= old(lines)@.len() + i ==> #[trigger] lines@[k]@ == "  "@
                    + summary.buttons@[k - old(lines)@.len() - 1]@,
        decreases summary.buttons.len() - i,
    {
        lines.push(join2("  ", summary.buttons[i].as_str()));
        i = i + 1;
    }
    assert(texts(lines@) =~= texts(old(lines)@) + summary_lines(summary@));
}

fn profile_list_text(list: &OnboardProfileList) -> (lines: Vec<String>)
    ensures
        texts(lines@) == profile_list_lines(list@),
{
    let ghost header = seq!["Profile format: 0x"@ + hex2(list.profile_format, true)];
    let ghost views = list@.profiles;
    let mut lines: Vec<String> = Vec::new();
    lines.push(join2("Profile format: 0x", hex_byte(list.profile_format, true).as_str()));
    let mut i: usize = 0;
    assert(texts(lines@) =~= header + summaries_lines(views.take(0)));
    while i < list.profiles.len()
        invariant
            i <= list.profiles.len(),
            views == list@.profiles,
            texts(lines@) == header + summaries_lines(views.take(i as int)),
        decreases list.profiles.len() - i,
    {
        push_summary(&mut lines, &list.profiles[i]);
        proof {
            let next = views.take(i + 1);
            assert(next.drop_last() =~= views.take(i as int));
            assert(next.last() == list.profiles@[i as int]@);
            assert(texts(lines@) =~= header + summaries_lines(next));
        }
        i = i + 1;
    }
    assert(views.take(i as int) =~= views);
    lines
}

/// Rates, one to a line.
pub open spec fn rate_lines(rates: Seq<u32>) -> Seq<Seq<char>> {
    rates.map_values(|rate: u32| dec(rate as nat) + " Hz"@)
}

fn rate_text(rates: &Vec<u32>) -> (lines: Vec<String>)
    ensures
        texts(lines@) == rate_lines(rates@),
{
    let mut lines: Vec<String> = Vec::new();
    let mut i: usize = 0;
    while i < rates.len()
        invariant
            i <= rates.len(),
            lines@.len() == i,
            forall|k: int| 0 <= k < i ==> #[trigger] lines@[k]@ == dec(rates@[k] as nat) + " Hz"@,
        decreases rates.len() - i,
    {
        lines.push(join2(decimal(rates[i] as u64).as_str(), " Hz"));
        i = i + 1;
    }
    assert(texts(lines@) =~= rate_lines(rates@));
    lines
}

/// What a call of a feature brought.
pub open spec fn raw_lines(reply: RawReplyView) -> Seq<Seq<char>> {
    seq![
        "Feature: 0x"@ + hex4(reply.feature, true) + " "@ + name_of_feature(reply.feature) + (" (index 0x"@ + hex2(
            reply.feature_index,
            true,
        ) + ")"@),
        "Function: 0x"@ + hex2(reply.function, true),
        "Response: "@ + spaced_pairs(reply.response),
    ]
}

fn raw_text(reply: &RawReply) -> (lines: Vec<String>)
    ensures
        texts(lines@) == raw_lines(reply@),
{
    let mut feature = join4(
        "Feature: 0x",
        hex_word(reply.feature, true).as_str(),
        " ",
        feature_name(reply.feature),
    );
    feature.append(join3(" (index 0x", hex_byte(reply.feature_index, true).as_str(), ")").as_str());
    let mut lines: Vec<String> = Vec::new();
    lines.push(feature);
    lines.push(join2("Function: 0x", hex_byte(reply.function, true).as_str()));
    lines.push(join2("Response: ", spaced_hex(reply.response.as_slice()).as_str()));
    assert(texts(lines@) =~= raw_lines(reply@));
    lines
}

/// A report in lines. What a backup came to is said where it has been kept.
pub open spec fn report_lines(report: ReportView) -> Seq<Seq<char>> {
    match report {
        ReportView::Identity(identity) => identity_lines(identity),
        ReportView::Features(features) => feature_lines(features),
        ReportView::Firmware(records) => records.map_values(|firmware: FirmwareView| firmware_line(firmware)),
        ReportView::Battery { battery, details } => if details {
            battery_lines(battery)
        } else {
            seq![level_text(battery)]
        },
        ReportView::Dpi(dpi) => dpi_lines(dpi),
        ReportView::DpiCapabilities(capabilities) => dpi_capability_lines(capabilities),
        ReportView::DpiSet(dpi) => seq![
            "DPI set and verified: "@ + dec(dpi.x as nat) + " x "@ + dec(dpi.y as nat),
        ],
        ReportView::Rate(rate) => seq![
            dec(rate.hz as nat) + " Hz ("@ + dec(rate.interval_microseconds as nat) + " us)"@,
        ],
        ReportView::RateCapabilities(capabilities) => rate_lines(capabilities.rates_hz),
        ReportView::RateSet(rate) => seq!["Report rate set and verified: "@ + dec(rate.hz as nat) + " Hz"@],
        ReportView::Status(status) => status_lines(status),
        ReportView::Info { info, raw } => info_lines(info, raw),
        ReportView::Profiles(list) => profile_list_lines(list),
        ReportView::Sector(sector) => sector_lines(sector),
        ReportView::Backup(backup) => Seq::empty(),
        ReportView::Stage(index) => seq!["Current onboard DPI stage: "@ + dec((index + 1) as nat)],
        ReportView::RateStored { hz, written } => seq![
            "Saved "@ + dec(hz as nat) + " Hz to onboard profile slot "@ + dec(written.slot as nat)
                + " in sector 0x"@ + hex4(written.sector, true),
        ],
        ReportView::SectorVerified(sector) => seq![
            "Sector 0x"@ + hex4(sector.sector, true) + " was rewritten unchanged and verified with CRC 0x"@ + hex4(
                sector.stored_crc,
                true,
            ),
        ],
        ReportView::FeatureTable(features) => features.map_values(|feature: FeatureView| feature_debug_line(feature)),
        ReportView::Raw(reply) => raw_lines(reply),
    }
}

fn one_line(line: String) -> (lines: Vec<String>)
    ensures
        texts(lines@) == seq![line@],
{
    let mut lines: Vec<String> = Vec::new();
    lines.push(line);
    assert(texts(lines@) =~= seq![line@]);
    lines
}

/// Puts a report into lines.
pub fn describe(report: &Report) -> (lines: Vec<String>)
    requires
        printable(report@),
    ensures
        texts(lines@) == report_lines(report@),
{
    match report {
        Report::Identity(identity) => identity_text(identity),
        Report::Features(features) => feature_rows(features),
        Report::Firmware(records) => firmware_lines(records),
        Report::Battery { battery, details } => if *details {
            battery_details(battery)
        } else {
            one_line(battery_level_text(battery))
        },
        Report::Dpi(dpi) => dpi_text(dpi),
        Report::DpiCapabilities(capabilities) => dpi_capability_text(capabilities),
        Report::DpiSet(dpi) => one_line(
            join4(
                "DPI set and verified: ",
                decimal(dpi.x as u64).as_str(),
                " x ",
                decimal(dpi.y as u64).as_str(),
            ),
        ),
        Report::Rate(rate) => one_line(
            join4(
                decimal(rate.hz as u64).as_str(),
                " Hz (",
                decimal(rate.interval_microseconds as u64).as_str(),
                " us)",
            ),
        ),
        Report::RateCapabilities(capabilities) => rate_text(&capabilities.rates_hz),
        Report::RateSet(rate) => one_line(
            join3("Report rate set and verified: ", decimal(rate.hz as u64).as_str(), " Hz"),
        ),
        Report::Status(status) => status_text(status),
        Report::Info { info, raw } => info_text(info, *raw),
        Report::Profiles(list) => profile_list_text(list),
        Report::Sector(sector) => sector_text(sector),
        Report::Backup(_) => {
            let lines: Vec<String> = Vec::new();
            assert(texts(lines@) =~= Seq::empty());
            lines
        },
        Report::Stage(index) => one_line(
            join2("Current onboard DPI stage: ", decimal(*index as u64 + 1).as_str()),
        ),
        Report::RateStored { hz, written } => {
            let mut line = join5(
                "Saved ",
                decimal(*hz as u64).as_str(),
                " Hz to onboard profile slot ",
                decimal(written.slot as u64).as_str(),
                " in sector 0x",
            );
            line.append(hex_word(written.sector, true).as_str());
            one_line(line)
        },
        Report::SectorVerified(sector) => one_line(
            join4(
                "Sector 0x",
                hex_word(sector.sector, true).as_str(),
                " was rewritten unchanged and verified with CRC 0x",
                hex_word(sector.stored_crc, true).as_str(),
            ),
        ),
        Report::FeatureTable(features) => feature_debug_lines(features),
        Report::Raw(reply) => raw_text(reply),
    }
}

/// Says where so many sectors have been kept.
pub fn backup_line(sectors: usize, path: &str) -> (line: String)
    ensures
        line@ == "Backed up "@ + dec(sectors as nat) + " sectors to "@ + path@,
{
    join4("Backed up ", decimal(sectors as u64).as_str(), " sectors to ", path)
}

/// A device in one line, under its number.
pub open spec fn device_line(number: int, device: DeviceView) -> Seq<char> {
    dec(number as nat) + "  "@ + device.name + "  HID++ "@ + version_text(device.protocol) + ("  receiver "@ + hex4(
        device.endpoint.vendor_id,
        true,
    ) + ":"@ + hex4(device.endpoint.product_id, true)) + ("  index 0x"@ + hex2(device.device_index, true) + "  "@
        + device.endpoint.path)
}

fn device_text(number: usize, device: &LogicalDevice) -> (line: String)
    ensures
        line@ == device_line(number as int, device@),
{
    let mut line = join5(
        decimal(number as u64).as_str(),
        "  ",
        device.name.as_str(),
        "  HID++ ",
        device.protocol.text().as_str(),
    );
    let receiver = join4(
        "  receiver ",
        hex_word(device.endpoint.vendor_id, true).as_str(),
        ":",
        hex_word(device.endpoint.product_id, true).as_str(),
    );
    let place = join4(
        "  index 0x",
        hex_byte(device.device_index, true).as_str(),
        "  ",
        device.endpoint.path.as_str(),
    );
    line.append(receiver.as_str());
    line.append(place.as_str());
    line
}

/// The devices that were found.
pub open spec fn devices_part(devices: Seq<DeviceView>) -> Seq<Seq<char>> {
    if devices.len() == 0 {
        seq!["No responsive HID++ 2.x logical devices found."@]
    } else {
        seq!["Logical devices"@] + Seq::new(devices.len(), |i: int| device_line(i + 1, devices[i])) + seq![""@]
    }
}

/// A node as a row of a table.
pub open spec fn endpoint_row(endpoint: EndpointView) -> Seq<char> {
    hex4(endpoint.vendor_id, true) + ":"@ + hex4(endpoint.product_id, true) + ("  "@ + right_aligned(
        signed_dec(endpoint.interface_number as int),
        9,
    ) + "  0x"@ + hex4(endpoint.usage_page, true)) + ("      0x"@ + hex4(endpoint.usage, true) + "  "@ + left_aligned(
        endpoint.path,
        16,
    )) + (" "@ + match endpoint.product {
        Some(product) => product,
        None => "unknown"@,
    })
}

fn endpoint_text(endpoint: &HidEndpoint) -> (line: String)
    ensures
        line@ == endpoint_row(endpoint@),
{
    let product: &str = match &endpoint.product {
        Some(product) => product.as_str(),
        None => "unknown",
    };
    let mut line = join3(
        hex_word(endpoint.vendor_id, true).as_str(),
        ":",
        hex_word(endpoint.product_id, true).as_str(),
    );
    let interface = join4(
        "  ",
        align_right(signed_decimal(endpoint.interface_number).as_str(), 9).as_str(),
        "  0x",
        hex_word(endpoint.usage_page, true).as_str(),
    );
    let usage = join4(
        "      0x",
        hex_word(endpoint.usage, true).as_str(),
        "  ",
        align_left(endpoint.path.as_str(), 16).as_str(),
    );
    line.append(interface.as_str());
    line.append(usage.as_str());
    line.append(join2(" ", product).as_str());
    line
}

/// The nodes as a table.
pub open spec fn endpoints_part(endpoints: Seq<EndpointView>) -> Seq<Seq<char>> {
    seq!["Logitech HID interfaces"@, "VID:PID    Interface  Usage Page  Usage   Path             Product"@]
        + endpoints.map_values(|endpoint: EndpointView| endpoint_row(endpoint))
}

/// What a search for devices found, in lines.
pub open spec fn discovery_lines(discovery: DiscoveryView) -> Seq<Seq<char>> {
    devices_part(discovery.devices) + endpoints_part(discovery.endpoints)
}

fn devices_text(devices: &Vec<LogicalDevice>) -> (lines: Vec<String>)
    ensures
        texts(lines@) == devices_part(crate::device::device_views(devices@)),
{
    if devices.len() == 0 {
        return one_line("No responsive HID++ 2.x logical devices found.".to_owned());
    }
    let mut lines: Vec<String> = Vec::new();
    lines.push("Logical devices".to_owned());
    let mut i: usize = 0;
    while i < devices.len()
        invariant
            i <= devices.len(),
            lines@.len() == i + 1,
            lines@[0]@ == "Logical devices"@,
            forall|k: int| 1 <= k <= i ==> #[trigger] lines@[k]@ == device_line(k, devices@[k - 1]@),
        decreases devices.len() - i,
    {
        lines.push(device_text(i + 1, &devices[i]));
        i = i + 1;
    }
    lines.push("".to_owned());
    assert(texts(lines@) =~= devices_part(crate::device::device_views(devices@)));
    lines
}

/// Puts what a search for devices found into lines.
pub fn describe_discovery(discovery: &DiscoveryOutcome) -> (lines: Vec<String>)
    ensures
        texts(lines@) == discovery_lines(discovery@),
{
    let ghost found = devices_part(discovery@.devices);
    let mut lines = devices_text(&discovery.devices);
    lines.push("Logitech HID interfaces".to_owned());
    lines.push("VID:PID    Interface  Usage Page  Usage   Path             Product".to_owned());
    let ghost start = lines@;
    let mut i: usize = 0;
    while i < discovery.endpoints.len()
        invariant
            i <= discovery.endpoints.len(),
            lines@.len() == start.len() + i,
            forall|k: int| 0 <= k < start.len() ==> #[trigger] lines@[k] == start[k],
            forall|k: int|
                start.len() <= k < lines@.len() ==> #[trigger] lines@[k]@ == endpoint_row(
                    discovery.endpoints@[k - start.len()]@,
                ),
        decreases discovery.endpoints.len() - i,
    {
        lines.push(endpoint_text(&discovery.endpoints[i]));
        i = i + 1;
    }
    assert(texts(start) =~= found + seq![
        "Logitech HID interfaces"@,
        "VID:PID    Interface  Usage Page  Usage   Path             Product"@,
    ]);
    assert(texts(lines@) =~= texts(start) + discovery@.endpoints.map_values(
        |endpoint: EndpointView| endpoint_row(endpoint),
    ));
    assert(texts(lines@) =~= discovery_lines(discovery@));
    lines
}

/// Why no device answered, in lines: nothing where one did or nothing went wrong.
pub open spec fn probe_note_lines(discovery: DiscoveryView) -> Seq<Seq<char>> {
    if discovery.devices.len() == 0 && discovery.probe_errors.len() > 0 {
        seq!["Probe notes:"@] + discovery.probe_errors.map_values(|error: Seq<char>| "  "@ + error)
    } else {
        Seq::empty()
    }
}

/// Says why no device answered.
pub fn probe_notes(discovery: &DiscoveryOutcome) -> (lines: Vec<String>)
    ensures
        texts(lines@) == probe_note_lines(discovery@),
{
    let mut lines: Vec<String> = Vec::new();
    if discovery.devices.len() == 0 && discovery.probe_errors.len() > 0 {
        lines.push("Probe notes:".to_owned());
        let mut i: usize = 0;
        while i < discovery.probe_errors.len()
            invariant
                i <= discovery.probe_errors.len(),
                lines@.len() == i + 1,
                lines@[0]@ == "Probe notes:"@,
                forall|k: int| 1 <= k <= i ==> #[trigger] lines@[k]@ == "  "@ + discovery.probe_errors@[k - 1]@,
            decreases discovery.probe_errors.len() - i,
        {
            lines.push(join2("  ", discovery.probe_errors[i].as_str()));
            i = i + 1;
        }
    }
    assert(texts(lines@) =~= probe_note_lines(discovery@));
    lines
}

/// The entries of a table of bits from a report ID on, in the order of the IDs.
pub open spec fn bit_entries(bits: Map<u8, usize>, from: int) -> Seq<Seq<char>>
    decreases 256 - from,
{
    if from < 0 || from > 255 {
        Seq::empty()
    } else if bits.contains_key(from as u8) {
        seq![dec(from as nat) + ": "@ + dec(bits[from as u8] as nat)] + bit_entries(bits, from + 1)
    } else {
        bit_entries(bits, from + 1)
    }
}

/// A table of bits between braces.
pub open spec fn bits_text(bits: Map<u8, usize>) -> Seq<char> {
    "{"@ + joined(bit_entries(bits, 0), ", "@) + "}"@
}

fn list_bits(bits: &BTreeMap<u8, usize>) -> (text: String)
    ensures
        text@ == bits_text(bits@),
{
    let mut parts: Vec<String> = Vec::new();
    let mut id: u16 = 0;
    assert(texts(parts@) + bit_entries(bits@, 0) =~= bit_entries(bits@, 0));
    while id <= 255
        invariant
            id <= 256,
            texts(parts@) + bit_entries(bits@, id as int) == bit_entries(bits@, 0),
        decreases 256 - id,
    {
        let key: u8 = id as u8;
        let ghost known = texts(parts@);
        if let Some(count) = bits.get(&key) {
            parts.push(join3(decimal(id as u64).as_str(), ": ", decimal(*count as u64).as_str()));
            proof {
                let entry = dec(id as nat) + ": "@ + dec(bits@[key] as nat);
                assert(texts(parts@) =~= known.push(entry));
                assert(known + (seq![entry] + bit_entries(bits@, id + 1)) =~= texts(parts@) + bit_entries(
                    bits@,
                    id + 1,
                ));
            }
        }
        id = id + 1;
    }
    assert(texts(parts@) =~= bit_entries(bits@, 0));
    join3("{", join_all(&parts, ", ").as_str(), "}")
}

/// What a report descriptor says, in lines.
pub open spec fn descriptor_lines(path: Seq<char>, summary: ReportDescriptorSummary) -> Seq<Seq<char>> {
    seq![
        "Path: "@ + path,
        "Descriptor bytes: "@ + dec(summary.byte_length as nat),
        "Usage pages: "@ + joined(summary.usage_pages@.map_values(|page: u32| "0x"@ + hex_at_least4(page)), ", "@),
        "Report IDs: "@ + joined(summary.report_ids@.map_values(|id: u8| "0x"@ + hex2(id, true)), ", "@),
        "Input bits: "@ + bits_text(summary.input_bits@),
        "Output bits: "@ + bits_text(summary.output_bits@),
        "Feature bits: "@ + bits_text(summary.feature_bits@),
        "Raw: "@ + spaced_out(summary.raw_hex@),
    ]
}

fn list_pages(pages: &Vec<u32>) -> (text: String)
    ensures
        text@ == joined(pages@.map_values(|page: u32| "0x"@ + hex_at_least4(page)), ", "@),
{
    let mut parts: Vec<String> = Vec::new();
    let mut i: usize = 0;
    while i < pages.len()
        invariant
            i <= pages.len(),
            parts@.len() == i,
            forall|k: int| 0 <= k < i ==> #[trigger] parts@[k]@ == "0x"@ + hex_at_least4(pages@[k]),
        decreases pages.len() - i,
    {
        parts.push(join2("0x", hex_wide(pages[i]).as_str()));
        i = i + 1;
    }
    assert(texts(parts@) =~= pages@.map_values(|page: u32| "0x"@ + hex_at_least4(page)));
    join_all(&parts, ", ")
}

fn list_ids(ids: &Vec<u8>) -> (text: String)
    ensures
        text@ == joined(ids@.map_values(|id: u8| "0x"@ + hex2(id, true)), ", "@),
{
    let mut parts: Vec<String> = Vec::new();
    let mut i: usize = 0;
    while i < ids.len()
        invariant
            i <= ids.len(),
            parts@.len() == i,
            forall|k: int| 0 <= k < i ==> #[trigger] parts@[k]@ == "0x"@ + hex2(ids@[k], true),
        decreases ids.len() - i,
    {
        parts.push(join2("0x", hex_byte(ids[i], true).as_str()));
        i = i + 1;
    }
    assert(texts(parts@) =~= ids@.map_values(|id: u8| "0x"@ + hex2(id, true)));
    join_all(&parts, ", ")
}

/// Puts what a report descriptor says into lines.
pub fn describe_descriptor(path: &str, summary: &ReportDescriptorSummary) -> (lines: Vec<String>)
    ensures
        texts(lines@) == descriptor_lines(path@, *summary),
{
    let mut lines: Vec<String> = Vec::new();
    lines.push(join2("Path: ", path));
    lines.push(join2("Descriptor bytes: ", decimal(summary.byte_length as u64).as_str()));
    lines.push(join2("Usage pages: ", list_pages(&summary.usage_pages).as_str()));
    lines.push(join2("Report IDs: ", list_ids(&summary.report_ids).as_str()));
    lines.push(join2("Input bits: ", list_bits(&summary.input_bits).as_str()));
    lines.push(join2("Output bits: ", list_bits(&summary.output_bits).as_str()));
    lines.push(join2("Feature bits: ", list_bits(&summary.feature_bits).as_str()));
    lines.push(join2("Raw: ", spaced_from_compact_hex(summary.raw_hex.as_str()).as_str()));
    assert(texts(lines@) =~= descriptor_lines(path@, *summary));
    lines
}

}
