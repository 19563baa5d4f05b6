//! What the reports of the commands say.

use vstd::prelude::*;

use crate::cli::{spaced_out, summary_parts};
use crate::command::{ReportView, SummaryView};
use crate::device::DiscoveryView;
use crate::device::battery::BatteryView;
use crate::device::dpi::{DpiCapabilitiesView, DpiState};
use crate::device::identity::{FirmwareView, IdentityView};
use crate::device::onboard::{OnboardInfoView, OnboardStatusView, SectorView};
use crate::device::rate::RateState;
use crate::hidpp::features::{name_of_feature, FeatureView};
use crate::hidpp::protocol::{spaced_pairs, version_text};
use crate::report::{
    battery_lines, bit_entries, discovery_lines, level_text, probe_note_lines, report_lines, summary_lines,
};
use crate::state::{loading_heading_of, pending_of, state_during, StateView, TaskView};
use crate::text::{dec, hex2, hex4, joined, left_aligned, right_aligned, signed_dec};
use crate::tray::{known_values, settings_line, tray_of, TrayView};

verus! {

/// A battery is told by its charge, or else by its level; in full also by its state, its voltage where it is known, its
/// source and its bytes.
pub proof fn battery_is_reported(battery: BatteryView)
    ensures
        report_lines(ReportView::Battery { battery, details: false }) == seq![level_text(battery)],
        report_lines(ReportView::Battery { battery, details: true }) == battery_lines(battery),
        battery.percentage matches Some(percent) ==> level_text(battery) == dec(percent as nat) + "%"@,
        battery.percentage is None && battery.approximate_level is Some ==> level_text(battery)
            == battery.approximate_level->0,
        battery.percentage is None && battery.approximate_level is None ==> level_text(battery) == "unknown"@,
        battery_lines(battery)[0] == "Level: "@ + level_text(battery),
        battery_lines(battery)[1] == "Status: "@ + battery.status,
        battery.voltage_mv matches Some(voltage) ==> battery_lines(battery).len() == 5 && battery_lines(battery)[2]
            == "Voltage: "@ + (dec(voltage as nat) + " mV"@) && battery_lines(battery)[3] == "Source: "@ + battery.source
            && battery_lines(battery)[4] == "Raw: "@ + spaced_out(battery.raw_hex),
        battery.voltage_mv is None ==> battery_lines(battery).len() == 4 && battery_lines(battery)[2] == "Source: "@
            + battery.source && battery_lines(battery)[3] == "Raw: "@ + spaced_out(battery.raw_hex),
{
}

/// A sensitivity is told along and across, with the lift-off distance where there is one; one that was set, in one line.
pub proof fn sensitivity_is_reported(dpi: DpiState)
    ensures
        ({
            let lines = report_lines(ReportView::Dpi(dpi));
            &&& lines[0] == "X: "@ + dec(dpi.x as nat) + " DPI"@
            &&& lines[1] == "Y: "@ + dec(dpi.y as nat) + " DPI"@
            &&& dpi.lift_off_distance matches Some(distance) ==> lines.len() == 3 && lines[2]
                == "Lift-off distance code: "@ + dec(distance as nat)
            &&& dpi.lift_off_distance is None ==> lines.len() == 2
        }),
        report_lines(ReportView::DpiSet(dpi)) == seq![
            "DPI set and verified: "@ + dec(dpi.x as nat) + " x "@ + dec(dpi.y as nat),
        ],
{
}

/// What a mouse offers is told by its lowest and highest sensitivity, their step, and the list.
pub proof fn offer_is_reported(capabilities: DpiCapabilitiesView)
    ensures
        ({
            let lines = report_lines(ReportView::DpiCapabilities(capabilities));
            &&& lines.len() == 6
            &&& lines[0] == "Minimum: "@ + dec(capabilities.minimum as nat) + " DPI"@
            &&& lines[1] == "Maximum: "@ + dec(capabilities.maximum as nat) + " DPI"@
            &&& lines[2] == "Step: "@ + (match capabilities.step {
                Some(step) => dec(step as nat) + " DPI"@,
                None => "variable"@,
            })
            &&& lines[3] == "Separate X/Y: "@ + (if capabilities.separate_xy {
                "yes"@
            } else {
                "no"@
            })
            &&& lines[4] == "Lift-off distance: "@ + (if capabilities.lift_off_distance {
                "yes"@
            } else {
                "no"@
            })
            &&& lines[5] == "Values: "@ + joined(summary_parts(capabilities.x_values, 0), ", "@)
        }),
{
}

/// A rate is told with its interval, and the rates on offer one in a line.
pub proof fn rates_are_reported(rate: RateState, rates: crate::device::rate::RateCapabilitiesView, i: int)
    ensures
        report_lines(ReportView::Rate(rate)) == seq![
            dec(rate.hz as nat) + " Hz ("@ + dec(rate.interval_microseconds as nat) + " us)"@,
        ],
        report_lines(ReportView::RateSet(rate)) == seq!["Report rate set and verified: "@ + dec(rate.hz as nat) + " Hz"@],
        report_lines(ReportView::RateCapabilities(rates)).len() == rates.rates_hz.len(),
        0 <= i < rates.rates_hz.len() ==> report_lines(ReportView::RateCapabilities(rates))[i] == dec(
            rates.rates_hz[i] as nat,
        ) + " Hz"@,
{
}

/// The mode of a mouse is told by its name, with the sector of the active profile where there is one; a stage by its
/// number from one on.
pub proof fn mode_and_stage_are_reported(status: OnboardStatusView, stage: u8)
    requires
        stage < 255,
    ensures
        ({
            let lines = report_lines(ReportView::Status(status));
            &&& lines[0] == "Mode: "@ + status.mode
            &&& status.active_sector matches Some(sector) ==> lines.len() == 2 && lines[1]
                == "Active profile sector: 0x"@ + hex4(sector, true)
            &&& status.active_sector is None ==> lines.len() == 1
        }),
        report_lines(ReportView::Stage(stage)) == seq!["Current onboard DPI stage: "@ + dec(stage as nat + 1)],
{
}

/// What a mouse says of its memory is told field by field.
pub proof fn memory_is_reported(info: OnboardInfoView, raw: bool)
    ensures
        ({
            let lines = report_lines(ReportView::Info { info, raw });
            &&& lines.len() == (if raw {
                12int
            } else {
                11
            })
            &&& lines[0] == "Memory model:      0x"@ + hex2(info.memory_model, true)
            &&& lines[1] == "Profile format:    0x"@ + hex2(info.profile_format, true)
            &&& lines[2] == "Macro format:      0x"@ + hex2(info.macro_format, true)
            &&& lines[3] == "Profile count:     "@ + dec(info.profile_count as nat)
            &&& lines[4] == "ROM profiles:      "@ + dec(info.rom_profile_count as nat)
            &&& lines[5] == "Button count:      "@ + dec(info.button_count as nat)
            &&& lines[6] == "Sector count:      "@ + dec(info.sector_count as nat)
            &&& lines[7] == "Sector size:       "@ + dec(info.sector_size as nat)
            &&& lines[8] == "Mechanical layout: 0x"@ + hex2(info.mechanical_layout, true)
            &&& lines[9] == "Various info:      0x"@ + hex2(info.various_info, true)
            &&& lines[10] == "Reserved:          "@ + spaced_out(info.reserved_hex)
            &&& raw ==> lines[11] == "Raw:               "@ + spaced_out(info.raw_hex)
        }),
{
}

/// A sector is told with its size, both checksums and its bytes; one that was rewritten, with its checksum.
pub proof fn sector_is_reported(sector: SectorView)
    ensures
        ({
            let lines = report_lines(ReportView::Sector(sector));
            &&& lines.len() == 6
            &&& lines[0] == "Sector:       0x"@ + hex4(sector.sector, true)
            &&& lines[1] == "Size:         "@ + dec(sector.size as nat) + " bytes"@
            &&& lines[2] == "Stored CRC:   0x"@ + hex4(sector.stored_crc, true)
            &&& lines[3] == "Computed CRC: 0x"@ + hex4(sector.computed_crc, true)
            &&& lines[4] == "CRC valid:    "@ + (if sector.crc_valid {
                "true"@
            } else {
                "false"@
            })
            &&& lines[5] == "Data:         "@ + spaced_out(sector.data_hex)
        }),
        report_lines(ReportView::SectorVerified(sector)) == seq![
            "Sector 0x"@ + hex4(sector.sector, true) + " was rewritten unchanged and verified with CRC 0x"@ + hex4(
                sector.stored_crc,
                true,
            ),
        ],
{
}

/// A rate that was stored is told with its slot and its sector; a call that was spelled out, with its feature, its function
/// and the reply.
pub proof fn stores_and_calls_are_reported(
    hz: u32,
    written: crate::device::memory::OnboardProfileWrite,
    reply: crate::command::RawReplyView,
)
    ensures
        report_lines(ReportView::RateStored { hz, written }) == seq![
            "Saved "@ + dec(hz as nat) + " Hz to onboard profile slot "@ + dec(written.slot as nat) + " in sector 0x"@
                + hex4(written.sector, true),
        ],
        ({
            let lines = report_lines(ReportView::Raw(reply));
            &&& lines.len() == 3
            &&& lines[0] == "Feature: 0x"@ + hex4(reply.feature, true) + " "@ + name_of_feature(reply.feature) + (
            " (index 0x"@ + hex2(reply.feature_index, true) + ")"@)
            &&& lines[1] == "Function: 0x"@ + hex2(reply.function, true)
            &&& lines[2] == "Response: "@ + spaced_pairs(reply.response)
        }),
{
}

/// A feature is told with its index, its ID, its version, its type and its name, under a line that says so; the table for
/// debugging has a line for each in its own form.
pub proof fn features_are_reported(features: Seq<FeatureView>, i: int)
    requires
        0 <= i < features.len(),
    ensures
        ({
            let lines = report_lines(ReportView::Features(features));
            let feature = features[i];
            &&& lines.len() == features.len() + 1
            &&& lines[0] == "Index  Feature  Version  Type  Name"@
            &&& lines[i + 1] == "0x"@ + hex2(feature.index, true) + "  0x"@ + hex4(feature.id, true) + ("   "@
                + right_aligned(dec(feature.version as nat), 3) + "      0x"@ + hex2(feature.feature_type, true) + ("  "@
                + feature.name))
        }),
        ({
            let lines = report_lines(ReportView::FeatureTable(features));
            let feature = features[i];
            &&& lines.len() == features.len()
            &&& lines[i] == "index=0x"@ + hex2(feature.index, true) + " id=0x"@ + hex4(feature.id, true) + (" version="@
                + dec(feature.version as nat) + " type=0x"@ + hex2(feature.feature_type, true) + (" "@ + feature.name))
        }),
{
}

/// A part of the firmware is told by its kind, its name where it has one, and its version.
pub proof fn firmware_is_reported(records: Seq<FirmwareView>, i: int)
    requires
        0 <= i < records.len(),
    ensures
        report_lines(ReportView::Firmware(records)).len() == records.len(),
        ({
            let line = report_lines(ReportView::Firmware(records))[i];
            let version = match records[i].version {
                Some(version) => version,
                None => "unknown"@,
            };
            match records[i].name {
                Some(name) => line == records[i].kind + ": "@ + (name + " "@) + version,
                None => line == records[i].kind + ": "@ + version,
            }
        }),
{
    assert(records[i].kind + ": "@ + Seq::<char>::empty() =~= records[i].kind + ": "@);
}

/// Who a device is is told by its name, its version, its receiver, its path and its index, and by what else is known.
pub proof fn identity_is_reported(identity: IdentityView)
    ensures
        ({
            let lines = report_lines(ReportView::Identity(identity));
            let serial: int = if identity.receiver.serial is Some {
                1
            } else {
                0
            };
            let unit: int = if identity.unit_id is Some {
                1
            } else {
                0
            };
            let format: int = if identity.profile_format is Some {
                1
            } else {
                0
            };
            &&& lines.len() == 5 + serial + unit + format
            &&& lines[0] == "Name: "@ + identity.name
            &&& lines[1] == "HID++: "@ + version_text(identity.hidpp_version)
            &&& lines[2] == "Receiver: "@ + identity.receiver.vid + ":"@ + identity.receiver.pid
            &&& identity.receiver.serial matches Some(text) ==> lines[3] == "Receiver serial: "@ + text
            &&& lines[3 + serial] == "Path: "@ + identity.receiver.path
            &&& lines[4 + serial] == "Device index: 0x"@ + hex2(identity.device_index, true)
            &&& identity.unit_id matches Some(text) ==> lines[5 + serial] == "Unit ID: "@ + text
            &&& identity.profile_format matches Some(number) ==> lines[5 + serial + unit] == "Profile format: 0x"@
                + hex2(number, true)
        }),
{
}

/// A profile of the memory is told with its slot, its sector, whether it is active or enabled, its rate, its points and
/// whether its checksum is valid, and then each button.
pub proof fn profile_is_reported(summary: SummaryView, i: int)
    ensures
        summary_lines(summary).len() == summary.buttons.len() + 1,
        summary_lines(summary)[0] == "Slot "@ + dec(summary.slot as nat) + "  sector 0x"@ + hex4(summary.sector, true) + (
        "  "@ + left_aligned(
            if summary.active {
                "active"@
            } else if summary.enabled {
                "enabled"@
            } else {
                "disabled"@
            },
            8,
        ) + "  "@ + dec(summary.report_rate as nat) + " Hz  DPI "@) + ("["@ + joined(
            summary.dpi_points.map_values(|number: u16| dec(number as nat)),
            ", "@,
        ) + "]"@ + "  CRC "@ + if summary.crc_valid {
            "valid"@
        } else {
            "INVALID"@
        }),
        0 <= i < summary.buttons.len() ==> summary_lines(summary)[i + 1] == "  "@ + summary.buttons[i],
{
}

/// A device is told with its number, its name, its version, the IDs of its node, its index and its path; a node with its
/// IDs, its interface, its usage and its path.
pub proof fn devices_and_nodes_are_reported(discovery: DiscoveryView, i: int)
    ensures
        0 <= i < discovery.devices.len() ==> ({
            let device = discovery.devices[i];
            &&& discovery_lines(discovery)[0] == "Logical devices"@
            &&& discovery_lines(discovery)[i + 1] == dec((i + 1) as nat) + "  "@ + device.name + "  HID++ "@
                + version_text(device.protocol) + ("  receiver "@ + hex4(device.endpoint.vendor_id, true) + ":"@ + hex4(
                device.endpoint.product_id,
                true,
            )) + ("  index 0x"@ + hex2(device.device_index, true) + "  "@ + device.endpoint.path)
        }),
        discovery.devices.len() == 0 ==> discovery_lines(discovery)[0]
            == "No responsive HID++ 2.x logical devices found."@,
        0 <= i < discovery.endpoints.len() ==> ({
            let endpoint = discovery.endpoints[i];
            let above: int = if discovery.devices.len() == 0 {
                3
            } else {
                discovery.devices.len() as int + 4
            };
            &&& discovery_lines(discovery).len() == above + discovery.endpoints.len()
            &&& discovery_lines(discovery)[above + i] == hex4(endpoint.vendor_id, true) + ":"@ + hex4(
                endpoint.product_id,
                true,
            ) + ("  "@ + right_aligned(signed_dec(endpoint.interface_number as int), 9) + "  0x"@ + hex4(
                endpoint.usage_page,
                true,
            )) + ("      0x"@ + hex4(endpoint.usage, true) + "  "@ + left_aligned(endpoint.path, 16)) + (" "@
                + match endpoint.product {
                Some(product) => product,
                None => "unknown"@,
            })
        }),
{
}

/// Why no device was found is told where there is something to tell.
pub proof fn problems_are_reported(discovery: DiscoveryView, i: int)
    ensures
        discovery.devices.len() > 0 || discovery.probe_errors.len() == 0 ==> probe_note_lines(discovery).len() == 0,
        discovery.devices.len() == 0 && 0 <= i < discovery.probe_errors.len() ==> probe_note_lines(discovery).len()
            == discovery.probe_errors.len() + 1 && probe_note_lines(discovery)[0] == "Probe notes:"@
            && probe_note_lines(discovery)[i + 1] == "  "@ + discovery.probe_errors[i],
{
}

/// The bits of the reports are told by their IDs in ascending order.
pub proof fn bits_are_reported(bits: Map<u8, usize>, from: int)
    requires
        0 <= from <= 255,
    ensures
        bits.contains_key(from as u8) ==> bit_entries(bits, from) == seq![
            dec(from as nat) + ": "@ + dec(bits[from as u8] as nat),
        ] + bit_entries(bits, from + 1),
        !bits.contains_key(from as u8) ==> bit_entries(bits, from) == bit_entries(bits, from + 1),
        bit_entries(bits, 256) == Seq::<Seq<char>>::empty(),
{
}

/// The tray shows of a mouse that is ready its name and its values, and of no other anything. The line of its values has
/// the sensitivity, the rate and the charge, as far as they are known, in this order.
pub proof fn tray_shows_the_mouse(state: StateView, busy: bool)
    ensures
        ({
            let shown = tray_of(state, busy);
            &&& shown.busy == busy
            &&& shown.connected <==> state is Ready
            &&& state matches StateView::Ready(snapshot) ==> shown.device_name == snapshot.name && shown.battery
                == snapshot.battery && shown.dpi == snapshot.dpi && shown.polling_rate == snapshot.report_rate
            &&& !(state is Ready) ==> shown.device_name == "Logitech mouse"@ && shown.battery is None && shown.dpi is None
                && shown.polling_rate is None && settings_line(shown) == "Refreshing mouse"@
        }),
{
}

/// The values of the line in the tray, each with its unit.
pub proof fn tray_tells_values(tray: TrayView)
    ensures
        tray.dpi is Some && tray.polling_rate is Some && tray.battery is Some ==> known_values(tray) == seq![
            dec(tray.dpi->0 as nat) + " DPI"@,
            dec(tray.polling_rate->0 as nat) + " Hz"@,
            dec(tray.battery->0 as nat) + "% battery"@,
        ],
        tray.dpi is Some && tray.polling_rate is Some && tray.battery is None ==> known_values(tray) == seq![
            dec(tray.dpi->0 as nat) + " DPI"@,
            dec(tray.polling_rate->0 as nat) + " Hz"@,
        ],
        known_values(tray).len() > 0 ==> settings_line(tray) == joined(known_values(tray), " · "@),
{
    if tray.dpi is Some && tray.polling_rate is Some {
        if tray.battery is Some {
            assert(known_values(tray) =~= seq![
                dec(tray.dpi->0 as nat) + " DPI"@,
                dec(tray.polling_rate->0 as nat) + " Hz"@,
                dec(tray.battery->0 as nat) + "% battery"@,
            ]);
        } else {
            assert(known_values(tray) =~= seq![
                dec(tray.dpi->0 as nat) + " DPI"@,
                dec(tray.polling_rate->0 as nat) + " Hz"@,
            ]);
        }
    }
}

/// While a task is under way, a mouse that is only read again stays shown; every other task shows what it does.
pub proof fn tasks_are_shown(state: StateView, task: TaskView)
    ensures
        task is Refresh && state is Ready ==> state_during(state, task) == state,
        !(task is Refresh && state is Ready) ==> state_during(state, task) is Loading,
        pending_of(state) is None <==> state is Ready,
        task is SaveOnboard ==> (state_during(state, task) matches StateView::Loading(message) && loading_heading_of(
            message,
        ) == "Saving to onboard memory"@),
{
    reveal_strlit("Saving to onboard memory");
    reveal_strlit("Saving");
    assert("Saving to onboard memory"@.subrange(0, 6) =~= "Saving"@);
}

}
