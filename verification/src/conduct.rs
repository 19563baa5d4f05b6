//! How the program behaves around the devices: what it reads from its user, what it keeps, and how it shows itself.

use vstd::prelude::*;

use crate::access::{
    grant_outcome, installer_check, is_consent, next_access, turns_prompt_off, udevadm_outcome, AccessActionView,
    AccessEventView, AccessStage,
};
use crate::autostart::{
    autostart_change, entry_of, escaped, exec_path_of, preferred_executable, quoted, AUTOSTART_MARKER,
};
use crate::bytes::overwritten;
use crate::cli::{compacted, function_of, hex_bytes_of, hex_u16_of, run_end, summary_parts, without_prefixes};
use crate::display::{all_groups, display_name, grouped, highest, matching_choices, proposed_dpi, status_words, stepped};
use crate::error::{error_text, exit_code_of, hid_failure, ErrorView};
use crate::hexcode::{hex_decoded, hex_round_trip, hex_text, HexError};
use crate::hid::{name_of_bus, Bus};
use crate::notation::{digits_have_codes, four_digits_tell_a_word, is_hex_digit, prefix_and_rest_make_text};
use crate::number::{number_is_in_range, number_of, parse_fault_text, ParseFault};
use crate::paths::{ascii, below, file_below, is_absolute, user_directory};
use crate::profile::{action_label, ActionView};
use crate::settings::{
    adopted, default_settings, interval_label, is_interval, kept_notice, planned, settled, AppSettings,
    REFRESH_INTERVALS,
};
use crate::state::{title_of, StateView};
use crate::text::{dec, dec3, hex2, hex4, lowered, occurs, signed_dec, stands_at, trimmed, uppered};
use crate::tray::opacity_first;
use crate::utf8::longest_valid;
use crate::window::{
    bytes_lowered, frame_steps, frames_hidden_at_start, refresh_time_of, start_notice, tray_words, x11_chosen,
    RefreshTime, WindowFacts,
};
use vstd::utf8::{decode_utf8, valid_utf8};

verus! {

/// The exit code of each error.
pub proof fn errors_have_exit_codes(error: ErrorView)
    ensures
        exit_code_of(error) == (match error {
            ErrorView::Hid { .. } => 1int,
            ErrorView::Other(_) => 1,
            ErrorView::NoDevice => 2,
            ErrorView::DeviceNotFound(_) => 2,
            ErrorView::AmbiguousDevice(_) => 3,
            ErrorView::UnsupportedFeature { .. } => 4,
            ErrorView::PermissionDenied { .. } => 5,
            ErrorView::Timeout { .. } => 6,
            ErrorView::Protocol { .. } => 7,
            ErrorView::Validation(_) => 8,
            ErrorView::Unsafe(_) => 8,
            ErrorView::Verification(_) => 9,
            ErrorView::IncompatibleProfile(_) => 10,
        }),
{
}

/// A failure of a node is a missing right where its message says so, in whatever case, and keeps its message otherwise.
pub proof fn missing_rights_are_told_by_message(path: Seq<char>, message: Seq<char>)
    ensures
        occurs(lowered(message), "permission denied"@) ==> hid_failure(path, message) == (ErrorView::PermissionDenied {
            path,
        }),
        !occurs(lowered(message), "permission denied"@) ==> hid_failure(path, message) == (ErrorView::Hid {
            path,
            message,
        }),
{
}

/// A prefix is taken off as often as it stands in front.
pub proof fn prefixes_are_taken_off(text: Seq<char>)
    ensures
        without_prefixes("0x"@ + text, "0x"@) == without_prefixes(text, "0x"@),
        !(text.len() >= 2 && text[0] == '0' && text[1] == 'x') ==> without_prefixes(text, "0x"@) == text,
{
    reveal_strlit("0x");
    let more = "0x"@ + text;
    assert(more.subrange(0, 2) =~= "0x"@);
    assert(more.skip(2) =~= text);
    if stands_at(text, "0x"@, 0) {
        assert(text.subrange(0, 2)[0] == '0' && text.subrange(0, 2)[1] == 'x');
        assert(text[0] == '0' && text[1] == 'x');
    }
}

/// A word is read from its four hexadecimal digits, with capital or small letters, with and without 0x before them. Any
/// other text is read as a hexadecimal number of at most 16 bits.
pub proof fn words_are_read_in_hexadecimal(word: u16, upper: bool, text: Seq<char>)
    ensures
        hex_u16_of(hex4(word, upper)) == std::result::Result::<u16, Seq<char>>::Ok(word),
        hex_u16_of("0x"@ + hex4(word, upper)) == std::result::Result::<u16, Seq<char>>::Ok(word),
        hex_u16_of("0x"@ + text) == hex_u16_of(text),
{
    four_digits_tell_a_word(word, upper, 0xffff);
    prefixes_are_taken_off(hex4(word, upper));
    prefixes_are_taken_off(text);
    assert(is_hex_digit(hex4(word, upper)[1], upper));
}

/// A function is told by its number from 0 to 15, or by its byte, which is that number times 16. Any other byte is an
/// error, and so is what is no hexadecimal number of a byte.
pub proof fn functions_are_told_two_ways(text: Seq<char>)
    ensures
        match number_of(without_prefixes(text, "0x"@), 16, 255) {
            Err(_) => function_of(text) is Err,
            Ok(number) => {
                &&& 0 <= number < 16 ==> (function_of(text) matches Ok(function) && function == 16 * number)
                &&& number >= 16 && number % 16 == 0 ==> (function_of(text) matches Ok(function) && function == number)
                &&& number >= 16 && number % 16 != 0 ==> function_of(text) is Err
            },
        },
{
    number_is_in_range(without_prefixes(text, "0x"@), 16, 255);
}

/// What is left of a text without the characters between bytes is its other characters, in their order.
pub proof fn fillers_are_left_out(text: Seq<char>)
    ensures
        compacted(text) == text.filter(
            |c: char| !(c == ' ' || c == '\t' || c == '\n' || c == '\u{c}' || c == '\r' || c == ':'),
        ),
    decreases text.len(),
{
    reveal(Seq::filter);
    if text.len() > 0 {
        fillers_are_left_out(text.drop_last());
    }
}

proof fn digits_are_no_fillers(text: Seq<char>, upper: bool)
    requires
        forall|i: int| 0 <= i < text.len() ==> is_hex_digit(#[trigger] text[i], upper),
    ensures
        compacted(text) == text,
    decreases text.len(),
{
    if text.len() > 0 {
        assert(is_hex_digit(text[text.len() - 1], upper));
        assert forall|i: int| 0 <= i < text.drop_last().len() implies is_hex_digit(
            #[trigger] text.drop_last()[i],
            upper,
        ) by {
            assert(is_hex_digit(text[i], upper));
        }
        digits_are_no_fillers(text.drop_last(), upper);
        assert(text.drop_last().push(text.last()) =~= text);
    } else {
        assert(compacted(text) =~= text);
    }
}

proof fn hexadecimal_is_digits(bytes: Seq<u8>, upper: bool)
    ensures
        forall|i: int| 0 <= i < hex_text(bytes, upper).len() ==> is_hex_digit(#[trigger] hex_text(bytes, upper)[i], upper),
{
    let text = hex_text(bytes, upper);
    assert forall|i: int| 0 <= i < text.len() implies is_hex_digit(#[trigger] text[i], upper) by {
        digits_have_codes(bytes[i / 2] as int / 16, upper);
        digits_have_codes(bytes[i / 2] as int % 16, upper);
    }
}

/// Bytes are read from their hexadecimal digits, with capital or small letters, with and without 0x before them. Two texts
/// that differ only in what stands between the digits are read alike. An empty text is no bytes.
pub proof fn bytes_are_read_in_hexadecimal(bytes: Seq<u8>, upper: bool, a: Seq<char>, b: Seq<char>)
    ensures
        hex_bytes_of(hex_text(bytes, upper)) == std::result::Result::<Seq<u8>, Seq<char>>::Ok(bytes),
        hex_bytes_of(Seq::empty()) == std::result::Result::<Seq<u8>, Seq<char>>::Ok(Seq::empty()),
        compacted(a) == compacted(b) ==> hex_bytes_of(a) == hex_bytes_of(b),
        compacted(a).len() > 0 && compacted(b) == "0x"@ + compacted(a) ==> hex_bytes_of(a) == hex_bytes_of(b),
{
    let text = hex_text(bytes, upper);
    hexadecimal_is_digits(bytes, upper);
    digits_are_no_fillers(text, upper);
    hex_round_trip(bytes, upper);
    prefixes_are_taken_off(text);
    if text.len() >= 2 {
        assert(is_hex_digit(text[1], upper));
    }
    prefixes_are_taken_off(compacted(a));
    if bytes.len() == 0 {
        assert(bytes =~= Seq::empty());
    }
}

proof fn even_run_goes_to_the_end(values: Seq<u16>, step: int, from: int)
    requires
        0 <= from < values.len(),
        forall|i: int| 0 <= i < values.len() - 1 ==> (#[trigger] values[i]) + step == values[i + 1],
    ensures
        run_end(values, step, from) == values.len() - 1,
    decreases values.len() - from,
{
    if from + 1 < values.len() {
        assert(values[from] + step == values[from + 1]);
        even_run_goes_to_the_end(values, step, from + 1);
    }
}

/// Four numbers or more at even distances are told as a range with its step; up to three numbers one by one.
pub proof fn even_numbers_are_told_as_range(values: Seq<u16>, step: int)
    requires
        step >= 0,
        forall|i: int| 0 <= i < values.len() - 1 ==> (#[trigger] values[i]) + step == values[i + 1],
    ensures
        values.len() >= 4 ==> summary_parts(values, 0) == seq![
            dec(values[0] as nat) + "-"@ + dec(values.last() as nat) + " (step "@ + (dec(step as nat) + ")"@),
        ],
        values.len() == 3 ==> summary_parts(values, 0) == seq![
            dec(values[0] as nat),
            dec(values[1] as nat),
            dec(values[2] as nat),
        ],
{
    if values.len() >= 4 {
        assert(values[0] + step == values[1]);
        even_run_goes_to_the_end(values, step, 1);
        assert(summary_parts(values, values.len() as int) =~= Seq::empty());
        assert(summary_parts(values, 0) =~= seq![
            dec(values[0] as nat) + "-"@ + dec(values.last() as nat) + " (step "@ + (dec(step as nat) + ")"@),
        ]);
    } else if values.len() == 3 {
        reveal_with_fuel(summary_parts, 4);
        assert(summary_parts(values, 0) =~= seq![
            dec(values[0] as nat),
            dec(values[1] as nat),
            dec(values[2] as nat),
        ]);
    }
}

proof fn run_is_even(values: Seq<u16>, step: int, from: int)
    requires
        0 <= from < values.len(),
    ensures
        from <= run_end(values, step, from) < values.len(),
        forall|i: int|
            from <= i < run_end(values, step, from) ==> (#[trigger] values[i]) + step == values[i + 1],
        run_end(values, step, from) + 1 < values.len() ==> values[run_end(values, step, from)] + step
            != values[run_end(values, step, from) + 1],
    decreases values.len() - from,
{
    if from + 1 < values.len() && values[from + 1] - values[from] == step {
        run_is_even(values, step, from + 1);
    }
}

/// From each number on, the longest run at even distances is told as a range where it has four numbers or more, and
/// otherwise the number alone; then what is behind.
pub proof fn runs_are_told_as_ranges(values: Seq<u16>, index: int) -> (end: int)
    requires
        0 <= index < values.len(),
    ensures
        index <= end < values.len(),
        index + 1 < values.len() ==> ({
            let step = values[index + 1] - values[index];
            &&& index < end
            &&& forall|i: int| index <= i < end ==> (#[trigger] values[i]) + step == values[i + 1]
            &&& end + 1 < values.len() ==> values[end] + step != values[end + 1]
        }),
        end - index >= 3 ==> summary_parts(values, index) == seq![
            dec(values[index] as nat) + "-"@ + dec(values[end] as nat) + " (step "@ + (dec(
                (values[index + 1] - values[index]) as nat,
            ) + ")"@),
        ] + summary_parts(values, end + 1),
        end - index < 3 ==> summary_parts(values, index) == seq![dec(values[index] as nat)] + summary_parts(
            values,
            index + 1,
        ),
{
    if index + 1 < values.len() {
        let step = values[index + 1] - values[index];
        run_is_even(values, step, index + 1);
        run_end(values, step, index + 1)
    } else {
        index
    }
}

/// The settings of a program that keeps none: it is not started at login, starts in the tray, is neither closed nor
/// minimized to it, and refreshes every minute. Intervals are half a minute, one, five and fifteen minutes.
pub proof fn default_settings_are(seconds: u64)
    ensures
        !default_settings().launch_on_startup,
        default_settings().start_in_tray,
        !default_settings().close_to_tray,
        !default_settings().minimize_to_tray,
        default_settings().auto_refresh,
        default_settings().refresh_interval_seconds == 60,
        default_settings().schema_version == 1,
        is_interval(seconds) <==> seconds == 30 || seconds == 60 || seconds == 300 || seconds == 900,
{
    let intervals = REFRESH_INTERVALS@;
    assert(intervals[0] == 30 && intervals[1] == 60 && intervals[2] == 300 && intervals[3] == 900);
}

/// Settings that were kept in the first form are taken up as they are, but for the login, which is what the system says,
/// and for an interval that is none, which becomes a minute. Any others are passed over for the default ones.
pub proof fn settings_are_taken_up(stored: AppSettings, starts_at_login: bool)
    ensures
        ({
            let after = adopted(Some(stored), starts_at_login);
            let seconds = stored.refresh_interval_seconds;
            &&& after.launch_on_startup == starts_at_login
            &&& stored.schema_version == 1 ==> {
                &&& after.start_in_tray == stored.start_in_tray
                &&& after.close_to_tray == stored.close_to_tray
                &&& after.minimize_to_tray == stored.minimize_to_tray
                &&& after.auto_refresh == stored.auto_refresh
                &&& after.refresh_interval_seconds == (if seconds == 30 || seconds == 60 || seconds == 300 || seconds
                    == 900 {
                    seconds
                } else {
                    60
                })
            }
            &&& stored.schema_version != 1 ==> after == (AppSettings {
                launch_on_startup: starts_at_login,
                ..default_settings()
            })
        }),
        adopted(None, starts_at_login) == (AppSettings { launch_on_startup: starts_at_login, ..default_settings() }),
{
    default_settings_are(stored.refresh_interval_seconds);
    default_settings_are(60);
}

/// Settings that are changed are kept as they were asked for. What starts at login is set up anew where the login changes,
/// and where it is on and the start in the tray changes; where that fails, both stay as they were, and nothing else does.
pub proof fn settings_are_changed(previous: AppSettings, updated: AppSettings, autostart_failed: bool)
    requires
        updated.schema_version == 1,
        is_interval(updated.refresh_interval_seconds),
    ensures
        ({
            let plan = planned(previous, updated);
            let login_changes = updated.launch_on_startup != previous.launch_on_startup;
            let tray_changes = updated.start_in_tray != previous.start_in_tray;
            let after = settled(plan, previous, autostart_failed);
            &&& plan.settings == updated
            &&& plan.configure_autostart <==> login_changes || (updated.launch_on_startup && tray_changes)
            &&& after.close_to_tray == updated.close_to_tray
            &&& after.minimize_to_tray == updated.minimize_to_tray
            &&& after.auto_refresh == updated.auto_refresh
            &&& after.refresh_interval_seconds == updated.refresh_interval_seconds
            &&& !autostart_failed || !plan.configure_autostart ==> after == updated
            &&& autostart_failed && plan.configure_autostart ==> after.launch_on_startup == previous.launch_on_startup
                && after.start_in_tray == previous.start_in_tray
        }),
{
}

/// An interval is called by its minutes, and the one below a minute by its seconds.
pub proof fn intervals_have_labels(seconds: u64)
    requires
        is_interval(seconds),
    ensures
        seconds == 30 ==> interval_label(seconds) == "Every 30 seconds"@,
        seconds == 60 ==> interval_label(seconds) == "Every minute"@,
        seconds == 300 ==> interval_label(seconds) == "Every 5 minutes"@,
        seconds == 900 ==> interval_label(seconds) == "Every 15 minutes"@,
{
}

/// A mouse is refreshed on its own only where that is asked for and nothing else is going on: now, where the interval has
/// gone by, and otherwise when the rest of it has.
pub proof fn refreshing_waits_for_interval(settings: AppSettings, busy: bool, elapsed: u128)
    ensures
        ({
            let interval = settings.refresh_interval_seconds * 1_000_000_000;
            match refresh_time_of(settings, busy, elapsed) {
                RefreshTime::Never => !settings.auto_refresh || busy,
                RefreshTime::Now => settings.auto_refresh && !busy && elapsed >= interval,
                RefreshTime::Later { nanoseconds } => settings.auto_refresh && !busy && elapsed + nanoseconds
                    == interval && nanoseconds > 0,
            }
        }),
{
}

/// What a frame does to the window. The tray is lost where it was there and has closed. A window that starts hidden is
/// hidden for its first three frames. Closing and minimizing hide the window where the settings say so and it can be shown
/// again from the tray; quitting is never held up.
pub proof fn window_is_hidden_to_the_tray(facts: WindowFacts, settings: AppSettings)
    ensures
        ({
            let steps = frame_steps(facts, settings);
            let reachable = facts.tray_present && !facts.tray_closed && facts.hiding_supported;
            &&& steps.tray_lost <==> facts.tray_present && facts.tray_closed
            &&& steps.hide_at_start <==> facts.hidden_frames > 0 && !steps.tray_lost
            &&& steps.hide_at_start ==> steps.hidden_frames == facts.hidden_frames - 1
            &&& !steps.hide_at_start ==> steps.hidden_frames == 0
            &&& steps.hide_on_close <==> facts.close_requested && !facts.force_quit && settings.close_to_tray
                && reachable
            &&& steps.hide_on_minimize <==> facts.minimized && settings.minimize_to_tray && reachable
        }),
        frames_hidden_at_start(true, true, true) == 3,
        forall|hidden: bool, tray: bool, hiding: bool|
            !(hidden && tray && hiding) ==> #[trigger] frames_hidden_at_start(hidden, tray, hiding) == 0,
{
}

/// The window is one of X11 where a display of it is named, unless Wayland is asked for, in whatever case.
pub proof fn window_system_is_chosen(display: Seq<u8>, preference: Seq<u8>)
    ensures
        !x11_chosen(None, Some(preference)) && !x11_chosen(None, None),
        x11_chosen(Some(display), None) <==> display.len() > 0,
        x11_chosen(Some(display), Some(preference)) <==> display.len() > 0 && !spells_wayland(preference),
{
    let lower = bytes_lowered(preference);
    reveal_strlit("wayland");
    let word = ascii("wayland"@);
    let letters = seq![119u8, 97u8, 121u8, 108u8, 97u8, 110u8, 100u8];
    assert(word =~= letters);
    assert(lower.len() == preference.len());
    if spells_wayland(preference) {
        assert forall|i: int| 0 <= i < 7 implies lower[i] == letters[i] by {
            assert(preference[i] == letters[i] || preference[i] + 32 == letters[i]);
        }
        assert(lower =~= word);
    }
    if lower == word {
        assert forall|i: int| 0 <= i < 7 implies #[trigger] preference[i] == letters[i] || preference[i] + 32
            == letters[i] by {
            assert(lower[i] == letters[i]);
        }
    }
}

/// Whether bytes spell the name of Wayland, each letter small or capital.
pub open spec fn spells_wayland(bytes: Seq<u8>) -> bool {
    let letters = seq![119u8, 97u8, 121u8, 108u8, 97u8, 110u8, 100u8];
    &&& bytes.len() == 7
    &&& forall|i: int| 0 <= i < 7 ==> #[trigger] bytes[i] == letters[i] || bytes[i] + 32 == letters[i]
}

/// A picture with the opacity in front has for each whole pixel its four bytes, the last one first.
pub proof fn opacity_comes_first(rgba: Seq<u8>, pixel: int)
    requires
        0 <= pixel,
        4 * pixel + 4 <= rgba.len(),
    ensures
        ({
            let argb = opacity_first(rgba);
            &&& argb.len() == rgba.len() - rgba.len() % 4
            &&& argb[4 * pixel] == rgba[4 * pixel + 3]
            &&& argb[4 * pixel + 1] == rgba[4 * pixel]
            &&& argb[4 * pixel + 2] == rgba[4 * pixel + 1]
            &&& argb[4 * pixel + 3] == rgba[4 * pixel + 2]
        }),
{
    assert((4 * pixel) % 4 == 0 && (4 * pixel + 1) % 4 == 1 && (4 * pixel + 2) % 4 == 2 && (4 * pixel + 3) % 4 == 3);
}

/// An answer is a yes where it is y or yes, in whatever case and with whatever white space round it. The question is
/// turned off by 1, true and yes, in whatever case.
pub proof fn yes_is_said(text: Seq<char>)
    ensures
        is_consent(text) <==> lowered(trimmed(text)) == "y"@ || lowered(trimmed(text)) == "yes"@,
        turns_prompt_off(Some(text)) <==> lowered(text) == "1"@ || lowered(text) == "true"@ || lowered(text) == "yes"@,
        !turns_prompt_off(None),
{
}

/// How asking for access goes on. A yes starts the installer and anything else ends the request without access. The
/// installer ends it with an error, or the node is tried, with a pause behind each failure, twenty times at most. A node
/// that opens ends it with access.
pub proof fn access_is_asked_for(answer: Seq<char>, path: Seq<char>, code: Option<i32>, tries: u8)
    requires
        tries <= 20,
    ensures
        next_access(AccessStage::Asking, AccessEventView::Answered(answer), path).1 == (if is_consent(answer) {
            AccessActionView::Install
        } else {
            AccessActionView::Finish(Ok(false))
        }),
        is_consent(answer) ==> next_access(AccessStage::Asking, AccessEventView::Answered(answer), path).0
            == AccessStage::Authorizing,
        next_access(AccessStage::Authorizing, AccessEventView::Installed { success: true, code }, path) == (
            AccessStage::Opening { tries: 0 },
            AccessActionView::TryOpen,
        ),
        next_access(AccessStage::Authorizing, AccessEventView::Installed { success: false, code }, path).1 matches AccessActionView::Finish(
            Err(_),
        ),
        next_access(AccessStage::Opening { tries }, AccessEventView::Opened(true), path).1
            == AccessActionView::Finish(Ok(true)),
        tries < 20 ==> next_access(AccessStage::Opening { tries }, AccessEventView::Opened(false), path) == (
            AccessStage::Opening { tries: (tries + 1) as u8 },
            AccessActionView::Pause,
        ),
        tries == 20 ==> (next_access(AccessStage::Opening { tries }, AccessEventView::Opened(false), path).1 matches AccessActionView::Finish(
            Err(_),
        )),
        tries < 20 ==> next_access(AccessStage::Opening { tries }, AccessEventView::Waited, path) == (
            AccessStage::Opening { tries },
            AccessActionView::TryOpen,
        ),
        tries == 20 ==> (next_access(AccessStage::Opening { tries }, AccessEventView::Waited, path).1 matches AccessActionView::Finish(
            Err(_),
        )),
{
}

/// Only the administrator, whose number is zero, may install the rule; what the tools say decides the rest.
pub proof fn administrator_installs(user_id: u32, success: bool, code: Option<i32>)
    ensures
        installer_check(user_id) is Ok <==> user_id == 0,
        installer_check(user_id) matches Err(error) ==> error is Unsafe,
        udevadm_outcome(success, code) is Ok <==> success,
        grant_outcome(success, code) is Ok <==> success,
{
}

/// Escaping puts a backslash before each backslash, quote, backtick and dollar, and nothing else.
pub proof fn escaping_marks_special_characters(text: Seq<char>, c: char)
    ensures
        escaped(Seq::empty()) == Seq::<char>::empty(),
        c == '\\' || c == '"' || c == '`' || c == '$' ==> escaped(seq![c] + text) == seq!['\\', c] + escaped(text),
        !(c == '\\' || c == '"' || c == '`' || c == '$') ==> escaped(seq![c] + text) == seq![c] + escaped(text),
        quoted(text).len() == escaped(text).len() + 2,
        quoted(text)[0] == '"',
        quoted(text).last() == '"',
        quoted(text).subrange(1, quoted(text).len() - 1) == escaped(text),
{
    assert((seq![c] + text).skip(1) =~= text);
    assert(quoted(text).subrange(1, quoted(text).len() - 1) =~= escaped(text));
}

/// A path can be put in an entry where it is text without a line break, and stands there in quotes.
pub proof fn paths_stand_in_quotes(path: Seq<u8>)
    ensures
        match exec_path_of(path) {
            Err(_) => !valid_utf8(path) || decode_utf8(path).contains('\n') || decode_utf8(path).contains('\r'),
            Ok(text) => valid_utf8(path) && !decode_utf8(path).contains('\n') && !decode_utf8(path).contains('\r')
                && text == quoted(decode_utf8(path)),
        },
{
}

/// The program that is started at login is the image that it came in where that has an absolute path, and itself
/// otherwise.
pub proof fn image_is_started(image: Seq<u8>, itself: Seq<u8>)
    ensures
        image.len() > 0 && image[0] == 47 ==> preferred_executable(Some(image), itself) == image,
        image.len() == 0 || image[0] != 47 ==> preferred_executable(Some(image), itself) == itself,
        preferred_executable(None, itself) == itself,
{
}

/// An entry of someone else is never changed. One of the program is written where the login is turned on and removed where
/// it is turned off; where there is none, it is written or left so.
pub proof fn entries_of_others_are_left(enabled: bool, entry: Seq<char>)
    ensures
        ({
            let own = occurs(entry, "X-OpenMouseMemory-Autostart=true"@);
            &&& !own ==> autostart_change(enabled, Some(entry)) is Err
            &&& own && enabled ==> (autostart_change(enabled, Some(entry)) matches Ok(change) && change is Write)
            &&& own && !enabled ==> (autostart_change(enabled, Some(entry)) matches Ok(change) && change is Remove)
        }),
        autostart_change(true, None) matches Ok(change) && change is Write,
        autostart_change(false, None) matches Ok(change) && change is Keep,
{
}

/// A path is absolute where it starts with a slash. A name below a directory is behind it and one slash.
pub proof fn names_are_behind_a_slash(directory: Seq<u8>, name: Seq<u8>)
    ensures
        is_absolute(directory) <==> directory.len() > 0 && directory[0] == 47,
        directory.len() > 0 && directory.last() != 47 ==> below(directory, name) == directory + seq![47u8] + name,
        directory.len() > 0 && directory.last() == 47 ==> below(directory, name) == directory + name,
        directory.len() == 0 ==> below(directory, name) == name,
{
    assert(directory.push(47u8) + name =~= directory + seq![47u8] + name);
    if directory.len() == 0 {
        assert(directory + name =~= name);
    }
}

/// A directory of the user is the one that the variable names, where that is absolute, or else one below the home.
pub proof fn user_directories_are_found(
    variable: Option<Seq<u8>>,
    home: Option<Seq<u8>>,
    fallback: Seq<char>,
    name: Seq<char>,
    file: Seq<char>,
)
    ensures
        ({
            let named = variable is Some && variable->0.len() > 0 && variable->0[0] == 47;
            let found = user_directory(variable, home, fallback);
            &&& named ==> found == variable
            &&& !named && home is Some ==> found == Some(below(home->0, ascii(fallback)))
            &&& !named && home is None ==> found is None
            &&& file_below(found, name, file) == (match found {
                Some(directory) => Some(below(below(directory, ascii(name)), ascii(file))),
                None => None,
            })
        }),
{
}

/// A slot of the memory is called by its number, and the first one without.
pub proof fn slots_have_names(slot: Seq<char>, name: Seq<char>)
    ensures
        slot == "1"@ ==> display_name("Onboard Slot "@ + slot) == "Onboard Memory"@,
        slot != "1"@ ==> display_name("Onboard Slot "@ + slot) == "Onboard Memory "@ + slot,
        !stands_at(name, "Onboard Slot "@, 0) ==> display_name(name) == name,
{
    prefix_and_rest_make_text("Onboard Slot "@ + slot, "Onboard Slot "@, slot);
}

/// A number from a thousand on has a comma before its last three digits.
pub proof fn thousands_have_a_comma(n: nat)
    ensures
        n < 1000 ==> grouped(n) == dec(n),
        n >= 1000 ==> grouped(n) == dec(n / 1000) + ","@ + dec3(n as int - 1000 * (n / 1000)),
{
    assert((n % 1000) as int == n as int - 1000 * (n / 1000));
}

/// The sensitivity that is proposed for a new point lies eight steps above the highest one, or eight times 50 where the
/// steps are smaller, and never above what the mouse can do.
pub proof fn new_point_lies_above(points: Seq<u16>, maximum: u16, step: u16)
    ensures
        ({
            let wide: int = if step < 50 {
                50
            } else {
                step as int
            };
            let proposed = proposed_dpi(points, maximum, step);
            &&& proposed <= maximum
            &&& highest(points) + 8 * wide <= maximum ==> proposed == highest(points) + 8 * wide
            &&& highest(points) + 8 * wide > maximum ==> proposed == maximum
        }),
        points.len() == 0 ==> highest(points) == 800,
        points.len() > 0 ==> points.contains(highest(points)) && forall|i: int|
            0 <= i < points.len() ==> #[trigger] points[i] <= highest(points),
{
    highest_is_the_highest(points);
}

proof fn highest_is_the_highest(points: Seq<u16>)
    ensures
        points.len() > 0 ==> points.contains(highest(points)) && forall|i: int|
            0 <= i < points.len() ==> #[trigger] points[i] <= highest(points),
    decreases points.len(),
{
    if points.len() > 0 {
        let front = points.drop_last();
        highest_is_the_highest(front);
        assert(points[points.len() - 1] == points.last());
        if front.len() > 0 {
            let k = choose|k: int| 0 <= k < front.len() && front[k] == highest(front);
            assert(points[k] == highest(front));
            assert forall|i: int| 0 <= i < points.len() implies #[trigger] points[i] <= highest(points) by {
                if i < front.len() {
                    assert(front[i] <= highest(front));
                }
            }
        }
    }
}

/// A value that is put on a scale is the last whole step up to it, or the end of the scale that it lies beyond.
pub proof fn values_are_put_on_steps(value: int, minimum: int, maximum: int, step: int, k: int)
    requires
        0 <= value,
        minimum <= maximum,
        step >= 1,
        k * step <= value < (k + 1) * step,
    ensures
        minimum <= stepped(value, minimum, maximum, step) <= maximum,
        minimum <= k * step <= maximum ==> stepped(value, minimum, maximum, step) == k * step,
        k * step < minimum ==> stepped(value, minimum, maximum, step) == minimum,
        k * step > maximum ==> stepped(value, minimum, maximum, step) == maximum,
{
    assert(value / step == k) by {
        assert((k + 1) * step == k * step + step) by (nonlinear_arith);
        vstd::arithmetic::div_mod::lemma_fundamental_div_mod_converse(value, step, k, value - k * step);
    }
}

/// The choices that a query finds are those whose action is called by a text that it is a part of, in whatever case, in
/// their order.
pub proof fn choices_are_found_by_name(query: Seq<char>, actions: Seq<(Seq<char>, ActionView)>)
    ensures
        matching_choices(query, actions) == actions.filter(
            |choice: (Seq<char>, ActionView)|
                query.len() == 0 || occurs(lowered(action_label(choice.1)), lowered(query)),
        ),
    decreases actions.len(),
{
    reveal(Seq::filter);
    if actions.len() > 0 {
        choices_are_found_by_name(query, actions.drop_last());
    }
}

/// The text of each error, with what it is about.
pub proof fn errors_have_texts(error: ErrorView)
    ensures
        error_text(error) == (match error {
            ErrorView::NoDevice => "no compatible Logitech HID++ device was found"@,
            ErrorView::DeviceNotFound(selector) => "device selector '"@ + selector + "' did not match a device"@,
            ErrorView::AmbiguousDevice(selector) => "device selector '"@ + selector
                + "' is ambiguous; use its numeric ID, serial, or hidraw path"@,
            ErrorView::UnsupportedFeature { id, name } => "feature 0x"@ + hex4(id, false) + " ("@ + name
                + ") is not advertised by this device"@,
            ErrorView::PermissionDenied { path } => "permission denied opening "@ + path
                + "; install packaging/udev/70-open-mouse-memory.rules and reconnect the mouse or receiver"@,
            ErrorView::Hid { path, message } => "HID access failed for "@ + path + ": "@ + message,
            ErrorView::Timeout { timeout_ms, device_index, feature_index, function, request } => "timeout after "@
                + signed_dec(timeout_ms as int) + " ms waiting for HID++ response"@ + ("\nDevice index: 0x"@ + hex2(
                device_index,
                false,
            ) + "\nFeature index: 0x"@ + hex2(feature_index, false) + ("\nFunction: 0x"@ + hex2(function, false))) + (
            "\nRequest: "@ + request),
            ErrorView::Protocol { device_index, feature_index, function, code, name } => "HID++ request failed"@ + (
            "\nDevice index: 0x"@ + hex2(device_index, false) + "\nFeature index: 0x"@ + hex2(feature_index, false) + (
            "\nFunction: 0x"@ + hex2(function, false))) + ("\nError: 0x"@ + hex2(code, false) + " ("@ + name + ")"@),
            ErrorView::Validation(text) => "invalid value: "@ + text,
            ErrorView::Verification(text) => "write verification failed: "@ + text,
            ErrorView::Unsafe(text) => "unsafe operation refused: "@ + text,
            ErrorView::IncompatibleProfile(text) => "invalid profile format: "@ + text,
            ErrorView::Other(text) => text,
        }),
{
}

/// A text of hexadecimal digits has an even number of them, and the first character that is none is told with its place.
pub proof fn broken_hexadecimal_is_told(text: Seq<char>, at: int)
    requires
        0 <= at < text.len(),
        text.len() % 2 == 0,
        vstd::utf8::is_ascii_chars(text),
        forall|i: int| 0 <= i < at ==> is_hex_digit(#[trigger] text[i], true) || is_hex_digit(text[i], false),
        !is_hex_digit(text[at], true) && !is_hex_digit(text[at], false),
    ensures
        hex_decoded(text) matches Err(HexError::InvalidCharacter { c, index }) && c == text[at] && index == at as usize,
{
    vstd::utf8::is_ascii_chars_encode_utf8(text);
    let bytes = vstd::utf8::encode_utf8(text);
    assert forall|i: int| 0 <= i < at implies crate::hexcode::digit_value(#[trigger] bytes[i]) is Some by {
        assert(is_hex_digit(text[i], true) || is_hex_digit(text[i], false));
        assert(text[i] as u8 == bytes[i]);
    }
    assert(text[at] as u8 == bytes[at]);
    first_other_is_there(bytes, 0, at);
}

proof fn first_other_is_there(bytes: Seq<u8>, from: int, at: int)
    requires
        0 <= from <= at < bytes.len(),
        forall|i: int| from <= i < at ==> crate::hexcode::digit_value(#[trigger] bytes[i]) is Some,
        crate::hexcode::digit_value(bytes[at]) is None,
    ensures
        crate::hexcode::first_non_digit(bytes, from) == Some(at),
    decreases at - from,
{
    if from < at {
        first_other_is_there(bytes, from + 1, at);
    }
}

/// A text of an odd number of characters of ASCII is no bytes.
pub proof fn odd_hexadecimal_is_told(text: Seq<char>)
    requires
        text.len() % 2 == 1,
        vstd::utf8::is_ascii_chars(text),
    ensures
        hex_decoded(text) matches Err(HexError::OddLength),
{
    vstd::utf8::is_ascii_chars_encode_utf8(text);
}

/// What is wrong with a number.
pub proof fn faults_of_numbers_have_texts(fault: ParseFault)
    ensures
        parse_fault_text(fault) == (match fault {
            ParseFault::Empty => "cannot parse integer from empty string"@,
            ParseFault::InvalidDigit => "invalid digit found in string"@,
            ParseFault::TooLarge => "number too large to fit in target type"@,
        }),
{
}

/// What the state of a battery is called on the screen.
pub proof fn states_of_batteries_have_words(status: Seq<char>)
    ensures
        status == "discharging"@ ==> status_words(status) == "Discharging"@,
        status == "recharging"@ ==> status_words(status) == "Charging"@,
        status == "almost-full"@ ==> status_words(status) == "Almost full"@,
        status == "full"@ ==> status_words(status) == "Full"@,
        status == "slow-recharge"@ ==> status_words(status) == "Charging slowly"@,
        status == "invalid-battery"@ ==> status_words(status) == "Battery unavailable"@,
        status == "thermal-error"@ ==> status_words(status) == "Temperature warning"@,
{
    reveal_strlit("discharging");
    reveal_strlit("recharging");
    reveal_strlit("almost-full");
    reveal_strlit("full");
    reveal_strlit("slow-recharge");
    reveal_strlit("invalid-battery");
    reveal_strlit("thermal-error");
    assert("discharging"@.len() == 11 && "recharging"@.len() == 10 && "almost-full"@.len() == 11 && "full"@.len() == 4);
    assert("slow-recharge"@.len() == 13 && "invalid-battery"@.len() == 15 && "thermal-error"@.len() == 13);
    assert("discharging"@[0] == 'd' && "almost-full"@[0] == 'a');
    assert("slow-recharge"@[0] == 's' && "thermal-error"@[0] == 't');
}

/// The choices for a button: the five clicks, the four ways to steer the sensitivity, and to do nothing.
pub proof fn choices_for_buttons(k: int)
    ensures
        all_groups().len() == 3,
        all_groups()[0].actions.len() == 5,
        all_groups()[1].actions.len() == 4,
        all_groups()[2].actions.len() == 1,
        k == 0 ==> all_groups()[0].actions[k].1 is PrimaryClick && all_groups()[1].actions[k].1 is DpiUp
            && all_groups()[2].actions[k].1 is Disabled,
        k == 1 ==> all_groups()[0].actions[k].1 is SecondaryClick && all_groups()[1].actions[k].1 is DpiDown,
        k == 2 ==> all_groups()[0].actions[k].1 is MiddleClick && all_groups()[1].actions[k].1 is DpiCycle,
        k == 3 ==> all_groups()[0].actions[k].1 is Back && all_groups()[1].actions[k].1 is DpiShift,
        k == 4 ==> all_groups()[0].actions[k].1 is Forward,
        all_groups()[0].name == "MOUSE"@ && all_groups()[1].name == "DPI"@ && all_groups()[2].name == "SYSTEM"@,
{
}

/// What the buses are called.
pub proof fn buses_have_names(bus: Bus)
    ensures
        name_of_bus(bus) == (match bus {
            Bus::Usb => "usb"@,
            Bus::Bluetooth => "bluetooth"@,
            Bus::I2c => "i2c"@,
            Bus::Spi => "spi"@,
            Bus::Unknown => "unknown"@,
        }),
{
}

/// The title has the name of the mouse that is shown, with one of them written without its last space, and its charge, or
/// what else is going on.
pub proof fn title_tells_the_mouse(state: StateView)
    ensures
        state matches StateView::Ready(snapshot) ==> (snapshot.name != "PRO X 2"@ ==> title_of(state)
            == "OPEN MOUSE MEMORY  ·  "@ + (snapshot.name + "  -  "@ + (match snapshot.battery {
            Some(percentage) => dec(percentage as nat) + "% BATTERY"@,
            None => "BATTERY --"@,
        }))),
        state matches StateView::Ready(snapshot) ==> (snapshot.name == "PRO X 2"@ ==> title_of(state)
            == "OPEN MOUSE MEMORY  ·  "@ + ("PRO X2"@ + "  -  "@ + (match snapshot.battery {
            Some(percentage) => dec(percentage as nat) + "% BATTERY"@,
            None => "BATTERY --"@,
        }))),
        state matches StateView::Loading(message) ==> title_of(state) == "OPEN MOUSE MEMORY  ·  "@ + uppered(message),
        state is Permission ==> title_of(state) == "OPEN MOUSE MEMORY  ·  "@ + "DEVICE ACCESS REQUIRED"@,
        state is Error ==> title_of(state) == "OPEN MOUSE MEMORY  ·  "@ + "NO DEVICE"@,
{
}

/// A window that was to start hidden and cannot says why; any other start says nothing. What is said of the tray follows
/// from whether it is there and the window can be hidden.
pub proof fn hiding_is_explained(start_hidden: bool, tray_present: bool, can_hide: bool, hiding_supported: bool)
    ensures
        start_notice(start_hidden, tray_present, can_hide) is Some <==> start_hidden && !can_hide,
        start_hidden && !can_hide && tray_present ==> start_notice(start_hidden, tray_present, can_hide) == Some(
            "Tray-only mode needs X11 or XWayland"@,
        ),
        start_hidden && !can_hide && !tray_present ==> start_notice(start_hidden, tray_present, can_hide) == Some(
            "Tray-only mode needs a compatible system tray"@,
        ),
        tray_present && hiding_supported ==> tray_words(tray_present, hiding_supported) == "Tray service available"@,
        tray_present && !hiding_supported ==> tray_words(tray_present, hiding_supported)
            == "Window hiding needs X11 or XWayland"@,
        !tray_present ==> tray_words(tray_present, hiding_supported) == "No compatible tray host detected"@,
{
}

/// That settings were kept is said where nothing else is; what went wrong is said always.
pub proof fn keeping_is_told(notice_shown: bool, failure: Option<Seq<char>>)
    ensures
        failure is Some ==> kept_notice(notice_shown, failure) == failure,
        failure is None && notice_shown ==> kept_notice(notice_shown, failure) is None,
        failure is None && !notice_shown ==> kept_notice(notice_shown, failure) == Some("Application settings saved"@),
{
}

/// An entry that starts the program in the tray is that of one that does not, with the flag behind the program.
pub proof fn tray_start_adds_a_flag(executable: Seq<u8>) -> (parts: (Seq<char>, Seq<char>))
    requires
        exec_path_of(executable) is Ok,
    ensures
        ({
            let (before, after) = parts;
            let program = exec_path_of(executable)->Ok_0;
            &&& entry_of(executable, false) matches Ok(entry) && entry == before + program + after
            &&& entry_of(executable, true) matches Ok(entry) && entry == before + program + " --tray"@ + after
        }),
{
    let program = exec_path_of(executable)->Ok_0;
    let before =
        "[Desktop Entry]\nType=Application\nVersion=1.0\nName=Open Mouse Memory Tray\nComment=Keep Logitech mouse status available\n"@
        + "Exec="@;
    let after =
        "\nIcon=open-mouse-memory\nTerminal=false\nCategories=Settings;HardwareSettings;\nX-GNOME-Autostart-enabled=true\n"@
        + AUTOSTART_MARKER@ + "\n"@;
    reveal_strlit("");
    assert(before + program + ""@ + after =~= before + program + after);
    (before, after)
}

/// The part of bytes up to a fault is the longest start of them that is text.
pub proof fn fault_is_behind_longest_text(bytes: Seq<u8>, n: int)
    requires
        0 <= n <= bytes.len(),
    ensures
        0 <= longest_valid(bytes, n) <= n,
        valid_utf8(bytes.take(longest_valid(bytes, n))),
        forall|k: int| longest_valid(bytes, n) < k <= n ==> !valid_utf8(#[trigger] bytes.take(k)),
    decreases n,
{
    assert(bytes.take(0) =~= Seq::<u8>::empty());
    if n > 0 && !valid_utf8(bytes.take(n)) {
        fault_is_behind_longest_text(bytes, n - 1);
    }
}

/// Writing over bytes changes those at their place and no others.
pub proof fn writing_over_changes_a_stretch(bytes: Seq<u8>, at: int, part: Seq<u8>, i: int)
    requires
        0 <= i < bytes.len(),
    ensures
        overwritten(bytes, at, part).len() == bytes.len(),
        at <= i < at + part.len() ==> overwritten(bytes, at, part)[i] == part[i - at],
        i < at || at + part.len() <= i ==> overwritten(bytes, at, part)[i] == bytes[i],
{
}

}
