//! When the window of the desktop application is shown, hidden and brought up to date.

use vstd::prelude::*;

use crate::bytes::same_bytes;
use crate::paths::{ascii, ascii_bytes, path_option};
use crate::settings::AppSettings;

verus! {

/// The variable that names the way in which the window is shown.
pub const WINDOW_BACKEND_ENV: &'static str = "OPEN_MOUSE_MEMORY_BACKEND";

/// How many nanoseconds a notice is shown.
pub const NOTICE_NANOSECONDS: u128 = 8_000_000_000;

/// A byte with ASCII capitals made small.
pub open spec fn byte_lower(byte: u8) -> u8 {
    if 0x41 <= byte <= 0x5a {
        (byte + 0x20) as u8
    } else {
        byte
    }
}

/// Bytes with ASCII capitals made small.
pub open spec fn bytes_lowered(bytes: Seq<u8>) -> Seq<u8> {
    bytes.map_values(|byte: u8| byte_lower(byte))
}

fn lower_bytes(bytes: &[u8]) -> (lower: Vec<u8>)
    ensures
        lower@ == bytes_lowered(bytes@),
{
    let mut lower: Vec<u8> = Vec::new();
    let mut i: usize = 0;
    while i < bytes.len()
        invariant
            i <= bytes.len(),
            lower@.len() == i,
            forall|k: int| 0 <= k < i ==> #[trigger] lower@[k] == byte_lower(bytes@[k]),
        decreases bytes.len() - i,
    {
        let byte: u8 = bytes[i];
        lower.push(if 0x41 <= byte && byte <= 0x5a { byte + 0x20 } else { byte });
        i = i + 1;
    }
    assert(lower@ =~= bytes_lowered(bytes@));
    lower
}

/// Whether the window is shown through X11: a display is there, and the user does not ask for Wayland.
pub open spec fn x11_chosen(display: Option<Seq<u8>>, preference: Option<Seq<u8>>) -> bool {
    &&& display matches Some(display) && display.len() > 0
    &&& !(preference matches Some(preference) && bytes_lowered(preference) == ascii("wayland"@))
}

/// Decides whether the window is shown through X11.
pub fn should_use_x11_backend(display: Option<&[u8]>, preference: Option<&[u8]>) -> (x11: bool)
    ensures
        x11 == x11_chosen(path_option(display), path_option(preference)),
{
    let available = match display {
        Some(display) => display.len() > 0,
        None => false,
    };
    let wayland = match preference {
        Some(preference) => same_bytes(
            lower_bytes(preference).as_slice(),
            ascii_bytes("wayland").as_slice(),
        ),
        None => false,
    };
    available && !wayland
}

/// In how many frames the window is hidden at the start: a few where it is to start hidden and can be.
pub open spec fn frames_hidden_at_start(start_hidden: bool, tray_present: bool, hiding_supported: bool) -> u8 {
    if start_hidden && tray_present && hiding_supported {
        3
    } else {
        0
    }
}

/// Decides in how many frames the window is hidden at the start.
pub fn startup_hidden_frames(start_hidden: bool, tray_present: bool, hiding_supported: bool) -> (frames: u8)
    ensures
        frames == frames_hidden_at_start(start_hidden, tray_present, hiding_supported),
{
    if start_hidden && tray_present && hiding_supported {
        3
    } else {
        0
    }
}

/// What the user is told where the window was to start hidden and cannot.
pub open spec fn start_notice(start_hidden: bool, tray_present: bool, can_hide: bool) -> Option<Seq<char>> {
    if start_hidden && !can_hide {
        if tray_present {
            Some("Tray-only mode needs X11 or XWayland"@)
        } else {
            Some("Tray-only mode needs a compatible system tray"@)
        }
    } else {
        None
    }
}

/// Says what the user is told where the window was to start hidden and cannot.
pub fn startup_notice(start_hidden: bool, tray_present: bool, can_hide: bool) -> (notice: Option<String>)
    ensures
        crate::text::text_option(notice) == start_notice(start_hidden, tray_present, can_hide),
{
    if start_hidden && !can_hide {
        if tray_present {
            Some("Tray-only mode needs X11 or XWayland".to_owned())
        } else {
            Some("Tray-only mode needs a compatible system tray".to_owned())
        }
    } else {
        None
    }
}

/// Whether the tray can take the window's place, in words.
pub open spec fn tray_words(tray_available: bool, hiding_supported: bool) -> Seq<char> {
    if tray_available && hiding_supported {
        "Tray service available"@
    } else if tray_available {
        "Window hiding needs X11 or XWayland"@
    } else {
        "No compatible tray host detected"@
    }
}

/// Says whether the tray can take the window's place.
pub fn tray_status(tray_available: bool, hiding_supported: bool) -> (words: &'static str)
    ensures
        words@ == tray_words(tray_available, hiding_supported),
{
    if tray_available && hiding_supported {
        "Tray service available"
    } else if tray_available {
        "Window hiding needs X11 or XWayland"
    } else {
        "No compatible tray host detected"
    }
}

/// What is known of the window and the tray when a frame begins.
#[derive(Debug, Clone, Copy, PartialEq, Eq, Structural)]
pub struct WindowFacts {
    pub hiding_supported: bool,
    pub tray_present: bool,
    pub tray_closed: bool,
    pub hidden_frames: u8,
    pub close_requested: bool,
    pub force_quit: bool,
    pub minimized: bool,
}

impl WindowFacts {
    /// Whether the tray can take the window's place.
    pub open spec fn can_hide(self) -> bool {
        self.hiding_supported && self.tray_present && !self.tray_closed
    }

    /// Whether the window is only hidden at the start where a tray is there.
    pub open spec fn well_formed(self) -> bool {
        self.hidden_frames > 0 ==> self.tray_present && self.hiding_supported
    }

    /// Whether the tray can take the window's place.
    pub fn can_hide_to_tray(&self) -> (can: bool)
        ensures
            can == self.can_hide(),
    {
        self.hiding_supported && self.tray_present && !self.tray_closed
    }
}

/// What is to be done about the window in a frame.
#[derive(Debug, Clone, Copy, PartialEq, Eq, Structural)]
pub struct WindowSteps {
    /// The tray is gone: show the window and say so.
    pub tray_lost: bool,
    /// The window is still to be hidden at the start.
    pub hide_at_start: bool,
    /// In how many frames more.
    pub hidden_frames: u8,
    /// The window is to be hidden and not closed.
    pub hide_on_close: bool,
    /// The window is to be hidden and not minimized.
    pub hide_on_minimize: bool,
}

/// What is to be done about the window in a frame.
pub open spec fn frame_steps(facts: WindowFacts, settings: AppSettings) -> WindowSteps {
    let tray_lost = facts.tray_present && facts.tray_closed;
    let hide_at_start = !tray_lost && facts.hidden_frames > 0;
    WindowSteps {
        tray_lost,
        hide_at_start,
        hidden_frames: if hide_at_start {
            (facts.hidden_frames - 1) as u8
        } else {
            0
        },
        hide_on_close: facts.close_requested && !facts.force_quit && settings.close_to_tray && facts.can_hide(),
        hide_on_minimize: facts.minimized && settings.minimize_to_tray && facts.can_hide(),
    }
}

/// Decides what is to be done about the window in a frame.
pub fn window_steps(facts: &WindowFacts, settings: &AppSettings) -> (steps: WindowSteps)
    ensures
        steps == frame_steps(*facts, *settings),
{
    let tray_lost = facts.tray_present && facts.tray_closed;
    let hide_at_start = !tray_lost && facts.hidden_frames > 0;
    WindowSteps {
        tray_lost,
        hide_at_start,
        hidden_frames: if hide_at_start { facts.hidden_frames - 1 } else { 0 },
        hide_on_close: facts.close_requested && !facts.force_quit && settings.close_to_tray
            && facts.can_hide_to_tray(),
        hide_on_minimize: facts.minimized && settings.minimize_to_tray && facts.can_hide_to_tray(),
    }
}

/// The window is never hidden without a tray to bring it back, and a window that is hidden at the start stays in that
/// order from frame to frame.
pub proof fn window_is_hidden_only_to_a_tray(facts: WindowFacts, settings: AppSettings)
    requires
        facts.well_formed(),
    ensures
        ({
            let steps = frame_steps(facts, settings);
            &&& steps.hide_at_start || steps.hide_on_close || steps.hide_on_minimize ==> facts.can_hide()
            &&& steps.hidden_frames > 0 ==> facts.can_hide()
            &&& steps.tray_lost ==> !steps.hide_at_start && !steps.hide_on_close && !steps.hide_on_minimize
        }),
{
}

/// A window that starts hidden starts in order.
pub proof fn hidden_start_is_well_formed(start_hidden: bool, facts: WindowFacts)
    requires
        facts.hidden_frames == frames_hidden_at_start(start_hidden, facts.tray_present, facts.hiding_supported),
    ensures
        facts.well_formed(),
{
}

/// Whether the close button hides the window: otherwise the application ends.
pub fn close_hides(settings: &AppSettings, can_hide: bool) -> (hides: bool)
    ensures
        hides == (settings.close_to_tray && can_hide),
{
    settings.close_to_tray && can_hide
}

/// Whether the minimize button hides the window: otherwise it is minimized.
pub fn minimize_hides(settings: &AppSettings, can_hide: bool) -> (hides: bool)
    ensures
        hides == (settings.minimize_to_tray && can_hide),
{
    settings.minimize_to_tray && can_hide
}

/// What the clock says of the next read of the device.
#[derive(Debug, Clone, Copy, PartialEq, Eq, Structural)]
pub enum RefreshTime {
    /// Nothing is read by the clock.
    Never,
    /// It is time.
    Now,
    /// It is time in so many nanoseconds.
    Later { nanoseconds: u128 },
}

/// What the clock says of the next read, so many nanoseconds after the last one.
pub open spec fn refresh_time_of(settings: AppSettings, busy: bool, elapsed: u128) -> RefreshTime {
    let interval = settings.refresh_interval_seconds * 1_000_000_000;
    if !settings.auto_refresh || busy {
        RefreshTime::Never
    } else if elapsed >= interval {
        RefreshTime::Now
    } else {
        RefreshTime::Later { nanoseconds: (interval - elapsed) as u128 }
    }
}

/// Says when the device is to be read next.
pub fn refresh_time(settings: &AppSettings, busy: bool, elapsed: u128) -> (time: RefreshTime)
    ensures
        time == refresh_time_of(*settings, busy, elapsed),
{
    if !settings.auto_refresh || busy {
        return RefreshTime::Never;
    }
    let interval: u128 = settings.refresh_interval_seconds as u128 * 1_000_000_000;
    if elapsed >= interval {
        RefreshTime::Now
    } else {
        RefreshTime::Later { nanoseconds: interval - elapsed }
    }
}

/// How long a notice is still shown, so many nanoseconds after it came: nothing where its time is over.
pub fn notice_time_left(elapsed: u128) -> (left: Option<u128>)
    ensures
        left == (if elapsed >= NOTICE_NANOSECONDS {
            None::<u128>
        } else {
            Some((NOTICE_NANOSECONDS - elapsed) as u128)
        }),
{
    if elapsed >= NOTICE_NANOSECONDS {
        None
    } else {
        Some(NOTICE_NANOSECONDS - elapsed)
    }
}

}
