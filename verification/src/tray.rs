//! What the tray shows of the mouse.

use vstd::prelude::*;

use crate::state::{DeviceState, StateView};
use crate::text::{dec, decimal, join2, join4, join_all, joined, texts};

verus! {

/// What the tray shows.
#[derive(Debug)]
pub struct MouseTray {
    pub connected: bool,
    pub busy: bool,
    pub device_name: String,
    pub battery: Option<u8>,
    pub dpi: Option<u16>,
    pub polling_rate: Option<u32>,
}

/// A [`MouseTray`] with its text as a sequence.
pub struct TrayView {
    pub connected: bool,
    pub busy: bool,
    pub device_name: Seq<char>,
    pub battery: Option<u8>,
    pub dpi: Option<u16>,
    pub polling_rate: Option<u32>,
}

impl View for MouseTray {
    type V = TrayView;

    open spec fn view(&self) -> TrayView {
        TrayView {
            connected: self.connected,
            busy: self.busy,
            device_name: self.device_name@,
            battery: self.battery,
            dpi: self.dpi,
            polling_rate: self.polling_rate,
        }
    }
}

/// What the tray shows before the mouse has been read.
pub open spec fn blank_tray() -> TrayView {
    TrayView {
        connected: false,
        busy: true,
        device_name: "Logitech mouse"@,
        battery: None,
        dpi: None,
        polling_rate: None,
    }
}

/// The values of a tray that are known, each in words.
pub open spec fn known_values(tray: TrayView) -> Seq<Seq<char>> {
    (match tray.dpi {
        Some(dpi) => seq![dec(dpi as nat) + " DPI"@],
        None => Seq::empty(),
    }) + (match tray.polling_rate {
        Some(rate) => seq![dec(rate as nat) + " Hz"@],
        None => Seq::empty(),
    }) + (match tray.battery {
        Some(battery) => seq![dec(battery as nat) + "% battery"@],
        None => Seq::empty(),
    })
}

/// What a mouse is set to, in one line.
pub open spec fn settings_line(tray: TrayView) -> Seq<char> {
    if known_values(tray).len() == 0 {
        "Refreshing mouse"@
    } else {
        joined(known_values(tray), " · "@)
    }
}

/// What a tray shows of a mouse: nothing of one that is not ready.
pub open spec fn tray_of(state: StateView, busy: bool) -> TrayView {
    match state {
        StateView::Ready(snapshot) => TrayView {
            connected: true,
            busy,
            device_name: snapshot.name,
            battery: snapshot.battery,
            dpi: snapshot.dpi,
            polling_rate: snapshot.report_rate,
        },
        _ => TrayView { busy, ..blank_tray() },
    }
}

impl MouseTray {
    /// What the tray shows before the mouse has been read.
    pub fn new() -> (tray: Self)
        ensures
            tray@ == blank_tray(),
    {
        MouseTray {
            connected: false,
            busy: true,
            device_name: "Logitech mouse".to_owned(),
            battery: None,
            dpi: None,
            polling_rate: None,
        }
    }

    /// What the tray shows of a mouse.
    pub fn of_device(state: &DeviceState, busy: bool) -> (tray: Self)
        ensures
            tray@ == tray_of(state@, busy),
    {
        match state {
            DeviceState::Ready(snapshot) => MouseTray {
                connected: true,
                busy,
                device_name: snapshot.name.clone(),
                battery: snapshot.battery,
                dpi: snapshot.dpi,
                polling_rate: snapshot.report_rate,
            },
            _ => MouseTray { busy, ..MouseTray::new() },
        }
    }

    /// What the mouse is set to, in one line.
    pub fn current_settings(&self) -> (line: String)
        ensures
            line@ == settings_line(self@),
    {
        let mut settings: Vec<String> = Vec::new();
        if let Some(dpi) = self.dpi {
            settings.push(join2(decimal(dpi as u64).as_str(), " DPI"));
        }
        if let Some(rate) = self.polling_rate {
            settings.push(join2(decimal(rate as u64).as_str(), " Hz"));
        }
        if let Some(battery) = self.battery {
            settings.push(join2(decimal(battery as u64).as_str(), "% battery"));
        }
        assert(texts(settings@) =~= known_values(self@));
        if settings.len() == 0 {
            "Refreshing mouse".to_owned()
        } else {
            join_all(&settings, " · ")
        }
    }

    /// The name of the mouse, with its charge where that is known.
    pub fn title(&self) -> (title: String)
        ensures
            title@ == (match self.battery {
                Some(battery) => self.device_name@ + " · "@ + dec(battery as nat) + "% battery"@,
                None => self.device_name@,
            }),
    {
        match self.battery {
            Some(battery) => join4(
                self.device_name.as_str(),
                " · ",
                decimal(battery as u64).as_str(),
                "% battery",
            ),
            None => self.device_name.clone(),
        }
    }

    /// Whether the tray asks for attention: the mouse is not there, or its charge is low.
    pub fn needs_attention(&self) -> (needs: bool)
        ensures
            needs == (!self.connected || (self.battery matches Some(battery) && battery <= 20)),
    {
        let low = match self.battery {
            Some(battery) => battery <= 20,
            None => false,
        };
        !self.connected || low
    }

    /// The line of the menu that says what the mouse is set to.
    pub fn menu_line(&self) -> (line: String)
        ensures
            line@ == "Current · "@ + settings_line(self@),
    {
        join2("Current · ", self.current_settings().as_str())
    }
}

/// Pixels with their opacity in front, given pixels with it behind. What is no whole pixel is left out.
pub open spec fn opacity_first(rgba: Seq<u8>) -> Seq<u8> {
    Seq::new(
        (rgba.len() / 4 * 4) as nat,
        |i: int|
            if i % 4 == 0 {
                rgba[i + 3]
            } else {
                rgba[i - 1]
            },
    )
}

/// Puts the opacity of pixels in front.
pub fn argb_pixels(rgba: &[u8]) -> (argb: Vec<u8>)
    ensures
        argb@ == opacity_first(rgba@),
{
    let count: usize = rgba.len() / 4;
    let mut argb: Vec<u8> = Vec::new();
    let mut pixel: usize = 0;
    while pixel < count
        invariant
            count == rgba@.len() / 4,
            count * 4 <= usize::MAX,
            pixel <= count,
            argb@.len() == pixel * 4,
            forall|i: int|
                0 <= i < pixel * 4 ==> #[trigger] argb@[i] == if i % 4 == 0 {
                    rgba@[i + 3]
                } else {
                    rgba@[i - 1]
                },
        decreases count - pixel,
    {
        let at: usize = pixel * 4;
        argb.push(rgba[at + 3]);
        argb.push(rgba[at]);
        argb.push(rgba[at + 1]);
        argb.push(rgba[at + 2]);
        pixel = pixel + 1;
    }
    assert(argb@ =~= opacity_first(rgba@));
    argb
}

/// A tray shows a line of values exactly where one of them is known, and nothing of a mouse that is not ready.
pub proof fn unready_mouse_has_no_values(state: StateView, busy: bool)
    ensures
        !(state is Ready) ==> known_values(tray_of(state, busy)).len() == 0,
        tray_of(state, busy).connected == (state is Ready),
{
}

}
