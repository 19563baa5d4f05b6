//! Profiles: sensitivity, report rate and button assignments, and the library that keeps them.

use vstd::prelude::*;

use crate::order::{
    add_value, ascending_u16, find_value, place_of, sort_distinct, sorted_distinct, sorted_distinct_ascends,
    sorted_distinct_keeps_ascending, with_value,
};
use crate::text::{dec, decimal, join2, trim, trimmed, trimming_twice_is_trimming};

verus! {

pub const MAX_DPI_POINTS: usize = 5;

pub const MIN_DPI: u16 = 100;

pub const MAX_DPI: u16 = 25_600;

pub const REPORT_RATES: [u32; 7] = [125, 250, 500, 1_000, 2_000, 4_000, 8_000];

/// A button of the mouse.
#[derive(Debug, Clone, Copy, PartialEq, Eq, Hash, Structural)]
pub enum MouseButton {
    Primary,
    Secondary,
    Middle,
    Back,
    Forward,
}

/// What a button does.
#[derive(Debug, PartialEq, Eq)]
pub enum ButtonAction {
    PrimaryClick,
    SecondaryClick,
    MiddleClick,
    Back,
    Forward,
    DpiUp,
    DpiDown,
    DpiCycle,
    DpiShift,
    Keystroke(String),
    Macro(String),
    OnboardRaw(String),
    Disabled,
}

/// A [`ButtonAction`] with its text as a sequence of characters.
pub enum ActionView {
    PrimaryClick,
    SecondaryClick,
    MiddleClick,
    Back,
    Forward,
    DpiUp,
    DpiDown,
    DpiCycle,
    DpiShift,
    Keystroke(Seq<char>),
    Macro(Seq<char>),
    OnboardRaw(Seq<char>),
    Disabled,
}

impl View for ButtonAction {
    type V = ActionView;

    open spec fn view(&self) -> ActionView {
        match *self {
            ButtonAction::PrimaryClick => ActionView::PrimaryClick,
            ButtonAction::SecondaryClick => ActionView::SecondaryClick,
            ButtonAction::MiddleClick => ActionView::MiddleClick,
            ButtonAction::Back => ActionView::Back,
            ButtonAction::Forward => ActionView::Forward,
            ButtonAction::DpiUp => ActionView::DpiUp,
            ButtonAction::DpiDown => ActionView::DpiDown,
            ButtonAction::DpiCycle => ActionView::DpiCycle,
            ButtonAction::DpiShift => ActionView::DpiShift,
            ButtonAction::Keystroke(text) => ActionView::Keystroke(text@),
            ButtonAction::Macro(text) => ActionView::Macro(text@),
            ButtonAction::OnboardRaw(text) => ActionView::OnboardRaw(text@),
            ButtonAction::Disabled => ActionView::Disabled,
        }
    }
}

impl Clone for ButtonAction {
    fn clone(&self) -> (copy: Self)
        ensures
            copy@ == self@,
    {
        match self {
            ButtonAction::PrimaryClick => ButtonAction::PrimaryClick,
            ButtonAction::SecondaryClick => ButtonAction::SecondaryClick,
            ButtonAction::MiddleClick => ButtonAction::MiddleClick,
            ButtonAction::Back => ButtonAction::Back,
            ButtonAction::Forward => ButtonAction::Forward,
            ButtonAction::DpiUp => ButtonAction::DpiUp,
            ButtonAction::DpiDown => ButtonAction::DpiDown,
            ButtonAction::DpiCycle => ButtonAction::DpiCycle,
            ButtonAction::DpiShift => ButtonAction::DpiShift,
            ButtonAction::Keystroke(text) => ButtonAction::Keystroke(text.clone()),
            ButtonAction::Macro(text) => ButtonAction::Macro(text.clone()),
            ButtonAction::OnboardRaw(text) => ButtonAction::OnboardRaw(text.clone()),
            ButtonAction::Disabled => ButtonAction::Disabled,
        }
    }
}

/// The name of an action as the user reads it.
pub open spec fn action_label(action: ActionView) -> Seq<char> {
    match action {
        ActionView::PrimaryClick => "Primary Click"@,
        ActionView::SecondaryClick => "Secondary Click"@,
        ActionView::MiddleClick => "Middle Click"@,
        ActionView::Back => "Back"@,
        ActionView::Forward => "Forward"@,
        ActionView::DpiUp => "DPI Up"@,
        ActionView::DpiDown => "DPI Down"@,
        ActionView::DpiCycle => "DPI Cycle"@,
        ActionView::DpiShift => "DPI Shift"@,
        ActionView::Keystroke(text) => "Key "@ + text,
        ActionView::Macro(text) => "Macro "@ + text,
        ActionView::OnboardRaw(text) => "Onboard "@ + text,
        ActionView::Disabled => "Disabled"@,
    }
}

impl ButtonAction {
    /// The name of the action as the user reads it.
    pub fn label(&self) -> (label: String)
        ensures
            label@ == action_label(self@),
    {
        match self {
            ButtonAction::PrimaryClick => "Primary Click".to_owned(),
            ButtonAction::SecondaryClick => "Secondary Click".to_owned(),
            ButtonAction::MiddleClick => "Middle Click".to_owned(),
            ButtonAction::Back => "Back".to_owned(),
            ButtonAction::Forward => "Forward".to_owned(),
            ButtonAction::DpiUp => "DPI Up".to_owned(),
            ButtonAction::DpiDown => "DPI Down".to_owned(),
            ButtonAction::DpiCycle => "DPI Cycle".to_owned(),
            ButtonAction::DpiShift => "DPI Shift".to_owned(),
            ButtonAction::Keystroke(text) => join2("Key ", text.as_str()),
            ButtonAction::Macro(text) => join2("Macro ", text.as_str()),
            ButtonAction::OnboardRaw(text) => join2("Onboard ", text.as_str()),
            ButtonAction::Disabled => "Disabled".to_owned(),
        }
    }
}

/// The name of a button as the user reads it.
pub open spec fn button_label(button: MouseButton) -> Seq<char> {
    match button {
        MouseButton::Primary => "Primary"@,
        MouseButton::Secondary => "Secondary"@,
        MouseButton::Middle => "Middle"@,
        MouseButton::Back => "Back"@,
        MouseButton::Forward => "Forward"@,
    }
}

/// What a button does where nothing else is said.
pub open spec fn default_action_of(button: MouseButton) -> ActionView {
    match button {
        MouseButton::Primary => ActionView::PrimaryClick,
        MouseButton::Secondary => ActionView::SecondaryClick,
        MouseButton::Middle => ActionView::MiddleClick,
        MouseButton::Back => ActionView::Back,
        MouseButton::Forward => ActionView::Forward,
    }
}

impl MouseButton {
    /// All buttons, in the order in which a mouse keeps them.
    pub const ALL: [MouseButton; 5] = [
        MouseButton::Primary,
        MouseButton::Secondary,
        MouseButton::Middle,
        MouseButton::Back,
        MouseButton::Forward,
    ];

    /// The name of the button as the user reads it.
    pub fn label(self) -> (label: &'static str)
        ensures
            label@ == button_label(self),
    {
        match self {
            MouseButton::Primary => "Primary",
            MouseButton::Secondary => "Secondary",
            MouseButton::Middle => "Middle",
            MouseButton::Back => "Back",
            MouseButton::Forward => "Forward",
        }
    }

    /// What the button does where nothing else is said.
    pub fn default_action(self) -> (action: ButtonAction)
        ensures
            action@ == default_action_of(self),
    {
        match self {
            MouseButton::Primary => ButtonAction::PrimaryClick,
            MouseButton::Secondary => ButtonAction::SecondaryClick,
            MouseButton::Middle => ButtonAction::MiddleClick,
            MouseButton::Back => ButtonAction::Back,
            MouseButton::Forward => ButtonAction::Forward,
        }
    }
}

/// An action assigned to a button.
#[derive(Debug, PartialEq, Eq)]
pub struct ButtonBinding {
    pub button: MouseButton,
    pub action: ButtonAction,
}

/// A [`ButtonBinding`] with the view of its action.
pub struct BindingView {
    pub button: MouseButton,
    pub action: ActionView,
}

impl View for ButtonBinding {
    type V = BindingView;

    open spec fn view(&self) -> BindingView {
        BindingView { button: self.button, action: self.action@ }
    }
}

impl Clone for ButtonBinding {
    fn clone(&self) -> (copy: Self)
        ensures
            copy@ == self@,
    {
        ButtonBinding { button: self.button, action: self.action.clone() }
    }
}

/// The views of bindings.
pub open spec fn binding_views(bindings: Seq<ButtonBinding>) -> Seq<BindingView> {
    bindings.map_values(|binding: ButtonBinding| binding@)
}

/// The place of the first binding of a button, from `from` on.
pub open spec fn place_of_button(bindings: Seq<BindingView>, button: MouseButton, from: int) -> Option<int>
    decreases bindings.len() - from,
{
    if from < 0 || from >= bindings.len() {
        None
    } else if bindings[from].button == button {
        Some(from)
    } else {
        place_of_button(bindings, button, from + 1)
    }
}

/// What bindings make a button do: nothing where they do not speak of it.
pub open spec fn action_of(bindings: Seq<BindingView>, button: MouseButton) -> ActionView {
    match place_of_button(bindings, button, 0) {
        Some(at) => bindings[at].action,
        None => ActionView::Disabled,
    }
}

/// The bindings with another action for a button.
pub open spec fn assigned(bindings: Seq<BindingView>, button: MouseButton, action: ActionView) -> Seq<BindingView> {
    match place_of_button(bindings, button, 0) {
        Some(at) => bindings.update(at, BindingView { button, action }),
        None => bindings.push(BindingView { button, action }),
    }
}

/// The bindings with a default action for each of the buttons from the `from`th on that they do not speak of.
pub open spec fn completed(bindings: Seq<BindingView>, from: int) -> Seq<BindingView>
    decreases 5 - from,
{
    if from < 0 || from >= 5 {
        bindings
    } else {
        let button = MouseButton::ALL@[from];
        if place_of_button(bindings, button, 0) is Some {
            completed(bindings, from + 1)
        } else {
            completed(bindings.push(BindingView { button, action: default_action_of(button) }), from + 1)
        }
    }
}

fn find_button(bindings: &Vec<ButtonBinding>, button: MouseButton) -> (place: Option<usize>)
    ensures
        match place {
            Some(at) => at < bindings@.len() && place_of_button(binding_views(bindings@), button, 0) == Some(at as int),
            None => place_of_button(binding_views(bindings@), button, 0) is None,
        },
{
    let mut i: usize = 0;
    while i < bindings.len()
        invariant
            i <= bindings.len(),
            place_of_button(binding_views(bindings@), button, 0) == place_of_button(
                binding_views(bindings@),
                button,
                i as int,
            ),
        decreases bindings.len() - i,
    {
        if bindings[i].button == button {
            return Some(i);
        }
        i = i + 1;
    }
    None
}

/// A set of settings for a mouse.
#[derive(Debug, PartialEq, Eq)]
pub struct Profile {
    pub name: String,
    pub dpi_points: Vec<u16>,
    pub active_dpi: usize,
    pub shift_dpi: Option<usize>,
    pub report_rate: u32,
    pub bindings: Vec<ButtonBinding>,
}

/// A [`Profile`] with its text and lists as sequences.
pub struct ProfileView {
    pub name: Seq<char>,
    pub dpi_points: Seq<u16>,
    pub active_dpi: usize,
    pub shift_dpi: Option<usize>,
    pub report_rate: u32,
    pub bindings: Seq<BindingView>,
}

impl View for Profile {
    type V = ProfileView;

    open spec fn view(&self) -> ProfileView {
        ProfileView {
            name: self.name@,
            dpi_points: self.dpi_points@,
            active_dpi: self.active_dpi,
            shift_dpi: self.shift_dpi,
            report_rate: self.report_rate,
            bindings: binding_views(self.bindings@),
        }
    }
}

impl Clone for Profile {
    fn clone(&self) -> (copy: Self)
        ensures
            copy@ == self@,
    {
        let mut bindings: Vec<ButtonBinding> = Vec::new();
        let mut i: usize = 0;
        while i < self.bindings.len()
            invariant
                i <= self.bindings.len(),
                bindings@.len() == i,
                forall|k: int| 0 <= k < i ==> #[trigger] bindings@[k]@ == self.bindings@[k]@,
            decreases self.bindings.len() - i,
        {
            bindings.push(self.bindings[i].clone());
            i = i + 1;
        }
        let copy = Profile {
            name: self.name.clone(),
            dpi_points: copy_values(&self.dpi_points),
            active_dpi: self.active_dpi,
            shift_dpi: self.shift_dpi,
            report_rate: self.report_rate,
            bindings,
        };
        assert(copy@.bindings =~= self@.bindings);
        copy
    }
}

fn copy_values(values: &Vec<u16>) -> (copy: Vec<u16>)
    ensures
        copy@ == values@,
{
    let mut copy: Vec<u16> = Vec::new();
    let mut i: usize = 0;
    while i < values.len()
        invariant
            i <= values.len(),
            copy@ =~= values@.take(i as int),
        decreases values.len() - i,
    {
        copy.push(values[i]);
        i = i + 1;
    }
    copy
}

/// The bindings of all buttons to their default actions.
pub open spec fn default_bindings() -> Seq<BindingView> {
    Seq::new(
        5,
        |i: int| BindingView { button: MouseButton::ALL@[i], action: default_action_of(MouseButton::ALL@[i]) },
    )
}

/// The profile that there is before anyone makes one.
pub open spec fn default_profile() -> ProfileView {
    ProfileView {
        name: "Desktop Default"@,
        dpi_points: seq![400u16, 800u16, 1_600u16, 3_200u16],
        active_dpi: 1,
        shift_dpi: Some(0),
        report_rate: 1_000,
        bindings: default_bindings(),
    }
}

impl Default for Profile {
    fn default() -> (profile: Self)
        ensures
            profile@ == default_profile(),
    {
        let mut bindings: Vec<ButtonBinding> = Vec::new();
        let mut i: usize = 0;
        while i < 5
            invariant
                i <= 5,
                binding_views(bindings@) =~= default_bindings().take(i as int),
            decreases 5 - i,
        {
            let button = MouseButton::ALL[i];
            let ghost known = binding_views(bindings@);
            let binding = ButtonBinding { button, action: button.default_action() };
            assert(binding@ == default_bindings()[i as int]);
            bindings.push(binding);
            assert(binding_views(bindings@) =~= known.push(binding@));
            i = i + 1;
        }
        let profile = Profile {
            name: "Desktop Default".to_owned(),
            dpi_points: vec![400, 800, 1_600, 3_200],
            active_dpi: 1,
            shift_dpi: Some(0),
            report_rate: 1_000,
            bindings,
        };
        assert(profile@.dpi_points =~= default_profile().dpi_points);
        assert(profile@.bindings =~= default_profile().bindings);
        profile
    }
}

/// A value raised to the lowest sensitivity that a mouse has.
pub open spec fn at_least_min_dpi(value: u16) -> u16 {
    if value < MIN_DPI {
        MIN_DPI
    } else {
        value
    }
}

/// The values that are not below the lowest sensitivity.
pub open spec fn usable_points(points: Seq<u16>) -> Seq<u16>
    decreases points.len(),
{
    if points.len() == 0 {
        Seq::empty()
    } else if points.last() >= MIN_DPI {
        usable_points(points.drop_last()).push(points.last())
    } else {
        usable_points(points.drop_last())
    }
}

/// The first few of the usable points in ascending order, or a single one where there are none.
pub open spec fn normal_points(points: Seq<u16>) -> Seq<u16> {
    let sorted = sorted_distinct(usable_points(points));
    if sorted.len() == 0 {
        seq![800u16]
    } else if sorted.len() > MAX_DPI_POINTS {
        sorted.take(MAX_DPI_POINTS as int)
    } else {
        sorted
    }
}

impl ProfileView {
    /// Whether the profile keeps what every operation on it keeps: one to five points, each once and in
    /// ascending order, and indexes of points that are there.
    pub open spec fn well_formed(self) -> bool {
        &&& 1 <= self.dpi_points.len() <= MAX_DPI_POINTS
        &&& ascending_u16(self.dpi_points)
        &&& forall|i: int| 0 <= i < self.dpi_points.len() ==> #[trigger] self.dpi_points[i] >= MIN_DPI
        &&& self.active_dpi < self.dpi_points.len()
        &&& self.shift_dpi matches Some(shift) ==> shift < self.dpi_points.len()
    }

    /// The profile with one more point, unless it has as many as there can be.
    pub open spec fn with_dpi_point(self, value: u16) -> ProfileView {
        if self.dpi_points.len() >= MAX_DPI_POINTS {
            self
        } else {
            ProfileView { dpi_points: sorted_distinct(self.dpi_points.push(at_least_min_dpi(value))), ..self }
        }
    }

    /// The points with a value among them: as they are where it is there, otherwise with the value added or,
    /// where there is no room, in the place of the active one.
    pub open spec fn points_with(self, value: u16) -> Seq<u16> {
        if self.dpi_points.contains(value) {
            self.dpi_points
        } else if self.dpi_points.len() < MAX_DPI_POINTS {
            sorted_distinct(self.dpi_points.push(value))
        } else {
            sorted_distinct(self.dpi_points.update(self.active_dpi as int, value))
        }
    }

    /// Whether a value can be made the active sensitivity: the shift point is there, and so is the active one where
    /// it has to make room.
    pub open spec fn can_select(self, value: u16) -> bool {
        &&& self.shift_dpi matches Some(shift) ==> shift < self.dpi_points.len()
        &&& self.dpi_points.len() >= MAX_DPI_POINTS && !self.dpi_points.contains(at_least_min_dpi(value))
            ==> self.active_dpi < self.dpi_points.len()
    }

    /// The profile with a value as its active sensitivity. The shift point stays the one it was, where it is
    /// still there.
    pub open spec fn with_dpi_selected(self, value: u16) -> ProfileView {
        let points = self.points_with(at_least_min_dpi(value));
        ProfileView {
            dpi_points: points,
            active_dpi: match place_of(points, at_least_min_dpi(value), 0) {
                Some(at) => at,
                None => 0,
            },
            shift_dpi: match self.shift_dpi {
                Some(shift) => place_of(points, self.dpi_points[shift as int], 0),
                None => None,
            },
            ..self
        }
    }

    /// Whether a point can be taken out: it is there, and not the only one.
    pub open spec fn can_remove_point(self, index: usize) -> bool {
        self.dpi_points.len() > 1 && index < self.dpi_points.len()
    }

    /// The profile without one of its points.
    pub open spec fn without_dpi_point(self, index: usize) -> ProfileView {
        if !self.can_remove_point(index) {
            self
        } else {
            let points = self.dpi_points.remove(index as int);
            ProfileView {
                dpi_points: points,
                active_dpi: if self.active_dpi >= points.len() {
                    (points.len() - 1) as usize
                } else {
                    self.active_dpi
                },
                shift_dpi: match self.shift_dpi {
                    Some(shift) => if shift == index {
                        None
                    } else if shift > index {
                        Some((shift - 1) as usize)
                    } else {
                        Some(shift)
                    },
                    None => None,
                },
                ..self
            }
        }
    }

    /// The profile put in order: a name, usable points, indexes of points that are there, a known report rate
    /// and a binding for every button.
    pub open spec fn normal(self) -> ProfileView {
        let name = trimmed(self.name);
        let points = normal_points(self.dpi_points);
        ProfileView {
            name: if name.len() == 0 {
                "Unnamed Profile"@
            } else {
                name
            },
            dpi_points: points,
            active_dpi: if self.active_dpi >= points.len() {
                (points.len() - 1) as usize
            } else {
                self.active_dpi
            },
            shift_dpi: match self.shift_dpi {
                Some(shift) => if shift < points.len() {
                    Some(shift)
                } else {
                    None
                },
                None => None,
            },
            report_rate: if REPORT_RATES@.contains(self.report_rate) {
                self.report_rate
            } else {
                1_000
            },
            bindings: completed(self.bindings, 0),
        }
    }
}

/// Says whether a report rate is one that profiles can have.
pub(crate) fn known_rate(rate: u32) -> (known: bool)
    ensures
        known == REPORT_RATES@.contains(rate),
{
    let mut i: usize = 0;
    while i < REPORT_RATES.len()
        invariant
            i <= REPORT_RATES@.len(),
            forall|k: int| 0 <= k < i ==> REPORT_RATES@[k] != rate,
        decreases REPORT_RATES@.len() - i,
    {
        if REPORT_RATES[i] == rate {
            return true;
        }
        i = i + 1;
    }
    false
}

impl Profile {
    /// The active sensitivity.
    pub fn active_dpi_value(&self) -> (dpi: u16)
        requires
            self.active_dpi < self.dpi_points@.len(),
        ensures
            dpi == self@.dpi_points[self.active_dpi as int],
    {
        self.dpi_points[self.active_dpi]
    }

    /// What a button does: nothing where no binding speaks of it.
    pub fn action(&self, button: MouseButton) -> (action: &ButtonAction)
        ensures
            action@ == action_of(self@.bindings, button),
    {
        match find_button(&self.bindings, button) {
            Some(at) => &self.bindings[at].action,
            None => &ButtonAction::Disabled,
        }
    }

    /// Assigns an action to a button.
    pub fn assign(&mut self, button: MouseButton, action: ButtonAction)
        ensures
            final(self)@ == (ProfileView {
                bindings: assigned(old(self)@.bindings, button, action@),
                ..old(self)@
            }),
    {
        match find_button(&self.bindings, button) {
            Some(at) => {
                self.bindings.set(at, ButtonBinding { button, action });
            },
            None => {
                self.bindings.push(ButtonBinding { button, action });
            },
        }
        assert(self@.bindings =~= assigned(old(self)@.bindings, button, action@));
    }

    /// Adds a sensitivity, no lower than the lowest there is. Says whether there was room for it.
    pub fn add_dpi_point(&mut self, value: u16) -> (added: bool)
        ensures
            added == (old(self)@.dpi_points.len() < MAX_DPI_POINTS),
            final(self)@ == old(self)@.with_dpi_point(value),
    {
        if self.dpi_points.len() >= MAX_DPI_POINTS {
            return false;
        }
        self.dpi_points.push(if value < MIN_DPI { MIN_DPI } else { value });
        self.dpi_points = sort_distinct(&self.dpi_points);
        true
    }

    /// Says whether a value can be made the active sensitivity.
    pub fn can_select_value(&self, value: u16) -> (can: bool)
        ensures
            can == self@.can_select(value),
    {
        if let Some(shift) = self.shift_dpi {
            if shift >= self.dpi_points.len() {
                return false;
            }
        }
        let value: u16 = if value < MIN_DPI { MIN_DPI } else { value };
        self.dpi_points.len() < MAX_DPI_POINTS || find_value(self.dpi_points.as_slice(), value).is_some()
            || self.active_dpi < self.dpi_points.len()
    }

    /// Makes a value the active sensitivity, as a point of its own where it is none yet.
    pub fn select_dpi_value(&mut self, value: u16)
        requires
            old(self)@.can_select(value),
        ensures
            final(self)@ == old(self)@.with_dpi_selected(value),
    {
        let value: u16 = if value < MIN_DPI { MIN_DPI } else { value };
        let shift_value: Option<u16> = match self.shift_dpi {
            Some(index) => Some(self.dpi_points[index]),
            None => None,
        };
        if find_value(self.dpi_points.as_slice(), value).is_none() {
            if self.dpi_points.len() < MAX_DPI_POINTS {
                self.dpi_points.push(value);
            } else {
                let active: usize = self.active_dpi;
                self.dpi_points.set(active, value);
            }
            self.dpi_points = sort_distinct(&self.dpi_points);
        }
        self.active_dpi = match find_value(self.dpi_points.as_slice(), value) {
            Some(at) => at,
            None => 0,
        };
        self.shift_dpi = match shift_value {
            Some(shift) => find_value(self.dpi_points.as_slice(), shift),
            None => None,
        };
    }

    /// Takes out a point, unless it is not there or the only one. Says whether it did.
    pub fn remove_dpi_point(&mut self, index: usize) -> (removed: bool)
        ensures
            removed == old(self)@.can_remove_point(index),
            final(self)@ == old(self)@.without_dpi_point(index),
    {
        if self.dpi_points.len() <= 1 || index >= self.dpi_points.len() {
            return false;
        }
        self.dpi_points.remove(index);
        if self.active_dpi >= self.dpi_points.len() {
            self.active_dpi = self.dpi_points.len() - 1;
        }
        self.shift_dpi = match self.shift_dpi {
            Some(shift) => if shift == index {
                None
            } else if shift > index {
                Some(shift - 1)
            } else {
                Some(shift)
            },
            None => None,
        };
        true
    }

    /// Puts the profile in order.
    pub fn normalize(&mut self)
        ensures
            final(self)@ == old(self)@.normal(),
    {
        self.name = trim(self.name.as_str());
        if self.name.as_str().is_empty() {
            self.name = "Unnamed Profile".to_owned();
        }
        let mut points: Vec<u16> = Vec::new();
        let mut i: usize = 0;
        assert(self.dpi_points@.take(0) =~= Seq::empty());
        while i < self.dpi_points.len()
            invariant
                i <= self.dpi_points.len(),
                ascending_u16(points@),
                points@ == sorted_distinct(usable_points(self.dpi_points@.take(i as int))),
            decreases self.dpi_points.len() - i,
        {
            let value: u16 = self.dpi_points[i];
            assert(self.dpi_points@.take(i + 1).drop_last() =~= self.dpi_points@.take(i as int));
            if value >= MIN_DPI {
                let ghost usable = usable_points(self.dpi_points@.take(i as int));
                assert(usable.push(value).drop_last() =~= usable);
                add_value(&mut points, value);
            }
            i = i + 1;
        }
        assert(self.dpi_points@.take(self.dpi_points@.len() as int) =~= self.dpi_points@);
        if points.len() > MAX_DPI_POINTS {
            points.truncate(MAX_DPI_POINTS);
        }
        if points.len() == 0 {
            points.push(800);
        }
        assert(points@ =~= normal_points(self.dpi_points@));
        self.dpi_points = points;
        if self.active_dpi >= self.dpi_points.len() {
            self.active_dpi = self.dpi_points.len() - 1;
        }
        self.shift_dpi = match self.shift_dpi {
            Some(shift) => if shift < self.dpi_points.len() {
                Some(shift)
            } else {
                None
            },
            None => None,
        };
        if !known_rate(self.report_rate) {
            self.report_rate = 1_000;
        }
        let mut k: usize = 0;
        while k < 5
            invariant
                k <= 5,
                completed(old(self)@.bindings, 0) == completed(binding_views(self.bindings@), k as int),
                self@ == (ProfileView {
                    bindings: binding_views(self.bindings@),
                    ..old(self)@.normal()
                }),
            decreases 5 - k,
        {
            let button = MouseButton::ALL[k];
            if find_button(&self.bindings, button).is_none() {
                let ghost bindings = binding_views(self.bindings@);
                let action = button.default_action();
                let ghost binding = BindingView { button, action: action@ };
                self.bindings.push(ButtonBinding { button, action });
                assert(binding_views(self.bindings@) =~= bindings.push(binding));
            }
            k = k + 1;
        }
    }
}

/// The profiles that a user keeps, one of them selected.
#[derive(Debug, PartialEq, Eq)]
pub struct ProfileLibrary {
    pub profiles: Vec<Profile>,
    pub selected: usize,
}

/// A [`ProfileLibrary`] with its list as a sequence.
pub struct LibraryView {
    pub profiles: Seq<ProfileView>,
    pub selected: usize,
}

/// The views of profiles.
pub open spec fn profile_views(profiles: Seq<Profile>) -> Seq<ProfileView> {
    profiles.map_values(|profile: Profile| profile@)
}

impl View for ProfileLibrary {
    type V = LibraryView;

    open spec fn view(&self) -> LibraryView {
        LibraryView { profiles: profile_views(self.profiles@), selected: self.selected }
    }
}

impl Clone for ProfileLibrary {
    fn clone(&self) -> (copy: Self)
        ensures
            copy@ == self@,
    {
        let mut profiles: Vec<Profile> = Vec::new();
        let mut i: usize = 0;
        while i < self.profiles.len()
            invariant
                i <= self.profiles.len(),
                profiles@.len() == i,
                forall|k: int| 0 <= k < i ==> #[trigger] profiles@[k]@ == self.profiles@[k]@,
            decreases self.profiles.len() - i,
        {
            profiles.push(self.profiles[i].clone());
            i = i + 1;
        }
        let copy = ProfileLibrary { profiles, selected: self.selected };
        assert(copy@.profiles =~= self@.profiles);
        copy
    }
}

/// The library that there is before anyone makes a profile.
pub open spec fn default_library() -> LibraryView {
    LibraryView { profiles: seq![default_profile()], selected: 0 }
}

impl Default for ProfileLibrary {
    fn default() -> (library: Self)
        ensures
            library@ == default_library(),
    {
        let library = ProfileLibrary { profiles: vec![Profile::default()], selected: 0 };
        assert(library@.profiles =~= default_library().profiles);
        library
    }
}

impl LibraryView {
    /// Whether a profile is selected that is there.
    pub open spec fn well_formed(self) -> bool {
        self.selected < self.profiles.len()
    }

    /// The library with one more profile, which is then the selected one.
    pub open spec fn with_profile(self, profile: ProfileView) -> LibraryView {
        LibraryView { profiles: self.profiles.push(profile), selected: self.profiles.len() as usize }
    }

    /// The profile that a user gets who asks for a new one.
    pub open spec fn fresh_profile(self) -> ProfileView {
        ProfileView { name: "Profile "@ + dec(self.profiles.len() + 1), ..default_profile() }
    }

    /// The copy that a user gets who asks to duplicate the selected profile.
    pub open spec fn copied_profile(self) -> ProfileView {
        ProfileView {
            name: self.profiles[self.selected as int].name + " Copy"@,
            ..self.profiles[self.selected as int]
        }
    }

    /// The library without the selected profile, unless that is the only one.
    pub open spec fn without_selected(self) -> LibraryView {
        if self.profiles.len() <= 1 {
            self
        } else {
            let profiles = self.profiles.remove(self.selected as int);
            LibraryView {
                profiles,
                selected: if self.selected >= profiles.len() {
                    (profiles.len() - 1) as usize
                } else {
                    self.selected
                },
            }
        }
    }

    /// The library put in order: at least one profile, each in order, and one of them selected.
    pub open spec fn normal(self) -> LibraryView {
        let profiles = if self.profiles.len() == 0 {
            seq![default_profile().normal()]
        } else {
            self.profiles.map_values(|profile: ProfileView| profile.normal())
        };
        LibraryView {
            profiles,
            selected: if self.selected >= profiles.len() {
                (profiles.len() - 1) as usize
            } else {
                self.selected
            },
        }
    }
}

impl ProfileLibrary {
    /// The selected profile.
    pub fn selected(&self) -> (profile: &Profile)
        requires
            self@.well_formed(),
        ensures
            profile@ == self@.profiles[self.selected as int],
            *profile == self.profiles@[self.selected as int],
    {
        &self.profiles[self.selected]
    }

    /// The selected profile, to be changed.
    pub fn selected_mut(&mut self) -> (profile: &mut Profile)
        requires
            old(self)@.well_formed(),
        ensures
            *profile == old(self).profiles@[old(self).selected as int],
            final(self).selected == old(self).selected,
            final(self).profiles@ == old(self).profiles@.update(old(self).selected as int, *final(profile)),
    {
        let selected: usize = self.selected;
        &mut self.profiles[selected]
    }

    /// Adds a profile with default settings and selects it.
    pub fn add(&mut self)
        requires
            old(self).profiles@.len() < usize::MAX,
        ensures
            final(self)@ == old(self)@.with_profile(old(self)@.fresh_profile()),
    {
        let number: usize = self.profiles.len() + 1;
        let mut profile = Profile::default();
        profile.name = join2("Profile ", decimal(number as u64).as_str());
        self.profiles.push(profile);
        self.selected = self.profiles.len() - 1;
        assert(self@.profiles =~= old(self)@.profiles.push(old(self)@.fresh_profile()));
    }

    /// Adds a copy of the selected profile and selects it.
    pub fn duplicate_selected(&mut self)
        requires
            old(self)@.well_formed(),
        ensures
            final(self)@ == old(self)@.with_profile(old(self)@.copied_profile()),
    {
        let mut profile = self.selected().clone();
        profile.name = join2(profile.name.as_str(), " Copy");
        self.profiles.push(profile);
        self.selected = self.profiles.len() - 1;
        assert(self@.profiles =~= old(self)@.profiles.push(old(self)@.copied_profile()));
    }

    /// Takes out the selected profile, unless it is the only one.
    pub fn remove_selected(&mut self)
        requires
            old(self)@.profiles.len() > 1 ==> old(self)@.well_formed(),
        ensures
            final(self)@ == old(self)@.without_selected(),
    {
        if self.profiles.len() <= 1 {
            return;
        }
        let selected: usize = self.selected;
        self.profiles.remove(selected);
        assert(self@.profiles =~= old(self)@.profiles.remove(selected as int));
        if self.selected >= self.profiles.len() {
            self.selected = self.profiles.len() - 1;
        }
    }

    /// Puts the library in order, as it is after it was read from a file.
    pub fn normalize(&mut self)
        ensures
            final(self)@ == old(self)@.normal(),
    {
        if self.profiles.len() == 0 {
            self.profiles.push(Profile::default());
        }
        let ghost start = profile_views(self.profiles@);
        let mut i: usize = 0;
        while i < self.profiles.len()
            invariant
                i <= self.profiles.len(),
                self.selected == old(self).selected,
                self.profiles@.len() == start.len(),
                forall|k: int| 0 <= k < i ==> #[trigger] self.profiles@[k]@ == start[k].normal(),
                forall|k: int| i <= k < start.len() ==> #[trigger] self.profiles@[k]@ == start[k],
            decreases self.profiles.len() - i,
        {
            self.profiles[i].normalize();
            i = i + 1;
        }
        if self.selected >= self.profiles.len() {
            self.selected = self.profiles.len() - 1;
        }
        assert(self@.profiles =~= old(self)@.normal().profiles);
    }
}

proof fn place_of_value_is_a_place(values: Seq<u16>, value: u16, from: int)
    requires
        0 <= from,
        values.len() <= usize::MAX,
    ensures
        match place_of(values, value, from) {
            Some(at) => from <= at < values.len() && values[at as int] == value,
            None => forall|k: int| from <= k < values.len() ==> #[trigger] values[k] != value,
        },
    decreases values.len() - from,
{
    if from < values.len() && values[from] != value {
        place_of_value_is_a_place(values, value, from + 1);
    }
}

proof fn sorted_points_are_sound(points: Seq<u16>)
    requires
        1 <= points.len() <= MAX_DPI_POINTS,
        forall|i: int| 0 <= i < points.len() ==> #[trigger] points[i] >= MIN_DPI,
    ensures
        1 <= sorted_distinct(points).len() <= MAX_DPI_POINTS,
        ascending_u16(sorted_distinct(points)),
        forall|i: int| 0 <= i < sorted_distinct(points).len() ==> #[trigger] sorted_distinct(points)[i] >= MIN_DPI,
        forall|i: int| 0 <= i < points.len() ==> sorted_distinct(points).contains(#[trigger] points[i]),
{
    sorted_distinct_ascends(points);
    let sorted = sorted_distinct(points);
    assert forall|i: int| 0 <= i < points.len() implies sorted.contains(#[trigger] points[i]) by {
        assert(points.to_set().contains(points[i]));
        assert(sorted.to_set().contains(points[i]));
    }
    assert forall|i: int| 0 <= i < sorted.len() implies #[trigger] sorted[i] >= MIN_DPI by {
        assert(sorted.to_set().contains(sorted[i]));
        assert(points.to_set().contains(sorted[i]));
    }
    assert(sorted.contains(points[0]));
}

proof fn ascending_grows(points: Seq<u16>, value: u16)
    requires
        ascending_u16(points),
        points.len() > 0,
    ensures
        sorted_distinct(points.push(value)).len() >= points.len(),
{
    assert(points.push(value).drop_last() =~= points);
    sorted_distinct_keeps_ascending(points);
    with_value_only_grows(points, value);
}

proof fn with_value_only_grows(points: Seq<u16>, value: u16)
    ensures
        with_value(points, value).len() >= points.len(),
    decreases points.len(),
{
    if points.len() > 0 && value > points[0] {
        with_value_only_grows(points.skip(1), value);
    }
}

/// The default profile is well formed.
pub proof fn default_profile_is_well_formed()
    ensures
        default_profile().well_formed(),
{
}

/// Adding a point keeps a profile well formed, and the value is one of its points afterwards where there was
/// room for it.
pub proof fn adding_a_point_keeps_well_formed(profile: ProfileView, value: u16)
    requires
        profile.well_formed(),
    ensures
        profile.with_dpi_point(value).well_formed(),
        profile.dpi_points.len() < MAX_DPI_POINTS ==> profile.with_dpi_point(value).dpi_points.contains(
            at_least_min_dpi(value),
        ),
{
    if profile.dpi_points.len() < MAX_DPI_POINTS {
        let points = profile.dpi_points.push(at_least_min_dpi(value));
        sorted_points_are_sound(points);
        ascending_grows(profile.dpi_points, at_least_min_dpi(value));
        assert(sorted_distinct(points).contains(points[profile.dpi_points.len() as int]));
    }
}

proof fn sorting_keeps_values(points: Seq<u16>)
    ensures
        forall|value: u16| #[trigger] sorted_distinct(points).contains(value) <==> points.contains(value),
{
    sorted_distinct_ascends(points);
    assert forall|value: u16| #[trigger] sorted_distinct(points).contains(value) <==> points.contains(value) by {
        assert(sorted_distinct(points).to_set().contains(value) <==> points.to_set().contains(value));
    }
}

/// The points with a value among them hold it, and are sound where those of a well-formed profile got a usable value.
proof fn points_with_a_value(profile: ProfileView, value: u16)
    requires
        profile.dpi_points.len() >= MAX_DPI_POINTS && !profile.dpi_points.contains(value) ==> profile.active_dpi
            < profile.dpi_points.len(),
    ensures
        profile.points_with(value).contains(value),
        profile.points_with(value).len() <= profile.dpi_points.len() || profile.points_with(value).len()
            <= MAX_DPI_POINTS,
        profile.well_formed() && value >= MIN_DPI ==> {
            &&& 1 <= profile.points_with(value).len() <= MAX_DPI_POINTS
            &&& ascending_u16(profile.points_with(value))
            &&& forall|i: int|
                0 <= i < profile.points_with(value).len() ==> #[trigger] profile.points_with(value)[i] >= MIN_DPI
        },
{
    if !profile.dpi_points.contains(value) {
        let room = profile.dpi_points.len() < MAX_DPI_POINTS;
        let more = if room {
            profile.dpi_points.push(value)
        } else {
            profile.dpi_points.update(profile.active_dpi as int, value)
        };
        let place = if room {
            profile.dpi_points.len() as int
        } else {
            profile.active_dpi as int
        };
        assert(more[place] == value);
        sorting_keeps_values(more);
        sorted_distinct_ascends(more);
        if profile.well_formed() && value >= MIN_DPI {
            sorted_points_are_sound(more);
        }
    }
}

/// A sensitivity that can be selected is the active one afterwards. The shift point is there afterwards exactly where
/// its sensitivity still is, and then it is the point with that sensitivity. A profile that is well formed stays so.
pub proof fn selecting_a_value_makes_it_active(profile: ProfileView, value: u16)
    requires
        profile.can_select(value),
        profile.dpi_points.len() <= usize::MAX,
    ensures
        ({
            let after = profile.with_dpi_selected(value);
            &&& after.active_dpi < after.dpi_points.len()
            &&& after.dpi_points[after.active_dpi as int] == at_least_min_dpi(value)
            &&& match profile.shift_dpi {
                None => after.shift_dpi is None,
                Some(shift) => {
                    let kept = profile.dpi_points[shift as int];
                    &&& after.shift_dpi is Some <==> after.dpi_points.contains(kept)
                    &&& after.shift_dpi matches Some(place) ==> place < after.dpi_points.len()
                        && after.dpi_points[place as int] == kept
                },
            }
            &&& profile.well_formed() ==> after.well_formed()
        }),
{
    let raised = at_least_min_dpi(value);
    let points = profile.points_with(raised);
    points_with_a_value(profile, raised);
    place_of_value_is_a_place(points, raised, 0);
    if let Some(shift) = profile.shift_dpi {
        place_of_value_is_a_place(points, profile.dpi_points[shift as int], 0);
    }
}

/// Taking out a point keeps a profile well formed.
pub proof fn removing_a_point_keeps_well_formed(profile: ProfileView, index: usize)
    requires
        profile.well_formed(),
    ensures
        profile.without_dpi_point(index).well_formed(),
{
    if profile.can_remove_point(index) {
        let points = profile.dpi_points.remove(index as int);
        assert forall|i: int, j: int| 0 <= i < j < points.len() implies #[trigger] points[i] < #[trigger] points[j] by {
            let a = if i < index {
                i
            } else {
                i + 1
            };
            let b = if j < index {
                j
            } else {
                j + 1
            };
            assert(points[i] == profile.dpi_points[a]);
            assert(points[j] == profile.dpi_points[b]);
        }
        assert forall|i: int| 0 <= i < points.len() implies #[trigger] points[i] >= MIN_DPI by {
            assert(points[i] == profile.dpi_points[if i < index { i } else { i + 1 }]);
        }
    }
}

proof fn usable_points_are_usable(points: Seq<u16>)
    ensures
        forall|i: int| 0 <= i < usable_points(points).len() ==> #[trigger] usable_points(points)[i] >= MIN_DPI,
    decreases points.len(),
{
    if points.len() > 0 {
        usable_points_are_usable(points.drop_last());
        let front = usable_points(points.drop_last());
        assert forall|i: int| 0 <= i < usable_points(points).len() implies #[trigger] usable_points(points)[i]
            >= MIN_DPI by {
            if i < front.len() {
                assert(usable_points(points)[i] == front[i]);
            }
        }
    }
}

proof fn usable_points_of_usable(points: Seq<u16>)
    requires
        forall|i: int| 0 <= i < points.len() ==> #[trigger] points[i] >= MIN_DPI,
    ensures
        usable_points(points) == points,
    decreases points.len(),
{
    if points.len() > 0 {
        usable_points_of_usable(points.drop_last());
        assert(points.drop_last().push(points.last()) =~= points);
    } else {
        assert(usable_points(points) =~= points);
    }
}

proof fn normal_points_are_sound(points: Seq<u16>)
    ensures
        1 <= normal_points(points).len() <= MAX_DPI_POINTS,
        ascending_u16(normal_points(points)),
        forall|i: int| 0 <= i < normal_points(points).len() ==> #[trigger] normal_points(points)[i] >= MIN_DPI,
        normal_points(normal_points(points)) == normal_points(points),
{
    let usable = usable_points(points);
    let sorted = sorted_distinct(usable);
    usable_points_are_usable(points);
    sorted_distinct_ascends(usable);
    assert forall|i: int| 0 <= i < sorted.len() implies #[trigger] sorted[i] >= MIN_DPI by {
        assert(sorted.to_set().contains(sorted[i]));
        assert(usable.to_set().contains(sorted[i]));
    }
    let normal = normal_points(points);
    usable_points_of_usable(normal);
    sorted_distinct_keeps_ascending(normal);
}

proof fn place_of_button_is_a_place(bindings: Seq<BindingView>, button: MouseButton, from: int)
    requires
        0 <= from,
    ensures
        match place_of_button(bindings, button, from) {
            Some(at) => from <= at < bindings.len() && bindings[at].button == button && forall|k: int|
                from <= k < at ==> (#[trigger] bindings[k]).button != button,
            None => forall|k: int| from <= k < bindings.len() ==> (#[trigger] bindings[k]).button != button,
        },
    decreases bindings.len() - from,
{
    if from < bindings.len() && bindings[from].button != button {
        place_of_button_is_a_place(bindings, button, from + 1);
    }
}

proof fn place_of_button_found(bindings: Seq<BindingView>, button: MouseButton, from: int, at: int)
    requires
        0 <= from <= at < bindings.len(),
        bindings[at].button == button,
        forall|k: int| from <= k < at ==> (#[trigger] bindings[k]).button != button,
    ensures
        place_of_button(bindings, button, from) == Some(at),
    decreases at - from,
{
    if from < at {
        place_of_button_found(bindings, button, from + 1, at);
    }
}

proof fn place_of_button_missed(bindings: Seq<BindingView>, button: MouseButton, from: int)
    requires
        0 <= from,
        forall|k: int| from <= k < bindings.len() ==> (#[trigger] bindings[k]).button != button,
    ensures
        place_of_button(bindings, button, from) is None,
    decreases bindings.len() - from,
{
    if from < bindings.len() {
        place_of_button_missed(bindings, button, from + 1);
    }
}

/// A button does what it was assigned last, and every other button what it did before.
pub proof fn assigning_changes_one_button(
    bindings: Seq<BindingView>,
    button: MouseButton,
    action: ActionView,
    other: MouseButton,
)
    ensures
        action_of(assigned(bindings, button, action), button) == action,
        other != button ==> action_of(assigned(bindings, button, action), other) == action_of(bindings, other),
{
    let after = assigned(bindings, button, action);
    place_of_button_is_a_place(bindings, button, 0);
    place_of_button_is_a_place(bindings, other, 0);
    match place_of_button(bindings, button, 0) {
        Some(at) => {
            place_of_button_found(after, button, 0, at);
        },
        None => {
            place_of_button_found(after, button, 0, bindings.len() as int);
        },
    }
    if other != button {
        match place_of_button(bindings, other, 0) {
            Some(at) => {
                assert forall|k: int| 0 <= k < at implies (#[trigger] after[k]).button != other by {
                    assert(bindings[k].button != other);
                }
                place_of_button_found(after, other, 0, at);
            },
            None => {
                assert forall|k: int| 0 <= k < after.len() implies (#[trigger] after[k]).button != other by {
                    if k < bindings.len() {
                        assert(bindings[k].button != other);
                    }
                }
                place_of_button_missed(after, other, 0);
            },
        }
    }
}

proof fn completed_binds_from(bindings: Seq<BindingView>, from: int)
    requires
        0 <= from <= 5,
        forall|k: int| 0 <= k < from ==> place_of_button(bindings, #[trigger] MouseButton::ALL@[k], 0) is Some,
    ensures
        forall|k: int|
            0 <= k < 5 ==> place_of_button(completed(bindings, from), #[trigger] MouseButton::ALL@[k], 0) is Some,
        bindings.is_prefix_of(completed(bindings, from)),
    decreases 5 - from,
{
    if from < 5 {
        let button = MouseButton::ALL@[from];
        if place_of_button(bindings, button, 0) is Some {
            completed_binds_from(bindings, from + 1);
        } else {
            let more = bindings.push(BindingView { button, action: default_action_of(button) });
            assert forall|k: int| 0 <= k < from + 1 implies place_of_button(
                more,
                #[trigger] MouseButton::ALL@[k],
                0,
            ) is Some by {
                if k < from {
                    place_of_button_is_a_place(bindings, MouseButton::ALL@[k], 0);
                    let at = place_of_button(bindings, MouseButton::ALL@[k], 0)->0;
                    assert(more[at] == bindings[at]);
                    place_of_button_is_a_place(more, MouseButton::ALL@[k], 0);
                } else {
                    assert(more[bindings.len() as int].button == button);
                    place_of_button_is_a_place(more, button, 0);
                }
            }
            completed_binds_from(more, from + 1);
            assert(bindings.is_prefix_of(more));
        }
    }
}

proof fn completed_of_complete(bindings: Seq<BindingView>, from: int)
    requires
        0 <= from <= 5,
        forall|k: int| 0 <= k < 5 ==> place_of_button(bindings, #[trigger] MouseButton::ALL@[k], 0) is Some,
    ensures
        completed(bindings, from) == bindings,
    decreases 5 - from,
{
    if from < 5 {
        assert(place_of_button(bindings, MouseButton::ALL@[from], 0) is Some);
        completed_of_complete(bindings, from + 1);
    }
}

/// A profile that was put in order is well formed, has a name, a known report rate and a binding for every
/// button, and is not changed by putting it in order again.
pub proof fn normal_profile_is_well_formed(profile: ProfileView)
    ensures
        profile.normal().well_formed(),
        profile.normal().name.len() > 0,
        REPORT_RATES@.contains(profile.normal().report_rate),
        forall|button: MouseButton| #[trigger] place_of_button(profile.normal().bindings, button, 0) is Some,
        profile.bindings.is_prefix_of(profile.normal().bindings),
        profile.normal().normal() == profile.normal(),
{
    let normal = profile.normal();
    normal_points_are_sound(profile.dpi_points);
    trimming_twice_is_trimming(profile.name);
    reveal_strlit("Unnamed Profile");
    assert(trimmed("Unnamed Profile"@) == "Unnamed Profile"@);
    assert(REPORT_RATES@[3] == 1_000);
    completed_binds_from(profile.bindings, 0);
    completed_of_complete(normal.bindings, 0);
    assert forall|button: MouseButton| #[trigger] place_of_button(normal.bindings, button, 0) is Some by {
        let k: int = match button {
            MouseButton::Primary => 0,
            MouseButton::Secondary => 1,
            MouseButton::Middle => 2,
            MouseButton::Back => 3,
            MouseButton::Forward => 4,
        };
        assert(MouseButton::ALL@[k] == button);
    }
}

/// A library that was put in order has a selected profile and only profiles in order, and is not changed by
/// putting it in order again.
pub proof fn normal_library_is_well_formed(library: LibraryView)
    ensures
        library.normal().well_formed(),
        forall|i: int| 0 <= i < library.normal().profiles.len() ==> (#[trigger] library.normal().profiles[i]).well_formed(),
        library.normal().normal() == library.normal(),
{
    let normal = library.normal();
    assert forall|i: int| 0 <= i < normal.profiles.len() implies (#[trigger] normal.profiles[i]).well_formed()
        && normal.profiles[i].normal() == normal.profiles[i] by {
        if library.profiles.len() == 0 {
            normal_profile_is_well_formed(default_profile());
        } else {
            normal_profile_is_well_formed(library.profiles[i]);
        }
    }
    assert(normal.normal().profiles =~= normal.profiles);
}

/// Adding, duplicating and removing profiles keep a profile selected that is there, and adding or duplicating
/// one and removing it again gives back the profiles that there were.
pub proof fn library_stays_well_formed(library: LibraryView, profile: ProfileView)
    requires
        library.well_formed(),
        library.profiles.len() < usize::MAX,
    ensures
        library.with_profile(profile).well_formed(),
        library.with_profile(profile).profiles[library.with_profile(profile).selected as int] == profile,
        library.without_selected().well_formed(),
        library.with_profile(profile).without_selected().profiles == library.profiles,
        default_library().well_formed(),
{
    assert(library.with_profile(profile).without_selected().profiles =~= library.profiles);
}

/// A profile is well formed where it has one to five points in ascending order, none below 100, and its active point and
/// its shift point, if it has one, are among them.
pub proof fn well_formed_profiles(profile: ProfileView)
    ensures
        profile.well_formed() <==> {
            &&& 1 <= profile.dpi_points.len() <= 5
            &&& forall|i: int| 0 <= i < profile.dpi_points.len() ==> #[trigger] profile.dpi_points[i] >= 100
            &&& forall|i: int, j: int|
                0 <= i < j < profile.dpi_points.len() ==> #[trigger] profile.dpi_points[i]
                    < #[trigger] profile.dpi_points[j]
            &&& profile.active_dpi < profile.dpi_points.len()
            &&& match profile.shift_dpi {
                Some(shift) => shift < profile.dpi_points.len(),
                None => true,
            }
        },
{
}

/// The click that a button stands for.
pub open spec fn own_click(button: MouseButton) -> ActionView {
    match button {
        MouseButton::Primary => ActionView::PrimaryClick,
        MouseButton::Secondary => ActionView::SecondaryClick,
        MouseButton::Middle => ActionView::MiddleClick,
        MouseButton::Back => ActionView::Back,
        MouseButton::Forward => ActionView::Forward,
    }
}

/// In the default profile, which has the points 400, 800, 1600 and 3200 with the second one active and the first one for
/// shifting, and 1000 reports in a second, every button does its own click.
pub proof fn default_profile_clicks(button: MouseButton)
    ensures
        action_of(default_profile().bindings, button) == own_click(button),
        default_action_of(button) == own_click(button),
        default_profile().name == "Desktop Default"@,
        default_profile().dpi_points == seq![400u16, 800u16, 1600u16, 3200u16],
        default_profile().active_dpi == 1,
        default_profile().shift_dpi == Some(0usize),
        default_profile().report_rate == 1000,
        default_profile().bindings.len() == 5,
{
    reveal_with_fuel(place_of_button, 6);
}

/// What a button does is what the first binding of it says; one without a binding does nothing.
pub proof fn first_binding_counts(bindings: Seq<BindingView>, button: MouseButton, at: int)
    requires
        0 <= at <= bindings.len(),
        forall|k: int| 0 <= k < at ==> (#[trigger] bindings[k]).button != button,
    ensures
        at < bindings.len() && bindings[at].button == button ==> action_of(bindings, button) == bindings[at].action,
        at == bindings.len() ==> action_of(bindings, button) is Disabled,
{
    if at < bindings.len() && bindings[at].button == button {
        place_of_button_found(bindings, button, 0, at);
    } else if at == bindings.len() {
        place_of_button_missed(bindings, button, 0);
    }
}

/// Adding a sensitivity to less than five points adds it alone, raised to 100 where it is lower, in its place; the
/// numbers of the active and of the shift point, the name, the rate and the buttons stay. Five points stay as they are.
pub proof fn adding_a_point_adds_it_alone(profile: ProfileView, value: u16, other: u16)
    ensures
        ({
            let after = profile.with_dpi_point(value);
            let added: int = if value < 100 {
                100
            } else {
                value as int
            };
            &&& after.name == profile.name
            &&& after.active_dpi == profile.active_dpi
            &&& after.shift_dpi == profile.shift_dpi
            &&& after.report_rate == profile.report_rate
            &&& after.bindings == profile.bindings
            &&& profile.dpi_points.len() >= 5 ==> after.dpi_points == profile.dpi_points
            &&& profile.dpi_points.len() < 5 ==> (after.dpi_points.contains(other) <==> profile.dpi_points.contains(other)
                || other == added)
            &&& profile.dpi_points.len() < 5 ==> forall|i: int, j: int|
                0 <= i < j < after.dpi_points.len() ==> #[trigger] after.dpi_points[i] < #[trigger] after.dpi_points[j]
        }),
{
    if profile.dpi_points.len() < 5 {
        let more = profile.dpi_points.push(at_least_min_dpi(value));
        sorting_keeps_values(more);
        sorted_distinct_ascends(more);
        assert(sorted_distinct(more).contains(other) <==> more.contains(other));
        assert(more.last() == at_least_min_dpi(value));
        assert(more[profile.dpi_points.len() as int] == at_least_min_dpi(value));
        if profile.dpi_points.contains(other) {
            let i = choose|i: int| 0 <= i < profile.dpi_points.len() && profile.dpi_points[i] == other;
            assert(more[i] == other);
        }
        if more.contains(other) && other != at_least_min_dpi(value) {
            let i = choose|i: int| 0 <= i < more.len() && more[i] == other;
            assert(profile.dpi_points[i] == other);
        }
    }
}

/// Selecting a sensitivity, raised to 100 where it is lower, keeps the points where it is one of them, adds it alone where
/// there is room, and otherwise puts it in the place of the active point alone. It is the active point then, and the name,
/// the rate and the buttons stay.
pub proof fn selecting_changes_one_point(profile: ProfileView, value: u16, other: u16)
    requires
        profile.well_formed(),
    ensures
        ({
            let after = profile.with_dpi_selected(value);
            let picked: u16 = if value < 100 {
                100
            } else {
                value
            };
            let replaced = profile.dpi_points[profile.active_dpi as int];
            &&& after.name == profile.name
            &&& after.report_rate == profile.report_rate
            &&& after.bindings == profile.bindings
            &&& after.active_dpi < after.dpi_points.len()
            &&& after.dpi_points[after.active_dpi as int] == picked
            &&& profile.dpi_points.contains(picked) ==> after.dpi_points == profile.dpi_points
            &&& !profile.dpi_points.contains(picked) && profile.dpi_points.len() < 5 ==> (after.dpi_points.contains(other)
                <==> profile.dpi_points.contains(other) || other == picked)
            &&& !profile.dpi_points.contains(picked) && profile.dpi_points.len() == 5 ==> (after.dpi_points.contains(
                other,
            ) <==> (profile.dpi_points.contains(other) && other != replaced) || other == picked)
        }),
{
    selecting_a_value_makes_it_active(profile, value);
    let picked = at_least_min_dpi(value);
    let points = profile.dpi_points;
    if !points.contains(picked) {
        let at = profile.active_dpi as int;
        let (place, more) = if points.len() < 5 {
            (points.len() as int, points.push(picked))
        } else {
            (at, points.update(at, picked))
        };
        sorting_keeps_values(more);
        assert(sorted_distinct(more).contains(other) <==> more.contains(other));
        assert(more[place] == picked);
        if more.contains(other) && other != picked {
            let i = choose|i: int| 0 <= i < more.len() && more[i] == other;
            assert(points[i] == other);
        }
        if points.contains(other) {
            let i = choose|i: int| 0 <= i < points.len() && points[i] == other;
            if i != place {
                assert(more[i] == other);
            }
        }
    }
}

/// Taking out a point takes out that one alone; the last point is never taken out. The shift point stays the one of its
/// sensitivity, and is gone where that was taken out. The number of the active point stays, or is that of the last point
/// where there are no more so many.
pub proof fn removing_takes_one_point(profile: ProfileView, index: usize)
    requires
        profile.well_formed(),
    ensures
        ({
            let after = profile.without_dpi_point(index);
            &&& after.name == profile.name
            &&& after.report_rate == profile.report_rate
            &&& after.bindings == profile.bindings
            &&& profile.dpi_points.len() == 1 || index >= profile.dpi_points.len() ==> after == profile
            &&& profile.dpi_points.len() > 1 && index < profile.dpi_points.len() ==> {
                &&& after.dpi_points.len() == profile.dpi_points.len() - 1
                &&& forall|i: int| 0 <= i < index ==> #[trigger] after.dpi_points[i] == profile.dpi_points[i]
                &&& forall|i: int|
                    index <= i < after.dpi_points.len() ==> #[trigger] after.dpi_points[i] == profile.dpi_points[i + 1]
                &&& after.active_dpi == (if profile.active_dpi == profile.dpi_points.len() - 1 {
                    profile.active_dpi - 1
                } else {
                    profile.active_dpi as int
                })
                &&& match profile.shift_dpi {
                    None => after.shift_dpi is None,
                    Some(shift) => if shift == index {
                        after.shift_dpi is None
                    } else {
                        match after.shift_dpi {
                            Some(place) => place < after.dpi_points.len() && after.dpi_points[place as int]
                                == profile.dpi_points[shift as int],
                            None => false,
                        }
                    },
                }
            }
        }),
{
}

proof fn usable_points_are_those(points: Seq<u16>, value: u16)
    ensures
        usable_points(points).contains(value) <==> points.contains(value) && value >= 100,
    decreases points.len(),
{
    if points.len() > 0 {
        let front = points.drop_last();
        usable_points_are_those(front, value);
        let (earlier, now) = (usable_points(front), usable_points(points));
        if front.contains(value) {
            let i = choose|i: int| 0 <= i < front.len() && front[i] == value;
            assert(points[i] == value);
        }
        if points.contains(value) && !front.contains(value) {
            let i = choose|i: int| 0 <= i < points.len() && points[i] == value;
            if i < front.len() {
                assert(front[i] == value);
            }
            assert(points.last() == value);
        }
        assert(points[points.len() - 1] == points.last());
        if points.last() >= MIN_DPI {
            assert(now == earlier.push(points.last()));
            assert(now[earlier.len() as int] == points.last());
            if earlier.contains(value) {
                let i = choose|i: int| 0 <= i < earlier.len() && earlier[i] == value;
                assert(now[i] == value);
            }
            if now.contains(value) && value != points.last() {
                let i = choose|i: int| 0 <= i < now.len() && now[i] == value;
                assert(earlier[i] == value);
            }
        }
    }
}

/// The points of a profile that is put in order are the lowest five of those that are at least 100, or 800 where there
/// are none.
pub proof fn order_keeps_the_lowest_points(points: Seq<u16>, value: u16)
    ensures
        ({
            let kept = normal_points(points);
            let usable = exists|i: int| 0 <= i < points.len() && #[trigger] points[i] >= 100;
            &&& !usable ==> kept == seq![800u16]
            &&& usable ==> {
                &&& 1 <= kept.len() <= 5
                &&& kept.contains(value) ==> points.contains(value) && value >= 100
                &&& points.contains(value) && value >= 100 && !kept.contains(value) ==> kept.len() == 5 && value
                    > kept.last()
                &&& forall|i: int, j: int| 0 <= i < j < kept.len() ==> #[trigger] kept[i] < #[trigger] kept[j]
            }
        }),
{
    let usable = usable_points(points);
    let sorted = sorted_distinct(usable);
    let kept = normal_points(points);
    sorted_distinct_ascends(usable);
    sorting_keeps_values(usable);
    usable_points_are_those(points, value);
    assert(sorted.contains(value) <==> usable.contains(value));
    if exists|i: int| 0 <= i < points.len() && #[trigger] points[i] >= 100 {
        let i = choose|i: int| 0 <= i < points.len() && #[trigger] points[i] >= 100;
        usable_points_are_those(points, points[i]);
        assert(points.contains(points[i]));
        assert(sorted.contains(points[i]));
    } else if sorted.len() > 0 {
        usable_points_are_those(points, sorted[0]);
        assert(sorted.contains(sorted[0]));
        let i = choose|i: int| 0 <= i < points.len() && points[i] == sorted[0];
        assert(points[i] >= 100);
    }
    if sorted.len() > 0 {
        assert forall|i: int, j: int| 0 <= i < j < kept.len() implies #[trigger] kept[i] < #[trigger] kept[j] by {
            assert(kept[i] == sorted[i] && kept[j] == sorted[j]);
        }
        if kept.contains(value) {
            let i = choose|i: int| 0 <= i < kept.len() && kept[i] == value;
            assert(sorted[i] == value);
        }
        if sorted.contains(value) && !kept.contains(value) {
            let i = choose|i: int| 0 <= i < sorted.len() && sorted[i] == value;
            if i < kept.len() {
                assert(kept[i] == value);
            }
            assert(kept.last() == sorted[kept.len() - 1]);
        }
    }
}

proof fn completed_does_own_clicks(bindings: Seq<BindingView>, from: int, button: MouseButton)
    requires
        0 <= from <= 5,
    ensures
        place_of_button(bindings, button, 0) is Some ==> action_of(completed(bindings, from), button) == action_of(
            bindings,
            button,
        ),
        place_of_button(bindings, button, 0) is None ==> action_of(completed(bindings, from), button) == (if exists|
            k: int,
        |
            from <= k < 5 && #[trigger] MouseButton::ALL@[k] == button {
            own_click(button)
        } else {
            ActionView::Disabled
        }),
    decreases 5 - from,
{
    place_of_button_is_a_place(bindings, button, 0);
    if from < 5 {
        let here = MouseButton::ALL@[from];
        if place_of_button(bindings, here, 0) is Some {
            completed_does_own_clicks(bindings, from + 1, button);
            if exists|k: int| from <= k < 5 && #[trigger] MouseButton::ALL@[k] == button {
                let k = choose|k: int| from <= k < 5 && #[trigger] MouseButton::ALL@[k] == button;
                if k > from {
                    assert(MouseButton::ALL@[k] == button);
                }
            }
        } else {
            let more = bindings.push(BindingView { button: here, action: default_action_of(here) });
            completed_does_own_clicks(more, from + 1, button);
            match place_of_button(bindings, button, 0) {
                Some(at) => {
                    assert forall|k: int| 0 <= k < at implies (#[trigger] more[k]).button != button by {
                        assert(bindings[k].button != button);
                    }
                    assert(more[at] == bindings[at]);
                    place_of_button_found(more, button, 0, at);
                },
                None => {
                    assert forall|k: int| 0 <= k < bindings.len() implies (#[trigger] more[k]).button != button by {
                        assert(bindings[k].button != button);
                    }
                    if here == button {
                        place_of_button_found(more, button, 0, bindings.len() as int);
                        assert(MouseButton::ALL@[from] == button);
                    } else {
                        place_of_button_missed(more, button, 0);
                        if exists|k: int| from <= k < 5 && #[trigger] MouseButton::ALL@[k] == button {
                            let k = choose|k: int| from <= k < 5 && #[trigger] MouseButton::ALL@[k] == button;
                            assert(k > from);
                        }
                    }
                },
            }
        }
    }
}

/// What putting a profile in order does. Its name is trimmed, or "Unnamed Profile" where nothing is left. Numbers of
/// points that are not there become that of the last point, or none for the shift point. A rate that is none of the seven
/// becomes 1000. A button without a binding does its own click, and any other what it did.
pub proof fn order_mends_a_profile(profile: ProfileView, button: MouseButton)
    ensures
        ({
            let after = profile.normal();
            let rate = profile.report_rate;
            &&& trimmed(profile.name).len() > 0 ==> after.name == trimmed(profile.name)
            &&& trimmed(profile.name).len() == 0 ==> after.name == "Unnamed Profile"@
            &&& after.dpi_points == normal_points(profile.dpi_points)
            &&& after.active_dpi == (if profile.active_dpi < after.dpi_points.len() {
                profile.active_dpi as int
            } else {
                after.dpi_points.len() - 1
            })
            &&& after.shift_dpi == (match profile.shift_dpi {
                Some(shift) if shift < after.dpi_points.len() => Some(shift),
                _ => None,
            })
            &&& after.report_rate == (if rate == 125 || rate == 250 || rate == 500 || rate == 1000 || rate == 2000
                || rate == 4000 || rate == 8000 {
                rate
            } else {
                1000
            })
            &&& action_of(after.bindings, button) == (if exists|k: int|
                0 <= k < profile.bindings.len() && (#[trigger] profile.bindings[k]).button == button {
                action_of(profile.bindings, button)
            } else {
                own_click(button)
            })
        }),
{
    let rates = REPORT_RATES@;
    let rate = profile.report_rate;
    assert(rates[0] == 125 && rates[1] == 250 && rates[2] == 500 && rates[3] == 1000 && rates[4] == 2000 && rates[5]
        == 4000 && rates[6] == 8000);
    if rates.contains(rate) {
        let i = choose|i: int| 0 <= i < rates.len() && rates[i] == rate;
        assert(0 <= i < 7);
    }
    normal_points_are_sound(profile.dpi_points);
    completed_does_own_clicks(profile.bindings, 0, button);
    place_of_button_is_a_place(profile.bindings, button, 0);
    let k: int = match button {
        MouseButton::Primary => 0,
        MouseButton::Secondary => 1,
        MouseButton::Middle => 2,
        MouseButton::Back => 3,
        MouseButton::Forward => 4,
    };
    assert(MouseButton::ALL@[k] == button);
    if exists|k: int| 0 <= k < profile.bindings.len() && (#[trigger] profile.bindings[k]).button == button {
        let k = choose|k: int| 0 <= k < profile.bindings.len() && (#[trigger] profile.bindings[k]).button == button;
        if place_of_button(profile.bindings, button, 0) is None {
            assert(profile.bindings[k].button != button);
        }
    } else if place_of_button(profile.bindings, button, 0) is Some {
        let at = place_of_button(profile.bindings, button, 0)->0;
        assert(profile.bindings[at].button == button);
    }
}

/// A new profile is the default one under the next number; a copy is the selected one with " Copy" behind its name; both
/// are put behind the others and selected. Removing takes the selected profile alone, and never the last one.
pub proof fn library_changes_one_profile(library: LibraryView, profile: ProfileView, i: int)
    requires
        library.well_formed(),
        library.profiles.len() < usize::MAX,
        0 <= i < library.profiles.len(),
    ensures
        library.fresh_profile().name == "Profile "@ + dec(library.profiles.len() + 1),
        library.fresh_profile().dpi_points == default_profile().dpi_points,
        library.fresh_profile().active_dpi == default_profile().active_dpi,
        library.fresh_profile().shift_dpi == default_profile().shift_dpi,
        library.fresh_profile().report_rate == default_profile().report_rate,
        library.fresh_profile().bindings == default_profile().bindings,
        ({
            let selected = library.profiles[library.selected as int];
            let copy = library.copied_profile();
            &&& copy.name == selected.name + " Copy"@
            &&& copy.dpi_points == selected.dpi_points
            &&& copy.active_dpi == selected.active_dpi
            &&& copy.shift_dpi == selected.shift_dpi
            &&& copy.report_rate == selected.report_rate
            &&& copy.bindings == selected.bindings
        }),
        library.with_profile(profile).profiles.len() == library.profiles.len() + 1,
        library.with_profile(profile).profiles[i] == library.profiles[i],
        library.with_profile(profile).profiles[library.profiles.len() as int] == profile,
        library.with_profile(profile).selected == library.profiles.len(),
        library.profiles.len() == 1 ==> library.without_selected() == library,
        library.profiles.len() > 1 ==> ({
            let after = library.without_selected();
            &&& after.profiles.len() == library.profiles.len() - 1
            &&& i < library.selected ==> after.profiles[i] == library.profiles[i]
            &&& i > library.selected ==> after.profiles[i - 1] == library.profiles[i]
            &&& after.selected == (if library.selected == library.profiles.len() - 1 {
                library.selected - 1
            } else {
                library.selected as int
            })
        }),
{
}

/// What is done is called by its name; keys, macros and raw bytes are told behind their kind.
pub proof fn actions_have_labels(action: ActionView)
    ensures
        action_label(action) == (match action {
            ActionView::PrimaryClick => "Primary Click"@,
            ActionView::SecondaryClick => "Secondary Click"@,
            ActionView::MiddleClick => "Middle Click"@,
            ActionView::Back => "Back"@,
            ActionView::Forward => "Forward"@,
            ActionView::DpiUp => "DPI Up"@,
            ActionView::DpiDown => "DPI Down"@,
            ActionView::DpiCycle => "DPI Cycle"@,
            ActionView::DpiShift => "DPI Shift"@,
            ActionView::Keystroke(keys) => "Key "@ + keys,
            ActionView::Macro(steps) => "Macro "@ + steps,
            ActionView::OnboardRaw(bytes) => "Onboard "@ + bytes,
            ActionView::Disabled => "Disabled"@,
        }),
{
}

}
