//! What the desktop application is doing with a mouse, and the profiles that the user edits.

use vstd::prelude::*;

use crate::error::{AppError, ErrorView, Outcome, Result};
use crate::profile::{
    binding_views, default_library, default_profile, ButtonAction, ButtonBinding, LibraryView, Profile,
    ProfileLibrary, ProfileView,
};
use crate::snapshot::{snapshot_option, snapshot_outcome, DeviceSnapshot, SnapshotView};
use crate::text::{dec, decimal, join2, join3, same_text, stands_at, text_option, uppercase, uppered};

verus! {

/// What is known of the mouse.
#[derive(Debug)]
pub enum DeviceState {
    /// Something is being done.
    Loading(String),
    /// The mouse has been read.
    Ready(DeviceSnapshot),
    /// The user may not open the mouse.
    Permission,
    /// Something went wrong.
    Error(String),
}

/// A [`DeviceState`] with its texts as sequences.
pub enum StateView {
    Loading(Seq<char>),
    Ready(SnapshotView),
    Permission,
    Error(Seq<char>),
}

impl View for DeviceState {
    type V = StateView;

    open spec fn view(&self) -> StateView {
        match *self {
            DeviceState::Loading(message) => StateView::Loading(message@),
            DeviceState::Ready(snapshot) => StateView::Ready(snapshot@),
            DeviceState::Permission => StateView::Permission,
            DeviceState::Error(message) => StateView::Error(message@),
        }
    }
}

/// What the window is called.
pub open spec fn title_of(state: StateView) -> Seq<char> {
    "OPEN MOUSE MEMORY  ·  "@ + match state {
        StateView::Ready(snapshot) => (if snapshot.name == "PRO X 2"@ {
            "PRO X2"@
        } else {
            snapshot.name
        }) + "  -  "@ + (match snapshot.battery {
            Some(percentage) => dec(percentage as nat) + "% BATTERY"@,
            None => "BATTERY --"@,
        }),
        StateView::Loading(message) => uppered(message),
        StateView::Permission => "DEVICE ACCESS REQUIRED"@,
        StateView::Error(_) => "NO DEVICE"@,
    }
}

/// What is said in the place of the profiles while the mouse is not ready.
pub open spec fn pending_of(state: StateView) -> Option<Seq<char>> {
    match state {
        StateView::Loading(_) => Some("Connecting to mouse"@),
        StateView::Permission => Some("Device access required"@),
        StateView::Error(_) => Some("Mouse unavailable"@),
        StateView::Ready(_) => None,
    }
}

/// The heading while something is being done.
pub open spec fn loading_heading_of(message: Seq<char>) -> Seq<char> {
    if stands_at(message, "Saving"@, 0) {
        "Saving to onboard memory"@
    } else {
        "Connecting to your mouse"@
    }
}

/// The heading while something is being done.
pub fn loading_heading(message: &str) -> (heading: &'static str)
    ensures
        heading@ == loading_heading_of(message@),
{
    match crate::text::strip_prefix(message, "Saving") {
        Some(_) => "Saving to onboard memory",
        None => "Connecting to your mouse",
    }
}

impl DeviceState {
    /// Whether the mouse has been read.
    pub fn is_ready(&self) -> (ready: bool)
        ensures
            ready == (self@ is Ready),
    {
        match self {
            DeviceState::Ready(_) => true,
            _ => false,
        }
    }

    /// What the window is called.
    pub fn window_title(&self) -> (title: String)
        ensures
            title@ == title_of(self@),
    {
        let rest = match self {
            DeviceState::Ready(snapshot) => {
                let name: &str = if same_text(snapshot.name.as_str(), "PRO X 2") {
                    "PRO X2"
                } else {
                    snapshot.name.as_str()
                };
                let battery = match snapshot.battery {
                    Some(percentage) => join2(decimal(percentage as u64).as_str(), "% BATTERY"),
                    None => "BATTERY --".to_owned(),
                };
                join3(name, "  -  ", battery.as_str())
            },
            DeviceState::Loading(message) => uppercase(message.as_str()),
            DeviceState::Permission => "DEVICE ACCESS REQUIRED".to_owned(),
            DeviceState::Error(_) => "NO DEVICE".to_owned(),
        };
        join2("OPEN MOUSE MEMORY  ·  ", rest.as_str())
    }

    /// What is said in the place of the profiles while the mouse is not ready.
    pub fn pending_label(&self) -> (label: Option<String>)
        ensures
            text_option(label) == pending_of(self@),
    {
        match self {
            DeviceState::Loading(_) => Some("Connecting to mouse".to_owned()),
            DeviceState::Permission => Some("Device access required".to_owned()),
            DeviceState::Error(_) => Some("Mouse unavailable".to_owned()),
            DeviceState::Ready(_) => None,
        }
    }
}

/// Something to be done with the mouse.
#[derive(Debug)]
pub enum DeviceTask {
    /// Read the mouse, and perhaps edit what it holds.
    Refresh { load_settings: bool },
    /// Bring a snapshot up to date.
    RefreshStatus { snapshot: DeviceSnapshot },
    /// Store a profile.
    SaveOnboard { slot: u8, profile: Profile },
    /// Get access to the mouse and read it.
    GrantAccess,
}

/// A [`DeviceTask`] with the views of what it holds.
pub enum TaskView {
    Refresh { load_settings: bool },
    RefreshStatus { snapshot: SnapshotView },
    SaveOnboard { slot: u8, profile: ProfileView },
    GrantAccess,
}

impl View for DeviceTask {
    type V = TaskView;

    open spec fn view(&self) -> TaskView {
        match *self {
            DeviceTask::Refresh { load_settings } => TaskView::Refresh { load_settings },
            DeviceTask::RefreshStatus { snapshot } => TaskView::RefreshStatus { snapshot: snapshot@ },
            DeviceTask::SaveOnboard { slot, profile } => TaskView::SaveOnboard { slot, profile: profile@ },
            DeviceTask::GrantAccess => TaskView::GrantAccess,
        }
    }
}

/// What is known of the mouse while a task is under way: a mouse that is only read again stays as it was.
pub open spec fn state_during(state: StateView, task: TaskView) -> StateView {
    match task {
        TaskView::Refresh { .. } => if state is Ready {
            state
        } else {
            StateView::Loading("Refreshing device"@)
        },
        TaskView::RefreshStatus { .. } => StateView::Loading("Refreshing mouse status"@),
        TaskView::SaveOnboard { .. } => StateView::Loading("Saving to onboard memory"@),
        TaskView::GrantAccess => StateView::Loading("Requesting device access"@),
    }
}

/// Starts a task.
pub fn begin_task(state: DeviceState, task: &DeviceTask) -> (during: DeviceState)
    ensures
        during@ == state_during(state@, task@),
{
    match task {
        DeviceTask::Refresh { .. } => if state.is_ready() {
            state
        } else {
            DeviceState::Loading("Refreshing device".to_owned())
        },
        DeviceTask::RefreshStatus { .. } => DeviceState::Loading("Refreshing mouse status".to_owned()),
        DeviceTask::SaveOnboard { .. } => DeviceState::Loading("Saving to onboard memory".to_owned()),
        DeviceTask::GrantAccess => DeviceState::Loading("Requesting device access".to_owned()),
    }
}

/// How a mouse is brought up to date: in part where it has been read, and as a whole otherwise.
pub open spec fn refresh_of(state: StateView) -> TaskView {
    match state {
        StateView::Ready(snapshot) => TaskView::RefreshStatus { snapshot },
        _ => TaskView::Refresh { load_settings: false },
    }
}

/// Decides how the mouse is brought up to date.
pub fn status_refresh(state: &DeviceState) -> (task: DeviceTask)
    ensures
        task@ == refresh_of(state@),
{
    match state {
        DeviceState::Ready(snapshot) => DeviceTask::RefreshStatus { snapshot: snapshot.clone() },
        _ => DeviceTask::Refresh { load_settings: false },
    }
}

/// What a task came to.
#[derive(Debug)]
pub struct TaskResult {
    pub state: DeviceState,
    pub notice: Option<String>,
    pub load_settings: bool,
}

/// A [`TaskResult`] with its texts as sequences.
pub struct TaskResultView {
    pub state: StateView,
    pub notice: Option<Seq<char>>,
    pub load_settings: bool,
}

impl View for TaskResult {
    type V = TaskResultView;

    open spec fn view(&self) -> TaskResultView {
        TaskResultView {
            state: self.state@,
            notice: text_option(self.notice),
            load_settings: self.load_settings,
        }
    }
}

/// What a task came to, given what its work brought.
pub open spec fn result_of(task: TaskView, result: Outcome<SnapshotView>) -> TaskResultView {
    match result {
        Ok(snapshot) => TaskResultView {
            state: StateView::Ready(snapshot),
            notice: match task {
                TaskView::SaveOnboard { .. } => Some("Saved to onboard memory"@),
                TaskView::GrantAccess => Some("Device access granted"@),
                _ => None,
            },
            load_settings: match task {
                TaskView::Refresh { load_settings } => load_settings,
                TaskView::RefreshStatus { .. } => false,
                _ => true,
            },
        },
        Err(ErrorView::PermissionDenied { .. }) => TaskResultView {
            state: StateView::Permission,
            notice: None,
            load_settings: false,
        },
        Err(error) => TaskResultView {
            state: StateView::Error(crate::error::error_text(error)),
            notice: None,
            load_settings: false,
        },
    }
}

/// Ends a task.
pub fn finish_task(task: &DeviceTask, result: Result<DeviceSnapshot>) -> (finished: TaskResult)
    ensures
        finished@ == result_of(task@, snapshot_outcome(result)),
{
    match result {
        Ok(snapshot) => {
            let notice: Option<String> = match task {
                DeviceTask::SaveOnboard { .. } => Some("Saved to onboard memory".to_owned()),
                DeviceTask::GrantAccess => Some("Device access granted".to_owned()),
                _ => None,
            };
            let load_settings = match task {
                DeviceTask::Refresh { load_settings } => *load_settings,
                DeviceTask::RefreshStatus { .. } => false,
                _ => true,
            };
            TaskResult { state: DeviceState::Ready(snapshot), notice, load_settings }
        },
        Err(error) => {
            let denied = match &error {
                AppError::PermissionDenied { .. } => true,
                _ => false,
            };
            if denied {
                TaskResult { state: DeviceState::Permission, notice: None, load_settings: false }
            } else {
                TaskResult { state: DeviceState::Error(error.message()), notice: None, load_settings: false }
            }
        },
    }
}

fn same_action(a: &ButtonAction, b: &ButtonAction) -> (same: bool)
    ensures
        same == (a@ == b@),
{
    match (a, b) {
        (ButtonAction::PrimaryClick, ButtonAction::PrimaryClick) => true,
        (ButtonAction::SecondaryClick, ButtonAction::SecondaryClick) => true,
        (ButtonAction::MiddleClick, ButtonAction::MiddleClick) => true,
        (ButtonAction::Back, ButtonAction::Back) => true,
        (ButtonAction::Forward, ButtonAction::Forward) => true,
        (ButtonAction::DpiUp, ButtonAction::DpiUp) => true,
        (ButtonAction::DpiDown, ButtonAction::DpiDown) => true,
        (ButtonAction::DpiCycle, ButtonAction::DpiCycle) => true,
        (ButtonAction::DpiShift, ButtonAction::DpiShift) => true,
        (ButtonAction::Disabled, ButtonAction::Disabled) => true,
        (ButtonAction::Keystroke(a), ButtonAction::Keystroke(b)) => same_text(a.as_str(), b.as_str()),
        (ButtonAction::Macro(a), ButtonAction::Macro(b)) => same_text(a.as_str(), b.as_str()),
        (ButtonAction::OnboardRaw(a), ButtonAction::OnboardRaw(b)) => same_text(a.as_str(), b.as_str()),
        _ => false,
    }
}

fn same_bindings(a: &Vec<ButtonBinding>, b: &Vec<ButtonBinding>) -> (same: bool)
    ensures
        same == (binding_views(a@) == binding_views(b@)),
{
    let ghost left = binding_views(a@);
    let ghost right = binding_views(b@);
    if a.len() != b.len() {
        assert(left.len() != right.len());
        return false;
    }
    let mut i: usize = 0;
    while i < a.len()
        invariant
            a.len() == b.len(),
            i <= a.len(),
            left == binding_views(a@),
            right == binding_views(b@),
            forall|k: int| 0 <= k < i ==> left[k] == right[k],
        decreases a.len() - i,
    {
        assert(left[i as int] == a@[i as int]@);
        assert(right[i as int] == b@[i as int]@);
        if a[i].button != b[i].button || !same_action(&a[i].action, &b[i].action) {
            assert(left[i as int] != right[i as int]);
            return false;
        }
        i = i + 1;
    }
    assert(left =~= right);
    true
}

fn same_points(a: &Vec<u16>, b: &Vec<u16>) -> (same: bool)
    ensures
        same == (a@ == b@),
{
    if a.len() != b.len() {
        return false;
    }
    let mut i: usize = 0;
    while i < a.len()
        invariant
            a.len() == b.len(),
            i <= a.len(),
            forall|k: int| 0 <= k < i ==> a@[k] == b@[k],
        decreases a.len() - i,
    {
        if a[i] != b[i] {
            return false;
        }
        i = i + 1;
    }
    assert(a@ =~= b@);
    true
}

fn same_profile(a: &Profile, b: &Profile) -> (same: bool)
    ensures
        same == (a@ == b@),
{
    let same_shift = match (a.shift_dpi, b.shift_dpi) {
        (Some(a), Some(b)) => a == b,
        (None, None) => true,
        _ => false,
    };
    same_text(a.name.as_str(), b.name.as_str()) && same_points(&a.dpi_points, &b.dpi_points) && a.active_dpi
        == b.active_dpi && same_shift && a.report_rate == b.report_rate && same_bindings(&a.bindings, &b.bindings)
}

/// Whether two libraries hold the same.
pub fn same_library(a: &ProfileLibrary, b: &ProfileLibrary) -> (same: bool)
    ensures
        same == (a@ == b@),
{
    let ghost left = a@.profiles;
    let ghost right = b@.profiles;
    if a.selected != b.selected || a.profiles.len() != b.profiles.len() {
        assert(a.profiles@.len() != b.profiles@.len() ==> left.len() != right.len());
        return false;
    }
    let mut i: usize = 0;
    while i < a.profiles.len()
        invariant
            a.profiles.len() == b.profiles.len(),
            i <= a.profiles.len(),
            left == a@.profiles,
            right == b@.profiles,
            forall|k: int| 0 <= k < i ==> left[k] == right[k],
        decreases a.profiles.len() - i,
    {
        assert(left[i as int] == a.profiles@[i as int]@);
        assert(right[i as int] == b.profiles@[i as int]@);
        if !same_profile(&a.profiles[i], &b.profiles[i]) {
            return false;
        }
        i = i + 1;
    }
    assert(left =~= right);
    true
}

/// The profiles that the user edits, and those that are stored.
#[derive(Debug)]
pub struct Editor {
    pub profiles: ProfileLibrary,
    pub saved_profiles: ProfileLibrary,
    pub dirty: bool,
}

/// An [`Editor`] with the views of its libraries.
pub struct EditorView {
    pub profiles: LibraryView,
    pub saved_profiles: LibraryView,
    pub dirty: bool,
}

impl View for Editor {
    type V = EditorView;

    open spec fn view(&self) -> EditorView {
        EditorView { profiles: self.profiles@, saved_profiles: self.saved_profiles@, dirty: self.dirty }
    }
}

/// An editor in which nothing has been changed.
pub open spec fn clean_editor(profiles: LibraryView) -> EditorView {
    EditorView { profiles, saved_profiles: profiles, dirty: false }
}

/// A library with its selected profile replaced.
pub open spec fn with_selected(library: LibraryView, profile: ProfileView) -> LibraryView {
    LibraryView { profiles: library.profiles.update(library.selected as int, profile), ..library }
}

/// A profile with the sensitivity and the rate that a mouse has, as far as they are known.
pub open spec fn following(profile: ProfileView, snapshot: SnapshotView) -> ProfileView {
    let selected = match snapshot.dpi {
        Some(dpi) => profile.with_dpi_selected(dpi),
        None => profile,
    };
    match snapshot.report_rate {
        Some(rate) => ProfileView { report_rate: rate, ..selected },
        None => selected,
    }
}

/// What the editor holds once a mouse has been read, and what the user is told of it: the profiles of the memory where
/// they could be read, and otherwise the selected profile with what the mouse is set to.
pub open spec fn loaded(editor: EditorView, snapshot: SnapshotView) -> (EditorView, Option<Seq<char>>) {
    match snapshot.onboard_profiles {
        Some(profiles) => (
            clean_editor(profiles),
            Some("Loaded "@ + dec(profiles.profiles.len()) + " profiles from onboard memory"@),
        ),
        None => (
            clean_editor(
                with_selected(
                    editor.profiles,
                    following(editor.profiles.profiles[editor.profiles.selected as int], snapshot),
                ),
            ),
            if snapshot.dpi is Some || snapshot.report_rate is Some {
                Some(
                    "Loaded the current "@ + (if snapshot.onboard == Some(true) {
                        "onboard"@
                    } else {
                        "device"@
                    }) + " DPI and report rate"@,
                )
            } else {
                None
            },
        ),
    }
}

/// Whether a profile can be given the sensitivity that a mouse has.
pub open spec fn can_follow(profile: ProfileView, snapshot: SnapshotView) -> bool {
    snapshot.dpi matches Some(dpi) ==> profile.can_select(dpi)
}

/// Whether an editor can take up what was read of a mouse: the memory was read, or the selected profile is there and
/// can be given the sensitivity.
pub open spec fn can_load(editor: EditorView, snapshot: SnapshotView) -> bool {
    snapshot.onboard_profiles is None ==> editor.profiles.well_formed() && can_follow(
        editor.profiles.profiles[editor.profiles.selected as int],
        snapshot,
    )
}

/// What the editor holds once a task has ended, and what the user is told: what was read is taken up where the task
/// says so, and what the task itself has to tell comes first.
pub open spec fn received(editor: EditorView, result: TaskResultView) -> (EditorView, Option<Seq<char>>) {
    match result.state {
        StateView::Ready(snapshot) if result.load_settings => {
            let (after, notice) = loaded(editor, snapshot);
            (
                after,
                if result.notice is Some {
                    result.notice
                } else {
                    notice
                },
            )
        },
        _ => (editor, result.notice),
    }
}

/// What the window starts with: the profiles and the mouse of a snapshot that was kept, or a search for a mouse.
pub open spec fn opening(kept: Option<SnapshotView>) -> (EditorView, StateView) {
    match kept {
        Some(snapshot) => (
            clean_editor(
                match snapshot.onboard_profiles {
                    Some(profiles) => profiles,
                    None => default_library(),
                },
            ),
            StateView::Ready(snapshot),
        ),
        None => (clean_editor(default_library()), StateView::Loading("Looking for a Logitech mouse"@)),
    }
}

/// Opens the window on what was kept.
pub fn open_window(kept: Option<DeviceSnapshot>) -> (opened: (Editor, DeviceState))
    ensures
        (opened.0@, opened.1@) == opening(snapshot_option(kept)),
{
    match kept {
        Some(snapshot) => {
            let profiles = match &snapshot.onboard_profiles {
                Some(profiles) => profiles.clone(),
                None => ProfileLibrary::default(),
            };
            (Editor::new(profiles), DeviceState::Ready(snapshot))
        },
        None => (
            Editor::new(ProfileLibrary::default()),
            DeviceState::Loading("Looking for a Logitech mouse".to_owned()),
        ),
    }
}

fn follow(profile: &mut Profile, snapshot: &DeviceSnapshot)
    requires
        can_follow(old(profile)@, snapshot@),
    ensures
        final(profile)@ == following(old(profile)@, snapshot@),
{
    if let Some(dpi) = snapshot.dpi {
        profile.select_dpi_value(dpi);
    }
    if let Some(rate) = snapshot.report_rate {
        profile.report_rate = rate;
    }
}

impl Editor {
    /// An editor for profiles that are stored.
    pub fn new(profiles: ProfileLibrary) -> (editor: Self)
        ensures
            editor@ == clean_editor(profiles@),
    {
        let saved_profiles = profiles.clone();
        Editor { profiles, saved_profiles, dirty: false }
    }

    /// Says whether what was read of a mouse can be taken up.
    pub fn can_load(&self, snapshot: &DeviceSnapshot) -> (can: bool)
        ensures
            can == can_load(self@, snapshot@),
    {
        if snapshot.onboard_profiles.is_some() {
            return true;
        }
        if self.profiles.selected >= self.profiles.profiles.len() {
            return false;
        }
        let profile = self.profiles.selected();
        match snapshot.dpi {
            Some(dpi) => profile.can_select_value(dpi),
            None => true,
        }
    }

    /// Takes up what a task came to, and says what the user is told of it.
    pub fn receive(&mut self, result: &TaskResult) -> (notice: Option<String>)
        requires
            result@.load_settings ==> (result@.state matches StateView::Ready(snapshot) ==> can_load(
                old(self)@,
                snapshot,
            )),
        ensures
            (final(self)@, text_option(notice)) == received(old(self)@, result@),
    {
        let mut notice: Option<String> = None;
        if result.load_settings {
            if let DeviceState::Ready(snapshot) = &result.state {
                notice = self.load_current_settings(snapshot);
            }
        }
        match &result.notice {
            Some(told) => Some(told.clone()),
            None => notice,
        }
    }

    /// Takes up what was read of a mouse, and says what the user is told of it.
    pub fn load_current_settings(&mut self, snapshot: &DeviceSnapshot) -> (notice: Option<String>)
        requires
            can_load(old(self)@, snapshot@),
        ensures
            (final(self)@, text_option(notice)) == loaded(old(self)@, snapshot@),
    {
        if let Some(profiles) = &snapshot.onboard_profiles {
            self.profiles = profiles.clone();
            self.saved_profiles = profiles.clone();
            self.dirty = false;
            assert(self@.profiles.profiles.len() == self.profiles.profiles@.len());
            return Some(
                join3("Loaded ", decimal(self.profiles.profiles.len() as u64).as_str(), " profiles from onboard memory"),
            );
        }
        let ghost before = self.profiles@;
        follow(self.profiles.selected_mut(), snapshot);
        assert(self.profiles@.profiles =~= with_selected(
            before,
            following(before.profiles[before.selected as int], snapshot@),
        ).profiles);
        self.saved_profiles = self.profiles.clone();
        self.dirty = false;
        if snapshot.dpi.is_some() || snapshot.report_rate.is_some() {
            let onboard = match snapshot.onboard {
                Some(onboard) => onboard,
                None => false,
            };
            let source: &str = if onboard { "onboard" } else { "device" };
            Some(join3("Loaded the current ", source, " DPI and report rate"))
        } else {
            None
        }
    }

    /// Drops what was changed, and says what the user is told of it.
    pub fn reset_changes(&mut self) -> (notice: &'static str)
        ensures
            final(self)@ == clean_editor(old(self)@.saved_profiles),
            notice@ == "Unsaved profile changes were reset"@,
    {
        self.profiles = self.saved_profiles.clone();
        self.dirty = false;
        "Unsaved profile changes were reset"
    }

    /// Selects a profile. Where that is another one, the editor knows again whether anything is changed.
    pub fn choose_profile(&mut self, index: usize)
        ensures
            final(self)@ == (EditorView {
                profiles: LibraryView { selected: index, ..old(self)@.profiles },
                dirty: if index == old(self)@.profiles.selected {
                    old(self)@.dirty
                } else {
                    (LibraryView { selected: index, ..old(self)@.profiles }) != old(self)@.saved_profiles
                },
                ..old(self)@
            }),
    {
        let previous: usize = self.profiles.selected;
        self.profiles.selected = index;
        if previous != index {
            self.dirty = !same_library(&self.profiles, &self.saved_profiles);
        }
    }

    /// The task that stores the selected profile: none while another is under way or the mouse is not ready.
    pub fn save_task(&self, busy: bool, state: &DeviceState) -> (task: Option<DeviceTask>)
        requires
            self@.profiles.well_formed(),
            self@.profiles.selected % 256 < 255,
        ensures
            match task {
                Some(task) => !busy && state@ is Ready && task@ == (TaskView::SaveOnboard {
                    slot: (self@.profiles.selected % 256 + 1) as u8,
                    profile: self@.profiles.profiles[self@.profiles.selected as int],
                }),
                None => busy || !(state@ is Ready),
            },
            task matches Some(task) ==> (task@ matches TaskView::SaveOnboard { slot, .. } && slot == slot_to_save(
                self@.profiles,
            )),
    {
        if busy || !state.is_ready() {
            return None;
        }
        let slot: u8 = (self.profiles.selected % 256) as u8 + 1;
        Some(DeviceTask::SaveOnboard { slot, profile: self.profiles.selected().clone() })
    }

    /// Gives the selected profile the sensitivities and the rate of a new one.
    pub fn restore_sensitivity(&mut self)
        requires
            old(self)@.profiles.well_formed(),
        ensures
            final(self)@ == (EditorView {
                profiles: with_selected(
                    old(self)@.profiles,
                    with_default_sensitivity(old(self)@.profiles.profiles[old(self)@.profiles.selected as int]),
                ),
                dirty: true,
                ..old(self)@
            }),
    {
        let ghost before = self.profiles@;
        restore_defaults(self.profiles.selected_mut());
        assert(self.profiles@.profiles =~= with_selected(
            before,
            with_default_sensitivity(before.profiles[before.selected as int]),
        ).profiles);
        self.dirty = true;
    }
}

/// A profile with the sensitivities and the rate of a new one.
pub open spec fn with_default_sensitivity(profile: ProfileView) -> ProfileView {
    ProfileView {
        dpi_points: default_profile().dpi_points,
        active_dpi: default_profile().active_dpi,
        shift_dpi: default_profile().shift_dpi,
        report_rate: default_profile().report_rate,
        ..profile
    }
}

fn restore_defaults(profile: &mut Profile)
    ensures
        final(profile)@ == with_default_sensitivity(old(profile)@),
{
    let defaults = Profile::default();
    profile.dpi_points = defaults.dpi_points;
    profile.active_dpi = defaults.active_dpi;
    profile.shift_dpi = defaults.shift_dpi;
    profile.report_rate = defaults.report_rate;
}

/// Makes a point the shift point of a profile, or takes that away from it where it is.
pub fn toggle_shift(profile: &mut Profile, index: usize)
    ensures
        final(profile)@ == (ProfileView {
            shift_dpi: if old(profile)@.shift_dpi == Some(index) {
                None
            } else {
                Some(index)
            },
            ..old(profile)@
        }),
{
    let is_shift = match profile.shift_dpi {
        Some(shift) => shift == index,
        None => false,
    };
    profile.shift_dpi = if is_shift { None } else { Some(index) };
}

/// The rates that the user can choose from: those of the mouse where they are known, and otherwise the usual ones.
pub open spec fn offered_rates(state: StateView) -> Seq<u32> {
    match state {
        StateView::Ready(snapshot) if snapshot.report_rates.len() > 0 => snapshot.report_rates,
        _ => crate::profile::REPORT_RATES@,
    }
}

/// The rates that the user can choose from.
pub fn available_rates(state: &DeviceState) -> (rates: Vec<u32>)
    ensures
        rates@ == offered_rates(state@),
{
    if let DeviceState::Ready(snapshot) = state {
        if snapshot.report_rates.len() > 0 {
            return snapshot.clone().report_rates;
        }
    }
    let mut rates: Vec<u32> = Vec::new();
    let mut i: usize = 0;
    while i < crate::profile::REPORT_RATES.len()
        invariant
            i <= crate::profile::REPORT_RATES@.len(),
            rates@ =~= crate::profile::REPORT_RATES@.take(i as int),
        decreases crate::profile::REPORT_RATES@.len() - i,
    {
        rates.push(crate::profile::REPORT_RATES[i]);
        i = i + 1;
    }
    assert(rates@ =~= crate::profile::REPORT_RATES@);
    rates
}

/// The range of sensitivities that the user can choose from: the one of the mouse where it is known.
pub open spec fn offered_range(state: StateView) -> (u16, u16, u16) {
    match state {
        StateView::Ready(snapshot) => (snapshot.dpi_min, snapshot.dpi_max, snapshot.dpi_step),
        _ => (crate::profile::MIN_DPI, crate::profile::MAX_DPI, 50),
    }
}

/// The range of sensitivities that the user can choose from.
pub fn available_range(state: &DeviceState) -> (range: (u16, u16, u16))
    ensures
        range == offered_range(state@),
{
    match state {
        DeviceState::Ready(snapshot) => (snapshot.dpi_min, snapshot.dpi_max, snapshot.dpi_step),
        _ => (crate::profile::MIN_DPI, crate::profile::MAX_DPI, 50),
    }
}

/// A profile that is in order can be given any sensitivity, and stays in order.
pub proof fn orderly_profile_can_follow(profile: ProfileView, snapshot: SnapshotView)
    requires
        profile.well_formed(),
    ensures
        can_follow(profile, snapshot),
        following(profile, snapshot).well_formed(),
{
    if let Some(dpi) = snapshot.dpi {
        crate::profile::selecting_a_value_makes_it_active(profile, dpi);
    }
}

/// The slot that the selected profile of a library is saved to. Slots are counted from one.
pub open spec fn slot_to_save(library: LibraryView) -> u8 {
    (library.selected % 256 + 1) as u8
}

/// Nothing is left to save after the editor took up what a mouse holds, and after the changes were dropped.
pub proof fn loading_leaves_nothing_to_save(editor: EditorView, snapshot: SnapshotView)
    ensures
        !loaded(editor, snapshot).0.dirty,
        loaded(editor, snapshot).0.profiles == loaded(editor, snapshot).0.saved_profiles,
{
}

/// A task that only brings a mouse up to date never changes what the user edits, and neither does one that fails; one
/// that stores a profile, or that gets access, shows what the mouse then holds.
pub proof fn only_full_reads_load_settings(task: TaskView, result: Outcome<SnapshotView>, editor: EditorView)
    ensures
        task is RefreshStatus || result is Err ==> received(editor, result_of(task, result)).0 == editor,
        result is Err ==> !(result_of(task, result).state is Ready),
        task is SaveOnboard || task is GrantAccess ==> (result matches Ok(snapshot) ==> received(
            editor,
            result_of(task, result),
        ).0 == loaded(editor, snapshot).0),
{
}

}
