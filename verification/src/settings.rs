//! The settings of the desktop application.

use vstd::prelude::*;

verus! {

/// The form in which settings are kept.
pub const SETTINGS_SCHEMA_VERSION: u8 = 1;

/// How many seconds may lie between two reads of the device.
pub const REFRESH_INTERVALS: [u64; 4] = [30, 60, 300, 900];

/// The settings of the desktop application.
#[derive(Debug, Clone, Copy, PartialEq, Eq, Structural)]
pub struct AppSettings {
    pub schema_version: u8,
    pub launch_on_startup: bool,
    pub start_in_tray: bool,
    pub close_to_tray: bool,
    pub minimize_to_tray: bool,
    pub auto_refresh: bool,
    pub refresh_interval_seconds: u64,
}

/// The settings of a user who has changed nothing.
pub open spec fn default_settings() -> AppSettings {
    AppSettings {
        schema_version: SETTINGS_SCHEMA_VERSION,
        launch_on_startup: false,
        start_in_tray: true,
        close_to_tray: false,
        minimize_to_tray: false,
        auto_refresh: true,
        refresh_interval_seconds: 60,
    }
}

impl Default for AppSettings {
    fn default() -> (settings: Self)
        ensures
            settings == default_settings(),
    {
        AppSettings {
            schema_version: SETTINGS_SCHEMA_VERSION,
            launch_on_startup: false,
            start_in_tray: true,
            close_to_tray: false,
            minimize_to_tray: false,
            auto_refresh: true,
            refresh_interval_seconds: 60,
        }
    }
}

/// Whether so many seconds are one of the intervals.
pub open spec fn is_interval(seconds: u64) -> bool {
    REFRESH_INTERVALS@.contains(seconds)
}

/// Whether so many seconds are one of the intervals.
pub fn is_refresh_interval(seconds: u64) -> (known: bool)
    ensures
        known == is_interval(seconds),
{
    let mut i: usize = 0;
    while i < REFRESH_INTERVALS.len()
        invariant
            i <= REFRESH_INTERVALS@.len(),
            forall|k: int| 0 <= k < i ==> REFRESH_INTERVALS@[k] != seconds,
        decreases REFRESH_INTERVALS@.len() - i,
    {
        if REFRESH_INTERVALS[i] == seconds {
            return true;
        }
        i = i + 1;
    }
    false
}

impl AppSettings {
    /// Whether the settings are in the form they are kept in, with an interval that there is.
    pub open spec fn well_formed(self) -> bool {
        self.schema_version == SETTINGS_SCHEMA_VERSION && is_interval(self.refresh_interval_seconds)
    }

    /// The settings with an interval that there is.
    pub open spec fn with_usable_interval(self) -> AppSettings {
        if is_interval(self.refresh_interval_seconds) {
            self
        } else {
            AppSettings { refresh_interval_seconds: default_settings().refresh_interval_seconds, ..self }
        }
    }
}

fn with_known_interval(settings: AppSettings) -> (usable: AppSettings)
    ensures
        usable == settings.with_usable_interval(),
{
    if is_refresh_interval(settings.refresh_interval_seconds) {
        settings
    } else {
        AppSettings { refresh_interval_seconds: AppSettings::default().refresh_interval_seconds, ..settings }
    }
}

/// The settings to start with: those that were kept where their form is known, and whether the application starts at
/// login by what the desktop says of it.
pub open spec fn adopted(stored: Option<AppSettings>, starts_at_login: bool) -> AppSettings {
    let settings = match stored {
        Some(settings) if settings.schema_version == SETTINGS_SCHEMA_VERSION => settings,
        _ => default_settings(),
    };
    AppSettings { launch_on_startup: starts_at_login, ..settings.with_usable_interval() }
}

/// Takes up settings that were kept.
pub fn adopt_settings(stored: Option<AppSettings>, starts_at_login: bool) -> (settings: AppSettings)
    ensures
        settings == adopted(stored, starts_at_login),
{
    let settings = match stored {
        Some(settings) => if settings.schema_version == SETTINGS_SCHEMA_VERSION {
            settings
        } else {
            AppSettings::default()
        },
        None => AppSettings::default(),
    };
    AppSettings { launch_on_startup: starts_at_login, ..with_known_interval(settings) }
}

/// New settings, and whether the desktop has to be told of them.
#[derive(Debug, Clone, Copy, PartialEq, Eq, Structural)]
pub struct SettingsPlan {
    pub settings: AppSettings,
    pub configure_autostart: bool,
}

/// What new settings come to after those in force.
pub open spec fn planned(previous: AppSettings, updated: AppSettings) -> SettingsPlan {
    SettingsPlan {
        settings: (AppSettings { schema_version: SETTINGS_SCHEMA_VERSION, ..updated }).with_usable_interval(),
        configure_autostart: updated.launch_on_startup != previous.launch_on_startup || (updated.launch_on_startup
            && updated.start_in_tray != previous.start_in_tray),
    }
}

/// Takes new settings in hand.
pub fn plan_settings(previous: &AppSettings, updated: AppSettings) -> (plan: SettingsPlan)
    ensures
        plan == planned(*previous, updated),
{
    let settings = with_known_interval(AppSettings { schema_version: SETTINGS_SCHEMA_VERSION, ..updated });
    SettingsPlan {
        settings,
        configure_autostart: updated.launch_on_startup != previous.launch_on_startup || (updated.launch_on_startup
            && updated.start_in_tray != previous.start_in_tray),
    }
}

/// The settings in force after the desktop was told: where that failed, what concerns the login stays as it was.
pub open spec fn settled(plan: SettingsPlan, previous: AppSettings, autostart_failed: bool) -> AppSettings {
    if plan.configure_autostart && autostart_failed {
        AppSettings {
            launch_on_startup: previous.launch_on_startup,
            start_in_tray: previous.start_in_tray,
            ..plan.settings
        }
    } else {
        plan.settings
    }
}

/// Puts settings in force.
pub fn settle_settings(plan: SettingsPlan, previous: &AppSettings, autostart_failed: bool) -> (settings: AppSettings)
    ensures
        settings == settled(plan, *previous, autostart_failed),
{
    if plan.configure_autostart && autostart_failed {
        AppSettings {
            launch_on_startup: previous.launch_on_startup,
            start_in_tray: previous.start_in_tray,
            ..plan.settings
        }
    } else {
        plan.settings
    }
}

/// What the user is told once settings were kept, or could not be. Where something is shown already, success is not
/// worth a word.
pub open spec fn kept_notice(notice_shown: bool, failure: Option<Seq<char>>) -> Option<Seq<char>> {
    match failure {
        Some(message) => Some(message),
        None => if notice_shown {
            None
        } else {
            Some("Application settings saved"@)
        },
    }
}

/// Says what the user is told once settings were kept, or could not be.
pub fn settings_notice(notice_shown: bool, failure: Option<String>) -> (notice: Option<String>)
    ensures
        crate::text::text_option(notice) == kept_notice(notice_shown, crate::text::text_option(failure)),
{
    match failure {
        Some(message) => Some(message),
        None => if notice_shown {
            None
        } else {
            Some("Application settings saved".to_owned())
        },
    }
}

/// What an interval is called.
pub open spec fn interval_label(seconds: u64) -> Seq<char> {
    if seconds == 30 {
        "Every 30 seconds"@
    } else if seconds == 300 {
        "Every 5 minutes"@
    } else if seconds == 900 {
        "Every 15 minutes"@
    } else {
        "Every minute"@
    }
}

/// What an interval is called.
pub fn refresh_interval_label(seconds: u64) -> (label: &'static str)
    ensures
        label@ == interval_label(seconds),
{
    if seconds == 30 {
        "Every 30 seconds"
    } else if seconds == 300 {
        "Every 5 minutes"
    } else if seconds == 900 {
        "Every 15 minutes"
    } else {
        "Every minute"
    }
}

proof fn a_minute_is_an_interval()
    ensures
        is_interval(60),
{
    assert(REFRESH_INTERVALS@[1] == 60);
}

/// Settings are always in order: those of a user who has changed nothing, those taken up, and those put in force.
pub proof fn settings_stay_well_formed(
    stored: Option<AppSettings>,
    starts_at_login: bool,
    previous: AppSettings,
    updated: AppSettings,
    autostart_failed: bool,
)
    ensures
        default_settings().well_formed(),
        adopted(stored, starts_at_login).well_formed(),
        settled(planned(previous, updated), previous, autostart_failed).well_formed(),
{
    a_minute_is_an_interval();
}

/// Settings that were kept are the ones taken up again, as long as the desktop agrees on the login.
pub proof fn kept_settings_are_taken_up(settings: AppSettings)
    requires
        settings.well_formed(),
    ensures
        adopted(Some(settings), settings.launch_on_startup) == settings,
{
}

/// Where the desktop could not be told, nothing changes for the login.
pub proof fn failed_autostart_changes_no_login(previous: AppSettings, updated: AppSettings)
    requires
        planned(previous, updated).configure_autostart,
    ensures
        settled(planned(previous, updated), previous, true).launch_on_startup == previous.launch_on_startup,
        settled(planned(previous, updated), previous, true).start_in_tray == previous.start_in_tray,
{
}

}
