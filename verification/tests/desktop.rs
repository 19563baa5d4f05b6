use open_mouse_memory::autostart::{
    autostart_contents_managed, autostart_entry, desktop_exec_path, plan_autostart, preferred_autostart_executable,
    AutostartChange, AUTOSTART_MARKER,
};
use open_mouse_memory::display::{
    action_groups, battery_tile, dpi_tile, format_dpi, format_rate, friendly_status, matching_groups, memory_label,
    profile_display_name, rate_tile, step_dpi, suggested_dpi,
};
use open_mouse_memory::error::AppError;
use open_mouse_memory::paths::{
    app_settings_path, autostart_path, cache_home, replacement_path, runtime_cache_path, temporary_path,
};
use open_mouse_memory::profile::{ButtonAction, Profile, ProfileLibrary, REPORT_RATES};
use open_mouse_memory::settings::{
    adopt_settings, plan_settings, refresh_interval_label, settings_notice, settle_settings, AppSettings,
    REFRESH_INTERVALS,
};
use open_mouse_memory::snapshot::{restore_snapshot, snapshot_to_keep, valid_cached_snapshot, DeviceSnapshot};
use open_mouse_memory::state::{
    available_range, available_rates, begin_task, finish_task, loading_heading, open_window, same_library, status_refresh,
    toggle_shift, DeviceState, DeviceTask, Editor,
};
use open_mouse_memory::tray::{argb_pixels, MouseTray};
use open_mouse_memory::window::{
    close_hides, minimize_hides, notice_time_left, refresh_time, should_use_x11_backend, startup_hidden_frames,
    startup_notice, tray_status, window_steps, RefreshTime, WindowFacts,
};

fn cached_snapshot() -> DeviceSnapshot {
    DeviceSnapshot {
        name: "PRO X 2".to_owned(),
        battery: None,
        battery_status: None,
        dpi: Some(800),
        dpi_min: 100,
        dpi_max: 44_000,
        dpi_step: 50,
        report_rate: Some(4_000),
        report_rates: REPORT_RATES.to_vec(),
        onboard: Some(true),
        onboard_profiles: Some(ProfileLibrary::default()),
    }
}

#[test]
fn validates_safe_runtime_cache() {
    let snapshot = cached_snapshot();
    assert!(valid_cached_snapshot(&snapshot));
    let mut invalid = snapshot;
    invalid.onboard_profiles.as_mut().unwrap().selected = 10;
    assert!(!valid_cached_snapshot(&invalid));
}

#[test]
fn rejects_unsafe_runtime_caches() {
    let mut nameless = cached_snapshot();
    nameless.name = "  ".to_owned();
    assert!(!valid_cached_snapshot(&nameless));
    let mut empty_range = cached_snapshot();
    empty_range.dpi_min = 50_000;
    assert!(!valid_cached_snapshot(&empty_range));
    let mut no_step = cached_snapshot();
    no_step.dpi_step = 0;
    assert!(!valid_cached_snapshot(&no_step));
    let mut no_profiles = cached_snapshot();
    no_profiles.onboard_profiles = None;
    assert!(!valid_cached_snapshot(&no_profiles));
    let mut odd_rate = cached_snapshot();
    odd_rate.onboard_profiles.as_mut().unwrap().selected_mut().report_rate = 333;
    assert!(!valid_cached_snapshot(&odd_rate));
    let mut no_shift = cached_snapshot();
    no_shift.onboard_profiles.as_mut().unwrap().selected_mut().shift_dpi = Some(9);
    assert!(!valid_cached_snapshot(&no_shift));
}

#[test]
fn kept_snapshots_are_shown_again() {
    let mut snapshot = cached_snapshot();
    snapshot.battery = Some(80);
    snapshot.battery_status = Some("discharging".to_owned());
    let kept = snapshot_to_keep(&snapshot).unwrap();
    assert_eq!(kept.battery, None);
    assert_eq!(kept.battery_status, None);
    assert_eq!(kept.dpi, Some(800));
    let shown = restore_snapshot(1, &kept).unwrap();
    assert_eq!(shown.name, "PRO X 2");
    assert_eq!(shown.report_rates, REPORT_RATES);
    assert!(restore_snapshot(2, &kept).is_none());
    snapshot.dpi_min = 0;
    assert!(snapshot_to_keep(&snapshot).is_none());
}

#[test]
fn opacity_comes_first_in_tray_pixels() {
    assert_eq!(argb_pixels(&[1, 2, 3, 255, 4, 5, 6, 0]), [255, 1, 2, 3, 0, 4, 5, 6]);
    assert_eq!(argb_pixels(&[1, 2, 3, 4, 5]), [4, 1, 2, 3]);
    assert!(argb_pixels(&[]).is_empty());
}

#[test]
fn tray_summary_only_shows_current_values() {
    let mut tray = MouseTray::new();
    tray.dpi = Some(800);
    tray.polling_rate = Some(4_000);
    assert_eq!(tray.current_settings(), "800 DPI · 4000 Hz");
    tray.battery = Some(96);
    assert_eq!(tray.current_settings(), "800 DPI · 4000 Hz · 96% battery");
}

#[test]
fn tray_follows_the_device() {
    let tray = MouseTray::of_device(&DeviceState::Permission, false);
    assert!(!tray.connected);
    assert!(!tray.busy);
    assert_eq!(tray.title(), "Logitech mouse");
    assert_eq!(tray.current_settings(), "Refreshing mouse");
    assert!(tray.needs_attention());
    let mut snapshot = cached_snapshot();
    snapshot.battery = Some(21);
    let tray = MouseTray::of_device(&DeviceState::Ready(snapshot), true);
    assert!(tray.busy);
    assert!(!tray.needs_attention());
    assert_eq!(tray.title(), "PRO X 2 · 21% battery");
    assert_eq!(tray.menu_line(), "Current · 800 DPI · 4000 Hz · 21% battery");
    let low = MouseTray { battery: Some(20), ..tray };
    assert!(low.needs_attention());
}

#[test]
fn application_defaults_keep_existing_window_behavior() {
    let settings = AppSettings::default();
    assert!(!settings.launch_on_startup);
    assert!(settings.start_in_tray);
    assert!(!settings.close_to_tray);
    assert!(!settings.minimize_to_tray);
    assert!(settings.auto_refresh);
    assert!(REFRESH_INTERVALS.contains(&settings.refresh_interval_seconds));
}

#[test]
fn stored_settings_are_taken_up() {
    let stored = AppSettings { close_to_tray: true, refresh_interval_seconds: 300, ..AppSettings::default() };
    assert_eq!(adopt_settings(Some(stored), false), stored);
    assert!(adopt_settings(Some(stored), true).launch_on_startup);
    let odd = AppSettings { refresh_interval_seconds: 7, ..stored };
    assert_eq!(adopt_settings(Some(odd), false).refresh_interval_seconds, 60);
    let foreign = AppSettings { schema_version: 9, ..stored };
    assert_eq!(adopt_settings(Some(foreign), false), AppSettings::default());
    assert_eq!(adopt_settings(None, false), AppSettings::default());
}

#[test]
fn new_settings_reach_the_desktop_where_they_must() {
    let previous = AppSettings::default();
    let launched = AppSettings { launch_on_startup: true, schema_version: 0, ..previous };
    let plan = plan_settings(&previous, launched);
    assert!(plan.configure_autostart);
    assert_eq!(plan.settings.schema_version, 1);
    assert!(settle_settings(plan, &previous, false).launch_on_startup);
    assert!(!settle_settings(plan, &previous, true).launch_on_startup);
    let hidden = AppSettings { start_in_tray: false, ..previous };
    assert!(!plan_settings(&previous, hidden).configure_autostart);
    let running = AppSettings { launch_on_startup: true, ..previous };
    assert!(plan_settings(&running, AppSettings { start_in_tray: false, ..running }).configure_autostart);
    assert_eq!(settings_notice(false, None).as_deref(), Some("Application settings saved"));
    assert_eq!(settings_notice(true, None), None);
    assert_eq!(settings_notice(true, Some("no".to_owned())).as_deref(), Some("no"));
    assert_eq!(refresh_interval_label(30), "Every 30 seconds");
    assert_eq!(refresh_interval_label(60), "Every minute");
    assert_eq!(refresh_interval_label(300), "Every 5 minutes");
    assert_eq!(refresh_interval_label(900), "Every 15 minutes");
    assert_eq!(refresh_interval_label(1), "Every minute");
}

#[test]
fn builds_owned_tray_autostart_entry() {
    let entry = autostart_entry("/opt/Open Mouse Memory/open-mouse-memory-gui".as_bytes(), true).unwrap();
    assert!(entry.contains("Exec=\"/opt/Open Mouse Memory/open-mouse-memory-gui\" --tray"));
    assert!(entry.contains(AUTOSTART_MARKER));
    assert!(!entry.contains("OnlyShowIn="));
}

#[test]
fn autostart_entry_is_written_in_full() {
    let entry = autostart_entry("/bin/gui".as_bytes(), false).unwrap();
    assert_eq!(
        entry,
        "[Desktop Entry]\nType=Application\nVersion=1.0\nName=Open Mouse Memory Tray\nComment=Keep Logitech mouse status available\nExec=\"/bin/gui\"\nIcon=open-mouse-memory\nTerminal=false\nCategories=Settings;HardwareSettings;\nX-GNOME-Autostart-enabled=true\nX-OpenMouseMemory-Autostart=true\n"
    );
    assert_eq!(plan_autostart(false, Some(&entry)), Ok(AutostartChange::Remove));
}

#[test]
fn recognizes_managed_autostart_entries() {
    assert!(autostart_contents_managed(AUTOSTART_MARKER));
    assert!(!autostart_contents_managed("X-GNOME-Autostart-enabled=true"));
}

#[test]
fn rejects_line_breaks_in_autostart_executable() {
    assert!(desktop_exec_path("/tmp/logi\nmemory".as_bytes()).is_err());
}

#[test]
fn executables_are_quoted() {
    assert_eq!(desktop_exec_path("/a\\b\"c`d$e".as_bytes()).unwrap(), "\"/a\\\\b\\\"c\\`d\\$e\"");
    assert_eq!(
        desktop_exec_path(&[0x2f, 0xff]).unwrap_err(),
        "the executable path is not valid UTF-8"
    );
    assert_eq!(
        desktop_exec_path("/tmp/a\rb".as_bytes()).unwrap_err(),
        "the executable path contains an invalid line break"
    );
    assert_eq!(desktop_exec_path("/tmp/ä".as_bytes()).unwrap(), "\"/tmp/ä\"");
}

#[test]
fn autostart_prefers_the_appimage_path() {
    let current = "/tmp/.mount_open-mouse-memory/usr/bin/open-mouse-memory-gui";
    let appimage = "/opt/Open-Mouse-Memory.AppImage";
    assert_eq!(
        preferred_autostart_executable(Some(appimage.as_bytes()), current.as_bytes()),
        "/opt/Open-Mouse-Memory.AppImage".as_bytes()
    );
    assert_eq!(preferred_autostart_executable(Some("image".as_bytes()), current.as_bytes()), current.as_bytes());
    assert_eq!(preferred_autostart_executable(Some(&[]), current.as_bytes()), current.as_bytes());
    assert_eq!(preferred_autostart_executable(None, current.as_bytes()), current.as_bytes());
}

#[test]
fn foreign_autostart_entries_are_left_alone() {
    let foreign = Some("[Desktop Entry]\n");
    let message = "the existing autostart entry is not managed by Open Mouse Memory".to_owned();
    assert_eq!(plan_autostart(true, foreign), Err(message.clone()));
    assert_eq!(plan_autostart(false, foreign), Err(message));
    assert_eq!(plan_autostart(true, None), Ok(AutostartChange::Write));
    assert_eq!(plan_autostart(false, None), Ok(AutostartChange::Keep));
    assert_eq!(plan_autostart(true, Some(AUTOSTART_MARKER)), Ok(AutostartChange::Write));
}

#[test]
fn selects_x11_when_it_is_available() {
    assert!(should_use_x11_backend(Some(":0".as_bytes()), None));
    assert!(!should_use_x11_backend(Some(":0".as_bytes()), Some("wayland".as_bytes())));
    assert!(!should_use_x11_backend(None, Some("x11".as_bytes())));
    assert!(should_use_x11_backend(Some(":0".as_bytes()), Some("X11".as_bytes())));
    assert!(!should_use_x11_backend(Some(":0".as_bytes()), Some("WayLand".as_bytes())));
    assert!(!should_use_x11_backend(Some(&[]), None));
}

#[test]
fn files_are_kept_in_user_directories() {
    let home = Some("/home/me".as_bytes());
    assert_eq!(
        runtime_cache_path(None, home).unwrap(),
        "/home/me/.cache/open-mouse-memory/device.json".as_bytes()
    );
    assert_eq!(
        app_settings_path(Some("/cfg/".as_bytes()), home).unwrap(),
        "/cfg/open-mouse-memory/settings.json".as_bytes()
    );
    assert_eq!(
        autostart_path(Some("relative".as_bytes()), home).unwrap(),
        "/home/me/.config/autostart/open-mouse-memory.desktop".as_bytes()
    );
    assert_eq!(cache_home(None, Some(&[])).unwrap(), ".cache".as_bytes());
    assert!(cache_home(Some(&[]), None).is_none());
    assert_eq!(temporary_path("a.json".as_bytes(), 7), "a.json.7.tmp".as_bytes());
    assert_eq!(replacement_path("/x/settings.json".as_bytes(), 7), "/x/settings.json.tmp-7".as_bytes());
}

fn facts() -> WindowFacts {
    WindowFacts {
        hiding_supported: true,
        tray_present: true,
        tray_closed: false,
        hidden_frames: 0,
        close_requested: false,
        force_quit: false,
        minimized: false,
    }
}

#[test]
fn window_hides_only_to_a_tray() {
    let settings = AppSettings { close_to_tray: true, minimize_to_tray: true, ..AppSettings::default() };
    let closing = WindowFacts { close_requested: true, minimized: true, ..facts() };
    let steps = window_steps(&closing, &settings);
    assert!(steps.hide_on_close && steps.hide_on_minimize && !steps.tray_lost);
    let quitting = WindowFacts { force_quit: true, ..closing };
    assert!(!window_steps(&quitting, &settings).hide_on_close);
    let alone = WindowFacts { tray_present: false, ..closing };
    let steps = window_steps(&alone, &settings);
    assert!(!steps.hide_on_close && !steps.hide_on_minimize && !steps.tray_lost);
    let starting = WindowFacts { hidden_frames: 3, ..facts() };
    let steps = window_steps(&starting, &settings);
    assert!(steps.hide_at_start);
    assert_eq!(steps.hidden_frames, 2);
    let losing = WindowFacts { tray_closed: true, ..starting };
    let steps = window_steps(&losing, &settings);
    assert!(steps.tray_lost && !steps.hide_at_start);
    assert_eq!(steps.hidden_frames, 0);
    assert!(close_hides(&settings, true) && !close_hides(&AppSettings::default(), true));
    assert!(minimize_hides(&settings, true) && !minimize_hides(&settings, false));
}

#[test]
fn hidden_start_is_announced_where_it_fails() {
    assert_eq!(startup_hidden_frames(true, true, true), 3);
    assert_eq!(startup_hidden_frames(true, false, true), 0);
    assert_eq!(startup_notice(true, true, false).as_deref(), Some("Tray-only mode needs X11 or XWayland"));
    assert_eq!(
        startup_notice(true, false, false).as_deref(),
        Some("Tray-only mode needs a compatible system tray")
    );
    assert_eq!(startup_notice(true, true, true), None);
    assert_eq!(startup_notice(false, false, false), None);
    assert_eq!(tray_status(true, true), "Tray service available");
    assert_eq!(tray_status(true, false), "Window hiding needs X11 or XWayland");
    assert_eq!(tray_status(false, true), "No compatible tray host detected");
}

#[test]
fn clock_decides_when_the_device_is_read() {
    let settings = AppSettings { refresh_interval_seconds: 30, ..AppSettings::default() };
    assert_eq!(refresh_time(&settings, false, 30_000_000_000), RefreshTime::Now);
    assert_eq!(
        refresh_time(&settings, false, 29_000_000_000),
        RefreshTime::Later { nanoseconds: 1_000_000_000 }
    );
    assert_eq!(refresh_time(&settings, true, 60_000_000_000), RefreshTime::Never);
    let manual = AppSettings { auto_refresh: false, ..settings };
    assert_eq!(refresh_time(&manual, false, 60_000_000_000), RefreshTime::Never);
    assert_eq!(notice_time_left(7_999_999_999), Some(1));
    assert_eq!(notice_time_left(8_000_000_000), None);
}

#[test]
fn numbers_and_names_are_shown_for_people() {
    assert_eq!(format_dpi(800), "800");
    assert_eq!(format_dpi(1_005), "1,005");
    assert_eq!(format_dpi(25_600), "25,600");
    assert_eq!(format_rate(999), "999 Hz");
    assert_eq!(format_rate(8_000), "8,000 Hz");
    assert_eq!(format_rate(1_234_567), "1234,567 Hz");
    assert_eq!(dpi_tile(Some(1_600)), "1,600 DPI");
    assert_eq!(dpi_tile(None), "-- DPI");
    assert_eq!(rate_tile(None), "-- Hz");
    assert_eq!(rate_tile(Some(1_000)), "1,000 Hz");
    assert_eq!(battery_tile(Some(7)), "7%");
    assert_eq!(battery_tile(None), "--");
    assert_eq!(memory_label(Some(true)), "Onboard");
    assert_eq!(memory_label(Some(false)), "Ready on save");
    assert_eq!(memory_label(None), "Unknown");
    assert_eq!(profile_display_name("Onboard Slot 1"), "Onboard Memory");
    assert_eq!(profile_display_name("Onboard Slot 3"), "Onboard Memory 3");
    assert_eq!(profile_display_name("Gaming"), "Gaming");
    assert_eq!(friendly_status("recharging"), "Charging");
    assert_eq!(friendly_status("thermal-error"), "Temperature warning");
    assert_eq!(friendly_status("unknown"), "Status unavailable");
}

#[test]
fn proposed_points_stay_in_range() {
    let profile = Profile { dpi_points: vec![800, 3_200, 400], ..Profile::default() };
    assert_eq!(suggested_dpi(&profile, 25_600, 50), 3_600);
    assert_eq!(suggested_dpi(&profile, 3_300, 50), 3_300);
    assert_eq!(suggested_dpi(&profile, 25_600, 100), 4_000);
    let none = Profile { dpi_points: vec![], ..Profile::default() };
    assert_eq!(suggested_dpi(&none, 25_600, 1), 1_200);
    let high = Profile { dpi_points: vec![65_000], ..Profile::default() };
    assert_eq!(suggested_dpi(&high, u16::MAX, 8_191), u16::MAX);
    assert_eq!(step_dpi(849, 100, 25_600, 50), 800);
    assert_eq!(step_dpi(49, 100, 25_600, 50), 100);
    assert_eq!(step_dpi(30_000, 100, 25_600, 0), 25_600);
}

#[test]
fn actions_are_found_by_their_label() {
    let groups = action_groups();
    assert_eq!(groups.len(), 3);
    assert_eq!(groups[0].actions.len(), 5);
    assert_eq!(matching_groups("").len(), 3);
    let found = matching_groups("DPI c");
    assert_eq!(found.len(), 1);
    assert_eq!(found[0].name, "DPI");
    assert_eq!(found[0].actions, [("DPI cycle", ButtonAction::DpiCycle)]);
    assert!(matching_groups("disable button").is_empty());
    assert_eq!(matching_groups("disabled")[0].name, "SYSTEM");
}

#[test]
fn window_title_names_the_mouse() {
    let mut snapshot = cached_snapshot();
    assert_eq!(
        DeviceState::Ready(snapshot.clone()).window_title(),
        "OPEN MOUSE MEMORY  ·  PRO X2  -  BATTERY --"
    );
    snapshot.name = "G502".to_owned();
    snapshot.battery = Some(55);
    assert_eq!(
        DeviceState::Ready(snapshot).window_title(),
        "OPEN MOUSE MEMORY  ·  G502  -  55% BATTERY"
    );
    assert_eq!(
        DeviceState::Loading("Refreshing device".to_owned()).window_title(),
        "OPEN MOUSE MEMORY  ·  REFRESHING DEVICE"
    );
    assert_eq!(DeviceState::Permission.window_title(), "OPEN MOUSE MEMORY  ·  DEVICE ACCESS REQUIRED");
    assert_eq!(DeviceState::Error("x".to_owned()).window_title(), "OPEN MOUSE MEMORY  ·  NO DEVICE");
    assert_eq!(DeviceState::Permission.pending_label().as_deref(), Some("Device access required"));
    assert_eq!(loading_heading("Saving to onboard memory"), "Saving to onboard memory");
    assert_eq!(loading_heading("Refreshing device"), "Connecting to your mouse");
}

#[test]
fn tasks_change_what_is_shown() {
    let refresh = DeviceTask::Refresh { load_settings: true };
    assert!(begin_task(DeviceState::Ready(cached_snapshot()), &refresh).is_ready());
    let DeviceState::Loading(message) = begin_task(DeviceState::Permission, &refresh) else {
        panic!("nothing is loading");
    };
    assert_eq!(message, "Refreshing device");
    assert!(!begin_task(DeviceState::Ready(cached_snapshot()), &DeviceTask::GrantAccess).is_ready());
    assert!(matches!(
        status_refresh(&DeviceState::Ready(cached_snapshot())),
        DeviceTask::RefreshStatus { .. }
    ));
    assert!(matches!(
        status_refresh(&DeviceState::Permission),
        DeviceTask::Refresh { load_settings: false }
    ));
    let finished = finish_task(&DeviceTask::GrantAccess, Ok(cached_snapshot()));
    assert!(finished.state.is_ready() && finished.load_settings);
    assert_eq!(finished.notice.as_deref(), Some("Device access granted"));
    let finished = finish_task(&refresh, Err(AppError::PermissionDenied { path: "/dev/hidraw0".to_owned() }));
    assert!(matches!(finished.state, DeviceState::Permission));
    assert!(!finished.load_settings);
    let finished = finish_task(&refresh, Err(AppError::NoDevice));
    let DeviceState::Error(message) = finished.state else {
        panic!("no error is shown");
    };
    assert_eq!(message, "no compatible Logitech HID++ device was found");
}

#[test]
fn editor_takes_up_what_the_mouse_holds() {
    let mut editor = Editor::new(ProfileLibrary::default());
    editor.profiles.selected_mut().name = "Changed".to_owned();
    editor.dirty = true;
    assert_eq!(editor.reset_changes(), "Unsaved profile changes were reset");
    assert!(!editor.dirty);
    assert!(same_library(&editor.profiles, &ProfileLibrary::default()));

    let notice = editor.load_current_settings(&cached_snapshot()).unwrap();
    assert_eq!(notice, "Loaded 1 profiles from onboard memory");

    let mut without_memory = cached_snapshot();
    without_memory.onboard_profiles = None;
    without_memory.dpi = Some(44_000);
    let notice = editor.load_current_settings(&without_memory).unwrap();
    assert_eq!(notice, "Loaded the current onboard DPI and report rate");
    assert_eq!(editor.profiles.selected().active_dpi_value(), 44_000);
    assert_eq!(editor.profiles.selected().report_rate, 4_000);
    assert!(same_library(&editor.profiles, &editor.saved_profiles));

    without_memory.dpi = None;
    without_memory.report_rate = None;
    assert_eq!(editor.load_current_settings(&without_memory), None);
}

#[test]
fn editor_takes_up_what_a_task_came_to() {
    let (mut editor, state) = open_window(None);
    assert!(same_library(&editor.profiles, &ProfileLibrary::default()));
    assert!(matches!(state, DeviceState::Loading(_)));
    editor.profiles.selected_mut().name = "Changed".to_owned();
    editor.dirty = true;
    let status = DeviceTask::RefreshStatus { snapshot: cached_snapshot() };
    assert_eq!(editor.receive(&finish_task(&status, Ok(cached_snapshot()))), None);
    assert!(editor.dirty);
    assert_eq!(editor.receive(&finish_task(&DeviceTask::GrantAccess, Err(AppError::NoDevice))), None);
    assert_eq!(editor.profiles.selected().name, "Changed");
    let refresh = DeviceTask::Refresh { load_settings: true };
    let notice = editor.receive(&finish_task(&refresh, Ok(cached_snapshot())));
    assert_eq!(notice.as_deref(), Some("Loaded 1 profiles from onboard memory"));
    assert!(!editor.dirty);
    let notice = editor.receive(&finish_task(&DeviceTask::GrantAccess, Ok(cached_snapshot())));
    assert_eq!(notice.as_deref(), Some("Device access granted"));

    let mut kept = cached_snapshot();
    kept.onboard_profiles.as_mut().unwrap().add();
    let (editor, state) = open_window(Some(kept));
    assert_eq!(editor.profiles.profiles.len(), 2);
    assert!(state.is_ready() && !editor.dirty);
}

#[test]
fn editor_knows_what_it_cannot_take_up() {
    let mut editor = Editor::new(ProfileLibrary::default());
    let mut without_memory = cached_snapshot();
    without_memory.onboard_profiles = None;
    assert!(editor.can_load(&without_memory));
    editor.profiles.selected_mut().shift_dpi = Some(9);
    assert!(!editor.can_load(&without_memory));
    without_memory.dpi = None;
    assert!(editor.can_load(&without_memory));
    editor.profiles.selected = 1;
    assert!(!editor.can_load(&without_memory));
    assert!(editor.can_load(&cached_snapshot()));
    let mut full = Profile::default();
    full.dpi_points = vec![400, 800, 1_600, 3_200, 6_400];
    full.shift_dpi = None;
    full.active_dpi = 5;
    assert!(full.can_select_value(800));
    assert!(!full.can_select_value(900));
}

#[test]
fn editor_stores_the_selected_profile() {
    let mut library = ProfileLibrary::default();
    library.add();
    let mut editor = Editor::new(library);
    let ready = DeviceState::Ready(cached_snapshot());
    let Some(DeviceTask::SaveOnboard { slot, .. }) = editor.save_task(false, &ready) else {
        panic!("nothing is stored");
    };
    assert_eq!(slot, 2);
    assert!(editor.save_task(true, &ready).is_none());
    assert!(editor.save_task(false, &DeviceState::Permission).is_none());
    editor.choose_profile(0);
    assert!(editor.dirty);
    editor.choose_profile(1);
    assert!(!editor.dirty);
    editor.profiles.selected_mut().report_rate = 125;
    editor.restore_sensitivity();
    assert!(editor.dirty);
    assert_eq!(editor.profiles.selected().report_rate, Profile::default().report_rate);
    let mut profile = Profile::default();
    toggle_shift(&mut profile, 2);
    assert_eq!(profile.shift_dpi, Some(2));
    toggle_shift(&mut profile, 2);
    assert_eq!(profile.shift_dpi, None);
}

#[test]
fn mouse_limits_what_can_be_chosen() {
    let mut snapshot = cached_snapshot();
    assert_eq!(available_range(&DeviceState::Permission), (100, 25_600, 50));
    assert_eq!(available_rates(&DeviceState::Permission), REPORT_RATES);
    snapshot.report_rates = vec![1_000];
    let ready = DeviceState::Ready(snapshot.clone());
    assert_eq!(available_range(&ready), (100, 44_000, 50));
    assert_eq!(available_rates(&ready), [1_000]);
    snapshot.report_rates = vec![];
    assert_eq!(available_rates(&DeviceState::Ready(snapshot)), REPORT_RATES);
}
