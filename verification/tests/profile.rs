use open_mouse_memory::profile::{
    ButtonAction, ButtonBinding, MouseButton, Profile, ProfileLibrary, MAX_DPI_POINTS, MIN_DPI,
};

#[test]
fn maintains_valid_dpi_indexes() {
    let mut profile = Profile {
        active_dpi: 3,
        shift_dpi: Some(2),
        ..Profile::default()
    };
    assert!(profile.remove_dpi_point(2));
    assert_eq!(profile.active_dpi, 2);
    assert_eq!(profile.shift_dpi, None);
}

#[test]
fn loads_device_dpi_above_the_fallback_range() {
    let mut profile = Profile::default();
    profile.select_dpi_value(44_000);
    assert_eq!(profile.active_dpi_value(), 44_000);
    assert!(profile.dpi_points.contains(&44_000));
}

#[test]
fn selecting_a_value_keeps_the_shift_point() {
    let mut profile = Profile {
        dpi_points: vec![400, 800, 1_600],
        active_dpi: 0,
        shift_dpi: Some(1),
        ..Profile::default()
    };
    profile.select_dpi_value(600);
    assert_eq!(profile.dpi_points, [400, 600, 800, 1_600]);
    assert_eq!(profile.active_dpi, 1);
    assert_eq!(profile.shift_dpi, Some(2));
    profile.select_dpi_value(10);
    assert_eq!(profile.active_dpi_value(), MIN_DPI);
}

#[test]
fn full_profile_loses_its_active_point() {
    let mut profile = Profile {
        dpi_points: vec![100, 200, 300, 400, 500],
        active_dpi: 2,
        shift_dpi: Some(2),
        ..Profile::default()
    };
    assert!(!profile.add_dpi_point(600));
    profile.select_dpi_value(900);
    assert_eq!(profile.dpi_points, [100, 200, 400, 500, 900]);
    assert_eq!(profile.active_dpi, 4);
    assert_eq!(profile.shift_dpi, None);
    assert_eq!(profile.dpi_points.len(), MAX_DPI_POINTS);
}

#[test]
fn values_can_be_selected_in_profiles_out_of_order() {
    let mut profile = Profile {
        dpi_points: vec![900, 50, 300, 50, 700, 400],
        active_dpi: 1,
        shift_dpi: Some(3),
        ..Profile::default()
    };
    profile.select_dpi_value(700);
    assert_eq!(profile.dpi_points, [900, 50, 300, 50, 700, 400]);
    assert_eq!((profile.active_dpi, profile.shift_dpi), (4, Some(1)));
    profile.select_dpi_value(600);
    assert_eq!(profile.dpi_points, [50, 300, 400, 600, 900]);
    assert_eq!((profile.active_dpi, profile.shift_dpi), (3, Some(0)));
    profile.active_dpi = 0;
    profile.select_dpi_value(800);
    assert_eq!(profile.active_dpi_value(), 800);
    assert_eq!(profile.shift_dpi, None);
}

#[test]
fn points_are_added_and_removed() {
    let mut profile = Profile { dpi_points: vec![800], active_dpi: 0, shift_dpi: None, ..Profile::default() };
    assert!(profile.add_dpi_point(50));
    assert_eq!(profile.dpi_points, [100, 800]);
    assert!(!profile.remove_dpi_point(2));
    profile.shift_dpi = Some(1);
    assert!(profile.remove_dpi_point(0));
    assert_eq!(profile.shift_dpi, Some(0));
    assert!(!profile.remove_dpi_point(0));
}

#[test]
fn assigning_changes_one_button_only() {
    let mut profile = Profile::default();
    profile.assign(MouseButton::Back, ButtonAction::DpiShift);
    assert_eq!(profile.action(MouseButton::Back), &ButtonAction::DpiShift);
    assert_eq!(profile.action(MouseButton::Forward), &ButtonAction::Forward);
    profile.bindings.clear();
    assert_eq!(profile.action(MouseButton::Primary), &ButtonAction::Disabled);
    profile.assign(MouseButton::Primary, ButtonAction::Macro("burst".to_owned()));
    assert_eq!(profile.action(MouseButton::Primary).label(), "Macro burst");
    assert_eq!(profile.bindings.len(), 1);
}

#[test]
fn labels_name_buttons_and_actions() {
    assert_eq!(MouseButton::Secondary.label(), "Secondary");
    assert_eq!(ButtonAction::Keystroke("F1".to_owned()).label(), "Key F1");
    assert_eq!(ButtonAction::OnboardRaw("00".to_owned()).label(), "Onboard 00");
    assert_eq!(ButtonAction::DpiUp.label(), "DPI Up");
    assert_eq!(MouseButton::ALL.len(), 5);
}

#[test]
fn library_always_has_a_selected_profile() {
    let mut library = ProfileLibrary::default();
    assert_eq!(library.profiles.len(), 1);
    library.remove_selected();
    assert_eq!(library.profiles.len(), 1);
    library.add();
    assert_eq!(library.selected, 1);
    assert_eq!(library.selected().name, "Profile 2");
    library.duplicate_selected();
    assert_eq!(library.selected().name, "Profile 2 Copy");
    library.remove_selected();
    assert_eq!(library.selected, 1);
    assert_eq!(library.profiles.len(), 2);
}

#[test]
fn loaded_library_is_put_in_order() {
    let mut library = ProfileLibrary { profiles: vec![], selected: 7 };
    library.normalize();
    assert_eq!(library.profiles.len(), 1);
    assert_eq!(library.selected, 0);

    let profile = Profile {
        name: "  \n".to_owned(),
        dpi_points: vec![900, 50, 900, 400, 1_000, 1_100, 1_200, 1_300],
        active_dpi: 9,
        shift_dpi: Some(5),
        report_rate: 999,
        bindings: vec![ButtonBinding { button: MouseButton::Back, action: ButtonAction::Disabled }],
    };
    let mut library = ProfileLibrary { profiles: vec![profile], selected: 3 };
    library.normalize();
    let profile = library.selected();
    assert_eq!(profile.name, "Unnamed Profile");
    assert_eq!(profile.dpi_points, [400, 900, 1_000, 1_100, 1_200]);
    assert_eq!(profile.active_dpi, 4);
    assert_eq!(profile.shift_dpi, None);
    assert_eq!(profile.report_rate, 1_000);
    assert_eq!(profile.bindings.len(), 5);
    assert_eq!(profile.action(MouseButton::Back), &ButtonAction::Disabled);
    assert_eq!(profile.action(MouseButton::Middle), &ButtonAction::MiddleClick);
}
