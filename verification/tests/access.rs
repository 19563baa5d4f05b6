use open_mouse_memory::access::{
    advance_access, check_grant, check_installer, check_udevadm, consent_granted, environment_disables_prompt,
    prompt_allowed, prompt_line, temporary_rule_path, AccessAction, AccessEvent, AccessStage, OPEN_TRIES,
};
use open_mouse_memory::error::AppError;

#[test]
fn accepts_only_explicit_consent() {
    assert!(consent_granted("y\n"));
    assert!(consent_granted("YES"));
    assert!(!consent_granted(""));
    assert!(!consent_granted("no"));
}

#[test]
fn consent_is_trimmed_as_text() {
    assert!(consent_granted("\u{a0} y \u{3000}"));
    assert!(consent_granted("\tYes\r\n"));
    assert!(!consent_granted("y e s"));
    assert!(!consent_granted("yess"));
}

#[test]
fn unprivileged_process_cannot_invoke_internal_installer() {
    assert!(matches!(check_installer(1000), Err(AppError::Unsafe(_))));
    assert!(check_installer(0).is_ok());
}

#[test]
fn prompt_needs_terminals_and_a_person() {
    assert!(prompt_allowed(false, false, None, true, true));
    assert!(prompt_allowed(false, false, Some("0"), true, true));
    assert!(!prompt_allowed(true, false, None, true, true));
    assert!(!prompt_allowed(false, true, None, true, true));
    assert!(!prompt_allowed(false, false, Some("TRUE"), true, true));
    assert!(!prompt_allowed(false, false, None, false, true));
    assert!(!prompt_allowed(false, false, None, true, false));
}

#[test]
fn environment_turns_the_prompt_off() {
    assert!(environment_disables_prompt(Some("1")));
    assert!(environment_disables_prompt(Some("Yes")));
    assert!(!environment_disables_prompt(Some(" yes")));
    assert!(!environment_disables_prompt(Some("")));
    assert!(!environment_disables_prompt(None));
}

#[test]
fn declined_request_installs_nothing() {
    let event = AccessEvent::Answered("n".to_owned());
    let (stage, action) = advance_access(AccessStage::Asking, &event, "/dev/hidraw0");
    assert_eq!(stage, AccessStage::Asking);
    assert!(matches!(action, AccessAction::Finish(Ok(false))));
}

#[test]
fn granted_request_opens_the_node() {
    let path = "/dev/hidraw0";
    let (stage, action) = advance_access(AccessStage::Asking, &AccessEvent::Answered("y".to_owned()), path);
    assert!(matches!(action, AccessAction::Install));
    let (stage, action) = advance_access(stage, &AccessEvent::Installed { success: true, code: Some(0) }, path);
    assert!(matches!(action, AccessAction::TryOpen));
    let (stage, action) = advance_access(stage, &AccessEvent::Opened(false), path);
    assert!(matches!(action, AccessAction::Pause));
    let (stage, action) = advance_access(stage, &AccessEvent::Waited, path);
    assert!(matches!(action, AccessAction::TryOpen));
    let (_, action) = advance_access(stage, &AccessEvent::Opened(true), path);
    assert!(matches!(action, AccessAction::Finish(Ok(true))));
}

#[test]
fn failed_installer_ends_the_request() {
    let event = AccessEvent::Installed { success: false, code: Some(126) };
    let (_, action) = advance_access(AccessStage::Authorizing, &event, "/dev/hidraw0");
    let AccessAction::Finish(Err(error)) = action else {
        panic!("the request goes on");
    };
    assert_eq!(error.message(), "device-access authorization was canceled or failed (exit 126)");
    let event = AccessEvent::Installed { success: false, code: None };
    let (_, action) = advance_access(AccessStage::Authorizing, &event, "/dev/hidraw0");
    let AccessAction::Finish(Err(error)) = action else {
        panic!("the request goes on");
    };
    assert_eq!(error.message(), "device-access authorization was canceled or failed");
}

#[test]
fn node_is_tried_twenty_times_before_the_request_fails() {
    let path = "/dev/hidraw4";
    let mut stage = AccessStage::Opening { tries: 0 };
    for attempt in 1..=OPEN_TRIES {
        let (next, action) = advance_access(stage, &AccessEvent::Opened(false), path);
        assert!(matches!(action, AccessAction::Pause));
        let (next, action) = advance_access(next, &AccessEvent::Waited, path);
        if attempt < 20 {
            assert!(matches!(action, AccessAction::TryOpen));
        } else {
            let AccessAction::Finish(Err(error)) = action else {
                panic!("the request goes on");
            };
            assert_eq!(
                error.message(),
                "the access rule was installed, but /dev/hidraw4 is still inaccessible; reconnect the mouse or receiver and retry"
            );
        }
        stage = next;
    }
    assert_eq!(stage, AccessStage::Opening { tries: 20 });
}

#[test]
fn helpers_say_what_went_wrong() {
    assert!(check_udevadm(true, None).is_ok());
    assert_eq!(check_udevadm(false, Some(-1)).unwrap_err().message(), "udevadm failed with exit -1");
    assert_eq!(check_udevadm(false, None).unwrap_err().message(), "udevadm failed");
    assert!(check_grant(true, Some(0)).is_ok());
    assert_eq!(check_grant(false, Some(127)).unwrap_err().message(), "device access was not granted  exit 127");
    assert_eq!(temporary_rule_path(42), "/etc/udev/rules.d/.70-open-mouse-memory.rules.42.tmp");
    assert_eq!(
        prompt_line("/dev/hidraw1"),
        "A supported Logitech device was detected at /dev/hidraw1, but this user cannot access it."
    );
}
