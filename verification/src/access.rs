//! Getting access to a device that the user may not open.

use vstd::prelude::*;

use crate::error::{outcome, AppError, ErrorView, Outcome, Result};
use crate::text::{
    dec, decimal, join2, join3, lowercase, lowered, same_text, signed_dec, signed_decimal, trim, trimmed,
};

verus! {

/// Where the rule that gives access is kept.
pub const RULE_PATH: &'static str = "/etc/udev/rules.d/70-open-mouse-memory.rules";

/// The variable that turns the prompt for access off.
pub const NO_PROMPT_ENV: &'static str = "OPEN_MOUSE_MEMORY_NO_ACCESS_PROMPT";

/// How often the node is tried after the rule has been installed.
pub const OPEN_TRIES: u8 = 20;

/// Whether a text is a word in small letters, without regard to the case of the text.
pub open spec fn says(text: Seq<char>, word: Seq<char>) -> bool {
    lowered(text) == word
}

/// Whether the value of the variable turns the prompt off.
pub open spec fn turns_prompt_off(value: Option<Seq<char>>) -> bool {
    match value {
        Some(value) => says(value, "1"@) || says(value, "true"@) || says(value, "yes"@),
        None => false,
    }
}

/// Whether the value of the variable turns the prompt off.
pub fn environment_disables_prompt(value: Option<&str>) -> (off: bool)
    ensures
        off == turns_prompt_off(
            match value {
                Some(value) => Some(value@),
                None => None,
            },
        ),
{
    match value {
        Some(value) => {
            let value = lowercase(value);
            same_text(value.as_str(), "1") || same_text(value.as_str(), "true") || same_text(value.as_str(), "yes")
        },
        None => false,
    }
}

/// Whether the user may be asked for access: nothing turns the prompt off, the output is meant for a person, and
/// both ends of the conversation are terminals.
pub fn prompt_allowed(
    disabled: bool,
    json: bool,
    environment: Option<&str>,
    stdin_is_terminal: bool,
    stderr_is_terminal: bool,
) -> (allowed: bool)
    ensures
        allowed == (!disabled && !json && !turns_prompt_off(
            match environment {
                Some(value) => Some(value@),
                None => None,
            },
        ) && stdin_is_terminal && stderr_is_terminal),
{
    !disabled && !json && !environment_disables_prompt(environment) && stdin_is_terminal && stderr_is_terminal
}

/// Whether an answer is a yes.
pub open spec fn is_consent(answer: Seq<char>) -> bool {
    says(trimmed(answer), "y"@) || says(trimmed(answer), "yes"@)
}

/// Whether an answer is a yes.
pub fn consent_granted(answer: &str) -> (granted: bool)
    ensures
        granted == is_consent(answer@),
{
    let answer = lowercase(trim(answer).as_str());
    same_text(answer.as_str(), "y") || same_text(answer.as_str(), "yes")
}

/// What the user is asked.
pub fn prompt_line(path: &str) -> (line: String)
    ensures
        line@ == "A supported Logitech device was detected at "@ + path@ + ", but this user cannot access it."@,
{
    join3("A supported Logitech device was detected at ", path, ", but this user cannot access it.")
}

/// An exit code in a sentence, where there is one.
pub open spec fn code_text(before: Seq<char>, code: Option<i32>, after: Seq<char>) -> Seq<char> {
    match code {
        Some(code) => before + signed_dec(code as int) + after,
        None => Seq::empty(),
    }
}

fn code_suffix(before: &str, code: Option<i32>, after: &str) -> (text: String)
    ensures
        text@ == code_text(before@, code, after@),
{
    match code {
        Some(code) => join3(before, signed_decimal(code).as_str(), after),
        None => {
            let text = String::new();
            assert(text@ =~= Seq::empty());
            text
        },
    }
}

/// How far a request for access has come.
#[derive(Debug, Clone, Copy, PartialEq, Eq, Structural)]
pub enum AccessStage {
    /// The user has been asked.
    Asking,
    /// The installation of the rule has been asked for.
    Authorizing,
    /// The rule is there, and the node was tried so often.
    Opening { tries: u8 },
}

/// What happened to a request for access.
#[derive(Debug)]
pub enum AccessEvent {
    /// The user answered.
    Answered(String),
    /// The installer ended.
    Installed { success: bool, code: Option<i32> },
    /// The node could be opened, or could not.
    Opened(bool),
    /// The pause after a try is over.
    Waited,
}

/// What a request for access needs next.
#[derive(Debug)]
pub enum AccessAction {
    /// Start the installer as an administrator.
    Install,
    /// Try to open the node.
    TryOpen,
    /// Pause, and then say so.
    Pause,
    /// The request is over: access was granted, declined, or could not be had.
    Finish(Result<bool>),
}

/// An [`AccessEvent`] with its text as a sequence.
pub enum AccessEventView {
    Answered(Seq<char>),
    Installed { success: bool, code: Option<i32> },
    Opened(bool),
    Waited,
}

impl View for AccessEvent {
    type V = AccessEventView;

    open spec fn view(&self) -> AccessEventView {
        match *self {
            AccessEvent::Answered(answer) => AccessEventView::Answered(answer@),
            AccessEvent::Installed { success, code } => AccessEventView::Installed { success, code },
            AccessEvent::Opened(opened) => AccessEventView::Opened(opened),
            AccessEvent::Waited => AccessEventView::Waited,
        }
    }
}

/// An [`AccessAction`] with its outcome as a value.
pub enum AccessActionView {
    Install,
    TryOpen,
    Pause,
    Finish(Outcome<bool>),
}

impl View for AccessAction {
    type V = AccessActionView;

    open spec fn view(&self) -> AccessActionView {
        match *self {
            AccessAction::Install => AccessActionView::Install,
            AccessAction::TryOpen => AccessActionView::TryOpen,
            AccessAction::Pause => AccessActionView::Pause,
            AccessAction::Finish(result) => AccessActionView::Finish(access_outcome(result)),
        }
    }
}

/// The result of a request as a value.
pub open spec fn access_outcome(result: Result<bool>) -> Outcome<bool> {
    match result {
        Ok(granted) => Ok(granted),
        Err(error) => Err(error@),
    }
}

/// What is wrong where the installer failed.
pub open spec fn install_failure(code: Option<i32>) -> ErrorView {
    ErrorView::Other("device-access authorization was canceled or failed"@ + code_text(" (exit "@, code, ")"@))
}

/// What is wrong where the node stays closed.
pub open spec fn still_closed(path: Seq<char>) -> ErrorView {
    ErrorView::Other(
        "the access rule was installed, but "@ + path
            + " is still inaccessible; reconnect the mouse or receiver and retry"@,
    )
}

/// What a request for access needs after an event. An event that does not belong to the stage changes nothing and
/// ends the request without access.
pub open spec fn next_access(stage: AccessStage, event: AccessEventView, path: Seq<char>) -> (
    AccessStage,
    AccessActionView,
) {
    match (stage, event) {
        (AccessStage::Asking, AccessEventView::Answered(answer)) => if is_consent(answer) {
            (AccessStage::Authorizing, AccessActionView::Install)
        } else {
            (stage, AccessActionView::Finish(Ok(false)))
        },
        (AccessStage::Authorizing, AccessEventView::Installed { success, code }) => if success {
            (AccessStage::Opening { tries: 0 }, AccessActionView::TryOpen)
        } else {
            (stage, AccessActionView::Finish(Err(install_failure(code))))
        },
        (AccessStage::Opening { tries }, AccessEventView::Opened(opened)) => if opened {
            (stage, AccessActionView::Finish(Ok(true)))
        } else if tries < OPEN_TRIES {
            (AccessStage::Opening { tries: (tries + 1) as u8 }, AccessActionView::Pause)
        } else {
            (stage, AccessActionView::Finish(Err(still_closed(path))))
        },
        (AccessStage::Opening { tries }, AccessEventView::Waited) => if tries < OPEN_TRIES {
            (stage, AccessActionView::TryOpen)
        } else {
            (stage, AccessActionView::Finish(Err(still_closed(path))))
        },
        _ => (stage, AccessActionView::Finish(Ok(false))),
    }
}

fn closed_node(path: &str) -> (error: AppError)
    ensures
        error@ == still_closed(path@),
{
    AppError::Other(
        join3(
            "the access rule was installed, but ",
            path,
            " is still inaccessible; reconnect the mouse or receiver and retry",
        ),
    )
}

/// Decides what a request for access needs after an event.
pub fn advance_access(stage: AccessStage, event: &AccessEvent, path: &str) -> (next: (AccessStage, AccessAction))
    ensures
        (next.0, next.1@) == next_access(stage, event@, path@),
{
    match (stage, event) {
        (AccessStage::Asking, AccessEvent::Answered(answer)) => {
            if consent_granted(answer.as_str()) {
                (AccessStage::Authorizing, AccessAction::Install)
            } else {
                (stage, AccessAction::Finish(Ok(false)))
            }
        },
        (AccessStage::Authorizing, AccessEvent::Installed { success, code }) => {
            if *success {
                (AccessStage::Opening { tries: 0 }, AccessAction::TryOpen)
            } else {
                let suffix = code_suffix(" (exit ", *code, ")");
                let message = join2("device-access authorization was canceled or failed", suffix.as_str());
                (stage, AccessAction::Finish(Err(AppError::Other(message))))
            }
        },
        (AccessStage::Opening { tries }, AccessEvent::Opened(opened)) => {
            if *opened {
                (stage, AccessAction::Finish(Ok(true)))
            } else if tries < OPEN_TRIES {
                (AccessStage::Opening { tries: tries + 1 }, AccessAction::Pause)
            } else {
                (stage, AccessAction::Finish(Err(closed_node(path))))
            }
        },
        (AccessStage::Opening { tries }, AccessEvent::Waited) => {
            if tries < OPEN_TRIES {
                (stage, AccessAction::TryOpen)
            } else {
                (stage, AccessAction::Finish(Err(closed_node(path))))
            }
        },
        _ => (stage, AccessAction::Finish(Ok(false))),
    }
}

/// Where a request stands after the node was tried so often in vain.
pub open spec fn after_failed_tries(failures: nat, path: Seq<char>) -> (AccessStage, AccessActionView)
    decreases failures,
{
    if failures == 0 {
        next_access(AccessStage::Authorizing, AccessEventView::Installed { success: true, code: None }, path)
    } else {
        let before = after_failed_tries((failures - 1) as nat, path);
        let paused = next_access(before.0, AccessEventView::Opened(false), path);
        next_access(paused.0, AccessEventView::Waited, path)
    }
}

/// Once the rule is installed, the node is tried again after each failure until it has been tried twenty times; then
/// the request fails.
pub proof fn node_is_tried_twenty_times(failures: nat, path: Seq<char>)
    requires
        failures <= OPEN_TRIES,
    ensures
        after_failed_tries(failures, path).0 == (AccessStage::Opening { tries: failures as u8 }),
        failures < OPEN_TRIES ==> after_failed_tries(failures, path).1 == AccessActionView::TryOpen,
        failures == OPEN_TRIES ==> after_failed_tries(failures, path).1 == AccessActionView::Finish(
            Err(still_closed(path)),
        ),
    decreases failures,
{
    if failures > 0 {
        node_is_tried_twenty_times((failures - 1) as nat, path);
    }
}

/// Nothing is installed without the consent of the user: the first step of a request installs the rule exactly where
/// the answer is a yes.
pub proof fn installing_needs_consent(answer: Seq<char>, path: Seq<char>)
    ensures
        (next_access(AccessStage::Asking, AccessEventView::Answered(answer), path).1 is Install) == is_consent(answer),
        !is_consent(answer) ==> next_access(AccessStage::Asking, AccessEventView::Answered(answer), path).1
            == AccessActionView::Finish(Ok(false)),
{
}

/// What the user that runs the installer comes to.
pub open spec fn installer_check(user_id: u32) -> Outcome<()> {
    if user_id != 0 {
        Err(ErrorView::Unsafe("the internal access-rule installer must be launched through PolicyKit"@))
    } else {
        Ok(())
    }
}

/// Lets only the administrator install the rule.
pub fn check_installer(user_id: u32) -> (checked: Result<()>)
    ensures
        outcome(checked) == installer_check(user_id),
{
    if user_id != 0 {
        return Err(
            AppError::Unsafe("the internal access-rule installer must be launched through PolicyKit".to_owned()),
        );
    }
    Ok(())
}

/// Where the rule is written before it takes its place.
pub fn temporary_rule_path(process_id: u32) -> (path: String)
    ensures
        path@ == "/etc/udev/rules.d/.70-open-mouse-memory.rules."@ + dec(process_id as nat) + ".tmp"@,
{
    join3("/etc/udev/rules.d/.70-open-mouse-memory.rules.", decimal(process_id as u64).as_str(), ".tmp")
}

/// What the end of `udevadm` comes to.
pub open spec fn udevadm_outcome(success: bool, code: Option<i32>) -> Outcome<()> {
    if success {
        Ok(())
    } else {
        Err(ErrorView::Other("udevadm failed"@ + code_text(" with exit "@, code, ""@)))
    }
}

/// Takes the end of `udevadm` for what it is.
pub fn check_udevadm(success: bool, code: Option<i32>) -> (checked: Result<()>)
    ensures
        outcome(checked) == udevadm_outcome(success, code),
{
    if success {
        Ok(())
    } else {
        let suffix = code_suffix(" with exit ", code, "");
        Err(AppError::Other(join2("udevadm failed", suffix.as_str())))
    }
}

/// What the end of the installer comes to where no prompt was shown.
pub open spec fn grant_outcome(success: bool, code: Option<i32>) -> Outcome<()> {
    if success {
        Ok(())
    } else {
        Err(ErrorView::Other("device access was not granted"@ + code_text("  exit "@, code, ""@)))
    }
}

/// Takes the end of the installer for what it is where no prompt was shown.
pub fn check_grant(success: bool, code: Option<i32>) -> (checked: Result<()>)
    ensures
        outcome(checked) == grant_outcome(success, code),
{
    if success {
        Ok(())
    } else {
        let suffix = code_suffix("  exit ", code, "");
        Err(AppError::Other(join2("device access was not granted", suffix.as_str())))
    }
}

}
