//! The errors of the crate: what went wrong, its text and the exit code it asks for.

use vstd::prelude::*;

use crate::text::{
    contains_text, hex2, hex4, hex_byte, hex_word, join2, join3, join4, join5, lowercase, lowered, occurs, signed_dec,
    signed_decimal,
};

verus! {

/// The result of everything that can fail with an [`AppError`].
pub type Result<T> = std::result::Result<T, AppError>;

/// Everything that can go wrong between a command and the mouse.
#[derive(Debug)]
pub enum AppError {
    NoDevice,
    DeviceNotFound(String),
    AmbiguousDevice(String),
    UnsupportedFeature { id: u16, name: &'static str },
    PermissionDenied { path: String },
    Hid { path: String, message: String },
    Timeout { timeout_ms: i32, device_index: u8, feature_index: u8, function: u8, request: String },
    Protocol { device_index: u8, feature_index: u8, function: u8, code: u8, name: &'static str },
    Validation(String),
    Verification(String),
    Unsafe(String),
    IncompatibleProfile(String),
    Other(String),
}

/// An [`AppError`] with its texts as sequences of characters.
pub enum ErrorView {
    NoDevice,
    DeviceNotFound(Seq<char>),
    AmbiguousDevice(Seq<char>),
    UnsupportedFeature { id: u16, name: Seq<char> },
    PermissionDenied { path: Seq<char> },
    Hid { path: Seq<char>, message: Seq<char> },
    Timeout { timeout_ms: i32, device_index: u8, feature_index: u8, function: u8, request: Seq<char> },
    Protocol { device_index: u8, feature_index: u8, function: u8, code: u8, name: Seq<char> },
    Validation(Seq<char>),
    Verification(Seq<char>),
    Unsafe(Seq<char>),
    IncompatibleProfile(Seq<char>),
    Other(Seq<char>),
}

impl View for AppError {
    type V = ErrorView;

    open spec fn view(&self) -> ErrorView {
        match *self {
            AppError::NoDevice => ErrorView::NoDevice,
            AppError::DeviceNotFound(selector) => ErrorView::DeviceNotFound(selector@),
            AppError::AmbiguousDevice(selector) => ErrorView::AmbiguousDevice(selector@),
            AppError::UnsupportedFeature { id, name } => ErrorView::UnsupportedFeature { id, name: name@ },
            AppError::PermissionDenied { path } => ErrorView::PermissionDenied { path: path@ },
            AppError::Hid { path, message } => ErrorView::Hid { path: path@, message: message@ },
            AppError::Timeout { timeout_ms, device_index, feature_index, function, request } => ErrorView::Timeout {
                timeout_ms,
                device_index,
                feature_index,
                function,
                request: request@,
            },
            AppError::Protocol { device_index, feature_index, function, code, name } => ErrorView::Protocol {
                device_index,
                feature_index,
                function,
                code,
                name: name@,
            },
            AppError::Validation(text) => ErrorView::Validation(text@),
            AppError::Verification(text) => ErrorView::Verification(text@),
            AppError::Unsafe(text) => ErrorView::Unsafe(text@),
            AppError::IncompatibleProfile(text) => ErrorView::IncompatibleProfile(text@),
            AppError::Other(text) => ErrorView::Other(text@),
        }
    }
}

/// What a fallible call came to, with its value and its error taken by their views.
pub type Outcome<T> = std::result::Result<T, ErrorView>;

/// A result with its value and its error taken by their views.
pub open spec fn outcome<T: View>(result: Result<T>) -> Outcome<T::V> {
    match result {
        Ok(value) => Ok(value@),
        Err(error) => Err(error@),
    }
}

/// The exit code that a process failing with this error ends with.
pub open spec fn exit_code_of(error: ErrorView) -> u8 {
    match error {
        ErrorView::NoDevice | ErrorView::DeviceNotFound(_) => 2,
        ErrorView::AmbiguousDevice(_) => 3,
        ErrorView::UnsupportedFeature { .. } => 4,
        ErrorView::PermissionDenied { .. } => 5,
        ErrorView::Timeout { .. } => 6,
        ErrorView::Protocol { .. } => 7,
        ErrorView::Validation(_) | ErrorView::Unsafe(_) => 8,
        ErrorView::Verification(_) => 9,
        ErrorView::IncompatibleProfile(_) => 10,
        ErrorView::Hid { .. } | ErrorView::Other(_) => 1,
    }
}

/// A HID failure: missing permission where the message says so, a plain access failure otherwise.
pub open spec fn hid_failure(path: Seq<char>, message: Seq<char>) -> ErrorView {
    if occurs(lowered(message), "permission denied"@) {
        ErrorView::PermissionDenied { path }
    } else {
        ErrorView::Hid { path, message }
    }
}

/// The three lines that a timeout and a protocol error share.
pub open spec fn request_lines(device_index: u8, feature_index: u8, function: u8) -> Seq<char> {
    "\nDevice index: 0x"@ + hex2(device_index, false) + "\nFeature index: 0x"@ + hex2(feature_index, false) + (
    "\nFunction: 0x"@ + hex2(function, false))
}

/// The text of an error as the user reads it.
pub open spec fn error_text(error: ErrorView) -> Seq<char> {
    match error {
        ErrorView::NoDevice => "no compatible Logitech HID++ device was found"@,
        ErrorView::DeviceNotFound(selector) => "device selector '"@ + selector + "' did not match a device"@,
        ErrorView::AmbiguousDevice(selector) => "device selector '"@ + selector
            + "' is ambiguous; use its numeric ID, serial, or hidraw path"@,
        ErrorView::UnsupportedFeature { id, name } => "feature 0x"@ + hex4(id, false) + " ("@ + name
            + ") is not advertised by this device"@,
        ErrorView::PermissionDenied { path } => "permission denied opening "@ + path
            + "; install packaging/udev/70-open-mouse-memory.rules and reconnect the mouse or receiver"@,
        ErrorView::Hid { path, message } => "HID access failed for "@ + path + ": "@ + message,
        ErrorView::Timeout { timeout_ms, device_index, feature_index, function, request } => "timeout after "@
            + signed_dec(timeout_ms as int) + " ms waiting for HID++ response"@ + request_lines(
            device_index,
            feature_index,
            function,
        ) + ("\nRequest: "@ + request),
        ErrorView::Protocol { device_index, feature_index, function, code, name } => "HID++ request failed"@
            + request_lines(device_index, feature_index, function) + ("\nError: 0x"@ + hex2(code, false) + " ("@ + name
            + ")"@),
        ErrorView::Validation(text) => "invalid value: "@ + text,
        ErrorView::Verification(text) => "write verification failed: "@ + text,
        ErrorView::Unsafe(text) => "unsafe operation refused: "@ + text,
        ErrorView::IncompatibleProfile(text) => "invalid profile format: "@ + text,
        ErrorView::Other(text) => text,
    }
}

fn request_text(device_index: u8, feature_index: u8, function: u8) -> (text: String)
    ensures
        text@ == request_lines(device_index, feature_index, function),
{
    let mut text = join4(
        "\nDevice index: 0x",
        hex_byte(device_index, false).as_str(),
        "\nFeature index: 0x",
        hex_byte(feature_index, false).as_str(),
    );
    text.append(join2("\nFunction: 0x", hex_byte(function, false).as_str()).as_str());
    text
}

impl AppError {
    /// The exit code that a process failing with this error ends with.
    pub fn exit_code(&self) -> (code: u8)
        ensures
            code == exit_code_of(self@),
    {
        match self {
            AppError::NoDevice => 2,
            AppError::DeviceNotFound(_) => 2,
            AppError::AmbiguousDevice(_) => 3,
            AppError::UnsupportedFeature { .. } => 4,
            AppError::PermissionDenied { .. } => 5,
            AppError::Timeout { .. } => 6,
            AppError::Protocol { .. } => 7,
            AppError::Validation(_) => 8,
            AppError::Unsafe(_) => 8,
            AppError::Verification(_) => 9,
            AppError::IncompatibleProfile(_) => 10,
            AppError::Hid { .. } => 1,
            AppError::Other(_) => 1,
        }
    }

    /// The error for a failed access to the HID node at `path`, from the text of the failure.
    pub fn hid(path: &str, message: &str) -> (error: Self)
        ensures
            error@ == hid_failure(path@, message@),
    {
        if contains_text(lowercase(message).as_str(), "permission denied") {
            AppError::PermissionDenied { path: path.to_owned() }
        } else {
            AppError::Hid { path: path.to_owned(), message: message.to_owned() }
        }
    }

    /// The text of the error as the user reads it.
    pub fn message(&self) -> (text: String)
        ensures
            text@ == error_text(self@),
    {
        match self {
            AppError::NoDevice => "no compatible Logitech HID++ device was found".to_owned(),
            AppError::DeviceNotFound(selector) => join3(
                "device selector '",
                selector.as_str(),
                "' did not match a device",
            ),
            AppError::AmbiguousDevice(selector) => join3(
                "device selector '",
                selector.as_str(),
                "' is ambiguous; use its numeric ID, serial, or hidraw path",
            ),
            AppError::UnsupportedFeature { id, name } => join5(
                "feature 0x",
                hex_word(*id, false).as_str(),
                " (",
                *name,
                ") is not advertised by this device",
            ),
            AppError::PermissionDenied { path } => join3(
                "permission denied opening ",
                path.as_str(),
                "; install packaging/udev/70-open-mouse-memory.rules and reconnect the mouse or receiver",
            ),
            AppError::Hid { path, message } => join4(
                "HID access failed for ",
                path.as_str(),
                ": ",
                message.as_str(),
            ),
            AppError::Timeout { timeout_ms, device_index, feature_index, function, request } => {
                let mut text = join4(
                    "timeout after ",
                    signed_decimal(*timeout_ms).as_str(),
                    " ms waiting for HID++ response",
                    request_text(*device_index, *feature_index, *function).as_str(),
                );
                text.append(join2("\nRequest: ", request.as_str()).as_str());
                text
            },
            AppError::Protocol { device_index, feature_index, function, code, name } => {
                let mut text = join2(
                    "HID++ request failed",
                    request_text(*device_index, *feature_index, *function).as_str(),
                );
                text.append(join5("\nError: 0x", hex_byte(*code, false).as_str(), " (", *name, ")").as_str());
                text
            },
            AppError::Validation(text) => join2("invalid value: ", text.as_str()),
            AppError::Verification(text) => join2("write verification failed: ", text.as_str()),
            AppError::Unsafe(text) => join2("unsafe operation refused: ", text.as_str()),
            AppError::IncompatibleProfile(text) => join2("invalid profile format: ", text.as_str()),
            AppError::Other(text) => text.clone(),
        }
    }
}

}
