//! The entry by which the desktop starts the application at login.

use vstd::prelude::*;
use vstd::utf8::{decode_utf8, valid_utf8};

use crate::bytes::copied;
use crate::paths::{is_absolute, path_option};
use crate::text::{chars_of, contains_text, join4, occurs, stands_at};
use crate::utf8::from_utf8;

verus! {

/// The line by which an entry is known to be the application's own.
pub const AUTOSTART_MARKER: &'static str = "X-OpenMouseMemory-Autostart=true";

/// A text or what is wrong, by their views.
pub open spec fn told(result: std::result::Result<String, String>) -> std::result::Result<Seq<char>, Seq<char>> {
    match result {
        Ok(text) => Ok(text@),
        Err(message) => Err(message@),
    }
}

/// Whether an entry is the application's own.
pub fn autostart_contents_managed(entry: &str) -> (managed: bool)
    ensures
        managed == occurs(entry@, AUTOSTART_MARKER@),
{
    contains_text(entry, AUTOSTART_MARKER)
}

/// Whether a character has a meaning of its own between quotation marks.
pub open spec fn is_special(c: char) -> bool {
    c == '\\' || c == '"' || c == '`' || c == '$'
}

/// A text with a backslash before each character that has a meaning of its own.
pub open spec fn escaped(text: Seq<char>) -> Seq<char>
    decreases text.len(),
{
    if text.len() == 0 {
        Seq::empty()
    } else if is_special(text[0]) {
        seq!['\\', text[0]] + escaped(text.skip(1))
    } else {
        seq![text[0]] + escaped(text.skip(1))
    }
}

/// What a reader makes of an escaped text: a backslash stands for nothing, and the character behind it for itself.
pub open spec fn unescaped(text: Seq<char>) -> Seq<char>
    decreases text.len(),
{
    if text.len() == 0 {
        Seq::empty()
    } else if text[0] == '\\' && text.len() >= 2 {
        seq![text[1]] + unescaped(text.skip(2))
    } else {
        seq![text[0]] + unescaped(text.skip(1))
    }
}

/// Escaping loses nothing: a reader of the escaped text gets the text back.
pub proof fn escaping_can_be_undone(text: Seq<char>)
    ensures
        unescaped(escaped(text)) == text,
    decreases text.len(),
{
    if text.len() > 0 {
        let rest = text.skip(1);
        escaping_can_be_undone(rest);
        if is_special(text[0]) {
            assert(escaped(text).skip(2) =~= escaped(rest));
        } else {
            assert(escaped(text).skip(1) =~= escaped(rest));
        }
        assert(seq![text[0]] + rest =~= text);
    }
}

/// Escaping brings no line break into a text that has none.
pub proof fn escaping_brings_no_line_break(text: Seq<char>)
    requires
        !text.contains('\n'),
        !text.contains('\r'),
    ensures
        !escaped(text).contains('\n'),
        !escaped(text).contains('\r'),
    decreases text.len(),
{
    if text.len() > 0 {
        let rest = text.skip(1);
        assert forall|i: int| 0 <= i < rest.len() implies rest[i] != '\n' && rest[i] != '\r' by {
            assert(text[i + 1] == rest[i]);
        }
        escaping_brings_no_line_break(rest);
        assert(text[0] != '\n' && text[0] != '\r');
        assert forall|i: int| 0 <= i < escaped(text).len() implies escaped(text)[i] != '\n' && escaped(text)[i]
            != '\r' by {
            let tail = escaped(rest);
            let lead: int = if is_special(text[0]) {
                2
            } else {
                1
            };
            if i >= lead {
                assert(escaped(text)[i] == tail[i - lead]);
                assert(tail.contains(tail[i - lead]));
            }
        }
    }
}

/// An executable as an entry names it: its path between quotation marks.
pub open spec fn exec_path_of(path: Seq<u8>) -> std::result::Result<Seq<char>, Seq<char>> {
    if !valid_utf8(path) {
        Err("the executable path is not valid UTF-8"@)
    } else if decode_utf8(path).contains('\n') || decode_utf8(path).contains('\r') {
        Err("the executable path contains an invalid line break"@)
    } else {
        Ok(quoted(decode_utf8(path)))
    }
}

/// A text between quotation marks.
pub open spec fn quoted(text: Seq<char>) -> Seq<char> {
    seq!['"'] + escaped(text) + seq!['"']
}

fn quote(chars: &Vec<char>) -> (text: String)
    ensures
        text@ == quoted(chars@),
{
    let mut text = String::new();
    text.push('"');
    let mut i: usize = 0;
    assert(chars@.skip(0) =~= chars@);
    assert(text@ =~= seq!['"']);
    while i < chars.len()
        invariant
            i <= chars.len(),
            text@ + escaped(chars@.skip(i as int)) == seq!['"'] + escaped(chars@),
        decreases chars.len() - i,
    {
        let c = chars[i];
        let ghost before = text@;
        let ghost rest = chars@.skip(i as int);
        assert(rest.skip(1) =~= chars@.skip(i + 1));
        if c == '\\' || c == '"' || c == '`' || c == '$' {
            text.push('\\');
            text.push(c);
            assert(before + (seq!['\\', c] + escaped(chars@.skip(i + 1))) =~= text@ + escaped(chars@.skip(i + 1)));
        } else {
            text.push(c);
            assert(before + (seq![c] + escaped(chars@.skip(i + 1))) =~= text@ + escaped(chars@.skip(i + 1)));
        }
        i = i + 1;
    }
    assert(text@ =~= seq!['"'] + escaped(chars@));
    text.push('"');
    assert(text@ =~= quoted(chars@));
    text
}

fn has_line_break(chars: &Vec<char>) -> (found: bool)
    ensures
        found == (chars@.contains('\n') || chars@.contains('\r')),
{
    let mut i: usize = 0;
    while i < chars.len()
        invariant
            i <= chars.len(),
            forall|k: int| 0 <= k < i ==> chars@[k] != '\n' && chars@[k] != '\r',
        decreases chars.len() - i,
    {
        if chars[i] == '\n' || chars[i] == '\r' {
            return true;
        }
        i = i + 1;
    }
    false
}

/// Names an executable as an entry does.
pub fn desktop_exec_path(path: &[u8]) -> (exec: std::result::Result<String, String>)
    ensures
        told(exec) == exec_path_of(path@),
{
    match from_utf8(copied(path)) {
        Ok(text) => {
            let chars = chars_of(text.as_str());
            if has_line_break(&chars) {
                Err("the executable path contains an invalid line break".to_owned())
            } else {
                Ok(quote(&chars))
            }
        },
        Err(_) => Err("the executable path is not valid UTF-8".to_owned()),
    }
}

/// An entry that starts an executable, hidden in the tray where that is asked for.
pub open spec fn entry_of(executable: Seq<u8>, start_in_tray: bool) -> std::result::Result<Seq<char>, Seq<char>> {
    match exec_path_of(executable) {
        Ok(executable) => Ok(entry_with(executable, start_in_tray)),
        Err(message) => Err(message),
    }
}

/// An entry with an executable that is already named as entries do.
pub open spec fn entry_with(executable: Seq<char>, start_in_tray: bool) -> Seq<char> {
    "[Desktop Entry]\nType=Application\nVersion=1.0\nName=Open Mouse Memory Tray\nComment=Keep Logitech mouse status available\n"@
        + "Exec="@ + executable + (if start_in_tray {
        " --tray"@
    } else {
        ""@
    })
        + ("\nIcon=open-mouse-memory\nTerminal=false\nCategories=Settings;HardwareSettings;\nX-GNOME-Autostart-enabled=true\n"@
        + AUTOSTART_MARKER@ + "\n"@)
}

/// Builds an entry that starts an executable.
pub fn autostart_entry(executable: &[u8], start_in_tray: bool) -> (entry: std::result::Result<String, String>)
    ensures
        told(entry) == entry_of(executable@, start_in_tray),
{
    match desktop_exec_path(executable) {
        Ok(executable) => {
            let mut entry = join4(
                "[Desktop Entry]\nType=Application\nVersion=1.0\nName=Open Mouse Memory Tray\nComment=Keep Logitech mouse status available\n",
                "Exec=",
                executable.as_str(),
                if start_in_tray { " --tray" } else { "" },
            );
            let mut rest = "\nIcon=open-mouse-memory\nTerminal=false\nCategories=Settings;HardwareSettings;\nX-GNOME-Autostart-enabled=true\n".to_owned();
            rest.append(AUTOSTART_MARKER);
            rest.append("\n");
            entry.append(rest.as_str());
            Ok(entry)
        },
        Err(message) => Err(message),
    }
}

/// Every entry that the application builds is known to be its own, so that it can be replaced and removed.
pub proof fn built_entries_are_managed(executable: Seq<u8>, start_in_tray: bool)
    ensures
        entry_of(executable, start_in_tray) matches Ok(entry) ==> occurs(entry, AUTOSTART_MARKER@),
{
    if let Ok(executable) = exec_path_of(executable) {
        let entry = entry_with(executable, start_in_tray);
        let at = entry.len() - "\n"@.len() - AUTOSTART_MARKER@.len();
        assert(entry.subrange(at, at + AUTOSTART_MARKER@.len()) =~= AUTOSTART_MARKER@);
        assert(stands_at(entry, AUTOSTART_MARKER@, at));
    }
}

/// A reader of an entry gets back the very path that the entry was built for.
pub proof fn entry_names_the_executable(executable: Seq<u8>)
    requires
        exec_path_of(executable) is Ok,
    ensures
        exec_path_of(executable) matches Ok(named) && named.len() >= 2 && unescaped(
            named.subrange(1, named.len() - 1),
        ) == decode_utf8(executable),
{
    let text = decode_utf8(executable);
    let named = quoted(text);
    assert(named.subrange(1, named.len() - 1) =~= escaped(text));
    escaping_can_be_undone(text);
}

/// The executable to start at login: the image where the application runs from one, and otherwise the executable
/// that runs now.
pub open spec fn preferred_executable(appimage: Option<Seq<u8>>, current_executable: Seq<u8>) -> Seq<u8> {
    match appimage {
        Some(path) if is_absolute(path) => path,
        _ => current_executable,
    }
}

/// Chooses the executable to start at login.
pub fn preferred_autostart_executable(appimage: Option<&[u8]>, current_executable: &[u8]) -> (path: Vec<u8>)
    ensures
        path@ == preferred_executable(path_option(appimage), current_executable@),
{
    if let Some(path) = appimage {
        if path.len() > 0 && path[0] == 0x2f {
            return copied(path);
        }
    }
    copied(current_executable)
}

/// What is to be done to the entry.
#[derive(Debug, Clone, Copy, PartialEq, Eq, Structural)]
pub enum AutostartChange {
    /// There is no entry, and none is wanted.
    Keep,
    /// The entry is to be removed.
    Remove,
    /// The entry is to be written.
    Write,
}

/// What is to be done to the entry, given what is there. An entry of someone else is left alone.
pub open spec fn autostart_change(enabled: bool, existing: Option<Seq<char>>) -> std::result::Result<
    AutostartChange,
    Seq<char>,
> {
    match existing {
        Some(entry) => if !occurs(entry, AUTOSTART_MARKER@) {
            Err("the existing autostart entry is not managed by Open Mouse Memory"@)
        } else if enabled {
            Ok(AutostartChange::Write)
        } else {
            Ok(AutostartChange::Remove)
        },
        None => Ok(
            if enabled {
                AutostartChange::Write
            } else {
                AutostartChange::Keep
            },
        ),
    }
}

/// Decides what is to be done to the entry.
pub fn plan_autostart(enabled: bool, existing: Option<&str>) -> (change: std::result::Result<AutostartChange, String>)
    ensures
        autostart_change(
            enabled,
            match existing {
                Some(entry) => Some(entry@),
                None => None,
            },
        ) == (match change {
            Ok(change) => Ok(change),
            Err(message) => Err(message@),
        }),
{
    match existing {
        Some(entry) => if !autostart_contents_managed(entry) {
            Err("the existing autostart entry is not managed by Open Mouse Memory".to_owned())
        } else if enabled {
            Ok(AutostartChange::Write)
        } else {
            Ok(AutostartChange::Remove)
        },
        None => if enabled {
            Ok(AutostartChange::Write)
        } else {
            Ok(AutostartChange::Keep)
        },
    }
}

/// An entry that the application built can be replaced and removed again.
pub proof fn built_entries_can_be_changed(executable: Seq<u8>, start_in_tray: bool, enabled: bool)
    ensures
        entry_of(executable, start_in_tray) matches Ok(entry) ==> autostart_change(enabled, Some(entry)) == Ok::<
            AutostartChange,
            Seq<char>,
        >(
            if enabled {
                AutostartChange::Write
            } else {
                AutostartChange::Remove
            },
        ),
{
    built_entries_are_managed(executable, start_in_tray);
}

}
