//! Where files are kept. A path is the bytes that the system knows it by.

use vstd::prelude::*;

use crate::bytes::{append_bytes, copied};
use crate::text::{chars_of, dec, decimal, join2, join3};

verus! {

/// What the application calls its directories.
pub const APP_SLUG: &'static str = "open-mouse-memory";

/// The bytes of a text of ASCII characters.
pub open spec fn ascii(text: Seq<char>) -> Seq<u8> {
    text.map_values(|c: char| c as u8)
}

/// The bytes of a text of ASCII characters.
pub fn ascii_bytes(text: &str) -> (bytes: Vec<u8>)
    ensures
        bytes@ == ascii(text@),
{
    let chars = chars_of(text);
    let mut bytes: Vec<u8> = Vec::new();
    let mut i: usize = 0;
    while i < chars.len()
        invariant
            i <= chars.len(),
            bytes@ =~= ascii(chars@.take(i as int)),
        decreases chars.len() - i,
    {
        bytes.push(chars[i] as u8);
        i = i + 1;
    }
    assert(chars@.take(i as int) =~= chars@);
    bytes
}

/// Whether a path starts at the root.
pub open spec fn is_absolute(path: Seq<u8>) -> bool {
    path.len() > 0 && path[0] == 0x2f
}

/// A name below a directory.
pub open spec fn below(directory: Seq<u8>, name: Seq<u8>) -> Seq<u8> {
    if directory.len() == 0 || directory.last() == 0x2f {
        directory + name
    } else {
        directory.push(0x2f) + name
    }
}

/// A name below a directory.
pub fn path_below(directory: &[u8], name: &[u8]) -> (path: Vec<u8>)
    ensures
        path@ == below(directory@, name@),
{
    let mut path = copied(directory);
    if path.len() > 0 && path[path.len() - 1] != 0x2f {
        path.push(0x2f);
    }
    append_bytes(&mut path, name);
    path
}

/// A path by its bytes, where there is one.
pub open spec fn path_option(path: Option<&[u8]>) -> Option<Seq<u8>> {
    match path {
        Some(path) => Some(path@),
        None => None,
    }
}

/// A path by its bytes, where there is one.
pub open spec fn found_path(path: Option<Vec<u8>>) -> Option<Seq<u8>> {
    match path {
        Some(path) => Some(path@),
        None => None,
    }
}

/// The directory that a variable names where it is absolute, or else one below the home directory.
pub open spec fn user_directory(variable: Option<Seq<u8>>, home: Option<Seq<u8>>, fallback: Seq<char>) -> Option<
    Seq<u8>,
> {
    match variable {
        Some(path) if is_absolute(path) => Some(path),
        _ => match home {
            Some(home) => Some(below(home, ascii(fallback))),
            None => None,
        },
    }
}

fn find_user_directory(variable: Option<&[u8]>, home: Option<&[u8]>, fallback: &str) -> (path: Option<Vec<u8>>)
    ensures
        found_path(path) == user_directory(path_option(variable), path_option(home), fallback@),
{
    if let Some(path) = variable {
        if path.len() > 0 && path[0] == 0x2f {
            return Some(copied(path));
        }
    }
    match home {
        Some(home) => Some(path_below(home, ascii_bytes(fallback).as_slice())),
        None => None,
    }
}

/// Where caches are kept.
pub fn cache_home(variable: Option<&[u8]>, home: Option<&[u8]>) -> (path: Option<Vec<u8>>)
    ensures
        found_path(path) == user_directory(path_option(variable), path_option(home), ".cache"@),
{
    find_user_directory(variable, home, ".cache")
}

/// Where settings are kept.
pub fn config_home(variable: Option<&[u8]>, home: Option<&[u8]>) -> (path: Option<Vec<u8>>)
    ensures
        found_path(path) == user_directory(path_option(variable), path_option(home), ".config"@),
{
    find_user_directory(variable, home, ".config")
}

/// A file in a directory below another.
pub open spec fn file_below(directory: Option<Seq<u8>>, name: Seq<char>, file: Seq<char>) -> Option<Seq<u8>> {
    match directory {
        Some(directory) => Some(below(below(directory, ascii(name)), ascii(file))),
        None => None,
    }
}

fn find_file(directory: Option<Vec<u8>>, name: &str, file: &str) -> (path: Option<Vec<u8>>)
    ensures
        found_path(path) == file_below(found_path(directory), name@, file@),
{
    match directory {
        Some(directory) => {
            let inner = path_below(directory.as_slice(), ascii_bytes(name).as_slice());
            Some(path_below(inner.as_slice(), ascii_bytes(file).as_slice()))
        },
        None => None,
    }
}

/// Where the last state of the device is kept.
pub fn runtime_cache_path(variable: Option<&[u8]>, home: Option<&[u8]>) -> (path: Option<Vec<u8>>)
    ensures
        found_path(path) == file_below(
            user_directory(path_option(variable), path_option(home), ".cache"@),
            APP_SLUG@,
            "device.json"@,
        ),
{
    find_file(cache_home(variable, home), APP_SLUG, "device.json")
}

/// Where the settings of the application are kept.
pub fn app_settings_path(variable: Option<&[u8]>, home: Option<&[u8]>) -> (path: Option<Vec<u8>>)
    ensures
        found_path(path) == file_below(
            user_directory(path_option(variable), path_option(home), ".config"@),
            APP_SLUG@,
            "settings.json"@,
        ),
{
    find_file(config_home(variable, home), APP_SLUG, "settings.json")
}

/// Where the desktop looks for what it starts at login.
pub fn autostart_path(variable: Option<&[u8]>, home: Option<&[u8]>) -> (path: Option<Vec<u8>>)
    ensures
        found_path(path) == file_below(
            user_directory(path_option(variable), path_option(home), ".config"@),
            "autostart"@,
            APP_SLUG@ + ".desktop"@,
        ),
{
    let file = join2(APP_SLUG, ".desktop");
    find_file(config_home(variable, home), "autostart", file.as_str())
}

/// Where a file is written before it takes its place: its path with a mark of the process behind it.
pub fn temporary_path(path: &[u8], process_id: u32) -> (temporary: Vec<u8>)
    ensures
        temporary@ == path@ + ascii("."@ + dec(process_id as nat) + ".tmp"@),
{
    let mut temporary = copied(path);
    let mark = join3(".", decimal(process_id as u64).as_str(), ".tmp");
    append_bytes(&mut temporary, ascii_bytes(mark.as_str()).as_slice());
    temporary
}

/// Where a file of the desktop application is written before it takes its place.
pub fn replacement_path(path: &[u8], process_id: u32) -> (temporary: Vec<u8>)
    ensures
        temporary@ == path@ + ascii(".tmp-"@ + dec(process_id as nat)),
{
    let mut temporary = copied(path);
    let mark = join2(".tmp-", decimal(process_id as u64).as_str());
    append_bytes(&mut temporary, ascii_bytes(mark.as_str()).as_slice());
    temporary
}

/// A path that a variable or the home directory gives is absolute where the home directory is.
pub proof fn user_directories_are_absolute(variable: Option<Seq<u8>>, home: Option<Seq<u8>>, fallback: Seq<char>)
    requires
        home matches Some(home) ==> is_absolute(home),
    ensures
        user_directory(variable, home, fallback) matches Some(path) ==> is_absolute(path),
        user_directory(variable, home, fallback) is None ==> home is None,
{
}

/// What is found below an absolute directory is absolute.
pub proof fn files_below_are_absolute(directory: Seq<u8>, name: Seq<char>, file: Seq<char>)
    requires
        is_absolute(directory),
    ensures
        file_below(Some(directory), name, file) matches Some(path) && is_absolute(path),
{
}

}
