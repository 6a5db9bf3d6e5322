//! Starting the tray app with Windows: the registry command, and what the
//! registry's status codes mean.
use vstd::prelude::*;

use crate::text::{decimal, push_decimal, push_str, string_from_chars};

verus! {

/// The Win32 status for success.
pub const ERROR_SUCCESS: u32 = 0;

/// The Win32 status for a value that does not exist.
pub const ERROR_FILE_NOT_FOUND: u32 = 2;

/// Why the startup setting could not be read or changed.
#[derive(Debug)]
pub enum StartupError {
    Registry(u32),
    CurrentExe(String),
    Unsupported,
}

/// The command the `Run` registry value holds: the quoted program path, then `tray`.
pub fn startup_command(exe: &str) -> (command: String)
    ensures
        command@ == seq!['"'] + exe@ + "\" tray"@,
{
    let mut out: Vec<char> = Vec::new();
    out.push('"');
    push_str(&mut out, exe);
    push_str(&mut out, "\" tray");
    assert(out@ =~= seq!['"'] + exe@ + "\" tray"@);
    string_from_chars(&out)
}

/// Whether starting with Windows is on. Outside Windows the setting does not exist.
pub fn is_enabled() -> (r: Result<bool, StartupError>)
    ensures
        r matches Err(StartupError::Unsupported),
{
    Err(StartupError::Unsupported)
}

/// Turns starting with Windows on or off. Outside Windows the setting does not exist.
pub fn set_enabled(enabled: bool) -> (r: Result<(), StartupError>)
    ensures
        r matches Err(StartupError::Unsupported),
{
    Err(StartupError::Unsupported)
}

/// What querying the `Run` value reports: present, absent, or a failure.
pub fn enabled_from_query_status(status: u32) -> (r: Result<bool, StartupError>)
    ensures
        status == ERROR_SUCCESS ==> r == Ok::<bool, StartupError>(true),
        status == ERROR_FILE_NOT_FOUND ==> r == Ok::<bool, StartupError>(false),
        status != ERROR_SUCCESS && status != ERROR_FILE_NOT_FOUND ==> (r matches Err(StartupError::Registry(s)) && s == status),
{
    if status == ERROR_SUCCESS {
        Ok(true)
    } else if status == ERROR_FILE_NOT_FOUND {
        Ok(false)
    } else {
        Err(StartupError::Registry(status))
    }
}

/// Whether writing the `Run` value succeeded.
pub fn write_outcome(status: u32) -> (r: Result<(), StartupError>)
    ensures
        status == ERROR_SUCCESS ==> r is Ok,
        status != ERROR_SUCCESS ==> (r matches Err(StartupError::Registry(s)) && s == status),
{
    if status == ERROR_SUCCESS {
        Ok(())
    } else {
        Err(StartupError::Registry(status))
    }
}

/// Whether deleting the `Run` value succeeded; a value that was already gone is no failure.
pub fn delete_outcome(status: u32) -> (r: Result<(), StartupError>)
    ensures
        (status == ERROR_SUCCESS || status == ERROR_FILE_NOT_FOUND) ==> r is Ok,
        (status != ERROR_SUCCESS && status != ERROR_FILE_NOT_FOUND) ==> (r matches Err(StartupError::Registry(s)) && s == status),
{
    if status != ERROR_SUCCESS && status != ERROR_FILE_NOT_FOUND {
        Err(StartupError::Registry(status))
    } else {
        Ok(())
    }
}

impl StartupError {
    /// The text shown for the error.
    pub fn message(&self) -> (s: String)
        ensures
            s@ == match *self {
                StartupError::Registry(code) => "failed to access Windows startup setting: error "@ + decimal(code as nat),
                StartupError::CurrentExe(reason) => "failed to determine current executable: "@ + reason@,
                StartupError::Unsupported => "startup toggle is only supported on Windows"@,
            },
    {
        let mut out: Vec<char> = Vec::new();
        match self {
            StartupError::Registry(code) => {
                push_str(&mut out, "failed to access Windows startup setting: error ");
                push_decimal(&mut out, *code as u64);
            },
            StartupError::CurrentExe(reason) => {
                push_str(&mut out, "failed to determine current executable: ");
                push_str(&mut out, reason.as_str());
            },
            StartupError::Unsupported => push_str(&mut out, "startup toggle is only supported on Windows"),
        }
        string_from_chars(&out)
    }
}

} // verus!
