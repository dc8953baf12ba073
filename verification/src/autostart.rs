//! Launching Mosaic at login (the Windows `Run` registry value).
use vstd::prelude::*;

use crate::locale::{self, LocaleSetting};
use crate::text;
use crate::urls::ov;

verus! {

/// The registry key, under the current user, whose values start programs
/// at login.
pub const RUN_KEY: &'static str = "Software\\Microsoft\\Windows\\CurrentVersion\\Run";

/// The value Mosaic keeps there.
pub const VALUE_NAME: &'static str = "Mosaic";

/// Launch at login is on when the value exists and is not blank. `value` is
/// what the registry holds (`None` where it cannot be read).
pub fn is_enabled(value: &Option<String>) -> (res: bool)
    ensures
        res == match ov(*value) {
            Some(v) => text::trim(v).len() > 0,
            None => false,
        },
{
    match value {
        Some(v) => text::trim_str(v.as_str()).len() > 0,
        None => false,
    }
}

/// The value written to start Mosaic: its executable's path in quotes.
pub fn startup_command(executable: &str) -> (res: String)
    ensures
        res@ == "\""@ + executable@ + "\""@,
{
    let mut v = text::chars_of("\"");
    text::append_str(&mut v, executable);
    text::append_str(&mut v, "\"");
    text::string_of(&v)
}

/// What went wrong while switching launch at login.
#[derive(Debug, Clone, Copy, PartialEq, Eq, Structural)]
pub enum StartupFailure {
    /// The executable could not be located.
    Locate,
    /// The registry value could not be written.
    Enable,
    /// The registry value could not be removed.
    Disable,
}

pub open spec fn failure_label(setting: LocaleSetting, f: StartupFailure) -> Seq<char> {
    match f {
        StartupFailure::Locate => if setting.chinese {
            "无法定位 Mosaic"@
        } else {
            "Unable to locate Mosaic"@
        },
        StartupFailure::Enable => if setting.chinese {
            "无法启用开机自动启动"@
        } else {
            "Unable to enable startup"@
        },
        StartupFailure::Disable => if setting.chinese {
            "无法关闭开机自动启动"@
        } else {
            "Unable to disable startup"@
        },
    }
}

/// The error reported for a failure: its label in the interface language,
/// a colon and the system's reason.
pub fn startup_error(setting: &LocaleSetting, failure: StartupFailure, reason: &str) -> (res: String)
    ensures
        res@ == failure_label(*setting, failure) + ": "@ + reason@,
{
    let label = match failure {
        StartupFailure::Locate => locale::text(setting, "Unable to locate Mosaic", "无法定位 Mosaic"),
        StartupFailure::Enable => locale::text(setting, "Unable to enable startup", "无法启用开机自动启动"),
        StartupFailure::Disable => locale::text(setting, "Unable to disable startup", "无法关闭开机自动启动"),
    };
    let mut v = text::chars_of(label.as_str());
    text::append_str(&mut v, ": ");
    text::append_str(&mut v, reason);
    text::string_of(&v)
}

/// Switching launch at login where there is no startup registry: turning it
/// off is a no-op, turning it on is refused.
pub fn set_enabled(enabled: bool) -> (res: Result<(), String>)
    ensures
        enabled ==> crate::channels::err_is(res, "Launch at login is available only on Windows."@),
        !enabled ==> res is Ok,
{
    if enabled {
        Err(text::string_from("Launch at login is available only on Windows."))
    } else {
        Ok(())
    }
}

} // verus!
