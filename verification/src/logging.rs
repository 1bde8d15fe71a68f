//! Where the log files go: the per-user data directory of each desktop
//! system, under the product's folder. Reading the environment and creating
//! the files belong to the application.

use vstd::prelude::*;
use crate::host_event::HostError;

verus! {

/// The operating systems with a known log location.
#[derive(Debug, Clone, Copy, PartialEq, Eq, Structural)]
pub enum TargetOs {
    /// Windows: under `%LOCALAPPDATA%`.
    Windows,
    /// Linux: under `$HOME/.local/share`.
    Linux,
    /// macOS: under `$HOME/Library/Application Support`.
    Macos,
    /// Any other system: no log location.
    Other,
}

/// The environment variable holding the base directory on `os`.
pub open spec fn base_variable_spec(os: TargetOs) -> Option<Seq<char>> {
    match os {
        TargetOs::Windows => Some("LOCALAPPDATA"@),
        TargetOs::Linux => Some("HOME"@),
        TargetOs::Macos => Some("HOME"@),
        TargetOs::Other => None,
    }
}

/// The path of the log directory on `os`, as segments, for product folder
/// `product` and base directory `base`.
pub open spec fn log_segments(os: TargetOs, base: Seq<char>, product: Seq<char>) -> Seq<Seq<char>> {
    match os {
        TargetOs::Windows => seq![base, product, "logs"@],
        TargetOs::Linux => seq![base, ".local"@, "share"@, product, "logs"@],
        _ => seq![base, "Library"@, "Application Support"@, product, "logs"@],
    }
}

/// The environment variable holding the base directory on `os`, if `os` has
/// a log location.
pub fn base_variable(os: TargetOs) -> (r: Option<&'static str>)
    ensures
        match r {
            Some(v) => base_variable_spec(os) == Some(v@),
            None => base_variable_spec(os) is None,
        },
{
    match os {
        TargetOs::Windows => Some("LOCALAPPDATA"),
        TargetOs::Linux => Some("HOME"),
        TargetOs::Macos => Some("HOME"),
        TargetOs::Other => None,
    }
}

/// The segments of the log directory, given the base directory.
fn segments(os: TargetOs, base: &str, product: &str) -> (r: Vec<String>)
    requires
        os != TargetOs::Other,
    ensures
        r@.map_values(|s: String| s@) == log_segments(os, base@, product@),
{
    let mut r: Vec<String> = Vec::new();
    r.push(base.to_owned());
    match os {
        TargetOs::Windows => {},
        TargetOs::Linux => {
            r.push(String::from_str(".local"));
            r.push(String::from_str("share"));
        },
        _ => {
            r.push(String::from_str("Library"));
            r.push(String::from_str("Application Support"));
        },
    }
    r.push(product.to_owned());
    r.push(String::from_str("logs"));
    assert(r@.map_values(|s: String| s@) =~= log_segments(os, base@, product@));
    r
}

/// The host shim's log directory, as path segments, from the value of the
/// base variable (`None` when it is not set). An unset variable is an error
/// naming it; a system without a log location is `PlatformNotSupported`.
pub fn log_directory(os: TargetOs, base: Option<&str>) -> (r: Result<Vec<String>, HostError>)
    ensures
        match (os, base) {
            (TargetOs::Other, _) => r matches Err(HostError::PlatformNotSupported),
            (_, None) => r matches Err(HostError::WindowCreationFailed(m)) && m@
                == base_variable_spec(os).unwrap() + " not set"@,
            (_, Some(b)) => r matches Ok(v) && v@.map_values(|s: String| s@) == log_segments(
                os,
                b@,
                "CoreOS"@,
            ),
        },
{
    match os {
        TargetOs::Other => Err(HostError::PlatformNotSupported),
        _ => match base {
            Some(b) => Ok(segments(os, b, "CoreOS")),
            None => {
                let m = match os {
                    TargetOs::Windows => String::from_str("LOCALAPPDATA not set"),
                    _ => String::from_str("HOME not set"),
                };
                proof {
                    reveal_strlit("LOCALAPPDATA not set");
                    reveal_strlit("HOME not set");
                    reveal_strlit("LOCALAPPDATA");
                    reveal_strlit("HOME");
                    reveal_strlit(" not set");
                    assert(m@ =~= base_variable_spec(os).unwrap() + " not set"@);
                }
                Err(HostError::WindowCreationFailed(m))
            },
        },
    }
}

/// The demo's log directory, as path segments, from the value of the base
/// variable; `None` when it is not set or the system has no log location.
pub fn demo_log_directory(os: TargetOs, base: Option<&str>) -> (r: Option<Vec<String>>)
    ensures
        match (os, base) {
            (TargetOs::Other, _) => r is None,
            (_, None) => r is None,
            (_, Some(b)) => r matches Some(v) && v@.map_values(|s: String| s@) == log_segments(
                os,
                b@,
                "Workspace"@,
            ),
        },
{
    match os {
        TargetOs::Other => None,
        _ => match base {
            Some(b) => Some(segments(os, b, "Workspace")),
            None => None,
        },
    }
}

} // verus!
