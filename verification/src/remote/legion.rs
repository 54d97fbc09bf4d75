//! Where this device keeps its identity, and what is said when it cannot be read.

use vstd::prelude::*;
use crate::text::copy_of;
use crate::text::texts;

verus! {

/// The environment variable that holds the home directory.
pub open spec fn home_variable_text(windows: bool) -> Seq<char> {
    if windows {
        "USERPROFILE"@
    } else {
        "HOME"@
    }
}

/// The environment variable that holds the home directory.
pub fn home_variable(windows: bool) -> (r: &'static str)
    ensures
        r@ == home_variable_text(windows),
{
    if windows {
        "USERPROFILE"
    } else {
        "HOME"
    }
}

/// The home directory, from what the environment holds under [`home_variable`].
pub fn home_dir(windows: bool, home: Option<String>) -> (r: Result<String, String>)
    ensures
        match r {
            Ok(dir) => home == Some(dir),
            Err(message) => home is None && message@ == home_variable_text(windows)
                + " is not set; cannot locate ~/.legion"@,
        },
{
    match home {
        Some(dir) => Ok(dir),
        None => {
            let mut message = copy_of(home_variable(windows));
            message.push_str(" is not set; cannot locate ~/.legion");
            Err(message)
        },
    }
}

/// The file that holds the identity: the home directory, and what is joined to it.
pub fn legion_config_path(windows: bool, home: Option<String>) -> (r: Result<Vec<String>, String>)
    ensures
        match r {
            Ok(parts) => home matches Some(dir) && texts(parts@) == seq![
                dir@,
                ".legion"@,
                "config.json"@,
            ],
            Err(message) => home is None && message@ == home_variable_text(windows)
                + " is not set; cannot locate ~/.legion"@,
        },
{
    match home_dir(windows, home) {
        Ok(dir) => {
            let mut parts: Vec<String> = Vec::new();
            parts.push(dir);
            parts.push(copy_of(".legion"));
            parts.push(copy_of("config.json"));
            assert(texts(parts@) =~= seq![dir@, ".legion"@, "config.json"@]);
            Ok(parts)
        },
        Err(message) => Err(message),
    }
}

/// What is said when the file at `path` cannot be read.
pub fn unreadable_config(path: &str, err: &str) -> (r: String)
    ensures
        r@ == "cloud relay: failed to read Legion config at "@ + path@ + ": "@ + err@,
{
    let mut message = copy_of("cloud relay: failed to read Legion config at ");
    message.push_str(path);
    message.push_str(": ");
    message.push_str(err);
    message
}

/// What is said when the file at `path` does not hold an identity.
pub fn incomplete_config(path: &str, err: &str) -> (r: String)
    ensures
        r@ == "cloud relay: Legion config at "@ + path@
            + " is missing required fields (id/token/serverUrl): "@ + err@,
{
    let mut message = copy_of("cloud relay: Legion config at ");
    message.push_str(path);
    message.push_str(" is missing required fields (id/token/serverUrl): ");
    message.push_str(err);
    message
}

} // verus!
