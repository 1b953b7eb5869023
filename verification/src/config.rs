//! Defaults of the widget's settings file.

use vstd::prelude::*;

verus! {

/// The command that starts the Codex CLI, when the settings name none.
pub fn default_codex_path() -> (path: String)
    ensures
        path@ == "codex"@,
{
    String::from_str("codex")
}

/// Seconds between refreshes, when the settings name none.
pub fn default_refresh_secs() -> (secs: u64)
    ensures
        secs == 60,
{
    60
}

} // verus!
