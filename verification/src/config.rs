//! Configuration updates and how a configuration error is shown.
use vstd::prelude::*;

verus! {

/// A pending change to the user's configuration; it carries no data yet.
#[derive(Debug, Clone, Copy)]
pub struct ConfigUpdate;

impl Default for ConfigUpdate {
    fn default() -> (r: Self)
        ensures
            r == ConfigUpdate,
    {
        ConfigUpdate
    }
}

/// The text shown for a configuration error: always the fixed message
/// `config error`, whatever the error holds.
pub open spec fn config_error_text() -> Seq<char> {
    seq!['c', 'o', 'n', 'f', 'i', 'g', ' ', 'e', 'r', 'r', 'o', 'r']
}

/// Formats a configuration error for display.
pub fn format_config_error<T: ?Sized>(error: &T) -> (s: String)
    ensures
        s@ == config_error_text(),
{
    let s = String::from_str("config error");
    proof {
        reveal_strlit("config error");
    }
    assert(s@ =~= config_error_text());
    s
}

} // verus!
