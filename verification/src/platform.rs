//! Platform identifiers. The engine works with lowercase platform name
//! strings ("windows", "linux", "osx"); this module normalizes whatever the
//! host reports into that form.
use vstd::prelude::*;

use crate::text::{lower_seq, replace_all, spec_replace, to_ascii_lowercase};

verus! {

#[derive(Debug, Clone, Copy, PartialEq, Eq, Structural)]
pub enum OperatingSystem {
    Windows,
    Linux,
    MacOS,
}

/// Normalizes a reported operating-system name: ASCII lowercase, with the
/// historical "darwin" name rewritten to "osx".
pub fn parse_os(os: String) -> (r: String)
    ensures
        r@ == spec_replace(lower_seq(os@), "darwin"@, "osx"@),
{
    proof {
        reveal_strlit("darwin");
    }
    let lowered = to_ascii_lowercase(os.as_str());
    replace_all(lowered.as_str(), "darwin", "osx")
}

} // verus!
