//! How the host's operating system is named.

use vstd::prelude::*;
use vstd::string::*;

verus! {

/// What stands for a part of the name that the system does not tell.
pub const UNKNOWN: &'static str = "Unknown";

/// A part of the name, or [`UNKNOWN`] in its place.
pub open spec fn or_unknown(part: Option<String>) -> Seq<char> {
    match part {
        Some(text) => text@,
        None => UNKNOWN@,
    }
}

/// The system's name, a space, and its version.
pub open spec fn spec_os_label(name: Option<String>, version: Option<String>) -> Seq<char> {
    or_unknown(name) + " "@ + or_unknown(version)
}

/// Names the operating system by its name and version, as far as the system
/// tells them.
pub fn os_label(name: Option<String>, version: Option<String>) -> (label: String)
    ensures
        label@ == spec_os_label(name, version),
{
    let mut label = match name {
        Some(text) => text,
        None => String::from_str(UNKNOWN),
    };
    label.append(" ");
    match version {
        Some(text) => label.append(text.as_str()),
        None => label.append(UNKNOWN),
    }
    label
}

} // verus!
