//! The time of day for the lines of the log.

use vstd::prelude::*;

verus! {

/// `chrono::Local::now`, formatted with `%H:%M:%S`: the local time of day as
/// the system clock gives it. Nothing is claimed of the text. The call
/// fails only on the state of the machine, never on an input: where the
/// system clock stands before 1970, and where the lookup of the local time
/// zone gives no offset for the present instant.
#[verifier::external_body]
pub(crate) fn local_time_of_day() -> (stamp: String) {
    chrono::Local::now().format("%H:%M:%S").to_string()
}

} // verus!
