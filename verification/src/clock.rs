//! The wall clock, read once per recorded moment.

use vstd::prelude::*;

verus! {

/// Relies on chrono::Local::now and DateTime::format: the result is the
/// current local time written as `YYYY-MM-DDTHH:MM:SS`. It depends on the
/// clock and the machine's time zone, so nothing is assumed of its value.
#[verifier::external_body]
pub fn now_stamp() -> String {
    chrono::Local::now().format("%Y-%m-%dT%H:%M:%S").to_string()
}

} // verus!
