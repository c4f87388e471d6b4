//! The system clock, as the store's driver reads it.

use vstd::prelude::*;

verus! {

/// Reads the clock through `mongodb::bson::DateTime::now` and hands back the
/// reading's `timestamp_millis`: milliseconds since the Unix epoch. Nothing
/// is claimed of the number: it is whatever the machine's clock says.
#[verifier::external_body]
pub(crate) fn current_millis() -> (now: i64) {
    mongodb::bson::DateTime::now().timestamp_millis()
}

} // verus!
