//! The calendar date that new records are stamped with.

use vstd::prelude::*;

verus! {

/// The current UTC date as text, year first: `chrono::Utc::now()`, written
/// by `format` under the pattern `%Y-%m-%d` and collected with `to_string`.
///
/// Nothing is claimed of the text, which depends on the system clock. The
/// call is not verified; `Utc::now` panics where the clock stands before
/// 1970 or beyond the dates that chrono can hold.
#[verifier::external_body]
pub(crate) fn today() -> (date: String) {
    chrono::Utc::now().format("%Y-%m-%d").to_string()
}

} // verus!
