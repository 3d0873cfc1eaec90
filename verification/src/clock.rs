//! The time of day, as the record notes it.

use vstd::prelude::*;

verus! {

/// The current instant in UTC as RFC 3339 text, from `chrono::Utc::now` and
/// `DateTime::to_rfc3339`. Nothing is claimed of the text: it differs from
/// call to call.
#[verifier::external_body]
pub(crate) fn timestamp() -> (r: String) {
    chrono::Utc::now().to_rfc3339()
}

} // verus!
