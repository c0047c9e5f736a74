//! What only the machine can supply: identifiers that nobody has seen before,
//! and the time.

use vstd::prelude::*;
use crate::models::Timestamp;

verus! {

/// A new random identifier: `uuid::Uuid::new_v4`, in its hyphenated text form.
/// Nothing is claimed of the text: two calls are expected to differ, and the
/// store checks on every insert that they did. The call stops the program
/// where the system's random source fails.
#[verifier::external_body]
pub(crate) fn fresh_id() -> (id: String) {
    uuid::Uuid::new_v4().to_string()
}

/// The server's clock: `chrono::Utc::now`, in whole seconds since the Unix
/// epoch. Nothing is claimed of the value. The call stops the program on a
/// machine whose clock stands before 1970.
#[verifier::external_body]
pub(crate) fn current_timestamp() -> (now: Timestamp) {
    chrono::Utc::now().timestamp()
}

} // verus!
