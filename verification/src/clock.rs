//! The one point where the registry consults the outside world: the wall
//! clock that stamps inventory records.

use vstd::prelude::*;

verus! {

/// Relies on chrono's `Utc::now` and `DateTime::format` with the fixed
/// pattern `%a %b %e %T %Y` (abbreviated weekday, abbreviated month, day of
/// month, time, year): the rendered timestamp is never empty, though its text
/// depends on the moment of the call.
#[verifier::external_body]
pub(crate) fn current_timestamp() -> (r: String)
    ensures
        r@.len() > 0,
{
    let now: chrono::DateTime<chrono::Utc> = chrono::Utc::now();
    now.format("%a %b %e %T %Y").to_string()
}

} // verus!
