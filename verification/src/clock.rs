//! Points in time.
use vstd::prelude::*;

verus! {

/// Microseconds since the start of 1970, in UTC.
pub type Timestamp = i64;

} // verus!
