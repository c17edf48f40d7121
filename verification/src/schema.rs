//! The shape of the database.
use vstd::prelude::*;

verus! {

/// The shape that the migrations which come with the server lead to: the highest of their versions.
pub fn embedded_schema_generation(versions: &Vec<i64>) -> (r: i64)
    requires
        versions@.len() > 0,
    ensures
        versions@.contains(r),
        forall|i: int| 0 <= i < versions@.len() ==> #[trigger] versions@[i] <= r,
{
    let mut highest: i64 = versions[0];
    let mut i: usize = 1;
    while i < versions.len()
        invariant
            1 <= i <= versions@.len(),
            versions@.contains(highest),
            forall|k: int| 0 <= k < i ==> #[trigger] versions@[k] <= highest,
        decreases versions@.len() - i,
    {
        if versions[i] > highest {
            highest = versions[i];
            assert(versions@[i as int] == highest);
        }
        i += 1;
    }
    highest
}

} // verus!
