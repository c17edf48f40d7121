//! Requests while the server joins its cluster.
use vstd::prelude::*;
use vstd::string::*;

use crate::text::same;

verus! {

/// Whether a path is one by which the server's health is watched.
pub open spec fn is_probe(path: Seq<char>) -> bool {
    path == "/health/live"@ || path == "/health/ready"@
}

/// Whether a request is served: always where it watches the server's health, else once the server
/// is ready.
pub fn is_served(path: &str, ready: bool) -> (r: bool)
    ensures
        r == (ready || is_probe(path@)),
{
    ready || same(path, "/health/live") || same(path, "/health/ready")
}

/// Health is watched at two addresses, and at no others.
pub proof fn health_is_watched_at_two_addresses(path: Seq<char>)
    ensures
        is_probe("/health/live"@),
        is_probe("/health/ready"@),
        is_probe(path) ==> path.len() == 12 || path.len() == 13,
        is_probe(path) ==> path.take(8) == "/health/"@,
{
    reveal_strlit("/health/live");
    reveal_strlit("/health/ready");
    reveal_strlit("/health/");
    assert("/health/live"@.take(8) =~= "/health/"@);
    assert("/health/ready"@.take(8) =~= "/health/"@);
}

} // verus!
