//! How the server tells of its health.
use vstd::prelude::*;
use vstd::string::*;

verus! {

pub const SERVED: u16 = 200;

pub const SERVICE_UNAVAILABLE: u16 = 503;

/// The status of a reply, and the word in it.
#[derive(Debug, Clone, Copy)]
pub struct HealthResponse {
    pub status_code: u16,
    pub status: &'static str,
}

pub fn live() -> (r: HealthResponse)
    ensures
        r.status_code == SERVED,
        r.status@ == "ok"@,
{
    HealthResponse { status_code: SERVED, status: "ok" }
}

/// Whether the server can do its work: with its database, its key-value store and its files.
pub fn ready(db_ready: bool, kv_ready: bool, storage_ready: bool) -> (r: HealthResponse)
    ensures
        db_ready && kv_ready && storage_ready ==> r.status_code == SERVED && r.status@ == "ready"@,
        !(db_ready && kv_ready && storage_ready) ==> r.status_code == SERVICE_UNAVAILABLE
            && r.status@ == "not_ready"@,
{
    if db_ready && kv_ready && storage_ready {
        HealthResponse { status_code: SERVED, status: "ready" }
    } else {
        HealthResponse { status_code: SERVICE_UNAVAILABLE, status: "not_ready" }
    }
}

} // verus!
