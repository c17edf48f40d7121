//! Which requests are served.
pub mod cluster;
pub mod maintenance;
pub mod privilege;
