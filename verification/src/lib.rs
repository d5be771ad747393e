//! Verified core of an ECS-driven, stateful bidirectional server framework.
use vstd::prelude::*;

pub mod connection;
pub mod heartbeat;
pub mod lobby;
pub mod payload;
pub mod peers;
pub mod plugin;
pub mod presence;
pub mod rate_limit;
pub mod spatial;
pub mod text;
pub mod timing;
pub mod tls;
pub mod varint;

verus! {

} // verus!
