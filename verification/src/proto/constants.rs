//! Numbers that both ends of a connection agree on.
use vstd::prelude::*;

verus! {

/// The version of the protocol.
pub const PROTOCOL_VERSION: u32 = 1;

/// The longest body that a frame may have: 16 MiB.
pub const MAX_FRAME_SIZE: u32 = 16 * 1024 * 1024;

/// The port that servers listen on.
pub const DEFAULT_PORT: u16 = 7632;

/// The port that servers answer health and metrics requests on.
pub const DEFAULT_METRICS_PORT: u16 = 7633;

/// The version that a server says it has.
pub const SERVER_VERSION: &'static str = "0.1.0";

} // verus!
