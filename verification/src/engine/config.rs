//! Settings of the engine.
use vstd::prelude::*;

verus! {

/// How hard a write tries to reach the disk.
#[derive(Debug, Clone, Copy, PartialEq, Eq, Structural)]
pub enum FsyncMode {
    /// Every write transaction is flushed before it counts as done.
    Synchronous,
    /// Nothing is flushed: fast, and lossy when the system crashes.
    Relaxed,
}

impl Default for FsyncMode {
    fn default() -> (r: Self)
        ensures
            r == FsyncMode::Synchronous,
    {
        FsyncMode::Synchronous
    }
}

/// Settings of the engine.
#[derive(Debug)]
pub struct EngineConfig {
    /// The directory of the database file.
    pub data_dir: String,
    /// How hard a write tries to reach the disk.
    pub fsync_mode: FsyncMode,
    /// How often the dispatcher looks at the outbox, in milliseconds.
    pub dispatcher_interval_ms: u64,
    /// How many subscribers there may be. One more, and the oldest goes.
    pub max_subscribers: usize,
}

impl Default for EngineConfig {
    fn default() -> (r: Self)
        ensures
            r.data_dir@ == "data"@,
            r.fsync_mode == FsyncMode::Synchronous,
            r.dispatcher_interval_ms == 100,
            r.max_subscribers == 1024,
    {
        EngineConfig {
            data_dir: "data".to_owned(),
            fsync_mode: FsyncMode::Synchronous,
            dispatcher_interval_ms: 100,
            max_subscribers: 1024,
        }
    }
}

} // verus!
