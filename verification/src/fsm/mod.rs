//! Machine definitions, entities, transitions and the planner.
pub mod error;
pub mod record;
pub mod machine;
pub mod builder;
pub mod planner;
pub mod calls;
