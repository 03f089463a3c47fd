//! Identifiers of the topology's nodes.
//!
//! Identifiers are plain unsigned integers. They are only ever compared and
//! used as map keys; each kind lives in a namespace of its own.

use vstd::prelude::*;

verus! {

/// Identifies an activity.
pub type ActivityId = u64;

/// Identifies a worker, the execution context that steps its activities in order.
pub type WorkerId = u64;

/// Identifies an agent, the process-level grouping of workers.
pub type AgentId = u64;

} // verus!
