//! The slice of the topology that one process runs.
//!
//! Every process evaluates the same topology and takes from it the row of
//! its own agent. A process whose agent the topology does not know has no
//! slice, and must not run.

use crate::activities::application_config::{
    agent_assignments, agent_assignments_ids, erase_builders, ids_view, topology, worker_ids_view,
    workers_view, WorkerAssignment, WorkerIds,
};
use crate::ids::{ActivityId, AgentId};
use std::collections::HashSet;
use vstd::prelude::*;

verus! {

broadcast use vstd::std_specs::hash::group_hash_axioms;

/// The identity of the secondary agent.
pub const SECONDARY_AGENT_ID: AgentId = 101;

/// Seconds that the secondary agent waits for the primary.
pub const SECONDARY_TIMEOUT_SECS: u64 = 10;

/// Whether `activity` is one of the activities of `workers`.
pub open spec fn steps_activity(
    workers: Seq<(crate::ids::WorkerId, Seq<ActivityId>)>,
    activity: ActivityId,
) -> bool {
    exists|worker: int, slot: int|
        0 <= worker < workers.len() && 0 <= slot < workers[worker].1.len()
            && #[trigger] workers[worker].1[slot] == activity
}

/// What one agent runs.
#[derive(Debug)]
pub struct AgentSlice {
    /// The agent.
    pub id: AgentId,
    /// The workers of the agent with their activities, in stepping order.
    pub worker_assignments: Vec<WorkerAssignment>,
    /// The identifiers of all activities of the agent.
    pub local_activities: HashSet<ActivityId>,
}

/// The identifiers of all activities of `workers`.
pub fn local_activities(workers: &Vec<WorkerIds>) -> (local: HashSet<ActivityId>)
    ensures
        forall|activity: ActivityId|
            local@.contains(activity) <==> steps_activity(worker_ids_view(workers@), activity),
{
    let ghost model = worker_ids_view(workers@);
    let mut local: HashSet<ActivityId> = HashSet::new();
    let mut w: usize = 0;
    while w < workers.len()
        invariant
            w <= workers.len(),
            model == worker_ids_view(workers@),
            forall|activity: ActivityId| #[trigger]
                local@.contains(activity) ==> steps_activity(model, activity),
            forall|worker: int, slot: int|
                0 <= worker < w && 0 <= slot < model[worker].1.len() ==> local@.contains(
                    #[trigger] model[worker].1[slot],
                ),
        decreases workers.len() - w,
    {
        let activities = &workers[w].1;
        let mut s: usize = 0;
        while s < activities.len()
            invariant
                w < workers.len(),
                s <= activities.len(),
                model == worker_ids_view(workers@),
                activities@ == model[w as int].1,
                forall|activity: ActivityId| #[trigger]
                    local@.contains(activity) ==> steps_activity(model, activity),
                forall|worker: int, slot: int|
                    0 <= worker < w && 0 <= slot < model[worker].1.len() ==> local@.contains(
                        #[trigger] model[worker].1[slot],
                    ),
                forall|slot: int| 0 <= slot < s ==> local@.contains(#[trigger] activities[slot]),
            decreases activities.len() - s,
        {
            proof {
                assert(model[w as int].1[s as int] == activities[s as int]);
            }
            local.insert(activities[s]);
            s += 1;
        }
        w += 1;
    }
    local
}

/// The slice of `agent_id`, or `None` where the topology does not know the
/// agent.
pub fn select_agent(agent_id: AgentId) -> (slice: Option<AgentSlice>)
    ensures
        slice is Some <==> topology().contains_key(agent_id),
        slice matches Some(slice) ==> {
            &&& slice.id == agent_id
            &&& workers_view(slice.worker_assignments@) == topology()[agent_id]
            &&& forall|activity: ActivityId|
                slice.local_activities@.contains(activity) <==> steps_activity(
                    erase_builders(topology())[agent_id],
                    activity,
                )
        },
{
    let mut assignments = agent_assignments();
    let mut ids = agent_assignments_ids();
    let ghost assignment_model = crate::activities::application_config::assignments_view(
        assignments@,
    );
    let ghost ids_model = ids_view(ids@);
    match (assignments.remove(&agent_id), ids.remove(&agent_id)) {
        (Some(worker_assignments), Some(worker_ids)) => {
            proof {
                assert(assignment_model[agent_id] == workers_view(worker_assignments@));
                assert(ids_model[agent_id] == worker_ids_view(worker_ids@));
            }
            let local = local_activities(&worker_ids);
            Some(AgentSlice { id: agent_id, worker_assignments, local_activities: local })
        },
        _ => {
            proof {
                assert(assignment_model.contains_key(agent_id) == topology().contains_key(agent_id));
                assert(ids_model.contains_key(agent_id) == topology().contains_key(agent_id));
            }
            None
        },
    }
}

/// The topology knows the secondary agent: its process has a slice.
pub proof fn lemma_secondary_agent_is_known()
    ensures
        topology().contains_key(SECONDARY_AGENT_ID),
{
}

} // verus!
