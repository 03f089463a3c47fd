//! Consistency of the topology: what holds of the assignment, the dependency
//! graph and the topics of this application, and why.

use crate::activities::application_config::{
    assignments_view, dependencies, dependencies_view, erase_builders, ids_view, is_inverse,
    path_text, runs_worker, topics, topics_view, topology, workers_unique, ActivityDependencies,
    AgentAssignmentIds, AgentAssignments, AssignmentModel, DependencyModel, IdsModel, WorkerAgents,
};
use crate::ids::{ActivityId, AgentId, WorkerId};
use crate::topicspec::TopicSpecification;
use std::path::PathBuf;
use vstd::prelude::*;

verus! {

/// Whether `activity` stands at position `slot` of the worker at position
/// `worker` of `agent`.
pub open spec fn assigned_at(
    ids: IdsModel,
    agent: AgentId,
    worker: int,
    slot: int,
    activity: ActivityId,
) -> bool {
    &&& ids.contains_key(agent)
    &&& 0 <= worker < ids[agent].len()
    &&& 0 <= slot < ids[agent][worker].1.len()
    &&& ids[agent][worker].1[slot] == activity
}

/// Whether `activity` is assigned to some worker.
pub open spec fn assigned(ids: IdsModel, activity: ActivityId) -> bool {
    exists|agent: AgentId, worker: int, slot: int| assigned_at(ids, agent, worker, slot, activity)
}

/// Whether every activity stands at one position only: under one agent, in
/// one worker, once.
pub open spec fn assigned_once(ids: IdsModel) -> bool {
    forall|
        activity: ActivityId,
        agent: AgentId,
        worker: int,
        slot: int,
        other_agent: AgentId,
        other_worker: int,
        other_slot: int,
    |
        #[trigger] assigned_at(ids, agent, worker, slot, activity) && #[trigger] assigned_at(
            ids,
            other_agent,
            other_worker,
            other_slot,
            activity,
        ) ==> agent == other_agent && worker == other_worker && slot == other_slot
}

/// Whether `prerequisite` must have run before `activity`.
pub open spec fn depends_on(
    graph: DependencyModel,
    activity: ActivityId,
    prerequisite: ActivityId,
) -> bool {
    graph.contains_key(activity) && graph[activity].contains(prerequisite)
}

/// Whether `activity` occurs in the graph, as a key or as a prerequisite.
pub open spec fn referenced(graph: DependencyModel, activity: ActivityId) -> bool {
    graph.contains_key(activity) || exists|dependent: ActivityId|
        depends_on(graph, dependent, activity)
}

/// Whether each activity of `chain` depends on the one after it.
pub open spec fn is_chain(graph: DependencyModel, chain: Seq<ActivityId>) -> bool {
    forall|k: int|
        0 <= k < chain.len() - 1 ==> depends_on(graph, #[trigger] chain[k], chain[k + 1])
}

/// Whether no chain of dependencies leads from an activity back to itself.
pub open spec fn acyclic(graph: DependencyModel) -> bool {
    forall|chain: Seq<ActivityId>|
        chain.len() >= 2 && #[trigger] is_chain(graph, chain) ==> chain.first() != chain.last()
}

/// Whether `rank` puts every prerequisite strictly below what depends on it.
pub open spec fn ranked_by(graph: DependencyModel, rank: spec_fn(ActivityId) -> nat) -> bool {
    forall|activity: ActivityId, prerequisite: ActivityId| #[trigger]
        depends_on(graph, activity, prerequisite) ==> rank(prerequisite) < rank(activity)
}

/// Along a chain the rank falls: every later activity ranks below the first.
pub proof fn lemma_chain_descends(
    graph: DependencyModel,
    rank: spec_fn(ActivityId) -> nat,
    chain: Seq<ActivityId>,
    k: int,
)
    requires
        ranked_by(graph, rank),
        is_chain(graph, chain),
        1 <= k < chain.len(),
    ensures
        rank(chain[k]) < rank(chain[0]),
    decreases k,
{
    assert(depends_on(graph, chain[k - 1], chain[k - 1 + 1]));
    if k > 1 {
        lemma_chain_descends(graph, rank, chain, k - 1);
    }
}

/// A graph that admits a ranking has no cycle.
pub proof fn lemma_ranked_is_acyclic(graph: DependencyModel, rank: spec_fn(ActivityId) -> nat)
    requires
        ranked_by(graph, rank),
    ensures
        acyclic(graph),
{
    assert forall|chain: Seq<ActivityId>|
        chain.len() >= 2 && #[trigger] is_chain(graph, chain) implies chain.first()
        != chain.last() by {
        lemma_chain_descends(graph, rank, chain, chain.len() - 1);
    }
}

/// The assignment of this application by identifier: worker 40 steps the
/// activities 0 and 1, worker 41 the activity 2.
pub open spec fn topology_ids() -> IdsModel {
    map![
        100u64 => seq![(40u64, seq![0u64, 1u64])],
        101u64 => seq![(41u64, seq![2u64])],
    ]
}

/// Erasing the builders of [`topology`] leaves [`topology_ids`].
pub proof fn lemma_topology_ids()
    ensures
        erase_builders(topology()) == topology_ids(),
{
    let erased = erase_builders(topology());
    assert(erased[100][0].1 =~= topology_ids()[100][0].1);
    assert(erased[101][0].1 =~= topology_ids()[101][0].1);
    assert(erased[100] =~= topology_ids()[100]);
    assert(erased[101] =~= topology_ids()[101]);
    assert(erased =~= topology_ids());
}

/// The activities of this application are 0, 1 and 2.
pub proof fn lemma_assigned_activities(activity: ActivityId)
    ensures
        assigned(erase_builders(topology()), activity) <==> activity == 0 || activity == 1
            || activity == 2,
{
    lemma_topology_ids();
    let ids = topology_ids();
    assert(assigned_at(ids, 100, 0, 0, 0));
    assert(assigned_at(ids, 100, 0, 1, 1));
    assert(assigned_at(ids, 101, 0, 0, 2));
}

/// Every activity of this application runs under exactly one worker.
pub proof fn lemma_activities_assigned_once()
    ensures
        assigned_once(erase_builders(topology())),
{
    lemma_topology_ids();
}

/// No worker of this application runs under two agents.
pub proof fn lemma_workers_unique()
    ensures
        workers_unique(topology()),
{
    assert forall|first: AgentId, second: AgentId, worker: WorkerId|
        #[trigger] runs_worker(topology(), first, worker) && #[trigger] runs_worker(
            topology(),
            second,
            worker,
        ) implies first == second by {
        crate::activities::application_config::lemma_topology_workers(first, worker);
        crate::activities::application_config::lemma_topology_workers(second, worker);
    }
}

/// Where no worker runs under two agents, an inverse of the assignment maps
/// every worker to the agent under which it appears.
pub proof fn lemma_inverse_names_the_agent(
    model: AssignmentModel,
    agents: Map<WorkerId, AgentId>,
    agent: AgentId,
    worker: WorkerId,
)
    requires
        workers_unique(model),
        is_inverse(model, agents),
        runs_worker(model, agent, worker),
    ensures
        agents.contains_key(worker),
        agents[worker] == agent,
{
    assert(runs_worker(model, agents[worker], worker));
}

/// The dependency graph of this application has no cycle, and the activities
/// that it mentions, as keys or as prerequisites, are exactly those that the
/// assignment places on a worker.
pub proof fn lemma_dependencies_are_consistent()
    ensures
        acyclic(dependencies()),
        forall|activity: ActivityId|
            referenced(dependencies(), activity) <==> assigned(
                erase_builders(topology()),
                activity,
            ),
{
    let graph = dependencies();
    let rank = |activity: ActivityId| activity as nat;
    assert(ranked_by(graph, rank)) by {
        assert forall|activity: ActivityId, prerequisite: ActivityId| #[trigger]
            depends_on(graph, activity, prerequisite) implies rank(prerequisite) < rank(
            activity,
        ) by {
            if activity == 1 {
                assert(graph[1] =~= seq![0u64]);
            }
        }
    }
    lemma_ranked_is_acyclic(graph, rank);
    assert forall|activity: ActivityId|
        referenced(graph, activity) <==> assigned(erase_builders(topology()), activity) by {
        lemma_assigned_activities(activity);
        if referenced(graph, activity) && !graph.contains_key(activity) {
            let dependent = choose|dependent: ActivityId| depends_on(graph, dependent, activity);
            if dependent == 1 {
                assert(graph[1] =~= seq![0u64]);
            }
        }
    }
}

/// Every activity that takes part in a topic of this application is one that
/// the assignment places on a worker.
pub proof fn lemma_topic_peers_are_assigned(topic: int, peer: int)
    requires
        0 <= topic < topics().len(),
        0 <= peer < topics()[topic].peers.len(),
    ensures
        assigned(erase_builders(topology()), topics()[topic].peers[peer].0),
{
    lemma_assigned_activities(topics()[topic].peers[peer].0);
}

/// The descriptor is deterministic: whatever two evaluations of a descriptor
/// function return, the two results have the same value.
pub proof fn lemma_descriptor_is_deterministic(
    assignments: (AgentAssignments, AgentAssignments),
    ids: (AgentAssignmentIds, AgentAssignmentIds),
    agents: (WorkerAgents, WorkerAgents),
    graphs: (ActivityDependencies, ActivityDependencies),
    topic_lists: (Vec<TopicSpecification>, Vec<TopicSpecification>),
    paths: ((PathBuf, PathBuf), (PathBuf, PathBuf)),
)
    requires
        assignments_view(assignments.0@) == topology(),
        assignments_view(assignments.1@) == topology(),
        ids_view(ids.0@) == erase_builders(topology()),
        ids_view(ids.1@) == erase_builders(topology()),
        agents.0@ == crate::activities::application_config::worker_agents(),
        agents.1@ == crate::activities::application_config::worker_agents(),
        dependencies_view(graphs.0@) == dependencies(),
        dependencies_view(graphs.1@) == dependencies(),
        topics_view(topic_lists.0@) == topics(),
        topics_view(topic_lists.1@) == topics(),
        path_text(paths.0.0) == crate::activities::application_config::SOCKET_PATH_1@,
        path_text(paths.0.1) == crate::activities::application_config::SOCKET_PATH_2@,
        path_text(paths.1.0) == crate::activities::application_config::SOCKET_PATH_1@,
        path_text(paths.1.1) == crate::activities::application_config::SOCKET_PATH_2@,
    ensures
        assignments_view(assignments.0@) == assignments_view(assignments.1@),
        ids_view(ids.0@) == ids_view(ids.1@),
        agents.0@ == agents.1@,
        dependencies_view(graphs.0@) == dependencies_view(graphs.1@),
        topics_view(topic_lists.0@) == topics_view(topic_lists.1@),
        path_text(paths.0.0) == path_text(paths.1.0),
        path_text(paths.0.1) == path_text(paths.1.1),
{
}

} // verus!
