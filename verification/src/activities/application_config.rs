//! The static topology of the application.

use crate::activity::{ActivityBuilder, ActivityBuilderView};
use crate::ids::{ActivityId, AgentId, WorkerId};
use crate::topicspec::{
    count_incoming, lemma_count_incoming_bounded, Direction, MessageType, TopicSpecification,
    TopicSpecificationView,
};
use std::collections::HashMap;
use std::path::PathBuf;
use vstd::prelude::*;
use vstd::std_specs::iter::IteratorSpec;

verus! {

broadcast use vstd::std_specs::hash::group_hash_axioms;

/// An owned path of the standard library.
#[verifier::external_type_specification]
#[verifier::external_body]
pub struct ExPathBuf(PathBuf);

/// The text that a path holds.
pub uninterp spec fn path_text(path: PathBuf) -> Seq<char>;

/// `PathBuf::from` on a string slice: the path that holds `text`, unchanged.
#[verifier::external_body]
fn path_from(text: &str) -> (path: PathBuf)
    ensures
        path_text(path) == text@,
{
    PathBuf::from(text)
}

/// An activity identifier with the builder of its activity.
pub type ActivityIdAndBuilder = (ActivityId, ActivityBuilder);

/// A worker with the activities that it steps, in stepping order.
pub type WorkerAssignment = (WorkerId, Vec<ActivityIdAndBuilder>);

/// For each agent, its workers.
pub type AgentAssignments = HashMap<AgentId, Vec<WorkerAssignment>>;

/// The mathematical value of a [`WorkerAssignment`].
pub type WorkerModel = (WorkerId, Seq<(ActivityId, ActivityBuilderView)>);

/// The mathematical value of [`AgentAssignments`].
pub type AssignmentModel = Map<AgentId, Seq<WorkerModel>>;

/// Name of the topic that carries inferred scenes.
pub const TOPIC_INFERRED_SCENE: &'static str = "feo/com/vehicle/inferred/scene";

/// Name of the topic that carries the images of the front camera.
pub const TOPIC_CAMERA_FRONT: &'static str = "feo/com/vehicle/camera/front";

/// Path of the socket on which the first agent listens.
pub const SOCKET_PATH_1: &'static str = "/tmp/feo_listener1.socket";

/// Path of the socket on which the second agent listens.
pub const SOCKET_PATH_2: &'static str = "/tmp/feo_listener2.socket";

/// The two socket paths of the inter-agent control channel.
pub fn socket_paths() -> (paths: (PathBuf, PathBuf))
    ensures
        path_text(paths.0) == SOCKET_PATH_1@,
        path_text(paths.1) == SOCKET_PATH_2@,
{
    (path_from(SOCKET_PATH_1), path_from(SOCKET_PATH_2))
}

/// The value of one worker's assignment.
pub open spec fn worker_view(worker: WorkerAssignment) -> WorkerModel {
    (worker.0, worker.1@.map_values(|entry: ActivityIdAndBuilder| (entry.0, entry.1@)))
}

/// The value of an agent's workers.
pub open spec fn workers_view(workers: Seq<WorkerAssignment>) -> Seq<WorkerModel> {
    workers.map_values(|worker: WorkerAssignment| worker_view(worker))
}

/// The value of an assignment of workers to agents.
pub open spec fn assignments_view(assignments: Map<AgentId, Vec<WorkerAssignment>>) -> AssignmentModel {
    assignments.map_values(|workers: Vec<WorkerAssignment>| workers_view(workers@))
}

/// The assignment of this application: agent 100 runs worker 40 with the
/// camera and the scene renderer, agent 101 runs worker 41 with the replay
/// bridge.
pub open spec fn topology() -> AssignmentModel {
    map![
        100u64 => seq![
            (
                40u64,
                seq![
                    (0u64, ActivityBuilderView::Camera { image_topic: TOPIC_CAMERA_FRONT@ }),
                    (
                        1u64,
                        ActivityBuilderView::SceneRender {
                            image_topic: TOPIC_CAMERA_FRONT@,
                            scene_topic: TOPIC_INFERRED_SCENE@,
                        },
                    ),
                ],
            ),
        ],
        101u64 => seq![(41u64, seq![(2u64, ActivityBuilderView::Mcap)])],
    ]
}

/// The assignment of workers and activities to agents.
pub fn agent_assignments() -> (assignments: AgentAssignments)
    ensures
        assignments_view(assignments@) == topology(),
        assignments@.dom() == set![100u64, 101u64],
        assignments@[100]@.len() == 1,
        assignments@[100]@[0].0 == 40,
        assignments@[100]@[0].1@.len() == 2,
        assignments@[100]@[0].1@[0].0 == 0,
        assignments@[100]@[0].1@[0].1@ == (ActivityBuilderView::Camera {
            image_topic: TOPIC_CAMERA_FRONT@,
        }),
        assignments@[100]@[0].1@[1].0 == 1,
        assignments@[100]@[0].1@[1].1@ == (ActivityBuilderView::SceneRender {
            image_topic: TOPIC_CAMERA_FRONT@,
            scene_topic: TOPIC_INFERRED_SCENE@,
        }),
        assignments@[101]@.len() == 1,
        assignments@[101]@[0].0 == 41,
        assignments@[101]@[0].1@.len() == 1,
        assignments@[101]@[0].1@[0].0 == 2,
        assignments@[101]@[0].1@[0].1@ == ActivityBuilderView::Mcap,
{
    let mut activities_40: Vec<ActivityIdAndBuilder> = Vec::new();
    activities_40.push((0, ActivityBuilder::Camera { image_topic: TOPIC_CAMERA_FRONT.to_owned() }));
    activities_40.push(
        (
            1,
            ActivityBuilder::SceneRender {
                image_topic: TOPIC_CAMERA_FRONT.to_owned(),
                scene_topic: TOPIC_INFERRED_SCENE.to_owned(),
            },
        ),
    );
    let worker_40: WorkerAssignment = (40, activities_40);

    let mut activities_41: Vec<ActivityIdAndBuilder> = Vec::new();
    activities_41.push((2, ActivityBuilder::Mcap));
    let worker_41: WorkerAssignment = (41, activities_41);

    let mut workers_100: Vec<WorkerAssignment> = Vec::new();
    workers_100.push(worker_40);
    let mut workers_101: Vec<WorkerAssignment> = Vec::new();
    workers_101.push(worker_41);

    let mut assignments: AgentAssignments = HashMap::new();
    assignments.insert(100, workers_100);
    assignments.insert(101, workers_101);
    proof {
        let model = assignments_view(assignments@);
        assert(worker_view(worker_40).1 =~= topology()[100][0].1);
        assert(worker_view(worker_41).1 =~= topology()[101][0].1);
        assert(model[100] =~= topology()[100]);
        assert(model[101] =~= topology()[101]);
        assert(model =~= topology());
        assert(assignments@.dom() =~= set![100u64, 101u64]);
    }
    assignments
}

/// A worker with the identifiers of its activities, in stepping order.
pub type WorkerIds = (WorkerId, Vec<ActivityId>);

/// For each agent, its workers with the identifiers of their activities.
pub type AgentAssignmentIds = HashMap<AgentId, Vec<WorkerIds>>;

/// The mathematical value of [`AgentAssignmentIds`].
pub type IdsModel = Map<AgentId, Seq<(WorkerId, Seq<ActivityId>)>>;

/// The value of an agent's workers, builders erased.
pub open spec fn worker_ids_view(workers: Seq<WorkerIds>) -> Seq<(WorkerId, Seq<ActivityId>)> {
    workers.map_values(|worker: WorkerIds| (worker.0, worker.1@))
}

/// The value of an assignment whose builders are erased.
pub open spec fn ids_view(ids: Map<AgentId, Vec<WorkerIds>>) -> IdsModel {
    ids.map_values(|workers: Vec<WorkerIds>| worker_ids_view(workers@))
}

/// The identifiers of a worker's activities, in order.
pub open spec fn erase_entries(entries: Seq<(ActivityId, ActivityBuilderView)>) -> Seq<ActivityId> {
    entries.map_values(|entry: (ActivityId, ActivityBuilderView)| entry.0)
}

/// An agent's workers with their builders erased.
pub open spec fn erase_workers(workers: Seq<WorkerModel>) -> Seq<(WorkerId, Seq<ActivityId>)> {
    workers.map_values(|worker: WorkerModel| (worker.0, erase_entries(worker.1)))
}

/// An assignment with its builders erased: same agents, same workers in the
/// same order, same activity identifiers in the same order.
pub open spec fn erase_builders(model: AssignmentModel) -> IdsModel {
    model.map_values(|workers: Seq<WorkerModel>| erase_workers(workers))
}

fn activity_ids(entries: &Vec<ActivityIdAndBuilder>) -> (ids: Vec<ActivityId>)
    ensures
        ids@ == erase_entries(worker_view((0, *entries)).1),
{
    let mut ids: Vec<ActivityId> = Vec::new();
    let mut i: usize = 0;
    while i < entries.len()
        invariant
            i <= entries.len(),
            ids.len() == i,
            forall|k: int| 0 <= k < i ==> ids[k] == entries[k].0,
        decreases entries.len() - i,
    {
        ids.push(entries[i].0);
        i += 1;
    }
    assert(ids@ =~= erase_entries(worker_view((0, *entries)).1));
    ids
}

fn worker_ids(workers: &Vec<WorkerAssignment>) -> (ids: Vec<WorkerIds>)
    ensures
        worker_ids_view(ids@) == erase_workers(workers_view(workers@)),
{
    let mut ids: Vec<WorkerIds> = Vec::new();
    let mut i: usize = 0;
    while i < workers.len()
        invariant
            i <= workers.len(),
            ids.len() == i,
            forall|k: int|
                0 <= k < i ==> (#[trigger] ids[k]).0 == workers[k].0 && ids[k].1@ == erase_entries(
                    worker_view(workers[k]).1,
                ),
        decreases workers.len() - i,
    {
        let worker = &workers[i];
        let activities = activity_ids(&worker.1);
        ids.push((worker.0, activities));
        i += 1;
    }
    assert(worker_ids_view(ids@) =~= erase_workers(workers_view(workers@)));
    ids
}

/// Erases the builders of an assignment.
pub fn assignment_ids(assignments: &AgentAssignments) -> (ids: AgentAssignmentIds)
    ensures
        ids_view(ids@) == erase_builders(assignments_view(assignments@)),
        ids@.dom() == assignments@.dom(),
        forall|agent: AgentId| #[trigger]
            ids@.contains_key(agent) ==> worker_ids_view(ids@[agent]@) == erase_workers(
                workers_view(assignments@[agent]@),
            ),
{
    let mut ids: AgentAssignmentIds = HashMap::new();
    for entry in it: assignments.iter()
        invariant
            forall|agent: AgentId| #[trigger]
                ids@.contains_key(agent) ==> assignments@.contains_key(agent) && worker_ids_view(
                    ids@[agent]@,
                ) == erase_workers(workers_view(assignments@[agent]@)),
            forall|k: int| 0 <= k < it.index() ==> ids@.contains_key(*(#[trigger] it.seq()[k]).0),
    {
        let (agent_id, workers) = entry;
        ids.insert(*agent_id, worker_ids(workers));
    }
    proof {
        let remaining = assignments.iter().remaining();
        assert forall|agent: AgentId| assignments@.contains_key(agent) implies ids@.contains_key(
            agent,
        ) by {
            let pair = (&agent, &assignments@[agent]);
            assert(remaining.contains(pair));
            let k = choose|k: int| 0 <= k < remaining.len() && remaining[k] == pair;
            assert(ids@.contains_key(*remaining[k].0));
        }
        assert(ids_view(ids@) =~= erase_builders(assignments_view(assignments@)));
        assert(ids@.dom() =~= assignments@.dom());
    }
    ids
}

/// The assignment of activities to workers and agents, by identifier alone.
pub fn agent_assignments_ids() -> (ids: AgentAssignmentIds)
    ensures
        ids_view(ids@) == erase_builders(topology()),
        ids@.dom() == set![100u64, 101u64],
        ids@[100]@.len() == 1,
        ids@[100]@[0].0 == 40,
        ids@[100]@[0].1@ == seq![0u64, 1u64],
        ids@[101]@.len() == 1,
        ids@[101]@[0].0 == 41,
        ids@[101]@[0].1@ == seq![2u64],
{
    let assignments = agent_assignments();
    let ids = assignment_ids(&assignments);
    proof {
        let erased = erase_builders(topology());
        assert(ids_view(ids@).dom() =~= ids@.dom());
        assert(erased.dom() =~= set![100u64, 101u64]);
        assert(erased[100][0].1 =~= seq![0u64, 1u64]);
        assert(erased[101][0].1 =~= seq![2u64]);
        assert(erased[100] =~= seq![(40u64, seq![0u64, 1u64])]);
        assert(erased[101] =~= seq![(41u64, seq![2u64])]);
        assert(ids_view(ids@)[100] == worker_ids_view(ids@[100]@));
        assert(ids_view(ids@)[101] == worker_ids_view(ids@[101]@));
        assert(worker_ids_view(ids@[100]@)[0] == (40u64, seq![0u64, 1u64]));
        assert(worker_ids_view(ids@[101]@)[0] == (41u64, seq![2u64]));
    }
    ids
}

/// For each worker, the agent that runs it.
pub type WorkerAgents = HashMap<WorkerId, AgentId>;

/// Whether `worker` is one of the workers of `agent` in `model`.
pub open spec fn runs_worker(model: AssignmentModel, agent: AgentId, worker: WorkerId) -> bool {
    &&& model.contains_key(agent)
    &&& exists|i: int| 0 <= i < model[agent].len() && (#[trigger] model[agent][i]).0 == worker
}

/// Whether `agents` inverts `model`: it knows exactly the workers of `model`,
/// and maps each to an agent that runs it.
pub open spec fn is_inverse(model: AssignmentModel, agents: Map<WorkerId, AgentId>) -> bool {
    &&& forall|agent: AgentId, worker: WorkerId| #[trigger]
        runs_worker(model, agent, worker) ==> agents.contains_key(worker)
    &&& forall|worker: WorkerId| #[trigger]
        agents.contains_key(worker) ==> runs_worker(model, agents[worker], worker)
}

/// Whether no worker of `model` runs under two agents.
pub open spec fn workers_unique(model: AssignmentModel) -> bool {
    forall|first: AgentId, second: AgentId, worker: WorkerId|
        #[trigger] runs_worker(model, first, worker) && #[trigger] runs_worker(model, second, worker)
            ==> first == second
}

/// Inverts an assignment: maps each worker to an agent under which it appears.
pub fn invert_assignments(assignments: &AgentAssignments) -> (agents: WorkerAgents)
    ensures
        is_inverse(assignments_view(assignments@), agents@),
{
    let ghost model = assignments_view(assignments@);
    let mut agents: WorkerAgents = HashMap::new();
    for entry in it: assignments.iter()
        invariant
            model == assignments_view(assignments@),
            forall|worker: WorkerId| #[trigger]
                agents@.contains_key(worker) ==> runs_worker(model, agents@[worker], worker),
            forall|k: int, i: int|
                0 <= k < it.index() && 0 <= i < (*it.seq()[k].1).len() ==> agents@.contains_key(
                    (#[trigger] (*it.seq()[k].1)[i]).0,
                ),
    {
        let (agent_id, workers) = entry;
        let ghost before = agents@;
        let mut i: usize = 0;
        while i < workers.len()
            invariant
                i <= workers.len(),
                model == assignments_view(assignments@),
                assignments@.contains_key(*agent_id),
                assignments@[*agent_id] == *workers,
                forall|worker: WorkerId| #[trigger]
                    agents@.contains_key(worker) ==> runs_worker(model, agents@[worker], worker),
                forall|worker: WorkerId| before.contains_key(worker) ==> agents@.contains_key(worker),
                forall|j: int| 0 <= j < i ==> agents@.contains_key((#[trigger] workers[j]).0),
            decreases workers.len() - i,
        {
            let worker_id = workers[i].0;
            proof {
                assert(model[*agent_id][i as int].0 == worker_id);
            }
            agents.insert(worker_id, *agent_id);
            i += 1;
        }
    }
    proof {
        let remaining = assignments.iter().remaining();
        assert forall|agent: AgentId, worker: WorkerId| #[trigger]
            runs_worker(model, agent, worker) implies agents@.contains_key(worker) by {
            let i = choose|i: int| 0 <= i < model[agent].len() && (#[trigger] model[agent][i]).0 == worker;
            let pair = (&agent, &assignments@[agent]);
            assert(remaining.contains(pair));
            let k = choose|k: int| 0 <= k < remaining.len() && remaining[k] == pair;
            assert(agents@.contains_key((*remaining[k].1)[i].0));
        }
    }
    agents
}

/// The inverse of [`topology`]: worker 40 runs under agent 100, worker 41
/// under agent 101.
pub open spec fn worker_agents() -> Map<WorkerId, AgentId> {
    map![40u64 => 100u64, 41u64 => 101u64]
}

/// The workers of [`topology`], each with its agent.
pub proof fn lemma_topology_workers(agent: AgentId, worker: WorkerId)
    ensures
        runs_worker(topology(), agent, worker) <==> (agent == 100 && worker == 40) || (agent == 101
            && worker == 41),
{
    assert(topology()[100][0].0 == 40);
    assert(topology()[101][0].0 == 41);
}

/// For each worker, the agent that runs it.
pub fn worker_agent_map() -> (agents: WorkerAgents)
    ensures
        agents@ == worker_agents(),
        forall|agent: AgentId, worker: WorkerId| #[trigger]
            runs_worker(topology(), agent, worker) ==> agents@.contains_key(worker)
                && agents@[worker] == agent,
{
    let assignments = agent_assignments();
    let agents = invert_assignments(&assignments);
    proof {
        assert forall|agent: AgentId, worker: WorkerId| #[trigger]
            runs_worker(topology(), agent, worker) implies agents@.contains_key(worker)
            && agents@[worker] == agent by {
            lemma_topology_workers(agent, worker);
            lemma_topology_workers(agents@[worker], worker);
        }
        assert forall|worker: WorkerId| agents@.contains_key(worker) implies worker_agents().contains_key(
            worker,
        ) by {
            lemma_topology_workers(agents@[worker], worker);
        }
        lemma_topology_workers(100, 40);
        lemma_topology_workers(101, 41);
        assert(agents@ =~= worker_agents());
    }
    agents
}

/// For each activity, the activities that must have run before it.
pub type ActivityDependencies = HashMap<ActivityId, Vec<ActivityId>>;

/// The mathematical value of [`ActivityDependencies`].
pub type DependencyModel = Map<ActivityId, Seq<ActivityId>>;

/// The value of a dependency map.
pub open spec fn dependencies_view(dependencies: Map<ActivityId, Vec<ActivityId>>) -> DependencyModel {
    dependencies.map_values(|prerequisites: Vec<ActivityId>| prerequisites@)
}

/// The dependencies of this application: the scene renderer runs after the
/// camera; the camera and the replay bridge wait for nothing.
pub open spec fn dependencies() -> DependencyModel {
    map![0u64 => Seq::<ActivityId>::empty(), 1u64 => seq![0u64], 2u64 => Seq::<ActivityId>::empty()]
}

/// The prerequisites of each activity.
pub fn activity_dependencies() -> (dependencies: ActivityDependencies)
    ensures
        dependencies_view(dependencies@) == self::dependencies(),
        dependencies@.dom() == set![0u64, 1u64, 2u64],
        dependencies@[0]@ == Seq::<ActivityId>::empty(),
        dependencies@[1]@ == seq![0u64],
        dependencies@[2]@ == Seq::<ActivityId>::empty(),
{
    let mut after_camera: Vec<ActivityId> = Vec::new();
    after_camera.push(0);

    let mut dependencies: ActivityDependencies = HashMap::new();
    dependencies.insert(0, Vec::new());
    dependencies.insert(1, after_camera);
    dependencies.insert(2, Vec::new());
    proof {
        let model = dependencies_view(dependencies@);
        assert(model[0] =~= self::dependencies()[0]);
        assert(model[1] =~= self::dependencies()[1]);
        assert(model[2] =~= self::dependencies()[2]);
        assert(model =~= self::dependencies());
        assert(dependencies@.dom() =~= set![0u64, 1u64, 2u64]);
        assert(dependencies@[0]@ =~= Seq::<ActivityId>::empty());
        assert(dependencies@[1]@ =~= seq![0u64]);
        assert(dependencies@[2]@ =~= Seq::<ActivityId>::empty());
    }
    dependencies
}

/// The value of a list of topics.
pub open spec fn topics_view(topics: Seq<TopicSpecification>) -> Seq<TopicSpecificationView> {
    topics.map_values(|topic: TopicSpecification| topic@)
}

/// The topics of this application: the camera publishes images that the
/// scene renderer subscribes to; the scene renderer publishes scenes.
pub open spec fn topics() -> Seq<TopicSpecificationView> {
    seq![
        TopicSpecificationView {
            topic: TOPIC_CAMERA_FRONT@,
            message_type: MessageType::CameraImage,
            peers: seq![(0u64, Direction::Outgoing), (1u64, Direction::Incoming)],
        },
        TopicSpecificationView {
            topic: TOPIC_INFERRED_SCENE@,
            message_type: MessageType::Scene,
            peers: seq![(1u64, Direction::Outgoing)],
        },
    ]
}

/// The topics with their message types and participants.
pub fn topic_dependencies() -> (topics: Vec<TopicSpecification>)
    ensures
        topics_view(topics@) == self::topics(),
        topics@.len() == 2,
        topics@[0]@ == self::topics()[0],
        topics@[1]@ == self::topics()[1],
{
    let mut camera_peers: Vec<(ActivityId, Direction)> = Vec::new();
    camera_peers.push((0, Direction::Outgoing));
    camera_peers.push((1, Direction::Incoming));
    let mut scene_peers: Vec<(ActivityId, Direction)> = Vec::new();
    scene_peers.push((1, Direction::Outgoing));

    let mut topics: Vec<TopicSpecification> = Vec::new();
    topics.push(TopicSpecification::new(TOPIC_CAMERA_FRONT, MessageType::CameraImage, camera_peers));
    topics.push(TopicSpecification::new(TOPIC_INFERRED_SCENE, MessageType::Scene, scene_peers));
    proof {
        assert(topics@[0]@.peers =~= self::topics()[0].peers);
        assert(topics@[1]@.peers =~= self::topics()[1].peers);
        assert(topics_view(topics@) =~= self::topics());
    }
    topics
}

/// Number of subscribers that a topic admits beyond those of the topology.
pub const MAX_ADDITIONAL_SUBSCRIBERS: usize = 2;

/// The number of subscribers that `topic` must admit: those that the
/// topology declares and the reserve for observers that it does not know.
pub fn subscriber_capacity(topic: &TopicSpecification) -> (capacity: usize)
    requires
        topic@.peers.len() + MAX_ADDITIONAL_SUBSCRIBERS <= usize::MAX,
    ensures
        capacity == count_incoming(topic@.peers) + MAX_ADDITIONAL_SUBSCRIBERS,
{
    proof {
        lemma_count_incoming_bounded(topic@.peers);
    }
    topic.incoming_count() + MAX_ADDITIONAL_SUBSCRIBERS
}

/// A network endpoint: an IPv4 address and a port.
#[derive(Clone, Copy, Debug, PartialEq, Eq)]
pub struct BindAddress {
    /// The four octets of the address, most significant first.
    pub octets: (u8, u8, u8, u8),
    /// The port.
    pub port: u16,
}

/// The local endpoint on which the primary agent binds for senders.
pub fn bind_addr() -> (address: BindAddress)
    ensures
        address == (BindAddress { octets: (127, 0, 0, 1), port: 8081 }),
{
    BindAddress { octets: (127, 0, 0, 1), port: 8081 }
}

/// The local endpoint on which the primary agent binds for receivers.
pub fn bind_addr2() -> (address: BindAddress)
    ensures
        address == (BindAddress { octets: (127, 0, 0, 1), port: 8082 }),
{
    BindAddress { octets: (127, 0, 0, 1), port: 8082 }
}

} // verus!
