//! Topics: the typed channels that connect publishing and subscribing activities.

use crate::ids::ActivityId;
use vstd::prelude::*;

verus! {

/// The side of a topic on which an activity stands.
#[derive(Clone, Copy, Debug, PartialEq, Eq, Structural)]
pub enum Direction {
    /// The activity subscribes to the topic.
    Incoming,
    /// The activity publishes on the topic.
    Outgoing,
}

/// The type of message that a topic carries.
#[derive(Clone, Copy, Debug, PartialEq, Eq, Structural)]
pub enum MessageType {
    CameraImage,
    Scene,
}

/// A topic with the type of its messages and the activities that take part in it.
#[derive(Debug, PartialEq, Eq)]
pub struct TopicSpecification {
    /// The name that identifies the topic.
    pub topic: String,
    /// The type of message that the topic carries.
    pub message_type: MessageType,
    /// The participating activities, each with its direction.
    pub peers: Vec<(ActivityId, Direction)>,
}

/// The mathematical value of a [`TopicSpecification`].
pub struct TopicSpecificationView {
    pub topic: Seq<char>,
    pub message_type: MessageType,
    pub peers: Seq<(ActivityId, Direction)>,
}

impl View for TopicSpecification {
    type V = TopicSpecificationView;

    open spec fn view(&self) -> TopicSpecificationView {
        TopicSpecificationView {
            topic: self.topic@,
            message_type: self.message_type,
            peers: self.peers@,
        }
    }
}

/// The number of subscribers among `peers`.
pub open spec fn count_incoming(peers: Seq<(ActivityId, Direction)>) -> nat
    decreases peers.len(),
{
    if peers.len() == 0 {
        0
    } else {
        let rest = count_incoming(peers.drop_last());
        if peers.last().1 == Direction::Incoming {
            rest + 1
        } else {
            rest
        }
    }
}

/// There are no more subscribers than peers.
pub proof fn lemma_count_incoming_bounded(peers: Seq<(ActivityId, Direction)>)
    ensures
        count_incoming(peers) <= peers.len(),
    decreases peers.len(),
{
    if peers.len() > 0 {
        lemma_count_incoming_bounded(peers.drop_last());
    }
}

impl TopicSpecification {
    /// The topic named `topic` that carries messages of `message_type`
    /// between `peers`.
    pub fn new(topic: &str, message_type: MessageType, peers: Vec<(ActivityId, Direction)>) -> (spec:
        Self)
        ensures
            spec@ == (TopicSpecificationView { topic: topic@, message_type, peers: peers@ }),
    {
        TopicSpecification { topic: topic.to_owned(), message_type, peers }
    }

    /// The number of activities that subscribe to the topic.
    pub fn incoming_count(&self) -> (count: usize)
        ensures
            count == count_incoming(self@.peers),
    {
        let mut count: usize = 0;
        let mut i: usize = 0;
        while i < self.peers.len()
            invariant
                i <= self.peers.len(),
                count == count_incoming(self.peers@.take(i as int)),
                count <= i,
            decreases self.peers.len() - i,
        {
            proof {
                assert(self.peers@.take(i + 1).drop_last() =~= self.peers@.take(i as int));
            }
            if self.peers[i].1 == Direction::Incoming {
                count += 1;
            }
            i += 1;
        }
        proof {
            assert(self.peers@.take(i as int) =~= self.peers@);
        }
        count
    }
}

} // verus!
