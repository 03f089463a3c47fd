//! Activities as the topology sees them: what is to be built for an
//! identifier, and what comes of building it.

use crate::activities::camera_activity::{Camera, CameraView};
use crate::activities::mcap_activity::{Mcap, McapView, ReplayError};
use crate::activities::mcap_log::{is_container, log_records};
use crate::activities::render_activity::{SceneRender, SceneRenderView};
use crate::ids::ActivityId;
use vstd::prelude::*;

verus! {

/// A deferred factory for an activity.
///
/// A builder is a plain value. It names the variant of activity to construct
/// and the topics that the activity is to be bound to; it holds no other
/// state, so two equal builders construct equal activities.
#[derive(Debug, PartialEq, Eq)]
pub enum ActivityBuilder {
    /// A synthetic sensor source that publishes camera images on `image_topic`.
    Camera { image_topic: String },
    /// A transformer that subscribes to `image_topic` and publishes scenes on
    /// `scene_topic`.
    SceneRender { image_topic: String, scene_topic: String },
    /// A bridge that replays the recorded message log.
    Mcap,
}

/// The mathematical value of an [`ActivityBuilder`].
pub enum ActivityBuilderView {
    Camera { image_topic: Seq<char> },
    SceneRender { image_topic: Seq<char>, scene_topic: Seq<char> },
    Mcap,
}

impl View for ActivityBuilder {
    type V = ActivityBuilderView;

    open spec fn view(&self) -> ActivityBuilderView {
        match *self {
            ActivityBuilder::Camera { image_topic } => ActivityBuilderView::Camera {
                image_topic: image_topic@,
            },
            ActivityBuilder::SceneRender {
                image_topic,
                scene_topic,
            } => ActivityBuilderView::SceneRender {
                image_topic: image_topic@,
                scene_topic: scene_topic@,
            },
            ActivityBuilder::Mcap => ActivityBuilderView::Mcap,
        }
    }
}

/// An activity: one of the closed set of variants that a worker can step.
#[derive(Debug)]
pub enum Activity {
    /// A synthetic sensor source.
    Source(Camera),
    /// A transformer of sensor readings into scenes.
    Transformer(SceneRender),
    /// A bridge that replays a recorded log.
    ReplayBridge(Mcap),
}

impl Activity {
    /// The identifier of the activity.
    pub open spec fn activity_id(self) -> ActivityId {
        match self {
            Activity::Source(camera) => camera@.activity_id,
            Activity::Transformer(renderer) => renderer@.activity_id,
            Activity::ReplayBridge(bridge) => bridge@.activity_id,
        }
    }

    /// The identifier of the activity.
    pub fn id(&self) -> (id: ActivityId)
        ensures
            id == self.activity_id(),
    {
        match self {
            Activity::Source(camera) => camera.id(),
            Activity::Transformer(renderer) => renderer.id(),
            Activity::ReplayBridge(bridge) => bridge.id(),
        }
    }
}

impl ActivityBuilder {
    /// What the builder constructs for `activity_id`.
    ///
    /// `log` holds the bytes of the recorded log. Only the builder of a
    /// replay bridge reads them, and it constructs nothing where they are
    /// no log container. The other builders always construct their
    /// activity.
    pub fn build(&self, activity_id: ActivityId, log: &[u8]) -> (activity: Result<
        Activity,
        ReplayError,
    >)
        ensures
            activity is Err <==> self@ == ActivityBuilderView::Mcap && !is_container(log@),
            match (self@, activity) {
                (ActivityBuilderView::Camera { image_topic }, Ok(Activity::Source(camera))) => camera@
                    == (CameraView { activity_id, image_topic }),
                (
                    ActivityBuilderView::SceneRender { image_topic, scene_topic },
                    Ok(Activity::Transformer(renderer)),
                ) => renderer@ == (SceneRenderView { activity_id, image_topic, scene_topic }),
                (ActivityBuilderView::Mcap, Ok(Activity::ReplayBridge(bridge))) => bridge@ == (McapView {
                    activity_id,
                    remaining: log_records(log@),
                }),
                (ActivityBuilderView::Mcap, Err(error)) => error == ReplayError::UnreadableLog,
                _ => false,
            },
    {
        match self {
            ActivityBuilder::Camera { image_topic } => Ok(
                Activity::Source(Camera::build(activity_id, image_topic.as_str())),
            ),
            ActivityBuilder::SceneRender { image_topic, scene_topic } => Ok(
                Activity::Transformer(
                    SceneRender::build(activity_id, image_topic.as_str(), scene_topic.as_str()),
                ),
            ),
            ActivityBuilder::Mcap => match Mcap::build(activity_id, log) {
                Ok(bridge) => Ok(Activity::ReplayBridge(bridge)),
                Err(error) => Err(error),
            },
        }
    }
}

} // verus!
