//! The scene renderer: turns camera images into scenes.

use crate::activities::messages::{is_lane_distance, CameraImage, Scene};
use crate::ids::ActivityId;
use vstd::prelude::*;

verus! {

/// Scene render activity
///
/// This activity emulates rendering a scene from a [`CameraImage`] which can
/// be rendered to a display.
#[derive(Debug)]
pub struct SceneRender {
    activity_id: ActivityId,
    image_topic: String,
    scene_topic: String,
}

/// The mathematical value of a [`SceneRender`].
pub struct SceneRenderView {
    /// The identifier of the activity.
    pub activity_id: ActivityId,
    /// The name of the topic from which the renderer reads images.
    pub image_topic: Seq<char>,
    /// The name of the topic on which the renderer publishes scenes.
    pub scene_topic: Seq<char>,
}

impl View for SceneRender {
    type V = SceneRenderView;

    closed spec fn view(&self) -> SceneRenderView {
        SceneRenderView {
            activity_id: self.activity_id,
            image_topic: self.image_topic@,
            scene_topic: self.scene_topic@,
        }
    }
}

/// What a step of the renderer publishes: the rendering of the image that it
/// received, where it received one and a slot of the output topic is free,
/// and nothing otherwise.
pub open spec fn rendered_scene(
    received_image: Option<CameraImage>,
    output_free: bool,
    distance_left_lane: u64,
    distance_right_lane: u64,
) -> Option<Scene> {
    match received_image {
        Some(image) if output_free => Some(
            Scene::render(image, distance_left_lane, distance_right_lane),
        ),
        _ => None,
    }
}

impl SceneRender {
    /// A renderer with the identifier `activity_id` that reads images from
    /// `image_topic` and publishes scenes on `scene_topic`.
    pub fn build(activity_id: ActivityId, image_topic: &str, scene_topic: &str) -> (renderer:
        SceneRender)
        ensures
            renderer@ == (SceneRenderView {
                activity_id,
                image_topic: image_topic@,
                scene_topic: scene_topic@,
            }),
    {
        SceneRender {
            activity_id,
            image_topic: image_topic.to_owned(),
            scene_topic: scene_topic.to_owned(),
        }
    }

    /// The identifier of the activity.
    pub fn id(&self) -> (id: ActivityId)
        ensures
            id == self@.activity_id,
    {
        self.activity_id
    }

    /// The name of the topic from which the renderer reads images.
    pub fn image_topic(&self) -> (topic: &str)
        ensures
            topic@ == self@.image_topic,
    {
        self.image_topic.as_str()
    }

    /// The name of the topic on which the renderer publishes scenes.
    pub fn scene_topic(&self) -> (topic: &str)
        ensures
            topic@ == self@.scene_topic,
    {
        self.scene_topic.as_str()
    }

    /// Prepares the renderer for stepping. There is nothing to prepare.
    pub fn startup(&mut self)
        ensures
            *final(self) == *old(self),
    {
    }

    /// One period of the renderer.
    ///
    /// `received_image` is the most recent image of the input topic, if one
    /// was available, and `output_free` says whether a slot of the output
    /// topic could be acquired. Only where an image was received and a slot
    /// is free does the step hand back a scene to publish: the detection
    /// fields of the image, copied, between the two lanes, whose distances
    /// are this period's measurements, uniform draws from `[10, 50)`.
    /// Otherwise nothing is measured: the lane distances are not looked at,
    /// the step hands back nothing, and nothing is kept for a later period.
    pub fn step(
        &mut self,
        received_image: Option<CameraImage>,
        output_free: bool,
        distance_left_lane: u64,
        distance_right_lane: u64,
    ) -> (scene: Option<Scene>)
        requires
            received_image is Some && output_free ==> is_lane_distance(distance_left_lane)
                && is_lane_distance(distance_right_lane),
        ensures
            *final(self) == *old(self),
            scene == rendered_scene(
                received_image,
                output_free,
                distance_left_lane,
                distance_right_lane,
            ),
            scene is Some <==> received_image is Some && output_free,
            scene matches Some(scene) ==> scene.shows(received_image->0) && scene.lanes_in_range(),
    {
        match received_image {
            Some(image) => {
                if output_free {
                    Some(Scene::from_image(&image, distance_left_lane, distance_right_lane))
                } else {
                    None
                }
            },
            None => None,
        }
    }

    /// Tears the renderer down. There is nothing to release.
    pub fn shutdown(&mut self)
        ensures
            *final(self) == *old(self),
    {
    }
}

} // verus!
