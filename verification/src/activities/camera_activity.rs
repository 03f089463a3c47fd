//! The camera: a synthetic source of sensor readings.

use crate::activities::messages::{is_obstacle_distance, CameraImage, MAX_CARS, MAX_PEOPLE};
use crate::ids::ActivityId;
use rand::rngs::ThreadRng;
use rand::Rng;
use vstd::prelude::*;

verus! {

/// The thread-local random number generator of `rand`.
#[verifier::external_type_specification]
#[verifier::external_body]
pub struct ExThreadRng(ThreadRng);

/// `rand::rng`: a handle to the generator of the current thread. Nothing is
/// known of the numbers that it will give.
pub assume_specification[ rand::rng ]() -> (generator: ThreadRng)
;

/// `Rng::random_range` on the half-open range from zero to `bound`: some
/// number below `bound`. The range must not be empty.
#[verifier::external_body]
fn random_below(generator: &mut ThreadRng, bound: usize) -> (value: usize)
    requires
        bound > 0,
    ensures
        value < bound,
{
    generator.random_range(0..bound)
}

/// Camera activity
///
/// This activity emulates a camera generating a [`CameraImage`].
#[derive(Debug)]
pub struct Camera {
    activity_id: ActivityId,
    image_topic: String,
}

/// The mathematical value of a [`Camera`].
pub struct CameraView {
    /// The identifier of the activity.
    pub activity_id: ActivityId,
    /// The name of the topic on which the camera publishes.
    pub image_topic: Seq<char>,
}

impl View for Camera {
    type V = CameraView;

    closed spec fn view(&self) -> CameraView {
        CameraView { activity_id: self.activity_id, image_topic: self.image_topic@ }
    }
}

impl Camera {
    /// A camera with the identifier `activity_id` that publishes on `image_topic`.
    pub fn build(activity_id: ActivityId, image_topic: &str) -> (camera: Camera)
        ensures
            camera@ == (CameraView { activity_id, image_topic: image_topic@ }),
    {
        Camera { activity_id, image_topic: image_topic.to_owned() }
    }

    /// A reading with the given obstacle distance and freshly drawn numbers
    /// of people and cars.
    pub fn get_image(&mut self, obstacle_distance: u64) -> (image: CameraImage)
        requires
            is_obstacle_distance(obstacle_distance),
        ensures
            *final(self) == *old(self),
            image.in_range(),
            image.obstacle_distance == obstacle_distance,
    {
        let mut generator = rand::rng();
        let num_people = random_below(&mut generator, MAX_PEOPLE);
        let num_cars = random_below(&mut generator, MAX_CARS);
        CameraImage { num_people, num_cars, obstacle_distance }
    }

    /// The identifier of the activity.
    pub fn id(&self) -> (id: ActivityId)
        ensures
            id == self@.activity_id,
    {
        self.activity_id
    }

    /// The name of the topic on which the camera publishes.
    pub fn image_topic(&self) -> (topic: &str)
        ensures
            topic@ == self@.image_topic,
    {
        self.image_topic.as_str()
    }

    /// Prepares the camera for stepping. There is nothing to prepare.
    pub fn startup(&mut self)
        ensures
            *final(self) == *old(self),
    {
    }

    /// One period of the camera.
    ///
    /// `output_free` says whether a slot of the output topic could be
    /// acquired. Where one is free, `obstacle_distance` is this period's
    /// measurement, a uniform draw from `[20, 50)`, and the step hands back
    /// the reading to publish in the slot. Where none is free nothing is
    /// measured: `obstacle_distance` is not looked at, the step hands back
    /// nothing, and nothing is kept for a later period.
    pub fn step(&mut self, output_free: bool, obstacle_distance: u64) -> (image: Option<
        CameraImage,
    >)
        requires
            output_free ==> is_obstacle_distance(obstacle_distance),
        ensures
            *final(self) == *old(self),
            image is Some <==> output_free,
            image matches Some(image) ==> image.in_range() && image.obstacle_distance
                == obstacle_distance,
    {
        if output_free {
            Some(self.get_image(obstacle_distance))
        } else {
            None
        }
    }

    /// Tears the camera down. There is nothing to release.
    pub fn shutdown(&mut self)
        ensures
            *final(self) == *old(self),
    {
    }
}

} // verus!
