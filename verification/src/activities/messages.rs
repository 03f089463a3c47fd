//! Messages exchanged between activities.
//!
//! Distances are real-valued in the field. They are carried here as the bit
//! pattern of their IEEE 754 binary64 encoding, which is exact and keeps the
//! messages plain integer data. For non-negative finite values the order of
//! the bit patterns is the order of the encoded numbers, so a half-open
//! interval of distances is a half-open interval of bit patterns.

use vstd::prelude::*;

verus! {

/// Bit pattern of the binary64 number 10.
pub const DISTANCE_10: u64 = 0x4024_0000_0000_0000;

/// Bit pattern of the binary64 number 20.
pub const DISTANCE_20: u64 = 0x4034_0000_0000_0000;

/// Bit pattern of the binary64 number 50.
pub const DISTANCE_50: u64 = 0x4049_0000_0000_0000;

/// Exclusive upper bound on the number of people in a camera image.
pub const MAX_PEOPLE: usize = 20;

/// Exclusive upper bound on the number of cars in a camera image.
pub const MAX_CARS: usize = 7;

/// Whether `distance` encodes an obstacle distance in `[20, 50)`.
pub open spec fn is_obstacle_distance(distance: u64) -> bool {
    DISTANCE_20 <= distance < DISTANCE_50
}

/// Whether `distance` encodes a lane distance in `[10, 50)`.
pub open spec fn is_lane_distance(distance: u64) -> bool {
    DISTANCE_10 <= distance < DISTANCE_50
}

/// Camera image
///
/// Fake camera frame with number of detected people and cars,
/// and distance to the closest obstacle.
#[derive(Clone, Copy, Debug, PartialEq, Eq, Structural)]
pub struct CameraImage {
    pub num_people: usize,
    pub num_cars: usize,
    pub obstacle_distance: u64,
}

impl CameraImage {
    /// Whether the image is one that a camera can have produced: every field
    /// lies in its range.
    pub open spec fn in_range(self) -> bool {
        &&& self.num_people < MAX_PEOPLE
        &&& self.num_cars < MAX_CARS
        &&& is_obstacle_distance(self.obstacle_distance)
    }
}

impl Default for CameraImage {
    fn default() -> (image: Self)
        ensures
            image == (CameraImage { num_people: 0, num_cars: 0, obstacle_distance: 0 }),
    {
        CameraImage { num_people: 0, num_cars: 0, obstacle_distance: 0 }
    }
}

/// Scene
///
/// Fake inferred scene with number of detected people and cars,
/// distance to the closest obstacle, and distances to left and right lane.
#[derive(Clone, Copy, Debug, PartialEq, Eq, Structural)]
pub struct Scene {
    pub num_people: usize,
    pub num_cars: usize,
    pub obstacle_distance: u64,
    pub distance_left_lane: u64,
    pub distance_right_lane: u64,
}

impl Scene {
    /// The scene that shows `image` between lanes at the given distances.
    pub open spec fn render(image: CameraImage, left: u64, right: u64) -> Scene {
        Scene {
            num_people: image.num_people,
            num_cars: image.num_cars,
            obstacle_distance: image.obstacle_distance,
            distance_left_lane: left,
            distance_right_lane: right,
        }
    }

    /// Renders `image` between lanes at the given distances: the detection
    /// fields are those of the image, unchanged.
    pub fn from_image(image: &CameraImage, distance_left_lane: u64, distance_right_lane: u64) -> (scene:
        Scene)
        ensures
            scene == Scene::render(*image, distance_left_lane, distance_right_lane),
            scene.shows(*image),
    {
        Scene {
            num_people: image.num_people,
            num_cars: image.num_cars,
            obstacle_distance: image.obstacle_distance,
            distance_left_lane,
            distance_right_lane,
        }
    }

    /// Whether the scene's detection fields are those of `image`.
    pub open spec fn shows(self, image: CameraImage) -> bool {
        &&& self.num_people == image.num_people
        &&& self.num_cars == image.num_cars
        &&& self.obstacle_distance == image.obstacle_distance
    }

    /// Whether both lane distances lie in their range.
    pub open spec fn lanes_in_range(self) -> bool {
        &&& is_lane_distance(self.distance_left_lane)
        &&& is_lane_distance(self.distance_right_lane)
    }
}

impl Default for Scene {
    fn default() -> (scene: Self)
        ensures
            scene == (Scene {
                num_people: 0,
                num_cars: 0,
                obstacle_distance: 0,
                distance_left_lane: 0,
                distance_right_lane: 0,
            }),
    {
        Scene {
            num_people: 0,
            num_cars: 0,
            obstacle_distance: 0,
            distance_left_lane: 0,
            distance_right_lane: 0,
        }
    }
}

} // verus!
