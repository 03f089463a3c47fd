use ad_demo::activities::messages::{
    CameraImage, Scene, DISTANCE_10, DISTANCE_20, DISTANCE_50, MAX_CARS, MAX_PEOPLE,
};

#[test]
fn distance_bounds_are_the_bit_patterns_of_the_numbers() {
    assert_eq!(DISTANCE_10, 10.0f64.to_bits());
    assert_eq!(DISTANCE_20, 20.0f64.to_bits());
    assert_eq!(DISTANCE_50, 50.0f64.to_bits());
    assert_eq!(f64::from_bits(DISTANCE_20), 20.0);
}

#[test]
fn bit_patterns_are_ordered_as_the_numbers() {
    let samples = [0.0f64, 9.999, 10.0, 10.5, 19.999999, 20.0, 20.000001, 35.25, 49.999999, 50.0, 50.1, 1e300];
    for low in samples {
        for high in samples {
            assert_eq!(low < high, low.to_bits() < high.to_bits());
        }
    }
    for outside in [-0.0f64, -1.0, -25.0, f64::NAN, f64::INFINITY, f64::NEG_INFINITY] {
        let bits = outside.to_bits();
        assert!(!(DISTANCE_10 <= bits && bits < DISTANCE_50));
    }
}

#[test]
fn count_bounds() {
    assert_eq!(MAX_PEOPLE, 20);
    assert_eq!(MAX_CARS, 7);
}

#[test]
fn default_camera_image_is_zero() {
    let image = CameraImage::default();
    assert_eq!(image.num_people, 0);
    assert_eq!(image.num_cars, 0);
    assert_eq!(f64::from_bits(image.obstacle_distance), 0.0);
}

#[test]
fn default_scene_is_zero() {
    let scene = Scene::default();
    assert_eq!(scene.num_people, 0);
    assert_eq!(scene.num_cars, 0);
    assert_eq!(f64::from_bits(scene.obstacle_distance), 0.0);
    assert_eq!(f64::from_bits(scene.distance_left_lane), 0.0);
    assert_eq!(f64::from_bits(scene.distance_right_lane), 0.0);
}

#[test]
fn scene_from_image_copies_the_detection() {
    let image = CameraImage {
        num_people: 3,
        num_cars: 6,
        obstacle_distance: 42.5f64.to_bits(),
    };
    let scene = Scene::from_image(&image, 11.0f64.to_bits(), 49.0f64.to_bits());
    assert_eq!(
        scene,
        Scene {
            num_people: 3,
            num_cars: 6,
            obstacle_distance: 42.5f64.to_bits(),
            distance_left_lane: 11.0f64.to_bits(),
            distance_right_lane: 49.0f64.to_bits(),
        }
    );
}

#[test]
fn messages_are_plain_values() {
    let image = CameraImage {
        num_people: 1,
        num_cars: 2,
        obstacle_distance: 21.0f64.to_bits(),
    };
    let copy = image;
    assert_eq!(copy, image);
    assert_ne!(copy, CameraImage::default());
}
