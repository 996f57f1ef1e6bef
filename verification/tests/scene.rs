use softrender::camera::{Axis, Direction};
use softrender::scene::{RasterizableScene, RayTracingScene, SceneTrait};

#[test]
fn new_scenes_are_empty() {
    let meshes: RasterizableScene<u32> = RasterizableScene::new();
    assert!(meshes.objects.is_empty());
    let shapes: RayTracingScene<str> = RayTracingScene::new();
    assert!(shapes.objects.is_empty());
}

#[test]
fn rasterizable_scene_keeps_the_order_of_adding() {
    let mut scene: RasterizableScene<u32> = RasterizableScene::new();
    scene.add(Box::new(7));
    scene.add(Box::new(3));
    scene.add(Box::new(7));
    assert_eq!(scene.objects, vec![Box::new(7), Box::new(3), Box::new(7)]);
}

#[test]
fn raytracing_scene_keeps_the_order_of_adding() {
    let mut scene: RayTracingScene<str> = RayTracingScene::new();
    scene.add("ground".into());
    scene.add("glass".into());
    assert_eq!(scene.objects.len(), 2);
    assert_eq!(&*scene.objects[0], "ground");
    assert_eq!(&*scene.objects[1], "glass");
}

#[test]
fn clear_empties_a_scene() {
    let mut scene: RasterizableScene<u32> = RasterizableScene::new();
    scene.add(Box::new(1));
    scene.add(Box::new(2));
    scene.clear();
    assert!(scene.objects.is_empty());
    scene.add(Box::new(9));
    assert_eq!(scene.objects, vec![Box::new(9)]);
    let mut shapes: RayTracingScene<str> = RayTracingScene::new();
    shapes.add("ball".into());
    shapes.clear();
    assert!(shapes.objects.is_empty());
}

#[test]
fn front_and_back_run_along_the_view() {
    assert_eq!(Direction::FRONT.axis(), Axis::Forward);
    assert_eq!(Direction::BACK.axis(), Axis::Forward);
    assert!(!Direction::FRONT.reversed());
    assert!(Direction::BACK.reversed());
}

#[test]
fn left_and_right_run_sideways() {
    assert_eq!(Direction::LEFT.axis(), Axis::Sideways);
    assert_eq!(Direction::RIGHT.axis(), Axis::Sideways);
    assert!(Direction::LEFT.reversed());
    assert!(!Direction::RIGHT.reversed());
}

#[test]
fn hittable_list_keeps_the_order_of_adding() {
    let mut list: softrender::hit::HittableList<str> = softrender::hit::HittableList::new();
    assert!(list.objects.is_empty());
    list.add("near".into());
    list.add("far".into());
    assert_eq!(list.objects.len(), 2);
    assert_eq!(&*list.objects[0], "near");
    assert_eq!(&*list.objects[1], "far");
    list.clear();
    assert!(list.objects.is_empty());
}

#[test]
fn the_four_keys_shift_the_camera() {
    assert!(matches!(Direction::from_key_code(b"KeyW"), Some(Direction::FRONT)));
    assert!(matches!(Direction::from_key_code(b"KeyS"), Some(Direction::BACK)));
    assert!(matches!(Direction::from_key_code(b"KeyA"), Some(Direction::LEFT)));
    assert!(matches!(Direction::from_key_code(b"KeyD"), Some(Direction::RIGHT)));
}

#[test]
fn other_keys_do_not_shift_the_camera() {
    assert!(Direction::from_key_code(b"").is_none());
    assert!(Direction::from_key_code(b"KeyQ").is_none());
    assert!(Direction::from_key_code(b"Keyw").is_none());
    assert!(Direction::from_key_code(b"keyW").is_none());
    assert!(Direction::from_key_code(b"KeyWW").is_none());
    assert!(Direction::from_key_code(b"Key").is_none());
    assert!(Direction::from_key_code(b"W").is_none());
    assert!(Direction::from_key_code(b"ArrowUp").is_none());
    assert!(Direction::from_key_code(b" KeyW").is_none());
}
