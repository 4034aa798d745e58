use rapier2d::dynamics::{IntegrationParameters, RigidBodyBuilder, RigidBodyHandle};
use rapier2d::geometry::ColliderBuilder;
use rapier2d::na::Vector2;
use rapier_world::controller::{ControllerState, FrameAction, RapierWorld2D};
use rapier_world::error::WorldError;
use rapier_world::handle::BodyHandle;
use rapier_world::naming::box_name;
use rapier_world::physics::{BodyParts, PhysicsState};

fn wall(x: f32, y: f32, w: f32, h: f32) -> BodyParts {
    BodyParts {
        body: RigidBodyBuilder::new_static().translation(x, y).build(),
        collider: ColliderBuilder::cuboid(w, h).build(),
    }
}

fn falling_box(x: f32, y: f32) -> BodyParts {
    BodyParts {
        body: RigidBodyBuilder::new_dynamic().translation(x, y).build(),
        collider: ColliderBuilder::cuboid(19.2, 19.2).build(),
    }
}

fn advance(world: &mut PhysicsState) {
    let gravity = Vector2::new(0.0, 98.0);
    let integration_parameters = IntegrationParameters::default();
    world.pipeline.step(
        &gravity,
        &integration_parameters,
        &mut world.broad_phase,
        &mut world.narrow_phase,
        &mut world.bodies,
        &mut world.colliders,
        &mut world.joints,
        &mut world.ccd,
        &(),
        &(),
    );
}

fn ready(controller: &mut RapierWorld2D<String>, w: f32, h: f32) {
    controller._ready(wall(0., h, w, 10.), wall(0., h / 2., 10., h), wall(w, h / 2., 10., h));
}

#[test]
fn box_names_count_from_zero_in_base_ten() {
    assert_eq!(box_name(0), "box_0");
    assert_eq!(box_name(1), "box_1");
    assert_eq!(box_name(9), "box_9");
    assert_eq!(box_name(10), "box_10");
    assert_eq!(box_name(99), "box_99");
    assert_eq!(box_name(100), "box_100");
    assert_eq!(box_name(12345), "box_12345");
    assert_eq!(box_name(1_000_000_007), "box_1000000007");
    assert_eq!(box_name(usize::MAX), format!("box_{}", usize::MAX));
}

#[test]
fn box_names_agree_with_the_usual_formatting() {
    for n in 0..2000usize {
        assert_eq!(box_name(n), format!("box_{}", n));
    }
}

#[test]
fn a_new_controller_is_uninitialized_and_empty() {
    let controller: RapierWorld2D<String> = RapierWorld2D::new();
    assert_eq!(controller.state(), ControllerState::Uninitialized);
    assert_eq!(controller.len(), 0);
    assert_eq!(controller.physics().bodies.len(), 0);
    assert_eq!(controller.update_boxes().unwrap().len(), 0);
}

#[test]
fn ready_puts_up_floor_and_walls_and_starts_running() {
    let mut controller: RapierWorld2D<String> = RapierWorld2D::new();
    ready(&mut controller, 800.0, 600.0);
    assert_eq!(controller.state(), ControllerState::Running);
    assert_eq!(controller.len(), 0);
    let world = controller.physics();
    assert_eq!(world.bodies.len(), 3);
    assert_eq!(world.colliders.len(), 3);
    let placed: Vec<(f32, f32)> = world
        .bodies
        .iter()
        .map(|(_, body)| (body.position().translation.x, body.position().translation.y))
        .collect();
    assert_eq!(placed, vec![(0.0, 600.0), (0.0, 300.0), (800.0, 300.0)]);
    assert!(world.bodies.iter().all(|(_, body)| body.is_static() && body.colliders().len() == 1));
}

#[test]
fn spawned_boxes_are_named_and_recorded_in_order() {
    let mut controller: RapierWorld2D<String> = RapierWorld2D::new();
    ready(&mut controller, 800.0, 600.0);
    let mut handles: Vec<BodyHandle> = Vec::new();
    for n in 0..25usize {
        let spawned = controller
            .spawn(falling_box(30.0 * n as f32, 0.0), Some(format!("node {}", n)))
            .unwrap();
        assert_eq!(spawned.name, format!("box_{}", n));
        assert!(!handles.contains(&spawned.handle));
        assert!(controller.physics().contains(spawned.handle));
        handles.push(spawned.handle);
        assert_eq!(controller.len(), n + 1);
    }
    let records = controller.update_boxes().unwrap();
    assert_eq!(records.len(), 25);
    for (n, record) in records.iter().enumerate() {
        assert_eq!(record.handle, handles[n]);
        assert_eq!(record.node, format!("node {}", n));
    }
    assert_eq!(controller.physics().bodies.len(), 28);
    assert_eq!(controller.state(), ControllerState::Running);
}

#[test]
fn a_spawned_box_is_found_where_it_was_put() {
    let mut controller: RapierWorld2D<String> = RapierWorld2D::new();
    let spawned = controller.spawn(falling_box(321.0, 12.5), Some(String::from("n"))).unwrap();
    let body = controller.physics().body(spawned.handle).unwrap();
    assert_eq!(body.position().translation.x, 321.0);
    assert_eq!(body.position().translation.y, 12.5);
    assert_eq!(body.position().rotation.angle(), 0.0);
    assert!(body.is_dynamic());
}

#[test]
fn spawning_without_a_node_changes_nothing() {
    let mut controller: RapierWorld2D<String> = RapierWorld2D::new();
    ready(&mut controller, 800.0, 600.0);
    let first = controller.spawn(falling_box(1.0, 1.0), Some(String::from("a"))).unwrap();
    assert_eq!(first.name, "box_0");
    let failed = controller.spawn(falling_box(2.0, 2.0), None);
    assert_eq!(failed.err(), Some(WorldError::AssetLoadError));
    assert_eq!(controller.len(), 1);
    assert_eq!(controller.physics().bodies.len(), 4);
    assert_eq!(controller.physics().colliders.len(), 4);
    assert_eq!(controller.state(), ControllerState::Running);
    // The failed attempt used up no identifier.
    let second = controller.spawn(falling_box(3.0, 3.0), Some(String::from("b"))).unwrap();
    assert_eq!(second.name, "box_1");
    assert_ne!(second.handle, first.handle);
    assert_eq!(controller.len(), 2);
}

#[test]
fn a_frame_is_spawn_then_step_then_sync() {
    let controller: RapierWorld2D<String> = RapierWorld2D::new();
    assert_eq!(
        controller._process(true),
        vec![FrameAction::Spawn, FrameAction::Step, FrameAction::Sync]
    );
    assert_eq!(controller._process(false), vec![FrameAction::Step, FrameAction::Sync]);
}

#[test]
fn update_boxes_reports_a_record_whose_body_is_gone() {
    let mut controller: RapierWorld2D<String> = RapierWorld2D::new();
    let first = controller.spawn(falling_box(1.0, 1.0), Some(String::from("a"))).unwrap();
    let second = controller.spawn(falling_box(50.0, 1.0), Some(String::from("b"))).unwrap();
    assert!(controller.update_boxes().is_ok());
    let world = controller.physics_mut();
    let gone = RigidBodyHandle::from_raw_parts(second.handle.index, second.handle.generation);
    assert!(world.bodies.remove(gone, &mut world.colliders, &mut world.joints).is_some());
    assert_eq!(controller.update_boxes().err(), Some(WorldError::BodyNotFound));
    assert!(controller.physics().contains(first.handle));
    assert!(!controller.physics().contains(second.handle));
    assert_eq!(controller.len(), 2);
}

#[test]
fn frames_keep_the_records_and_move_the_boxes() {
    let mut controller: RapierWorld2D<String> = RapierWorld2D::new();
    ready(&mut controller, 800.0, 600.0);
    let mut seen: Vec<(String, f32)> = Vec::new();
    let mut steps = 0;
    for frame in 0..90usize {
        let trigger = frame % 30 == 0;
        for action in controller._process(trigger) {
            match action {
                FrameAction::Spawn => {
                    let at = 100.0 + 100.0 * (frame / 30) as f32;
                    let node = Some(format!("node {}", controller.len()));
                    let spawned = controller.spawn(falling_box(at, 0.0), node).unwrap();
                    assert_eq!(spawned.name, format!("box_{}", frame / 30));
                },
                FrameAction::Step => {
                    advance(controller.physics_mut());
                    steps += 1;
                },
                FrameAction::Sync => {
                    seen.clear();
                    for record in controller.update_boxes().unwrap() {
                        let body = controller.physics().body(record.handle).unwrap();
                        seen.push((record.node.clone(), body.position().translation.y));
                    }
                },
            }
        }
    }
    assert_eq!(steps, 90);
    assert_eq!(controller.len(), 3);
    assert_eq!(seen.len(), 3);
    assert_eq!(seen[0].0, "node 0");
    assert_eq!(seen[1].0, "node 1");
    assert_eq!(seen[2].0, "node 2");
    // The older a box, the further it has fallen.
    assert!(seen[0].1 > seen[1].1);
    assert!(seen[1].1 > seen[2].1);
    assert!(seen[2].1 > 0.0);
}

#[test]
fn the_records_can_be_read_as_a_table_keyed_by_handle() {
    let mut controller: RapierWorld2D<String> = RapierWorld2D::new();
    ready(&mut controller, 800.0, 600.0);
    let first = controller.spawn(falling_box(10.0, 0.0), Some(String::from("one"))).unwrap();
    let second = controller.spawn(falling_box(60.0, 0.0), Some(String::from("two"))).unwrap();
    assert_eq!(controller.node_of(first.handle), Some(&String::from("one")));
    assert_eq!(controller.node_of(second.handle), Some(&String::from("two")));
    // The floor is a body of the world but no spawned box.
    let (floor, _) = controller.physics().bodies.iter().next().unwrap();
    let (index, generation) = floor.into_raw_parts();
    let floor = BodyHandle::from_raw_parts(index, generation);
    assert!(controller.physics().contains(floor));
    assert_eq!(controller.node_of(floor), None);
    assert_eq!(controller.node_of(BodyHandle::from_raw_parts(1000, 0)), None);
}
