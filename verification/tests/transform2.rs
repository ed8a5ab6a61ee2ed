use halia::scalar::Scalar;
use halia::transform2::{
    transform2_propagate, update_transform2, Depth, Entity, Transform, Transform2, Vec2, Vec3,
    World,
};

fn spawn_with(
    world: &mut World<i32>,
    parent: Option<Entity>,
    transform: Option<Transform<i32>>,
    transform2: Option<Transform2<i32>>,
    depth: Option<Depth<i32>>,
) -> Entity {
    let entity = match parent {
        Some(parent) => world.spawn_child(parent).unwrap(),
        None => world.spawn(),
    };
    assert!(world.set_transform(entity, transform));
    assert!(world.set_transform2(entity, transform2));
    assert!(world.set_depth(entity, depth));
    entity
}

fn z_of(world: &World<i32>, entity: Entity) -> i32 {
    world.transform(entity).unwrap().translation.z
}

#[test]
fn identity_propagation() {
    let mut world: World<i32> = World::new();
    let entity = spawn_with(
        &mut world,
        None,
        Some(Transform::default()),
        Some(Transform2::default()),
        None,
    );
    transform2_propagate(&mut world);
    let transform = world.transform(entity).unwrap();
    assert_eq!(transform.translation, Vec3::new(0, 0, 0));
    assert_eq!(transform.rotation, 0);
    assert_eq!(transform.scale, Vec3::new(1, 1, 1));
}

#[test]
fn identity_propagation_below_ancestors_without_depth() {
    let mut world: World<i32> = World::new();
    let root = spawn_with(&mut world, None, Some(Transform::default()), None, None);
    let middle = spawn_with(
        &mut world,
        Some(root),
        Some(Transform::default()),
        Some(Transform2::from_xy(4, 5)),
        None,
    );
    let leaf = spawn_with(
        &mut world,
        Some(middle),
        Some(Transform::from_translation(Vec3::new(9, 9, 0))),
        Some(Transform2::default()),
        None,
    );
    transform2_propagate(&mut world);
    let transform = world.transform(leaf).unwrap();
    assert_eq!(transform.translation, Vec3::new(0, 0, 0));
    assert_eq!(transform.rotation, 0);
    assert_eq!(transform.scale, Vec3::new(1, 1, 1));
}

#[test]
fn depth_exact_at_root() {
    let mut world: World<i32> = World::new();
    let root = spawn_with(
        &mut world,
        None,
        Some(Transform::default()),
        None,
        Some(Depth::Exact(5)),
    );
    transform2_propagate(&mut world);
    assert_eq!(z_of(&world, root), 5);
}

#[test]
fn depth_exact_and_inherit_agree_at_root() {
    let mut world: World<i32> = World::new();
    let exact = spawn_with(
        &mut world,
        None,
        Some(Transform::default()),
        None,
        Some(Depth::Exact(-12)),
    );
    let inherit = spawn_with(
        &mut world,
        None,
        Some(Transform::default()),
        None,
        Some(Depth::Inherit(-12)),
    );
    transform2_propagate(&mut world);
    assert_eq!(z_of(&world, exact), -12);
    assert_eq!(z_of(&world, inherit), -12);
}

#[test]
fn depth_inherit_below_exact() {
    let mut world: World<i32> = World::new();
    let root = spawn_with(
        &mut world,
        None,
        Some(Transform::default()),
        None,
        Some(Depth::Exact(5)),
    );
    let child = spawn_with(
        &mut world,
        Some(root),
        Some(Transform::default()),
        None,
        Some(Depth::Inherit(2)),
    );
    let exact_grandchild = spawn_with(
        &mut world,
        Some(child),
        Some(Transform::default()),
        None,
        Some(Depth::Exact(10)),
    );
    let inherit_grandchild = spawn_with(
        &mut world,
        Some(child),
        Some(Transform::default()),
        None,
        Some(Depth::Inherit(1)),
    );
    transform2_propagate(&mut world);
    assert_eq!(z_of(&world, root), 5);
    assert_eq!(z_of(&world, child), 2);
    // The grandchildren are reached with a cumulative depth of 5 + 2.
    assert_eq!(z_of(&world, exact_grandchild), 3);
    assert_eq!(z_of(&world, inherit_grandchild), 1);
}

#[test]
fn exact_depth_does_not_stack_below_exact_depth() {
    let mut world: World<i32> = World::new();
    let root = spawn_with(
        &mut world,
        None,
        Some(Transform::default()),
        None,
        Some(Depth::Exact(5)),
    );
    let child = spawn_with(
        &mut world,
        Some(root),
        Some(Transform::default()),
        None,
        Some(Depth::Exact(8)),
    );
    let grandchild = spawn_with(
        &mut world,
        Some(child),
        Some(Transform::default()),
        None,
        Some(Depth::Exact(8)),
    );
    transform2_propagate(&mut world);
    assert_eq!(z_of(&world, root), 5);
    assert_eq!(z_of(&world, child), 3);
    assert_eq!(z_of(&world, grandchild), 0);
}

#[test]
fn entity_without_depth_adds_its_own_z() {
    let mut world: World<i32> = World::new();
    let root = spawn_with(
        &mut world,
        None,
        Some(Transform::from_translation(Vec3::new(0, 0, 4))),
        None,
        None,
    );
    let child = spawn_with(
        &mut world,
        Some(root),
        Some(Transform::default()),
        None,
        Some(Depth::Exact(10)),
    );
    transform2_propagate(&mut world);
    assert_eq!(z_of(&world, root), 4);
    assert_eq!(z_of(&world, child), 6);
}

#[test]
fn entity_without_transform_is_walked_through() {
    let mut world: World<i32> = World::new();
    let root = spawn_with(
        &mut world,
        None,
        Some(Transform::default()),
        None,
        Some(Depth::Exact(5)),
    );
    let bare = spawn_with(
        &mut world,
        Some(root),
        None,
        Some(Transform2::from_xy(1, 2)),
        Some(Depth::Inherit(100)),
    );
    let leaf = spawn_with(
        &mut world,
        Some(bare),
        Some(Transform::default()),
        None,
        Some(Depth::Exact(7)),
    );
    transform2_propagate(&mut world);
    assert_eq!(world.transform(bare), None);
    assert_eq!(world.transform2(bare), Some(Transform2::from_xy(1, 2)));
    assert_eq!(world.depth(bare), Some(Depth::Inherit(100)));
    assert_eq!(z_of(&world, leaf), 2);
}

#[test]
fn entity_with_neither_component_is_left_untouched() {
    let mut world: World<i32> = World::new();
    let mut transform = Transform::from_translation(Vec3::new(3, 4, 5));
    transform.rotation = 6;
    transform.scale = Vec3::new(7, 8, 9);
    let entity = spawn_with(&mut world, None, Some(transform), None, None);
    transform2_propagate(&mut world);
    assert_eq!(world.transform(entity), Some(transform));
}

#[test]
fn depth_without_parent_and_without_transform2() {
    let mut world: World<i32> = World::new();
    let transform = Transform::from_translation(Vec3::new(3, 4, 0));
    let entity = spawn_with(&mut world, None, Some(transform), None, Some(Depth::Inherit(9)));
    transform2_propagate(&mut world);
    assert_eq!(
        world.transform(entity).unwrap().translation,
        Vec3::new(3, 4, 9)
    );
}

#[test]
fn transform2_is_copied_and_z_scale_is_kept() {
    let mut world: World<i32> = World::new();
    let mut transform = Transform::from_translation(Vec3::new(100, 200, 300));
    transform.rotation = 45;
    transform.scale = Vec3::new(5, 6, 1);
    let local = Transform2::from_xy(-3, 8)
        .with_rotation(90)
        .with_scale(Vec2::new(2, 4));
    let entity = spawn_with(&mut world, None, Some(transform), Some(local), None);
    transform2_propagate(&mut world);
    let written = world.transform(entity).unwrap();
    assert_eq!(written.translation, Vec3::new(-3, 8, 300));
    assert_eq!(written.rotation, 90);
    assert_eq!(written.scale, Vec3::new(2, 4, 1));
    assert_eq!(world.transform2(entity), Some(local));
}

#[test]
fn z_scale_is_never_written() {
    let mut world: World<i32> = World::new();
    let mut transform: Transform<i32> = Transform::default();
    transform.scale = Vec3::new(1, 1, 3);
    let entity = spawn_with(
        &mut world,
        None,
        Some(transform),
        Some(Transform2::from_scale(Vec2::new(2, 2))),
        Some(Depth::Exact(1)),
    );
    transform2_propagate(&mut world);
    assert_eq!(world.transform(entity).unwrap().scale, Vec3::new(2, 2, 3));
}

#[test]
fn depth_is_clamped_to_the_scalar_range() {
    let mut world: World<i32> = World::new();
    let root = spawn_with(
        &mut world,
        None,
        Some(Transform::default()),
        None,
        Some(Depth::Inherit(-10)),
    );
    let high = spawn_with(
        &mut world,
        Some(root),
        Some(Transform::default()),
        None,
        Some(Depth::Exact(i32::MAX)),
    );
    let below_high = spawn_with(
        &mut world,
        Some(high),
        Some(Transform::default()),
        None,
        Some(Depth::Exact(0)),
    );
    let other_root = spawn_with(
        &mut world,
        None,
        Some(Transform::default()),
        None,
        Some(Depth::Inherit(10)),
    );
    let low = spawn_with(
        &mut world,
        Some(other_root),
        Some(Transform::default()),
        None,
        Some(Depth::Exact(i32::MIN)),
    );
    transform2_propagate(&mut world);
    assert_eq!(z_of(&world, high), i32::MAX);
    // -10 + i32::MAX is the cumulative depth below `high`.
    assert_eq!(z_of(&world, below_high), 10 - i32::MAX);
    assert_eq!(z_of(&world, low), i32::MIN);
}

fn build_tree(world: &mut World<i32>) -> Vec<Entity> {
    let root = spawn_with(
        world,
        None,
        Some(Transform::default()),
        Some(Transform2::from_xy(1, 1)),
        Some(Depth::Exact(5)),
    );
    let child = spawn_with(
        world,
        Some(root),
        Some(Transform::default()),
        Some(Transform2::from_rotation(30)),
        Some(Depth::Inherit(2)),
    );
    let leaf = spawn_with(
        world,
        Some(child),
        Some(Transform::default()),
        None,
        Some(Depth::Exact(20)),
    );
    vec![root, child, leaf]
}

#[test]
fn tree_independence() {
    let mut alone: World<i32> = World::new();
    let tree = build_tree(&mut alone);
    transform2_propagate(&mut alone);

    let mut crowded: World<i32> = World::new();
    spawn_with(
        &mut crowded,
        None,
        Some(Transform::default()),
        None,
        Some(Depth::Exact(1000)),
    );
    let same_tree = build_tree(&mut crowded);
    let sibling = spawn_with(
        &mut crowded,
        Some(same_tree[0]),
        Some(Transform::default()),
        None,
        Some(Depth::Exact(-77)),
    );
    spawn_with(
        &mut crowded,
        Some(sibling),
        Some(Transform::default()),
        None,
        Some(Depth::Inherit(1)),
    );
    transform2_propagate(&mut crowded);

    for (entity, same) in tree.iter().zip(same_tree.iter()) {
        assert_eq!(alone.transform(*entity), crowded.transform(*same));
    }
    assert_eq!(z_of(&crowded, same_tree[2]), 13);
}

#[test]
fn propagate_twice_is_idempotent() {
    let mut world: World<i32> = World::new();
    let tree = build_tree(&mut world);
    let plain = spawn_with(
        &mut world,
        Some(tree[1]),
        Some(Transform::from_translation(Vec3::new(0, 0, 3))),
        None,
        None,
    );
    let below_plain = spawn_with(
        &mut world,
        Some(plain),
        Some(Transform::default()),
        None,
        Some(Depth::Exact(0)),
    );
    transform2_propagate(&mut world);
    let mut first = Vec::new();
    for index in 0..world.len() {
        first.push(world.transform(Entity(index)));
    }
    transform2_propagate(&mut world);
    for index in 0..world.len() {
        assert_eq!(world.transform(Entity(index)), first[index]);
    }
    assert_eq!(z_of(&world, below_plain), -10);
}

#[test]
fn every_root_is_visited() {
    let mut world: World<i32> = World::new();
    let mut roots = Vec::new();
    for value in 0..5 {
        let root = spawn_with(
            &mut world,
            None,
            Some(Transform::default()),
            None,
            Some(Depth::Exact(value)),
        );
        spawn_with(
            &mut world,
            Some(root),
            Some(Transform::default()),
            None,
            Some(Depth::Exact(value)),
        );
        roots.push(root);
    }
    transform2_propagate(&mut world);
    for (value, root) in roots.iter().enumerate() {
        assert_eq!(z_of(&world, *root), value as i32);
        assert_eq!(z_of(&world, world.children(*root)[0]), 0);
    }
}

#[test]
fn propagate_on_an_empty_world() {
    let mut world: World<i32> = World::new();
    transform2_propagate(&mut world);
    assert_eq!(world.len(), 0);
}

#[test]
fn world_links() {
    let mut world: World<i32> = World::new();
    let root = world.spawn();
    let first = world.spawn_child(root).unwrap();
    let second = world.spawn_child(root).unwrap();
    let other_root = world.spawn();
    let below_first = world.spawn_child(first).unwrap();
    assert_eq!(world.len(), 5);
    assert_eq!(root, Entity(0));
    assert_eq!(below_first, Entity(4));
    assert_eq!(world.roots(), vec![root, other_root]);
    assert_eq!(world.children(root), vec![first, second]);
    assert_eq!(world.children(first), vec![below_first]);
    assert_eq!(world.children(second), vec![]);
    assert_eq!(world.parent(root), None);
    assert_eq!(world.parent(second), Some(root));
    assert_eq!(world.parent(below_first), Some(first));
    assert!(world.contains(below_first));
    assert!(!world.contains(Entity(5)));
}

#[test]
fn absent_entity_is_absence_not_an_error() {
    let mut world: World<i32> = World::new();
    let root = world.spawn();
    let absent = Entity(7);
    assert_eq!(world.spawn_child(absent), None);
    assert_eq!(world.len(), 1);
    assert!(!world.set_transform(absent, Some(Transform::default())));
    assert!(!world.set_transform2(absent, Some(Transform2::default())));
    assert!(!world.set_depth(absent, Some(Depth::Exact(1))));
    assert_eq!(world.transform(absent), None);
    assert_eq!(world.transform2(absent), None);
    assert_eq!(world.depth(absent), None);
    assert_eq!(world.parent(absent), None);
    assert_eq!(world.children(absent), vec![]);
    assert_eq!(world.transform(root), None);
}

#[test]
fn components_can_be_taken_away() {
    let mut world: World<i32> = World::new();
    let root = spawn_with(
        &mut world,
        None,
        Some(Transform::default()),
        Some(Transform2::from_xy(1, 2)),
        Some(Depth::Exact(3)),
    );
    assert!(world.set_depth(root, None));
    assert!(world.set_transform2(root, None));
    transform2_propagate(&mut world);
    assert_eq!(world.transform(root), Some(Transform::default()));
    assert!(world.set_transform(root, None));
    assert_eq!(world.transform(root), None);
}

#[test]
fn transform2_constructors() {
    let identity: Transform2<i32> = Transform2::default();
    assert_eq!(identity.translation, Vec2::new(0, 0));
    assert_eq!(identity.rotation, 0);
    assert_eq!(identity.scale, Vec2::new(1, 1));

    assert_eq!(
        Transform2::from_xy(3, -4),
        Transform2 { translation: Vec2::new(3, -4), rotation: 0, scale: Vec2::new(1, 1) }
    );
    assert_eq!(
        Transform2::from_translation(Vec2::new(3, -4)),
        Transform2::from_xy(3, -4)
    );
    assert_eq!(
        Transform2::from_rotation(17),
        Transform2 { translation: Vec2::new(0, 0), rotation: 17, scale: Vec2::new(1, 1) }
    );
    assert_eq!(
        Transform2::from_scale(Vec2::new(2, 3)),
        Transform2 { translation: Vec2::new(0, 0), rotation: 0, scale: Vec2::new(2, 3) }
    );
    let built = Transform2::from_rotation(1)
        .with_translation(Vec2::new(5, 6))
        .with_scale(Vec2::new(7, 8))
        .with_rotation(9);
    assert_eq!(
        built,
        Transform2 { translation: Vec2::new(5, 6), rotation: 9, scale: Vec2::new(7, 8) }
    );
}

#[test]
fn vectors_and_default_transform() {
    let transform: Transform<i32> = Transform::default();
    assert_eq!(transform.translation, Vec3::new(0, 0, 0));
    assert_eq!(Vec2::<i32>::zero(), Vec2::new(0, 0));
    assert_eq!(Vec2::<i32>::one(), Vec2::new(1, 1));
    assert_eq!(Vec3::<i32>::zero(), Vec3::new(0, 0, 0));
    assert_eq!(Vec3::<i32>::one(), Vec3::new(1, 1, 1));
    assert_eq!(transform.rotation, 0);
    assert_eq!(transform.scale, Vec3::new(1, 1, 1));
    assert_eq!(
        Transform::from_translation(Vec3::new(1, 2, 3)),
        Transform { translation: Vec3::new(1, 2, 3), rotation: 0, scale: Vec3::new(1, 1, 1) }
    );
}

#[test]
fn update_of_one_entity() {
    let mut transform: Transform<i32> = Transform::from_translation(Vec3::new(1, 2, 3));
    let below = update_transform2(
        &mut transform,
        Some(Transform2::from_xy(7, 8).with_rotation(9)),
        Some(Depth::Exact(20)),
        4,
    );
    assert_eq!(
        transform,
        Transform { translation: Vec3::new(7, 8, 16), rotation: 9, scale: Vec3::new(1, 1, 1) }
    );
    assert_eq!(below, 20);

    let below = update_transform2(&mut transform, None, Some(Depth::Inherit(5)), 4);
    assert_eq!(transform.translation, Vec3::new(7, 8, 5));
    assert_eq!(below, 9);

    let below = update_transform2(&mut transform, None, None, 4);
    assert_eq!(transform.translation, Vec3::new(7, 8, 5));
    assert_eq!(transform.rotation, 9);
    assert_eq!(below, 9);
}

#[test]
fn whole_numbers_clamp() {
    assert_eq!(i32::zero(), 0);
    assert_eq!(i32::one(), 1);
    assert_eq!(7.minus(9), -2);
    assert_eq!(7.plus(9), 16);
    assert_eq!(i32::MAX.plus(1), i32::MAX);
    assert_eq!(i32::MIN.plus(-1), i32::MIN);
    assert_eq!(i32::MIN.minus(1), i32::MIN);
    assert_eq!(i32::MAX.minus(-1), i32::MAX);
    assert_eq!(0.minus(i32::MIN), i32::MAX);
    assert_eq!(i32::MIN.minus(i32::MIN), 0);
}
