use halia::scalar::Scalar;
use halia::transform2::{
    transform2_propagate, update_transform2, Depth, Entity, Transform, Transform2, Vec2, Vec3,
    World,
};

/// Single precision floating point numbers as scalars.
#[derive(Clone, Copy, Debug, PartialEq)]
struct Float(f32);

impl Scalar for Float {
    fn spec_zero() -> Float {
        Float(0.0)
    }

    fn spec_one() -> Float {
        Float(1.0)
    }

    fn spec_minus(self, rhs: Float) -> Float {
        Float(self.0 - rhs.0)
    }

    fn spec_plus(self, rhs: Float) -> Float {
        Float(self.0 + rhs.0)
    }

    fn zero() -> Float {
        Float(0.0)
    }

    fn one() -> Float {
        Float(1.0)
    }

    fn minus(self, rhs: Float) -> Float {
        Float(self.0 - rhs.0)
    }

    fn plus(self, rhs: Float) -> Float {
        Float(self.0 + rhs.0)
    }
}

fn spawn_float(
    world: &mut World<Float>,
    parent: Option<Entity>,
    transform2: Option<Transform2<Float>>,
    depth: Option<Depth<Float>>,
) -> Entity {
    let entity = match parent {
        Some(parent) => world.spawn_child(parent).unwrap(),
        None => world.spawn(),
    };
    assert!(world.set_transform(entity, Some(Transform::default())));
    assert!(world.set_transform2(entity, transform2));
    assert!(world.set_depth(entity, depth));
    entity
}

fn float_z(world: &World<Float>, entity: Entity) -> f32 {
    world.transform(entity).unwrap().translation.z.0
}

#[test]
fn float_identity_propagation() {
    let mut world: World<Float> = World::new();
    let entity = spawn_float(&mut world, None, Some(Transform2::default()), None);
    transform2_propagate(&mut world);
    let transform = world.transform(entity).unwrap();
    assert_eq!(transform.translation, Vec3::new(Float(0.0), Float(0.0), Float(0.0)));
    assert_eq!(transform.rotation, Float(0.0));
    assert_eq!(transform.scale, Vec3::new(Float(1.0), Float(1.0), Float(1.0)));
}

#[test]
fn float_depth_exact_at_root() {
    let mut world: World<Float> = World::new();
    let root = spawn_float(&mut world, None, None, Some(Depth::Exact(Float(5.0))));
    transform2_propagate(&mut world);
    assert_eq!(float_z(&world, root), 5.0);
}

#[test]
fn float_depth_inherit_below_exact() {
    let mut world: World<Float> = World::new();
    let root = spawn_float(&mut world, None, None, Some(Depth::Exact(Float(5.0))));
    let child = spawn_float(&mut world, Some(root), None, Some(Depth::Inherit(Float(2.0))));
    let grandchild = spawn_float(&mut world, Some(child), None, Some(Depth::Exact(Float(7.5))));
    transform2_propagate(&mut world);
    assert_eq!(float_z(&world, root), 5.0);
    assert_eq!(float_z(&world, child), 2.0);
    assert_eq!(float_z(&world, grandchild), 0.5);
}

#[test]
fn float_layers_between_zero_and_one() {
    let mut world: World<Float> = World::new();
    let below = spawn_float(
        &mut world,
        None,
        Some(Transform2::from_xy(Float(-200.0), Float(-75.0))),
        Some(Depth::Exact(Float(0.1))),
    );
    let above = spawn_float(
        &mut world,
        None,
        Some(Transform2::from_xy(Float(-200.0), Float(75.0))),
        Some(Depth::Exact(Float(1.0))),
    );
    let label = spawn_float(&mut world, Some(above), None, Some(Depth::Inherit(Float(0.25))));
    transform2_propagate(&mut world);
    assert_eq!(float_z(&world, below), 0.1);
    assert_eq!(float_z(&world, above), 1.0);
    assert_eq!(float_z(&world, label), 0.25);
    assert_eq!(
        world.transform(below).unwrap().translation,
        Vec3::new(Float(-200.0), Float(-75.0), Float(0.1))
    );
}

#[test]
fn float_propagate_twice_gives_the_same_bits() {
    let mut world: World<Float> = World::new();
    let root = spawn_float(&mut world, None, None, Some(Depth::Exact(Float(0.1))));
    let child = spawn_float(&mut world, Some(root), None, Some(Depth::Exact(Float(0.7))));
    let leaf = spawn_float(&mut world, Some(child), None, Some(Depth::Exact(Float(0.3))));
    transform2_propagate(&mut world);
    let first: Vec<u32> = [root, child, leaf]
        .iter()
        .map(|entity| float_z(&world, *entity).to_bits())
        .collect();
    transform2_propagate(&mut world);
    let second: Vec<u32> = [root, child, leaf]
        .iter()
        .map(|entity| float_z(&world, *entity).to_bits())
        .collect();
    assert_eq!(first, second);
    assert_eq!(first[0], 0.1f32.to_bits());
    assert_eq!(first[1], (0.7f32 - 0.1f32).to_bits());
}

#[test]
fn float_update_of_one_entity() {
    let mut transform: Transform<Float> = Transform::default();
    let local = Transform2::from_rotation(Float(1.5)).with_scale(Vec2::new(Float(2.0), Float(3.0)));
    let below = update_transform2(
        &mut transform,
        Some(local),
        Some(Depth::Exact(Float(5.0))),
        Float(1.5),
    );
    assert_eq!(transform.translation.z, Float(3.5));
    assert_eq!(transform.rotation, Float(1.5));
    assert_eq!(transform.scale, Vec3::new(Float(2.0), Float(3.0), Float(1.0)));
    assert_eq!(below, Float(5.0));
}
