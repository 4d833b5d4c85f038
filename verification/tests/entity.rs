use entity_registry::entity::{ClassId, Id, Reg};
use specs::{Builder, Component, EntityBuilder, VecStorage, World, WorldExt};

type Ctor = fn(EntityBuilder) -> EntityBuilder;

/// The digits of the contributions applied to an entity, first one first.
struct Steps(u32);

impl Component for Steps {
    type Storage = VecStorage<Self>;
}

fn steps_so_far(builder: &EntityBuilder) -> u32 {
    let steps = builder.world.read_storage::<Steps>();
    steps.get(builder.entity).map(|s| s.0).unwrap_or(0)
}

fn base(builder: EntityBuilder) -> EntityBuilder {
    let seen = steps_so_far(&builder);
    builder.with(Steps(seen * 10 + 4))
}

fn render(builder: EntityBuilder) -> EntityBuilder {
    let seen = steps_so_far(&builder);
    builder.with(Steps(seen * 10 + 5))
}

fn steps_of(reg: &Reg<Ctor>, id: ClassId) -> Option<u32> {
    let mut world = World::new();
    world.register::<Steps>();
    let entity = reg.instantiate(id, world.create_entity()).build();
    let steps = world.read_storage::<Steps>();
    steps.get(entity).map(|s| s.0)
}

#[test]
fn reg_starts_empty() {
    let reg: Reg<Ctor> = Reg::default();
    assert_eq!(reg.class_count(), 0);
    assert_eq!(reg.find_class_id("Tree"), None);
    assert_eq!(steps_of(&reg, ClassId::default()), None);
}

#[test]
fn reg_add_issues_ids_from_zero_upwards() {
    let mut reg: Reg<Ctor> = Reg::default();
    let player = reg.add("Player", base);
    let tree = reg.add("Tree", base);
    let rock = reg.add("Rock", base);
    assert_eq!(player, ClassId::default());
    assert_eq!(format!("{:?}", player), "ClassId(0)");
    assert_eq!(format!("{:?}", tree), "ClassId(1)");
    assert_eq!(format!("{:?}", rock), "ClassId(2)");
    assert!(player < tree && tree < rock);
    assert_eq!(reg.class_count(), 3);
}

#[test]
fn reg_finds_a_class_by_its_name() {
    let mut reg: Reg<Ctor> = Reg::default();
    let player = reg.add("Player", base);
    let tree = reg.add("Tree", base);
    assert_eq!(reg.find_class_id("Player"), Some(player));
    assert_eq!(reg.find_class_id("Tree"), Some(tree));
    assert_eq!(reg.find_class_id("Ghost"), None);
}

#[test]
fn reg_add_ctor_is_applied_after_the_first_contribution() {
    let mut reg: Reg<Ctor> = Reg::default();
    let tree = reg.add("Tree", base);
    assert_eq!(steps_of(&reg, tree), Some(4));
    reg.add_ctor("Tree", render);
    assert_eq!(steps_of(&reg, tree), Some(45));
    reg.add_ctor("Tree", base);
    assert_eq!(steps_of(&reg, tree), Some(454));
}

#[test]
fn reg_add_ctor_extends_only_the_named_class() {
    let mut reg: Reg<Ctor> = Reg::default();
    let player = reg.add("Player", base);
    let tree = reg.add("Tree", render);
    reg.add_ctor("Player", render);
    assert_eq!(steps_of(&reg, player), Some(45));
    assert_eq!(steps_of(&reg, tree), Some(5));
}

#[test]
fn reg_binds_a_name_registered_again_to_the_new_id() {
    let mut reg: Reg<Ctor> = Reg::default();
    let old = reg.add("Tree", base);
    let new = reg.add("Tree", render);
    assert_ne!(old, new);
    assert_eq!(reg.find_class_id("Tree"), Some(new));
    reg.add_ctor("Tree", render);
    assert_eq!(steps_of(&reg, old), Some(4));
    assert_eq!(steps_of(&reg, new), Some(55));
}

#[test]
fn reg_ids_depend_on_the_order_of_registration() {
    let mut server: Reg<Ctor> = Reg::default();
    let server_player = server.add("Player", base);
    server.add("Tree", base);
    let mut client: Reg<Ctor> = Reg::default();
    client.add("Tree", base);
    let client_player = client.add("Player", base);
    assert_ne!(server_player, client_player);
}

#[test]
fn entity_ids_are_values() {
    let id = Id::default();
    let copy = id;
    assert_eq!(id, copy);
    assert_eq!(id.clone(), id);
    assert!(!(id < copy));
    assert!(id <= copy);
    assert_eq!(format!("{:?}", id), "Id(0)");
    assert_eq!(id.cmp(&copy), std::cmp::Ordering::Equal);
    assert_eq!(id.partial_cmp(&copy), Some(std::cmp::Ordering::Equal));
}

#[test]
fn class_ids_are_ordered_as_their_numbers() {
    let mut reg: Reg<Ctor> = Reg::default();
    let a = reg.add("A", base);
    let b = reg.add("B", base);
    assert!(a < b);
    assert!(b > a);
    assert!(a <= a && a >= a);
    assert_eq!(a.partial_cmp(&b), Some(std::cmp::Ordering::Less));
    assert_eq!(b.partial_cmp(&a), Some(std::cmp::Ordering::Greater));
    assert_eq!(a.cmp(&b), std::cmp::Ordering::Less);
    assert_eq!(a.max(b), b);
    let mut sorted = vec![b, a, b];
    sorted.sort();
    assert_eq!(sorted, vec![a, b, b]);
}
