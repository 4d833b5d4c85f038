use entity_registry::construction::apply_all;
use entity_registry::names::{same_name, NameTable};
use entity_registry::registry::{ComponentTypeId, EntityClassId, EntityId, Registry};
use specs::{Builder, Component, EntityBuilder, VecStorage, World, WorldExt};
use std::collections::BTreeMap;

type Ctor = fn(EntityBuilder) -> EntityBuilder;

struct Count(u32);

impl Component for Count {
    type Storage = VecStorage<Self>;
}

fn count_up(builder: EntityBuilder) -> EntityBuilder {
    let seen = {
        let counts = builder.world.read_storage::<Count>();
        counts.get(builder.entity).map(|c| c.0).unwrap_or(0)
    };
    builder.with(Count(seen + 1))
}

fn double(builder: EntityBuilder) -> EntityBuilder {
    let seen = {
        let counts = builder.world.read_storage::<Count>();
        counts.get(builder.entity).map(|c| c.0).unwrap_or(0)
    };
    builder.with(Count(seen * 2))
}

#[test]
fn same_name_compares_every_character() {
    assert!(same_name("Tree", "Tree"));
    assert!(same_name("", ""));
    assert!(!same_name("Tree", "Free"));
    assert!(!same_name("Tree", "Tred"));
    assert!(!same_name("Tree", "Trees"));
    assert!(!same_name("Trees", "Tree"));
    assert!(!same_name("Tree", ""));
    assert!(!same_name("", "Tree"));
    assert!(!same_name("Tree", "tree"));
}

#[test]
fn same_name_compares_names_beyond_ascii() {
    assert!(same_name("B\u{e4}um", "B\u{e4}um"));
    assert!(!same_name("B\u{e4}um", "Baum"));
    assert!(!same_name("B\u{e4}um", "B\u{e5}um"));
    assert!(same_name("\u{6728}", "\u{6728}"));
    assert!(!same_name("\u{6728}", "\u{6797}"));
    assert!(same_name("\u{1f332}", "\u{1f332}"));
    assert!(!same_name("\u{1f332}", "\u{1f333}"));
    // One character against two that look the same.
    assert!(!same_name("\u{e9}", "e\u{301}"));
}

#[test]
fn same_name_agrees_with_equality_of_strings() {
    let names = ["", "a", "b", "ab", "ba", "abc", "Tree", "Trees", "\u{e4}", "a\u{308}"];
    for left in names {
        for right in names {
            assert_eq!(same_name(left, right), left == right);
        }
    }
}

#[test]
fn name_table_starts_empty() {
    let table: NameTable<u32> = NameTable::new();
    assert_eq!(table.get("Tree"), None);
    assert_eq!(table.get(""), None);
}

#[test]
fn name_table_finds_what_was_bound() {
    let mut table: NameTable<u32> = NameTable::new();
    table.insert("Player", 0);
    table.insert("Tree", 1);
    table.insert("", 2);
    assert_eq!(table.get("Player"), Some(0));
    assert_eq!(table.get("Tree"), Some(1));
    assert_eq!(table.get(""), Some(2));
    assert_eq!(table.get("Rock"), None);
    assert_eq!(table.get("Tre"), None);
}

#[test]
fn name_table_replaces_the_value_of_a_name_bound_again() {
    let mut table: NameTable<u32> = NameTable::new();
    table.insert("Tree", 1);
    table.insert("Rock", 2);
    table.insert("Tree", 3);
    assert_eq!(table.get("Tree"), Some(3));
    assert_eq!(table.get("Rock"), Some(2));
    table.insert("Rock", 4);
    table.insert("Tree", 5);
    assert_eq!(table.get("Tree"), Some(5));
    assert_eq!(table.get("Rock"), Some(4));
}

#[test]
fn name_table_behaves_as_a_map_keyed_by_strings() {
    let bindings = [
        ("a", 1u32),
        ("b", 2),
        ("a", 3),
        ("c", 4),
        ("b", 5),
        ("", 6),
        ("aa", 7),
        ("c", 8),
        ("a", 9),
    ];
    let mut table: NameTable<u32> = NameTable::new();
    let mut map: BTreeMap<&'static str, u32> = BTreeMap::new();
    for (name, value) in bindings {
        table.insert(name, value);
        map.insert(name, value);
        for probe in ["", "a", "b", "c", "aa", "d"] {
            assert_eq!(table.get(probe), map.get(probe).copied());
        }
    }
}

#[test]
fn apply_all_applies_the_first_contribution_first() {
    let mut world = World::new();
    world.register::<Count>();

    let ctors: Vec<Ctor> = vec![count_up, double, count_up];
    let entity = apply_all(&ctors, world.create_entity()).build();
    assert_eq!(world.read_storage::<Count>().get(entity).map(|c| c.0), Some(3));

    let ctors: Vec<Ctor> = vec![double, count_up, count_up];
    let entity = apply_all(&ctors, world.create_entity()).build();
    assert_eq!(world.read_storage::<Count>().get(entity).map(|c| c.0), Some(2));
}

#[test]
fn apply_all_of_nothing_returns_the_builder_as_it_came() {
    let mut world = World::new();
    world.register::<Count>();

    let ctors: Vec<Ctor> = Vec::new();
    let builder = world.create_entity().with(Count(9));
    let entity = builder.entity;
    let built = apply_all(&ctors, builder);
    assert_eq!(built.entity, entity);
    let entity = built.build();
    assert_eq!(world.read_storage::<Count>().get(entity).map(|c| c.0), Some(9));

    let entity = apply_all(&ctors, world.create_entity()).build();
    assert!(world.read_storage::<Count>().get(entity).is_none());
}

#[test]
fn apply_all_builds_the_entity_that_the_builder_stands_for() {
    let mut world = World::new();
    world.register::<Count>();
    let ctors: Vec<Ctor> = vec![count_up];
    let builder = world.create_entity();
    let entity = builder.entity;
    assert_eq!(apply_all(&ctors, builder).build(), entity);
    assert!(world.is_alive(entity));
}

#[test]
fn ids_of_the_registry_are_values() {
    let mut registry: Registry<Ctor> = Registry::default();
    let a = registry.add_entity_type("A", count_up);
    let b = registry.add_entity_type("B", count_up);
    let copy = a;
    assert_eq!(a, copy);
    assert_eq!(a.clone(), a);
    assert!(a < b && b > a && a <= copy && a >= copy);
    assert_eq!(a.partial_cmp(&b), Some(std::cmp::Ordering::Less));
    assert_eq!(b.partial_cmp(&a), Some(std::cmp::Ordering::Greater));
    assert_eq!(a.partial_cmp(&copy), Some(std::cmp::Ordering::Equal));
    assert_eq!(a.cmp(&b), std::cmp::Ordering::Less);

    let x = registry.add_component_type("X", 1);
    let y = registry.add_component_type("Y", 1);
    assert!(x < y && y > x);
    assert_eq!(x.partial_cmp(&y), Some(std::cmp::Ordering::Less));
    assert_eq!(y.cmp(&x), std::cmp::Ordering::Greater);
    assert_eq!(x, ComponentTypeId::default());
    assert_eq!(a, EntityClassId::default());
}

#[test]
fn ids_serve_as_keys_of_sorted_maps() {
    let mut registry: Registry<Ctor> = Registry::default();
    let a = registry.add_entity_type("A", count_up);
    let b = registry.add_entity_type("B", count_up);
    let c = registry.add_entity_type("C", count_up);
    let mut names: BTreeMap<EntityClassId, &'static str> = BTreeMap::new();
    names.insert(c, "C");
    names.insert(a, "A");
    names.insert(b, "B");
    let in_order: Vec<&'static str> = names.values().copied().collect();
    assert_eq!(in_order, vec!["A", "B", "C"]);
    assert_eq!(names.get(&b), Some(&"B"));
}

#[test]
fn entity_id_defaults_to_zero() {
    let id = EntityId::default();
    assert_eq!(format!("{:?}", id), "EntityId(0)");
    assert_eq!(id, EntityId::default());
    assert_eq!(id.partial_cmp(&EntityId::default()), Some(std::cmp::Ordering::Equal));
    assert!(!(id < EntityId::default()));
}
