//! The registry: entity classes and component types under their names, and
//! the ids that stand for them.

use crate::construction::{accepts_every_builder, applied_in_order, apply_all};
pub use crate::defs::{ClientId, PlayerId};
use crate::model::{ComponentTypeView, EntityTypeView, RegistryView};
use crate::names::NameTable;
use specs::EntityBuilder;
use std::cmp::Ordering;
use std::collections::BTreeMap;
use vstd::laws_cmp::{group_laws_cmp, obeys_cmp};
use vstd::prelude::*;
use vstd::std_specs::btree::group_btree_axioms;
use vstd::std_specs::cmp::PartialOrdSpecImpl;

verus! {

/// A unique id assigned by the server to an entity.
#[derive(Debug, PartialEq, Eq, Structural, Ord, Copy, Clone)]
pub struct EntityId(u32);

impl View for EntityId {
    type V = nat;

    /// The number that the id wraps.
    closed spec fn view(&self) -> nat {
        self.0 as nat
    }
}

impl EntityId {
    /// Two ids with the same number are the same id.
    pub proof fn lemma_view_is_injective(self, other: Self)
        requires
            self@ == other@,
        ensures
            self == other,
    {
    }
}

impl Default for EntityId {
    /// The id with the number zero.
    fn default() -> (id: Self)
        ensures
            id@ == 0,
    {
        EntityId(0)
    }
}

impl PartialOrd for EntityId {
    /// Ids are ordered as their numbers are.
    fn partial_cmp(&self, other: &Self) -> (order: Option<Ordering>) {
        if self.0 < other.0 {
            Some(Ordering::Less)
        } else if self.0 > other.0 {
            Some(Ordering::Greater)
        } else {
            Some(Ordering::Equal)
        }
    }
}

impl PartialOrdSpecImpl for EntityId {
    open spec fn obeys_partial_cmp_spec() -> bool {
        true
    }

    open spec fn partial_cmp_spec(&self, other: &Self) -> Option<Ordering> {
        if self@ < other@ {
            Some(Ordering::Less)
        } else if self@ > other@ {
            Some(Ordering::Greater)
        } else {
            Some(Ordering::Equal)
        }
    }
}

/// A unique id assigned to an entity class.
#[derive(Debug, PartialEq, Eq, Structural, Ord, Copy, Clone)]
pub struct EntityClassId(u32);

impl View for EntityClassId {
    type V = nat;

    /// The number that the id wraps.
    closed spec fn view(&self) -> nat {
        self.0 as nat
    }
}

impl EntityClassId {
    /// Two ids with the same number are the same id.
    pub proof fn lemma_view_is_injective(self, other: Self)
        requires
            self@ == other@,
        ensures
            self == other,
    {
    }
}

impl Default for EntityClassId {
    /// The id with the number zero.
    fn default() -> (id: Self)
        ensures
            id@ == 0,
    {
        EntityClassId(0)
    }
}

impl PartialOrd for EntityClassId {
    /// Ids are ordered as their numbers are.
    fn partial_cmp(&self, other: &Self) -> (order: Option<Ordering>) {
        if self.0 < other.0 {
            Some(Ordering::Less)
        } else if self.0 > other.0 {
            Some(Ordering::Greater)
        } else {
            Some(Ordering::Equal)
        }
    }
}

impl PartialOrdSpecImpl for EntityClassId {
    open spec fn obeys_partial_cmp_spec() -> bool {
        true
    }

    open spec fn partial_cmp_spec(&self, other: &Self) -> Option<Ordering> {
        if self@ < other@ {
            Some(Ordering::Less)
        } else if self@ > other@ {
            Some(Ordering::Greater)
        } else {
            Some(Ordering::Equal)
        }
    }
}

/// A unique id assigned to a component type.
#[derive(Debug, PartialEq, Eq, Structural, Ord, Copy, Clone)]
pub struct ComponentTypeId(u32);

impl View for ComponentTypeId {
    type V = nat;

    /// The number that the id wraps.
    closed spec fn view(&self) -> nat {
        self.0 as nat
    }
}

impl ComponentTypeId {
    /// Two ids with the same number are the same id.
    pub proof fn lemma_view_is_injective(self, other: Self)
        requires
            self@ == other@,
        ensures
            self == other,
    {
    }
}

impl Default for ComponentTypeId {
    /// The id with the number zero.
    fn default() -> (id: Self)
        ensures
            id@ == 0,
    {
        ComponentTypeId(0)
    }
}

impl PartialOrd for ComponentTypeId {
    /// Ids are ordered as their numbers are.
    fn partial_cmp(&self, other: &Self) -> (order: Option<Ordering>) {
        if self.0 < other.0 {
            Some(Ordering::Less)
        } else if self.0 > other.0 {
            Some(Ordering::Greater)
        } else {
            Some(Ordering::Equal)
        }
    }
}

impl PartialOrdSpecImpl for ComponentTypeId {
    open spec fn obeys_partial_cmp_spec() -> bool {
        true
    }

    open spec fn partial_cmp_spec(&self, other: &Self) -> Option<Ordering> {
        if self@ < other@ {
            Some(Ordering::Less)
        } else if self@ > other@ {
            Some(Ordering::Greater)
        } else {
            Some(Ordering::Equal)
        }
    }
}

/// Meta information about a component type that can be synchronized over the
/// network. Name and size are set when the type is registered and never
/// change.
pub struct ComponentType {
    name: &'static str,
    size: usize,
}

impl View for ComponentType {
    type V = ComponentTypeView;

    closed spec fn view(&self) -> ComponentTypeView {
        ComponentTypeView { name: self.name@, size: self.size }
    }
}

impl ComponentType {
    /// The name under which the component type was registered.
    pub fn name(&self) -> (name: &'static str)
        ensures
            name@ == self@.name,
    {
        self.name
    }

    /// The size in bytes that the component type was registered with.
    pub fn size(&self) -> (size: usize)
        ensures
            size == self@.size,
    {
        self.size
    }
}

/// An entity class: its name, its construction contributions in the order in
/// which they were registered, and its declared components.
struct EntityType<F> {
    name: &'static str,
    ctors: Vec<F>,
    components: Vec<ComponentType>,
}

impl<F> View for EntityType<F> {
    type V = EntityTypeView<F>;

    closed spec fn view(&self) -> EntityTypeView<F> {
        EntityTypeView {
            name: self.name@,
            ctors: self.ctors@,
            components: Seq::new(self.components@.len(), |i: int| self.components@[i]@),
        }
    }
}

/// The numbers under which the records are stored are ordered as a map's
/// keys have to be.
proof fn lemma_numbers_are_ordered()
    ensures
        obeys_cmp::<u32>(),
{
    broadcast use group_laws_cmp;

}

/// Registry for entity types.
///
/// The purpose of the registry is to allow creating entities in the same way
/// on the server and clients.
pub struct Registry<F> {
    next_entity_type_id: EntityClassId,
    entity_type_ids: NameTable<EntityClassId>,
    entity_types: BTreeMap<u32, EntityType<F>>,
    next_component_type_id: ComponentTypeId,
    component_type_ids: NameTable<ComponentTypeId>,
    component_types: BTreeMap<u32, ComponentType>,
}

impl<F> View for Registry<F> {
    type V = RegistryView<F>;

    closed spec fn view(&self) -> RegistryView<F> {
        RegistryView {
            entity_type_ids: self.entity_type_ids@.map_values(|id: EntityClassId| id@),
            entity_types: Seq::new(
                self.next_entity_type_id@,
                |id: int| self.entity_types@[id as u32]@,
            ),
            component_type_ids: self.component_type_ids@.map_values(|id: ComponentTypeId| id@),
            component_types: Seq::new(
                self.next_component_type_id@,
                |id: int| self.component_types@[id as u32]@,
            ),
        }
    }
}

impl<F> Registry<F> where F: for<'b> Fn(EntityBuilder<'b>) -> EntityBuilder<'b> {
    /// Whether the registry is in order: the records are stored under the ids
    /// below the next one, and the registry is well-formed as a value.
    pub closed spec fn wf(&self) -> bool {
        &&& forall|id: u32| #[trigger]
            self.entity_types@.contains_key(id) <==> id < self.next_entity_type_id.0
        &&& forall|id: u32| #[trigger]
            self.component_types@.contains_key(id) <==> id < self.next_component_type_id.0
        &&& self@.wf()
    }

    /// A registry in order is well-formed as a value, and has issued no more
    /// ids than fit the id types.
    pub proof fn lemma_wf_view(&self)
        requires
            self.wf(),
        ensures
            self@.wf(),
            self@.entity_types.len() <= u32::MAX,
            self@.component_types.len() <= u32::MAX,
    {
    }

    /// Register a new entity class.
    ///
    /// Calls to this function should always be performed identically on
    /// server and client, before the game starts.
    ///
    /// The class gets the next id, one above the id issued last, and is
    /// built by `ctor` alone. A name that is registered again is bound to
    /// the new id; the class that had the name keeps its id and its
    /// contributions, and is no longer found by name. There must be an id
    /// left to issue.
    pub fn add_entity_type(&mut self, name: &'static str, ctor: F) -> (id: EntityClassId)
        requires
            old(self).wf(),
            old(self)@.entity_types.len() < u32::MAX,
            accepts_every_builder(ctor),
        ensures
            final(self).wf(),
            final(self)@ == old(self)@.add_entity_type(name@, ctor),
            final(self)@.entity_types.len() == old(self)@.entity_types.len() + 1,
            id@ == old(self)@.entity_types.len(),
    {
        broadcast use group_btree_axioms;

        proof {
            lemma_numbers_are_ordered();
        }
        let class_id = self.next_entity_type_id;
        self.next_entity_type_id = EntityClassId(class_id.0 + 1);
        let class = EntityType { name, ctors: vec![ctor], components: Vec::new() };
        proof {
            assert(class@.ctors =~= seq![ctor]);
            assert(class@.components =~= Seq::empty());
        }
        self.entity_types.insert(class_id.0, class);
        self.entity_type_ids.insert(name, class_id);
        proof {
            let was = old(self)@;
            let now = self@;
            let goal = was.add_entity_type(name@, ctor);
            assert(now.entity_type_ids =~= goal.entity_type_ids);
            assert(now.entity_types.len() == goal.entity_types.len());
            assert forall|id: int| 0 <= id < now.entity_types.len() implies now.entity_types[id]
                == goal.entity_types[id] by {
                if id < was.entity_types.len() {
                    assert(self.entity_types@[id as u32] == old(self).entity_types@[id as u32]);
                }
            }
            assert(now.entity_types =~= goal.entity_types);
            assert(now.component_type_ids =~= goal.component_type_ids);
            assert(now.component_types =~= goal.component_types);
            assert(now == goal);
            was.lemma_add_entity_type_wf(name@, ctor);
        }
        class_id
    }

    /// Add a constructor for an existing entity class.
    ///
    /// This may be used to add components to an entity class which are
    /// necessary only on client or server side. For example, clients can add
    /// components containing information for rendering.
    ///
    /// The class must have been registered: there is no class to extend
    /// otherwise, and the call is an error of the caller.
    pub fn add_entity_ctor(&mut self, name: &'static str, ctor: F)
        requires
            old(self).wf(),
            old(self)@.entity_type_ids.contains_key(name@),
            accepts_every_builder(ctor),
        ensures
            final(self).wf(),
            final(self)@ == old(self)@.add_entity_ctor(name@, ctor),
            final(self)@.entity_types.len() == old(self)@.entity_types.len(),
    {
        broadcast use group_btree_axioms;

        proof {
            lemma_numbers_are_ordered();
        }
        let class_id = self.entity_type_ids.get(name).unwrap();
        let mut class = self.entity_types.remove(&class_id.0).unwrap();
        let ghost before = class@;
        class.ctors.push(ctor);
        proof {
            assert(class@.components =~= before.components);
            assert(class@ == EntityTypeView { ctors: before.ctors.push(ctor), ..before });
        }
        self.entity_types.insert(class_id.0, class);
        proof {
            let was = old(self)@;
            let now = self@;
            let goal = was.add_entity_ctor(name@, ctor);
            assert(now.entity_types.len() == goal.entity_types.len());
            assert forall|id: int| 0 <= id < now.entity_types.len() implies now.entity_types[id]
                == goal.entity_types[id] by {
                if id != class_id@ {
                    assert(self.entity_types@[id as u32] == old(self).entity_types@[id as u32]);
                }
            }
            assert(now.entity_types =~= goal.entity_types);
            assert(now == goal);
            was.lemma_add_entity_ctor_wf(name@, ctor);
        }
    }

    /// Register a new component type, with the size of a component in bytes.
    ///
    /// Component types have ids of their own, which start at zero as those
    /// of the entity classes do. The size is recorded as it is given. A name
    /// that is registered again is bound to the new id. There must be an id
    /// left to issue.
    pub fn add_component_type(&mut self, name: &'static str, size: usize) -> (id: ComponentTypeId)
        requires
            old(self).wf(),
            old(self)@.component_types.len() < u32::MAX,
        ensures
            final(self).wf(),
            final(self)@ == old(self)@.add_component_type(name@, size),
            final(self)@.component_types.len() == old(self)@.component_types.len() + 1,
            id@ == old(self)@.component_types.len(),
    {
        broadcast use group_btree_axioms;

        proof {
            lemma_numbers_are_ordered();
        }
        let type_id = self.next_component_type_id;
        self.next_component_type_id = ComponentTypeId(type_id.0 + 1);
        self.component_types.insert(type_id.0, ComponentType { name, size });
        self.component_type_ids.insert(name, type_id);
        proof {
            let was = old(self)@;
            let now = self@;
            let goal = was.add_component_type(name@, size);
            assert(now.component_type_ids =~= goal.component_type_ids);
            assert(now.component_types.len() == goal.component_types.len());
            assert forall|id: int|
                0 <= id < now.component_types.len() implies now.component_types[id]
                == goal.component_types[id] by {
                if id < was.component_types.len() {
                    assert(self.component_types@[id as u32] == old(self).component_types@[id as u32]);
                }
            }
            assert(now.component_types =~= goal.component_types);
            assert(now.entity_type_ids =~= goal.entity_type_ids);
            assert(now.entity_types =~= goal.entity_types);
            assert(now == goal);
            was.lemma_add_component_type_wf(name@, size);
        }
        type_id
    }

    /// The number of entity classes registered so far, which is the number
    /// of the id that the next registration of an entity class returns.
    pub fn entity_type_count(&self) -> (count: u32)
        ensures
            count == self@.entity_types.len(),
    {
        self.next_entity_type_id.0
    }

    /// The number of component types registered so far, which is the number
    /// of the id that the next registration of a component type returns.
    pub fn component_type_count(&self) -> (count: u32)
        ensures
            count == self@.component_types.len(),
    {
        self.next_component_type_id.0
    }

    /// The id of the entity class that `name` is bound to, if it is bound.
    pub fn find_entity_type_id(&self, name: &str) -> (found: Option<EntityClassId>)
        ensures
            match found {
                Some(id) => self@.entity_type_ids.contains_key(name@) && id@
                    == self@.entity_type_ids[name@],
                None => !self@.entity_type_ids.contains_key(name@),
            },
    {
        self.entity_type_ids.get(name)
    }

    /// The id of the entity class that `name` is bound to.
    ///
    /// The class must have been registered: to ask for a class that was
    /// never registered is an error of the caller.
    pub fn entity_type_id(&self, name: &str) -> (id: EntityClassId)
        requires
            self@.entity_type_ids.contains_key(name@),
        ensures
            id@ == self@.entity_type_ids[name@],
    {
        self.entity_type_ids.get(name).unwrap()
    }

    /// The id of the component type that `name` is bound to, if it is bound.
    pub fn find_component_type_id(&self, name: &str) -> (found: Option<ComponentTypeId>)
        ensures
            match found {
                Some(id) => self@.component_type_ids.contains_key(name@) && id@
                    == self@.component_type_ids[name@],
                None => !self@.component_type_ids.contains_key(name@),
            },
    {
        self.component_type_ids.get(name)
    }

    /// The component type with the id `id`, if one was registered.
    pub fn component_type(&self, id: ComponentTypeId) -> (found: Option<&ComponentType>)
        requires
            self.wf(),
        ensures
            match found {
                Some(component_type) => id@ < self@.component_types.len() && component_type@
                    == self@.component_types[id@ as int],
                None => id@ >= self@.component_types.len(),
            },
    {
        broadcast use group_btree_axioms;

        proof {
            lemma_numbers_are_ordered();
        }
        self.component_types.get(&id.0)
    }

    /// Builds an entity of the class `id`: applies every construction
    /// contribution registered for the class to `builder`, in the order in
    /// which they were registered, and returns the result. Where no class
    /// has the id `id` there is nothing to apply, and `builder` is returned
    /// as it came.
    pub fn instantiate<'a>(&self, id: EntityClassId, builder: EntityBuilder<'a>) -> (built:
        EntityBuilder<'a>)
        requires
            self.wf(),
        ensures
            applied_in_order(self@.ctors_of(id@), builder, built),
    {
        broadcast use group_btree_axioms;

        proof {
            lemma_numbers_are_ordered();
        }
        match self.entity_types.get(&id.0) {
            Some(class) => {
                proof {
                    assert(class@ == self@.entity_types[id@ as int]);
                    assert forall|i: int| 0 <= i < class.ctors@.len() implies accepts_every_builder(
                        #[trigger] class.ctors@[i],
                    ) by {
                        assert(accepts_every_builder(self@.entity_types[id@ as int].ctors[i]));
                    }
                }
                apply_all(&class.ctors, builder)
            },
            None => builder,
        }
    }
}

impl<F> Default for Registry<F> where F: for<'b> Fn(EntityBuilder<'b>) -> EntityBuilder<'b> {
    /// The registry in which nothing is registered.
    fn default() -> (registry: Self)
        ensures
            registry.wf(),
            registry@ == RegistryView::<F>::empty(),
    {
        let registry = Registry {
            next_entity_type_id: EntityClassId(0),
            entity_type_ids: NameTable::new(),
            entity_types: BTreeMap::new(),
            next_component_type_id: ComponentTypeId(0),
            component_type_ids: NameTable::new(),
            component_types: BTreeMap::new(),
        };
        proof {
            let empty = RegistryView::<F>::empty();
            assert(registry@.entity_type_ids =~= empty.entity_type_ids);
            assert(registry@.entity_types =~= empty.entity_types);
            assert(registry@.component_type_ids =~= empty.component_type_ids);
            assert(registry@.component_types =~= empty.component_types);
        }
        registry
    }
}

} // verus!
