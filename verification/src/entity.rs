//! A registry of entity classes alone, for a process that has no use for
//! component types: classes under their names, and the ids that stand for
//! them.

use crate::construction::{accepts_every_builder, applied_in_order, apply_all};
use crate::model::{EntityTypeView, RegistryView};
use crate::names::NameTable;
use specs::EntityBuilder;
use std::cmp::Ordering;
use std::collections::BTreeMap;
use vstd::laws_cmp::{group_laws_cmp, obeys_cmp};
use vstd::prelude::*;
use vstd::std_specs::btree::group_btree_axioms;
use vstd::std_specs::cmp::PartialOrdSpecImpl;

verus! {

/// A unique id assigned by the server to an entity.
#[derive(Debug, PartialEq, Eq, Structural, Ord, Copy, Clone)]
pub struct Id(u32);

impl View for Id {
    type V = nat;

    /// The number that the id wraps.
    closed spec fn view(&self) -> nat {
        self.0 as nat
    }
}

impl Id {
    /// Two ids with the same number are the same id.
    pub proof fn lemma_view_is_injective(self, other: Self)
        requires
            self@ == other@,
        ensures
            self == other,
    {
    }
}

impl Default for Id {
    /// The id with the number zero.
    fn default() -> (id: Self)
        ensures
            id@ == 0,
    {
        Id(0)
    }
}

impl PartialOrd for Id {
    /// Ids are ordered as their numbers are.
    fn partial_cmp(&self, other: &Self) -> (order: Option<Ordering>) {
        if self.0 < other.0 {
            Some(Ordering::Less)
        } else if self.0 > other.0 {
            Some(Ordering::Greater)
        } else {
            Some(Ordering::Equal)
        }
    }
}

impl PartialOrdSpecImpl for Id {
    open spec fn obeys_partial_cmp_spec() -> bool {
        true
    }

    open spec fn partial_cmp_spec(&self, other: &Self) -> Option<Ordering> {
        if self@ < other@ {
            Some(Ordering::Less)
        } else if self@ > other@ {
            Some(Ordering::Greater)
        } else {
            Some(Ordering::Equal)
        }
    }
}

/// A unique id assigned to an entity class.
#[derive(Debug, PartialEq, Eq, Structural, Ord, Copy, Clone)]
pub struct ClassId(u32);

impl View for ClassId {
    type V = nat;

    /// The number that the id wraps.
    closed spec fn view(&self) -> nat {
        self.0 as nat
    }
}

impl ClassId {
    /// Two ids with the same number are the same id.
    pub proof fn lemma_view_is_injective(self, other: Self)
        requires
            self@ == other@,
        ensures
            self == other,
    {
    }
}

impl Default for ClassId {
    /// The id with the number zero.
    fn default() -> (id: Self)
        ensures
            id@ == 0,
    {
        ClassId(0)
    }
}

impl PartialOrd for ClassId {
    /// Ids are ordered as their numbers are.
    fn partial_cmp(&self, other: &Self) -> (order: Option<Ordering>) {
        if self.0 < other.0 {
            Some(Ordering::Less)
        } else if self.0 > other.0 {
            Some(Ordering::Greater)
        } else {
            Some(Ordering::Equal)
        }
    }
}

impl PartialOrdSpecImpl for ClassId {
    open spec fn obeys_partial_cmp_spec() -> bool {
        true
    }

    open spec fn partial_cmp_spec(&self, other: &Self) -> Option<Ordering> {
        if self@ < other@ {
            Some(Ordering::Less)
        } else if self@ > other@ {
            Some(Ordering::Greater)
        } else {
            Some(Ordering::Equal)
        }
    }
}

/// An entity class: its name and its construction contributions in the
/// order in which they were registered.
struct Class<F> {
    name: &'static str,
    ctors: Vec<F>,
}

impl<F> View for Class<F> {
    type V = EntityTypeView<F>;

    closed spec fn view(&self) -> EntityTypeView<F> {
        EntityTypeView { name: self.name@, ctors: self.ctors@, components: Seq::empty() }
    }
}

/// The numbers under which the classes are stored are ordered as a map's
/// keys have to be.
proof fn lemma_numbers_are_ordered()
    ensures
        obeys_cmp::<u32>(),
{
    broadcast use group_laws_cmp;

}

/// Registry for entity classes.
///
/// The purpose of the registry is to allow creating entities in the same way
/// on the server and clients.
pub struct Reg<F> {
    next_class_id: ClassId,
    classes: BTreeMap<u32, Class<F>>,
    class_ids: NameTable<ClassId>,
}

impl<F> View for Reg<F> {
    type V = RegistryView<F>;

    /// As a value, a registry of entity classes is a registry in which no
    /// component type is registered.
    closed spec fn view(&self) -> RegistryView<F> {
        RegistryView {
            entity_type_ids: self.class_ids@.map_values(|id: ClassId| id@),
            entity_types: Seq::new(self.next_class_id@, |id: int| self.classes@[id as u32]@),
            component_type_ids: Map::empty(),
            component_types: Seq::empty(),
        }
    }
}

impl<F> Reg<F> where F: for<'b> Fn(EntityBuilder<'b>) -> EntityBuilder<'b> {
    /// Whether the registry is in order: the classes are stored under the
    /// ids below the next one, and the registry is well-formed as a value.
    pub closed spec fn wf(&self) -> bool {
        &&& forall|id: u32| #[trigger] self.classes@.contains_key(id) <==> id < self.next_class_id.0
        &&& self@.wf()
    }

    /// A registry in order is well-formed as a value, holds no component
    /// type, and has issued no more ids than fit the id type.
    pub proof fn lemma_wf_view(&self)
        requires
            self.wf(),
        ensures
            self@.wf(),
            self@.entity_types.len() <= u32::MAX,
            self@.component_type_ids == Map::<Seq<char>, nat>::empty(),
            self@.component_types.len() == 0,
    {
    }

    /// Register a new entity class.
    ///
    /// Calls to this function should always be performed identically on
    /// server and client, before the game starts.
    ///
    /// The class gets the next id, one above the id issued last, and is
    /// built by `ctor` alone. A name that is registered again is bound to
    /// the new id; the class that had the name keeps its id and its
    /// contributions, and is no longer found by name. There must be an id
    /// left to issue.
    pub fn add(&mut self, name: &'static str, ctor: F) -> (id: ClassId)
        requires
            old(self).wf(),
            old(self)@.entity_types.len() < u32::MAX,
            accepts_every_builder(ctor),
        ensures
            final(self).wf(),
            final(self)@ == old(self)@.add_entity_type(name@, ctor),
            final(self)@.entity_types.len() == old(self)@.entity_types.len() + 1,
            id@ == old(self)@.entity_types.len(),
    {
        broadcast use group_btree_axioms;

        proof {
            lemma_numbers_are_ordered();
        }
        let class_id = self.next_class_id;
        self.next_class_id = ClassId(class_id.0 + 1);
        let class = Class { name, ctors: vec![ctor] };
        proof {
            assert(class@.ctors =~= seq![ctor]);
        }
        self.classes.insert(class_id.0, class);
        self.class_ids.insert(name, class_id);
        proof {
            let was = old(self)@;
            let now = self@;
            let goal = was.add_entity_type(name@, ctor);
            assert(now.entity_type_ids =~= goal.entity_type_ids);
            assert(now.entity_types.len() == goal.entity_types.len());
            assert forall|id: int| 0 <= id < now.entity_types.len() implies now.entity_types[id]
                == goal.entity_types[id] by {
                if id < was.entity_types.len() {
                    assert(self.classes@[id as u32] == old(self).classes@[id as u32]);
                }
            }
            assert(now.entity_types =~= goal.entity_types);
            assert(now == goal);
            was.lemma_add_entity_type_wf(name@, ctor);
        }
        class_id
    }

    /// Add a constructor for an existing class.
    ///
    /// This may be used to add components to an entity class which are
    /// necessary only on client or server side. For example, clients can add
    /// components containing information for rendering.
    ///
    /// The class must have been registered: there is no class to extend
    /// otherwise, and the call is an error of the caller.
    pub fn add_ctor(&mut self, name: &'static str, ctor: F)
        requires
            old(self).wf(),
            old(self)@.entity_type_ids.contains_key(name@),
            accepts_every_builder(ctor),
        ensures
            final(self).wf(),
            final(self)@ == old(self)@.add_entity_ctor(name@, ctor),
            final(self)@.entity_types.len() == old(self)@.entity_types.len(),
    {
        broadcast use group_btree_axioms;

        proof {
            lemma_numbers_are_ordered();
        }
        let class_id = self.class_ids.get(name).unwrap();
        let mut class = self.classes.remove(&class_id.0).unwrap();
        let ghost before = class@;
        class.ctors.push(ctor);
        proof {
            assert(class@ == EntityTypeView { ctors: before.ctors.push(ctor), ..before });
        }
        self.classes.insert(class_id.0, class);
        proof {
            let was = old(self)@;
            let now = self@;
            let goal = was.add_entity_ctor(name@, ctor);
            assert(now.entity_types.len() == goal.entity_types.len());
            assert forall|id: int| 0 <= id < now.entity_types.len() implies now.entity_types[id]
                == goal.entity_types[id] by {
                if id != class_id@ {
                    assert(self.classes@[id as u32] == old(self).classes@[id as u32]);
                }
            }
            assert(now.entity_types =~= goal.entity_types);
            assert(now == goal);
            was.lemma_add_entity_ctor_wf(name@, ctor);
        }
    }

    /// The number of classes registered so far, which is the number of the
    /// id that the next registration returns.
    pub fn class_count(&self) -> (count: u32)
        ensures
            count == self@.entity_types.len(),
    {
        self.next_class_id.0
    }

    /// The id of the class that `name` is bound to, if it is bound.
    pub fn find_class_id(&self, name: &str) -> (found: Option<ClassId>)
        ensures
            match found {
                Some(id) => self@.entity_type_ids.contains_key(name@) && id@
                    == self@.entity_type_ids[name@],
                None => !self@.entity_type_ids.contains_key(name@),
            },
    {
        self.class_ids.get(name)
    }

    /// Builds an entity of the class `id`: applies every construction
    /// contribution registered for the class to `builder`, in the order in
    /// which they were registered, and returns the result. Where no class
    /// has the id `id` there is nothing to apply, and `builder` is returned
    /// as it came.
    pub fn instantiate<'a>(&self, id: ClassId, builder: EntityBuilder<'a>) -> (built: EntityBuilder<
        'a,
    >)
        requires
            self.wf(),
        ensures
            applied_in_order(self@.ctors_of(id@), builder, built),
    {
        broadcast use group_btree_axioms;

        proof {
            lemma_numbers_are_ordered();
        }
        match self.classes.get(&id.0) {
            Some(class) => {
                proof {
                    assert(class@ == self@.entity_types[id@ as int]);
                    assert forall|i: int| 0 <= i < class.ctors@.len() implies accepts_every_builder(
                        #[trigger] class.ctors@[i],
                    ) by {
                        assert(accepts_every_builder(self@.entity_types[id@ as int].ctors[i]));
                    }
                }
                apply_all(&class.ctors, builder)
            },
            None => builder,
        }
    }
}

impl<F> Default for Reg<F> where F: for<'b> Fn(EntityBuilder<'b>) -> EntityBuilder<'b> {
    /// The registry in which nothing is registered.
    fn default() -> (registry: Self)
        ensures
            registry.wf(),
            registry@ == RegistryView::<F>::empty(),
    {
        let registry = Reg {
            next_class_id: ClassId(0),
            classes: BTreeMap::new(),
            class_ids: NameTable::new(),
        };
        proof {
            let empty = RegistryView::<F>::empty();
            assert(registry@.entity_type_ids =~= empty.entity_type_ids);
            assert(registry@.entity_types =~= empty.entity_types);
            assert(registry@.entity_type_names() =~= Seq::empty());
            assert(registry@.component_type_names() =~= Seq::empty());
        }
        registry
    }
}

} // verus!
