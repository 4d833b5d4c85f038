//! What a registry is, mathematically: for each of its two namespaces a map
//! from names to ids and the sequence of records in the order of their ids.
//!
//! The registration calls are written here as functions from one such value
//! to the next, so that what holds of every sequence of calls can be stated
//! and proved without running anything.

use crate::construction::accepts_every_builder;
use specs::EntityBuilder;
use vstd::prelude::*;

verus! {

/// A component type as a value: its name and the size of a component in bytes.
pub struct ComponentTypeView {
    pub name: Seq<char>,
    pub size: usize,
}

/// An entity class as a value: its name, its construction contributions in
/// the order in which they were registered, and its declared components.
pub struct EntityTypeView<F> {
    pub name: Seq<char>,
    pub ctors: Seq<F>,
    pub components: Seq<ComponentTypeView>,
}

/// Whether the bindings `ids` of a namespace fit its records, given by the
/// name of each in the order of their ids.
///
/// A bound name leads to a record of that name. The name of every record is
/// bound, to the id of that record or, where the name was registered again,
/// to the id of a later record of the same name.
pub open spec fn names_resolve(ids: Map<Seq<char>, nat>, names: Seq<Seq<char>>) -> bool {
    &&& forall|name: Seq<char>| #[trigger]
        ids.contains_key(name) ==> ids[name] < names.len() && names[ids[name] as int] == name
    &&& forall|id: int|
        0 <= id < names.len() ==> ids.contains_key(#[trigger] names[id]) && ids[names[id]] >= id
}

/// A registry as a value.
///
/// The id of a record is its index in `entity_types` or `component_types`,
/// so the ids of a namespace are `0`, `1`, ... without a gap, and the next id
/// to be issued is the length of the sequence.
pub struct RegistryView<F> {
    pub entity_type_ids: Map<Seq<char>, nat>,
    pub entity_types: Seq<EntityTypeView<F>>,
    pub component_type_ids: Map<Seq<char>, nat>,
    pub component_types: Seq<ComponentTypeView>,
}

impl<F> RegistryView<F> where F: for<'b> Fn(EntityBuilder<'b>) -> EntityBuilder<'b> {
    /// The registry in which nothing is registered.
    pub open spec fn empty() -> Self {
        RegistryView {
            entity_type_ids: Map::empty(),
            entity_types: Seq::empty(),
            component_type_ids: Map::empty(),
            component_types: Seq::empty(),
        }
    }

    /// The names of the entity classes, in the order of their ids.
    pub open spec fn entity_type_names(self) -> Seq<Seq<char>> {
        Seq::new(self.entity_types.len(), |id: int| self.entity_types[id].name)
    }

    /// The names of the component types, in the order of their ids.
    pub open spec fn component_type_names(self) -> Seq<Seq<char>> {
        Seq::new(self.component_types.len(), |id: int| self.component_types[id].name)
    }

    /// What every registry satisfies: in both namespaces the bindings fit
    /// the records, every entity class has at least one construction
    /// contribution, and every contribution can be called on every
    /// partially built entity.
    pub open spec fn wf(self) -> bool {
        &&& names_resolve(self.entity_type_ids, self.entity_type_names())
        &&& names_resolve(self.component_type_ids, self.component_type_names())
        &&& forall|id: int|
            0 <= id < self.entity_types.len() ==> (#[trigger] self.entity_types[id]).ctors.len()
                >= 1
        &&& forall|id: int, i: int|
            0 <= id < self.entity_types.len() && 0 <= i < self.entity_types[id].ctors.len()
                ==> accepts_every_builder(#[trigger] self.entity_types[id].ctors[i])
    }

    /// The construction contributions of the entity class `id`, in the order
    /// in which they were registered; none where no class has that id.
    pub open spec fn ctors_of(self, id: nat) -> Seq<F> {
        if id < self.entity_types.len() {
            self.entity_types[id as int].ctors
        } else {
            Seq::empty()
        }
    }

    /// The registry after the entity class `name` was registered with the
    /// contribution `ctor`: the class gets the next id, and `name` is bound
    /// to it in place of any id that it was bound to.
    pub open spec fn add_entity_type(self, name: Seq<char>, ctor: F) -> Self {
        RegistryView {
            entity_type_ids: self.entity_type_ids.insert(name, self.entity_types.len()),
            entity_types: self.entity_types.push(
                EntityTypeView { name, ctors: seq![ctor], components: Seq::empty() },
            ),
            ..self
        }
    }

    /// The registry after `ctor` was added to the entity class that `name`
    /// is bound to, behind the contributions that the class had.
    pub open spec fn add_entity_ctor(self, name: Seq<char>, ctor: F) -> Self
        recommends
            self.entity_type_ids.contains_key(name),
            self.wf(),
    {
        let id = self.entity_type_ids[name] as int;
        let class = self.entity_types[id];
        RegistryView {
            entity_types: self.entity_types.update(
                id,
                EntityTypeView { ctors: class.ctors.push(ctor), ..class },
            ),
            ..self
        }
    }

    /// The registry after the component type `name` was registered with the
    /// size `size`: the type gets the next id of its own namespace, and
    /// `name` is bound to it in place of any id that it was bound to.
    pub open spec fn add_component_type(self, name: Seq<char>, size: usize) -> Self {
        RegistryView {
            component_type_ids: self.component_type_ids.insert(name, self.component_types.len()),
            component_types: self.component_types.push(ComponentTypeView { name, size }),
            ..self
        }
    }

    /// Registering an entity class keeps a registry well-formed.
    pub proof fn lemma_add_entity_type_wf(self, name: Seq<char>, ctor: F)
        requires
            self.wf(),
            accepts_every_builder(ctor),
        ensures
            self.add_entity_type(name, ctor).wf(),
    {
        let next = self.add_entity_type(name, ctor);
        let names = self.entity_type_names();
        assert(next.entity_type_names() =~= names.push(name));
        assert(next.component_type_names() =~= self.component_type_names());
        lemma_names_resolve_after_binding(self.entity_type_ids, names, name);
        assert forall|id: int| 0 <= id < next.entity_types.len() implies (
        #[trigger] next.entity_types[id]).ctors.len() >= 1 by {
            if id < self.entity_types.len() {
                assert(next.entity_types[id] == self.entity_types[id]);
            }
        }
        assert forall|id: int, i: int|
            0 <= id < next.entity_types.len() && 0 <= i < next.entity_types[id].ctors.len()
                implies accepts_every_builder(#[trigger] next.entity_types[id].ctors[i]) by {
            if id < self.entity_types.len() {
                assert(next.entity_types[id] == self.entity_types[id]);
            }
        }
    }

    /// Adding a contribution to a registered entity class keeps a registry
    /// well-formed.
    pub proof fn lemma_add_entity_ctor_wf(self, name: Seq<char>, ctor: F)
        requires
            self.wf(),
            self.entity_type_ids.contains_key(name),
            accepts_every_builder(ctor),
        ensures
            self.add_entity_ctor(name, ctor).wf(),
    {
        let next = self.add_entity_ctor(name, ctor);
        let class_id = self.entity_type_ids[name] as int;
        assert(next.entity_type_names() =~= self.entity_type_names()) by {
            assert forall|id: int| 0 <= id < self.entity_types.len() implies next.entity_types[id].name
                == self.entity_types[id].name by {
                assert(self.entity_type_names()[class_id] == name);
            }
        }
        assert(next.component_type_names() =~= self.component_type_names());
        assert forall|id: int| 0 <= id < next.entity_types.len() implies (
        #[trigger] next.entity_types[id]).ctors.len() >= 1 by {
            if id != class_id {
                assert(next.entity_types[id] == self.entity_types[id]);
            }
        }
        assert forall|id: int, i: int|
            0 <= id < next.entity_types.len() && 0 <= i < next.entity_types[id].ctors.len()
                implies accepts_every_builder(#[trigger] next.entity_types[id].ctors[i]) by {
            if id != class_id {
                assert(next.entity_types[id] == self.entity_types[id]);
            } else if i < self.entity_types[id].ctors.len() {
                assert(next.entity_types[id].ctors[i] == self.entity_types[id].ctors[i]);
            }
        }
    }

    /// Registering a component type keeps a registry well-formed.
    pub proof fn lemma_add_component_type_wf(self, name: Seq<char>, size: usize)
        requires
            self.wf(),
        ensures
            self.add_component_type(name, size).wf(),
    {
        let next = self.add_component_type(name, size);
        let names = self.component_type_names();
        assert(next.component_type_names() =~= names.push(name));
        assert(next.entity_type_names() =~= self.entity_type_names());
        lemma_names_resolve_after_binding(self.component_type_ids, names, name);
    }
}

/// Binding a name to the id of a new record of that name keeps the bindings
/// of a namespace fit for its records.
pub proof fn lemma_names_resolve_after_binding(
    ids: Map<Seq<char>, nat>,
    names: Seq<Seq<char>>,
    name: Seq<char>,
)
    requires
        names_resolve(ids, names),
    ensures
        names_resolve(ids.insert(name, names.len()), names.push(name)),
{
    let ids2 = ids.insert(name, names.len());
    let names2 = names.push(name);
    assert forall|n: Seq<char>| #[trigger] ids2.contains_key(n) implies ids2[n] < names2.len()
        && names2[ids2[n] as int] == n by {
        if n != name {
            assert(ids.contains_key(n));
        }
    }
    assert forall|id: int| 0 <= id < names2.len() implies ids2.contains_key(
        #[trigger] names2[id],
    ) && ids2[names2[id]] >= id by {
        if id < names.len() {
            assert(ids.contains_key(names[id]));
        }
    }
}

} // verus!
