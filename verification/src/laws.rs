//! What holds of every sequence of registrations.
//!
//! A sequence of calls is written as a sequence of [`Registration`]s, and
//! [`registry_after`] gives the registry that the calls leave when they are
//! made, in their order, on an empty registry.

use crate::construction::{accepts_every_builder, applied_in_order, lemma_applied_last};
use crate::model::{names_resolve, RegistryView};
use specs::EntityBuilder;
use vstd::prelude::*;

verus! {

/// One registration call, with its arguments.
pub enum Registration<F> {
    /// An entity class is registered under `name` with its first
    /// construction contribution.
    EntityType { name: Seq<char>, ctor: F },
    /// A construction contribution is added to the entity class that `name`
    /// is bound to.
    EntityCtor { name: Seq<char>, ctor: F },
    /// A component type is registered under `name` with its size in bytes.
    ComponentType { name: Seq<char>, size: usize },
}

impl<F> Registration<F> {
    /// Whether the call registers an entity class.
    pub open spec fn is_entity_type(self) -> bool {
        self is EntityType
    }

    /// Whether the call registers a component type.
    pub open spec fn is_component_type(self) -> bool {
        self is ComponentType
    }

    /// Whether the call registers an entity class under `name`.
    pub open spec fn names_entity_type(self, name: Seq<char>) -> bool {
        self matches Registration::EntityType { name: n, .. } && n == name
    }

    /// Whether the call registers a component type under `name`.
    pub open spec fn names_component_type(self, name: Seq<char>) -> bool {
        self matches Registration::ComponentType { name: n, .. } && n == name
    }
}

impl<F> RegistryView<F> where F: for<'b> Fn(EntityBuilder<'b>) -> EntityBuilder<'b> {
    /// Whether the call `call` may be made on this registry: a contribution
    /// can be called on every partially built entity, and a class that is
    /// extended has been registered.
    pub open spec fn admits(self, call: Registration<F>) -> bool {
        match call {
            Registration::EntityType { name, ctor } => accepts_every_builder(ctor),
            Registration::EntityCtor { name, ctor } => self.entity_type_ids.contains_key(name)
                && accepts_every_builder(ctor),
            Registration::ComponentType { name, size } => true,
        }
    }

    /// The registry after the call `call` was made on this one.
    pub open spec fn after(self, call: Registration<F>) -> Self {
        match call {
            Registration::EntityType { name, ctor } => self.add_entity_type(name, ctor),
            Registration::EntityCtor { name, ctor } => self.add_entity_ctor(name, ctor),
            Registration::ComponentType { name, size } => self.add_component_type(name, size),
        }
    }
}

/// The registry after the calls `calls` were made, in their order, on an
/// empty registry.
pub open spec fn registry_after<F>(calls: Seq<Registration<F>>) -> RegistryView<F> where
    F: for<'b> Fn(EntityBuilder<'b>) -> EntityBuilder<'b>,

    decreases calls.len(),
{
    if calls.len() == 0 {
        RegistryView::empty()
    } else {
        registry_after(calls.drop_last()).after(calls.last())
    }
}

/// Whether each of the calls `calls` may be made on the registry that the
/// calls before it leave.
pub open spec fn admitted<F>(calls: Seq<Registration<F>>) -> bool where
    F: for<'b> Fn(EntityBuilder<'b>) -> EntityBuilder<'b>,
 {
    forall|k: int|
        0 <= k < calls.len() ==> registry_after(#[trigger] calls.take(k)).admits(calls[k])
}

/// The number of entity classes that the calls `calls` register.
pub open spec fn entity_types_registered<F>(calls: Seq<Registration<F>>) -> nat {
    calls.filter(|call: Registration<F>| call.is_entity_type()).len()
}

/// The number of component types that the calls `calls` register.
pub open spec fn component_types_registered<F>(calls: Seq<Registration<F>>) -> nat {
    calls.filter(|call: Registration<F>| call.is_component_type()).len()
}

/// The id that the `k`-th of the calls `calls` returns, if it registers an
/// entity class: the next id of the registry that the calls before it leave.
pub open spec fn entity_class_id_issued<F>(calls: Seq<Registration<F>>, k: int) -> nat where
    F: for<'b> Fn(EntityBuilder<'b>) -> EntityBuilder<'b>,
 {
    registry_after(calls.take(k)).entity_types.len()
}

/// The id that the `k`-th of the calls `calls` returns, if it registers a
/// component type: the next id of the registry that the calls before it
/// leave.
pub open spec fn component_type_id_issued<F>(calls: Seq<Registration<F>>, k: int) -> nat where
    F: for<'b> Fn(EntityBuilder<'b>) -> EntityBuilder<'b>,
 {
    registry_after(calls.take(k)).component_types.len()
}

/// The calls before the `k`-th of admitted calls are admitted.
proof fn lemma_prefix_admitted<F>(calls: Seq<Registration<F>>, k: int) where
    F: for<'b> Fn(EntityBuilder<'b>) -> EntityBuilder<'b>,

    requires
        admitted(calls),
        0 <= k <= calls.len(),
    ensures
        admitted(calls.take(k)),
{
    let prefix = calls.take(k);
    assert forall|i: int| 0 <= i < prefix.len() implies registry_after(
        #[trigger] prefix.take(i),
    ).admits(prefix[i]) by {
        assert(prefix.take(i) =~= calls.take(i));
    }
}

/// The last of admitted calls is admitted by the registry that the calls
/// before it leave.
proof fn lemma_last_admitted<F>(calls: Seq<Registration<F>>) where
    F: for<'b> Fn(EntityBuilder<'b>) -> EntityBuilder<'b>,

    requires
        admitted(calls),
        calls.len() > 0,
    ensures
        admitted(calls.drop_last()),
        registry_after(calls.drop_last()).admits(calls.last()),
{
    lemma_prefix_admitted(calls, calls.len() - 1);
    assert(calls.take(calls.len() - 1) =~= calls.drop_last());
}

/// One more call, made on the registry that admitted calls leave, gives the
/// registry that the longer sequence of calls leaves; and where that
/// registry admits the call, the longer sequence is admitted.
pub proof fn lemma_one_more_call<F>(calls: Seq<Registration<F>>, call: Registration<F>) where
    F: for<'b> Fn(EntityBuilder<'b>) -> EntityBuilder<'b>,

    requires
        admitted(calls),
    ensures
        registry_after(calls.push(call)) == registry_after(calls).after(call),
        registry_after(calls).admits(call) ==> admitted(calls.push(call)),
{
    let longer = calls.push(call);
    assert(longer.drop_last() =~= calls);
    assert(longer.last() == call);
    if registry_after(calls).admits(call) {
        assert forall|k: int| 0 <= k < longer.len() implies registry_after(
            #[trigger] longer.take(k),
        ).admits(longer[k]) by {
            if k < calls.len() {
                assert(longer.take(k) =~= calls.take(k));
            } else {
                assert(longer.take(k) =~= calls);
            }
        }
    }
}

/// Every registry that registration calls can leave is well-formed: in both
/// namespaces the bindings fit the records, and every entity class has at
/// least one construction contribution.
pub proof fn lemma_registrations_keep_wf<F>(calls: Seq<Registration<F>>) where
    F: for<'b> Fn(EntityBuilder<'b>) -> EntityBuilder<'b>,

    requires
        admitted(calls),
    ensures
        registry_after(calls).wf(),
    decreases calls.len(),
{
    if calls.len() == 0 {
        let empty = RegistryView::<F>::empty();
        assert(empty.entity_type_names() =~= Seq::empty());
        assert(empty.component_type_names() =~= Seq::empty());
    } else {
        lemma_last_admitted(calls);
        lemma_registrations_keep_wf(calls.drop_last());
        let before = registry_after(calls.drop_last());
        match calls.last() {
            Registration::EntityType { name, ctor } => before.lemma_add_entity_type_wf(name, ctor),
            Registration::EntityCtor { name, ctor } => before.lemma_add_entity_ctor_wf(name, ctor),
            Registration::ComponentType { name, size } => before.lemma_add_component_type_wf(
                name,
                size,
            ),
        }
    }
}

/// The ids of a namespace count its registrations: after any calls, the next
/// id of the entity classes is the number of entity classes registered, the
/// next id of the component types is the number of component types
/// registered, and neither depends on what happened in the other namespace.
pub proof fn lemma_ids_count_registrations<F>(calls: Seq<Registration<F>>) where
    F: for<'b> Fn(EntityBuilder<'b>) -> EntityBuilder<'b>,

    requires
        admitted(calls),
    ensures
        registry_after(calls).entity_types.len() == entity_types_registered(calls),
        registry_after(calls).component_types.len() == component_types_registered(calls),
    decreases calls.len(),
{
    reveal(Seq::filter);
    if calls.len() > 0 {
        lemma_last_admitted(calls);
        lemma_ids_count_registrations(calls.drop_last());
        lemma_registrations_keep_wf(calls.drop_last());
    }
}

/// Among the first `j` elements of a sequence there are more with a given
/// property than among the first `i`, if `i < j` and the `i`-th has it.
proof fn lemma_prefix_counts_increase<A>(s: Seq<A>, pred: spec_fn(A) -> bool, i: int, j: int)
    requires
        0 <= i < j <= s.len(),
        pred(s[i]),
    ensures
        s.take(i).filter(pred).len() < s.take(j).filter(pred).len(),
    decreases j - i,
{
    reveal(Seq::filter);
    assert(s.take(j).drop_last() =~= s.take(j - 1));
    if i < j - 1 {
        lemma_prefix_counts_increase(s, pred, i, j - 1);
    }
}

/// Entity-class ids start at zero and go up by one: the id that a
/// registration of an entity class returns is the number of entity classes
/// registered before it, whatever was registered of component types
/// meanwhile.
pub proof fn lemma_entity_class_ids_count_up<F>(calls: Seq<Registration<F>>, k: int) where
    F: for<'b> Fn(EntityBuilder<'b>) -> EntityBuilder<'b>,

    requires
        admitted(calls),
        0 <= k < calls.len(),
    ensures
        entity_class_id_issued(calls, k) == entity_types_registered(calls.take(k)),
{
    lemma_prefix_admitted(calls, k);
    lemma_ids_count_registrations(calls.take(k));
}

/// Component-type ids start at zero and go up by one, in a namespace of
/// their own: the id that a registration of a component type returns is the
/// number of component types registered before it, whatever was registered
/// of entity classes meanwhile.
pub proof fn lemma_component_type_ids_count_up<F>(calls: Seq<Registration<F>>, k: int) where
    F: for<'b> Fn(EntityBuilder<'b>) -> EntityBuilder<'b>,

    requires
        admitted(calls),
        0 <= k < calls.len(),
    ensures
        component_type_id_issued(calls, k) == component_types_registered(calls.take(k)),
{
    lemma_prefix_admitted(calls, k);
    lemma_ids_count_registrations(calls.take(k));
}

/// Of two registrations of entity classes the later one returns the greater
/// id. So the ids returned are pairwise distinct and strictly increasing in
/// the order of the calls.
pub proof fn lemma_entity_class_ids_increase<F>(calls: Seq<Registration<F>>, i: int, j: int) where
    F: for<'b> Fn(EntityBuilder<'b>) -> EntityBuilder<'b>,

    requires
        admitted(calls),
        0 <= i < j < calls.len(),
        calls[i].is_entity_type(),
        calls[j].is_entity_type(),
    ensures
        entity_class_id_issued(calls, i) < entity_class_id_issued(calls, j),
{
    lemma_entity_class_ids_count_up(calls, i);
    lemma_entity_class_ids_count_up(calls, j);
    lemma_prefix_counts_increase(calls, |call: Registration<F>| call.is_entity_type(), i, j);
}

/// Of two registrations of component types the later one returns the
/// greater id. So the ids returned are pairwise distinct and strictly
/// increasing in the order of the calls.
pub proof fn lemma_component_type_ids_increase<F>(
    calls: Seq<Registration<F>>,
    i: int,
    j: int,
) where F: for<'b> Fn(EntityBuilder<'b>) -> EntityBuilder<'b>
    requires
        admitted(calls),
        0 <= i < j < calls.len(),
        calls[i].is_component_type(),
        calls[j].is_component_type(),
    ensures
        component_type_id_issued(calls, i) < component_type_id_issued(calls, j),
{
    lemma_component_type_ids_count_up(calls, i);
    lemma_component_type_ids_count_up(calls, j);
    lemma_prefix_counts_increase(calls, |call: Registration<F>| call.is_component_type(), i, j);
}

/// A lookup right after a registration finds the id that the registration
/// returned: registering an entity class binds its name to the id issued,
/// which is the next id of the registry before the call.
pub proof fn lemma_lookup_after_registration<F>(registry: RegistryView<F>, name: Seq<char>, ctor: F) where
    F: for<'b> Fn(EntityBuilder<'b>) -> EntityBuilder<'b>,

    ensures
        registry.add_entity_type(name, ctor).entity_type_ids.contains_key(name),
        registry.add_entity_type(name, ctor).entity_type_ids[name] == registry.entity_types.len(),
{
}

/// A lookup right after the registration of a component type finds the id
/// that the registration returned.
pub proof fn lemma_component_lookup_after_registration<F>(
    registry: RegistryView<F>,
    name: Seq<char>,
    size: usize,
) where F: for<'b> Fn(EntityBuilder<'b>) -> EntityBuilder<'b>
    ensures
        registry.add_component_type(name, size).component_type_ids.contains_key(name),
        registry.add_component_type(name, size).component_type_ids[name]
            == registry.component_types.len(),
{
}

/// A lookup finds the id that the last registration of the name returned:
/// where the `i`-th call registers an entity class under `name` and no later
/// call does, `name` is bound to the id that the `i`-th call returned,
/// whatever else was registered or extended after it.
pub proof fn lemma_lookup_finds_last_registration<F>(
    calls: Seq<Registration<F>>,
    i: int,
    name: Seq<char>,
) where F: for<'b> Fn(EntityBuilder<'b>) -> EntityBuilder<'b>
    requires
        admitted(calls),
        0 <= i < calls.len(),
        calls[i].names_entity_type(name),
        forall|j: int| i < j < calls.len() ==> !(#[trigger] calls[j]).names_entity_type(name),
    ensures
        registry_after(calls).entity_type_ids.contains_key(name),
        registry_after(calls).entity_type_ids[name] == entity_class_id_issued(calls, i),
    decreases calls.len(),
{
    if i == calls.len() - 1 {
        assert(calls.take(i) =~= calls.drop_last());
    } else {
        lemma_last_admitted(calls);
        lemma_lookup_finds_last_registration(calls.drop_last(), i, name);
        assert(calls.drop_last().take(i) =~= calls.take(i));
        assert(!calls[calls.len() - 1].names_entity_type(name));
    }
}

/// A lookup finds the id that the last registration of a component type
/// under the name returned, whatever else was registered after it.
pub proof fn lemma_component_lookup_finds_last_registration<F>(
    calls: Seq<Registration<F>>,
    i: int,
    name: Seq<char>,
) where F: for<'b> Fn(EntityBuilder<'b>) -> EntityBuilder<'b>
    requires
        admitted(calls),
        0 <= i < calls.len(),
        calls[i].names_component_type(name),
        forall|j: int| i < j < calls.len() ==> !(#[trigger] calls[j]).names_component_type(name),
    ensures
        registry_after(calls).component_type_ids.contains_key(name),
        registry_after(calls).component_type_ids[name] == component_type_id_issued(calls, i),
    decreases calls.len(),
{
    if i == calls.len() - 1 {
        assert(calls.take(i) =~= calls.drop_last());
    } else {
        lemma_last_admitted(calls);
        lemma_component_lookup_finds_last_registration(calls.drop_last(), i, name);
        assert(calls.drop_last().take(i) =~= calls.take(i));
        assert(!calls[calls.len() - 1].names_component_type(name));
    }
}

/// A class that was just registered is built by the contribution that it
/// was registered with, and by nothing else. The contributions of every
/// other class stay as they were.
pub proof fn lemma_registered_class_has_one_contribution<F>(
    registry: RegistryView<F>,
    name: Seq<char>,
    ctor: F,
) where F: for<'b> Fn(EntityBuilder<'b>) -> EntityBuilder<'b>
    ensures
        ({
            let id = registry.entity_types.len();
            let registered = registry.add_entity_type(name, ctor);
            &&& registered.ctors_of(id) == seq![ctor]
            &&& forall|other: nat|
                other != id ==> registered.ctors_of(other) == registry.ctors_of(other)
        }),
{
}

/// A contribution added to a class is applied after those that the class
/// had: the extended class has the old contributions in their order with the
/// new one behind them, so an entity of the class is what the new
/// contribution returns on an entity built by the old ones. The
/// contributions of every other class stay as they were.
pub proof fn lemma_extension_is_applied_last<F>(
    registry: RegistryView<F>,
    name: Seq<char>,
    ctor: F,
    start: EntityBuilder,
    end: EntityBuilder,
) where F: for<'b> Fn(EntityBuilder<'b>) -> EntityBuilder<'b>
    requires
        registry.wf(),
        registry.entity_type_ids.contains_key(name),
    ensures
        ({
            let id = registry.entity_type_ids[name];
            let extended = registry.add_entity_ctor(name, ctor);
            &&& extended.ctors_of(id) == registry.ctors_of(id).push(ctor)
            &&& forall|other: nat| other != id ==> extended.ctors_of(other) == registry.ctors_of(other)
            &&& applied_in_order(extended.ctors_of(id), start, end) <==> exists|mid: EntityBuilder|
                applied_in_order(registry.ctors_of(id), start, mid) && #[trigger] call_ensures(
                    ctor,
                    (mid,),
                    end,
                )
        }),
{
    let id = registry.entity_type_ids[name];
    assert(id < registry.entity_types.len());
    lemma_applied_last(registry.ctors_of(id), ctor, start, end);
}

/// Where no name was registered twice, names and ids stand one to one: the
/// name of every record is bound to the id of that record, as every bound
/// name leads to a record of that name.
pub proof fn lemma_distinct_names_stand_one_to_one(ids: Map<Seq<char>, nat>, names: Seq<Seq<char>>)
    requires
        names_resolve(ids, names),
        names.no_duplicates(),
    ensures
        forall|id: int| 0 <= id < names.len() ==> ids[#[trigger] names[id]] == id,
        forall|name: Seq<char>| #[trigger]
            ids.contains_key(name) ==> ids[name] < names.len() && names[ids[name] as int] == name,
{
    assert forall|id: int| 0 <= id < names.len() implies ids[#[trigger] names[id]] == id by {
        let bound = ids[names[id]];
        assert(ids.contains_key(names[id]));
        assert(names[bound as int] == names[id]);
    }
}

} // verus!
