//! Building an entity from the construction contributions of its class.
//!
//! A contribution is a callable that takes a partially built entity and
//! returns it with more components attached. What a contribution does to the
//! entity is its own business; this module only fixes the order in which the
//! contributions of a class are applied.

use specs::EntityBuilder;
use vstd::prelude::*;

verus! {

/// `specs::EntityBuilder`, the partially built entity that the entity store
/// hands out. Nothing is claimed of what it holds: it is carried from one
/// contribution to the next and never looked into.
#[verifier::external_type_specification]
#[verifier::external_body]
pub struct ExEntityBuilder<'a>(EntityBuilder<'a>);

/// Whether `ctor` may be called on every partially built entity.
pub open spec fn accepts_every_builder<F>(ctor: F) -> bool where
    F: for<'b> Fn(EntityBuilder<'b>) -> EntityBuilder<'b>,
 {
    forall|builder: EntityBuilder| #[trigger] call_requires(ctor, (builder,))
}

/// Whether `end` can result from applying `ctors` to `start`, the first of
/// them first and each to what the one before it returned.
pub open spec fn applied_in_order<F>(ctors: Seq<F>, start: EntityBuilder, end: EntityBuilder) -> bool where
    F: for<'b> Fn(EntityBuilder<'b>) -> EntityBuilder<'b>,

    decreases ctors.len(),
{
    if ctors.len() == 0 {
        end == start
    } else {
        exists|mid: EntityBuilder|
            applied_in_order(ctors.drop_last(), start, mid) && #[trigger] call_ensures(
                ctors.last(),
                (mid,),
                end,
            )
    }
}

/// Applying contributions with one more behind them gives what the last one
/// returns on a result of the others.
pub proof fn lemma_applied_last<F>(ctors: Seq<F>, ctor: F, start: EntityBuilder, end: EntityBuilder) where
    F: for<'b> Fn(EntityBuilder<'b>) -> EntityBuilder<'b>,

    ensures
        applied_in_order(ctors.push(ctor), start, end) <==> exists|mid: EntityBuilder|
            applied_in_order(ctors, start, mid) && #[trigger] call_ensures(ctor, (mid,), end),
{
    assert(ctors.push(ctor).drop_last() =~= ctors);
    assert(ctors.push(ctor).last() == ctor);
}

/// Applying a single contribution gives what the contribution returns.
pub proof fn lemma_applied_alone<F>(ctor: F, start: EntityBuilder, end: EntityBuilder) where
    F: for<'b> Fn(EntityBuilder<'b>) -> EntityBuilder<'b>,

    ensures
        applied_in_order(seq![ctor], start, end) <==> call_ensures(ctor, (start,), end),
{
    assert(seq![ctor] =~= Seq::<F>::empty().push(ctor));
    lemma_applied_last(Seq::empty(), ctor, start, end);
    if call_ensures(ctor, (start,), end) {
        assert(applied_in_order(Seq::<F>::empty(), start, start));
    }
}

/// Applies `ctors` to `builder`, the first of them first.
pub fn apply_all<'a, F>(ctors: &Vec<F>, builder: EntityBuilder<'a>) -> (built: EntityBuilder<'a>) where
    F: for<'b> Fn(EntityBuilder<'b>) -> EntityBuilder<'b>,

    requires
        forall|i: int| 0 <= i < ctors@.len() ==> accepts_every_builder(#[trigger] ctors@[i]),
    ensures
        applied_in_order(ctors@, builder, built),
{
    let ghost start = builder;
    let mut current = builder;
    let mut i: usize = 0;
    while i < ctors.len()
        invariant
            i <= ctors@.len(),
            forall|i: int| 0 <= i < ctors@.len() ==> accepts_every_builder(#[trigger] ctors@[i]),
            applied_in_order(ctors@.take(i as int), start, current),
        decreases ctors@.len() - i,
    {
        let ghost before = current;
        assert(accepts_every_builder(ctors@[i as int]));
        current = (ctors[i])(current);
        proof {
            let applied = ctors@.take(i + 1);
            assert(applied.drop_last() =~= ctors@.take(i as int));
            assert(applied.last() == ctors@[i as int]);
            assert(call_ensures(applied.last(), (before,), current));
        }
        i += 1;
    }
    assert(ctors@.take(i as int) =~= ctors@);
    current
}

} // verus!
