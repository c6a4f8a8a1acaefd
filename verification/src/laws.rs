//! What holds of the registry, the borrow rules and the order of a tick.

use vstd::prelude::*;
use crate::borrow::{Access, BorrowState};
use crate::error::AccessError;
use crate::registry::{
    acquire_error,
    after_acquire,
    after_add,
    after_release,
    cells_wf,
    with_value,
    Cells,
    ResourceCell,
};
use crate::stage::{stage_or_first, Stage, STAGE_COUNT};
use crate::system::{acquire_all, parameter_values, run_admitted, Parameter};

verus! {

/// A value that was registered is found again: the resource is registered,
/// its cell is free, so that a shared and an exclusive accessor can each be
/// had, and the accessor reads the value that was registered.
pub proof fn lemma_registered_value_is_found<V>(
    cells: Cells<V>,
    resource: u64,
    value: V,
    access: Access,
)
    requires
        cells_wf(cells),
    ensures
        cells_wf(after_add(cells, resource, value)),
        after_add(cells, resource, value).contains_key(resource),
        after_add(cells, resource, value)[resource].value == value,
        acquire_error(after_add(cells, resource, value), resource, access) is None,
        after_acquire(after_add(cells, resource, value), resource, access)[resource].value
            == value,
        after_acquire(after_add(cells, resource, value), resource, access)[resource].state.holds(
            access,
        ),
{
    let added = after_add(cells, resource, value);
    assert forall|other: u64| #[trigger] added.contains_key(other) implies added[other].state.wf() by {
        if other != resource {
            assert(cells.contains_key(other));
        }
    }
}

/// The value of a resource stays until the resource is registered anew or
/// written: registering another resource, acquiring an accessor and giving
/// one back, on any resource, leave it as it is.
pub proof fn lemma_value_persists<V>(
    cells: Cells<V>,
    resource: u64,
    other: u64,
    value: V,
    access: Access,
)
    requires
        cells.contains_key(resource),
    ensures
        other != resource ==> after_add(cells, other, value)[resource] == cells[resource],
        other != resource ==> with_value(cells, other, value)[resource] == cells[resource],
        after_acquire(cells, other, access).contains_key(resource),
        after_acquire(cells, other, access)[resource].value == cells[resource].value,
        after_release(cells, other, access).contains_key(resource),
        after_release(cells, other, access)[resource].value == cells[resource].value,
{
}

/// A resource that was never registered is missing, whatever else was
/// registered: no handle is to be had, and an accessor is refused with the
/// error that names the resource.
pub proof fn lemma_unregistered_is_missing<V>(
    cells: Cells<V>,
    resource: u64,
    other: u64,
    value: V,
    access: Access,
)
    requires
        !cells.contains_key(resource),
        other != resource,
    ensures
        !Map::<u64, ResourceCell<V>>::empty().contains_key(resource),
        !after_add(cells, other, value).contains_key(resource),
        !after_acquire(cells, other, access).contains_key(resource),
        !after_release(cells, other, access).contains_key(resource),
        acquire_error(cells, resource, access) == Some(AccessError::MissingResource(resource)),
{
}

/// While an exclusive accessor of a resource is alive, every further
/// accessor of it, shared or exclusive, is refused; once the accessor is given
/// back, the next one is handed out.
pub proof fn lemma_exclusive_excludes<V>(cells: Cells<V>, resource: u64, access: Access)
    requires
        cells.contains_key(resource),
        cells[resource].state is Exclusive,
    ensures
        acquire_error(cells, resource, access) == Some(AccessError::BorrowConflict(resource)),
        after_acquire(cells, resource, access) == cells,
        acquire_error(after_release(cells, resource, Access::Exclusive), resource, access) is None,
{
}

/// Two shared accessors of one resource can be alive at once: from a free
/// cell both are handed out, and the cell then counts two.
pub proof fn lemma_shared_accessors_coexist<V>(cells: Cells<V>, resource: u64)
    requires
        cells.contains_key(resource),
        cells[resource].state is Free,
    ensures
        acquire_error(cells, resource, Access::Shared) is None,
        acquire_error(after_acquire(cells, resource, Access::Shared), resource, Access::Shared) is None,
        after_acquire(
            after_acquire(cells, resource, Access::Shared),
            resource,
            Access::Shared,
        )[resource].state == BorrowState::Shared(2),
{
}

/// One more shared accessor is handed out whenever no exclusive one is alive
/// and the count still fits.
pub proof fn lemma_shared_admits_shared<V>(cells: Cells<V>, resource: u64)
    requires
        cells.contains_key(resource),
        cells[resource].state matches BorrowState::Shared(count) && count < usize::MAX,
    ensures
        acquire_error(cells, resource, Access::Shared) is None,
        after_acquire(cells, resource, Access::Shared)[resource].state == BorrowState::Shared(
            (cells[resource].state->Shared_0 + 1) as usize,
        ),
{
}

/// A live shared accessor blocks the exclusive one, and the live exclusive
/// accessor blocks a shared one.
pub proof fn lemma_shared_and_exclusive_exclude<V>(cells: Cells<V>, resource: u64)
    requires
        cells.contains_key(resource),
    ensures
        cells[resource].state is Shared ==> acquire_error(cells, resource, Access::Exclusive)
            == Some(AccessError::BorrowConflict(resource)),
        cells[resource].state is Exclusive ==> acquire_error(cells, resource, Access::Shared)
            == Some(AccessError::BorrowConflict(resource)),
{
}

/// The states of a cell follow the transitions of the data model: a free
/// cell becomes shared by one or exclusive, a shared one gains or loses one
/// holder and is free when the last is gone, an exclusive one becomes free.
pub proof fn lemma_borrow_transitions(state: BorrowState, access: Access)
    requires
        state.wf(),
    ensures
        state.acquired(access).wf(),
        state.released(access).wf(),
        state.admits(access) ==> state.acquired(access).holds(access),
        state.admits(access) ==> state.acquired(access).released(access) == state,
        state is Free ==> state.acquired(Access::Shared) == BorrowState::Shared(1)
            && state.acquired(Access::Exclusive) == BorrowState::Exclusive,
        state == BorrowState::Shared(1) ==> state.released(Access::Shared) == BorrowState::Free,
        state is Exclusive ==> state.released(Access::Exclusive) == BorrowState::Free,
        !state.admits(access) ==> state.acquired(access) == state,
        !state.holds(access) ==> state.released(access) == state,
{
}

/// The systems of each stage after a sequence of registrations, starting
/// without systems.
pub open spec fn groups_after<S>(registrations: Seq<(Option<Stage>, S)>) -> Seq<Seq<S>>
    decreases registrations.len(),
{
    if registrations.len() == 0 {
        Seq::new(STAGE_COUNT as nat, |stage: int| Seq::<S>::empty())
    } else {
        let earlier = groups_after(registrations.drop_last());
        let stage = stage_or_first(registrations.last().0);
        earlier.update(
            stage.spec_index() as int,
            earlier[stage.spec_index() as int].push(registrations.last().1),
        )
    }
}

/// The systems that a sequence of registrations names for one stage, in the
/// order of registration.
pub open spec fn registered_for<S>(registrations: Seq<(Option<Stage>, S)>, stage: Stage) -> Seq<
    S,
>
    decreases registrations.len(),
{
    if registrations.len() == 0 {
        Seq::<S>::empty()
    } else {
        let earlier = registered_for(registrations.drop_last(), stage);
        if stage_or_first(registrations.last().0) == stage {
            earlier.push(registrations.last().1)
        } else {
            earlier
        }
    }
}

/// The order in which a tick runs the systems is fixed by the sequence of
/// registrations: there is one group for each stage, and the group of a stage
/// holds the systems that were registered for it, in the order of
/// registration.
pub proof fn lemma_registration_fixes_order<S>(
    registrations: Seq<(Option<Stage>, S)>,
    stage: Stage,
)
    ensures
        groups_after(registrations).len() == STAGE_COUNT,
        groups_after(registrations)[stage.spec_index() as int] == registered_for(
            registrations,
            stage,
        ),
    decreases registrations.len(),
{
    if registrations.len() > 0 {
        lemma_registration_fixes_order(registrations.drop_last(), stage);
        lemma_registration_fixes_order(
            registrations.drop_last(),
            stage_or_first(registrations.last().0),
        );
    }
}

/// The order in which two resources are registered does not matter.
pub proof fn lemma_registration_order_is_irrelevant<V>(
    cells: Cells<V>,
    first: u64,
    first_value: V,
    second: u64,
    second_value: V,
)
    requires
        first != second,
    ensures
        after_add(after_add(cells, first, first_value), second, second_value) == after_add(
            after_add(cells, second, second_value),
            first,
            first_value,
        ),
{
    assert(after_add(after_add(cells, first, first_value), second, second_value) =~= after_add(
        after_add(cells, second, second_value),
        first,
        first_value,
    ));
}

/// The parameters of a system that reads `a`, writes `b` and reads `c`.
pub open spec fn read_write_read(a: u64, b: u64, c: u64) -> Seq<Parameter> {
    seq![
        Parameter { resource: a, access: Access::Shared },
        Parameter { resource: b, access: Access::Exclusive },
        Parameter { resource: c, access: Access::Shared },
    ]
}

/// A system that reads `a`, writes `b` and reads `c` is admitted, and sees
/// the registered values, in whichever of the six orders the three resources
/// were registered.
pub proof fn lemma_three_parameters_resolve_in_any_order<V>(
    cells: Cells<V>,
    a: u64,
    b: u64,
    c: u64,
    value_a: V,
    value_b: V,
    value_c: V,
)
    requires
        cells_wf(cells),
        a != b,
        a != c,
        b != c,
    ensures
        ({
            let abc = after_add(after_add(after_add(cells, a, value_a), b, value_b), c, value_c);
            let acb = after_add(after_add(after_add(cells, a, value_a), c, value_c), b, value_b);
            let bac = after_add(after_add(after_add(cells, b, value_b), a, value_a), c, value_c);
            let bca = after_add(after_add(after_add(cells, b, value_b), c, value_c), a, value_a);
            let cab = after_add(after_add(after_add(cells, c, value_c), a, value_a), b, value_b);
            let cba = after_add(after_add(after_add(cells, c, value_c), b, value_b), a, value_a);
            &&& abc == acb && abc == bac && abc == bca && abc == cab && abc == cba
            &&& run_admitted(read_write_read(a, b, c), abc)
            &&& parameter_values(read_write_read(a, b, c), abc) == seq![value_a, value_b, value_c]
        }),
{
    let abc = after_add(after_add(after_add(cells, a, value_a), b, value_b), c, value_c);
    let acb = after_add(after_add(after_add(cells, a, value_a), c, value_c), b, value_b);
    let bac = after_add(after_add(after_add(cells, b, value_b), a, value_a), c, value_c);
    let bca = after_add(after_add(after_add(cells, b, value_b), c, value_c), a, value_a);
    let cab = after_add(after_add(after_add(cells, c, value_c), a, value_a), b, value_b);
    let cba = after_add(after_add(after_add(cells, c, value_c), b, value_b), a, value_a);
    assert(abc =~= acb);
    assert(abc =~= bac);
    assert(abc =~= bca);
    assert(abc =~= cab);
    assert(abc =~= cba);
    let parameters = read_write_read(a, b, c);
    assert(parameter_values(parameters, abc) =~= seq![value_a, value_b, value_c]);
    let none = parameters.take(0);
    let one = parameters.take(1);
    let two = parameters.take(2);
    assert(none =~= Seq::<Parameter>::empty());
    assert(one.drop_last() =~= none);
    assert(two.drop_last() =~= one);
    assert(parameters.drop_last() =~= two);
    assert(acquire_all(none, abc) == Some(abc));
    let after_one = after_acquire(abc, a, Access::Shared);
    assert(acquire_all(one, abc) == Some(after_one));
    let after_two = after_acquire(after_one, b, Access::Exclusive);
    assert(acquire_all(two, abc) == Some(after_two));
    assert(acquire_all(parameters, abc) is Some);
}

} // verus!
