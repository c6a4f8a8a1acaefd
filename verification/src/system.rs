//! Systems: what a system declares, how its parameters are resolved, and what
//! one run of it does to the registry.

use vstd::prelude::*;
use crate::borrow::Access;
use crate::error::AccessError;
use crate::handle::{Res, ResMut};
use crate::registry::{
    acquire_error,
    after_acquire,
    cells_wf,
    lemma_release_undoes_acquire,
    with_value,
    Cells,
    Registry,
};

verus! {

/// One declared parameter of a system: a resource and the access to it.
#[derive(Clone, Copy, Debug, PartialEq, Eq, Structural)]
pub struct Parameter {
    /// The identifier of the resource.
    pub resource: u64,
    /// Whether the system only reads the resource or also writes it.
    pub access: Access,
}

impl Parameter {
    /// A parameter that reads the resource.
    pub fn shared(resource: u64) -> (parameter: Parameter)
        ensures
            parameter == (Parameter { resource, access: Access::Shared }),
    {
        Parameter { resource, access: Access::Shared }
    }

    /// A parameter that reads and writes the resource.
    pub fn exclusive(resource: u64) -> (parameter: Parameter)
        ensures
            parameter == (Parameter { resource, access: Access::Exclusive }),
    {
        Parameter { resource, access: Access::Exclusive }
    }

    /// Resolves the parameter against the registry: it fails exactly where
    /// the resource is missing, and then names it.
    pub fn resolve<V>(&self, registry: &Registry<V>) -> (result: Result<(), AccessError>)
        ensures
            result == if registry@.contains_key(self.resource) {
                Ok::<(), AccessError>(())
            } else {
                Err(AccessError::MissingResource(self.resource))
            },
    {
        match self.access {
            Access::Shared => match Res::<V>::get_from_app(registry, self.resource) {
                Ok(_) => Ok(()),
                Err(error) => Err(error),
            },
            Access::Exclusive => match ResMut::<V>::get_from_app(registry, self.resource) {
                Ok(_) => Ok(()),
                Err(error) => Err(error),
            },
        }
    }
}

/// A kind of parameter that can be produced from the registry.
pub trait SystemParameter<V>: Sized {
    /// The access that this kind of parameter stands for.
    spec fn access() -> Access;

    /// The resource that a resolved parameter refers to.
    spec fn resource(&self) -> u64;

    /// Produces the parameter for a resource.  It fails exactly where the
    /// resource is missing, and then names it.
    fn get_from_app(registry: &Registry<V>, resource: u64) -> (result: Result<Self, AccessError>)
        ensures
            match result {
                Ok(parameter) => registry@.contains_key(resource) && parameter.resource()
                    == resource,
                Err(error) => !registry@.contains_key(resource) && error
                    == AccessError::MissingResource(resource),
            },
    ;
}

impl<T> SystemParameter<T> for Res<T> {
    open spec fn access() -> Access {
        Access::Shared
    }

    open spec fn resource(&self) -> u64 {
        self@
    }

    fn get_from_app(registry: &Registry<T>, resource: u64) -> (result: Result<Self, AccessError>) {
        match registry.get_resource(resource) {
            Some(handle) => Ok(handle),
            None => Err(AccessError::MissingResource(resource)),
        }
    }
}

impl<T> SystemParameter<T> for ResMut<T> {
    open spec fn access() -> Access {
        Access::Exclusive
    }

    open spec fn resource(&self) -> u64 {
        self@
    }

    fn get_from_app(registry: &Registry<T>, resource: u64) -> (result: Result<Self, AccessError>) {
        match registry.get_resource_mut(resource) {
            Some(handle) => Ok(handle),
            None => Err(AccessError::MissingResource(resource)),
        }
    }
}

/// Every declared resource is registered.
pub open spec fn all_registered<V>(parameters: Seq<Parameter>, cells: Cells<V>) -> bool {
    forall|i: int|
        0 <= i < parameters.len() ==> cells.contains_key(#[trigger] parameters[i].resource)
}

/// Parameter `i` is the first whose resource is not registered.
pub open spec fn first_missing<V>(parameters: Seq<Parameter>, cells: Cells<V>, i: int) -> bool {
    &&& 0 <= i < parameters.len()
    &&& !cells.contains_key(parameters[i].resource)
    &&& all_registered(parameters.take(i), cells)
}

/// The cells after an accessor was acquired for each parameter in the order
/// of declaration, or `None` where one of them was refused.
pub open spec fn acquire_all<V>(parameters: Seq<Parameter>, cells: Cells<V>) -> Option<Cells<V>>
    decreases parameters.len(),
{
    if parameters.len() == 0 {
        Some(cells)
    } else {
        match acquire_all(parameters.drop_last(), cells) {
            None => None,
            Some(earlier) => {
                let last = parameters.last();
                if acquire_error(earlier, last.resource, last.access) is None {
                    Some(after_acquire(earlier, last.resource, last.access))
                } else {
                    None
                }
            },
        }
    }
}

/// Parameter `i` is the first whose accessor is refused when the accessors
/// are acquired in the order of declaration.
pub open spec fn first_conflict<V>(parameters: Seq<Parameter>, cells: Cells<V>, i: int) -> bool {
    &&& 0 <= i < parameters.len()
    &&& acquire_all(parameters.take(i), cells) is Some
    &&& acquire_all(parameters.take(i + 1), cells) is None
}

/// The values of the declared resources, in the order of declaration.
pub open spec fn parameter_values<V>(parameters: Seq<Parameter>, cells: Cells<V>) -> Seq<V> {
    Seq::new(parameters.len(), |i: int| cells[parameters[i].resource].value)
}

/// How many of the parameters are exclusive.
pub open spec fn exclusive_count(parameters: Seq<Parameter>) -> nat
    decreases parameters.len(),
{
    if parameters.len() == 0 {
        0
    } else {
        exclusive_count(parameters.drop_last()) + if parameters.last().access is Exclusive {
            1nat
        } else {
            0nat
        }
    }
}

/// The cells after the outputs of a system were written back: output `j`
/// becomes the value of the resource of the exclusive parameter number `j`.
/// An exclusive parameter for which there is no output keeps its value, and
/// outputs beyond the exclusive parameters are dropped.
pub open spec fn written<V>(parameters: Seq<Parameter>, outputs: Seq<V>, cells: Cells<V>) -> Cells<
    V,
>
    decreases parameters.len(),
{
    if parameters.len() == 0 {
        cells
    } else {
        let earlier = written(parameters.drop_last(), outputs, cells);
        let last = parameters.last();
        let rank = exclusive_count(parameters.drop_last());
        if last.access is Exclusive && rank < outputs.len() {
            with_value(earlier, last.resource, outputs[rank as int])
        } else {
            earlier
        }
    }
}

/// A run of a system with these parameters is refused with `error`: a
/// resource is missing, and `error` names the first such; or all are
/// registered, an accessor is refused, and `error` names the resource of the
/// first such.
pub open spec fn run_refused<V>(parameters: Seq<Parameter>, cells: Cells<V>, error: AccessError) -> bool {
    ||| exists|i: int|
        first_missing(parameters, cells, i) && error == AccessError::MissingResource(
            #[trigger] parameters[i].resource,
        )
    ||| all_registered(parameters, cells) && exists|i: int|
        first_conflict(parameters, cells, i) && error == AccessError::BorrowConflict(
            #[trigger] parameters[i].resource,
        )
}

/// A run of a system with these parameters goes through: every resource is
/// registered and every accessor is handed out.
pub open spec fn run_admitted<V>(parameters: Seq<Parameter>, cells: Cells<V>) -> bool {
    all_registered(parameters, cells) && acquire_all(parameters, cells) is Some
}

/// A unit of behaviour that the scheduler can run: it declares its
/// parameters, and one run resolves them, borrows them, computes and writes
/// back.
pub trait System<V> {
    /// The system can be run.
    spec fn wf(&self) -> bool;

    /// The declared parameters, which never change.
    spec fn parameters(&self) -> Seq<Parameter>;

    /// Whether the system, given these values of its parameters, may return
    /// these outputs.
    spec fn effect(&self, inputs: Seq<V>, outputs: Seq<V>) -> bool;

    /// The label under which the system is reported.
    spec fn label(&self) -> Seq<char>;

    /// Runs the system once.  A run is refused, and then changes nothing,
    /// exactly where a declared resource is missing or an accessor cannot be
    /// had; the error names the first resource at fault.  A run that goes
    /// through writes the outputs of the system to its exclusive parameters
    /// and leaves every borrow state as it found it.
    fn execute(&self, registry: &mut Registry<V>) -> (result: Result<(), AccessError>)
        requires
            self.wf(),
            old(registry).wf(),
        ensures
            final(registry).wf(),
            match result {
                Ok(()) => {
                    &&& run_admitted(self.parameters(), old(registry)@)
                    &&& exists|outputs: Seq<V>| #[trigger]
                        self.effect(
                            parameter_values(self.parameters(), old(registry)@),
                            outputs,
                        ) && final(registry)@ == written(
                            self.parameters(),
                            outputs,
                            old(registry)@,
                        )
                },
                Err(error) => {
                    &&& run_refused(self.parameters(), old(registry)@, error)
                    &&& final(registry)@ == old(registry)@
                },
            },
    ;

    /// The label under which the system is reported.
    fn get_debug_label(&self) -> (label: &'static str)
        ensures
            label@ == self.label(),
    ;
}


/// Acquiring accessors registers nothing, removes nothing and changes no
/// value.
pub proof fn lemma_acquire_all_keeps_values<V>(parameters: Seq<Parameter>, cells: Cells<V>)
    requires
        cells_wf(cells),
        acquire_all(parameters, cells) is Some,
    ensures
        cells_wf(acquire_all(parameters, cells)->0),
        acquire_all(parameters, cells)->0.dom() == cells.dom(),
        forall|resource: u64|
            cells.contains_key(resource) ==> (#[trigger] acquire_all(
                parameters,
                cells,
            )->0[resource]).value == cells[resource].value,
    decreases parameters.len(),
{
    if parameters.len() > 0 {
        let earlier = acquire_all(parameters.drop_last(), cells)->0;
        let last = parameters.last();
        lemma_acquire_all_keeps_values(parameters.drop_last(), cells);
        lemma_release_undoes_acquire(earlier, last.resource, last.access);
        let all = acquire_all(parameters, cells)->0;
        assert(all == after_acquire(earlier, last.resource, last.access));
        assert(all.dom() =~= cells.dom());
        assert forall|resource: u64| cells.contains_key(resource) implies (#[trigger] all[resource]).value
            == cells[resource].value by {
            assert(earlier[resource].value == cells[resource].value);
        }
    }
}

/// Acquiring the accessors of one more parameter is one more step.
pub proof fn lemma_acquire_all_step<V>(parameters: Seq<Parameter>, cells: Cells<V>, i: int)
    requires
        0 <= i < parameters.len(),
    ensures
        acquire_all(parameters.take(i + 1), cells) == match acquire_all(
            parameters.take(i),
            cells,
        ) {
            None => None,
            Some(earlier) => if acquire_error(
                earlier,
                parameters[i].resource,
                parameters[i].access,
            ) is None {
                Some(after_acquire(earlier, parameters[i].resource, parameters[i].access))
            } else {
                None
            },
        },
{
    assert(parameters.take(i + 1).drop_last() =~= parameters.take(i));
    assert(parameters.take(i + 1).last() == parameters[i]);
}

/// Where a prefix of the parameters cannot be acquired, no longer prefix can.
pub proof fn lemma_acquire_all_refusal_lasts<V>(
    parameters: Seq<Parameter>,
    cells: Cells<V>,
    i: int,
    j: int,
)
    requires
        0 <= i <= j <= parameters.len(),
        acquire_all(parameters.take(i), cells) is None,
    ensures
        acquire_all(parameters.take(j), cells) is None,
    decreases j - i,
{
    if i < j {
        lemma_acquire_all_refusal_lasts(parameters, cells, i, j - 1);
        lemma_acquire_all_step(parameters, cells, j - 1);
    }
}

/// The count of exclusive parameters grows by at most one with each parameter.
pub proof fn lemma_exclusive_count_step(parameters: Seq<Parameter>, i: int)
    requires
        0 <= i < parameters.len(),
    ensures
        exclusive_count(parameters.take(i + 1)) == exclusive_count(parameters.take(i))
            + if parameters[i].access is Exclusive {
            1nat
        } else {
            0nat
        },
{
    assert(parameters.take(i + 1).drop_last() =~= parameters.take(i));
    assert(parameters.take(i + 1).last() == parameters[i]);
}

/// Writing back for one more parameter is one more step.
pub proof fn lemma_written_step<V>(
    parameters: Seq<Parameter>,
    outputs: Seq<V>,
    cells: Cells<V>,
    i: int,
)
    requires
        0 <= i < parameters.len(),
    ensures
        written(parameters.take(i + 1), outputs, cells) == {
            let earlier = written(parameters.take(i), outputs, cells);
            let rank = exclusive_count(parameters.take(i));
            if parameters[i].access is Exclusive && rank < outputs.len() {
                with_value(earlier, parameters[i].resource, outputs[rank as int])
            } else {
                earlier
            }
        },
{
    assert(parameters.take(i + 1).drop_last() =~= parameters.take(i));
    assert(parameters.take(i + 1).last() == parameters[i]);
}

/// Writing back registers nothing, removes nothing, and leaves every borrow
/// state as it was.
pub proof fn lemma_written_keeps_states<V>(
    parameters: Seq<Parameter>,
    outputs: Seq<V>,
    cells: Cells<V>,
)
    requires
        all_registered(parameters, cells),
    ensures
        written(parameters, outputs, cells).dom() == cells.dom(),
        forall|resource: u64|
            cells.contains_key(resource) ==> (#[trigger] written(
                parameters,
                outputs,
                cells,
            )[resource]).state == cells[resource].state,
        cells_wf(cells) ==> cells_wf(written(parameters, outputs, cells)),
    decreases parameters.len(),
{
    if parameters.len() > 0 {
        let shorter = parameters.drop_last();
        assert forall|i: int| 0 <= i < shorter.len() implies cells.contains_key(
            #[trigger] shorter[i].resource,
        ) by {
            assert(shorter[i] == parameters[i]);
        }
        lemma_written_keeps_states(shorter, outputs, cells);
        let earlier = written(shorter, outputs, cells);
        let all = written(parameters, outputs, cells);
        let last = parameters.last();
        assert(cells.contains_key(parameters[parameters.len() - 1].resource));
        assert(earlier.contains_key(last.resource));
        assert(all.dom() =~= cells.dom());
        assert forall|resource: u64| cells.contains_key(resource) implies (#[trigger] all[resource]).state
            == cells[resource].state by {
            assert(earlier[resource].state == cells[resource].state);
        }
        if cells_wf(cells) {
            assert forall|resource: u64| #[trigger] all.contains_key(resource) implies all[resource].state.wf() by {
                assert(cells.contains_key(resource));
                assert(all[resource].state == cells[resource].state);
            }
        }
    }
}

/// A system changes only what it declares exclusive: a resource that is not
/// the resource of an exclusive parameter keeps its cell through the writing
/// back.
pub proof fn lemma_written_changes_only_exclusive<V>(
    parameters: Seq<Parameter>,
    outputs: Seq<V>,
    cells: Cells<V>,
    resource: u64,
)
    requires
        forall|i: int|
            0 <= i < parameters.len() ==> !((#[trigger] parameters[i]).resource == resource
                && parameters[i].access is Exclusive),
    ensures
        written(parameters, outputs, cells).contains_key(resource) == cells.contains_key(resource),
        cells.contains_key(resource) ==> written(parameters, outputs, cells)[resource]
            == cells[resource],
    decreases parameters.len(),
{
    if parameters.len() > 0 {
        let shorter = parameters.drop_last();
        assert forall|i: int| 0 <= i < shorter.len() implies !((#[trigger] shorter[i]).resource
            == resource && shorter[i].access is Exclusive) by {
            assert(shorter[i] == parameters[i]);
        }
        lemma_written_changes_only_exclusive(shorter, outputs, cells, resource);
        assert(parameters.last() == parameters[parameters.len() - 1]);
    }
}

} // verus!
