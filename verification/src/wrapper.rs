//! Systems made of a plain function and a list of declared parameters.

use vstd::prelude::*;
use std::marker::PhantomData;
use crate::borrow::Access;
use crate::error::AccessError;
use crate::registry::{cells_wf, lemma_release_undoes_acquire, Cells, Registry};
use crate::system::{
    acquire_all,
    all_registered,
    exclusive_count,
    first_conflict,
    first_missing,
    lemma_acquire_all_keeps_values,
    lemma_acquire_all_step,
    lemma_exclusive_count_step,
    lemma_written_step,
    parameter_values,
    run_admitted,
    written,
    Parameter,
    System,
};

verus! {

/// The values that a sequence of references points to.
pub open spec fn referents<V>(references: Seq<&V>) -> Seq<V> {
    Seq::new(references.len(), |i: int| *references[i])
}

/// Whether a function, called with references to `inputs`, may return
/// `outputs`.
pub open spec fn function_effect<V, F: Fn(Vec<&V>) -> Vec<V>>(
    function: F,
    inputs: Seq<V>,
    outputs: Seq<V>,
) -> bool {
    exists|given: Vec<&V>, returned: Vec<V>|
        referents(given@) == inputs && returned@ == outputs && #[trigger] call_ensures(
            function,
            (given,),
            returned,
        )
}

/// Whether a function may be called with as many references as it has
/// declared parameters.
pub open spec fn function_accepts<V, F: Fn(Vec<&V>) -> Vec<V>>(function: F, count: nat) -> bool {
    forall|given: Vec<&V>| given@.len() == count ==> #[trigger] call_requires(function, (given,))
}

/// A system made of a function and the parameters that the function
/// declares.  The function receives the current values of all its parameters,
/// in the order of declaration, and returns the new values of the exclusive
/// ones, in that order.
pub struct SystemWrapper<V, F> {
    system: F,
    parameters: Vec<Parameter>,
    label: &'static str,
    _pd: PhantomData<V>,
}

impl<V, F: Fn(Vec<&V>) -> Vec<V>> SystemWrapper<V, F> {
    /// The function of the system.
    pub closed spec fn function(&self) -> F {
        self.system
    }

    /// Pairs a function with the parameters that it declares, under the
    /// label by which the system is reported.  The function must accept as
    /// many values as there are parameters.
    pub fn new(label: &'static str, parameters: Vec<Parameter>, system: F) -> (wrapper: Self)
        requires
            function_accepts(system, parameters@.len()),
        ensures
            wrapper.wf(),
            wrapper.function() == system,
            wrapper.parameters() == parameters@,
            wrapper.label() == label@,
            forall|inputs: Seq<V>, outputs: Seq<V>| #[trigger]
                wrapper.effect(inputs, outputs) == function_effect(system, inputs, outputs),
    {
        SystemWrapper { system, parameters, label, _pd: PhantomData }
    }

    /// The declared parameters, in the order of declaration.
    pub fn declared_parameters(&self) -> (parameters: &Vec<Parameter>)
        ensures
            parameters@ == self.parameters(),
    {
        &self.parameters
    }
}

/// A wrapper can be run where its function accepts as many values as it has
/// parameters, and what it may return is what its function may return.
pub proof fn lemma_wrapper_runs_its_function<V, F: Fn(Vec<&V>) -> Vec<V>>(
    wrapper: SystemWrapper<V, F>,
)
    ensures
        wrapper.wf() == function_accepts(wrapper.function(), wrapper.parameters().len()),
        forall|inputs: Seq<V>, outputs: Seq<V>| #[trigger]
            wrapper.effect(inputs, outputs) == function_effect(
                wrapper.function(),
                inputs,
                outputs,
            ),
{
}

/// Gives back the accessors of the first `count` parameters, the last one
/// first: the registry is then as it was before they were acquired.
fn release_acquired<V>(
    registry: &mut Registry<V>,
    parameters: &Vec<Parameter>,
    count: usize,
    Ghost(origin): Ghost<Cells<V>>,
)
    requires
        count <= parameters@.len(),
        cells_wf(origin),
        acquire_all(parameters@.take(count as int), origin) == Some(old(registry)@),
    ensures
        final(registry)@ == origin,
        final(registry).wf(),
{
    let mut left: usize = count;
    while left > 0
        invariant
            left <= count <= parameters@.len(),
            cells_wf(origin),
            acquire_all(parameters@.take(left as int), origin) == Some(registry@),
        decreases left,
    {
        left = left - 1;
        let parameter = parameters[left];
        proof {
            lemma_acquire_all_step(parameters@, origin, left as int);
            let earlier = acquire_all(parameters@.take(left as int), origin)->0;
            lemma_acquire_all_keeps_values(parameters@.take(left as int), origin);
            lemma_release_undoes_acquire(earlier, parameter.resource, parameter.access);
            lemma_acquire_all_keeps_values(parameters@.take(left + 1), origin);
        }
        registry.release(parameter.resource, parameter.access);
    }
    proof {
        assert(parameters@.take(0) =~= Seq::<Parameter>::empty());
    }
}

/// References to the values of the declared resources, in the order of
/// declaration.
fn collect_inputs<'a, V>(registry: &'a Registry<V>, parameters: &Vec<Parameter>) -> (inputs: Vec<
    &'a V,
>)
    requires
        all_registered(parameters@, registry@),
    ensures
        referents(inputs@) == parameter_values(parameters@, registry@),
{
    let mut inputs: Vec<&'a V> = Vec::new();
    let mut i: usize = 0;
    while i < parameters.len()
        invariant
            i <= parameters@.len(),
            inputs@.len() == i,
            all_registered(parameters@, registry@),
            forall|j: int|
                0 <= j < i ==> *(#[trigger] inputs@[j]) == registry@[parameters@[j].resource].value,
        decreases parameters@.len() - i,
    {
        let parameter = parameters[i];
        assert(registry@.contains_key(parameters@[i as int].resource));
        match registry.peek(parameter.resource) {
            Some(value) => {
                inputs.push(value);
            },
            None => {},
        }
        i = i + 1;
    }
    assert(referents(inputs@) =~= parameter_values(parameters@, registry@));
    inputs
}

/// Writes the outputs of a system to its exclusive parameters, output `j` to
/// the exclusive parameter number `j`.
fn write_back<V>(registry: &mut Registry<V>, parameters: &Vec<Parameter>, outputs: Vec<V>)
    requires
        old(registry).wf(),
        all_registered(parameters@, old(registry)@),
    ensures
        final(registry)@ == written(parameters@, outputs@, old(registry)@),
        final(registry).wf(),
{
    let mut remaining = outputs;
    let mut i: usize = 0;
    let ghost mut rank: nat = 0;
    proof {
        assert(parameters@.take(0) =~= Seq::<Parameter>::empty());
    }
    while i < parameters.len()
        invariant
            i <= parameters@.len(),
            registry.wf(),
            all_registered(parameters@, old(registry)@),
            registry@.dom() == old(registry)@.dom(),
            rank == exclusive_count(parameters@.take(i as int)),
            remaining@ =~= outputs@.skip(if rank <= outputs@.len() {
                rank as int
            } else {
                outputs@.len() as int
            }),
            registry@ == written(parameters@.take(i as int), outputs@, old(registry)@),
        decreases parameters@.len() - i,
    {
        let parameter = parameters[i];
        proof {
            lemma_exclusive_count_step(parameters@, i as int);
            lemma_written_step(parameters@, outputs@, old(registry)@, i as int);
            assert(old(registry)@.contains_key(parameters@[i as int].resource));
        }
        match parameter.access {
            Access::Exclusive => {
                if remaining.len() > 0 {
                    let value = remaining.remove(0);
                    assert(value == outputs@[rank as int]);
                    match registry.swap_value(parameter.resource, value) {
                        Ok(_) => {},
                        Err(_) => {},
                    }
                }
                proof {
                    rank = rank + 1;
                }
            },
            Access::Shared => {},
        }
        i = i + 1;
    }
    proof {
        assert(parameters@.take(parameters@.len() as int) =~= parameters@);
    }
}

impl<V, F: Fn(Vec<&V>) -> Vec<V>> System<V> for SystemWrapper<V, F> {
    closed spec fn wf(&self) -> bool {
        function_accepts(self.system, self.parameters@.len())
    }

    closed spec fn parameters(&self) -> Seq<Parameter> {
        self.parameters@
    }

    closed spec fn effect(&self, inputs: Seq<V>, outputs: Seq<V>) -> bool {
        function_effect(self.system, inputs, outputs)
    }

    closed spec fn label(&self) -> Seq<char> {
        self.label@
    }

    fn execute(&self, registry: &mut Registry<V>) -> (result: Result<(), AccessError>) {
        let count = self.parameters.len();
        let ghost origin = registry@;
        // Resolve every declared parameter.
        let mut resolved: usize = 0;
        while resolved < count
            invariant
                resolved <= count == self.parameters@.len(),
                registry@ == origin,
                cells_wf(origin),
                all_registered(self.parameters@.take(resolved as int), origin),
            decreases count - resolved,
        {
            match self.parameters[resolved].resolve(registry) {
                Ok(()) => {},
                Err(error) => {
                    proof {
                        assert(first_missing(self.parameters@, origin, resolved as int));
                    }
                    return Err(error);
                },
            }
            proof {
                let longer = self.parameters@.take(resolved + 1);
                assert forall|i: int| 0 <= i < longer.len() implies origin.contains_key(
                    #[trigger] longer[i].resource,
                ) by {
                    if i < resolved {
                        assert(self.parameters@.take(resolved as int)[i] == longer[i]);
                    }
                }
            }
            resolved = resolved + 1;
        }
        proof {
            assert(self.parameters@.take(count as int) =~= self.parameters@);
            assert(self.parameters@.take(0) =~= Seq::<Parameter>::empty());
        }
        // Acquire an accessor for each, in the order of declaration.
        let mut acquired: usize = 0;
        let mut refused: Option<AccessError> = None;
        while acquired < count && refused.is_none()
            invariant
                acquired <= count == self.parameters@.len(),
                cells_wf(origin),
                registry.wf(),
                all_registered(self.parameters@, origin),
                acquire_all(self.parameters@.take(acquired as int), origin) == Some(registry@),
                refused matches Some(error) ==> acquired < count && error
                    == AccessError::BorrowConflict(self.parameters@[acquired as int].resource)
                    && first_conflict(self.parameters@, origin, acquired as int),
            decreases
                    if refused is None {
                        count - acquired + 1
                    } else {
                        0
                    },
        {
            let parameter = self.parameters[acquired];
            proof {
                lemma_acquire_all_step(self.parameters@, origin, acquired as int);
                lemma_acquire_all_keeps_values(self.parameters@.take(acquired as int), origin);
                assert(origin.contains_key(self.parameters@[acquired as int].resource));
            }
            match registry.acquire(parameter.resource, parameter.access) {
                Ok(()) => {
                    acquired = acquired + 1;
                },
                Err(error) => {
                    refused = Some(error);
                },
            }
        }
        match refused {
            Some(error) => {
                release_acquired(registry, &self.parameters, acquired, Ghost(origin));
                return Err(error);
            },
            None => {},
        }
        proof {
            lemma_acquire_all_keeps_values(self.parameters@, origin);
            assert forall|i: int| 0 <= i < self.parameters@.len() implies registry@.contains_key(
                #[trigger] self.parameters@[i].resource,
            ) by {
                assert(origin.contains_key(self.parameters@[i].resource));
            }
        }
        // Call the function on the values, then give the accessors back and
        // write what it returned.
        let inputs = collect_inputs(registry, &self.parameters);
        proof {
            assert(parameter_values(self.parameters@, registry@) =~= parameter_values(
                self.parameters@,
                origin,
            )) by {
                assert forall|i: int| 0 <= i < self.parameters@.len() implies registry@[self.parameters@[i].resource].value
                    == origin[self.parameters@[i].resource].value by {
                    assert(origin.contains_key(self.parameters@[i].resource));
                }
            }
        }
        let outputs = (self.system)(inputs);
        assert(function_effect(
            self.function(),
            parameter_values(self.parameters@, origin),
            outputs@,
        ));
        release_acquired(registry, &self.parameters, count, Ghost(origin));
        write_back(registry, &self.parameters, outputs);
        proof {
            assert(run_admitted(self.parameters(), origin));
            assert(self.effect(parameter_values(self.parameters(), origin), outputs@));
            assert(registry@ == written(self.parameters(), outputs@, origin));
        }
        Ok(())
    }

    fn get_debug_label(&self) -> (label: &'static str) {
        self.label
    }
}

} // verus!
