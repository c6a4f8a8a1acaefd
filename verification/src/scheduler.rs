//! The scheduler: a registry of resources and the systems that run on it, in
//! stages.

use vstd::prelude::*;
use crate::error::{AccessError, ExecuteError};
use crate::handle::{Res, ResMut};
use crate::registry::{after_add, cells_wf, Cells, Registry, ResourceCell};
use crate::stage::{stage_or_first, Stage, STAGE_COUNT};
use crate::system::{
    lemma_written_changes_only_exclusive,
    lemma_written_keeps_states,
    parameter_values,
    run_admitted,
    run_refused,
    written,
    System,
};

verus! {

/// One run of a system that goes through takes the cells from `before` to
/// `after`.
pub open spec fn system_runs<V, S: System<V>>(system: S, before: Cells<V>, after: Cells<V>) -> bool {
    &&& run_admitted(system.parameters(), before)
    &&& exists|outputs: Seq<V>| #[trigger]
        system.effect(parameter_values(system.parameters(), before), outputs) && after
            == written(system.parameters(), outputs, before)
}

/// The first `count` systems of a stage, run one after the other in the
/// order of registration, take the cells from `before` to `after`.
pub open spec fn stage_runs<V, S: System<V>>(
    systems: Seq<S>,
    count: int,
    before: Cells<V>,
    after: Cells<V>,
) -> bool
    decreases count,
{
    if count <= 0 {
        after == before
    } else {
        exists|middle: Cells<V>|
            stage_runs(systems, count - 1, before, middle) && #[trigger] system_runs(
                systems[count - 1],
                middle,
                after,
            )
    }
}

/// The first `count` stages, run one after the other, each to its end before
/// the next begins, take the cells from `before` to `after`.
pub open spec fn stages_run<V, S: System<V>>(
    groups: Seq<Seq<S>>,
    count: int,
    before: Cells<V>,
    after: Cells<V>,
) -> bool
    decreases count,
{
    if count <= 0 {
        after == before
    } else {
        exists|middle: Cells<V>|
            stages_run(groups, count - 1, before, middle) && #[trigger] stage_runs(
                groups[count - 1],
                groups[count - 1].len() as int,
                middle,
                after,
            )
    }
}

/// A tick that is aborted at the system at `index` of the stage at `stage`
/// takes the cells from `before` to `after`: the stages before ran to their
/// end, then the systems of the stage before `index`, and the run of the
/// system at `index` is refused with `cause`.
pub open spec fn tick_aborted<V, S: System<V>>(
    groups: Seq<Seq<S>>,
    stage: int,
    index: int,
    cause: AccessError,
    before: Cells<V>,
    after: Cells<V>,
) -> bool {
    &&& 0 <= stage < groups.len()
    &&& 0 <= index < groups[stage].len()
    &&& exists|start: Cells<V>|
        stages_run(groups, stage, before, start) && #[trigger] stage_runs(
            groups[stage],
            index,
            start,
            after,
        )
    &&& run_refused(groups[stage][index].parameters(), after, cause)
}

/// Running no system and running no stage change nothing.
pub proof fn lemma_nothing_runs<V, S: System<V>>(
    systems: Seq<S>,
    groups: Seq<Seq<S>>,
    before: Cells<V>,
    after: Cells<V>,
)
    ensures
        stage_runs(systems, 0, before, after) <==> after == before,
        stages_run(groups, 0, before, after) <==> after == before,
{
}

/// The outputs of one run of a system that went through: outputs that the
/// system may return on the values of its parameters, and which, written
/// back, give the cells after the run.
pub proof fn lemma_system_run_has_outputs<V, S: System<V>>(
    system: S,
    before: Cells<V>,
    after: Cells<V>,
) -> (outputs: Seq<V>)
    requires
        system_runs(system, before, after),
    ensures
        run_admitted(system.parameters(), before),
        system.effect(parameter_values(system.parameters(), before), outputs),
        after == written(system.parameters(), outputs, before),
{
    choose|outputs: Seq<V>| #[trigger]
        system.effect(parameter_values(system.parameters(), before), outputs) && after
            == written(system.parameters(), outputs, before)
}

/// A stage that ran its first `count` systems and then one more ran its first
/// `count + 1` systems.
pub proof fn lemma_stage_runs_one_more<V, S: System<V>>(
    systems: Seq<S>,
    count: int,
    before: Cells<V>,
    middle: Cells<V>,
    after: Cells<V>,
)
    requires
        0 <= count,
        stage_runs(systems, count, before, middle),
        system_runs(systems[count], middle, after),
    ensures
        stage_runs(systems, count + 1, before, after),
{
    assert(systems[count + 1 - 1] == systems[count]);
    assert(stage_runs(systems, count + 1 - 1, before, middle) && system_runs(
        systems[count + 1 - 1],
        middle,
        after,
    ));
}

/// A tick that ran its first `count` stages and then one more ran its first
/// `count + 1` stages.
pub proof fn lemma_stages_run_one_more<V, S: System<V>>(
    groups: Seq<Seq<S>>,
    count: int,
    before: Cells<V>,
    middle: Cells<V>,
    after: Cells<V>,
)
    requires
        0 <= count,
        stages_run(groups, count, before, middle),
        stage_runs(groups[count], groups[count].len() as int, middle, after),
    ensures
        stages_run(groups, count + 1, before, after),
{
    assert(groups[count + 1 - 1] == groups[count]);
    assert(stages_run(groups, count + 1 - 1, before, middle) && stage_runs(
        groups[count + 1 - 1],
        groups[count + 1 - 1].len() as int,
        middle,
        after,
    ));
}

/// A stage that ran its first `count` systems ran the first `count - 1` of
/// them to some cells, and the next one from there.
pub proof fn lemma_stage_runs_last<V, S: System<V>>(
    systems: Seq<S>,
    count: int,
    before: Cells<V>,
    after: Cells<V>,
) -> (middle: Cells<V>)
    requires
        0 < count,
        stage_runs(systems, count, before, after),
    ensures
        stage_runs(systems, count - 1, before, middle),
        system_runs(systems[count - 1], middle, after),
{
    choose|middle: Cells<V>|
        stage_runs(systems, count - 1, before, middle) && #[trigger] system_runs(
            systems[count - 1],
            middle,
            after,
        )
}

/// A tick that ran its first `count` stages ran the first `count - 1` of
/// them to some cells, and the next one from there.
pub proof fn lemma_stages_run_last<V, S: System<V>>(
    groups: Seq<Seq<S>>,
    count: int,
    before: Cells<V>,
    after: Cells<V>,
) -> (middle: Cells<V>)
    requires
        0 < count,
        stages_run(groups, count, before, after),
    ensures
        stages_run(groups, count - 1, before, middle),
        stage_runs(groups[count - 1], groups[count - 1].len() as int, middle, after),
{
    choose|middle: Cells<V>|
        stages_run(groups, count - 1, before, middle) && #[trigger] stage_runs(
            groups[count - 1],
            groups[count - 1].len() as int,
            middle,
            after,
        )
}

/// Stages without systems change nothing: a tick that ran its first `count`
/// stages, of which those from `from` on have no systems, is where it was
/// after the first `from`.
pub proof fn lemma_empty_stages_change_nothing<V, S: System<V>>(
    groups: Seq<Seq<S>>,
    from: int,
    count: int,
    before: Cells<V>,
    after: Cells<V>,
)
    requires
        0 <= from <= count,
        stages_run(groups, count, before, after),
        forall|stage: int| from <= stage < count ==> (#[trigger] groups[stage]).len() == 0,
    ensures
        stages_run(groups, from, before, after),
    decreases count - from,
{
    if from < count {
        let middle = lemma_stages_run_last(groups, count, before, after);
        assert(groups[count - 1].len() == 0);
        assert(after == middle);
        lemma_empty_stages_change_nothing(groups, from, count - 1, before, middle);
    }
}

/// The systems of the first `count` stages in the order in which a tick
/// runs them: stage after stage, and within a stage in the order of
/// registration.
pub open spec fn schedule<S>(groups: Seq<Seq<S>>, count: int) -> Seq<S>
    decreases count,
{
    if count <= 0 {
        Seq::<S>::empty()
    } else {
        schedule(groups, count - 1) + groups[count - 1]
    }
}

/// What the first `count` systems of a sequence do depends on those systems
/// alone.
pub proof fn lemma_stage_runs_depends_on_prefix<V, S: System<V>>(
    first: Seq<S>,
    second: Seq<S>,
    count: int,
    before: Cells<V>,
    after: Cells<V>,
)
    requires
        0 <= count <= first.len(),
        count <= second.len(),
        forall|i: int| 0 <= i < count ==> first[i] == second[i],
        stage_runs(first, count, before, after),
    ensures
        stage_runs(second, count, before, after),
    decreases count,
{
    if count > 0 {
        let middle = lemma_stage_runs_last(first, count, before, after);
        lemma_stage_runs_depends_on_prefix(first, second, count - 1, before, middle);
        lemma_stage_runs_one_more(second, count - 1, before, middle, after);
    }
}

/// Running one sequence of systems and then the first `count` of another is
/// running the first systems of the two joined.
pub proof fn lemma_stage_runs_joined<V, S: System<V>>(
    first: Seq<S>,
    second: Seq<S>,
    count: int,
    before: Cells<V>,
    middle: Cells<V>,
    after: Cells<V>,
)
    requires
        0 <= count <= second.len(),
        stage_runs(first, first.len() as int, before, middle),
        stage_runs(second, count, middle, after),
    ensures
        stage_runs(first + second, first.len() + count, before, after),
    decreases count,
{
    let joined = first + second;
    if count == 0 {
        lemma_stage_runs_depends_on_prefix(first, joined, first.len() as int, before, middle);
    } else {
        let earlier = lemma_stage_runs_last(second, count, middle, after);
        lemma_stage_runs_joined(first, second, count - 1, before, middle, earlier);
        assert(joined[first.len() + count - 1] == second[count - 1]);
        lemma_stage_runs_one_more(joined, first.len() + count - 1, before, earlier, after);
    }
}

/// Running the first systems of two sequences joined is running the one
/// and then the first `count` of the other.
pub proof fn lemma_stage_runs_split<V, S: System<V>>(
    first: Seq<S>,
    second: Seq<S>,
    count: int,
    before: Cells<V>,
    after: Cells<V>,
) -> (middle: Cells<V>)
    requires
        0 <= count <= second.len(),
        stage_runs(first + second, first.len() + count, before, after),
    ensures
        stage_runs(first, first.len() as int, before, middle),
        stage_runs(second, count, middle, after),
    decreases count,
{
    let joined = first + second;
    if count == 0 {
        lemma_stage_runs_depends_on_prefix(joined, first, first.len() as int, before, after);
        after
    } else {
        let earlier = lemma_stage_runs_last(joined, first.len() + count, before, after);
        let middle = lemma_stage_runs_split(first, second, count - 1, before, earlier);
        assert(joined[first.len() + count - 1] == second[count - 1]);
        lemma_stage_runs_one_more(second, count - 1, middle, earlier, after);
        middle
    }
}

/// A tick runs the systems in one fixed order: running the first `count`
/// stages is running the systems of `schedule`, one after the other.
pub proof fn lemma_tick_follows_schedule<V, S: System<V>>(
    groups: Seq<Seq<S>>,
    count: int,
    before: Cells<V>,
    after: Cells<V>,
)
    requires
        0 <= count <= groups.len(),
    ensures
        stages_run(groups, count, before, after) <==> stage_runs(
            schedule(groups, count),
            schedule(groups, count).len() as int,
            before,
            after,
        ),
    decreases count,
{
    if count > 0 {
        let earlier = schedule(groups, count - 1);
        let last = groups[count - 1];
        if stages_run(groups, count, before, after) {
            let middle = lemma_stages_run_last(groups, count, before, after);
            lemma_tick_follows_schedule(groups, count - 1, before, middle);
            lemma_stage_runs_joined(earlier, last, last.len() as int, before, middle, after);
        }
        if stage_runs(
            schedule(groups, count),
            schedule(groups, count).len() as int,
            before,
            after,
        ) {
            let middle = lemma_stage_runs_split(earlier, last, last.len() as int, before, after);
            lemma_tick_follows_schedule(groups, count - 1, before, middle);
            lemma_stages_run_one_more(groups, count - 1, before, middle, after);
        }
    }
}

/// No system of the first `count` stages declares the resource exclusive.
pub open spec fn nobody_writes<V, S: System<V>>(groups: Seq<Seq<S>>, count: int, resource: u64) -> bool {
    forall|stage: int, index: int, i: int|
        0 <= stage < count && 0 <= index < groups[stage].len() && 0 <= i
            < groups[stage][index].parameters().len() ==> !((
        #[trigger] groups[stage][index].parameters()[i]).resource == resource
            && groups[stage][index].parameters()[i].access is Exclusive)
}

/// One run of a system registers nothing, removes nothing, leaves every
/// borrow state as it found it, and changes no resource but those that the
/// system declares exclusive.
pub proof fn lemma_system_run_keeps_the_rest<V, S: System<V>>(
    system: S,
    before: Cells<V>,
    after: Cells<V>,
    resource: u64,
)
    requires
        system_runs(system, before, after),
    ensures
        after.dom() == before.dom(),
        before.contains_key(resource) ==> after[resource].state == before[resource].state,
        (forall|i: int|
            0 <= i < system.parameters().len() ==> !((#[trigger] system.parameters()[i]).resource
                == resource && system.parameters()[i].access is Exclusive)) ==> (
        before.contains_key(resource) ==> after[resource] == before[resource]),
{
    let parameters = system.parameters();
    let outputs = lemma_system_run_has_outputs(system, before, after);
    lemma_written_keeps_states(parameters, outputs, before);
    if forall|i: int|
        0 <= i < parameters.len() ==> !((#[trigger] parameters[i]).resource == resource
            && parameters[i].access is Exclusive) {
        lemma_written_changes_only_exclusive(parameters, outputs, before, resource);
    }
}

/// The systems of a stage register nothing, remove nothing, leave every
/// borrow state as they found it, and change no resource but those that one
/// of them declares exclusive.
pub proof fn lemma_stage_keeps_the_rest<V, S: System<V>>(
    systems: Seq<S>,
    count: int,
    before: Cells<V>,
    after: Cells<V>,
    resource: u64,
)
    requires
        0 <= count <= systems.len(),
        stage_runs(systems, count, before, after),
    ensures
        after.dom() == before.dom(),
        before.contains_key(resource) ==> after[resource].state == before[resource].state,
        (forall|index: int, i: int|
            0 <= index < count && 0 <= i < systems[index].parameters().len() ==> !((
            #[trigger] systems[index].parameters()[i]).resource == resource
                && systems[index].parameters()[i].access is Exclusive)) ==> (before.contains_key(
            resource,
        ) ==> after[resource] == before[resource]),
    decreases count,
{
    if count > 0 {
        let middle = lemma_stage_runs_last(systems, count, before, after);
        lemma_stage_keeps_the_rest(systems, count - 1, before, middle, resource);
        lemma_system_run_keeps_the_rest(systems[count - 1], middle, after, resource);
    }
}

/// A tick registers nothing, removes nothing and leaves every borrow state
/// as it found it; and a resource that no system declares exclusive has the
/// same value after the tick as before.
pub proof fn lemma_tick_keeps_the_rest<V, S: System<V>>(
    groups: Seq<Seq<S>>,
    count: int,
    before: Cells<V>,
    after: Cells<V>,
    resource: u64,
)
    requires
        0 <= count <= groups.len(),
        stages_run(groups, count, before, after),
    ensures
        after.dom() == before.dom(),
        before.contains_key(resource) ==> after[resource].state == before[resource].state,
        nobody_writes(groups, count, resource) ==> (before.contains_key(resource)
            ==> after[resource] == before[resource]),
    decreases count,
{
    if count > 0 {
        let middle = lemma_stages_run_last(groups, count, before, after);
        lemma_tick_keeps_the_rest(groups, count - 1, before, middle, resource);
        let last = groups[count - 1];
        lemma_stage_keeps_the_rest(last, last.len() as int, middle, after, resource);
        if nobody_writes(groups, count, resource) {
            assert(nobody_writes(groups, count - 1, resource));
            assert forall|index: int, i: int|
                0 <= index < last.len() && 0 <= i < last[index].parameters().len() implies !((
            #[trigger] last[index].parameters()[i]).resource == resource
                && last[index].parameters()[i].access is Exclusive) by {
                assert(groups[count - 1][index].parameters()[i] == last[index].parameters()[i]);
            }
        }
    }
}

/// The scheduler.  It owns the registry and the systems, one group of
/// systems for each stage; `execute` runs every system once.
pub struct App<V, S> {
    resources: Registry<V>,
    stage_system_groups: Vec<Vec<S>>,
}

impl<V, S: System<V>> App<V, S> {
    /// The systems of each stage, in the order of registration; the stages
    /// in the order of execution.
    pub closed spec fn groups(&self) -> Seq<Seq<S>> {
        Seq::new(self.stage_system_groups@.len(), |i: int| self.stage_system_groups@[i]@)
    }

    /// The cell of each registered resource.
    pub closed spec fn cells(&self) -> Cells<V> {
        self.resources@
    }

    /// The systems of one stage, in the order of registration.
    pub open spec fn systems(&self, stage: Stage) -> Seq<S> {
        self.groups()[stage.spec_index() as int]
    }

    /// There is one group for each stage, every system can be run, and the
    /// registry is well formed.
    pub open spec fn wf(&self) -> bool {
        &&& cells_wf(self.cells())
        &&& self.groups().len() == STAGE_COUNT
        &&& forall|stage: int, index: int|
            0 <= stage < self.groups().len() && 0 <= index < self.groups()[stage].len()
                ==> (#[trigger] self.groups()[stage][index]).wf()
    }

    /// A scheduler without resources and without systems.
    pub fn new() -> (app: Self)
        ensures
            app.wf(),
            app.cells() == Map::<u64, ResourceCell<V>>::empty(),
            forall|stage: int| 0 <= stage < STAGE_COUNT ==> #[trigger] app.groups()[stage].len() == 0,
    {
        let mut stage_system_groups: Vec<Vec<S>> = Vec::new();
        let mut stage: usize = 0;
        while stage < STAGE_COUNT
            invariant
                stage <= STAGE_COUNT,
                stage_system_groups@.len() == stage,
                forall|i: int| 0 <= i < stage ==> (#[trigger] stage_system_groups@[i])@.len() == 0,
            decreases STAGE_COUNT - stage,
        {
            stage_system_groups.push(Vec::new());
            stage = stage + 1;
        }
        App { resources: Registry::new(), stage_system_groups }
    }

    /// Stores `value` as the one instance under `resource`, in place of any
    /// earlier one.
    pub fn add_resource(&mut self, resource: u64, value: V)
        requires
            old(self).wf(),
        ensures
            final(self).wf(),
            final(self).groups() == old(self).groups(),
            final(self).cells() == after_add(old(self).cells(), resource, value),
    {
        self.resources.add_resource(resource, value);
    }

    /// A shared handle to the resource, or `None` where none is registered
    /// under the identifier.
    pub fn get_resource(&self, resource: u64) -> (handle: Option<Res<V>>)
        ensures
            handle is Some <==> self.cells().contains_key(resource),
            handle matches Some(h) ==> h@ == resource,
    {
        self.resources.get_resource(resource)
    }

    /// An exclusive handle to the resource, or `None` where none is
    /// registered under the identifier.
    pub fn get_resource_mut(&self, resource: u64) -> (handle: Option<ResMut<V>>)
        ensures
            handle is Some <==> self.cells().contains_key(resource),
            handle matches Some(h) ==> h@ == resource,
    {
        self.resources.get_resource_mut(resource)
    }

    /// The registry, to read from.
    pub fn registry(&self) -> (registry: &Registry<V>)
        ensures
            registry@ == self.cells(),
    {
        &self.resources
    }

    /// The registry, for the handles and accessors to work on.
    pub fn registry_mut(&mut self) -> (registry: &mut Registry<V>)
        ensures
            registry@ == old(self).cells(),
            final(self).cells() == final(registry)@,
            final(self).groups() == old(self).groups(),
    {
        &mut self.resources
    }

    /// Registers a system as the last of its stage.  A system that is
    /// registered without a stage runs in the first stage, so that systems
    /// which are all registered without one run in the order of registration.
    pub fn add_system(&mut self, stage: Option<Stage>, system: S)
        requires
            old(self).wf(),
            system.wf(),
        ensures
            final(self).wf(),
            final(self).cells() == old(self).cells(),
            final(self).groups() == old(self).groups().update(
                stage_or_first(stage).spec_index() as int,
                old(self).systems(stage_or_first(stage)).push(system),
            ),
    {
        let stage_index = match stage {
            Some(stage) => stage.index(),
            None => Stage::Update.index(),
        };
        self.stage_system_groups[stage_index].push(system);
        proof {
            assert(self.groups() =~= old(self).groups().update(
                stage_or_first(stage).spec_index() as int,
                old(self).systems(stage_or_first(stage)).push(system),
            ));
        }
    }

    /// How many systems are registered in a stage.
    pub fn system_count(&self, stage: Stage) -> (count: usize)
        requires
            self.wf(),
        ensures
            count == self.systems(stage).len(),
    {
        self.stage_system_groups[stage.index()].len()
    }

    /// The label of the system at a position of a stage, or `None` where the
    /// stage has no system there.
    pub fn system_label(&self, stage: Stage, index: usize) -> (label: Option<&'static str>)
        requires
            self.wf(),
        ensures
            label is Some <==> index < self.systems(stage).len(),
            label matches Some(text) ==> text@ == self.systems(stage)[index as int].label(),
    {
        let group = &self.stage_system_groups[stage.index()];
        if index < group.len() {
            Some(group[index].get_debug_label())
        } else {
            None
        }
    }

    /// What an error of `execute` is shown as: the label and the stage of
    /// the system that failed, and what it was refused.  Where the stage has no
    /// system at the position that the error names, the label is left empty.
    pub fn error_text(&self, error: ExecuteError) -> (text: String)
        requires
            self.wf(),
        ensures
            text@ == error.spec_text(
                if error.index < self.systems(error.stage).len() {
                    self.systems(error.stage)[error.index as int].label()
                } else {
                    Seq::<char>::empty()
                },
            ),
    {
        match self.system_label(error.stage, error.index) {
            Some(label) => error.to_text(label),
            None => {
                proof {
                    reveal_strlit("");
                    assert(""@ =~= Seq::<char>::empty());
                }
                error.to_text("")
            },
        }
    }

    /// Runs one tick: every system once, the stages in their fixed order and
    /// the systems of a stage in the order of registration.  The first run
    /// that is refused aborts the whole tick: what ran before stays done,
    /// nothing runs after, and the error names the system and the resource.
    pub fn execute(&mut self) -> (result: Result<(), ExecuteError>)
        requires
            old(self).wf(),
        ensures
            final(self).wf(),
            final(self).groups() == old(self).groups(),
            match result {
                Ok(()) => stages_run(
                    old(self).groups(),
                    STAGE_COUNT as int,
                    old(self).cells(),
                    final(self).cells(),
                ),
                Err(error) => tick_aborted(
                    old(self).groups(),
                    error.stage.spec_index() as int,
                    error.index as int,
                    error.cause,
                    old(self).cells(),
                    final(self).cells(),
                ),
            },
    {
        let ghost groups = self.groups();
        let ghost origin = self.cells();
        let mut stage_index: usize = 0;
        while stage_index < STAGE_COUNT
            invariant
                stage_index <= STAGE_COUNT,
                self.wf(),
                self.groups() == groups,
                groups == old(self).groups(),
                origin == old(self).cells(),
                stages_run(groups, stage_index as int, origin, self.cells()),
            decreases STAGE_COUNT - stage_index,
        {
            let ghost start = self.cells();
            let count = self.stage_system_groups[stage_index].len();
            let mut index: usize = 0;
            while index < count
                invariant
                    stage_index < STAGE_COUNT,
                    index <= count == groups[stage_index as int].len(),
                    self.wf(),
                    self.groups() == groups,
                    groups == old(self).groups(),
                    origin == old(self).cells(),
                    stages_run(groups, stage_index as int, origin, start),
                    stage_runs(groups[stage_index as int], index as int, start, self.cells()),
                decreases count - index,
            {
                let ghost before = self.cells();
                assert(self.groups()[stage_index as int][index as int].wf());
                let outcome = self.stage_system_groups[stage_index][index].execute(
                    &mut self.resources,
                );
                proof {
                    assert(self.groups() =~= groups);
                }
                match outcome {
                    Ok(()) => {
                        proof {
                            assert(system_runs(
                                groups[stage_index as int][index as int],
                                before,
                                self.cells(),
                            ));
                            lemma_stage_runs_one_more(
                                groups[stage_index as int],
                                index as int,
                                start,
                                before,
                                self.cells(),
                            );
                        }
                    },
                    Err(cause) => {
                        match Stage::from_index(stage_index) {
                            Some(stage) => {
                                proof {
                                    assert(stages_run(groups, stage_index as int, origin, start)
                                        && stage_runs(
                                        groups[stage_index as int],
                                        index as int,
                                        start,
                                        self.cells(),
                                    ));
                                }
                                return Err(ExecuteError { stage, index, cause });
                            },
                            None => {},
                        }
                    },
                }
                index = index + 1;
            }
            proof {
                lemma_stages_run_one_more(
                    groups,
                    stage_index as int,
                    origin,
                    start,
                    self.cells(),
                );
            }
            stage_index = stage_index + 1;
        }
        Ok(())
    }
}

impl<V, S: System<V>> Default for App<V, S> {
    /// A scheduler without resources and without systems.
    fn default() -> (app: Self)
        ensures
            app.wf(),
            app.cells() == Map::<u64, ResourceCell<V>>::empty(),
            forall|stage: int| 0 <= stage < STAGE_COUNT ==> #[trigger] app.groups()[stage].len() == 0,
    {
        App::new()
    }
}

} // verus!
