//! The ordered phases of a tick.

use vstd::prelude::*;

verus! {

/// A named phase of a tick.  Stages run in the order in which they are listed
/// here, and every system of a stage has finished before the next stage starts.
#[derive(Clone, Copy, Debug, PartialEq, Eq, Structural)]
pub enum Stage {
    Update,
    RenderSetup,
    RenderStart,
    Render,
    RenderPresent,
    RenderCleanup,
}

/// The number of stages.
pub const STAGE_COUNT: usize = 6;

impl Stage {
    /// The position of the stage in the order of execution.
    pub open spec fn spec_index(self) -> usize {
        match self {
            Stage::Update => 0,
            Stage::RenderSetup => 1,
            Stage::RenderStart => 2,
            Stage::Render => 3,
            Stage::RenderPresent => 4,
            Stage::RenderCleanup => 5,
        }
    }

    /// The stage at a position, where there is one.
    pub open spec fn spec_from_index(index: usize) -> Option<Stage> {
        if index == 0 {
            Some(Stage::Update)
        } else if index == 1 {
            Some(Stage::RenderSetup)
        } else if index == 2 {
            Some(Stage::RenderStart)
        } else if index == 3 {
            Some(Stage::Render)
        } else if index == 4 {
            Some(Stage::RenderPresent)
        } else if index == 5 {
            Some(Stage::RenderCleanup)
        } else {
            None
        }
    }

    /// The position of the stage in the order of execution.
    #[verifier::when_used_as_spec(spec_index)]
    pub fn index(self) -> (index: usize)
        ensures
            index == self.spec_index(),
            index < STAGE_COUNT,
    {
        match self {
            Stage::Update => 0,
            Stage::RenderSetup => 1,
            Stage::RenderStart => 2,
            Stage::Render => 3,
            Stage::RenderPresent => 4,
            Stage::RenderCleanup => 5,
        }
    }

    /// The stage at a position: `Some` exactly for positions below
    /// `STAGE_COUNT`, and then the stage whose `index` is that position.
    #[verifier::when_used_as_spec(spec_from_index)]
    pub fn from_index(index: usize) -> (stage: Option<Stage>)
        ensures
            stage == Stage::spec_from_index(index),
            stage is Some <==> index < STAGE_COUNT,
            stage matches Some(s) ==> s.spec_index() == index,
    {
        if index == 0 {
            Some(Stage::Update)
        } else if index == 1 {
            Some(Stage::RenderSetup)
        } else if index == 2 {
            Some(Stage::RenderStart)
        } else if index == 3 {
            Some(Stage::Render)
        } else if index == 4 {
            Some(Stage::RenderPresent)
        } else if index == 5 {
            Some(Stage::RenderCleanup)
        } else {
            None
        }
    }

    /// The name of the stage.
    pub fn name(self) -> (name: &'static str)
        ensures
            name@ == self.spec_name(),
    {
        match self {
            Stage::Update => "Update",
            Stage::RenderSetup => "RenderSetup",
            Stage::RenderStart => "RenderStart",
            Stage::Render => "Render",
            Stage::RenderPresent => "RenderPresent",
            Stage::RenderCleanup => "RenderCleanup",
        }
    }

    /// The name of the stage, as it is written in the type.
    pub open spec fn spec_name(self) -> Seq<char> {
        match self {
            Stage::Update => "Update"@,
            Stage::RenderSetup => "RenderSetup"@,
            Stage::RenderStart => "RenderStart"@,
            Stage::Render => "Render"@,
            Stage::RenderPresent => "RenderPresent"@,
            Stage::RenderCleanup => "RenderCleanup"@,
        }
    }
}

/// The stage in which a system runs: the one it was registered for, or the
/// first stage where it was registered without one.
pub open spec fn stage_or_first(stage: Option<Stage>) -> Stage {
    match stage {
        Some(stage) => stage,
        None => Stage::Update,
    }
}

/// Each stage is found again at its own position.
pub proof fn lemma_stage_index_roundtrip(stage: Stage)
    ensures
        Stage::spec_from_index(stage.spec_index()) == Some(stage),
{
}

} // verus!
