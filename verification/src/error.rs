//! The errors of the scheduler.

use vstd::prelude::*;
use crate::stage::Stage;
use crate::text::{decimal, push_decimal};

verus! {

/// Why a resource could not be accessed.  Each variant names the resource.
#[derive(Clone, Copy, Debug, PartialEq, Eq, Structural)]
pub enum AccessError {
    /// No resource was ever registered under this identifier.
    MissingResource(u64),
    /// The access would break the rule of one writer or many readers.
    BorrowConflict(u64),
}

impl AccessError {
    /// The identifier of the resource the error is about.
    pub open spec fn spec_resource(self) -> u64 {
        match self {
            AccessError::MissingResource(resource) => resource,
            AccessError::BorrowConflict(resource) => resource,
        }
    }

    /// What the error is shown as: what went wrong, and the resource.
    pub open spec fn spec_text(self) -> Seq<char> {
        match self {
            AccessError::MissingResource(resource) => "missing resource: "@ + decimal(
                resource as nat,
            ),
            AccessError::BorrowConflict(resource) => "borrow conflict: "@ + decimal(
                resource as nat,
            ),
        }
    }

    /// The error as it is shown: `missing resource: ` or `borrow conflict: `,
    /// and the identifier of the resource in decimal.
    pub fn to_text(self) -> (text: String)
        ensures
            text@ == self.spec_text(),
    {
        let mut text = match self {
            AccessError::MissingResource(_) => "missing resource: ".to_owned(),
            AccessError::BorrowConflict(_) => "borrow conflict: ".to_owned(),
        };
        push_decimal(&mut text, self.resource());
        text
    }

    /// The identifier of the resource the error is about.
    #[verifier::when_used_as_spec(spec_resource)]
    pub fn resource(self) -> (resource: u64)
        ensures
            resource == self.spec_resource(),
    {
        match self {
            AccessError::MissingResource(resource) => resource,
            AccessError::BorrowConflict(resource) => resource,
        }
    }
}

/// Why a tick was aborted: the system that failed, by stage and position in
/// the stage, and the access that it was refused.
#[derive(Clone, Copy, Debug, PartialEq, Eq, Structural)]
pub struct ExecuteError {
    /// The stage of the system that failed.
    pub stage: Stage,
    /// The position of that system within its stage.
    pub index: usize,
    /// What the system was refused.
    pub cause: AccessError,
}

impl ExecuteError {
    /// What the error is shown as, for a system with the given label.
    pub open spec fn spec_text(self, label: Seq<char>) -> Seq<char> {
        "system '"@ + label + "' of stage "@ + self.stage.spec_name() + ": "@
            + self.cause.spec_text()
    }

    /// The error as it is shown: the label of the system, its stage, and
    /// what the system was refused.
    pub fn to_text(self, label: &str) -> (text: String)
        ensures
            text@ == self.spec_text(label@),
    {
        let mut text = "system '".to_owned();
        text.push_str(label);
        text.push_str("' of stage ");
        text.push_str(self.stage.name());
        text.push_str(": ");
        let cause = self.cause.to_text();
        text.push_str(cause.as_str());
        text
    }
}

} // verus!
