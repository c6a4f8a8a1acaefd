//! Identifiers of scene objects and assets.

use vstd::prelude::*;
use crate::text::{decimal, decimal_text};

verus! {

/// `fastrand::u64` over the full range: a number drawn at random.  Nothing is
/// claimed of the number.
#[verifier::external_body]
fn random_u64() -> (number: u64) {
    fastrand::u64(..)
}

/// An identifier: a number, of which the largest stands for "none".
#[derive(Clone, Copy, Debug, PartialEq, Eq, PartialOrd, Ord, Hash, Structural)]
pub struct Id(u64);

impl View for Id {
    type V = u64;

    /// The number of the identifier.
    closed spec fn view(&self) -> u64 {
        self.0
    }
}

impl Id {
    /// The identifier that stands for "none".
    pub open spec fn spec_empty() -> u64 {
        u64::MAX
    }

    /// What an identifier is shown as: `empty` for the one that stands for
    /// "none", and else its number in decimal.
    pub open spec fn spec_text(number: u64) -> Seq<char> {
        if number == u64::MAX {
            "empty"@
        } else {
            decimal(number as nat)
        }
    }

    /// The identifier with the given number.
    pub closed spec fn spec_from_u64(val: u64) -> Id {
        Id(val)
    }

    /// An identifier drawn at random.
    pub fn new() -> (id: Id) {
        Id(random_u64())
    }

    /// The identifier with the given number.
    #[verifier::when_used_as_spec(spec_from_u64)]
    pub fn from_u64(val: u64) -> (id: Id)
        ensures
            id == Id::spec_from_u64(val),
            id@ == val,
    {
        Id(val)
    }

    /// The identifier that stands for "none": its number is the largest.
    pub fn empty() -> (id: Id)
        ensures
            id == Id::spec_from_u64(u64::MAX),
            id@ == u64::MAX,
    {
        Id(u64::MAX)
    }

    /// The number of the identifier.
    pub fn value(&self) -> (number: u64)
        ensures
            number == self@,
    {
        self.0
    }

    /// Whether this is the identifier that stands for "none".
    pub fn is_empty(&self) -> (none: bool)
        ensures
            none == (self@ == u64::MAX),
    {
        self.0 == u64::MAX
    }

    /// The identifier as it is shown: `empty`, or the number in decimal.
    pub fn to_text(&self) -> (text: String)
        ensures
            text@ == Id::spec_text(self@),
    {
        if self.0 == u64::MAX {
            "empty".to_owned()
        } else {
            decimal_text(self.0)
        }
    }
}

impl Default for Id {
    /// The identifier with the number 0.
    fn default() -> (id: Id)
        ensures
            id@ == 0,
    {
        Id(0)
    }
}

/// An identifier is its number: two identifiers with the same number are
/// the same, and the identifier made of a number has that number.
pub proof fn lemma_id_is_its_number(a: Id, b: Id)
    ensures
        a@ == b@ <==> a == b,
        Id::spec_from_u64(a@) == a,
{
}

/// The identifier made of a number has that number.
pub proof fn lemma_id_from_number(val: u64)
    ensures
        Id::spec_from_u64(val)@ == val,
{
}

} // verus!
