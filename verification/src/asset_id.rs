//! Identifiers of assets, typed by the kind of asset.

use vstd::prelude::*;
use std::cmp::Ordering;
use std::marker::PhantomData;
use vstd::std_specs::cmp::{PartialEqSpecImpl, PartialOrdSpecImpl};
use crate::id::Id;

verus! {

/// The identifier of an asset of kind `T`.
#[derive(Debug)]
pub struct AssetId<T> {
    id: Id,
    pd: PhantomData<T>,
}

impl<T> View for AssetId<T> {
    type V = u64;

    /// The number of the identifier.
    closed spec fn view(&self) -> u64 {
        self.id@
    }
}

impl<T> AssetId<T> {
    /// An identifier drawn at random.
    pub fn new() -> (id: AssetId<T>) {
        AssetId { id: Id::new(), pd: PhantomData }
    }

    /// The typed form of an identifier.
    pub fn from_id(id: Id) -> (typed: AssetId<T>)
        ensures
            typed@ == id@,
    {
        AssetId { id, pd: PhantomData }
    }

    /// The identifier that stands for "no asset": its number is the largest.
    pub fn empty() -> (id: AssetId<T>)
        ensures
            id@ == u64::MAX,
    {
        AssetId { id: Id::empty(), pd: PhantomData }
    }

    /// The untyped identifier.
    pub fn id(&self) -> (id: Id)
        ensures
            id@ == self@,
    {
        self.id
    }

    /// The identifier as it is shown: `empty`, or the number in decimal.
    pub fn to_text(&self) -> (text: String)
        ensures
            text@ == Id::spec_text(self@),
    {
        self.id.to_text()
    }
}

impl<T> Default for AssetId<T> {
    /// The identifier with the number 0.
    fn default() -> (id: AssetId<T>)
        ensures
            id@ == 0,
    {
        AssetId { id: Id::from_u64(0), pd: PhantomData }
    }
}

impl<T> Clone for AssetId<T> {
    fn clone(&self) -> (copy: AssetId<T>)
        ensures
            copy@ == self@,
    {
        AssetId { id: self.id, pd: PhantomData }
    }
}

impl<T> Copy for AssetId<T> {

}

impl<T> PartialEq for AssetId<T> {
    fn eq(&self, other: &AssetId<T>) -> (equal: bool) {
        self.id.value() == other.id.value()
    }
}

impl<T> PartialEqSpecImpl for AssetId<T> {
    open spec fn obeys_eq_spec() -> bool {
        true
    }

    /// Two identifiers are equal where their numbers are.
    open spec fn eq_spec(&self, other: &AssetId<T>) -> bool {
        self@ == other@
    }
}

impl<T> Eq for AssetId<T> {

}

impl<T> PartialOrd for AssetId<T> {
    fn partial_cmp(&self, other: &AssetId<T>) -> (order: Option<Ordering>) {
        let mine = self.id.value();
        let theirs = other.id.value();
        if mine < theirs {
            Some(Ordering::Less)
        } else if mine > theirs {
            Some(Ordering::Greater)
        } else {
            Some(Ordering::Equal)
        }
    }
}

impl<T> PartialOrdSpecImpl for AssetId<T> {
    open spec fn obeys_partial_cmp_spec() -> bool {
        true
    }

    /// Identifiers are ordered as their numbers are.
    open spec fn partial_cmp_spec(&self, other: &AssetId<T>) -> Option<Ordering> {
        if self@ < other@ {
            Some(Ordering::Less)
        } else if self@ > other@ {
            Some(Ordering::Greater)
        } else {
            Some(Ordering::Equal)
        }
    }
}

} // verus!
