//! Resource cells and the registry that owns them.

use vstd::prelude::*;
use std::collections::HashMap;
use crate::borrow::{Access, BorrowState};
use crate::error::AccessError;
use crate::handle::{Res, ResMut};

verus! {

broadcast use vstd::std_specs::hash::group_hash_axioms;

/// One resource: its value and the state of the borrows on it.
pub struct ResourceCell<V> {
    /// The value of the resource.
    pub value: V,
    /// Who holds accessors to the value right now.
    pub state: BorrowState,
}

/// What is to be known of a registry: the cell of each registered resource.
pub type Cells<V> = Map<u64, ResourceCell<V>>;

/// Every cell is in a valid borrow state.
pub open spec fn cells_wf<V>(cells: Cells<V>) -> bool {
    forall|resource: u64| #[trigger]
        cells.contains_key(resource) ==> cells[resource].state.wf()
}

/// Why an accessor of the given mode cannot be had on a resource, if it cannot:
/// the resource is missing, or its borrow state does not admit the accessor.
pub open spec fn acquire_error<V>(cells: Cells<V>, resource: u64, access: Access) -> Option<
    AccessError,
> {
    if !cells.contains_key(resource) {
        Some(AccessError::MissingResource(resource))
    } else if !cells[resource].state.admits(access) {
        Some(AccessError::BorrowConflict(resource))
    } else {
        None
    }
}

/// The cells after a value was registered under an identifier: it stands in
/// a free cell, in place of whatever was registered there before.
pub open spec fn after_add<V>(cells: Cells<V>, resource: u64, value: V) -> Cells<V> {
    cells.insert(resource, ResourceCell { value, state: BorrowState::Free })
}

/// The cells with the borrow state of one resource replaced.
pub open spec fn with_state<V>(cells: Cells<V>, resource: u64, state: BorrowState) -> Cells<V> {
    cells.insert(resource, ResourceCell { value: cells[resource].value, state })
}

/// The cells with the value of one resource replaced.
pub open spec fn with_value<V>(cells: Cells<V>, resource: u64, value: V) -> Cells<V> {
    cells.insert(resource, ResourceCell { value, state: cells[resource].state })
}

/// The cells after an accessor of the given mode was asked for: handed out,
/// where nothing stands against it, and else nothing changed.
pub open spec fn after_acquire<V>(cells: Cells<V>, resource: u64, access: Access) -> Cells<V> {
    if acquire_error(cells, resource, access) is None {
        with_state(cells, resource, cells[resource].state.acquired(access))
    } else {
        cells
    }
}

/// The cells after an accessor of the given mode was given back.
pub open spec fn after_release<V>(cells: Cells<V>, resource: u64, access: Access) -> Cells<V> {
    if cells.contains_key(resource) {
        with_state(cells, resource, cells[resource].state.released(access))
    } else {
        cells
    }
}

/// Giving an accessor back undoes acquiring it.
pub proof fn lemma_release_undoes_acquire<V>(cells: Cells<V>, resource: u64, access: Access)
    requires
        cells_wf(cells),
        acquire_error(cells, resource, access) is None,
    ensures
        after_release(after_acquire(cells, resource, access), resource, access) == cells,
        cells_wf(after_acquire(cells, resource, access)),
{
    let acquired = after_acquire(cells, resource, access);
    assert(cells.contains_key(resource));
    assert(cells[resource].state.wf());
    assert(cells[resource].state.acquired(access).released(access) == cells[resource].state);
    assert(after_release(acquired, resource, access) =~= cells);
    assert forall|other: u64| #[trigger] acquired.contains_key(other) implies acquired[other].state.wf() by {
        if other != resource {
            assert(cells.contains_key(other));
        }
    }
}

/// A mapping from the identifier of a resource type to the one cell of that
/// type.
pub struct Registry<V> {
    cells: HashMap<u64, ResourceCell<V>>,
}

impl<V> View for Registry<V> {
    type V = Cells<V>;

    closed spec fn view(&self) -> Cells<V> {
        self.cells@
    }
}

impl<V> Registry<V> {
    /// Every cell of the registry is in a valid borrow state.
    pub open spec fn wf(&self) -> bool {
        cells_wf(self@)
    }

    /// A registry without resources.
    pub fn new() -> (registry: Self)
        ensures
            registry.wf(),
            registry@ == Map::<u64, ResourceCell<V>>::empty(),
    {
        Registry { cells: HashMap::new() }
    }

    /// Stores `value` as the one instance under `resource`, in a free cell.  An
    /// earlier instance under the same identifier is dropped, together with
    /// whatever borrows were alive on it.
    pub fn add_resource(&mut self, resource: u64, value: V)
        requires
            old(self).wf(),
        ensures
            final(self).wf(),
            final(self)@ == after_add(old(self)@, resource, value),
    {
        self.cells.insert(resource, ResourceCell { value, state: BorrowState::Free });
    }

    /// Whether a resource is registered under the identifier.
    pub fn contains(&self, resource: u64) -> (found: bool)
        ensures
            found == self@.contains_key(resource),
    {
        self.cells.contains_key(&resource)
    }

    /// A shared handle to the resource, or `None` where none is registered
    /// under the identifier.  Taking a handle borrows nothing.
    pub fn get_resource(&self, resource: u64) -> (handle: Option<Res<V>>)
        ensures
            handle is Some <==> self@.contains_key(resource),
            handle matches Some(h) ==> h@ == resource,
    {
        if self.cells.contains_key(&resource) {
            Some(Res::new(resource))
        } else {
            None
        }
    }

    /// An exclusive handle to the resource, or `None` where none is registered
    /// under the identifier.  Taking a handle borrows nothing.
    pub fn get_resource_mut(&self, resource: u64) -> (handle: Option<ResMut<V>>)
        ensures
            handle is Some <==> self@.contains_key(resource),
            handle matches Some(h) ==> h@ == resource,
    {
        if self.cells.contains_key(&resource) {
            Some(ResMut::new(resource))
        } else {
            None
        }
    }

    /// The borrow state of a resource, or `None` where none is registered
    /// under the identifier.
    pub fn borrow_state(&self, resource: u64) -> (state: Option<BorrowState>)
        ensures
            state == if self@.contains_key(resource) {
                Some(self@[resource].state)
            } else {
                None
            },
    {
        match self.cells.get(&resource) {
            Some(cell) => Some(cell.state),
            None => None,
        }
    }

    /// The value of a resource, whatever its borrow state, or `None` where
    /// none is registered under the identifier.
    pub(crate) fn peek(&self, resource: u64) -> (value: Option<&V>)
        ensures
            value == if self@.contains_key(resource) {
                Some(&self@[resource].value)
            } else {
                None
            },
    {
        match self.cells.get(&resource) {
            Some(cell) => Some(&cell.value),
            None => None,
        }
    }

    /// Asks for an accessor of the given mode on a resource.  It is handed out
    /// exactly where the resource is registered and its borrow state admits
    /// one more accessor of that mode; a refused request changes nothing.
    pub(crate) fn acquire(&mut self, resource: u64, access: Access) -> (result: Result<(), AccessError>)
        requires
            old(self).wf(),
        ensures
            final(self).wf(),
            final(self)@ == after_acquire(old(self)@, resource, access),
            result == match acquire_error(old(self)@, resource, access) {
                Some(error) => Err::<(), AccessError>(error),
                None => Ok(()),
            },
    {
        match self.cells.remove(&resource) {
            None => {
                assert(self@ =~= old(self)@);
                Err(AccessError::MissingResource(resource))
            },
            Some(cell) => {
                let mut cell = cell;
                let handed_out = cell.state.try_acquire(access);
                self.cells.insert(resource, cell);
                assert(self@ =~= after_acquire(old(self)@, resource, access));
                if handed_out {
                    Ok(())
                } else {
                    Err(AccessError::BorrowConflict(resource))
                }
            },
        }
    }

    /// Gives back an accessor of the given mode on a resource.  Where the
    /// resource is missing, or no accessor of that mode is alive on it, nothing
    /// changes.
    pub(crate) fn release(&mut self, resource: u64, access: Access)
        requires
            old(self).wf(),
        ensures
            final(self).wf(),
            final(self)@ == after_release(old(self)@, resource, access),
    {
        match self.cells.remove(&resource) {
            None => {
                assert(self@ =~= old(self)@);
            },
            Some(cell) => {
                let mut cell = cell;
                cell.state.release(access);
                self.cells.insert(resource, cell);
                assert(self@ =~= after_release(old(self)@, resource, access));
            },
        }
    }

    /// Puts `value` in the place of the value of a resource and returns the
    /// value that was there.  The borrow state stays.  Where no resource is
    /// registered under the identifier, nothing changes and `value` comes back
    /// as the error.
    pub(crate) fn swap_value(&mut self, resource: u64, value: V) -> (result: Result<V, V>)
        requires
            old(self).wf(),
        ensures
            final(self).wf(),
            match result {
                Ok(previous) => {
                    &&& old(self)@.contains_key(resource)
                    &&& previous == old(self)@[resource].value
                    &&& final(self)@ == with_value(old(self)@, resource, value)
                },
                Err(given) => {
                    &&& !old(self)@.contains_key(resource)
                    &&& given == value
                    &&& final(self)@ == old(self)@
                },
            },
    {
        match self.cells.remove(&resource) {
            None => {
                assert(self@ =~= old(self)@);
                Err(value)
            },
            Some(cell) => {
                let ResourceCell { value: previous, state } = cell;
                self.cells.insert(resource, ResourceCell { value, state });
                assert(self@ =~= with_value(old(self)@, resource, value));
                Ok(previous)
            },
        }
    }
}

impl<V> Default for Registry<V> {
    /// A registry without resources.
    fn default() -> (registry: Self)
        ensures
            registry.wf(),
            registry@ == Map::<u64, ResourceCell<V>>::empty(),
    {
        Registry::new()
    }
}

} // verus!
