//! Handles to resources, and the accessors that are had from them.

use vstd::prelude::*;
use std::marker::PhantomData;
use crate::borrow::{Access, BorrowState};
use crate::error::AccessError;
use crate::registry::{
    acquire_error,
    after_acquire,
    after_release,
    lemma_release_undoes_acquire,
    with_value,
    Registry,
};

verus! {

/// A shared handle: a cheap reference to the cell of one resource.  It borrows
/// nothing until `get` is called on it.
pub struct Res<T> {
    resource: u64,
    _pd: PhantomData<T>,
}

/// An exclusive handle: a cheap reference to the cell of one resource.  It
/// borrows nothing until `get`, `get_mut` or `replace` is called on it.
pub struct ResMut<T> {
    resource: u64,
    _pd: PhantomData<T>,
}

/// A live shared borrow of one resource.  It lasts until `release`.
pub struct SharedAccess<T> {
    resource: u64,
    _pd: PhantomData<T>,
}

/// A live exclusive borrow of one resource.  It lasts until `release`.
pub struct ExclusiveAccess<T> {
    resource: u64,
    _pd: PhantomData<T>,
}

impl<T> View for Res<T> {
    type V = u64;

    /// The identifier of the resource that the handle refers to.
    closed spec fn view(&self) -> u64 {
        self.resource
    }
}

impl<T> View for ResMut<T> {
    type V = u64;

    /// The identifier of the resource that the handle refers to.
    closed spec fn view(&self) -> u64 {
        self.resource
    }
}

impl<T> View for SharedAccess<T> {
    type V = u64;

    /// The identifier of the borrowed resource.
    closed spec fn view(&self) -> u64 {
        self.resource
    }
}

impl<T> View for ExclusiveAccess<T> {
    type V = u64;

    /// The identifier of the borrowed resource.
    closed spec fn view(&self) -> u64 {
        self.resource
    }
}

impl<T> Clone for Res<T> {
    fn clone(&self) -> (copy: Self)
        ensures
            copy@ == self@,
    {
        Res { resource: self.resource, _pd: PhantomData }
    }
}

impl<T> Clone for ResMut<T> {
    fn clone(&self) -> (copy: Self)
        ensures
            copy@ == self@,
    {
        ResMut { resource: self.resource, _pd: PhantomData }
    }
}

impl<T> Res<T> {
    /// A shared handle to the resource under the identifier.
    pub fn new(resource: u64) -> (handle: Self)
        ensures
            handle@ == resource,
    {
        Res { resource, _pd: PhantomData }
    }

    /// The identifier of the resource that the handle refers to.
    pub fn resource(&self) -> (resource: u64)
        ensures
            resource == self@,
    {
        self.resource
    }

    /// Acquires a shared borrow of the resource.  It succeeds exactly where
    /// the resource is registered and not borrowed exclusively (and the count
    /// of shared borrows still fits); the count then goes up by one.  A refused
    /// request changes nothing and names the resource.
    pub fn get(&self, registry: &mut Registry<T>) -> (result: Result<SharedAccess<T>, AccessError>)
        requires
            old(registry).wf(),
        ensures
            final(registry).wf(),
            final(registry)@ == after_acquire(old(registry)@, self@, Access::Shared),
            match result {
                Ok(accessor) => acquire_error(old(registry)@, self@, Access::Shared) is None
                    && accessor@ == self@,
                Err(error) => acquire_error(old(registry)@, self@, Access::Shared) == Some(error),
            },
    {
        match registry.acquire(self.resource, Access::Shared) {
            Ok(()) => Ok(SharedAccess { resource: self.resource, _pd: PhantomData }),
            Err(error) => Err(error),
        }
    }
}

impl<T> Res<T> {
    /// Reads the resource within a shared borrow that lasts for one call of
    /// `reader`: the borrow is acquired, `reader` is called on the value, and
    /// the borrow is given back.  Where the borrow is refused, `reader` is not
    /// called and nothing changes.
    pub fn read_with<R, F: FnOnce(&T) -> R>(&self, registry: &mut Registry<T>, reader: F) -> (result:
        Result<R, AccessError>)
        requires
            old(registry).wf(),
            acquire_error(old(registry)@, self@, Access::Shared) is None ==> call_requires(
                reader,
                (&old(registry)@[self@].value,),
            ),
        ensures
            final(registry).wf(),
            final(registry)@ == old(registry)@,
            match result {
                Ok(read) => acquire_error(old(registry)@, self@, Access::Shared) is None
                    && call_ensures(reader, (&old(registry)@[self@].value,), read),
                Err(error) => acquire_error(old(registry)@, self@, Access::Shared) == Some(error),
            },
    {
        match registry.acquire(self.resource, Access::Shared) {
            Err(error) => Err(error),
            Ok(()) => {
                let read = match registry.peek(self.resource) {
                    Some(value) => Some(reader(value)),
                    None => None,
                };
                registry.release(self.resource, Access::Shared);
                proof {
                    lemma_release_undoes_acquire(old(registry)@, self@, Access::Shared);
                }
                match read {
                    Some(read) => Ok(read),
                    None => Err(AccessError::MissingResource(self.resource)),
                }
            },
        }
    }
}

impl<T> ResMut<T> {
    /// Changes the resource within an exclusive borrow that lasts for one
    /// call of `writer`: the borrow is acquired, `writer` is called on the
    /// value and what it returns is written in its place, and the borrow is
    /// given back.  Where the borrow is refused, `writer` is not called and
    /// nothing changes.
    pub fn update_with<F: FnOnce(&T) -> T>(&self, registry: &mut Registry<T>, writer: F) -> (result:
        Result<(), AccessError>)
        requires
            old(registry).wf(),
            acquire_error(old(registry)@, self@, Access::Exclusive) is None ==> call_requires(
                writer,
                (&old(registry)@[self@].value,),
            ),
        ensures
            final(registry).wf(),
            match result {
                Ok(()) => {
                    &&& acquire_error(old(registry)@, self@, Access::Exclusive) is None
                    &&& call_ensures(
                        writer,
                        (&old(registry)@[self@].value,),
                        final(registry)@[self@].value,
                    )
                    &&& final(registry)@ == with_value(
                        old(registry)@,
                        self@,
                        final(registry)@[self@].value,
                    )
                },
                Err(error) => {
                    &&& acquire_error(old(registry)@, self@, Access::Exclusive) == Some(error)
                    &&& final(registry)@ == old(registry)@
                },
            },
    {
        match registry.acquire(self.resource, Access::Exclusive) {
            Err(error) => Err(error),
            Ok(()) => {
                let written = match registry.peek(self.resource) {
                    Some(value) => Some(writer(value)),
                    None => None,
                };
                registry.release(self.resource, Access::Exclusive);
                proof {
                    lemma_release_undoes_acquire(old(registry)@, self@, Access::Exclusive);
                }
                match written {
                    Some(value) => {
                        match registry.swap_value(self.resource, value) {
                            Ok(_) => {},
                            Err(_) => {},
                        }
                        proof {
                            assert(registry@ =~= with_value(old(registry)@, self@, value));
                        }
                        Ok(())
                    },
                    None => Err(AccessError::MissingResource(self.resource)),
                }
            },
        }
    }

    /// An exclusive handle to the resource under the identifier.
    pub fn new(resource: u64) -> (handle: Self)
        ensures
            handle@ == resource,
    {
        ResMut { resource, _pd: PhantomData }
    }

    /// The identifier of the resource that the handle refers to.
    pub fn resource(&self) -> (resource: u64)
        ensures
            resource == self@,
    {
        self.resource
    }

    /// Acquires a shared borrow of the resource, as `Res::get` does.
    pub fn get(&self, registry: &mut Registry<T>) -> (result: Result<SharedAccess<T>, AccessError>)
        requires
            old(registry).wf(),
        ensures
            final(registry).wf(),
            final(registry)@ == after_acquire(old(registry)@, self@, Access::Shared),
            match result {
                Ok(accessor) => acquire_error(old(registry)@, self@, Access::Shared) is None
                    && accessor@ == self@,
                Err(error) => acquire_error(old(registry)@, self@, Access::Shared) == Some(error),
            },
    {
        match registry.acquire(self.resource, Access::Shared) {
            Ok(()) => Ok(SharedAccess { resource: self.resource, _pd: PhantomData }),
            Err(error) => Err(error),
        }
    }

    /// Acquires the exclusive borrow of the resource.  It succeeds exactly
    /// where the resource is registered and free; the cell is then exclusive.
    /// A refused request changes nothing and names the resource.
    pub fn get_mut(&self, registry: &mut Registry<T>) -> (result: Result<
        ExclusiveAccess<T>,
        AccessError,
    >)
        requires
            old(registry).wf(),
        ensures
            final(registry).wf(),
            final(registry)@ == after_acquire(old(registry)@, self@, Access::Exclusive),
            match result {
                Ok(accessor) => acquire_error(old(registry)@, self@, Access::Exclusive) is None
                    && accessor@ == self@,
                Err(error) => acquire_error(old(registry)@, self@, Access::Exclusive) == Some(
                    error,
                ),
            },
    {
        match registry.acquire(self.resource, Access::Exclusive) {
            Ok(()) => Ok(ExclusiveAccess { resource: self.resource, _pd: PhantomData }),
            Err(error) => Err(error),
        }
    }

    /// Swaps the value of the resource for `value` and returns the old one,
    /// without leaving a borrow behind.  It asks what `get_mut` asks: the
    /// resource is registered and free.  A refused request changes nothing.
    pub fn replace(&self, registry: &mut Registry<T>, value: T) -> (result: Result<T, AccessError>)
        requires
            old(registry).wf(),
        ensures
            final(registry).wf(),
            match result {
                Ok(previous) => {
                    &&& acquire_error(old(registry)@, self@, Access::Exclusive) is None
                    &&& previous == old(registry)@[self@].value
                    &&& final(registry)@ == with_value(old(registry)@, self@, value)
                },
                Err(error) => {
                    &&& acquire_error(old(registry)@, self@, Access::Exclusive) == Some(error)
                    &&& final(registry)@ == old(registry)@
                },
            },
    {
        match registry.borrow_state(self.resource) {
            None => Err(AccessError::MissingResource(self.resource)),
            Some(state) => {
                if !state.can_acquire(Access::Exclusive) {
                    return Err(AccessError::BorrowConflict(self.resource));
                }
                match registry.swap_value(self.resource, value) {
                    Ok(previous) => Ok(previous),
                    Err(_) => Err(AccessError::MissingResource(self.resource)),
                }
            },
        }
    }
}

impl<T> SharedAccess<T> {
    /// The identifier of the borrowed resource.
    pub fn resource(&self) -> (resource: u64)
        ensures
            resource == self@,
    {
        self.resource
    }

    /// The value of the borrowed resource: `Some` exactly where the resource
    /// is registered and a shared borrow is alive on it.
    pub fn read<'a>(&self, registry: &'a Registry<T>) -> (value: Option<&'a T>)
        ensures
            value == if registry@.contains_key(self@) && registry@[self@].state.holds(
                Access::Shared,
            ) {
                Some(&registry@[self@].value)
            } else {
                None
            },
    {
        match registry.borrow_state(self.resource) {
            Some(BorrowState::Shared(_)) => registry.peek(self.resource),
            _ => None,
        }
    }

    /// Ends the borrow: the count of shared borrows of the resource goes down
    /// by one, and the cell is free when it was the last.
    pub fn release(self, registry: &mut Registry<T>)
        requires
            old(registry).wf(),
        ensures
            final(registry).wf(),
            final(registry)@ == after_release(old(registry)@, self@, Access::Shared),
    {
        registry.release(self.resource, Access::Shared);
    }
}

impl<T> ExclusiveAccess<T> {
    /// The identifier of the borrowed resource.
    pub fn resource(&self) -> (resource: u64)
        ensures
            resource == self@,
    {
        self.resource
    }

    /// The value of the borrowed resource: `Some` exactly where the resource
    /// is registered and the exclusive borrow is alive on it.
    pub fn read<'a>(&self, registry: &'a Registry<T>) -> (value: Option<&'a T>)
        ensures
            value == if registry@.contains_key(self@) && registry@[self@].state.holds(
                Access::Exclusive,
            ) {
                Some(&registry@[self@].value)
            } else {
                None
            },
    {
        match registry.borrow_state(self.resource) {
            Some(BorrowState::Exclusive) => registry.peek(self.resource),
            _ => None,
        }
    }

    /// Writes `value` to the borrowed resource and returns the value that was
    /// there.  It succeeds exactly where the resource is registered and the
    /// exclusive borrow is alive on it; the borrow stays alive.  A refused
    /// write changes nothing.
    pub fn write(&self, registry: &mut Registry<T>, value: T) -> (result: Result<T, AccessError>)
        requires
            old(registry).wf(),
        ensures
            final(registry).wf(),
            match result {
                Ok(previous) => {
                    &&& old(registry)@.contains_key(self@)
                    &&& old(registry)@[self@].state is Exclusive
                    &&& previous == old(registry)@[self@].value
                    &&& final(registry)@ == with_value(old(registry)@, self@, value)
                },
                Err(error) => {
                    &&& final(registry)@ == old(registry)@
                    &&& error == if old(registry)@.contains_key(self@) {
                        AccessError::BorrowConflict(self@)
                    } else {
                        AccessError::MissingResource(self@)
                    }
                    &&& !(old(registry)@.contains_key(self@)
                        && old(registry)@[self@].state is Exclusive)
                },
            },
    {
        match registry.borrow_state(self.resource) {
            None => Err(AccessError::MissingResource(self.resource)),
            Some(BorrowState::Exclusive) => {
                match registry.swap_value(self.resource, value) {
                    Ok(previous) => Ok(previous),
                    Err(_) => Err(AccessError::MissingResource(self.resource)),
                }
            },
            Some(_) => Err(AccessError::BorrowConflict(self.resource)),
        }
    }

    /// Ends the borrow: the cell of the resource is free again.
    pub fn release(self, registry: &mut Registry<T>)
        requires
            old(registry).wf(),
        ensures
            final(registry).wf(),
            final(registry)@ == after_release(old(registry)@, self@, Access::Exclusive),
    {
        registry.release(self.resource, Access::Exclusive);
    }
}

} // verus!
