//! A pool of objects that are found again by handle.

use vstd::prelude::*;
use std::marker::PhantomData;

verus! {

/// Names one object of a pool: its position and the generation it was added
/// in.
#[derive(Debug)]
pub struct Handle<T> {
    /// The position of the object in the pool.
    pub index: usize,
    /// The generation of the object.
    pub generation: usize,
    /// The kind of object that the handle names.
    pub _pd: PhantomData<T>,
}

impl<T> Handle<T> {
    /// Whether this is the handle that names no object.
    pub open spec fn is_empty(&self) -> bool {
        self.index == usize::MAX && self.generation == usize::MAX
    }

    /// The handle that names no object: position and generation are both
    /// the largest number.
    pub fn empty() -> (handle: Handle<T>)
        ensures
            handle.index == usize::MAX,
            handle.generation == usize::MAX,
            handle.is_empty(),
    {
        Handle { index: usize::MAX, generation: usize::MAX, _pd: PhantomData }
    }
}

impl<T> Default for Handle<T> {
    /// The handle that names no object.
    fn default() -> (handle: Handle<T>)
        ensures
            handle.index == usize::MAX,
            handle.generation == usize::MAX,
    {
        Handle::empty()
    }
}

impl<T> Clone for Handle<T> {
    fn clone(&self) -> (copy: Handle<T>)
        ensures
            copy.index == self.index,
            copy.generation == self.generation,
    {
        Handle { index: self.index, generation: self.generation, _pd: PhantomData }
    }
}

impl<T> Copy for Handle<T> {

}

/// Objects that are added once and found again by the handle that `add`
/// returned.
#[derive(Debug)]
pub struct Pool<T> {
    objects: Vec<T>,
    generations: Vec<usize>,
}

impl<T> Pool<T> {
    /// The objects of the pool, in the order of their positions.
    pub closed spec fn objects(&self) -> Seq<T> {
        self.objects@
    }

    /// The generation of the object at each position.
    pub closed spec fn generations(&self) -> Seq<usize> {
        self.generations@
    }

    /// Each object has a generation.
    pub open spec fn wf(&self) -> bool {
        self.objects().len() == self.generations().len()
    }

    /// Whether a handle names an object of the pool: its position holds an
    /// object of its generation.
    pub open spec fn names(&self, handle: Handle<T>) -> bool {
        handle.index < self.objects().len() && handle.generation == self.generations()[handle.index as int]
    }

    /// A pool without objects.
    pub fn new() -> (pool: Pool<T>)
        ensures
            pool.wf(),
            pool.objects() == Seq::<T>::empty(),
            pool.generations() == Seq::<usize>::empty(),
    {
        Pool { objects: Vec::new(), generations: Vec::new() }
    }

    /// Adds an object behind the others, in generation 0, and returns the
    /// handle that names it.
    pub fn add(&mut self, object: T) -> (handle: Handle<T>)
        requires
            old(self).wf(),
        ensures
            final(self).wf(),
            final(self).objects() == old(self).objects().push(object),
            final(self).generations() == old(self).generations().push(0),
            handle.index == old(self).objects().len(),
            handle.generation == 0,
            final(self).names(handle),
    {
        let index = self.objects.len();
        self.objects.push(object);
        self.generations.push(0);
        Handle { index, generation: 0, _pd: PhantomData }
    }

    /// The object that a handle names, or `None` where it names none.
    pub fn get(&self, handle: &Handle<T>) -> (object: Option<&T>)
        requires
            self.wf(),
        ensures
            object == if self.names(*handle) {
                Some(&self.objects()[handle.index as int])
            } else {
                None
            },
    {
        if handle.index < self.objects.len() && handle.generation == self.generations[handle.index] {
            Some(&self.objects[handle.index])
        } else {
            None
        }
    }

    /// The object that a handle names, to be changed in place, or `None`
    /// where it names none.  Nothing else of the pool changes.
    pub fn get_mut(&mut self, handle: &Handle<T>) -> (object: Option<&mut T>)
        requires
            old(self).wf(),
        ensures
            final(self).wf(),
            final(self).generations() == old(self).generations(),
            match object {
                Some(place) => {
                    &&& old(self).names(*handle)
                    &&& *place == old(self).objects()[handle.index as int]
                    &&& final(self).objects() == old(self).objects().update(
                        handle.index as int,
                        *final(place),
                    )
                },
                None => !old(self).names(*handle) && final(self).objects() == old(self).objects(),
            },
    {
        if handle.index < self.objects.len() && handle.generation == self.generations[handle.index] {
            Some(&mut self.objects[handle.index])
        } else {
            None
        }
    }
}

impl<T> Default for Pool<T> {
    /// A pool without objects.
    fn default() -> (pool: Pool<T>)
        ensures
            pool.wf(),
            pool.objects() == Seq::<T>::empty(),
    {
        Pool::new()
    }
}

} // verus!
