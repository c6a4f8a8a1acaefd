//! The borrow state of a resource cell and its transitions.

use vstd::prelude::*;

verus! {

/// Whether a resource cell is currently lent out, and how.
///
/// The transitions are: `Free` to `Shared(1)` or `Exclusive`; `Shared(n)` to
/// `Shared(n + 1)`, `Shared(n - 1)` or, from `Shared(1)`, `Free`; `Exclusive` to
/// `Free`.
#[derive(Clone, Copy, Debug, PartialEq, Eq, Structural)]
pub enum BorrowState {
    /// Nobody holds an accessor.
    Free,
    /// This many shared accessors are alive; never zero.
    Shared(usize),
    /// One exclusive accessor is alive.
    Exclusive,
}

/// The access mode a handle or a declared parameter asks for.
#[derive(Clone, Copy, Debug, PartialEq, Eq, Structural)]
pub enum Access {
    /// Read-only access, which any number of holders may have at once.
    Shared,
    /// Read and write access, which excludes every other holder.
    Exclusive,
}

impl BorrowState {
    /// A shared count is never zero.
    pub open spec fn wf(self) -> bool {
        self matches BorrowState::Shared(n) ==> n >= 1
    }

    /// Whether one more accessor of the given mode may be handed out.
    pub open spec fn admits(self, access: Access) -> bool {
        match access {
            Access::Shared => match self {
                BorrowState::Free => true,
                BorrowState::Shared(n) => n < usize::MAX,
                BorrowState::Exclusive => false,
            },
            Access::Exclusive => self is Free,
        }
    }

    /// The state after one more accessor of the given mode was handed out.
    /// Meaningful where `admits(access)` holds; elsewhere the state stays.
    pub open spec fn acquired(self, access: Access) -> BorrowState {
        if !self.admits(access) {
            self
        } else {
            match access {
                Access::Shared => match self {
                    BorrowState::Shared(n) => BorrowState::Shared((n + 1) as usize),
                    _ => BorrowState::Shared(1),
                },
                Access::Exclusive => BorrowState::Exclusive,
            }
        }
    }

    /// The state after an accessor of the given mode was given back.  A state
    /// that holds no accessor of that mode stays as it is.
    pub open spec fn released(self, access: Access) -> BorrowState {
        match access {
            Access::Shared => match self {
                BorrowState::Shared(n) => if n <= 1 {
                    BorrowState::Free
                } else {
                    BorrowState::Shared((n - 1) as usize)
                },
                _ => self,
            },
            Access::Exclusive => match self {
                BorrowState::Exclusive => BorrowState::Free,
                _ => self,
            },
        }
    }

    /// Whether an accessor of the given mode is alive in this state.
    pub open spec fn holds(self, access: Access) -> bool {
        match access {
            Access::Shared => self is Shared,
            Access::Exclusive => self is Exclusive,
        }
    }

    /// Tells whether one more accessor of the given mode may be handed out.
    pub fn can_acquire(&self, access: Access) -> (ok: bool)
        ensures
            ok == self.admits(access),
    {
        match access {
            Access::Shared => match self {
                BorrowState::Free => true,
                BorrowState::Shared(n) => *n < usize::MAX,
                BorrowState::Exclusive => false,
            },
            Access::Exclusive => match self {
                BorrowState::Free => true,
                _ => false,
            },
        }
    }

    /// Hands out one more accessor of the given mode if the state admits it,
    /// and says whether it did.  A refused request leaves the state alone.
    pub fn try_acquire(&mut self, access: Access) -> (ok: bool)
        requires
            old(self).wf(),
        ensures
            final(self).wf(),
            ok == old(self).admits(access),
            *final(self) == old(self).acquired(access),
            !ok ==> *final(self) == *old(self),
    {
        if !self.can_acquire(access) {
            return false;
        }
        match access {
            Access::Shared => {
                let next = match self {
                    BorrowState::Shared(n) => *n + 1,
                    _ => 1,
                };
                *self = BorrowState::Shared(next);
            },
            Access::Exclusive => {
                *self = BorrowState::Exclusive;
            },
        }
        true
    }

    /// Takes back one accessor of the given mode.  Where none is alive the
    /// state is left as it is.
    pub fn release(&mut self, access: Access)
        requires
            old(self).wf(),
        ensures
            final(self).wf(),
            *final(self) == old(self).released(access),
    {
        match access {
            Access::Shared => {
                let next = match self {
                    BorrowState::Shared(n) => if *n <= 1 {
                        BorrowState::Free
                    } else {
                        BorrowState::Shared(*n - 1)
                    },
                    BorrowState::Free => BorrowState::Free,
                    BorrowState::Exclusive => BorrowState::Exclusive,
                };
                *self = next;
            },
            Access::Exclusive => {
                let next = match self {
                    BorrowState::Exclusive => BorrowState::Free,
                    BorrowState::Free => BorrowState::Free,
                    BorrowState::Shared(n) => BorrowState::Shared(*n),
                };
                *self = next;
            },
        }
    }
}

} // verus!
