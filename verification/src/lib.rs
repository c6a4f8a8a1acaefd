//! A resource-oriented system scheduler and the small containers of a game
//! engine built around it.
//!
//! The scheduler owns a registry of resources, each in a cell with an explicit
//! borrow state, and an ordered collection of systems grouped into stages.  A
//! system declares which resources it reads and which it writes; one tick runs
//! every system once, in stage order and, within a stage, in registration order.
//!
//! Resources are identified by number and all have one type of value, `V`; a
//! game with several kinds of resource makes `V` an enum of them.  Borrows
//! are explicit: a handle acquires an accessor from the registry, and the
//! accessor is given back to the registry when it is no longer needed.

pub mod borrow;
pub mod error;
pub mod registry;
pub mod handle;
pub mod stage;
pub mod system;
pub mod wrapper;
pub mod scheduler;
pub mod laws;

pub mod id;
pub mod asset_id;
pub mod asset;
pub mod pool;
pub mod render_cache;
pub mod components;
pub mod scene;
pub mod hierarchy;

pub mod text;
pub mod codec;
pub mod accessor;
