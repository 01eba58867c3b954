//! The lock, and the queue whose messages can be viewed in place.
pub mod lock;
pub mod module;
pub mod queue;
pub mod shm;
pub mod view;
