//! The lock and the byte queue.
pub mod callers;
pub mod lock;
pub mod messages;
pub mod operations;
pub mod protocol;
pub mod queue;
pub mod shm;
