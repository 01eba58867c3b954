//! Locks and queues for processes that share memory.
//!
//! The library decides; it performs no call to the operating system and holds no
//! lock. Whatever needs the outside world is a value that names the next action and
//! is told the action's outcome: the setup of a segment ([`setup`]), the making and
//! the use of a queue ([`zoosync_core::queue`]), the acquisition of a lock
//! ([`acquire`]) and the attachment to a named segment ([`attach`]).
//!
//! What is promised of all of it stands next to it as proofs: of the address space
//! in [`address_space`], of the names of objects in [`names`], of the circular buffer
//! in [`ring`], of the messages in [`zoosync_core::messages`], of what an operation
//! does to the memory in [`zoosync_core::operations`], of several callers in
//! [`zoosync_core::callers`], of the course of an operation in
//! [`zoosync_core::protocol`] and of who owns a lock in [`acquire`].
pub mod acquire;
pub mod address_space;
pub mod attach;
pub mod errno;
pub mod frame;
pub mod names;
pub mod path;
pub mod posix;
pub mod pyerr;
pub mod ring;
pub mod setup;
pub mod sync;
pub mod text;
pub mod zooparallel_core;
pub mod zoosync_core;
