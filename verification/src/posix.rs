//! The calls to the operating system that set up shared memory, as plain values.

use vstd::prelude::*;

verus! {

/// The permission bits of a new object: its owner may read and write it, nobody else
/// may do anything.
pub const OWNER_READ_WRITE: u32 = 0o600;

/// The error number for a name that stands for nothing.
pub const ENOENT: i32 = 2;

/// The error number for a name that stands for something already.
pub const EEXIST: i32 = 17;

/// How an object is opened.
#[derive(Clone, Copy, Debug, PartialEq, Eq, Structural)]
pub struct OpenFlags {
    /// For reading and writing.
    pub read_write: bool,
    /// Make the object if there is none.
    pub create: bool,
    /// Fail if the object is there already.
    pub exclusive: bool,
}

/// What may be done with mapped memory.
#[derive(Clone, Copy, Debug, PartialEq, Eq, Structural)]
pub enum Protection {
    NoAccess,
    ReadWrite,
}

/// What stands behind mapped memory.
#[derive(Clone, Copy, Debug, PartialEq, Eq, Structural)]
pub enum Backing {
    /// Nothing that others see: private anonymous memory.
    Private,
    /// The opened object, shared, from this offset on.
    Object { offset: usize },
}

/// A request to map memory.
#[derive(Clone, Copy, Debug, PartialEq, Eq, Structural)]
pub struct MapRequest {
    /// Exactly here, in place of what is mapped there; or anywhere.
    pub address: Option<usize>,
    pub length: usize,
    pub protection: Protection,
    pub backing: Backing,
}

/// A call to the operating system.
#[derive(Debug)]
pub enum Syscall {
    /// Open the object with this name.
    ShmOpen { path: String, flags: OpenFlags, mode: u32 },
    /// Give the opened object this size.
    Truncate { length: usize },
    /// Map memory.
    Mmap(MapRequest),
    /// Unmap memory.
    Munmap { address: usize, length: usize },
    /// Remove the name of an object.
    ShmUnlink { path: String },
}

/// A call, with names as sequences of characters.
pub enum Call {
    ShmOpen { path: Seq<char>, flags: OpenFlags, mode: u32 },
    Truncate { length: usize },
    Mmap(MapRequest),
    Munmap { address: usize, length: usize },
    ShmUnlink { path: Seq<char> },
}

impl View for Syscall {
    type V = Call;

    open spec fn view(&self) -> Call {
        match *self {
            Syscall::ShmOpen { path, flags, mode } => Call::ShmOpen { path: path@, flags, mode },
            Syscall::Truncate { length } => Call::Truncate { length },
            Syscall::Mmap(request) => Call::Mmap(request),
            Syscall::Munmap { address, length } => Call::Munmap { address, length },
            Syscall::ShmUnlink { path } => Call::ShmUnlink { path: path@ },
        }
    }
}

/// The outcome of a call.
#[derive(Clone, Copy, Debug, PartialEq, Eq, Structural)]
pub enum SysReply {
    /// The object was opened, or has its size.
    Done,
    /// The memory was mapped at this address.
    Mapped { address: usize },
    /// The memory was unmapped; the error number as it stood afterwards.
    Unmapped { errno: i32 },
    /// The call was refused.
    Failed { errno: i32 },
}

} // verus!
