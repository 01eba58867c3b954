//! Setting up a shared memory segment, call by call.
//!
//! A segment is either one mapping of an object, or a mirrored one: a header
//! followed by a data area that is mapped twice in a row, so that a block that runs
//! over the end of the data area continues at its start. The mirrored kind reserves
//! its whole address range first and maps the parts over the reservation; when a
//! part cannot be mapped, the whole range is given back.

use crate::posix::{
    Backing, Call, MapRequest, OpenFlags, Protection, SysReply, Syscall, OWNER_READ_WRITE,
};
use vstd::prelude::*;

verus! {

/// The shape of a segment.
#[derive(Clone, Copy, Debug, PartialEq, Eq, Structural)]
pub enum Layout {
    Single { size: usize },
    Mirrored { header_size: usize, data_size: usize },
}

impl Layout {
    /// The size of the part that is mapped once: all of a segment that is not mirrored.
    pub open spec fn once(self) -> int {
        match self {
            Layout::Single { size } => size as int,
            Layout::Mirrored { header_size, .. } => header_size as int,
        }
    }

    /// The size of the part that is mapped twice.
    pub open spec fn twice(self) -> int {
        match self {
            Layout::Single { .. } => 0,
            Layout::Mirrored { data_size, .. } => data_size as int,
        }
    }

    /// The size of the object behind the segment.
    pub open spec fn object_size(self) -> int {
        self.once() + self.twice()
    }

    /// The size of the segment in memory.
    pub open spec fn mapped_size(self) -> int {
        self.once() + 2 * self.twice()
    }

    /// Whether memory can be asked for: its size can be represented, and a segment
    /// that is not mirrored is not empty.
    pub open spec fn mappable(self) -> bool {
        &&& self.mapped_size() <= usize::MAX
        &&& self is Single ==> self.mapped_size() > 0
    }

    fn sizes(self) -> (sizes: (usize, usize))
        ensures
            sizes.0 == self.once(),
            sizes.1 == self.twice(),
    {
        match self {
            Layout::Single { size } => (size, 0),
            Layout::Mirrored { header_size, data_size } => (header_size, data_size),
        }
    }
}

/// How far the setup of a segment has come.
#[derive(Clone, Copy, Debug, PartialEq, Eq, Structural)]
pub enum Stage {
    Open,
    Truncate,
    MapWhole,
    Reserve,
    MapHeader { base: usize },
    MapData { base: usize },
    MapMirror { base: usize },
    Rollback { base: usize },
}

/// A segment that is being set up.
#[derive(Debug)]
pub struct SegmentSetup {
    pub path: String,
    pub create: bool,
    pub layout: Layout,
    pub stage: Stage,
}

/// How a setup ended.
#[derive(Clone, Copy, Debug, PartialEq, Eq, Structural)]
pub enum Outcome {
    /// The segment lies in memory.
    Mapped { ptr: usize, size: usize },
    /// There is no segment; the error number tells why.
    Failed { errno: i32 },
}

/// What an outcome of a call leads to.
#[derive(Debug)]
pub enum Progress {
    Pending(SegmentSetup),
    Finished(Outcome),
}

/// A request to map `length` bytes of the opened object, from `offset` on, for
/// reading and writing.
pub open spec fn shared(address: Option<usize>, length: int, offset: int) -> Call {
    Call::Mmap(
        MapRequest {
            address,
            length: length as usize,
            protection: Protection::ReadWrite,
            backing: Backing::Object { offset: offset as usize },
        },
    )
}

fn map_shared(address: Option<usize>, length: usize, offset: usize) -> (call: Syscall)
    ensures
        call@ == shared(address, length as int, offset as int),
{
    Syscall::Mmap(
        MapRequest {
            address,
            length,
            protection: Protection::ReadWrite,
            backing: Backing::Object { offset },
        },
    )
}

impl SegmentSetup {
    /// A setup before its first call.
    pub open spec fn is_fresh(self, path: Seq<char>, layout: Layout, create: bool) -> bool {
        &&& self.path@ == path
        &&& self.layout == layout
        &&& self.create == create
        &&& self.stage == Stage::Open
    }

    /// The stage suits the layout, and the sizes and addresses that the stage needs
    /// can be represented.
    pub open spec fn wf(self) -> bool {
        match self.stage {
            Stage::Open => true,
            Stage::Truncate => self.create && self.layout.object_size() <= usize::MAX,
            Stage::MapWhole => self.layout is Single && self.layout.mapped_size() > 0,
            Stage::Reserve => self.layout is Mirrored && self.layout.mapped_size() <= usize::MAX,
            Stage::MapHeader { base } | Stage::MapData { base } | Stage::MapMirror { base }
            | Stage::Rollback { base } => {
                &&& self.layout is Mirrored
                &&& base > 0
                &&& base + self.layout.mapped_size() <= usize::MAX
            },
        }
    }

    /// The call that is due.
    pub open spec fn call(self) -> Call {
        let once = self.layout.once();
        let twice = self.layout.twice();
        match self.stage {
            Stage::Open => Call::ShmOpen {
                path: self.path@,
                flags: OpenFlags { read_write: true, create: self.create, exclusive: self.create },
                mode: OWNER_READ_WRITE,
            },
            Stage::Truncate => Call::Truncate { length: (once + twice) as usize },
            Stage::MapWhole => shared(None, once, 0),
            Stage::Reserve => Call::Mmap(
                MapRequest {
                    address: None,
                    length: (once + 2 * twice) as usize,
                    protection: Protection::NoAccess,
                    backing: Backing::Private,
                },
            ),
            Stage::MapHeader { base } => shared(Some(base), once, 0),
            Stage::MapData { base } => shared(Some((base + once) as usize), twice, once),
            Stage::MapMirror { base } => shared(Some((base + once + twice) as usize), twice, once),
            Stage::Rollback { base } => Call::Munmap {
                address: base,
                length: (once + 2 * twice) as usize,
            },
        }
    }

    /// Whether the reply is one to the call that is due, the sizes and addresses that
    /// the next stage needs can be represented, and it asks for no empty mapping of a
    /// whole object.
    pub open spec fn expects(self, reply: SysReply) -> bool {
        match (self.stage, reply) {
            (_, SysReply::Failed { .. }) => true,
            (Stage::Rollback { .. }, SysReply::Unmapped { .. }) => true,
            (Stage::Open, SysReply::Done) => if self.create {
                self.layout.object_size() <= usize::MAX
            } else {
                self.layout.mappable()
            },
            (Stage::Truncate, SysReply::Done) => self.layout.mappable(),
            (Stage::MapWhole, SysReply::Mapped { address }) => address > 0,
            (Stage::Reserve, SysReply::Mapped { address }) => {
                &&& address > 0
                &&& address + self.layout.mapped_size() <= usize::MAX
            },
            (Stage::MapHeader { .. }, SysReply::Mapped { .. }) => true,
            (Stage::MapData { .. }, SysReply::Mapped { .. }) => true,
            (Stage::MapMirror { .. }, SysReply::Mapped { .. }) => true,
            _ => false,
        }
    }

    /// The stage that maps the first memory.
    pub open spec fn first_map(layout: Layout) -> Stage {
        match layout {
            Layout::Single { .. } => Stage::MapWhole,
            Layout::Mirrored { .. } => Stage::Reserve,
        }
    }

    /// This setup, at another stage.
    pub open spec fn at_stage(self, stage: Stage) -> Progress {
        Progress::Pending(SegmentSetup { stage, ..self })
    }

    /// What a reply leads to.
    pub open spec fn next(self, reply: SysReply) -> Progress {
        let first_map = Self::first_map(self.layout);
        let size = self.layout.mapped_size() as usize;
        match (self.stage, reply) {
            (_, SysReply::Unmapped { errno }) => Progress::Finished(Outcome::Failed { errno }),
            (Stage::MapHeader { base }, SysReply::Failed { .. })
            | (Stage::MapData { base }, SysReply::Failed { .. })
            | (Stage::MapMirror { base }, SysReply::Failed { .. }) => self.at_stage(
                Stage::Rollback { base },
            ),
            (_, SysReply::Failed { errno }) => Progress::Finished(Outcome::Failed { errno }),
            (Stage::Open, _) => self.at_stage(
                if self.create {
                    Stage::Truncate
                } else {
                    first_map
                },
            ),
            (Stage::Truncate, _) => self.at_stage(first_map),
            (Stage::MapWhole, SysReply::Mapped { address }) => Progress::Finished(
                Outcome::Mapped { ptr: address, size },
            ),
            (Stage::Reserve, SysReply::Mapped { address }) => self.at_stage(
                Stage::MapHeader { base: address },
            ),
            (Stage::MapHeader { base }, _) => self.at_stage(Stage::MapData { base }),
            (Stage::MapData { base }, _) => self.at_stage(Stage::MapMirror { base }),
            (Stage::MapMirror { base }, _) => Progress::Finished(
                Outcome::Mapped { ptr: base, size },
            ),
            _ => Progress::Pending(self),
        }
    }

    /// Begins the setup of a segment over the object with this name.
    pub fn begin(path: String, layout: Layout, create: bool) -> (setup: SegmentSetup)
        ensures
            setup.is_fresh(path@, layout, create),
            setup.wf(),
    {
        SegmentSetup { path, create, layout, stage: Stage::Open }
    }

    /// The call that is due.
    pub fn syscall(&self) -> (call: Syscall)
        requires
            self.wf(),
        ensures
            call@ == self.call(),
    {
        let (once, twice) = self.layout.sizes();
        match self.stage {
            Stage::Open => Syscall::ShmOpen {
                path: self.path.clone(),
                flags: OpenFlags { read_write: true, create: self.create, exclusive: self.create },
                mode: OWNER_READ_WRITE,
            },
            Stage::Truncate => Syscall::Truncate { length: once + twice },
            Stage::MapWhole => map_shared(None, once, 0),
            Stage::Reserve => Syscall::Mmap(
                MapRequest {
                    address: None,
                    length: once + 2 * twice,
                    protection: Protection::NoAccess,
                    backing: Backing::Private,
                },
            ),
            Stage::MapHeader { base } => map_shared(Some(base), once, 0),
            Stage::MapData { base } => map_shared(Some(base + once), twice, once),
            Stage::MapMirror { base } => map_shared(Some(base + once + twice), twice, once),
            Stage::Rollback { base } => Syscall::Munmap {
                address: base,
                length: once + 2 * twice,
            },
        }
    }

    /// Whether the setup can move on after this reply.
    pub fn accepts(&self, reply: SysReply) -> (accepted: bool)
        ensures
            accepted == self.expects(reply),
    {
        let (once, twice) = self.layout.sizes();
        let object_fits = once <= usize::MAX - twice;
        let mapped_fits = object_fits && once + twice <= usize::MAX - twice;
        let mappable = match self.layout {
            Layout::Single { size } => size > 0,
            Layout::Mirrored { .. } => mapped_fits,
        };
        match (self.stage, reply) {
            (_, SysReply::Failed { .. }) => true,
            (Stage::Rollback { .. }, SysReply::Unmapped { .. }) => true,
            (Stage::Open, SysReply::Done) => if self.create {
                object_fits
            } else {
                mappable
            },
            (Stage::Truncate, SysReply::Done) => mappable,
            (Stage::MapWhole, SysReply::Mapped { address }) => address > 0,
            (Stage::Reserve, SysReply::Mapped { address }) => address > 0 && mapped_fits && address
                <= usize::MAX - (once + 2 * twice),
            (Stage::MapHeader { .. }, SysReply::Mapped { .. }) => true,
            (Stage::MapData { .. }, SysReply::Mapped { .. }) => true,
            (Stage::MapMirror { .. }, SysReply::Mapped { .. }) => true,
            _ => false,
        }
    }

    /// Moves on after a reply.
    pub fn advance(self, reply: SysReply) -> (progress: Progress)
        requires
            self.wf(),
            self.expects(reply),
        ensures
            progress == self.next(reply),
            progress matches Progress::Pending(setup) ==> setup.wf(),
            progress matches Progress::Finished(Outcome::Mapped { ptr, size }) ==> ptr > 0 && (
            self.layout is Single ==> size > 0),
    {
        let (once, twice) = self.layout.sizes();
        let first_map = match self.layout {
            Layout::Single { .. } => Stage::MapWhole,
            Layout::Mirrored { .. } => Stage::Reserve,
        };
        let stage = match (self.stage, reply) {
            (_, SysReply::Unmapped { errno }) => {
                return Progress::Finished(Outcome::Failed { errno });
            },
            (Stage::MapHeader { base }, SysReply::Failed { .. }) => Stage::Rollback { base },
            (Stage::MapData { base }, SysReply::Failed { .. }) => Stage::Rollback { base },
            (Stage::MapMirror { base }, SysReply::Failed { .. }) => Stage::Rollback { base },
            (_, SysReply::Failed { errno }) => {
                return Progress::Finished(Outcome::Failed { errno });
            },
            (Stage::Open, _) => if self.create {
                Stage::Truncate
            } else {
                first_map
            },
            (Stage::Truncate, _) => first_map,
            (Stage::MapWhole, SysReply::Mapped { address }) => {
                return Progress::Finished(
                    Outcome::Mapped { ptr: address, size: once + 2 * twice },
                );
            },
            (Stage::Reserve, SysReply::Mapped { address }) => Stage::MapHeader { base: address },
            (Stage::MapHeader { base }, _) => Stage::MapData { base },
            (Stage::MapData { base }, _) => Stage::MapMirror { base },
            (Stage::MapMirror { base }, _) => {
                return Progress::Finished(
                    Outcome::Mapped { ptr: base, size: once + 2 * twice },
                );
            },
            (other, _) => other,
        };
        Progress::Pending(
            SegmentSetup { path: self.path, create: self.create, layout: self.layout, stage },
        )
    }
}

/// A new setup is for the object of the given name, in the given shape, and begins by
/// opening it. It can always be asked for its call.
pub proof fn setups_begin_with_what_is_asked_for(
    path: String,
    layout: Layout,
    create: bool,
    setup: SegmentSetup,
)
    requires
        call_ensures(SegmentSetup::begin, (path, layout, create), setup),
    ensures
        setup.path@ == path@,
        setup.layout == layout,
        setup.create == create,
        setup.stage is Open,
        call_requires(SegmentSetup::syscall, (&setup,)),
{
}

/// The first call opens the object of the setup's name for reading and writing. If the
/// object is to be made, it is made exclusively, and for its owner alone, who may read
/// and write it.
pub proof fn objects_are_opened_for_their_owner(setup: SegmentSetup, call: Syscall)
    requires
        setup.stage is Open,
        call_ensures(SegmentSetup::syscall, (&setup,), call),
    ensures
        call matches Syscall::ShmOpen { path, flags, mode } && {
            &&& path@ == setup.path@
            &&& flags.read_write
            &&& flags.create == setup.create
            &&& flags.exclusive == setup.create
            &&& mode as int / 0o100 == 6
            &&& mode as int % 0o100 == 0
        },
{
}

/// A new object gets the size of the segment, where the data area of a mirrored one
/// counts once.
pub proof fn objects_get_their_size(setup: SegmentSetup, call: Syscall)
    requires
        setup.wf(),
        setup.stage is Truncate,
        call_ensures(SegmentSetup::syscall, (&setup,), call),
    ensures
        call matches Syscall::Truncate { length } && length == match setup.layout {
            Layout::Single { size } => size as int,
            Layout::Mirrored { header_size, data_size } => header_size + data_size,
        },
{
}

/// A plain segment is mapped in one piece, wherever there is room, to be read and
/// written; a mirrored one begins with a reservation of all that it needs, which nobody
/// can access.
pub proof fn first_mapping_covers_the_segment(setup: SegmentSetup, call: Syscall)
    requires
        setup.wf(),
        setup.stage is MapWhole || setup.stage is Reserve,
        call_ensures(SegmentSetup::syscall, (&setup,), call),
    ensures
        call matches Syscall::Mmap(request) && {
            &&& request.address is None
            &&& match setup.layout {
                Layout::Single { size } => {
                    &&& request.length == size
                    &&& request.protection is ReadWrite
                    &&& request.backing == (Backing::Object { offset: 0 })
                },
                Layout::Mirrored { header_size, data_size } => {
                    &&& request.length == header_size + data_size + data_size
                    &&& request.protection is NoAccess
                    &&& request.backing is Private
                },
            }
        },
{
}

/// The parts of a mirrored segment follow each other from the start of the reservation
/// on, to be read and written: the header, the data area behind it, and once more the
/// same data area. If one of them cannot be mapped, all of the reservation is given back.
pub proof fn parts_follow_each_other(
    setup: SegmentSetup,
    call: Syscall,
    header_size: usize,
    data_size: usize,
)
    requires
        setup.wf(),
        setup.layout == (Layout::Mirrored { header_size, data_size }),
        call_ensures(SegmentSetup::syscall, (&setup,), call),
    ensures
        match setup.stage {
            Stage::MapHeader { base } => call matches Syscall::Mmap(request) && {
                &&& request.address matches Some(address) && address == base
                &&& request.length == header_size
                &&& request.protection is ReadWrite
                &&& request.backing matches Backing::Object { offset } && offset == 0
            },
            Stage::MapData { base } => call matches Syscall::Mmap(request) && {
                &&& request.address matches Some(address) && address == base + header_size
                &&& request.length == data_size
                &&& request.protection is ReadWrite
                &&& request.backing matches Backing::Object { offset } && offset == header_size
            },
            Stage::MapMirror { base } => call matches Syscall::Mmap(request) && {
                &&& request.address matches Some(address) && address == base + header_size
                    + data_size
                &&& request.length == data_size
                &&& request.protection is ReadWrite
                &&& request.backing matches Backing::Object { offset } && offset == header_size
            },
            Stage::Rollback { base } => call matches Syscall::Munmap { address, length } && {
                &&& address == base
                &&& length == header_size + data_size + data_size
            },
            _ => true,
        },
{
}

/// A refusal ends a setup at once, with the error number of the refusal, as long as
/// nothing is mapped; later it leads to the unmapping, with whose outcome the setup ends.
pub proof fn refusals_end_the_setup(setup: SegmentSetup, errno: i32, progress: Progress)
    requires
        setup.wf(),
    ensures
        call_ensures(SegmentSetup::advance, (setup, SysReply::Failed { errno }), progress)
            ==> match setup.stage {
            Stage::MapHeader { base } | Stage::MapData { base } | Stage::MapMirror { base } => {
                progress matches Progress::Pending(next) && {
                    &&& next.stage == (Stage::Rollback { base })
                    &&& next.layout == setup.layout
                }
            },
            _ => progress matches Progress::Finished(Outcome::Failed { errno: reported })
                && reported == errno,
        },
        setup.stage is Rollback && call_ensures(
            SegmentSetup::advance,
            (setup, SysReply::Unmapped { errno }),
            progress,
        ) ==> (progress matches Progress::Finished(Outcome::Failed { errno: reported }) && reported
            == errno),
{
}

/// A granted call leads on: an object that is to be made is opened, then sized, then
/// mapped; one that is there is opened and mapped. A plain segment lies where it was
/// mapped; a mirrored one lies where its memory was reserved, once the header, the data
/// area and the mirror are mapped, in that order.
pub proof fn granted_calls_lead_on(setup: SegmentSetup, reply: SysReply, progress: Progress)
    requires
        setup.wf(),
        setup.expects(reply),
        reply is Done || reply is Mapped,
        call_ensures(SegmentSetup::advance, (setup, reply), progress),
    ensures
        match (setup.stage, setup.layout) {
            (Stage::MapWhole, Layout::Single { size }) => progress matches Progress::Finished(
                Outcome::Mapped { ptr, size: reported },
            ) && reply == (SysReply::Mapped { address: ptr }) && reported == size,
            (Stage::MapMirror { base }, Layout::Mirrored { header_size, data_size }) => {
                progress matches Progress::Finished(Outcome::Mapped { ptr, size }) && ptr == base
                    && size == header_size + data_size + data_size
            },
            _ => progress matches Progress::Pending(next) && {
                &&& next.path == setup.path
                &&& next.layout == setup.layout
                &&& next.create == setup.create
                &&& call_requires(SegmentSetup::syscall, (&next,))
                &&& match (setup.stage, reply) {
                    (Stage::Open, _) => if setup.create {
                        next.stage is Truncate
                    } else {
                        if setup.layout is Single {
                            next.stage is MapWhole
                        } else {
                            next.stage is Reserve
                        }
                    },
                    (Stage::Truncate, _) => if setup.layout is Single {
                        next.stage is MapWhole
                    } else {
                        next.stage is Reserve
                    },
                    (Stage::Reserve, SysReply::Mapped { address }) => next.stage
                        == (Stage::MapHeader { base: address }),
                    (Stage::MapHeader { base }, _) => next.stage == (Stage::MapData { base }),
                    (Stage::MapData { base }, _) => next.stage == (Stage::MapMirror { base }),
                    _ => false,
                }
            },
        },
{
}

/// What a setup does is what its model says, and whatever can be accepted can be told.
pub proof fn setups_follow_their_model(
    setup: SegmentSetup,
    call: Syscall,
    reply: SysReply,
    accepted: bool,
    progress: Progress,
)
    requires
        setup.wf(),
        call_ensures(SegmentSetup::syscall, (&setup,), call),
        call_ensures(SegmentSetup::accepts, (&setup, reply), accepted),
        call_ensures(SegmentSetup::advance, (setup, reply), progress),
    ensures
        call@ == setup.call(),
        accepted == setup.expects(reply),
        accepted ==> call_requires(SegmentSetup::advance, (setup, reply)),
        progress == setup.next(reply),
{
}

/// Which replies are accepted: a granted open, unless the sizes overflow or there is
/// nothing to map in one piece; and then any address that is not zero and leaves room
/// for the segment.
pub proof fn replies_are_accepted_where_sizes_fit(
    setup: SegmentSetup,
    done: bool,
    address: usize,
    mapped: bool,
)
    requires
        call_ensures(SegmentSetup::accepts, (&setup, SysReply::Done), done),
        call_ensures(SegmentSetup::accepts, (&setup, SysReply::Mapped { address }), mapped),
    ensures
        done <==> match (setup.stage, setup.layout) {
            (Stage::Open, Layout::Single { size }) => setup.create || size > 0,
            (Stage::Truncate, Layout::Single { size }) => size > 0,
            (Stage::Open, Layout::Mirrored { header_size, data_size }) => if setup.create {
                header_size + data_size <= usize::MAX
            } else {
                header_size + data_size + data_size <= usize::MAX
            },
            (Stage::Truncate, Layout::Mirrored { header_size, data_size }) => header_size
                + data_size + data_size <= usize::MAX,
            _ => false,
        },
        mapped <==> match (setup.stage, setup.layout) {
            (Stage::MapWhole, _) => address > 0,
            (Stage::Reserve, Layout::Single { size }) => address > 0 && address + size
                <= usize::MAX,
            (Stage::Reserve, Layout::Mirrored { header_size, data_size }) => address > 0 && address
                + header_size + data_size + data_size <= usize::MAX,
            (Stage::MapHeader { .. }, _) | (Stage::MapData { .. }, _) | (
                Stage::MapMirror { .. },
                _,
            ) => true,
            _ => false,
        },
{
}

} // verus!
