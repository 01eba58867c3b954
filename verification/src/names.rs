//! What setups and removals do to the names of shared memory objects and to the
//! objects, in a system that answers as the names say.

use crate::address_space::{load, segment_at, store, Memory};
use crate::posix::{Call, SysReply, EEXIST, ENOENT};
use crate::setup::{Layout, Outcome, Progress, SegmentSetup, Stage};
use vstd::prelude::*;

verus! {

/// The objects of a system, each under a number of its own, and the names that stand
/// for them. An object without a name lives on as long as it is mapped.
pub struct System {
    pub names: Map<Seq<char>, nat>,
    pub objects: Map<nat, Seq<u8>>,
    pub next: nat,
}

/// Bytes cut off, or continued with zeros, at a length.
pub open spec fn resized(bytes: Seq<u8>, length: nat) -> Seq<u8> {
    Seq::new(
        length,
        |i: int|
            if i < bytes.len() {
                bytes[i]
            } else {
                0u8
            },
    )
}

impl System {
    /// Every name stands for an object, and the next number is unused.
    pub open spec fn wf(self) -> bool {
        &&& forall|path: Seq<char>| #[trigger]
            self.names.dom().contains(path) ==> self.objects.dom().contains(self.names[path])
        &&& forall|id: nat| #[trigger] self.objects.dom().contains(id) ==> id < self.next
    }

    /// With a new, empty object of this name.
    pub open spec fn with_new(self, path: Seq<char>) -> System {
        System {
            names: self.names.insert(path, self.next),
            objects: self.objects.insert(self.next, Seq::empty()),
            next: self.next + 1,
        }
    }

    /// With an object that has these bytes.
    pub open spec fn with_bytes(self, id: nat, bytes: Seq<u8>) -> System {
        System { objects: self.objects.insert(id, bytes), ..self }
    }

    /// Without the name. The object stays.
    pub open spec fn without_name(self, path: Seq<char>) -> System {
        System { names: self.names.remove(path), ..self }
    }

    /// Whether this can be the reply to the call. A name that stands for something is
    /// not made again exclusively, and one that stands for nothing is neither opened
    /// without making it nor removed; what the names allow may still be refused.
    pub open spec fn answers(self, call: Call, reply: SysReply) -> bool {
        match call {
            Call::ShmOpen { path, flags, .. } => {
                let bound = self.names.dom().contains(path);
                if bound && flags.create && flags.exclusive {
                    reply == SysReply::Failed { errno: EEXIST }
                } else if !bound && !flags.create {
                    reply == SysReply::Failed { errno: ENOENT }
                } else {
                    reply is Done || reply is Failed
                }
            },
            Call::ShmUnlink { path } => if self.names.dom().contains(path) {
                reply is Done || reply is Failed
            } else {
                reply == SysReply::Failed { errno: ENOENT }
            },
            _ => true,
        }
    }

    /// The system after a call with this outcome, made by somebody who has opened the
    /// object `opened`.
    pub open spec fn after(self, opened: Option<nat>, call: Call, reply: SysReply) -> System {
        match (call, reply) {
            (Call::ShmOpen { path, .. }, SysReply::Done) => if self.names.dom().contains(path) {
                self
            } else {
                self.with_new(path)
            },
            (Call::Truncate { length }, SysReply::Done) => match opened {
                Some(id) => self.with_bytes(id, resized(self.objects[id], length as nat)),
                None => self,
            },
            (Call::ShmUnlink { path }, SysReply::Done) => self.without_name(path),
            _ => self,
        }
    }

    /// The object that somebody has opened after a call with this outcome.
    pub open spec fn opened_after(
        self,
        opened: Option<nat>,
        call: Call,
        reply: SysReply,
    ) -> Option<nat> {
        match (call, reply) {
            (Call::ShmOpen { path, .. }, SysReply::Done) => Some(
                self.after(opened, call, reply).names[path],
            ),
            _ => opened,
        }
    }
}

/// A setup under way in a system, and the object that it has opened.
pub struct Session {
    pub progress: Progress,
    pub system: System,
    pub opened: Option<nat>,
}

impl Session {
    /// A setup that begins in a system.
    pub open spec fn start(setup: SegmentSetup, system: System) -> Session {
        Session { progress: Progress::Pending(setup), system, opened: None }
    }

    /// After one more reply.
    pub open spec fn after(self, reply: SysReply) -> Session {
        match self.progress {
            Progress::Pending(setup) => Session {
                progress: setup.next(reply),
                system: self.system.after(self.opened, setup.call(), reply),
                opened: self.system.opened_after(self.opened, setup.call(), reply),
            },
            Progress::Finished(_) => self,
        }
    }

    /// After a sequence of replies.
    pub open spec fn run(self, replies: Seq<SysReply>) -> Session
        decreases replies.len(),
    {
        if replies.len() == 0 {
            self
        } else {
            self.run(replies.drop_last()).after(replies.last())
        }
    }

    /// The reply is one to the call that is due, and one that the system can give.
    pub open spec fn allows(self, reply: SysReply) -> bool {
        match self.progress {
            Progress::Pending(setup) => {
                &&& setup.expects(reply)
                &&& self.system.answers(setup.call(), reply)
            },
            Progress::Finished(_) => false,
        }
    }

    /// Each reply is one to the call that was due, and one that the system could give.
    pub open spec fn fits(self, replies: Seq<SysReply>) -> bool
        decreases replies.len(),
    {
        replies.len() > 0 ==> {
            &&& self.fits(replies.drop_last())
            &&& self.run(replies.drop_last()).allows(replies.last())
        }
    }
}

/// What holds of the system while a setup that only opens is under way.
spec fn only_looks(start: System, setup: SegmentSetup, now: Session) -> bool {
    let path = setup.path@;
    &&& now.system == start
    &&& match now.progress {
        Progress::Pending(s) => {
            &&& s.path@ == path
            &&& !s.create
            &&& s.stage !is Truncate
            &&& if s.stage is Open {
                now.opened is None
            } else {
                &&& start.names.dom().contains(path)
                &&& now.opened == Some(start.names[path])
            }
        },
        Progress::Finished(Outcome::Mapped { .. }) => {
            &&& start.names.dom().contains(path)
            &&& now.opened == Some(start.names[path])
        },
        Progress::Finished(Outcome::Failed { .. }) => true,
    }
}

/// Opening changes nothing in the system: it neither makes nor resizes an object, and
/// no name either. If it ends with a segment, the segment is of the object that the
/// name stands for.
pub proof fn opening_changes_nothing(
    setup: SegmentSetup,
    system: System,
    replies: Seq<SysReply>,
)
    requires
        setup.stage == Stage::Open,
        !setup.create,
        Session::start(setup, system).fits(replies),
    ensures
        ({
            let end = Session::start(setup, system).run(replies);
            &&& end.system == system
            &&& end.progress matches Progress::Finished(Outcome::Mapped { .. }) ==> {
                &&& system.names.dom().contains(setup.path@)
                &&& end.opened == Some(system.names[setup.path@])
            }
        }),
{
    lemma_only_looks(setup, system, replies);
}

proof fn lemma_only_looks(setup: SegmentSetup, system: System, replies: Seq<SysReply>)
    requires
        setup.stage == Stage::Open,
        !setup.create,
        Session::start(setup, system).fits(replies),
    ensures
        only_looks(system, setup, Session::start(setup, system).run(replies)),
    decreases replies.len(),
{
    if replies.len() > 0 {
        lemma_only_looks(setup, system, replies.drop_last());
    }
}

/// A setup that ends with its first reply has no second one.
proof fn lemma_first_reply_decides(
    setup: SegmentSetup,
    system: System,
    replies: Seq<SysReply>,
    errno: i32,
)
    requires
        setup.stage == Stage::Open,
        forall|reply: SysReply|
            Session::start(setup, system).allows(reply) ==> reply == (SysReply::Failed { errno }),
        Session::start(setup, system).fits(replies),
        replies.len() > 0,
    ensures
        Session::start(setup, system).run(replies).progress == Progress::Finished(
            Outcome::Failed { errno },
        ),
        Session::start(setup, system).run(replies).system == system,
    decreases replies.len(),
{
    let start = Session::start(setup, system);
    let before = replies.drop_last();
    if before.len() == 0 {
        assert(start.run(before) == start);
        assert(start.allows(replies.last()));
    } else {
        lemma_first_reply_decides(setup, system, before, errno);
        assert(!start.run(before).allows(replies.last()));
    }
}

/// Opening a name that stands for nothing is refused.
pub proof fn missing_name_is_not_opened(
    setup: SegmentSetup,
    system: System,
    replies: Seq<SysReply>,
)
    requires
        setup.stage == Stage::Open,
        !setup.create,
        !system.names.dom().contains(setup.path@),
        Session::start(setup, system).fits(replies),
        replies.len() > 0,
    ensures
        Session::start(setup, system).run(replies).progress == Progress::Finished(
            Outcome::Failed { errno: ENOENT },
        ),
        Session::start(setup, system).run(replies).system == system,
{
    lemma_first_reply_decides(setup, system, replies, ENOENT);
}

/// Making an object is exclusive: a name that stands for something already is refused,
/// and what it stands for is left alone.
pub proof fn creation_is_exclusive(setup: SegmentSetup, system: System, replies: Seq<SysReply>)
    requires
        setup.stage == Stage::Open,
        setup.create,
        system.names.dom().contains(setup.path@),
        Session::start(setup, system).fits(replies),
        replies.len() > 0,
    ensures
        Session::start(setup, system).run(replies).progress == Progress::Finished(
            Outcome::Failed { errno: EEXIST },
        ),
        Session::start(setup, system).run(replies).system == system,
{
    lemma_first_reply_decides(setup, system, replies, EEXIST);
}

/// The system after a new object of this name and size was made.
pub open spec fn with_zeros(system: System, path: Seq<char>, size: nat) -> System {
    system.with_new(path).with_bytes(system.next, resized(Seq::empty(), size))
}

/// What holds of the system while a setup that makes an object is under way.
spec fn makes_one(start: System, setup: SegmentSetup, now: Session) -> bool {
    let path = setup.path@;
    let made = with_zeros(start, path, setup.layout.object_size() as nat);
    match now.progress {
        Progress::Pending(s) => {
            &&& s.path@ == path
            &&& s.create
            &&& s.layout == setup.layout
            &&& s.wf()
            &&& match s.stage {
                Stage::Open => now.system == start && now.opened is None,
                Stage::Truncate => now.system == start.with_new(path) && now.opened == Some(
                    start.next,
                ),
                _ => now.system == made && now.opened == Some(start.next),
            }
        },
        Progress::Finished(Outcome::Mapped { .. }) => now.system == made && now.opened == Some(
            start.next,
        ),
        Progress::Finished(Outcome::Failed { .. }) => {
            ||| now.system == start
            ||| now.system == start.with_new(path)
            ||| now.system == made
        },
    }
}

proof fn lemma_makes_one(setup: SegmentSetup, system: System, replies: Seq<SysReply>)
    requires
        setup.stage == Stage::Open,
        setup.create,
        Session::start(setup, system).fits(replies),
    ensures
        makes_one(system, setup, Session::start(setup, system).run(replies)),
    decreases replies.len(),
{
    if replies.len() > 0 {
        lemma_makes_one(setup, system, replies.drop_last());
        let before = Session::start(setup, system).run(replies.drop_last());
        let s = before.progress->Pending_0;
        if s.stage is Truncate {
            let id = system.next;
            assert(before.system.objects[id] == Seq::<u8>::empty());
        }
    }
}

/// If the making of an object ends with a segment, the name now stands for a new
/// object, of the size of the layout and filled with zeros, which the segment is of.
/// However it ends, all other names and objects are as before.
pub proof fn creation_makes_one_object(
    setup: SegmentSetup,
    system: System,
    replies: Seq<SysReply>,
)
    requires
        system.wf(),
        setup.stage == Stage::Open,
        setup.create,
        Session::start(setup, system).fits(replies),
    ensures
        ({
            let end = Session::start(setup, system).run(replies);
            let size = setup.layout.object_size() as nat;
            &&& end.progress matches Progress::Finished(Outcome::Mapped { .. }) ==> {
                &&& end.opened == Some(system.next)
                &&& !system.objects.dom().contains(system.next)
                &&& end.system == with_zeros(system, setup.path@, size)
            }
            &&& forall|path: Seq<char>|
                path != setup.path@ ==> {
                    &&& #[trigger] end.system.names.dom().contains(path)
                        == system.names.dom().contains(path)
                    &&& system.names.dom().contains(path) ==> end.system.names[path]
                        == system.names[path]
                }
            &&& forall|id: nat| #[trigger]
                system.objects.dom().contains(id) ==> {
                    &&& end.system.objects.dom().contains(id)
                    &&& end.system.objects[id] == system.objects[id]
                }
            &&& end.system.wf()
        }),
{
    lemma_makes_one(setup, system, replies);
}

/// A new object has the size that was asked for: that of a plain segment, or that of the
/// header and the data area together. It is filled with zeros, and it is the only
/// thing that its name stands for.
pub proof fn new_objects_have_the_size_asked_for(
    setup: SegmentSetup,
    system: System,
    replies: Seq<SysReply>,
)
    requires
        system.wf(),
        setup.stage == Stage::Open,
        setup.create,
        Session::start(setup, system).fits(replies),
        Session::start(setup, system).run(replies).progress matches Progress::Finished(
            Outcome::Mapped { .. },
        ),
    ensures
        ({
            let end = Session::start(setup, system).run(replies);
            let object = end.system.objects[end.system.names[setup.path@]];
            &&& end.system.names.dom().contains(setup.path@)
            &&& end.opened == Some(end.system.names[setup.path@])
            &&& object.len() == match setup.layout {
                Layout::Single { size } => size as int,
                Layout::Mirrored { header_size, data_size } => header_size + data_size,
            }
            &&& forall|i: int| 0 <= i < object.len() ==> #[trigger] object[i] == 0
        }),
{
    lemma_makes_one(setup, system, replies);
}

/// Whoever opens a name after an object of that name was made gets that object.
pub proof fn opener_gets_what_was_made(
    maker: SegmentSetup,
    opener: SegmentSetup,
    system: System,
    made: Seq<SysReply>,
    opened: Seq<SysReply>,
)
    requires
        maker.stage == Stage::Open,
        maker.create,
        opener.stage == Stage::Open,
        !opener.create,
        opener.path@ == maker.path@,
        Session::start(maker, system).fits(made),
        Session::start(maker, system).run(made).progress matches Progress::Finished(
            Outcome::Mapped { .. },
        ),
        Session::start(opener, Session::start(maker, system).run(made).system).fits(opened),
        Session::start(opener, Session::start(maker, system).run(made).system).run(
            opened,
        ).progress matches Progress::Finished(Outcome::Mapped { .. }),
    ensures
        Session::start(opener, Session::start(maker, system).run(made).system).run(opened).opened
            == Session::start(maker, system).run(made).opened,
{
    lemma_makes_one(maker, system, made);
    lemma_only_looks(opener, Session::start(maker, system).run(made).system, opened);
}

/// A name that was removed stands for nothing: removing it again is refused. The
/// objects, and the names of all others, are as before.
pub proof fn removed_name_is_free(system: System, path: Seq<char>, again: SysReply)
    requires
        system.wf(),
        system.without_name(path).answers(Call::ShmUnlink { path }, again),
    ensures
        system.without_name(path).wf(),
        !system.without_name(path).names.dom().contains(path),
        again == (SysReply::Failed { errno: ENOENT }),
        system.without_name(path).objects == system.objects,
        forall|other: Seq<char>|
            other != path ==> {
                &&& #[trigger] system.without_name(path).names.dom().contains(other)
                    == system.names.dom().contains(other)
                &&& system.names.dom().contains(other) ==> system.without_name(path).names[other]
                    == system.names[other]
            },
{
}

/// A segment lives on when the name of its object is removed, also when the name is
/// then given to a new object: what is stored in it is loaded from it again, and what
/// was stored before is still there.
pub proof fn segments_outlive_the_name(
    system: System,
    path: Seq<char>,
    space: Map<int, Memory>,
    ptr: int,
    layout: Layout,
    setup: SegmentSetup,
    replies: Seq<SysReply>,
    i: int,
    value: u8,
)
    requires
        system.wf(),
        system.names.dom().contains(path),
        segment_at(space, ptr, layout),
        system.objects[system.names[path]].len() == layout.object_size(),
        setup.stage == Stage::Open,
        setup.create,
        setup.path@ == path,
        Session::start(setup, system.without_name(path)).fits(replies),
        0 <= i < layout.mapped_size(),
    ensures
        ({
            let id = system.names[path];
            let end = Session::start(setup, system.without_name(path)).run(replies).system;
            &&& end.objects.dom().contains(id)
            &&& load(space, system.objects[id], ptr + i) is Some
            &&& load(space, end.objects[id], ptr + i) == load(space, system.objects[id], ptr + i)
            &&& store(space, end.objects[id], ptr + i, value) matches Some(after) && load(
                space,
                after,
                ptr + i,
            ) == Some(value)
            &&& end.names.dom().contains(path) ==> end.names[path] != id
        }),
{
    creation_makes_one_object(setup, system.without_name(path), replies);
    lemma_makes_one(setup, system.without_name(path), replies);
    assert(space.dom().contains(ptr + i));
}

/// A removed name can be used again: with every call granted, the making of an object
/// of that name gets past the opening and the sizing.
pub proof fn removed_name_can_be_made_again(
    system: System,
    path: Seq<char>,
    setup: SegmentSetup,
)
    requires
        setup.stage == Stage::Open,
        setup.create,
        setup.path@ == path,
        setup.layout.mappable(),
    ensures
        ({
            let start = Session::start(setup, system.without_name(path));
            let opened = start.after(SysReply::Done);
            let sized = opened.after(SysReply::Done);
            &&& start.allows(SysReply::Done)
            &&& opened.allows(SysReply::Done)
            &&& sized.progress == setup.at_stage(SegmentSetup::first_map(setup.layout))
        }),
{
}

} // verus!
