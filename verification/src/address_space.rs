//! What a setup leaves in a process's address space, whatever the operating system
//! answers.

use crate::posix::{Backing, Call, Protection, SysReply};
use crate::setup::{Layout, Outcome, Progress, SegmentSetup, Stage};
use vstd::arithmetic::div_mod::{lemma_add_mod_noop, lemma_mod_bound, lemma_small_mod};
use vstd::prelude::*;

verus! {

/// What an address refers to.
pub enum Source {
    /// Memory of the process alone.
    Private,
    /// The byte of the shared object at this offset.
    Object(int),
}

/// What an address refers to, and what may be done there.
pub struct Memory {
    pub source: Source,
    pub access: Protection,
}

/// Whether `a` is one of the `length` addresses from `address` on.
pub open spec fn within(a: int, address: int, length: int) -> bool {
    address <= a < address + length
}

/// Where the page of an address starts.
pub open spec fn page_start(a: int, page: int) -> int {
    a - a % page
}

/// Whether `a` lies on one of the pages that hold the `length` addresses from
/// `address` on, which is the start of a page.
pub open spec fn on_pages(a: int, address: int, length: int, page: int) -> bool {
    address <= a && page_start(a, page) < address + length
}

/// The address space after a range was mapped, in whole pages.
pub open spec fn mapped(
    space: Map<int, Memory>,
    address: int,
    length: int,
    backing: Backing,
    access: Protection,
    page: int,
) -> Map<int, Memory> {
    Map::new(
        |a: int| on_pages(a, address, length, page) || space.dom().contains(a),
        |a: int|
            if on_pages(a, address, length, page) {
                Memory {
                    source: match backing {
                        Backing::Private => Source::Private,
                        Backing::Object { offset } => Source::Object(offset + (a - address)),
                    },
                    access,
                }
            } else {
                space[a]
            },
    )
}

/// The address space after a range was unmapped, in whole pages.
pub open spec fn unmapped(
    space: Map<int, Memory>,
    address: int,
    length: int,
    page: int,
) -> Map<int, Memory> {
    Map::new(
        |a: int| space.dom().contains(a) && !on_pages(a, address, length, page),
        |a: int| space[a],
    )
}

/// The address space after a call with this outcome.
pub open spec fn effect(
    space: Map<int, Memory>,
    call: Call,
    reply: SysReply,
    page: int,
) -> Map<int, Memory> {
    match (call, reply) {
        (Call::Mmap(request), SysReply::Mapped { address }) => mapped(
            space,
            address as int,
            request.length as int,
            request.backing,
            request.protection,
            page,
        ),
        (Call::Munmap { address, length }, SysReply::Unmapped { .. }) => unmapped(
            space,
            address as int,
            length as int,
            page,
        ),
        _ => space,
    }
}

/// The operating system maps whole pages only, of objects too, and never nothing. It
/// maps where it was told to; where the choice is its own, it chooses unused pages.
pub open spec fn honest(
    space: Map<int, Memory>,
    call: Call,
    reply: SysReply,
    page: int,
) -> bool {
    match (call, reply) {
        (Call::Mmap(request), SysReply::Mapped { address }) => {
            &&& request.length > 0
            &&& address as int % page == 0
            &&& request.backing matches Backing::Object { offset } ==> offset as int % page == 0
            &&& match request.address {
                Some(fixed) => address == fixed,
                None => unused(space, address as int, request.length as int, page),
            }
        },
        _ => true,
    }
}

/// A setup under way in an address space with pages of this size. When the range that
/// it reserved could not be given back, `leaked` tells where that range starts.
pub struct Drive {
    pub progress: Progress,
    pub space: Map<int, Memory>,
    pub page: int,
    pub leaked: Option<int>,
}

impl Drive {
    /// A setup that begins in an address space.
    pub open spec fn start(setup: SegmentSetup, space: Map<int, Memory>, page: int) -> Drive {
        Drive { progress: Progress::Pending(setup), space, page, leaked: None }
    }

    /// After one more reply.
    pub open spec fn after(self, reply: SysReply) -> Drive {
        match self.progress {
            Progress::Pending(setup) => Drive {
                progress: setup.next(reply),
                space: effect(self.space, setup.call(), reply, self.page),
                page: self.page,
                leaked: match (setup.stage, reply) {
                    (Stage::Rollback { base }, SysReply::Failed { .. }) => Some(base as int),
                    _ => self.leaked,
                },
            },
            Progress::Finished(_) => self,
        }
    }

    /// After a sequence of replies.
    pub open spec fn run(self, replies: Seq<SysReply>) -> Drive
        decreases replies.len(),
    {
        if replies.len() == 0 {
            self
        } else {
            self.run(replies.drop_last()).after(replies.last())
        }
    }

    /// The reply is one to the call that is due.
    pub open spec fn allows(self, reply: SysReply) -> bool {
        match self.progress {
            Progress::Pending(setup) => {
                &&& setup.expects(reply)
                &&& honest(self.space, setup.call(), reply, self.page)
            },
            Progress::Finished(_) => false,
        }
    }

    /// Each reply is one to the call that was due.
    pub open spec fn fits(self, replies: Seq<SysReply>) -> bool
        decreases replies.len(),
    {
        replies.len() > 0 ==> {
            &&& self.fits(replies.drop_last())
            &&& self.run(replies.drop_last()).allows(replies.last())
        }
    }
}

/// The `length` addresses from `address` on refer to the object, from `offset` on, and
/// may be read and written.
pub open spec fn shows(
    space: Map<int, Memory>,
    address: int,
    length: int,
    offset: int,
) -> bool {
    forall|a: int|
        within(a, address, length) ==> {
            &&& #[trigger] space.dom().contains(a)
            &&& space[a].source == Source::Object(offset + (a - address))
            &&& space[a].access == Protection::ReadWrite
        }
}

/// Off the pages of the range the two address spaces are the same.
pub open spec fn same_elsewhere(
    before: Map<int, Memory>,
    after: Map<int, Memory>,
    address: int,
    length: int,
    page: int,
) -> bool {
    forall|a: int|
        !on_pages(a, address, length, page) ==> {
            &&& #[trigger] after.dom().contains(a) == before.dom().contains(a)
            &&& after[a] == before[a] || !before.dom().contains(a)
        }
}

/// The pages of the range are not in use.
pub open spec fn unused(space: Map<int, Memory>, address: int, length: int, page: int) -> bool {
    forall|a: int|
        on_pages(a, address, length, page) ==> !#[trigger] space.dom().contains(a)
}

/// The two address spaces differ on the pages of the range only, which were unused.
pub open spec fn grown(
    before: Map<int, Memory>,
    after: Map<int, Memory>,
    address: int,
    length: int,
    page: int,
) -> bool {
    &&& same_elsewhere(before, after, address, length, page)
    &&& unused(before, address, length, page)
}

/// A segment lies at `ptr`: the part that is mapped once, then the other part, twice.
pub open spec fn segment_at(space: Map<int, Memory>, ptr: int, layout: Layout) -> bool {
    let once = layout.once();
    let twice = layout.twice();
    &&& shows(space, ptr, once, 0)
    &&& shows(space, ptr + once, twice, once)
    &&& shows(space, ptr + once + twice, twice, once)
}

/// What holds of the address space while a setup is under way, and at its end.
pub open spec fn faithful(start: Map<int, Memory>, layout: Layout, now: Drive) -> bool {
    let size = layout.mapped_size();
    let once = layout.once();
    let twice = layout.twice();
    match now.progress {
        Progress::Pending(setup) => {
            &&& setup.wf()
            &&& setup.layout == layout
            &&& now.leaked is None
            &&& match setup.stage {
                Stage::Open | Stage::Truncate | Stage::MapWhole | Stage::Reserve => now.space
                    == start,
                Stage::MapHeader { base } | Stage::Rollback { base } => grown(
                    start,
                    now.space,
                    base as int,
                    size,
                    now.page,
                ),
                Stage::MapData { base } => {
                    &&& once > 0
                    &&& grown(start, now.space, base as int, size, now.page)
                    &&& shows(now.space, base as int, once, 0)
                },
                Stage::MapMirror { base } => {
                    &&& once > 0
                    &&& twice > 0
                    &&& grown(start, now.space, base as int, size, now.page)
                    &&& shows(now.space, base as int, once, 0)
                    &&& shows(now.space, base + once, twice, once)
                },
            }
        },
        Progress::Finished(Outcome::Mapped { ptr, size: reported }) => {
            &&& reported == size
            &&& ptr > 0
            &&& once > 0
            &&& layout is Mirrored ==> twice > 0
            &&& now.leaked is None
            &&& segment_at(now.space, ptr as int, layout)
            &&& grown(start, now.space, ptr as int, size, now.page)
        },
        Progress::Finished(Outcome::Failed { .. }) => match now.leaked {
            None => now.space == start,
            Some(base) => grown(start, now.space, base, size, now.page),
        },
    }
}

proof fn lemma_step(start: Map<int, Memory>, layout: Layout, now: Drive, reply: SysReply)
    requires
        now.page > 0,
        faithful(start, layout, now),
        now.allows(reply),
    ensures
        faithful(start, layout, now.after(reply)),
{
    let setup = now.progress->Pending_0;
    let after = now.after(reply);
    let page = now.page;
    assert forall|a: int| #[trigger] page_start(a, page) <= a by {
        lemma_mod_bound(a, page);
    }
    match setup.stage {
        Stage::Rollback { base } => {
            if reply is Unmapped {
                assert(after.space =~= start);
            }
        },
        Stage::MapMirror { base } => {
            if reply is Mapped {
                let once = layout.once();
                let twice = layout.twice();
                assert(shows(after.space, base as int, once, 0));
                assert(shows(after.space, base + once, twice, once));
                assert(shows(after.space, base + once + twice, twice, once));
            }
        },
        _ => {},
    }
}

proof fn lemma_faithful(
    setup: SegmentSetup,
    space: Map<int, Memory>,
    page: int,
    replies: Seq<SysReply>,
)
    requires
        page > 0,
        setup.stage == Stage::Open,
        Drive::start(setup, space, page).fits(replies),
    ensures
        Drive::start(setup, space, page).run(replies).page == page,
        faithful(space, setup.layout, Drive::start(setup, space, page).run(replies)),
    decreases replies.len(),
{
    if replies.len() > 0 {
        lemma_faithful(setup, space, page, replies.drop_last());
        let before = Drive::start(setup, space, page).run(replies.drop_last());
        lemma_step(space, setup.layout, before, replies.last());
    }
}

/// Whatever the operating system answers: if the setup ends with a segment, the
/// segment has the size of its layout, no part of which is empty, its addresses refer
/// to the object as the layout says, and its pages were unused, while all others are as
/// before; if it ends with an error, nothing is left mapped, unless the unmapping was
/// refused: then only pages of the reserved range are left.
pub proof fn all_or_nothing(
    setup: SegmentSetup,
    space: Map<int, Memory>,
    page: int,
    replies: Seq<SysReply>,
)
    requires
        page > 0,
        setup.stage == Stage::Open,
        Drive::start(setup, space, page).fits(replies),
    ensures
        ({
            let end = Drive::start(setup, space, page).run(replies);
            let length = setup.layout.mapped_size();
            match end.progress {
                Progress::Pending(_) => true,
                Progress::Finished(Outcome::Mapped { ptr, size }) => {
                    &&& ptr > 0
                    &&& size > 0
                    &&& size == length
                    &&& setup.layout.once() > 0
                    &&& setup.layout is Mirrored ==> setup.layout.twice() > 0
                    &&& segment_at(end.space, ptr as int, setup.layout)
                    &&& unused(space, ptr as int, length, page)
                    &&& same_elsewhere(space, end.space, ptr as int, length, page)
                },
                Progress::Finished(Outcome::Failed { .. }) => match end.leaked {
                    None => end.space == space,
                    Some(base) => {
                        &&& unused(space, base, length, page)
                        &&& same_elsewhere(space, end.space, base, length, page)
                    },
                },
            }
        }),
{
    lemma_faithful(setup, space, page, replies);
}

/// If a setup ends with a segment, the segment has the size that was asked for, and
/// every address of it may be read and written: the addresses of a plain segment show
/// the bytes of the object in their order; so do those of a mirrored one, up to its
/// end, where the data area begins again.
pub proof fn segments_show_their_objects(
    setup: SegmentSetup,
    space: Map<int, Memory>,
    page: int,
    replies: Seq<SysReply>,
    object: Seq<u8>,
    ptr: usize,
    size: usize,
    i: int,
)
    requires
        page > 0,
        setup.stage == Stage::Open,
        Drive::start(setup, space, page).fits(replies),
        Drive::start(setup, space, page).run(replies).progress == Progress::Finished(
            Outcome::Mapped { ptr, size },
        ),
        0 <= i < size,
    ensures
        ({
            let end = Drive::start(setup, space, page).run(replies).space;
            match setup.layout {
                Layout::Single { size: asked } => {
                    &&& size == asked
                    &&& object.len() >= asked ==> reached(end, object, ptr + i) == Some(i)
                },
                Layout::Mirrored { header_size, data_size } => {
                    &&& size == header_size + 2 * data_size
                    &&& object.len() >= header_size + data_size ==> reached(end, object, ptr + i)
                        == Some(
                        if i < header_size + data_size {
                            i
                        } else {
                            i - data_size
                        },
                    )
                },
            }
        }),
{
    lemma_faithful(setup, space, page, replies);
    assert(Drive::start(setup, space, page).run(replies).space.dom().contains(ptr + i));
}

/// Whatever is asked for, a call may be refused at any time, and unmapping may succeed
/// with any error number in place.
pub proof fn refusals_are_always_taken(
    setup: SegmentSetup,
    errno: i32,
    refusal: bool,
    unmapping: bool,
)
    requires
        call_ensures(SegmentSetup::accepts, (&setup, SysReply::Failed { errno }), refusal),
        call_ensures(SegmentSetup::accepts, (&setup, SysReply::Unmapped { errno }), unmapping),
    ensures
        refusal,
        unmapping <==> setup.stage is Rollback,
        setup.expects(SysReply::Failed { errno }),
        setup.expects(SysReply::Unmapped { errno }) <==> setup.stage is Rollback,
{
}

/// A setup that fails reports the error number of the last reply: of the refusal, or,
/// where a part could not be mapped, the one in place after the unmapping. It fails only
/// after a refusal.
pub proof fn failures_report_the_last_error(
    setup: SegmentSetup,
    space: Map<int, Memory>,
    page: int,
    replies: Seq<SysReply>,
    errno: i32,
)
    requires
        setup.stage == Stage::Open,
        Drive::start(setup, space, page).fits(replies),
        Drive::start(setup, space, page).run(replies).progress == Progress::Finished(
            Outcome::Failed { errno },
        ),
    ensures
        replies.len() > 0,
        replies.last() == (SysReply::Failed { errno }) || replies.last() == (SysReply::Unmapped {
            errno,
        }),
        replies.last() is Unmapped ==> replies.len() > 1 && replies[replies.len() - 2] is Failed,
{
    if replies.len() > 1 {
        let before = replies.drop_last();
        let now = Drive::start(setup, space, page).run(before);
        lemma_rollback_follows_a_refusal(setup, space, page, before);
        assert(now.allows(replies.last()));
        assert(before.last() == replies[replies.len() - 2]);
    } else if replies.len() == 1 {
        let now = Drive::start(setup, space, page).run(replies.drop_last());
        assert(now == Drive::start(setup, space, page));
    }
}

proof fn lemma_rollback_follows_a_refusal(
    setup: SegmentSetup,
    space: Map<int, Memory>,
    page: int,
    replies: Seq<SysReply>,
)
    requires
        setup.stage == Stage::Open,
        Drive::start(setup, space, page).fits(replies),
    ensures
        Drive::start(setup, space, page).run(replies).progress matches Progress::Pending(s)
            && s.stage is Rollback ==> replies.len() > 0 && replies.last() is Failed,
{
    if replies.len() > 0 {
        let before = Drive::start(setup, space, page).run(replies.drop_last());
        assert(before.allows(replies.last()));
    }
}

/// A range is only ever left mapped when the last reply refused to unmap it.
pub proof fn leaks_only_when_unmapping_is_refused(
    setup: SegmentSetup,
    space: Map<int, Memory>,
    page: int,
    replies: Seq<SysReply>,
)
    requires
        page > 0,
        setup.stage == Stage::Open,
        Drive::start(setup, space, page).fits(replies),
        Drive::start(setup, space, page).run(replies).leaked is Some,
    ensures
        replies.len() > 0,
        replies.last() is Failed,
        Drive::start(setup, space, page).run(replies.drop_last()).progress matches
            Progress::Pending(last) && last.stage is Rollback,
{
    if replies.len() > 0 {
        lemma_faithful(setup, space, page, replies.drop_last());
    }
}

/// Giving back a segment's memory undoes its setup: the address space is the one that
/// the setup began in.
pub proof fn release_undoes_the_setup(
    setup: SegmentSetup,
    space: Map<int, Memory>,
    page: int,
    replies: Seq<SysReply>,
    errno: i32,
)
    requires
        page > 0,
        setup.stage == Stage::Open,
        Drive::start(setup, space, page).fits(replies),
    ensures
        ({
            let end = Drive::start(setup, space, page).run(replies);
            end.progress matches Progress::Finished(Outcome::Mapped { ptr, size }) ==> effect(
                end.space,
                Call::Munmap { address: ptr, length: size },
                SysReply::Unmapped { errno },
                page,
            ) == space
        }),
{
    lemma_faithful(setup, space, page, replies);
    let end = Drive::start(setup, space, page).run(replies);
    if let Progress::Finished(Outcome::Mapped { ptr, size }) = end.progress {
        assert(unmapped(end.space, ptr as int, size as int, page) =~= space);
    }
}

/// The replies of an operating system that grants every call and reserves at `base`.
pub open spec fn granted(setup: SegmentSetup, base: usize) -> Seq<SysReply> {
    let opened = if setup.create {
        seq![SysReply::Done, SysReply::Done]
    } else {
        seq![SysReply::Done]
    };
    let data = (base + setup.layout.once()) as usize;
    let mirror = (base + setup.layout.object_size()) as usize;
    match setup.layout {
        Layout::Single { .. } => opened.push(SysReply::Mapped { address: base }),
        Layout::Mirrored { .. } => opened.push(SysReply::Mapped { address: base }).push(
            SysReply::Mapped { address: base },
        ).push(SysReply::Mapped { address: data }).push(SysReply::Mapped { address: mirror }),
    }
}

/// If every call is granted, the setup ends with a segment at the granted address. A
/// mirrored segment consists of whole pages.
pub proof fn granted_setup_succeeds(
    setup: SegmentSetup,
    space: Map<int, Memory>,
    page: int,
    base: usize,
)
    requires
        page > 0,
        setup.stage == Stage::Open,
        setup.layout.once() > 0,
        setup.layout is Mirrored ==> {
            &&& setup.layout.twice() > 0
            &&& setup.layout.once() % page == 0
            &&& setup.layout.twice() % page == 0
        },
        base > 0,
        base as int % page == 0,
        base + setup.layout.mapped_size() <= usize::MAX,
        unused(space, base as int, setup.layout.mapped_size(), page),
    ensures
        Drive::start(setup, space, page).fits(granted(setup, base)),
        Drive::start(setup, space, page).run(granted(setup, base)).progress == Progress::Finished(
            Outcome::Mapped { ptr: base, size: setup.layout.mapped_size() as usize },
        ),
{
    let start = Drive::start(setup, space, page);
    let none = Seq::<SysReply>::empty();
    let at_base = SysReply::Mapped { address: base };
    lemma_small_mod(0, page as nat);
    let first = none.push(SysReply::Done);
    assert(first.drop_last() =~= none);
    assert(first =~= seq![SysReply::Done]);
    assert(start.fits(none) && start.run(none) == start);
    assert(start.fits(first) && start.run(first) == start.after(SysReply::Done));
    let second = first.push(SysReply::Done);
    assert(second.drop_last() =~= first);
    assert(second =~= seq![SysReply::Done, SysReply::Done]);
    let opened = if setup.create {
        second
    } else {
        first
    };
    assert(start.fits(opened));
    let one = opened.push(at_base);
    assert(one.drop_last() =~= opened);
    assert(start.fits(one) && start.run(one) == start.run(opened).after(at_base));
    if setup.layout is Mirrored {
        let once = setup.layout.once();
        let twice = setup.layout.twice();
        lemma_add_mod_noop(base as int, once, page);
        lemma_add_mod_noop(base + once, twice, page);
        let data = SysReply::Mapped { address: (base + once) as usize };
        let mirror = SysReply::Mapped { address: (base + once + twice) as usize };
        let two = one.push(at_base);
        assert(two.drop_last() =~= one);
        assert(start.fits(two) && start.run(two) == start.run(one).after(at_base));
        let three = two.push(data);
        assert(three.drop_last() =~= two);
        assert(start.fits(three) && start.run(three) == start.run(two).after(data));
        let four = three.push(mirror);
        assert(four.drop_last() =~= three);
        assert(start.fits(four) && start.run(four) == start.run(three).after(mirror));
    }
}

/// The byte of the object that can be read and written at an address, if there is one.
pub open spec fn reached(space: Map<int, Memory>, object: Seq<u8>, a: int) -> Option<int> {
    if !space.dom().contains(a) || space[a].access != Protection::ReadWrite {
        None
    } else {
        match space[a].source {
            Source::Private => None,
            Source::Object(offset) => if 0 <= offset < object.len() {
                Some(offset)
            } else {
                None
            },
        }
    }
}

/// The byte that a load from an address yields. Where nothing may be read there is none.
pub open spec fn load(space: Map<int, Memory>, object: Seq<u8>, a: int) -> Option<u8> {
    match reached(space, object, a) {
        Some(offset) => Some(object[offset]),
        None => None,
    }
}

/// The object after a store to an address. Where nothing may be written there is none.
pub open spec fn store(
    space: Map<int, Memory>,
    object: Seq<u8>,
    a: int,
    value: u8,
) -> Option<Seq<u8>> {
    match reached(space, object, a) {
        Some(offset) => Some(object.update(offset, value)),
        None => None,
    }
}

/// In a mirrored segment a store to the data area is seen in the mirror, and a store
/// to the mirror in the data area.
pub proof fn mirror_reflects_writes(
    space: Map<int, Memory>,
    ptr: int,
    header_size: usize,
    data_size: usize,
    object: Seq<u8>,
    i: int,
    value: u8,
)
    requires
        segment_at(space, ptr, Layout::Mirrored { header_size, data_size }),
        object.len() == header_size + data_size,
        0 <= i < data_size,
    ensures
        ({
            let data = ptr + header_size + i;
            let mirror = ptr + header_size + data_size + i;
            &&& store(space, object, data, value) matches Some(after) && load(space, after, mirror)
                == Some(value)
            &&& store(space, object, mirror, value) matches Some(after) && load(space, after, data)
                == Some(value)
        }),
{
    assert(space.dom().contains(ptr + header_size + i));
    assert(space.dom().contains(ptr + header_size + data_size + i));
}

/// In a mirrored segment a block of up to `data_size` bytes is contiguous wherever
/// in the data area it starts: past the end it continues at the start.
pub proof fn blocks_are_contiguous(
    space: Map<int, Memory>,
    ptr: int,
    header_size: usize,
    data_size: usize,
    offset: int,
    i: int,
)
    requires
        segment_at(space, ptr, Layout::Mirrored { header_size, data_size }),
        0 <= offset < data_size,
        0 <= i < data_size,
    ensures
        space.dom().contains(ptr + header_size + offset + i),
        space[ptr + header_size + offset + i].source == Source::Object(
            header_size + (offset + i) % (data_size as int),
        ),
        space[ptr + header_size + offset + i].access == Protection::ReadWrite,
{
    let d = data_size as int;
    let k = offset + i;
    assert(space.dom().contains(ptr + header_size + k));
    if k < d {
        assert(k % d == k) by (nonlinear_arith)
            requires
                0 <= k < d,
        ;
    } else {
        assert(k % d == k - d) by (nonlinear_arith)
            requires
                d <= k < 2 * d,
        ;
    }
}

/// Which byte of the object lies `i` bytes behind the start of a segment.
pub open spec fn object_offset(layout: Layout, i: int) -> int {
    if i < layout.object_size() {
        i
    } else {
        i - layout.twice()
    }
}

/// What is stored in one segment over an object is loaded from every other segment
/// over it, be they in one process or in two.
pub proof fn segments_share_the_object(
    space: Map<int, Memory>,
    ptr: int,
    other_space: Map<int, Memory>,
    other_ptr: int,
    layout: Layout,
    object: Seq<u8>,
    i: int,
    value: u8,
)
    requires
        segment_at(space, ptr, layout),
        segment_at(other_space, other_ptr, layout),
        object.len() == layout.object_size(),
        0 <= i < layout.mapped_size(),
    ensures
        store(space, object, ptr + i, value) matches Some(after) && load(
            other_space,
            after,
            other_ptr + i,
        ) == Some(value),
{
    layouts_share_the_object(
        space,
        ptr,
        layout,
        other_space,
        other_ptr,
        layout,
        object,
        i,
        i,
        value,
    );
}

/// Segments of different shapes over one object share it too, such as a plain and a
/// mirrored one: what is stored in the one is loaded from the other, wherever the other
/// shows the same byte of the object, and nowhere else.
pub proof fn layouts_share_the_object(
    space: Map<int, Memory>,
    ptr: int,
    layout: Layout,
    other_space: Map<int, Memory>,
    other_ptr: int,
    other_layout: Layout,
    object: Seq<u8>,
    i: int,
    j: int,
    value: u8,
)
    requires
        segment_at(space, ptr, layout),
        segment_at(other_space, other_ptr, other_layout),
        layout.object_size() <= object.len(),
        other_layout.object_size() <= object.len(),
        0 <= i < layout.mapped_size(),
        0 <= j < other_layout.mapped_size(),
    ensures
        store(space, object, ptr + i, value) matches Some(after) && load(
            other_space,
            after,
            other_ptr + j,
        ) == if object_offset(layout, i) == object_offset(other_layout, j) {
            Some(value)
        } else {
            load(other_space, object, other_ptr + j)
        },
        load(other_space, object, other_ptr + j) is Some,
{
    assert(space.dom().contains(ptr + i));
    assert(other_space.dom().contains(other_ptr + j));
}

} // verus!
