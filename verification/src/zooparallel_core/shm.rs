//! Named shared memory segments, with sizes in whole pages where a segment is mirrored.

use crate::address_space::{
    all_or_nothing, effect, release_undoes_the_setup, segment_at, Drive, Memory,
};
use crate::errno::{errno_text, errno_text_of};
use crate::names::{missing_name_is_not_opened, removed_name_is_free, Session, System};
use crate::path::{
    first_nul, names_are_told_apart, nul_free, path_is_a_slash_and_the_name,
    refused_exactly_with_zero_character, slash_name, zero_bytes_are_zero_characters, NulError,
};
use crate::posix::{Call, SysReply, Syscall, ENOENT};
use crate::setup::{Layout, Outcome, Progress, SegmentSetup, Stage};
use crate::text::{decimal, decimal_spec, join, notation_stands_for_the_number, number};
use vstd::prelude::*;
use vstd::utf8::encode_utf8;

verus! {

/// Why there is no segment.
#[derive(Clone, Copy, Debug, PartialEq, Eq, Structural)]
pub enum ShmError {
    /// The operating system refused, with this error number.
    Nix(i32),
    /// The name has a zero byte.
    CString(NulError),
    /// A size is not a multiple of the page size: the size and the page size.
    AlignmentError(usize, usize),
}

impl ShmError {
    /// The error in words.
    pub open spec fn message_spec(self) -> Seq<char> {
        match self {
            ShmError::Nix(code) => "Nix error: "@ + errno_text_of(code),
            ShmError::CString(e) => "CString error: nul byte found in provided data at position: "@
                + decimal_spec(e.position as nat),
            ShmError::AlignmentError(size, page_size) => "Size must be page-aligned (got "@
                + decimal_spec(size as nat) + ", page size "@ + decimal_spec(page_size as nat)
                + ")"@,
        }
    }

    /// The error in words.
    pub fn message(&self) -> (text: String)
        ensures
            text@ == self.message_spec(),
    {
        match *self {
            ShmError::Nix(code) => join("Nix error: ", errno_text(code).as_str()),
            ShmError::CString(e) => join(
                "CString error: nul byte found in provided data at position: ",
                decimal(e.position).as_str(),
            ),
            ShmError::AlignmentError(size, page_size) => {
                let got = join("Size must be page-aligned (got ", decimal(size).as_str());
                let with_label = join(got.as_str(), ", page size ");
                let with_page = join(with_label.as_str(), decimal(page_size).as_str());
                join(with_page.as_str(), ")")
            },
        }
    }
}

/// A segment of shared memory: where it lies and how long it is.
#[derive(Clone, Copy, Debug, PartialEq, Eq, Structural)]
pub struct ShmSegment {
    pub ptr: usize,
    pub size: usize,
}

/// The name of the shared memory object that `name` stands for. It has no zero byte.
pub fn shm_path(name: &str) -> (path: Result<String, ShmError>)
    ensures
        match path {
            Ok(text) => nul_free(encode_utf8(slash_name(name@))) && text@ == slash_name(name@),
            Err(ShmError::CString(e)) => first_nul(
                encode_utf8(slash_name(name@)),
                e.position as int,
            ),
            Err(_) => false,
        },
{
    match crate::path::shm_path(name) {
        Ok(path) => Ok(path),
        Err(e) => Err(ShmError::CString(e)),
    }
}

/// Whether `size` consists of whole pages. Only nothing consists of pages of size
/// zero.
pub open spec fn whole_pages(size: usize, page_size: usize) -> bool {
    if page_size == 0 {
        size == 0
    } else {
        size % page_size == 0
    }
}

fn is_whole_pages(size: usize, page_size: usize) -> (whole: bool)
    ensures
        whole == whole_pages(size, page_size),
{
    if page_size == 0 {
        size == 0
    } else {
        size % page_size == 0
    }
}

/// A mirrored setup was begun; or a size is not made of whole pages, and the error
/// names the header's size if that is one; or else the name has a zero byte.
pub open spec fn begun_mirrored(
    result: Result<SegmentSetup, ShmError>,
    name: Seq<char>,
    header_size: usize,
    data_size: usize,
    page_size: usize,
    create: bool,
) -> bool {
    if !whole_pages(header_size, page_size) {
        result == Err::<SegmentSetup, ShmError>(ShmError::AlignmentError(header_size, page_size))
    } else if !whole_pages(data_size, page_size) {
        result == Err::<SegmentSetup, ShmError>(ShmError::AlignmentError(data_size, page_size))
    } else {
        begun(result, name, Layout::Mirrored { header_size, data_size }, create)
    }
}

/// A setup was begun for the object that `name` stands for; or the name has a zero
/// byte, and the error tells where the first one is.
pub open spec fn begun(
    result: Result<SegmentSetup, ShmError>,
    name: Seq<char>,
    layout: Layout,
    create: bool,
) -> bool {
    let path = slash_name(name);
    match result {
        Ok(setup) => nul_free(encode_utf8(path)) && setup.is_fresh(path, layout, create)
            && setup.wf(),
        Err(ShmError::CString(e)) => first_nul(encode_utf8(path), e.position as int),
        Err(_) => false,
    }
}

impl ShmSegment {
    /// Begins to make an object of `size` bytes and to map it. There must be none of
    /// that name yet.
    pub fn create(name: &str, size: usize) -> (setup: Result<SegmentSetup, ShmError>)
        ensures
            begun(setup, name@, Layout::Single { size }, true),
    {
        Self::create_impl(name, size, true)
    }

    /// Begins to make an object of a header and a data area, and to map it with the
    /// data area mirrored. There must be none of that name yet.
    pub fn create_mirrored(
        name: &str,
        header_size: usize,
        data_size: usize,
        page_size: usize,
    ) -> (setup: Result<SegmentSetup, ShmError>)
        ensures
            begun_mirrored(setup, name@, header_size, data_size, page_size, true),
    {
        Self::create_mirrored_impl(name, header_size, data_size, page_size, true)
    }

    /// Begins to map `size` bytes of an object that is there.
    pub fn open(name: &str, size: usize) -> (setup: Result<SegmentSetup, ShmError>)
        ensures
            begun(setup, name@, Layout::Single { size }, false),
    {
        Self::create_impl(name, size, false)
    }

    /// Begins to map an object that is there, with its data area mirrored.
    pub fn open_mirrored(
        name: &str,
        header_size: usize,
        data_size: usize,
        page_size: usize,
    ) -> (setup: Result<SegmentSetup, ShmError>)
        ensures
            begun_mirrored(setup, name@, header_size, data_size, page_size, false),
    {
        Self::create_mirrored_impl(name, header_size, data_size, page_size, false)
    }

    fn create_impl(name: &str, size: usize, create: bool) -> (setup: Result<
        SegmentSetup,
        ShmError,
    >)
        ensures
            begun(setup, name@, Layout::Single { size }, create),
    {
        match shm_path(name) {
            Ok(path) => Ok(SegmentSetup::begin(path, Layout::Single { size }, create)),
            Err(e) => Err(e),
        }
    }

    fn create_mirrored_impl(
        name: &str,
        header_size: usize,
        data_size: usize,
        page_size: usize,
        create: bool,
    ) -> (setup: Result<SegmentSetup, ShmError>)
        ensures
            begun_mirrored(setup, name@, header_size, data_size, page_size, create),
    {
        if !is_whole_pages(header_size, page_size) {
            return Err(ShmError::AlignmentError(header_size, page_size));
        }
        if !is_whole_pages(data_size, page_size) {
            return Err(ShmError::AlignmentError(data_size, page_size));
        }
        match shm_path(name) {
            Ok(path) => Ok(
                SegmentSetup::begin(path, Layout::Mirrored { header_size, data_size }, create),
            ),
            Err(e) => Err(e),
        }
    }

    /// The segment that a setup ended with, or the error.
    pub open spec fn finish_spec(outcome: Outcome) -> Result<ShmSegment, ShmError> {
        match outcome {
            Outcome::Mapped { ptr, size } => Ok(ShmSegment { ptr, size }),
            Outcome::Failed { errno } => Err(ShmError::Nix(errno)),
        }
    }

    /// The result of removing an object's name.
    pub open spec fn unlinked_spec(reply: SysReply) -> Result<(), ShmError> {
        match reply {
            SysReply::Failed { errno } => Err(ShmError::Nix(errno)),
            _ => Ok(()),
        }
    }

    /// The segment that a setup ended with, or the error.
    pub fn finish(outcome: Outcome) -> (segment: Result<ShmSegment, ShmError>)
        ensures
            segment == Self::finish_spec(outcome),
    {
        match outcome {
            Outcome::Mapped { ptr, size } => Ok(ShmSegment { ptr, size }),
            Outcome::Failed { errno } => Err(ShmError::Nix(errno)),
        }
    }

    /// The call that removes an object's name.
    pub fn unlink(name: &str) -> (call: Result<Syscall, ShmError>)
        ensures
            match call {
                Ok(call) => nul_free(encode_utf8(slash_name(name@))) && call@
                    == (Call::ShmUnlink { path: slash_name(name@) }),
                Err(ShmError::CString(e)) => first_nul(
                    encode_utf8(slash_name(name@)),
                    e.position as int,
                ),
                Err(_) => false,
            },
    {
        match shm_path(name) {
            Ok(path) => Ok(Syscall::ShmUnlink { path }),
            Err(e) => Err(e),
        }
    }

    /// The result of removing an object's name.
    pub fn unlinked(reply: SysReply) -> (result: Result<(), ShmError>)
        ensures
            result == Self::unlinked_spec(reply),
    {
        match reply {
            SysReply::Failed { errno } => Err(ShmError::Nix(errno)),
            _ => Ok(()),
        }
    }

    /// The call that gives the segment's memory back, all of it.
    pub fn release(&self) -> (call: Syscall)
        ensures
            call@ == (Call::Munmap { address: self.ptr, length: self.size }),
    {
        Syscall::Munmap { address: self.ptr, length: self.size }
    }
}

/// After a name was removed, and before it is used again, removing it once more and
/// opening it are refused: there is no such name.
pub proof fn removed_name_is_gone(
    system: System,
    name: Seq<char>,
    again: SysReply,
    setup: SegmentSetup,
    replies: Seq<SysReply>,
)
    requires
        system.wf(),
        system.without_name(slash_name(name)).answers(
            Call::ShmUnlink { path: slash_name(name) },
            again,
        ),
        setup.is_fresh(slash_name(name), setup.layout, false),
        Session::start(setup, system.without_name(slash_name(name))).fits(replies),
        replies.len() > 0,
    ensures
        ShmSegment::unlinked_spec(again) == Err::<(), ShmError>(ShmError::Nix(ENOENT)),
        Session::start(setup, system.without_name(slash_name(name))).run(replies).progress matches
            Progress::Finished(outcome) && ShmSegment::finish_spec(outcome) == Err::<
            ShmSegment,
            ShmError,
        >(ShmError::Nix(ENOENT)),
{
    removed_name_is_free(system, slash_name(name), again);
    missing_name_is_not_opened(setup, system.without_name(slash_name(name)), replies);
}

/// However a setup ends, this is what comes of it. If it ends with memory, there is a
/// segment: it lies where the memory was mapped, has the size of the layout, shows the
/// object as the layout says, and its release leaves the address space as it was before
/// the setup. If it ends without, the error is the one that the setup ended with.
pub proof fn segment_is_what_was_set_up(
    setup: SegmentSetup,
    space: Map<int, Memory>,
    page: int,
    replies: Seq<SysReply>,
    outcome: Outcome,
    result: Result<ShmSegment, ShmError>,
    release: Syscall,
    errno: i32,
)
    requires
        page > 0,
        setup.stage == Stage::Open,
        Drive::start(setup, space, page).fits(replies),
        Drive::start(setup, space, page).run(replies).progress == Progress::Finished(outcome),
        call_ensures(ShmSegment::finish, (outcome,), result),
        result matches Ok(segment) ==> call_ensures(ShmSegment::release, (&segment,), release),
    ensures
        ({
            let end = Drive::start(setup, space, page).run(replies).space;
            match outcome {
                Outcome::Mapped { ptr, size } => result matches Ok(segment) && {
                    &&& segment.ptr == ptr
                    &&& segment.ptr > 0
                    &&& segment.size == match setup.layout {
                        Layout::Single { size: asked } => asked as int,
                        Layout::Mirrored { header_size, data_size } => header_size + 2 * data_size,
                    }
                    &&& segment_at(end, segment.ptr as int, setup.layout)
                    &&& effect(end, release@, SysReply::Unmapped { errno }, page) == space
                },
                Outcome::Failed { errno: reason } => result matches Err(ShmError::Nix(reported))
                    && reported == reason,
            }
        }),
{
    all_or_nothing(setup, space, page, replies);
    release_undoes_the_setup(setup, space, page, replies, errno);
}

/// The memory of a segment is given back from its start on, as far as it reaches.
pub proof fn release_covers_the_segment(segment: ShmSegment, call: Syscall)
    requires
        call_ensures(ShmSegment::release, (&segment,), call),
    ensures
        call matches Syscall::Munmap { address, length } && address == segment.ptr && length
            == segment.size,
{
}

/// Removing a name fails exactly if the call was refused, and tells why.
pub proof fn removal_reports_the_refusal(reply: SysReply, result: Result<(), ShmError>)
    requires
        call_ensures(ShmSegment::unlinked, (reply,), result),
    ensures
        result is Ok <==> !(reply is Failed),
        reply matches SysReply::Failed { errno } ==> (result matches Err(ShmError::Nix(reported))
            && reported == errno),
{
}

/// The call that removes a name is for the object that the name stands for: the name
/// behind one slash. It fails exactly if the name has a zero character.
pub proof fn removal_is_of_the_name(name: &str, call: Result<Syscall, ShmError>, slashed: Seq<char>)
    requires
        call_ensures(ShmSegment::unlink, (name,), call),
        name@.len() > 0 && name@[0] == '/' ==> slashed == name@,
        name@.len() == 0 || name@[0] != '/' ==> slashed == seq!['/'] + name@,
    ensures
        call is Ok <==> !name@.contains('\0'),
        call matches Ok(call) ==> (call matches Syscall::ShmUnlink { path } && path@ == slashed),
        call matches Err(e) ==> zero_byte_is_reported(e, slashed),
{
    path_is_a_slash_and_the_name(name@);
    refused_exactly_with_zero_character(name@);
    assert(slash_name(name@) =~= slashed);
    if !name@.contains('\0') {
        zero_bytes_are_zero_characters(slashed);
    }
}

/// The error tells where the first zero byte of the text's encoding is.
pub open spec fn zero_byte_is_reported(error: ShmError, text: Seq<char>) -> bool {
    error matches ShmError::CString(e) && {
        &&& e.position < encode_utf8(text).len()
        &&& encode_utf8(text)[e.position as int] == 0
        &&& forall|i: int| 0 <= i < e.position ==> #[trigger] encode_utf8(text)[i] != 0
    }
}

/// What a setup is begun for: the object that the name stands for, which is the name
/// behind one slash, in this shape, to be made or not. It fails exactly if the name has
/// a zero character.
pub open spec fn is_for(
    setup: Result<SegmentSetup, ShmError>,
    name: Seq<char>,
    slashed: Seq<char>,
    layout: Layout,
    create: bool,
) -> bool {
    &&& setup is Ok <==> !name.contains('\0')
    &&& setup matches Ok(setup) ==> {
        &&& setup.path@ == slashed
        &&& setup.layout == layout
        &&& setup.create == create
        &&& setup.stage is Open
        &&& call_requires(SegmentSetup::syscall, (&setup,))
    }
    &&& setup matches Err(e) ==> zero_byte_is_reported(e, slashed)
}

proof fn lemma_is_for(
    setup: Result<SegmentSetup, ShmError>,
    name: Seq<char>,
    slashed: Seq<char>,
    layout: Layout,
    create: bool,
)
    requires
        begun(setup, name, layout, create),
        name.len() > 0 && name[0] == '/' ==> slashed == name,
        name.len() == 0 || name[0] != '/' ==> slashed == seq!['/'] + name,
    ensures
        is_for(setup, name, slashed, layout, create),
{
    path_is_a_slash_and_the_name(name);
    refused_exactly_with_zero_character(name);
    assert(slash_name(name) =~= slashed);
}

/// Making and opening a plain segment are for the object of the name and for the size
/// that were given; only making it makes an object.
pub proof fn plain_segments_are_begun_as_asked(
    name: &str,
    size: usize,
    made: Result<SegmentSetup, ShmError>,
    opened: Result<SegmentSetup, ShmError>,
    slashed: Seq<char>,
)
    requires
        call_ensures(ShmSegment::create, (name, size), made),
        call_ensures(ShmSegment::open, (name, size), opened),
        name@.len() > 0 && name@[0] == '/' ==> slashed == name@,
        name@.len() == 0 || name@[0] != '/' ==> slashed == seq!['/'] + name@,
    ensures
        is_for(made, name@, slashed, Layout::Single { size }, true),
        is_for(opened, name@, slashed, Layout::Single { size }, false),
{
    lemma_is_for(made, name@, slashed, Layout::Single { size }, true);
    lemma_is_for(opened, name@, slashed, Layout::Single { size }, false);
}

/// Different names stand for different objects, unless a slash in front is all the
/// difference: what is made under the one is not what is opened under the other, and
/// removing the one leaves the other.
pub proof fn names_stand_for_objects_of_their_own(
    a: &str,
    b: &str,
    size: usize,
    made: SegmentSetup,
    opened: SegmentSetup,
    removed: String,
)
    requires
        call_ensures(ShmSegment::create, (a, size), Ok(made)),
        call_ensures(ShmSegment::open, (b, size), Ok(opened)),
        call_ensures(ShmSegment::unlink, (a,), Ok(Syscall::ShmUnlink { path: removed })),
        (a@.len() == 0 || a@[0] != '/') == (b@.len() == 0 || b@[0] != '/'),
    ensures
        made.path@ == opened.path@ <==> a@ == b@,
        removed@ == opened.path@ <==> a@ == b@,
        removed@ == made.path@,
{
    names_are_told_apart(a@, b@);
    let call = Syscall::ShmUnlink { path: removed };
    assert(call@ == (Call::ShmUnlink { path: removed@ }));
}

/// What is said of an error: what kind it is, and then the text of the error number,
/// where the zero byte is, or the size and the page size.
pub proof fn errors_are_put_into_words(error: ShmError, text: String)
    requires
        call_ensures(ShmError::message, (&error,), text),
    ensures
        error matches ShmError::Nix(code) ==> text@ == "Nix error: "@ + errno_text_of(code),
        error matches ShmError::CString(e) ==> exists|digits: Seq<char>|
            {
                &&& text@ == "CString error: nul byte found in provided data at position: "@
                    + digits
                &&& #[trigger] stands_for(digits, e.position)
            },
        error matches ShmError::AlignmentError(size, page_size) ==> exists|
            got: Seq<char>,
            page: Seq<char>,
        |
            {
                &&& text@ == "Size must be page-aligned (got "@ + got + ", page size "@ + page
                    + ")"@
                &&& #[trigger] stands_for(got, size)
                &&& #[trigger] stands_for(page, page_size)
            },
{
    match error {
        ShmError::Nix(_) => {},
        ShmError::CString(e) => {
            notation_stands_for_the_number(e.position as nat);
            assert(stands_for(decimal_spec(e.position as nat), e.position));
        },
        ShmError::AlignmentError(size, page_size) => {
            notation_stands_for_the_number(size as nat);
            notation_stands_for_the_number(page_size as nat);
            assert(stands_for(decimal_spec(size as nat), size));
            assert(stands_for(decimal_spec(page_size as nat), page_size));
        },
    }
}

/// The digits, and there are only digits, stand for the number.
pub open spec fn stands_for(digits: Seq<char>, n: usize) -> bool {
    &&& digits.len() > 0
    &&& number(digits) == n
    &&& forall|i: int| 0 <= i < digits.len() ==> '0' <= #[trigger] digits[i] <= '9'
}

/// A size that is made of whole pages is a multiple of the page size, and the other way
/// round.
pub proof fn whole_pages_are_multiples(size: usize, page_size: usize)
    ensures
        whole_pages(size, page_size) <==> exists|pages: int| #[trigger] (pages * page_size) == size,
{
    let s = size as int;
    let p = page_size as int;
    if p > 0 {
        if whole_pages(size, page_size) {
            assert((s / p) * p == s) by (nonlinear_arith)
                requires
                    p > 0,
                    s % p == 0,
            ;
        }
        if exists|pages: int| #[trigger] (pages * p) == s {
            let pages = choose|pages: int| #[trigger] (pages * p) == s;
            assert(s % p == 0) by (nonlinear_arith)
                requires
                    p > 0,
                    pages * p == s,
            ;
        }
    } else {
        assert forall|pages: int| #[trigger] (pages * p) == 0 by {
            assert(pages * p == 0) by (nonlinear_arith)
                requires
                    p == 0,
            ;
        }
        assert(0 * p == 0);
    }
}

/// Making and opening a mirrored segment are for the object of the name and for the
/// sizes that were given; only making it makes an object. Both fail if the header's size
/// is no multiple of the page size; or else if the data area's size is none; or else if
/// the name has a zero character.
pub proof fn mirrored_segments_are_begun_as_asked(
    name: &str,
    header_size: usize,
    data_size: usize,
    page_size: usize,
    made: Result<SegmentSetup, ShmError>,
    opened: Result<SegmentSetup, ShmError>,
    slashed: Seq<char>,
)
    requires
        call_ensures(ShmSegment::create_mirrored, (name, header_size, data_size, page_size), made),
        call_ensures(ShmSegment::open_mirrored, (name, header_size, data_size, page_size), opened),
        name@.len() > 0 && name@[0] == '/' ==> slashed == name@,
        name@.len() == 0 || name@[0] != '/' ==> slashed == seq!['/'] + name@,
    ensures
        ({
            let header_fits = exists|pages: int| #[trigger] (pages * page_size) == header_size;
            let data_fits = exists|pages: int| #[trigger] (pages * page_size) == data_size;
            let layout = Layout::Mirrored { header_size, data_size };
            if !header_fits {
                &&& made matches Err(ShmError::AlignmentError(size, page)) && size == header_size
                    && page == page_size
                &&& opened matches Err(ShmError::AlignmentError(size, page)) && size == header_size
                    && page == page_size
            } else if !data_fits {
                &&& made matches Err(ShmError::AlignmentError(size, page)) && size == data_size
                    && page == page_size
                &&& opened matches Err(ShmError::AlignmentError(size, page)) && size == data_size
                    && page == page_size
            } else {
                &&& is_for(made, name@, slashed, layout, true)
                &&& is_for(opened, name@, slashed, layout, false)
            }
        }),
{
    let layout = Layout::Mirrored { header_size, data_size };
    whole_pages_are_multiples(header_size, page_size);
    whole_pages_are_multiples(data_size, page_size);
    if whole_pages(header_size, page_size) && whole_pages(data_size, page_size) {
        lemma_is_for(made, name@, slashed, layout, true);
        lemma_is_for(opened, name@, slashed, layout, false);
    }
}

/// The path of a name is the name behind one slash. A name has none exactly if it has a
/// zero character.
pub proof fn paths_are_made_of_names(
    name: &str,
    path: Result<String, ShmError>,
    slashed: Seq<char>,
)
    requires
        call_ensures(shm_path, (name,), path),
        name@.len() > 0 && name@[0] == '/' ==> slashed == name@,
        name@.len() == 0 || name@[0] != '/' ==> slashed == seq!['/'] + name@,
    ensures
        path is Ok <==> !name@.contains('\0'),
        path matches Ok(text) ==> text@ == slashed,
        path matches Err(e) ==> zero_byte_is_reported(e, slashed),
{
    path_is_a_slash_and_the_name(name@);
    refused_exactly_with_zero_character(name@);
    assert(slash_name(name@) =~= slashed);
}

} // verus!
