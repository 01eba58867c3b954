//! A view of a message that still lies in the queue.

use crate::pyerr::{plain_error, Exception, PyFailure};
use vstd::prelude::*;

verus! {

/// A view of a message: where the message lies, how long it is, and up to which
/// position the queue has been read once the view is given up.
#[derive(Clone, Copy, Debug, PartialEq, Eq, Structural)]
pub struct ZooView {
    pub ptr: usize,
    pub len: usize,
    pub next_pos: u64,
    pub committed: bool,
}

/// The memory that a buffer gives access to.
#[derive(Clone, Copy, Debug, PartialEq, Eq, Structural)]
pub struct BufferInfo {
    pub ptr: usize,
    pub len: usize,
    pub readonly: bool,
}

impl ZooView {
    /// The view after it was given up.
    pub open spec fn given_up(self) -> ZooView {
        ZooView { committed: true, ..self }
    }

    /// The position that giving up the view commits: none if it was given up before.
    pub open spec fn commits(self) -> Option<u64> {
        if self.committed {
            None
        } else {
            Some(self.next_pos)
        }
    }

    /// Gives up the view. Yields the position to commit, the first time.
    pub fn exit(&mut self) -> (commit: Option<u64>)
        ensures
            commit == old(self).commits(),
            *final(self) == old(self).given_up(),
    {
        if self.committed {
            return None;
        }
        self.committed = true;
        Some(self.next_pos)
    }

    /// The memory of the message, for reading only, unless there is no place for
    /// this information.
    pub fn getbuffer(&self, view_is_null: bool) -> (info: Result<BufferInfo, PyFailure>)
        ensures
            match info {
                Ok(info) => !view_is_null && info == (BufferInfo {
                    ptr: self.ptr,
                    len: self.len,
                    readonly: true,
                }),
                Err(failure) => view_is_null && failure@ == plain_error("View is null"@),
            },
    {
        if view_is_null {
            return Err(PyFailure::plain("View is null"));
        }
        Ok(BufferInfo { ptr: self.ptr, len: self.len, readonly: true })
    }

    /// The result of handing out the information. Any code but zero is a failure.
    pub fn buffer_filled(code: i32) -> (result: Result<(), PyFailure>)
        ensures
            match result {
                Ok(_) => code == 0,
                Err(failure) => code != 0 && failure@ == plain_error(
                    "PyBuffer_FillInfo failed"@,
                ),
            },
    {
        if code != 0 {
            return Err(PyFailure::plain("PyBuffer_FillInfo failed"));
        }
        Ok(())
    }
}

/// The positions that are committed when a view is given up `times` times in a row.
pub open spec fn committed_by(view: ZooView, times: nat) -> Seq<u64>
    decreases times,
{
    if times == 0 {
        Seq::empty()
    } else {
        let later = committed_by(view.given_up(), (times - 1) as nat);
        match view.commits() {
            Some(position) => seq![position] + later,
            None => later,
        }
    }
}

/// However often a view is given up, its position is committed once.
pub proof fn committed_once(view: ZooView, times: nat)
    requires
        !view.committed,
        times > 0,
    ensures
        committed_by(view, times) == seq![view.next_pos],
{
    lemma_nothing_more(view.given_up(), (times - 1) as nat);
    assert(committed_by(view, times) =~= seq![view.next_pos]);
}

proof fn lemma_nothing_more(view: ZooView, times: nat)
    requires
        view.committed,
    ensures
        committed_by(view, times) == Seq::<u64>::empty(),
    decreases times,
{
    if times > 0 {
        lemma_nothing_more(view.given_up(), (times - 1) as nat);
    }
}

/// Giving up a view for the first time commits its position; later it commits nothing.
/// The view stays where it is.
pub proof fn giving_up_commits_the_position_once()
    ensures
        forall|view: &mut ZooView, commit: Option<u64>| #[trigger]
            call_ensures(ZooView::exit, (view,), commit) ==> {
                &&& view.committed <==> commit is None
                &&& commit matches Some(position) ==> position == view.next_pos
                &&& final(view).committed
                &&& final(view).ptr == view.ptr
                &&& final(view).len == view.len
                &&& final(view).next_pos == view.next_pos
            },
{
}

/// The memory that a view gives access to is that of its message, all of it, for reading
/// only; it is refused exactly if there is no place for the information, or if handing
/// it out fails.
pub proof fn views_give_access_to_their_messages(
    view: ZooView,
    view_is_null: bool,
    info: Result<BufferInfo, PyFailure>,
    code: i32,
    filled: Result<(), PyFailure>,
)
    requires
        call_ensures(ZooView::getbuffer, (&view, view_is_null), info),
        call_ensures(ZooView::buffer_filled, (code,), filled),
    ensures
        info is Err <==> view_is_null,
        info matches Ok(memory) ==> memory.ptr == view.ptr && memory.len == view.len
            && memory.readonly,
        info matches Err(failure) ==> failure.exception == Exception::RuntimeError
            && failure.message@ == "View is null"@,
        filled is Ok <==> code == 0,
        filled matches Err(failure) ==> failure.exception == Exception::RuntimeError
            && failure.message@ == "PyBuffer_FillInfo failed"@,
{
}

} // verus!
