//! Attaching to a named segment: it is opened if it is there, and otherwise made and
//! initialized.

use crate::pyerr::{runtime_error, Exception, Failure, PyFailure};
use vstd::prelude::*;

verus! {

/// How far the attachment to a segment of type `S` has come.
pub enum Attach<S> {
    /// The next thing is to open the segment.
    Open,
    /// The next thing is to make the segment.
    Create,
    /// The next thing is to initialize what lies in the new segment.
    Initialize(S),
    /// The segment can be used.
    Ready(S),
    /// There is no segment to use.
    Failed(PyFailure),
}

/// An attachment, with its failure as a sequence of characters.
pub enum Attachment<S> {
    Open,
    Create,
    Initialize(S),
    Ready(S),
    Failed(Failure),
}

impl<S> View for Attach<S> {
    type V = Attachment<S>;

    open spec fn view(&self) -> Attachment<S> {
        match *self {
            Attach::Open => Attachment::Open,
            Attach::Create => Attachment::Create,
            Attach::Initialize(segment) => Attachment::Initialize(segment),
            Attach::Ready(segment) => Attachment::Ready(segment),
            Attach::Failed(failure) => Attachment::Failed(failure@),
        }
    }
}

/// After the attempt to open. Why it failed does not matter.
pub open spec fn after_open<S>(found: Option<S>) -> Attachment<S> {
    match found {
        Some(segment) => Attachment::Ready(segment),
        None => Attachment::Create,
    }
}

/// After the attempt to make the segment, which failed for the reason `cause` unless
/// there is a segment.
pub open spec fn after_create<S>(
    made: Option<S>,
    context: Seq<char>,
    cause: Seq<char>,
) -> Attachment<S> {
    match made {
        Some(segment) => Attachment::Initialize(segment),
        None => Attachment::Failed(runtime_error(context, cause)),
    }
}

/// After the attempt to initialize a new segment, which failed for the reason
/// `cause` unless `done`.
pub open spec fn after_initialize<S>(
    segment: S,
    done: bool,
    context: Seq<char>,
    cause: Seq<char>,
) -> Attachment<S> {
    if done {
        Attachment::Ready(segment)
    } else {
        Attachment::Failed(runtime_error(context, cause))
    }
}

impl<S> Attach<S> {
    /// After the attempt to open. Why it failed does not matter.
    pub fn opened(found: Option<S>) -> (stage: Attach<S>)
        ensures
            stage@ == after_open(found),
    {
        match found {
            Some(segment) => Attach::Ready(segment),
            None => Attach::Create,
        }
    }

    /// After the attempt to make the segment: the segment, or why there is none.
    pub fn created(made: Result<S, String>, context: &str) -> (stage: Attach<S>)
        ensures
            match made {
                Ok(segment) => stage@ == after_create(Some(segment), context@, Seq::empty()),
                Err(cause) => stage@ == after_create(None::<S>, context@, cause@),
            },
    {
        match made {
            Ok(segment) => Attach::Initialize(segment),
            Err(cause) => Attach::Failed(PyFailure::runtime(context, cause.as_str())),
        }
    }

    /// After the attempt to initialize a new segment: nothing, or why it failed.
    pub fn initialized(segment: S, done: Result<(), String>, context: &str) -> (stage: Attach<S>)
        ensures
            match done {
                Ok(_) => stage@ == after_initialize(segment, true, context@, Seq::empty()),
                Err(cause) => stage@ == after_initialize(segment, false, context@, cause@),
            },
    {
        match done {
            Ok(_) => Attach::Ready(segment),
            Err(cause) => Attach::Failed(PyFailure::runtime(context, cause.as_str())),
        }
    }
}

/// A segment that is there already is used as it is; only one that was newly made is
/// initialized, and it is used only after that succeeded.
pub proof fn only_new_segments_are_initialized<S>(
    found: Option<S>,
    made: Option<S>,
    done: bool,
    context: Seq<char>,
    cause: Seq<char>,
)
    ensures
        found matches Some(segment) ==> after_open(found) == Attachment::Ready(segment),
        found is None ==> after_open(found) == Attachment::<S>::Create,
        !(after_create(made, context, cause) is Ready),
        after_create(made, context, cause) matches Attachment::Initialize(segment) ==> {
            &&& made == Some(segment)
            &&& after_initialize(segment, done, context, cause) is Ready <==> done
        },
{
}

/// What is found is used as it is, without making anything; what is not found is made.
pub proof fn found_segments_are_used<S>(found: Option<S>, stage: Attach<S>)
    requires
        call_ensures(Attach::<S>::opened, (found,), stage),
    ensures
        found matches Some(segment) ==> stage == Attach::Ready(segment),
        found is None ==> stage is Create,
{
}

/// What was made is initialized next, and used once that succeeded. If either fails, so
/// does the attachment, with a runtime error that names the context and the whole cause.
pub proof fn made_segments_are_initialized<S>(
    made: Result<S, String>,
    context: &str,
    stage: Attach<S>,
    segment: S,
    done: Result<(), String>,
    end: Attach<S>,
)
    requires
        call_ensures(Attach::<S>::created, (made, context), stage),
        call_ensures(Attach::<S>::initialized, (segment, done, context), end),
    ensures
        made matches Ok(new) ==> stage == Attach::Initialize(new),
        made matches Err(cause) ==> (stage matches Attach::Failed(failure) && failure.exception
            == Exception::RuntimeError && failure.message@ == context@ + cause@),
        done is Ok ==> end == Attach::Ready(segment),
        done matches Err(cause) ==> (end matches Attach::Failed(failure) && failure.exception
            == Exception::RuntimeError && failure.message@ == context@ + cause@),
{
}

/// An attachment is seen as what it is.
pub proof fn attachments_are_seen_as_they_are<S>(stage: Attach<S>)
    ensures
        stage is Open <==> stage@ is Open,
        stage is Create <==> stage@ is Create,
        stage matches Attach::Initialize(segment) ==> stage@ == Attachment::Initialize(segment),
        stage matches Attach::Ready(segment) ==> stage@ == Attachment::Ready(segment),
        stage matches Attach::Failed(failure) ==> stage@ == Attachment::<S>::Failed(failure@),
{
}

} // verus!
