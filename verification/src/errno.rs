//! Text for the error numbers of the operating system.

use vstd::prelude::*;

verus! {

/// The text that stands for an error number.
pub uninterp spec fn errno_text_of(code: i32) -> Seq<char>;

/// The text of `nix::errno::Errno::from_raw(code)`, as its `Display` gives it: the
/// error's symbol, a colon and its description, out of a table that nix holds as
/// constants for the platform it is compiled for. Claimed is only that the text
/// depends on the number alone; the table itself is not restated.
#[verifier::external_body]
pub(crate) fn errno_text(code: i32) -> (text: String)
    ensures
        text@ == errno_text_of(code),
{
    nix::errno::Errno::from_raw(code).to_string()
}

} // verus!
