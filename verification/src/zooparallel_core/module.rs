//! What the module says when it is loaded.

use vstd::prelude::*;

verus! {

/// The warning that is given on platforms other than Linux, where mutexes are not
/// robust.
pub fn platform_warning(is_linux: bool) -> (warning: Option<&'static str>)
    ensures
        is_linux <==> warning is None,
        warning matches Some(text) ==> text@
            == "Running on non-Linux platform. Crash recovery (Robust Mutex) is NOT supported. Deadlocked processes may require manual cleanup."@,
{
    if is_linux {
        None
    } else {
        Some(
            "Running on non-Linux platform. Crash recovery (Robust Mutex) is NOT supported. Deadlocked processes may require manual cleanup.",
        )
    }
}

/// Nothing is said on Linux; elsewhere it is said that crashes are not recovered from.
pub proof fn warning_is_for_other_platforms(is_linux: bool, warning: Option<&'static str>)
    requires
        call_ensures(platform_warning, (is_linux,), warning),
    ensures
        warning is Some <==> !is_linux,
        warning matches Some(text) ==> text@
            == "Running on non-Linux platform. Crash recovery (Robust Mutex) is NOT supported. Deadlocked processes may require manual cleanup."@,
{
}

} // verus!
