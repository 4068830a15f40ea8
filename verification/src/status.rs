use vstd::prelude::*;

verus! {

/// Status that the `exit` builtin hands back so that the prompt loop ends.
pub const EXIT_SIGNAL: i32 = -7777;

/// Status of a command that was not found, or whose program could not be
/// started.
pub const NOT_FOUND_STATUS: i32 = 127;

/// Status of a command that succeeded.
#[inline]
pub fn ok() -> (status: i32)
    ensures
        status == 0,
{
    0
}

/// Status of a builtin that failed.
#[inline]
pub fn err() -> (status: i32)
    ensures
        status == 1,
{
    1
}

} // verus!
