//! How the handle on a task is given up.

use vstd::prelude::*;

verus! {

/// The handle was dropped: it was handed to `Result::ok` as an error, which that function consumes
/// and discards. Nothing but that call makes this known of a handle, so that a contract which
/// promises it is kept only by code that gives the handle up.
pub open spec fn is_dropped<H>(handle: H) -> bool {
    call_ensures(Result::<(), H>::ok, (Err::<(), H>(handle),), None::<()>)
}

/// A handle that was held, if there was one, was dropped.
pub open spec fn none_is_left<H>(held: Option<H>) -> bool {
    held matches Some(handle) ==> is_dropped(handle)
}

/// Drops the handle that is held, if there is one.
pub fn release<H>(held: &mut Option<H>)
    ensures
        *final(held) is None,
        none_is_left(*old(held)),
{
    match held.take() {
        Some(handle) => {
            let _none = Err::<(), H>(handle).ok();
        },
        None => {},
    }
}

/// A slot from which the handle was released is empty, and the handle that was in it was dropped.
pub proof fn law_released_handle_was_dropped<H>(held: &mut Option<H>)
    requires
        call_ensures(release::<H>, (held,), ()),
    ensures
        *final(held) is None,
        *old(held) matches Some(handle) ==> call_ensures(
            Result::<(), H>::ok,
            (Err::<(), H>(handle),),
            None::<()>,
        ),
{
}

} // verus!
