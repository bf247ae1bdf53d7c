use vstd::prelude::*;

verus! {

/// Which allocator serves a call on a pointer.
#[derive(Clone, Copy, Debug, PartialEq, Eq, Structural)]
pub enum Route {
    /// The mimalloc counterpart of the hooked function.
    Mimalloc,
    /// The original UCRT function (saved before it was hooked).
    Original,
}

/// The route that a hook with no migration path takes (`_expand`, `free`,
/// `_aligned_free`, `_msize`, `_aligned_msize`): a block that one of the
/// mimalloc heaps holds goes to mimalloc, anything else (the null pointer
/// included) goes to the original UCRT function.
pub open spec fn spec_route(in_mimalloc: bool) -> Route {
    if in_mimalloc {
        Route::Mimalloc
    } else {
        Route::Original
    }
}

/// Chooses the allocator for a call on a pointer, given whether mimalloc's
/// heaps contain it.
pub fn route_by_owner(in_mimalloc: bool) -> (r: Route)
    ensures
        r == spec_route(in_mimalloc),
        r == Route::Mimalloc <==> in_mimalloc,
{
    if in_mimalloc {
        Route::Mimalloc
    } else {
        Route::Original
    }
}

} // verus!
