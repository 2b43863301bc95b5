//! "The first that is special, else the first that will do": the shape of every hardware choice.
use vstd::prelude::*;

verus! {

/// Among candidates `0..n`, `i` is the first one that `fits` and is `special`, or, if no
/// fitting one is special, the first one that fits.
pub open spec fn is_pick(
    n: int,
    fits: spec_fn(int) -> bool,
    special: spec_fn(int) -> bool,
    i: int,
) -> bool {
    &&& 0 <= i < n
    &&& fits(i)
    &&& if some_special(n, fits, special) {
        special(i) && forall|j: int| 0 <= j < i ==> !(#[trigger] fits(j) && special(j))
    } else {
        forall|j: int| 0 <= j < i ==> !#[trigger] fits(j)
    }
}

pub open spec fn some_special(
    n: int,
    fits: spec_fn(int) -> bool,
    special: spec_fn(int) -> bool,
) -> bool {
    exists|j: int| 0 <= j < n && #[trigger] fits(j) && special(j)
}

pub open spec fn none_fits(n: int, fits: spec_fn(int) -> bool) -> bool {
    forall|j: int| 0 <= j < n ==> !#[trigger] fits(j)
}

/// There is at most one pick.
pub proof fn pick_is_unique(
    n: int,
    fits: spec_fn(int) -> bool,
    special: spec_fn(int) -> bool,
    i: int,
    j: int,
)
    requires
        is_pick(n, fits, special, i),
        is_pick(n, fits, special, j),
    ensures
        i == j,
{
    if i < j {
        assert(fits(i));
    } else if j < i {
        assert(fits(j));
    }
}

/// Candidates after a fitting special one do not matter: the search may stop there.
pub proof fn special_pick_is_final(
    n: int,
    k: int,
    fits: spec_fn(int) -> bool,
    special: spec_fn(int) -> bool,
    i: int,
)
    requires
        0 <= k < n,
        fits(k),
        special(k),
    ensures
        is_pick(k + 1, fits, special, i) <==> is_pick(n, fits, special, i),
{
    assert(some_special(k + 1, fits, special));
    assert(some_special(n, fits, special));
    if is_pick(n, fits, special, i) && i > k {
        assert(!(fits(k) && special(k)));
    }
}

} // verus!
