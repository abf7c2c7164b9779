//! Going round: the item after the last is the first, and the one before the
//! first is the last.

use vstd::prelude::*;

verus! {

/// The index after `i` of `n`, from the last back to the first.
pub open spec fn after(i: int, n: int) -> int {
    if i + 1 < n {
        i + 1
    } else {
        0
    }
}

/// The index before `i` of `n`, from the first on to the last.
pub open spec fn before(i: int, n: int) -> int {
    if i == 0 {
        n - 1
    } else {
        i - 1
    }
}

pub fn go_after(i: usize, n: usize) -> (r: usize)
    requires
        i < n,
    ensures
        r == after(i as int, n as int),
        r < n,
{
    if i + 1 < n {
        i + 1
    } else {
        0
    }
}

pub fn go_before(i: usize, n: usize) -> (r: usize)
    requires
        i < n,
    ensures
        r == before(i as int, n as int),
        r < n,
{
    if i == 0 {
        n - 1
    } else {
        i - 1
    }
}

/// One step forward and one step back, in either order, lead nowhere; and a
/// step forward is a step modulo the number of items.
pub proof fn law_steps_undo(i: int, n: int)
    requires
        0 <= i < n,
    ensures
        before(after(i, n), n) == i,
        after(before(i, n), n) == i,
        0 <= after(i, n) < n,
        0 <= before(i, n) < n,
        after(i, n) == (i + 1) % n,
{
    if i + 1 < n {
        assert((i + 1) % n == i + 1) by (nonlinear_arith)
            requires
                0 <= i + 1 < n,
        ;
    } else {
        assert(n % n == 0) by (nonlinear_arith)
            requires
                n > 0,
        ;
    }
}

} // verus!
