//! The one call into rayon.

use crate::grid::{Cell, Grid};
use rayon::iter::{IndexedParallelIterator, IntoParallelRefMutIterator, ParallelIterator};
use vstd::prelude::*;

verus! {

/// Fills `next` with the next generation of `current`, on rayon's thread
/// pool.
///
/// The body is rayon's `par_iter_mut().enumerate().for_each(..)` on `next`:
/// `par_iter_mut` hands out each slot of the vector once, as a mutable
/// reference; `enumerate` pairs the slot with its index; `for_each` runs the
/// closure on every pair and returns when all have run. The closure stores
/// in slot `ndx` what [`Grid::next_state`] returns for `ndx`, which is
/// `current@.next_cell(ndx)`, and reads nothing but `current`. The contract
/// says just that: the length stays and every slot holds that cell. Verus
/// takes it on trust.
#[verifier::external_body]
pub(crate) fn fill_next_generation(current: &Grid, next: &mut Vec<Cell>)
    requires
        old(next)@.len() == current@.cells.len(),
    ensures
        final(next)@.len() == old(next)@.len(),
        forall|i: int| 0 <= i < final(next)@.len() ==> final(next)@[i] == current@.next_cell(i),
{
    next.par_iter_mut().enumerate().for_each(
        |(ndx, c)|
            {
                *c = current.next_state(ndx);
            },
    );
}

} // verus!
