//! Coordinate arithmetic on a ring of `size` positions, numbered from zero.
//!
//! A torus is two such rings, one for rows and one for columns. Moving off one
//! end of a ring enters it again at the other end.

use vstd::prelude::*;
use vstd::arithmetic::div_mod::{
    lemma_fundamental_div_mod_converse, lemma_mod_add_multiples_vanish, lemma_small_mod,
};

verus! {

/// The position on a ring of `size` positions that the coordinate `x` stands
/// for, where `x` may lie any distance before or after the ring's range.
pub open spec fn wrap(x: int, size: nat) -> int {
    x % (size as int)
}

/// The position one step before `x` on the ring, for a position `x`.
pub open spec fn before(x: int, size: nat) -> int {
    if x == 0 {
        size - 1
    } else {
        x - 1
    }
}

/// The position one step after `x` on the ring, for a position `x`.
pub open spec fn after(x: int, size: nat) -> int {
    if x + 1 == size {
        0
    } else {
        x + 1
    }
}

/// A wrapped coordinate is a position of the ring.
pub proof fn lemma_wrap_in_range(x: int, size: nat)
    requires
        size > 0,
    ensures
        0 <= wrap(x, size) < size,
{
}

/// A position of the ring stands for itself.
pub proof fn lemma_wrap_identity(x: int, size: nat)
    requires
        0 <= x < size,
    ensures
        wrap(x, size) == x,
{
    lemma_small_mod(x as nat, size);
}

/// One step forward from a position: the next position, or the first one
/// after the last.
pub proof fn lemma_wrap_successor(x: int, size: nat)
    requires
        0 <= x < size,
    ensures
        wrap(x + 1, size) == after(x, size),
        0 <= after(x, size) < size,
{
    if x + 1 == size {
        lemma_fundamental_div_mod_converse(x + 1, size as int, 1, 0);
    } else {
        lemma_small_mod((x + 1) as nat, size);
    }
}

/// One step backward from a position: the previous position, or the last one
/// before the first.
pub proof fn lemma_wrap_predecessor(x: int, size: nat)
    requires
        0 <= x < size,
    ensures
        wrap(x - 1, size) == before(x, size),
        0 <= before(x, size) < size,
{
    if x == 0 {
        lemma_fundamental_div_mod_converse(-1, size as int, -1, size - 1);
    } else {
        lemma_small_mod((x - 1) as nat, size);
    }
}

/// Going `size - 1` steps forward is going one step backward. This is what
/// lets unsigned arithmetic step backward from position zero.
pub proof fn lemma_wrap_backward_by_forward(x: int, size: nat)
    requires
        size > 0,
    ensures
        wrap(x + (size - 1), size) == wrap(x - 1, size),
{
    lemma_mod_add_multiples_vanish(x - 1, size as int);
    assert(size + (x - 1) == x + (size - 1));
}

/// Moves `delta` steps forward from `coordinate` on a ring of `size`
/// positions.
pub fn step_forward(coordinate: u32, delta: u32, size: u32) -> (position: u32)
    requires
        size > 0,
    ensures
        position == wrap(coordinate + delta, size as nat),
        position < size,
{
    let sum: u64 = coordinate as u64 + delta as u64;
    (sum % (size as u64)) as u32
}

} // verus!
