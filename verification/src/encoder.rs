//! Quadrature encoders: turning accumulated edges into detents.
use vstd::prelude::*;

verus! {

pub const NUM_ENCODERS: usize = 6;

/// `a + b`, clamped to the `i8` range.
pub open spec fn spec_sat_add_i8(a: i8, b: i8) -> i8 {
    let s = a + b;
    if s > 127 {
        127
    } else if s < -128 {
        -128i8
    } else {
        s as i8
    }
}

/// Whole detents in `acc` edges (two edges per detent), rounded toward zero.
pub open spec fn spec_detents(acc: int) -> int {
    if acc >= 0 { acc / 2 } else { -((-acc) / 2) }
}

/// Add one drained edge count `delta` to `edge_accumulator` (saturating) and
/// take out every whole detent: two edges in the same direction make one
/// detent, and the leftover single edge (if any) stays in the accumulator.
/// A zero `delta` changes nothing and gives 0.
pub fn take_detents(delta: i8, edge_accumulator: &mut i8) -> (detents: i8)
    ensures
        delta == 0 ==> detents == 0 && *final(edge_accumulator) == *old(edge_accumulator),
        delta != 0 ==> ({
            let acc = spec_sat_add_i8(*old(edge_accumulator), delta);
            &&& detents == spec_detents(acc as int)
            &&& *final(edge_accumulator) == acc - 2 * detents
        }),
        -1 <= *final(edge_accumulator) <= 1 || delta == 0,
{
    if delta == 0 {
        return 0;
    }
    let sum: i16 = *edge_accumulator as i16 + delta as i16;
    let acc: i8 = if sum > 127 {
        127
    } else if sum < -128 {
        -128
    } else {
        sum as i8
    };
    *edge_accumulator = acc;
    let mut detents: i8 = 0;
    while *edge_accumulator > 1
        invariant
            acc >= 0 ==> *edge_accumulator >= 0,
            acc < 0 ==> *edge_accumulator == acc,
            acc >= 0 ==> *edge_accumulator == acc - 2 * detents,
            0 <= detents <= 64,
            acc < 0 ==> detents == 0,
        decreases *edge_accumulator,
    {
        *edge_accumulator = *edge_accumulator - 2;
        detents = detents + 1;
    }
    while *edge_accumulator < -1
        invariant
            acc >= 0 ==> *edge_accumulator == acc - 2 * detents && 0 <= *edge_accumulator <= 1
                && detents == spec_detents(acc as int),
            acc < 0 ==> *edge_accumulator <= 0 && *edge_accumulator == acc - 2 * detents,
            acc < 0 ==> -64 <= detents <= 0,
        decreases 0 - *edge_accumulator,
    {
        *edge_accumulator = *edge_accumulator + 2;
        detents = detents - 1;
    }
    assert(acc < 0 ==> detents == spec_detents(acc as int)) by {
        if acc < 0 {
            assert(-1 <= *edge_accumulator <= 0);
        }
    }
    detents
}

/// The direction of one interrupt edge: +1 (clockwise) when the interrupt
/// pin's new level equals the companion pin's, -1 otherwise; `invert` swaps
/// the two for encoders wired the other way round. `pins` is the port's
/// input register.
pub fn edge_direction(pins: u32, irq_pin: u8, companion: u8, invert: bool) -> (d: i8)
    requires
        irq_pin < 32,
        companion < 32,
    ensures
        ({
            let irq_new = (pins >> irq_pin) & 1 != 0;
            let comp = (pins >> companion) & 1 != 0;
            let cw = if invert { irq_new != comp } else { irq_new == comp };
            d == if cw { 1i8 } else { -1i8 }
        }),
{
    let irq_new = (pins >> irq_pin) & 1 != 0;
    let comp = (pins >> companion) & 1 != 0;
    let cw = if invert { irq_new != comp } else { irq_new == comp };
    if cw { 1 } else { -1 }
}

/// No edge is lost: the detents taken out, two edges each, plus the edge
/// left over make up the (saturated) accumulated count; the leftover is at
/// most one edge, in the direction of the count, and the detents turn the
/// same way as the edges.
pub proof fn lemma_detents_conserve_edges(old_acc: i8, delta: i8)
    ensures
        ({
            let acc = spec_sat_add_i8(old_acc, delta) as int;
            let d = spec_detents(acc);
            let left = acc - 2 * d;
            &&& -1 <= left <= 1
            &&& left * acc >= 0
            &&& d * acc >= 0
            &&& -128 <= old_acc + delta <= 127 ==> 2 * d + left == old_acc + delta
        }),
{
    let acc = spec_sat_add_i8(old_acc, delta) as int;
    let d = spec_detents(acc);
    if acc >= 0 {
        assert(acc - 2 * (acc / 2) == acc % 2);
        assert((acc - 2 * d) * acc >= 0) by (nonlinear_arith)
            requires acc >= 0, acc - 2 * d >= 0;
        assert(d * acc >= 0) by (nonlinear_arith)
            requires acc >= 0, d >= 0;
    } else {
        assert((-acc) - 2 * ((-acc) / 2) == (-acc) % 2);
        assert((acc - 2 * d) * acc >= 0) by (nonlinear_arith)
            requires acc < 0, acc - 2 * d <= 0;
        assert(d * acc >= 0) by (nonlinear_arith)
            requires acc < 0, d <= 0;
    }
}

} // verus!
