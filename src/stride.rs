use vstd::prelude::*;

verus! {

/// The smallest multiple of `step` that is at least `value`.
pub open spec fn next_multiple(value: int, step: int) -> int {
    step * (value / step + if value % step == 0 { 0int } else { 1int })
}

/// Rounds `value` up to the next multiple of `step`; a value that is already
/// a multiple is returned unchanged.
pub fn ceil_to_next_multiple(value: u32, step: u32) -> (r: u32)
    requires
        step > 0,
        next_multiple(value as int, step as int) <= u32::MAX,
    ensures
        r == next_multiple(value as int, step as int),
{
    let quotient: u32 = value / step;
    let divide_and_ceil: u32 = if value % step == 0 {
        quotient
    } else {
        assert(quotient < u32::MAX) by (nonlinear_arith)
            requires
                quotient == value / step,
                value % step != 0,
                step > 0,
        ;
        quotient + 1
    };
    step * divide_and_ceil
}

/// For a positive step, the rounded value is a multiple of the step, is at
/// least the value, and lies less than one step above it.
pub proof fn lemma_next_multiple_bounds(value: u32, step: u32)
    requires
        step > 0,
    ensures
        next_multiple(value as int, step as int) % (step as int) == 0,
        next_multiple(value as int, step as int) >= value,
        next_multiple(value as int, step as int) < value + step,
{
    let v = value as int;
    let s = step as int;
    let q = v / s;
    let c = if v % s == 0 { 0int } else { 1int };
    assert(v == s * q + v % s && 0 <= v % s < s) by (nonlinear_arith)
        requires
            s > 0,
            q == v / s,
    ;
    assert((s * (q + c)) % s == 0) by (nonlinear_arith)
        requires
            s > 0,
    ;
    assert(s * (q + c) == s * q + s * c) by (nonlinear_arith);
}

} // verus!
