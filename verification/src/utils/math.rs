//! Small arithmetic helpers.

use vstd::prelude::*;

verus! {

/// The result of rounding `number` up to a multiple of `multiple`.
pub open spec fn roundup_spec(number: int, multiple: int) -> int {
    number + (multiple - number % multiple) % multiple
}

/// Rounds `number` up to the next multiple of `multiple` (itself when it
/// already is one).
pub fn roundup(number: usize, multiple: usize) -> (res: usize)
    requires
        multiple > 0,
        roundup_spec(number as int, multiple as int) <= usize::MAX,
    ensures
        res == roundup_spec(number as int, multiple as int),
        res % multiple == 0,
        number <= res < number + multiple,
{
    proof {
        lemma_roundup(number as int, multiple as int);
    }
    number + (multiple - (number % multiple)) % multiple
}

/// Rounding up gives the least multiple of `multiple` that is not below
/// `number`.
pub proof fn lemma_roundup(number: int, multiple: int)
    requires
        number >= 0,
        multiple > 0,
    ensures
        roundup_spec(number, multiple) % multiple == 0,
        number <= roundup_spec(number, multiple) < number + multiple,
{
    let r = number % multiple;
    let q = number / multiple;
    assert(number == q * multiple + r) by (nonlinear_arith)
        requires
            multiple > 0,
            r == number % multiple,
            q == number / multiple,
    ;
    if r == 0 {
        assert((multiple - r) % multiple == 0) by (nonlinear_arith)
            requires
                r == 0,
                multiple > 0,
        ;
    } else {
        assert((multiple - r) % multiple == multiple - r) by (nonlinear_arith)
            requires
                0 < r < multiple,
        ;
        assert((number + multiple - r) % multiple == 0) by (nonlinear_arith)
            requires
                number == q * multiple + r,
                multiple > 0,
        {
            assert(number + multiple - r == (q + 1) * multiple);
            vstd::arithmetic::div_mod::lemma_mod_multiples_basic(q + 1, multiple);
        }
    }
}

} // verus!
