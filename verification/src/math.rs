//! Small arithmetic helpers shared by the rest of the crate.

use vstd::prelude::*;
use vstd::std_specs::ops::MulSpec;

verus! {

/// Squares a value of any type that can be multiplied by itself.
#[inline]
pub fn const_pow2<X, X2>(x: X) -> (square: X2) where X: Copy, X: core::ops::Mul<Output = X2>
    requires
        x.mul_req(x),
    ensures
        X::obeys_mul_spec() ==> square == x.mul_spec(x),
{
    x * x
}

} // verus!
