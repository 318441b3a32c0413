//! Successor functions over integers.

use vstd::prelude::*;
use vstd::std_specs::ops::AddSpec;

verus! {

/// Successor of a 32-bit integer.
pub fn succ_i32(x: i32) -> (r: i32)
    requires
        x < i32::MAX,
    ensures
        r == x + 1,
{
    x + 1
}

/// Successor of any integer-like value, arbitrary-precision integers
/// included: the value plus the one converted from a signed byte. The caller
/// owes that the addition is legal, which for machine integers means that
/// the sum fits.
pub fn succ_big<T: core::ops::Add<Output = T> + From<i8>>(x: T) -> (r: T)
    requires
        forall|one: T| #[trigger] call_ensures(T::from, (1i8,), one) ==> x.add_req(one),
    ensures
        exists|one: T|
            #[trigger] call_ensures(T::from, (1i8,), one) && (T::obeys_add_spec() ==> r
                == x.add_spec(one)),
{
    x + 1_i8.into()
}

} // verus!
