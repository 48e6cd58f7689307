use vstd::prelude::*;
use vstd::std_specs::cmp::PartialOrdSpec;
use vstd::std_specs::convert::FromSpec;
use vstd::std_specs::ops::{AddSpec, DivSpec, MulSpec, SubSpec};

verus! {

/// The element type that models compute with: copyable, with a default value
/// that serves as zero, closed under `+`, `-`, `*` and `/`, ordered, and
/// holding the small integers.
pub trait Scalar: Copy + Default + PartialOrd + core::ops::Add<Output = Self> + core::ops::Sub<
    Output = Self,
> + core::ops::Mul<Output = Self> + core::ops::Div<Output = Self> + From<u8> {

}

impl<T> Scalar for T where
    T: Copy + Default + PartialOrd + core::ops::Add<Output = T> + core::ops::Sub<Output = T> + core::ops::Mul<
        Output = T,
    > + core::ops::Div<Output = T> + From<u8>,
 {

}

/// The four operations may be applied to any two elements.
pub open spec fn arithmetic_total<T: Scalar>() -> bool {
    &&& forall|a: T, b: T| #[trigger] a.add_req(b)
    &&& forall|a: T, b: T| #[trigger] a.sub_req(b)
    &&& forall|a: T, b: T| #[trigger] a.mul_req(b)
    &&& forall|a: T, b: T| #[trigger] a.div_req(b)
}

/// The operations and comparisons of `T` compute exactly what their
/// specification functions say. Contracts that state a value computed by arithmetic state it under
/// this condition; shapes and lengths hold whatever `T` is.
pub open spec fn exact<T: Scalar>() -> bool {
    &&& T::obeys_add_spec()
    &&& T::obeys_sub_spec()
    &&& T::obeys_mul_spec()
    &&& T::obeys_div_spec()
    &&& T::obeys_from_spec()
    &&& T::obeys_partial_cmp_spec()
}

pub open spec fn zero<T: Scalar>() -> T {
    T::from_spec(0u8)
}

pub open spec fn one<T: Scalar>() -> T {
    T::from_spec(1u8)
}

/// `n` as an element: built from zero by doubling and adding one, bit by bit.
pub open spec fn count_spec<T: Scalar>(n: nat) -> T
    decreases n,
{
    if n == 0 {
        zero::<T>()
    } else {
        let half = count_spec::<T>(n / 2);
        let twice = half.add_spec(half);
        if n % 2 == 1 {
            twice.add_spec(one::<T>())
        } else {
            twice
        }
    }
}

/// `n` as an element (see `count_spec`): exact wherever `T` holds the
/// integers up to `n` exactly.
pub fn count_of<T: Scalar>(n: usize) -> (r: T)
    requires
        arithmetic_total::<T>(),
    ensures
        exact::<T>() ==> r == count_spec::<T>(n as nat),
    decreases n,
{
    if n == 0 {
        T::from(0u8)
    } else {
        let half: T = count_of(n / 2);
        let twice = half + half;
        if n % 2 == 1 {
            twice + T::from(1u8)
        } else {
            twice
        }
    }
}

} // verus!
