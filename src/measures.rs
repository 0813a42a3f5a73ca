use vstd::prelude::*;

verus! {

use vstd::std_specs::ops::AddSpec;
use vstd::std_specs::ops::DivSpec;
use vstd::std_specs::ops::MulSpec;
use vstd::std_specs::ops::SubSpec;

/// A measured value together with its absolute uncertainty.
///
/// The error is expected to be non-negative; nothing enforces it.
#[derive(Clone, Copy, PartialEq, Debug)]
pub struct Measure<T> {
    pub value: T,
    pub error: T,
}

impl<T: Copy + core::ops::Div<Output = T>> Measure<T> {
    /// The error relative to the value, as `T`'s own division gives it.
    pub open spec fn spec_relative_error(self) -> T {
        self.error.div_spec(self.value)
    }

    /// `error / value`.  A zero value is handled as `T`'s division handles it.
    pub fn relative_error(&self) -> (r: T)
        requires
            self.error.div_req(self.value),
        ensures
            T::obeys_div_spec() ==> r == self.spec_relative_error(),
    {
        self.error / self.value
    }
}

/// What a product or a quotient of two measures needs of `T`'s operators:
/// that they are described by their specifications, and that each step is
/// allowed on the values it meets.
pub open spec fn propagation_req<T>(a: Measure<T>, b: Measure<T>, v: T) -> bool where
    T: Copy + core::ops::Add<Output = T> + core::ops::Div<Output = T> + core::ops::Mul<Output = T>,
 {
    &&& T::obeys_add_spec()
    &&& T::obeys_div_spec()
    &&& T::obeys_mul_spec()
    &&& a.error.div_req(a.value)
    &&& b.error.div_req(b.value)
    &&& a.spec_relative_error().add_req(b.spec_relative_error())
    &&& a.spec_relative_error().add_spec(b.spec_relative_error()).mul_req(v)
}

/// The error of a product or quotient whose central value is `v`: the sum of
/// the relative errors of the operands, scaled back by `v`.
pub open spec fn propagated_error<T>(a: Measure<T>, b: Measure<T>, v: T) -> T where
    T: Copy + core::ops::Add<Output = T> + core::ops::Div<Output = T> + core::ops::Mul<Output = T>,
 {
    a.spec_relative_error().add_spec(b.spec_relative_error()).mul_spec(v)
}

impl<T: Copy + core::ops::Add<Output = T>> core::ops::Add for Measure<T> {
    type Output = Self;

    fn add(self, other: Self) -> Self {
        Measure { value: self.value + other.value, error: self.error + other.error }
    }
}

impl<T: Copy + core::ops::Add<Output = T>> vstd::std_specs::ops::AddSpecImpl for Measure<T> {
    open spec fn obeys_add_spec() -> bool {
        T::obeys_add_spec()
    }

    open spec fn add_req(self, other: Self) -> bool {
        self.value.add_req(other.value) && self.error.add_req(other.error)
    }

    /// Values add, and so do the absolute errors.
    open spec fn add_spec(self, other: Self) -> Self {
        Measure { value: self.value.add_spec(other.value), error: self.error.add_spec(other.error) }
    }
}

impl<
    T: Copy + core::ops::Add<Output = T> + core::ops::Sub<Output = T>,
> core::ops::Sub for Measure<T> {
    type Output = Self;

    fn sub(self, other: Self) -> Self {
        Measure { value: self.value - other.value, error: self.error + other.error }
    }
}

impl<
    T: Copy + core::ops::Add<Output = T> + core::ops::Sub<Output = T>,
> vstd::std_specs::ops::SubSpecImpl for Measure<T> {
    open spec fn obeys_sub_spec() -> bool {
        T::obeys_add_spec() && T::obeys_sub_spec()
    }

    open spec fn sub_req(self, other: Self) -> bool {
        self.value.sub_req(other.value) && self.error.add_req(other.error)
    }

    /// Values subtract, while the absolute errors still add.
    open spec fn sub_spec(self, other: Self) -> Self {
        Measure { value: self.value.sub_spec(other.value), error: self.error.add_spec(other.error) }
    }
}

impl<
    T: Copy + core::ops::Add<Output = T> + core::ops::Div<Output = T> + core::ops::Mul<Output = T>,
> core::ops::Mul for Measure<T> {
    type Output = Self;

    fn mul(self, other: Self) -> Self {
        let value = self.value * other.value;
        let error = (self.relative_error() + other.relative_error()) * value;
        Measure { value, error }
    }
}

impl<
    T: Copy + core::ops::Add<Output = T> + core::ops::Div<Output = T> + core::ops::Mul<Output = T>,
> vstd::std_specs::ops::MulSpecImpl for Measure<T> {
    open spec fn obeys_mul_spec() -> bool {
        T::obeys_add_spec() && T::obeys_div_spec() && T::obeys_mul_spec()
    }

    open spec fn mul_req(self, other: Self) -> bool {
        self.value.mul_req(other.value) && propagation_req(
            self,
            other,
            self.value.mul_spec(other.value),
        )
    }

    /// Values multiply; the relative errors add.
    open spec fn mul_spec(self, other: Self) -> Self {
        let v = self.value.mul_spec(other.value);
        Measure { value: v, error: propagated_error(self, other, v) }
    }
}

impl<
    T: Copy + core::ops::Add<Output = T> + core::ops::Div<Output = T> + core::ops::Mul<Output = T>,
> core::ops::Div for Measure<T> {
    type Output = Self;

    fn div(self, other: Self) -> Self {
        let value = self.value / other.value;
        let error = (self.relative_error() + other.relative_error()) * value;
        Measure { value, error }
    }
}

impl<
    T: Copy + core::ops::Add<Output = T> + core::ops::Div<Output = T> + core::ops::Mul<Output = T>,
> vstd::std_specs::ops::DivSpecImpl for Measure<T> {
    open spec fn obeys_div_spec() -> bool {
        T::obeys_add_spec() && T::obeys_div_spec() && T::obeys_mul_spec()
    }

    open spec fn div_req(self, other: Self) -> bool {
        self.value.div_req(other.value) && propagation_req(
            self,
            other,
            self.value.div_spec(other.value),
        )
    }

    /// Values divide; the relative errors add, scaled by the quotient.
    open spec fn div_spec(self, other: Self) -> Self {
        let v = self.value.div_spec(other.value);
        Measure { value: v, error: propagated_error(self, other, v) }
    }
}

impl<T: Copy + core::ops::Mul<Output = T>> core::ops::Mul<T> for Measure<T> {
    type Output = Self;

    fn mul(self, k: T) -> Self {
        Measure { value: self.value * k, error: self.error * k }
    }
}

impl<T: Copy + core::ops::Mul<Output = T>> vstd::std_specs::ops::MulSpecImpl<T> for Measure<T> {
    open spec fn obeys_mul_spec() -> bool {
        T::obeys_mul_spec()
    }

    open spec fn mul_req(self, k: T) -> bool {
        self.value.mul_req(k) && self.error.mul_req(k)
    }

    /// Scaling by an exact constant scales the value and the error alike.
    open spec fn mul_spec(self, k: T) -> Self {
        Measure { value: self.value.mul_spec(k), error: self.error.mul_spec(k) }
    }
}

impl<T: Copy + core::ops::Div<Output = T>> core::ops::Div<T> for Measure<T> {
    type Output = Self;

    fn div(self, k: T) -> Self {
        Measure { value: self.value / k, error: self.error / k }
    }
}

impl<T: Copy + core::ops::Div<Output = T>> vstd::std_specs::ops::DivSpecImpl<T> for Measure<T> {
    open spec fn obeys_div_spec() -> bool {
        T::obeys_div_spec()
    }

    open spec fn div_req(self, k: T) -> bool {
        self.value.div_req(k) && self.error.div_req(k)
    }

    /// Dividing by an exact constant divides the value and the error alike.
    open spec fn div_spec(self, k: T) -> Self {
        Measure { value: self.value.div_spec(k), error: self.error.div_spec(k) }
    }
}

/// Adding or subtracting two measures gives the same error: the sum of the
/// two absolute errors, whatever happens to the central values.
pub proof fn lemma_sum_difference_error<
    T: Copy + core::ops::Add<Output = T> + core::ops::Sub<Output = T>,
>(a: Measure<T>, b: Measure<T>)
    ensures
        a.add_spec(b).error == a.error.add_spec(b.error),
        a.sub_spec(b).error == a.error.add_spec(b.error),
        a.add_spec(b).value == a.value.add_spec(b.value),
        a.sub_spec(b).value == a.value.sub_spec(b.value),
{
}

/// In a product or a quotient of two measures the relative errors add: the
/// error is the sum of the operands' relative errors times the new value.
pub proof fn lemma_product_quotient_error<
    T: Copy + core::ops::Add<Output = T> + core::ops::Div<Output = T> + core::ops::Mul<Output = T>,
>(a: Measure<T>, b: Measure<T>)
    ensures
        a.mul_spec(b).value == a.value.mul_spec(b.value),
        a.mul_spec(b).error == a.spec_relative_error().add_spec(b.spec_relative_error()).mul_spec(
            a.mul_spec(b).value,
        ),
        a.div_spec(b).value == a.value.div_spec(b.value),
        a.div_spec(b).error == a.spec_relative_error().add_spec(b.spec_relative_error()).mul_spec(
            a.div_spec(b).value,
        ),
{
}

/// Scaling a measure by an exact constant scales its value and its error.
pub proof fn lemma_scaling<T: Copy + core::ops::Mul<Output = T>>(a: Measure<T>, k: T)
    ensures
        a.mul_spec(k).value == a.value.mul_spec(k),
        a.mul_spec(k).error == a.error.mul_spec(k),
{
}

} // verus!
