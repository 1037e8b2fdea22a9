use vstd::prelude::*;

verus! {

use crate::interval::Interval;
use crate::vec::{
    seq_add, seq_add_scalar, seq_div, seq_div_scalar, seq_mul, seq_mul_scalar, seq_neg, seq_sub,
    seq_sub_scalar, Scalar, VecElement, Vector,
};

/// An RGB triple: the same arithmetic as a three-dimensional vector, held in
/// a type of its own so colors and positions cannot be mixed up.
#[derive(Clone, Copy, Debug, PartialEq, PartialOrd)]
pub struct Color<T: VecElement>(pub Vector<T, 3>);

impl<T: VecElement> Color<T> {
    pub fn new(data: [T; 3]) -> (r: Self)
        ensures
            r.0.data == data,
    {
        Self(Vector::new(data))
    }

    pub fn new_one(value: T) -> (r: Self)
        ensures
            r.0.data@ =~= Seq::new(3, |i: int| value),
    {
        Self(Vector::new_one(value))
    }

    pub fn r(&self) -> (v: &T)
        ensures
            *v == self.0.data@[0],
    {
        vstd::array::array_index_get(&self.0.data, 0)
    }

    pub fn g(&self) -> (v: &T)
        ensures
            *v == self.0.data@[1],
    {
        vstd::array::array_index_get(&self.0.data, 1)
    }

    pub fn b(&self) -> (v: &T)
        ensures
            *v == self.0.data@[2],
    {
        vstd::array::array_index_get(&self.0.data, 2)
    }

    pub fn h(&self) -> (v: &T)
        ensures
            *v == self.0.data@[0],
    {
        vstd::array::array_index_get(&self.0.data, 0)
    }

    pub fn s(&self) -> (v: &T)
        ensures
            *v == self.0.data@[1],
    {
        vstd::array::array_index_get(&self.0.data, 1)
    }

    pub fn v(&self) -> (v: &T)
        ensures
            *v == self.0.data@[2],
    {
        vstd::array::array_index_get(&self.0.data, 2)
    }

    /// Every channel sent through the given function.
    pub fn transform<U, F>(&self, f: F) -> (r: Color<U>)
        where
            U: VecElement,
            F: Fn(T) -> U,
        requires
            forall|i: int| 0 <= i < 3 ==> call_requires(f, (self.0.data@[i],)),
        ensures
            forall|i: int| 0 <= i < 3 ==> call_ensures(f, (self.0.data@[i],), #[trigger] r.0.data@[i]),
    {
        Color(self.0.transform(f))
    }

    /// Every channel converted into the target coordinate type.
    pub fn transform_into<U>(&self) -> (r: Color<U>)
        where
            U: VecElement,
            T: Into<U>,
        ensures
            forall|i: int|
                0 <= i < 3 ==> call_ensures(T::into, (self.0.data@[i],), #[trigger] r.0.data@[i]),
    {
        Color(self.0.transform_into())
    }

    /// Every channel pulled into the given range.
    pub fn clamp(&self, range: Interval<T>) -> (r: Color<T>)
        ensures
            r.0.data@.len() == 3,
            forall|i: int|
                0 <= i < 3 ==> #[trigger] r.0.data@[i] == range.spec_clamp(self.0.data@[i]),
    {
        Color(
            Vector::new(
                [
                    range.clamp(self.0.data[0]),
                    range.clamp(self.0.data[1]),
                    range.clamp(self.0.data[2]),
                ],
            ),
        )
    }
}

impl<T: Scalar> Color<T> {
    /// Gamma-2 correction: the square root of every channel.
    pub fn correct_gamma(&self) -> (r: Color<T>)
        ensures
            r.0.data@.len() == 3,
            forall|i: int| 0 <= i < 3 ==> #[trigger] r.0.data@[i] == self.0.data@[i].sp_sqrt(),
    {
        Color(
            Vector::new(
                [
                    crate::util::linear_to_gamma(self.0.data[0]),
                    crate::util::linear_to_gamma(self.0.data[1]),
                    crate::util::linear_to_gamma(self.0.data[2]),
                ],
            ),
        )
    }
}

impl<T: VecElement> From<Vector<T, 3>> for Color<T> {
    fn from(value: Vector<T, 3>) -> (r: Self) {
        Self(value)
    }
}

impl<T: VecElement> vstd::std_specs::convert::FromSpecImpl<Vector<T, 3>> for Color<T> {
    open spec fn obeys_from_spec() -> bool {
        true
    }

    open spec fn from_spec(v: Vector<T, 3>) -> Self {
        Color(v)
    }
}

/// Every channel of the color sent through the given function; the free
/// form of [`Color::transform`].
pub fn transform<T: VecElement, U: VecElement, F: Fn(T) -> U>(color: Color<T>, f: F) -> (r: Color<
    U,
>)
    requires
        forall|i: int| 0 <= i < 3 ==> call_requires(f, (color.0.data@[i],)),
    ensures
        forall|i: int| 0 <= i < 3 ==> call_ensures(f, (color.0.data@[i],), #[trigger] r.0.data@[i]),
{
    color.transform(f)
}

/// Every channel pulled into the range; the free form of [`Color::clamp`].
pub fn clamp<T: VecElement>(color: Color<T>, range: Interval<T>) -> (r: Color<T>)
    ensures
        r.0.data@.len() == 3,
        forall|i: int|
            0 <= i < 3 ==> #[trigger] r.0.data@[i] == range.spec_clamp(color.0.data@[i]),
{
    color.clamp(range)
}

/// Gamma-2 correction of every channel; the free form of
/// [`Color::correct_gamma`].
pub fn correct_gamma<T: Scalar>(color: Color<T>) -> (r: Color<T>)
    ensures
        r.0.data@.len() == 3,
        forall|i: int| 0 <= i < 3 ==> #[trigger] r.0.data@[i] == color.0.data@[i].sp_sqrt(),
{
    color.correct_gamma()
}

impl<T: VecElement> core::ops::Add for Color<T> {
    type Output = Self;

    fn add(self, rhs: Self) -> (r: Self)
        ensures
            r.0.data@ == seq_add(self.0.data@, rhs.0.data@),
    {
        Color(self.0 + rhs.0)
    }
}

impl<T: VecElement> core::ops::Add<T> for Color<T> {
    type Output = Self;

    fn add(self, rhs: T) -> (r: Self)
        ensures
            r.0.data@ == seq_add_scalar(self.0.data@, rhs),
    {
        Color(self.0 + rhs)
    }
}

impl<T: VecElement> core::ops::Sub for Color<T> {
    type Output = Self;

    fn sub(self, rhs: Self) -> (r: Self)
        ensures
            r.0.data@ == seq_sub(self.0.data@, rhs.0.data@),
    {
        Color(self.0 - rhs.0)
    }
}

impl<T: VecElement> core::ops::Sub<T> for Color<T> {
    type Output = Self;

    fn sub(self, rhs: T) -> (r: Self)
        ensures
            r.0.data@ == seq_sub_scalar(self.0.data@, rhs),
    {
        Color(self.0 - rhs)
    }
}

impl<T: VecElement> core::ops::Mul for Color<T> {
    type Output = Self;

    fn mul(self, rhs: Self) -> (r: Self)
        ensures
            r.0.data@ == seq_mul(self.0.data@, rhs.0.data@),
    {
        Color(self.0 * rhs.0)
    }
}

impl<T: VecElement> core::ops::Mul<T> for Color<T> {
    type Output = Self;

    fn mul(self, rhs: T) -> (r: Self)
        ensures
            r.0.data@ == seq_mul_scalar(self.0.data@, rhs),
    {
        Color(self.0 * rhs)
    }
}

impl<T: VecElement> core::ops::Div for Color<T> {
    type Output = Self;

    fn div(self, rhs: Self) -> (r: Self)
        ensures
            r.0.data@ == seq_div(self.0.data@, rhs.0.data@),
    {
        Color(self.0 / rhs.0)
    }
}

impl<T: VecElement> core::ops::Div<T> for Color<T> {
    type Output = Self;

    fn div(self, rhs: T) -> (r: Self)
        ensures
            r.0.data@ == seq_div_scalar(self.0.data@, rhs),
    {
        Color(self.0 / rhs)
    }
}

impl<T: VecElement> core::ops::Neg for Color<T> {
    type Output = Self;

    fn neg(self) -> (r: Self)
        ensures
            r.0.data@ == seq_neg(self.0.data@),
    {
        Color(core::ops::Neg::neg(self.0))
    }
}

impl<T: VecElement> vstd::std_specs::ops::AddSpecImpl for Color<T> {
    open spec fn obeys_add_spec() -> bool {
        false
    }

    open spec fn add_req(self, rhs: Self) -> bool {
        true
    }

    open spec fn add_spec(self, rhs: Self) -> Self {
        self
    }
}

impl<T: VecElement> vstd::std_specs::ops::AddSpecImpl<T> for Color<T> {
    open spec fn obeys_add_spec() -> bool {
        false
    }

    open spec fn add_req(self, rhs: T) -> bool {
        true
    }

    open spec fn add_spec(self, rhs: T) -> Self {
        self
    }
}

impl<T: VecElement> vstd::std_specs::ops::SubSpecImpl for Color<T> {
    open spec fn obeys_sub_spec() -> bool {
        false
    }

    open spec fn sub_req(self, rhs: Self) -> bool {
        true
    }

    open spec fn sub_spec(self, rhs: Self) -> Self {
        self
    }
}

impl<T: VecElement> vstd::std_specs::ops::SubSpecImpl<T> for Color<T> {
    open spec fn obeys_sub_spec() -> bool {
        false
    }

    open spec fn sub_req(self, rhs: T) -> bool {
        true
    }

    open spec fn sub_spec(self, rhs: T) -> Self {
        self
    }
}

impl<T: VecElement> vstd::std_specs::ops::MulSpecImpl for Color<T> {
    open spec fn obeys_mul_spec() -> bool {
        false
    }

    open spec fn mul_req(self, rhs: Self) -> bool {
        true
    }

    open spec fn mul_spec(self, rhs: Self) -> Self {
        self
    }
}

impl<T: VecElement> vstd::std_specs::ops::MulSpecImpl<T> for Color<T> {
    open spec fn obeys_mul_spec() -> bool {
        false
    }

    open spec fn mul_req(self, rhs: T) -> bool {
        true
    }

    open spec fn mul_spec(self, rhs: T) -> Self {
        self
    }
}

impl<T: VecElement> vstd::std_specs::ops::DivSpecImpl for Color<T> {
    open spec fn obeys_div_spec() -> bool {
        false
    }

    open spec fn div_req(self, rhs: Self) -> bool {
        true
    }

    open spec fn div_spec(self, rhs: Self) -> Self {
        self
    }
}

impl<T: VecElement> vstd::std_specs::ops::DivSpecImpl<T> for Color<T> {
    open spec fn obeys_div_spec() -> bool {
        false
    }

    open spec fn div_req(self, rhs: T) -> bool {
        true
    }

    open spec fn div_spec(self, rhs: T) -> Self {
        self
    }
}

impl<T: VecElement> vstd::std_specs::ops::NegSpecImpl for Color<T> {
    open spec fn obeys_neg_spec() -> bool {
        false
    }

    open spec fn neg_req(self) -> bool {
        true
    }

    open spec fn neg_spec(self) -> Self {
        self
    }
}

} // verus!
