use vstd::prelude::*;

pub use vstd::prelude::Seq;

verus! {

/// The operations a coordinate type must offer to the vector library.
///
/// Every operation is total and deterministic: each implementation fixes its
/// own interpretation through the `sp_*` specification functions, and the
/// executable operations promise to agree with that interpretation.  The
/// integer instance below wraps on overflow and saturates on division by
/// zero; a floating-point instance supplied by a client crate follows IEEE
/// arithmetic.
pub trait VecElement: Sized + Copy {
    /// The value this implementation assigns to `self + other`.
    spec fn sp_add(self, other: Self) -> Self;

    /// The value this implementation assigns to `self - other`.
    spec fn sp_sub(self, other: Self) -> Self;

    /// The value this implementation assigns to `self * other`.
    spec fn sp_mul(self, other: Self) -> Self;

    /// The value this implementation assigns to `self / other`.
    spec fn sp_div(self, other: Self) -> Self;

    /// The value this implementation assigns to `-self`.
    spec fn sp_neg(self) -> Self;

    /// The additive identity of this implementation.
    spec fn sp_zero() -> Self;

    /// The multiplicative identity of this implementation.
    spec fn sp_one() -> Self;

    /// The strict order this implementation puts on its values.
    spec fn sp_lt(self, other: Self) -> bool;

    /// The non-strict order this implementation puts on its values.
    spec fn sp_le(self, other: Self) -> bool;

    fn el_add(self, other: Self) -> (r: Self)
        ensures
            r == self.sp_add(other),
    ;

    fn el_sub(self, other: Self) -> (r: Self)
        ensures
            r == self.sp_sub(other),
    ;

    fn el_mul(self, other: Self) -> (r: Self)
        ensures
            r == self.sp_mul(other),
    ;

    fn el_div(self, other: Self) -> (r: Self)
        ensures
            r == self.sp_div(other),
    ;

    fn el_neg(self) -> (r: Self)
        ensures
            r == self.sp_neg(),
    ;

    fn el_zero() -> (r: Self)
        ensures
            r == Self::sp_zero(),
    ;

    fn el_one() -> (r: Self)
        ensures
            r == Self::sp_one(),
    ;

    fn el_lt(self, other: Self) -> (r: bool)
        ensures
            r == self.sp_lt(other),
    ;

    fn el_le(self, other: Self) -> (r: bool)
        ensures
            r == self.sp_le(other),
    ;
}

/// The further operations the renderer needs from a coordinate type: square
/// roots, trigonometry for the camera, infinities for unbounded intervals,
/// exact rational constants, conversion with pixel indices, and parsing.
///
/// As with [`VecElement`], each implementation fixes the meaning of these
/// operations through its `sp_*` functions; the renderer's contracts are
/// stated relative to that meaning.
pub trait Scalar: VecElement {
    /// The value this implementation assigns to the square root of `self`.
    spec fn sp_sqrt(self) -> Self;

    /// Whether this implementation treats `self` as negligibly small
    /// (a scattered ray whose every coordinate is negligible is degenerate).
    spec fn sp_near_zero(self) -> bool;

    /// The value of the ratio `numer / denom` in this implementation.
    spec fn sp_num(numer: u32, denom: u32) -> Self;

    /// A value above every finite value of this implementation.
    spec fn sp_inf() -> Self;

    /// A value below every finite value of this implementation.
    spec fn sp_neg_inf() -> Self;

    /// The tangent of `self`, taken in radians.
    spec fn sp_tan(self) -> Self;

    /// `self` converted from degrees to radians.
    spec fn sp_to_radians(self) -> Self;

    /// The whole number nearest to `self` towards zero, clamped to `u32`.
    spec fn sp_trunc_u32(self) -> u32;

    /// The largest whole number not above `self`, clamped to `i64`.
    spec fn sp_floor_i64(self) -> i64;

    /// The value this implementation reads from the given text, if any.
    spec fn sp_parse(s: Seq<char>) -> Option<Self>;

    fn el_sqrt(self) -> (r: Self)
        ensures
            r == self.sp_sqrt(),
    ;

    fn el_near_zero(self) -> (r: bool)
        ensures
            r == self.sp_near_zero(),
    ;

    fn el_num(numer: u32, denom: u32) -> (r: Self)
        ensures
            r == Self::sp_num(numer, denom),
    ;

    fn el_inf() -> (r: Self)
        ensures
            r == Self::sp_inf(),
    ;

    fn el_neg_inf() -> (r: Self)
        ensures
            r == Self::sp_neg_inf(),
    ;

    fn el_tan(self) -> (r: Self)
        ensures
            r == self.sp_tan(),
    ;

    fn el_to_radians(self) -> (r: Self)
        ensures
            r == self.sp_to_radians(),
    ;

    fn el_trunc_u32(self) -> (r: u32)
        ensures
            r == self.sp_trunc_u32(),
    ;

    fn el_floor_i64(self) -> (r: i64)
        ensures
            r == self.sp_floor_i64(),
    ;

    fn el_parse(s: &str) -> (r: Option<Self>)
        ensures
            r == Self::sp_parse(s@),
    ;
}

/// Mathematical object vector struct
#[derive(Clone, Copy, Debug, PartialEq, PartialOrd)]
pub struct Vector<T: VecElement, const N: usize> {
    pub data: [T; N],
}

/// Both coordinate sequences added pointwise.
pub open spec fn seq_add<T: VecElement>(a: Seq<T>, b: Seq<T>) -> Seq<T> {
    Seq::new(a.len(), |i: int| a[i].sp_add(b[i]))
}

/// The second coordinate sequence subtracted pointwise from the first.
pub open spec fn seq_sub<T: VecElement>(a: Seq<T>, b: Seq<T>) -> Seq<T> {
    Seq::new(a.len(), |i: int| a[i].sp_sub(b[i]))
}

/// Both coordinate sequences multiplied pointwise.
pub open spec fn seq_mul<T: VecElement>(a: Seq<T>, b: Seq<T>) -> Seq<T> {
    Seq::new(a.len(), |i: int| a[i].sp_mul(b[i]))
}

/// The first coordinate sequence divided pointwise by the second.
pub open spec fn seq_div<T: VecElement>(a: Seq<T>, b: Seq<T>) -> Seq<T> {
    Seq::new(a.len(), |i: int| a[i].sp_div(b[i]))
}

/// Every coordinate negated.
pub open spec fn seq_neg<T: VecElement>(a: Seq<T>) -> Seq<T> {
    Seq::new(a.len(), |i: int| a[i].sp_neg())
}

/// The scalar added to every coordinate.
pub open spec fn seq_add_scalar<T: VecElement>(a: Seq<T>, t: T) -> Seq<T> {
    Seq::new(a.len(), |i: int| a[i].sp_add(t))
}

/// The scalar subtracted from every coordinate.
pub open spec fn seq_sub_scalar<T: VecElement>(a: Seq<T>, t: T) -> Seq<T> {
    Seq::new(a.len(), |i: int| a[i].sp_sub(t))
}

/// Every coordinate multiplied by the scalar.
pub open spec fn seq_mul_scalar<T: VecElement>(a: Seq<T>, t: T) -> Seq<T> {
    Seq::new(a.len(), |i: int| a[i].sp_mul(t))
}

/// Every coordinate divided by the scalar.
pub open spec fn seq_div_scalar<T: VecElement>(a: Seq<T>, t: T) -> Seq<T> {
    Seq::new(a.len(), |i: int| a[i].sp_div(t))
}

/// A three-element array with the given entries, built by updating a filled
/// array; the lemma below gives its view.
pub open spec fn spec_arr3<T: Copy>(x: T, y: T, z: T) -> [T; 3] {
    vstd::array::spec_array_update(
        vstd::array::spec_array_update(
            vstd::array::spec_array_update(
                vstd::array::spec_array_fill_for_copy_type::<T, 3>(x),
                0,
                x,
            ),
            1,
            y,
        ),
        2,
        z,
    )
}

/// A two-element array with the given entries.
pub open spec fn spec_arr2<T: Copy>(x: T, y: T) -> [T; 2] {
    vstd::array::spec_array_update(
        vstd::array::spec_array_update(vstd::array::spec_array_fill_for_copy_type::<T, 2>(x), 0, x),
        1,
        y,
    )
}

/// The three-dimensional vector with the given coordinates.
pub open spec fn spec_v3<T: VecElement>(x: T, y: T, z: T) -> Vector<T, 3> {
    Vector { data: spec_arr3(x, y, z) }
}

/// The two-dimensional vector with the given coordinates.
pub open spec fn spec_v2<T: VecElement>(x: T, y: T) -> Vector<T, 2> {
    Vector { data: spec_arr2(x, y) }
}

/// The three-dimensional vector whose coordinates are the first three
/// entries of the sequence.
pub open spec fn vec_of_seq3<T: VecElement>(s: Seq<T>) -> Vector<T, 3> {
    spec_v3(s[0], s[1], s[2])
}

/// The two-dimensional vector whose coordinates are the first two entries of
/// the sequence.
pub open spec fn vec_of_seq2<T: VecElement>(s: Seq<T>) -> Vector<T, 2> {
    spec_v2(s[0], s[1])
}

/// A vector is determined by its coordinates: one whose view matches the
/// first three entries of a sequence is the vector of that sequence.
pub proof fn lemma_vec3_of_seq<T: VecElement>(v: Vector<T, 3>, s: Seq<T>)
    requires
        v.data@ == s,
        s.len() == 3,
    ensures
        v == vec_of_seq3(s),
{
    broadcast use vstd::array::group_array_axioms;

    assert(spec_arr3(s[0], s[1], s[2])@ =~= s);
    assert(v.data =~= spec_arr3(s[0], s[1], s[2]));
}

/// The two-dimensional form of the same fact.
pub proof fn lemma_vec2_of_seq<T: VecElement>(v: Vector<T, 2>, s: Seq<T>)
    requires
        v.data@ == s,
        s.len() == 2,
    ensures
        v == vec_of_seq2(s),
{
    broadcast use vstd::array::group_array_axioms;

    assert(spec_arr2(s[0], s[1])@ =~= s);
    assert(v.data =~= spec_arr2(s[0], s[1]));
}

/// The fold that defines the dot product: partial sums of the products of
/// matching coordinates, taken from the left as the executable code does.
pub open spec fn spec_dot_prefix<T: VecElement>(a: Seq<T>, b: Seq<T>, n: int) -> T
    recommends
        0 <= n <= a.len(),
        a.len() == b.len(),
    decreases n,
{
    if n <= 0 {
        T::sp_zero()
    } else {
        spec_dot_prefix(a, b, n - 1).sp_add(a[n - 1].sp_mul(b[n - 1]))
    }
}

impl<T: VecElement, const N: usize> Vector<T, N> {
    pub fn new(data: [T; N]) -> (r: Self)
        ensures
            r.data == data,
    {
        Self { data }
    }

    pub fn new_one(value: T) -> (r: Self)
        ensures
            r.data@ =~= Seq::new(N as nat, |i: int| value),
    {
        Self { data: vstd::array::array_fill_for_copy_types(value) }
    }

    /// The inner product of `self` and `other`.
    pub open spec fn spec_dot(self, other: Self) -> T {
        spec_dot_prefix(self.data@, other.data@, N as int)
    }

    pub fn dot(&self, other: Self) -> (r: T)
        ensures
            r == self.spec_dot(other),
    {
        let mut acc = T::el_zero();
        let mut i: usize = 0;
        while i < N
            invariant
                0 <= i <= N,
                acc == spec_dot_prefix(self.data@, other.data@, i as int),
            decreases N - i,
        {
            acc = acc.el_add(self.data[i].el_mul(other.data[i]));
            i = i + 1;
        }
        acc
    }

    /// The squared length of `self`: its inner product with itself.
    pub open spec fn spec_length_squared(self) -> T {
        self.spec_dot(self)
    }

    pub fn length_squared(&self) -> (r: T)
        ensures
            r == self.spec_length_squared(),
    {
        self.dot(*self)
    }

    pub fn transform<U, F>(&self, f: F) -> (r: Vector<U, N>)
        where
            U: VecElement,
            F: Fn(T) -> U,
        requires
            forall|i: int| 0 <= i < N ==> call_requires(f, (self.data@[i],)),
        ensures
            forall|i: int| 0 <= i < N ==> call_ensures(f, (self.data@[i],), #[trigger] r.data@[i]),
    {
        let mut data: [U; N] = vstd::array::array_fill_for_copy_types(U::el_zero());
        let mut i: usize = 0;
        while i < N
            invariant
                0 <= i <= N,
                data@.len() == N,
                forall|k: int| 0 <= k < N ==> call_requires(f, (self.data@[k],)),
                forall|j: int| 0 <= j < i ==> call_ensures(f, (self.data@[j],), #[trigger] data@[j]),
            decreases N - i,
        {
            data[i] = f(self.data[i]);
            i = i + 1;
        }
        Vector { data }
    }

    pub fn transform_into<U>(&self) -> (r: Vector<U, N>)
        where
            U: VecElement,
            T: Into<U>,
        ensures
            forall|i: int|
                0 <= i < N ==> call_ensures(T::into, (self.data@[i],), #[trigger] r.data@[i]),
    {
        let mut data: [U; N] = vstd::array::array_fill_for_copy_types(U::el_zero());
        let mut i: usize = 0;
        while i < N
            invariant
                0 <= i <= N,
                data@.len() == N,
                forall|j: int| 0 <= j < i ==> call_ensures(T::into, (self.data@[j],), #[trigger] data@[j]),
            decreases N - i,
        {
            data[i] = self.data[i].into();
            i = i + 1;
        }
        Vector { data }
    }
}

impl<T: Scalar, const N: usize> Vector<T, N> {
    /// The length of `self`: the square root of its squared length.
    pub open spec fn spec_length(self) -> T {
        self.spec_length_squared().sp_sqrt()
    }

    pub fn length(&self) -> (r: T)
        ensures
            r == self.spec_length(),
    {
        self.length_squared().el_sqrt()
    }

    pub fn unit_vector(&self) -> (r: Vector<T, N>)
        ensures
            r.data@ == seq_div_scalar(self.data@, self.spec_length()),
    {
        let length = self.length();
        let mut data = self.data;
        let mut i: usize = 0;
        while i < N
            invariant
                0 <= i <= N,
                data@.len() == N,
                length == self.spec_length(),
                forall|j: int| 0 <= j < i ==> data@[j] == (#[trigger] self.data@[j]).sp_div(length),
            decreases N - i,
        {
            data[i] = self.data[i].el_div(length);
            i = i + 1;
        }
        let r = Vector { data };
        proof {
            assert(r.data@ =~= seq_div_scalar(self.data@, self.spec_length()));
        }
        r
    }

    pub fn near_zero(&self) -> (r: bool)
        ensures
            r == forall|i: int| 0 <= i < N ==> (#[trigger] self.data@[i]).sp_near_zero(),
    {
        let mut i: usize = 0;
        while i < N
            invariant
                0 <= i <= N,
                forall|j: int| 0 <= j < i ==> (#[trigger] self.data@[j]).sp_near_zero(),
            decreases N - i,
        {
            if !self.data[i].el_near_zero() {
                return false;
            }
            i = i + 1;
        }
        true
    }
}

impl<T: VecElement, const N: usize> Default for Vector<T, N> {
    fn default() -> (r: Self)
        ensures
            r.data@ =~= Seq::new(N as nat, |i: int| T::sp_zero()),
    {
        Vector::new_one(T::el_zero())
    }
}

impl<T: VecElement, const N: usize> core::ops::Add for Vector<T, N> {
    type Output = Self;

    fn add(self, rhs: Self) -> (r: Self)
        ensures
            r.data@ == seq_add(self.data@, rhs.data@),
    {
        let mut data = self.data;
        let mut i: usize = 0;
        while i < N
            invariant
                0 <= i <= N,
                data@.len() == N,
                forall|j: int| 0 <= j < i ==> data@[j] == self.data@[j].sp_add(#[trigger] rhs.data@[j]),
            decreases N - i,
        {
            data[i] = self.data[i].el_add(rhs.data[i]);
            i = i + 1;
        }
        let r = Vector { data };
        proof {
            assert(r.data@ =~= seq_add(self.data@, rhs.data@));
        }
        r
    }
}

impl<T: VecElement, const N: usize> core::ops::Add<T> for Vector<T, N> {
    type Output = Self;

    fn add(self, rhs: T) -> (r: Self)
        ensures
            r.data@ == seq_add_scalar(self.data@, rhs),
    {
        let mut data = self.data;
        let mut i: usize = 0;
        while i < N
            invariant
                0 <= i <= N,
                data@.len() == N,
                forall|j: int| 0 <= j < i ==> data@[j] == (#[trigger] self.data@[j]).sp_add(rhs),
            decreases N - i,
        {
            data[i] = self.data[i].el_add(rhs);
            i = i + 1;
        }
        let r = Vector { data };
        proof {
            assert(r.data@ =~= seq_add_scalar(self.data@, rhs));
        }
        r
    }
}

impl<T: VecElement, const N: usize> core::ops::Sub for Vector<T, N> {
    type Output = Self;

    fn sub(self, rhs: Self) -> (r: Self)
        ensures
            r.data@ == seq_sub(self.data@, rhs.data@),
    {
        let mut data = self.data;
        let mut i: usize = 0;
        while i < N
            invariant
                0 <= i <= N,
                data@.len() == N,
                forall|j: int| 0 <= j < i ==> data@[j] == self.data@[j].sp_sub(#[trigger] rhs.data@[j]),
            decreases N - i,
        {
            data[i] = self.data[i].el_sub(rhs.data[i]);
            i = i + 1;
        }
        let r = Vector { data };
        proof {
            assert(r.data@ =~= seq_sub(self.data@, rhs.data@));
        }
        r
    }
}

impl<T: VecElement, const N: usize> core::ops::Sub<T> for Vector<T, N> {
    type Output = Self;

    fn sub(self, rhs: T) -> (r: Self)
        ensures
            r.data@ == seq_sub_scalar(self.data@, rhs),
    {
        let mut data = self.data;
        let mut i: usize = 0;
        while i < N
            invariant
                0 <= i <= N,
                data@.len() == N,
                forall|j: int| 0 <= j < i ==> data@[j] == (#[trigger] self.data@[j]).sp_sub(rhs),
            decreases N - i,
        {
            data[i] = self.data[i].el_sub(rhs);
            i = i + 1;
        }
        let r = Vector { data };
        proof {
            assert(r.data@ =~= seq_sub_scalar(self.data@, rhs));
        }
        r
    }
}

impl<T: VecElement, const N: usize> core::ops::Mul for Vector<T, N> {
    type Output = Self;

    fn mul(self, rhs: Self) -> (r: Self)
        ensures
            r.data@ == seq_mul(self.data@, rhs.data@),
    {
        let mut data = self.data;
        let mut i: usize = 0;
        while i < N
            invariant
                0 <= i <= N,
                data@.len() == N,
                forall|j: int| 0 <= j < i ==> data@[j] == self.data@[j].sp_mul(#[trigger] rhs.data@[j]),
            decreases N - i,
        {
            data[i] = self.data[i].el_mul(rhs.data[i]);
            i = i + 1;
        }
        let r = Vector { data };
        proof {
            assert(r.data@ =~= seq_mul(self.data@, rhs.data@));
        }
        r
    }
}

impl<T: VecElement, const N: usize> core::ops::Mul<T> for Vector<T, N> {
    type Output = Self;

    fn mul(self, rhs: T) -> (r: Self)
        ensures
            r.data@ == seq_mul_scalar(self.data@, rhs),
    {
        let mut data = self.data;
        let mut i: usize = 0;
        while i < N
            invariant
                0 <= i <= N,
                data@.len() == N,
                forall|j: int| 0 <= j < i ==> data@[j] == (#[trigger] self.data@[j]).sp_mul(rhs),
            decreases N - i,
        {
            data[i] = self.data[i].el_mul(rhs);
            i = i + 1;
        }
        let r = Vector { data };
        proof {
            assert(r.data@ =~= seq_mul_scalar(self.data@, rhs));
        }
        r
    }
}

impl<T: VecElement, const N: usize> core::ops::Div for Vector<T, N> {
    type Output = Self;

    fn div(self, rhs: Self) -> (r: Self)
        ensures
            r.data@ == seq_div(self.data@, rhs.data@),
    {
        let mut data = self.data;
        let mut i: usize = 0;
        while i < N
            invariant
                0 <= i <= N,
                data@.len() == N,
                forall|j: int| 0 <= j < i ==> data@[j] == self.data@[j].sp_div(#[trigger] rhs.data@[j]),
            decreases N - i,
        {
            data[i] = self.data[i].el_div(rhs.data[i]);
            i = i + 1;
        }
        let r = Vector { data };
        proof {
            assert(r.data@ =~= seq_div(self.data@, rhs.data@));
        }
        r
    }
}

impl<T: VecElement, const N: usize> core::ops::Div<T> for Vector<T, N> {
    type Output = Self;

    fn div(self, rhs: T) -> (r: Self)
        ensures
            r.data@ == seq_div_scalar(self.data@, rhs),
    {
        let mut data = self.data;
        let mut i: usize = 0;
        while i < N
            invariant
                0 <= i <= N,
                data@.len() == N,
                forall|j: int| 0 <= j < i ==> data@[j] == (#[trigger] self.data@[j]).sp_div(rhs),
            decreases N - i,
        {
            data[i] = self.data[i].el_div(rhs);
            i = i + 1;
        }
        let r = Vector { data };
        proof {
            assert(r.data@ =~= seq_div_scalar(self.data@, rhs));
        }
        r
    }
}

impl<T: VecElement, const N: usize> core::ops::Neg for Vector<T, N> {
    type Output = Self;

    fn neg(self) -> (r: Self)
        ensures
            r.data@ == seq_neg(self.data@),
    {
        let mut data = self.data;
        let mut i: usize = 0;
        while i < N
            invariant
                0 <= i <= N,
                data@.len() == N,
                forall|j: int| 0 <= j < i ==> data@[j] == (#[trigger] self.data@[j]).sp_neg(),
            decreases N - i,
        {
            data[i] = self.data[i].el_neg();
            i = i + 1;
        }
        let r = Vector { data };
        proof {
            assert(r.data@ =~= seq_neg(self.data@));
        }
        r
    }
}

impl<T: VecElement, const N: usize> vstd::std_specs::ops::AddSpecImpl for Vector<T, N> {
    open spec fn obeys_add_spec() -> bool {
        false
    }

    open spec fn add_req(self, rhs: Self) -> bool {
        true
    }

    open spec fn add_spec(self, rhs: Self) -> Self {
        self
    }
}

impl<T: VecElement, const N: usize> vstd::std_specs::ops::AddSpecImpl<T> for Vector<T, N> {
    open spec fn obeys_add_spec() -> bool {
        false
    }

    open spec fn add_req(self, rhs: T) -> bool {
        true
    }

    open spec fn add_spec(self, rhs: T) -> Self {
        self
    }
}

impl<T: VecElement, const N: usize> vstd::std_specs::ops::SubSpecImpl for Vector<T, N> {
    open spec fn obeys_sub_spec() -> bool {
        false
    }

    open spec fn sub_req(self, rhs: Self) -> bool {
        true
    }

    open spec fn sub_spec(self, rhs: Self) -> Self {
        self
    }
}

impl<T: VecElement, const N: usize> vstd::std_specs::ops::SubSpecImpl<T> for Vector<T, N> {
    open spec fn obeys_sub_spec() -> bool {
        false
    }

    open spec fn sub_req(self, rhs: T) -> bool {
        true
    }

    open spec fn sub_spec(self, rhs: T) -> Self {
        self
    }
}

impl<T: VecElement, const N: usize> vstd::std_specs::ops::MulSpecImpl for Vector<T, N> {
    open spec fn obeys_mul_spec() -> bool {
        false
    }

    open spec fn mul_req(self, rhs: Self) -> bool {
        true
    }

    open spec fn mul_spec(self, rhs: Self) -> Self {
        self
    }
}

impl<T: VecElement, const N: usize> vstd::std_specs::ops::MulSpecImpl<T> for Vector<T, N> {
    open spec fn obeys_mul_spec() -> bool {
        false
    }

    open spec fn mul_req(self, rhs: T) -> bool {
        true
    }

    open spec fn mul_spec(self, rhs: T) -> Self {
        self
    }
}

impl<T: VecElement, const N: usize> vstd::std_specs::ops::DivSpecImpl for Vector<T, N> {
    open spec fn obeys_div_spec() -> bool {
        false
    }

    open spec fn div_req(self, rhs: Self) -> bool {
        true
    }

    open spec fn div_spec(self, rhs: Self) -> Self {
        self
    }
}

impl<T: VecElement, const N: usize> vstd::std_specs::ops::DivSpecImpl<T> for Vector<T, N> {
    open spec fn obeys_div_spec() -> bool {
        false
    }

    open spec fn div_req(self, rhs: T) -> bool {
        true
    }

    open spec fn div_spec(self, rhs: T) -> Self {
        self
    }
}

impl<T: VecElement, const N: usize> vstd::std_specs::ops::NegSpecImpl for Vector<T, N> {
    open spec fn obeys_neg_spec() -> bool {
        false
    }

    open spec fn neg_req(self) -> bool {
        true
    }

    open spec fn neg_spec(self) -> Self {
        self
    }
}

// special case for N = 3
impl<T: VecElement> Vector<T, 3> {
    /// One coordinate of the three-dimensional cross product:
    /// `a[i] * b[j] - a[j] * b[i]`.
    pub open spec fn spec_cross_at(self, rhs: Self, i: int, j: int) -> T {
        self.data@[i].sp_mul(rhs.data@[j]).sp_sub(self.data@[j].sp_mul(rhs.data@[i]))
    }

    pub fn cross(&self, rhs: Self) -> (r: Self)
        ensures
            r.data@.len() == 3,
            r.data@[0] == self.spec_cross_at(rhs, 1, 2),
            r.data@[1] == self.spec_cross_at(rhs, 2, 0),
            r.data@[2] == self.spec_cross_at(rhs, 0, 1),
    {
        let (x0, y0, z0) = (self.data[0], self.data[1], self.data[2]);
        let (x1, y1, z1) = (rhs.data[0], rhs.data[1], rhs.data[2]);
        Self::new(
            [
                y0.el_mul(z1).el_sub(z0.el_mul(y1)),  // x
                z0.el_mul(x1).el_sub(x0.el_mul(z1)),  // y
                x0.el_mul(y1).el_sub(y0.el_mul(x1)),  // z
            ],
        )
    }
}

// special case for N = 7
impl<T: VecElement> Vector<T, 7> {
    /// `a[i] * b[j] - a[j] * b[i]`, for one index pair of the
    /// seven-dimensional multiplication table.
    pub open spec fn spec_cross_pair(self, rhs: Self, i: int, j: int) -> T {
        self.data@[i].sp_mul(rhs.data@[j]).sp_sub(self.data@[j].sp_mul(rhs.data@[i]))
    }

    /// One coordinate of the seven-dimensional cross product: the sum of the
    /// three pair terms that the table assigns to that coordinate.
    pub open spec fn spec_cross7_at(
        self,
        rhs: Self,
        i1: int,
        j1: int,
        i2: int,
        j2: int,
        i3: int,
        j3: int,
    ) -> T {
        self.spec_cross_pair(rhs, i1, j1).sp_add(self.spec_cross_pair(rhs, i2, j2)).sp_add(
            self.spec_cross_pair(rhs, i3, j3),
        )
    }

    pub fn cross(&self, rhs: Self) -> (r: Self)
        ensures
            r.data@.len() == 7,
            r.data@[0] == self.spec_cross7_at(rhs, 1, 3, 2, 6, 4, 5),
            r.data@[1] == self.spec_cross7_at(rhs, 2, 4, 3, 0, 5, 6),
            r.data@[2] == self.spec_cross7_at(rhs, 3, 5, 4, 1, 6, 0),
            r.data@[3] == self.spec_cross7_at(rhs, 4, 6, 5, 2, 0, 1),
            r.data@[4] == self.spec_cross7_at(rhs, 5, 0, 6, 3, 1, 2),
            r.data@[5] == self.spec_cross7_at(rhs, 6, 1, 0, 4, 2, 3),
            r.data@[6] == self.spec_cross7_at(rhs, 0, 2, 1, 5, 3, 4),
    {
        let (x1, x2, x3, x4) = (self.data[0], self.data[1], self.data[2], self.data[3]);
        let (x5, x6, x7) = (self.data[4], self.data[5], self.data[6]);
        let (y1, y2, y3, y4) = (rhs.data[0], rhs.data[1], rhs.data[2], rhs.data[3]);
        let (y5, y6, y7) = (rhs.data[4], rhs.data[5], rhs.data[6]);
        Self::new(
            [
                x2.el_mul(y4).el_sub(x4.el_mul(y2)).el_add(
                    x3.el_mul(y7).el_sub(x7.el_mul(y3)),
                ).el_add(x5.el_mul(y6).el_sub(x6.el_mul(y5))),  // x1
                x3.el_mul(y5).el_sub(x5.el_mul(y3)).el_add(
                    x4.el_mul(y1).el_sub(x1.el_mul(y4)),
                ).el_add(x6.el_mul(y7).el_sub(x7.el_mul(y6))),  // x2
                x4.el_mul(y6).el_sub(x6.el_mul(y4)).el_add(
                    x5.el_mul(y2).el_sub(x2.el_mul(y5)),
                ).el_add(x7.el_mul(y1).el_sub(x1.el_mul(y7))),  // x3
                x5.el_mul(y7).el_sub(x7.el_mul(y5)).el_add(
                    x6.el_mul(y3).el_sub(x3.el_mul(y6)),
                ).el_add(x1.el_mul(y2).el_sub(x2.el_mul(y1))),  // x4
                x6.el_mul(y1).el_sub(x1.el_mul(y6)).el_add(
                    x7.el_mul(y4).el_sub(x4.el_mul(y7)),
                ).el_add(x2.el_mul(y3).el_sub(x3.el_mul(y2))),  // x5
                x7.el_mul(y2).el_sub(x2.el_mul(y7)).el_add(
                    x1.el_mul(y5).el_sub(x5.el_mul(y1)),
                ).el_add(x3.el_mul(y4).el_sub(x4.el_mul(y3))),  // x6
                x1.el_mul(y3).el_sub(x3.el_mul(y1)).el_add(
                    x2.el_mul(y6).el_sub(x6.el_mul(y2)),
                ).el_add(x4.el_mul(y5).el_sub(x5.el_mul(y4))),  // x7
            ],
        )
    }
}

/// The reflection coefficient: twice the inner product of the incoming
/// direction and the surface normal.
pub open spec fn spec_reflect_coeff<T: VecElement, const N: usize>(
    v: Vector<T, N>,
    normal: Vector<T, N>,
) -> T {
    v.spec_dot(normal).sp_mul(T::sp_one().sp_add(T::sp_one()))
}

/// The coordinates of `v` reflected about the plane normal to `normal`:
/// `v - normal * (2 * dot(v, normal))`.
pub open spec fn spec_reflect<T: VecElement, const N: usize>(
    v: Vector<T, N>,
    normal: Vector<T, N>,
) -> Seq<T> {
    seq_sub(v.data@, seq_mul_scalar(normal.data@, spec_reflect_coeff(v, normal)))
}

/// Mirror reflection about the plane normal to `normal`; `unit_vec` is
/// expected to be normalized, though the formula is stated for any vector.
pub fn reflect<T: VecElement, const N: usize>(
    unit_vec: Vector<T, N>,
    normal: Vector<T, N>,
) -> (r: Vector<T, N>)
    ensures
        r.data@ == spec_reflect(unit_vec, normal),
{
    let two = T::el_one().el_add(T::el_one());
    let r = unit_vec - normal * unit_vec.dot(normal).el_mul(two);
    proof {
        assert(r.data@ =~= spec_reflect(unit_vec, normal));
    }
    r
}

/// The cosine a refraction starts from: the inner product of the reversed
/// incoming direction and the normal, capped at one.
pub open spec fn spec_refract_cos<T: Scalar, const N: usize>(
    v: Vector<T, N>,
    normal: Vector<T, N>,
) -> T {
    crate::util::spec_min(
        spec_dot_prefix(seq_neg(v.data@), normal.data@, N as int),
        T::sp_one(),
    )
}

/// The coordinates of the refracted direction's component perpendicular to
/// the normal: `(v + normal * cos) * ratio`.
pub open spec fn spec_refract_perp<T: Scalar, const N: usize>(
    v: Vector<T, N>,
    normal: Vector<T, N>,
    ratio: T,
) -> Seq<T> {
    seq_mul_scalar(seq_add(v.data@, seq_mul_scalar(normal.data@, spec_refract_cos(v, normal))), ratio)
}

/// Refraction by Snell's law, in the form the scattering code uses:
/// the perpendicular component `(v + normal * cos) * ratio` plus the parallel
/// component `-normal * sqrt(|1 - |perp|^2|)`.
pub fn refract<T: Scalar, const N: usize>(
    unit_vec: Vector<T, N>,
    normal: Vector<T, N>,
    refraction_ratio: T,
) -> (r: Vector<T, N>)
    ensures
        ({
            let perp = spec_refract_perp(unit_vec, normal, refraction_ratio);
            let par_len = crate::util::spec_abs(
                T::sp_one().sp_sub(spec_dot_prefix(perp, perp, N as int)),
            ).sp_sqrt();
            r.data@ == seq_add(perp, seq_neg(seq_mul_scalar(normal.data@, par_len)))
        }),
{
    let reversed = core::ops::Neg::neg(unit_vec);
    let cos_theta = crate::util::min_el(reversed.dot(normal), T::el_one());
    proof {
        assert(reversed.data@ =~= seq_neg(unit_vec.data@));
    }
    let r_out_perpendicular = (unit_vec + normal * cos_theta) * refraction_ratio;
    let diff = crate::util::abs_el(T::el_one().el_sub(r_out_perpendicular.length_squared()));
    let r_out_parallel = core::ops::Neg::neg(normal * diff.el_sqrt());
    let r = r_out_perpendicular + r_out_parallel;
    proof {
        let perp = spec_refract_perp(unit_vec, normal, refraction_ratio);
        assert(r_out_perpendicular.data@ =~= perp);
        assert(r.data@ =~= seq_add(perp, seq_neg(seq_mul_scalar(normal.data@, par_len_of::<T, N>(unit_vec, normal, refraction_ratio)))));
    }
    r
}

/// The length of the parallel component of a refracted direction.
pub open spec fn par_len_of<T: Scalar, const N: usize>(
    v: Vector<T, N>,
    normal: Vector<T, N>,
    ratio: T,
) -> T {
    let perp = spec_refract_perp(v, normal, ratio);
    crate::util::spec_abs(T::sp_one().sp_sub(spec_dot_prefix(perp, perp, N as int))).sp_sqrt()
}

impl<T: VecElement, const N: usize> Vector<T, N> {
    /// Mirror reflection of `self` about the plane normal to `normal`.
    pub fn reflect(&self, normal: Vector<T, N>) -> (r: Vector<T, N>)
        ensures
            r.data@ == spec_reflect(*self, normal),
    {
        reflect(*self, normal)
    }
}

impl<T: Scalar, const N: usize> Vector<T, N> {
    /// Refraction of `self` at a surface with the given normal and ratio of
    /// refractive indices.
    pub fn refract(&self, normal: Vector<T, N>, refraction_ratio: T) -> (r: Vector<T, N>)
        ensures
            r.data@ == seq_add(
                spec_refract_perp(*self, normal, refraction_ratio),
                seq_neg(seq_mul_scalar(normal.data@, par_len_of(*self, normal, refraction_ratio))),
            ),
    {
        refract(*self, normal, refraction_ratio)
    }
}

/// A vector with every coordinate drawn from `[from, to)`.
pub fn random_vector<T: VecElement, const N: usize, S: crate::util::RandomSource<T>>(
    source: &mut S,
    from: T,
    to: T,
) -> Vector<T, N> {
    let mut data: [T; N] = vstd::array::array_fill_for_copy_types(T::el_zero());
    let mut i: usize = 0;
    while i < N
        decreases N - i,
    {
        data[i] = source.uniform(from, to);
        i = i + 1;
    }
    Vector { data }
}

/// How often a rejection sampler redraws before it settles for the center of
/// the ball.  A uniform generator leaves the ball every time with probability
/// below one half per draw, so no real run comes near this bound.
pub const REJECTION_ATTEMPTS: u32 = 1000000;

/// A rejection-sampled point of the open unit ball: vectors drawn from the
/// surrounding cube until one with squared length below one comes up, the
/// center after `REJECTION_ATTEMPTS` unsuccessful draws.
pub fn random_in_unit_sphere<T: Scalar, const N: usize, S: crate::util::RandomSource<T>>(
    source: &mut S,
) -> (r: Vector<T, N>)
    ensures
        r.spec_length_squared().sp_lt(T::sp_one()) || r.data@ =~= Seq::new(
            N as nat,
            |i: int| T::sp_zero(),
        ),
{
    let neg_one = T::el_one().el_neg();
    let mut attempts: u32 = REJECTION_ATTEMPTS;
    while attempts > 0
        decreases attempts,
    {
        let point = random_vector::<T, N, S>(source, neg_one, T::el_one());
        if point.length_squared().el_lt(T::el_one()) {
            return point;
        }
        attempts = attempts - 1;
    }
    Vector::new_one(T::el_zero())
}

/// A point of the unit ball, normalized.
pub fn random_unit_vector<T: Scalar, const N: usize, S: crate::util::RandomSource<T>>(
    source: &mut S,
) -> (r: Vector<T, N>)
    ensures
        exists|p: Vector<T, N>|
            {
                &&& (#[trigger] p.spec_length_squared()).sp_lt(T::sp_one()) || p.data@ =~= Seq::new(
                    N as nat,
                    |i: int| T::sp_zero(),
                )
                &&& r.data@ == seq_div_scalar(p.data@, p.spec_length())
            },
{
    let p = random_in_unit_sphere::<T, N, S>(source);
    let r = p.unit_vector();
    proof {
        assert(r.data@ == seq_div_scalar(p.data@, p.spec_length()));
    }
    r
}

/// A normalized sample, flipped onto the side of the given normal: the
/// normalization of a ball sample, kept where its inner product with the
/// normal is positive and negated otherwise.
pub fn random_on_hemisphere<T: Scalar, const N: usize, S: crate::util::RandomSource<T>>(
    source: &mut S,
    normal: Vector<T, N>,
) -> (r: Vector<T, N>)
    ensures
        exists|p: Vector<T, N>|
            #![trigger p.spec_length()]
            {
                let unit = seq_div_scalar(p.data@, p.spec_length());
                &&& p.spec_length_squared().sp_lt(T::sp_one()) || p.data@ =~= Seq::new(
                    N as nat,
                    |i: int| T::sp_zero(),
                )
                &&& if T::sp_zero().sp_lt(spec_dot_prefix(unit, normal.data@, N as int)) {
                    r.data@ == unit
                } else {
                    r.data@ == seq_neg(unit)
                }
            },
{
    let point = random_unit_vector::<T, N, S>(source);
    if T::el_zero().el_lt(point.dot(normal)) {
        proof {
            let p = choose|p: Vector<T, N>|
                {
                    &&& (#[trigger] p.spec_length_squared()).sp_lt(T::sp_one()) || p.data@
                        =~= Seq::new(N as nat, |i: int| T::sp_zero())
                    &&& point.data@ == seq_div_scalar(p.data@, p.spec_length())
                };
            // naming the witness's length seeds the existential's trigger
            assert(p.spec_length() == p.spec_length());
        }
        point
    } else {
        let flipped = core::ops::Neg::neg(point);
        proof {
            let p = choose|p: Vector<T, N>|
                {
                    &&& (#[trigger] p.spec_length_squared()).sp_lt(T::sp_one()) || p.data@
                        =~= Seq::new(N as nat, |i: int| T::sp_zero())
                    &&& point.data@ == seq_div_scalar(p.data@, p.spec_length())
                };
            // naming the witness's length seeds the existential's trigger
            assert(p.spec_length() == p.spec_length());
        }
        flipped
    }
}

/// A rejection-sampled point of the open unit disk, the center after
/// `REJECTION_ATTEMPTS` unsuccessful draws.
pub fn random_in_unit_disk<T: Scalar, S: crate::util::RandomSource<T>>(
    source: &mut S,
) -> (r: Vector<T, 2>)
    ensures
        r.spec_length_squared().sp_lt(T::sp_one()) || r.data@ =~= Seq::new(
            2,
            |i: int| T::sp_zero(),
        ),
{
    let neg_one = T::el_one().el_neg();
    let mut attempts: u32 = REJECTION_ATTEMPTS;
    while attempts > 0
        decreases attempts,
    {
        let point = random_vector::<T, 2, S>(source, neg_one, T::el_one());
        if point.length_squared().el_lt(T::el_one()) {
            return point;
        }
        attempts = attempts - 1;
    }
    Vector::new_one(T::el_zero())
}

/// The whole-number square root: the largest `r` with `r * r <= n`, zero
/// for anything not positive.
pub open spec fn spec_isqrt(n: int) -> int
    decreases n,
{
    if n <= 0 {
        0
    } else {
        let r = spec_isqrt(n - 1);
        if (r + 1) * (r + 1) <= n {
            r + 1
        } else {
            r
        }
    }
}

/// What the whole-number square root satisfies: it is the unique
/// nonnegative root whose square does not pass `n` while the next square
/// does.
pub proof fn lemma_isqrt_bounds(n: int)
    requires
        n >= 0,
    ensures
        0 <= spec_isqrt(n),
        spec_isqrt(n) * spec_isqrt(n) <= n,
        n < (spec_isqrt(n) + 1) * (spec_isqrt(n) + 1),
    decreases n,
{
    if n > 0 {
        lemma_isqrt_bounds(n - 1);
        let r = spec_isqrt(n - 1);
        if (r + 1) * (r + 1) <= n {
            assert(n < (r + 2) * (r + 2)) by (nonlinear_arith)
                requires
                    r >= 0,
                    n - 1 < (r + 1) * (r + 1),
            ;
        }
    }
}

/// Any nonnegative value between consecutive squares pins the root.
pub proof fn lemma_isqrt_unique(n: int, r: int)
    requires
        n >= 0,
        r >= 0,
        r * r <= n,
        n < (r + 1) * (r + 1),
    ensures
        r == spec_isqrt(n),
{
    lemma_isqrt_bounds(n);
    let s = spec_isqrt(n);
    assert(r == s) by (nonlinear_arith)
        requires
            r >= 0,
            s >= 0,
            r * r <= n,
            n < (r + 1) * (r + 1),
            s * s <= n,
            n < (s + 1) * (s + 1),
    ;
}

impl Scalar for i64 {
    /// The whole-number square root, zero on anything negative.
    open spec fn sp_sqrt(self) -> Self {
        spec_isqrt(self as int) as i64
    }

    /// Whole numbers have no values between zero and one: only zero itself
    /// is negligible.
    open spec fn sp_near_zero(self) -> bool {
        self == 0
    }

    /// The ratio rounded towards zero; the top of the range where the
    /// denominator vanishes without the numerator.
    open spec fn sp_num(numer: u32, denom: u32) -> Self {
        if denom == 0 {
            if numer == 0 {
                0
            } else {
                i64::MAX
            }
        } else {
            (numer as int / denom as int) as i64
        }
    }

    open spec fn sp_inf() -> Self {
        i64::MAX
    }

    open spec fn sp_neg_inf() -> Self {
        i64::MIN
    }

    /// The whole numbers carry no trigonometry: the tangent is fixed at
    /// zero.
    open spec fn sp_tan(self) -> Self {
        0
    }

    /// Likewise no angle conversion: everything maps to zero.
    open spec fn sp_to_radians(self) -> Self {
        0
    }

    open spec fn sp_trunc_u32(self) -> u32 {
        if self < 0 {
            0
        } else if self > u32::MAX {
            u32::MAX
        } else {
            self as u32
        }
    }

    /// The largest whole number not above `self` is `self` itself.
    open spec fn sp_floor_i64(self) -> i64 {
        self
    }

    /// The whole numbers read no text.
    open spec fn sp_parse(s: Seq<char>) -> Option<Self> {
        None
    }

    fn el_sqrt(self) -> (r: Self) {
        if self <= 0 {
            proof {
                if self == 0 {
                    lemma_isqrt_bounds(0);
                }
            }
            return 0;
        }
        let n = self as u64;
        let mut lo: u64 = 0;
        let mut hi: u64 = 3037000500;
        proof {
            assert(hi * hi > i64::MAX) by (nonlinear_arith)
                requires
                    hi == 3037000500,
            ;
        }
        while lo + 1 < hi
            invariant
                0 <= lo < hi <= 3037000500,
                n == self,
                self > 0,
                lo * lo <= n,
                n < hi * hi,
            decreases hi - lo,
        {
            let mid = lo + (hi - lo) / 2;
            proof {
                assert(mid * mid <= 3037000500 * 3037000500) by (nonlinear_arith)
                    requires
                        0 <= mid <= 3037000500,
                ;
                assert(3037000500 * 3037000500 <= u64::MAX) by (nonlinear_arith);
            }
            if mid * mid <= n {
                lo = mid;
            } else {
                hi = mid;
            }
        }
        proof {
            assert(n < (lo + 1) * (lo + 1));
            lemma_isqrt_unique(self as int, lo as int);
        }
        lo as i64
    }

    fn el_near_zero(self) -> (r: bool) {
        self == 0
    }

    fn el_num(numer: u32, denom: u32) -> (r: Self) {
        if denom == 0 {
            if numer == 0 {
                0
            } else {
                i64::MAX
            }
        } else {
            (numer / denom) as i64
        }
    }

    fn el_inf() -> (r: Self) {
        i64::MAX
    }

    fn el_neg_inf() -> (r: Self) {
        i64::MIN
    }

    fn el_tan(self) -> (r: Self) {
        0
    }

    fn el_to_radians(self) -> (r: Self) {
        0
    }

    fn el_trunc_u32(self) -> (r: u32) {
        if self < 0 {
            0
        } else if self > u32::MAX as i64 {
            u32::MAX
        } else {
            self as u32
        }
    }

    fn el_floor_i64(self) -> (r: i64) {
        self
    }

    fn el_parse(s: &str) -> (r: Option<Self>) {
        None
    }
}

/// The coordinate arithmetic behaving as a commutative ring: addition and
/// multiplication commute and associate, zero and one are neutral, negation
/// inverts, multiplication distributes, and subtraction is addition of the
/// negation.  Exact arithmetic obeys all of it; floating-point arithmetic
/// obeys the parts without regrouping, so the lemmas below hold of it only
/// as the real-number reading of the formulas.
pub open spec fn ring_laws<T: VecElement>() -> bool {
    &&& forall|a: T, b: T| #![trigger a.sp_add(b), b.sp_add(a)] a.sp_add(b) == b.sp_add(a)
    &&& forall|a: T, b: T, c: T|
        #![trigger a.sp_add(b).sp_add(c), b.sp_add(c)]
        a.sp_add(b).sp_add(c) == a.sp_add(b.sp_add(c))
    &&& forall|a: T| #[trigger] a.sp_add(T::sp_zero()) == a
    &&& forall|a: T| #[trigger] a.sp_add(a.sp_neg()) == T::sp_zero()
    &&& forall|a: T, b: T| #![trigger a.sp_mul(b), b.sp_mul(a)] a.sp_mul(b) == b.sp_mul(a)
    &&& forall|a: T, b: T, c: T|
        #![trigger a.sp_mul(b).sp_mul(c), b.sp_mul(c)]
        a.sp_mul(b).sp_mul(c) == a.sp_mul(b.sp_mul(c))
    &&& forall|a: T| #[trigger] a.sp_mul(T::sp_one()) == a
    &&& forall|a: T| #[trigger] a.sp_mul(T::sp_zero()) == T::sp_zero()
    &&& forall|a: T, b: T, c: T|
        #![trigger a.sp_mul(b.sp_add(c)), b.sp_add(c)]
        a.sp_mul(b.sp_add(c)) == a.sp_mul(b).sp_add(a.sp_mul(c))
    &&& forall|a: T, b: T| #[trigger] a.sp_sub(b) == a.sp_add(b.sp_neg())
}

/// The modulus the 64-bit coordinates wrap at.
pub open spec fn coord_modulus() -> int {
    0x1_0000_0000_0000_0000
}

/// Every 64-bit value is its own remainder class representative: values in
/// range that agree modulo the modulus are equal.
proof fn lemma_i64_rep(u: i64, v: i64)
    requires
        (u as int) % coord_modulus() == (v as int) % coord_modulus(),
    ensures
        u == v,
{
    let m = coord_modulus();
    if u >= 0 {
        vstd::arithmetic::div_mod::lemma_small_mod(u as nat, m as nat);
    } else {
        vstd::arithmetic::div_mod::lemma_mod_multiples_vanish(1, u as int, m);
        vstd::arithmetic::div_mod::lemma_small_mod((u + m) as nat, m as nat);
    }
    if v >= 0 {
        vstd::arithmetic::div_mod::lemma_small_mod(v as nat, m as nat);
    } else {
        vstd::arithmetic::div_mod::lemma_mod_multiples_vanish(1, v as int, m);
        vstd::arithmetic::div_mod::lemma_small_mod((v + m) as nat, m as nat);
    }
}

/// A wrapping sum lies in the remainder class of the true sum.
proof fn lemma_wrap_add(a: i64, b: i64)
    ensures
        (vstd::wrapping::i64_specs::wrapping_add(a, b) as int) % coord_modulus() == (a + b)
            % coord_modulus(),
{
    let m = coord_modulus();
    let s = a as int + b as int;
    if s > i64::MAX {
        vstd::arithmetic::div_mod::lemma_mod_multiples_vanish(-1, s, m);
    } else if s < i64::MIN {
        vstd::arithmetic::div_mod::lemma_mod_multiples_vanish(1, s, m);
    }
}

/// A wrapping difference lies in the remainder class of the true
/// difference.
proof fn lemma_wrap_sub(a: i64, b: i64)
    ensures
        (vstd::wrapping::i64_specs::wrapping_sub(a, b) as int) % coord_modulus() == (a - b)
            % coord_modulus(),
{
    let m = coord_modulus();
    let s = a as int - b as int;
    if s > i64::MAX {
        vstd::arithmetic::div_mod::lemma_mod_multiples_vanish(-1, s, m);
    } else if s < i64::MIN {
        vstd::arithmetic::div_mod::lemma_mod_multiples_vanish(1, s, m);
    }
}

/// The signed crop of any value lies in that value's remainder class.
proof fn lemma_crop_cong(x: int)
    ensures
        (vstd::wrapping::i64_specs::signed_crop(x) as int) % coord_modulus() == x
            % coord_modulus(),
{
    let m = coord_modulus();
    vstd::arithmetic::div_mod::lemma_small_mod((x % m) as nat, m as nat);
    if x % m > i64::MAX {
        vstd::arithmetic::div_mod::lemma_mod_multiples_vanish(-1, x % m, m);
    }
}

/// Cropping a value already in range gives it back.
proof fn lemma_crop_fixes(a: i64)
    ensures
        vstd::wrapping::i64_specs::signed_crop(a as int) == a,
{
    let m = coord_modulus();
    if a >= 0 {
        vstd::arithmetic::div_mod::lemma_small_mod(a as nat, m as nat);
    } else {
        vstd::arithmetic::div_mod::lemma_mod_multiples_vanish(1, a as int, m);
        vstd::arithmetic::div_mod::lemma_small_mod((a + m) as nat, m as nat);
    }
}

/// The 64-bit wrapping coordinates form a commutative ring: every law the
/// vector lemmas assume holds of the integer instance.
pub proof fn lemma_i64_ring_laws()
    ensures
        ring_laws::<i64>(),
{
    let m = coord_modulus();
    assert forall|a: i64, b: i64| #![trigger a.sp_add(b), b.sp_add(a)] a.sp_add(b) == b.sp_add(
        a,
    ) by {}
    assert forall|a: i64, b: i64, c: i64|
        #![trigger a.sp_add(b).sp_add(c), b.sp_add(c)]
        a.sp_add(b).sp_add(c) == a.sp_add(b.sp_add(c)) by {
        let ab = a.sp_add(b);
        let bc = b.sp_add(c);
        lemma_wrap_add(a, b);
        lemma_wrap_add(b, c);
        lemma_wrap_add(ab, c);
        lemma_wrap_add(a, bc);
        vstd::arithmetic::div_mod::lemma_add_mod_noop(ab as int, c as int, m);
        vstd::arithmetic::div_mod::lemma_add_mod_noop(a as int + b as int, c as int, m);
        vstd::arithmetic::div_mod::lemma_add_mod_noop(a as int, bc as int, m);
        vstd::arithmetic::div_mod::lemma_add_mod_noop(a as int, b as int + c as int, m);
        lemma_i64_rep(ab.sp_add(c), a.sp_add(bc));
    }
    assert forall|a: i64| #[trigger] a.sp_add(0i64) == a by {}
    assert forall|a: i64| #[trigger] a.sp_add(a.sp_neg()) == 0i64 by {
        let n = a.sp_neg();
        lemma_wrap_sub(0, a);
        lemma_wrap_add(a, n);
        vstd::arithmetic::div_mod::lemma_add_mod_noop(a as int, n as int, m);
        vstd::arithmetic::div_mod::lemma_add_mod_noop(a as int, 0 - a as int, m);
        lemma_i64_rep(a.sp_add(n), 0);
    }
    assert forall|a: i64, b: i64| #![trigger a.sp_mul(b), b.sp_mul(a)] a.sp_mul(b) == b.sp_mul(
        a,
    ) by {}
    assert forall|a: i64, b: i64, c: i64|
        #![trigger a.sp_mul(b).sp_mul(c), b.sp_mul(c)]
        a.sp_mul(b).sp_mul(c) == a.sp_mul(b.sp_mul(c)) by {
        let ab = a.sp_mul(b);
        let bc = b.sp_mul(c);
        lemma_crop_cong(a as int * b as int);
        lemma_crop_cong(b as int * c as int);
        lemma_crop_cong(ab as int * c as int);
        lemma_crop_cong(a as int * bc as int);
        vstd::arithmetic::div_mod::lemma_mul_mod_noop_left(ab as int, c as int, m);
        vstd::arithmetic::div_mod::lemma_mul_mod_noop_left(a as int * b as int, c as int, m);
        vstd::arithmetic::div_mod::lemma_mul_mod_noop_right(a as int, bc as int, m);
        vstd::arithmetic::div_mod::lemma_mul_mod_noop_right(a as int, b as int * c as int, m);
        assert(a as int * b as int * (c as int) == a as int * (b as int * c as int))
            by (nonlinear_arith);
        lemma_i64_rep(ab.sp_mul(c), a.sp_mul(bc));
    }
    assert forall|a: i64| #[trigger] a.sp_mul(1i64) == a by {
        lemma_crop_fixes(a);
    }
    assert forall|a: i64| #[trigger] a.sp_mul(0i64) == 0i64 by {
        lemma_crop_fixes(0);
    }
    assert forall|a: i64, b: i64, c: i64|
        #![trigger a.sp_mul(b.sp_add(c)), b.sp_add(c)]
        a.sp_mul(b.sp_add(c)) == a.sp_mul(b).sp_add(a.sp_mul(c)) by {
        let bc = b.sp_add(c);
        let ab = a.sp_mul(b);
        let ac = a.sp_mul(c);
        lemma_wrap_add(b, c);
        lemma_crop_cong(a as int * bc as int);
        lemma_crop_cong(a as int * b as int);
        lemma_crop_cong(a as int * c as int);
        lemma_wrap_add(ab, ac);
        vstd::arithmetic::div_mod::lemma_mul_mod_noop_right(a as int, bc as int, m);
        vstd::arithmetic::div_mod::lemma_mul_mod_noop_right(a as int, b as int + c as int, m);
        vstd::arithmetic::div_mod::lemma_add_mod_noop(ab as int, ac as int, m);
        vstd::arithmetic::div_mod::lemma_add_mod_noop(
            a as int * b as int,
            a as int * c as int,
            m,
        );
        assert(a as int * (b as int + c as int) == a as int * b as int + a as int * c as int)
            by (nonlinear_arith);
        lemma_i64_rep(a.sp_mul(bc), ab.sp_add(ac));
    }
    assert forall|a: i64, b: i64| #[trigger] a.sp_sub(b) == a.sp_add(b.sp_neg()) by {
        let n = b.sp_neg();
        lemma_wrap_sub(a, b);
        lemma_wrap_sub(0, b);
        lemma_wrap_add(a, n);
        vstd::arithmetic::div_mod::lemma_add_mod_noop(a as int, n as int, m);
        vstd::arithmetic::div_mod::lemma_add_mod_noop(a as int, 0 - b as int, m);
        lemma_i64_rep(a.sp_sub(b), a.sp_add(n));
    }
}

/// In a ring, additive inverses are unique: whatever cancels `a` is its
/// negation.
proof fn lemma_inverse_unique<T: VecElement>(a: T, u: T)
    requires
        ring_laws::<T>(),
        a.sp_add(u) == T::sp_zero(),
    ensures
        u == a.sp_neg(),
{
    assert(u.sp_add(a.sp_add(a.sp_neg())) == u);
    assert(u.sp_add(a).sp_add(a.sp_neg()) == u);
    assert(a.sp_add(u) == u.sp_add(a));
    assert(T::sp_zero().sp_add(a.sp_neg()) == a.sp_neg().sp_add(T::sp_zero()));
}

/// In a ring, negation passes through multiplication on the right.
proof fn lemma_mul_neg<T: VecElement>(a: T, b: T)
    requires
        ring_laws::<T>(),
    ensures
        a.sp_mul(b.sp_neg()) == a.sp_mul(b).sp_neg(),
{
    assert(a.sp_mul(b).sp_add(a.sp_mul(b.sp_neg())) == a.sp_mul(b.sp_add(b.sp_neg())));
    assert(a.sp_mul(b.sp_add(b.sp_neg())) == T::sp_zero());
    lemma_inverse_unique(a.sp_mul(b), a.sp_mul(b.sp_neg()));
}

/// In a ring, negation passes through addition.
proof fn lemma_neg_add<T: VecElement>(a: T, b: T)
    requires
        ring_laws::<T>(),
    ensures
        a.sp_add(b).sp_neg() == a.sp_neg().sp_add(b.sp_neg()),
{
    let s = a.sp_add(b);
    let t = a.sp_neg().sp_add(b.sp_neg());
    assert(s.sp_add(t) == T::sp_zero()) by {
        assert(s.sp_add(t) == a.sp_add(b).sp_add(a.sp_neg()).sp_add(b.sp_neg()));
        assert(a.sp_add(b).sp_add(a.sp_neg()) == a.sp_add(a.sp_neg()).sp_add(b)) by {
            assert(b.sp_add(a.sp_neg()) == a.sp_neg().sp_add(b));
            assert(a.sp_add(b.sp_add(a.sp_neg())) == a.sp_add(a.sp_neg().sp_add(b)));
        }
        assert(T::sp_zero().sp_add(b) == b.sp_add(T::sp_zero()));
    }
    lemma_inverse_unique(s, t);
}

/// In a ring, the negation of a difference is the reversed difference.
proof fn lemma_neg_sub<T: VecElement>(a: T, b: T)
    requires
        ring_laws::<T>(),
    ensures
        a.sp_sub(b).sp_neg() == b.sp_sub(a),
{
    lemma_neg_add(a, b.sp_neg());
    assert(b.sp_neg().sp_neg() == b) by {
        assert(b.sp_neg().sp_add(b) == b.sp_add(b.sp_neg()));
        lemma_inverse_unique(b.sp_neg(), b);
    }
    assert(a.sp_sub(b).sp_neg() == a.sp_neg().sp_add(b));
    assert(b.sp_sub(a) == b.sp_add(a.sp_neg()));
}

/// The inner product fold is symmetric in its two sequences.
proof fn lemma_dot_prefix_comm<T: VecElement>(a: Seq<T>, b: Seq<T>, n: int)
    requires
        ring_laws::<T>(),
    ensures
        spec_dot_prefix(a, b, n) == spec_dot_prefix(b, a, n),
    decreases n,
{
    if n > 0 {
        lemma_dot_prefix_comm(a, b, n - 1);
    }
}

/// The inner product of two vectors does not depend on their order.
pub proof fn lemma_dot_commutative<T: VecElement, const N: usize>(
    a: Vector<T, N>,
    b: Vector<T, N>,
)
    requires
        ring_laws::<T>(),
    ensures
        a.spec_dot(b) == b.spec_dot(a),
{
    lemma_dot_prefix_comm(a.data@, b.data@, N as int);
}

/// A vector added to its negation vanishes in every coordinate.
pub proof fn lemma_add_neg_zero<T: VecElement, const N: usize>(v: Vector<T, N>)
    requires
        ring_laws::<T>(),
    ensures
        forall|i: int|
            0 <= i < N ==> #[trigger] seq_add(v.data@, seq_neg(v.data@))[i] == T::sp_zero(),
{
}

/// The cross product reverses sign when its arguments swap: each coordinate
/// of `a x b` is the negation of the same coordinate of `b x a`.
pub proof fn lemma_cross_anticommutative<T: VecElement>(a: Vector<T, 3>, b: Vector<T, 3>)
    requires
        ring_laws::<T>(),
    ensures
        forall|i: int, j: int|
            0 <= i < 3 && 0 <= j < 3 ==> #[trigger] a.spec_cross_at(b, i, j) == b.spec_cross_at(
                a,
                i,
                j,
            ).sp_neg(),
{
    assert forall|i: int, j: int|
        0 <= i < 3 && 0 <= j < 3 implies #[trigger] a.spec_cross_at(b, i, j) == b.spec_cross_at(
        a,
        i,
        j,
    ).sp_neg() by {
        let x = a.data@[i].sp_mul(b.data@[j]);
        let y = a.data@[j].sp_mul(b.data@[i]);
        assert(b.spec_cross_at(a, i, j) == y.sp_sub(x));
        lemma_neg_sub(y, x);
    }
}

/// The inner product fold distributes over a pointwise difference on the
/// left.
proof fn lemma_dot_prefix_sub_left<T: VecElement>(a: Seq<T>, b: Seq<T>, c: Seq<T>, n: int)
    requires
        ring_laws::<T>(),
        n <= a.len(),
        n <= b.len(),
    ensures
        spec_dot_prefix(seq_sub(a, b), c, n) == spec_dot_prefix(a, c, n).sp_sub(
            spec_dot_prefix(b, c, n),
        ),
    decreases n,
{
    if n <= 0 {
        assert(T::sp_zero().sp_add(T::sp_zero().sp_neg()) == T::sp_zero());
    } else {
        lemma_dot_prefix_sub_left(a, b, c, n - 1);
        let p = spec_dot_prefix(a, c, n - 1);
        let q = spec_dot_prefix(b, c, n - 1);
        let x = a[n - 1].sp_mul(c[n - 1]);
        let y = b[n - 1].sp_mul(c[n - 1]);
        // the new summand splits into the two products
        assert(seq_sub(a, b)[n - 1].sp_mul(c[n - 1]) == x.sp_sub(y)) by {
            assert(seq_sub(a, b)[n - 1] == a[n - 1].sp_sub(b[n - 1]));
            assert(a[n - 1].sp_sub(b[n - 1]) == a[n - 1].sp_add(b[n - 1].sp_neg()));
            assert(c[n - 1].sp_mul(a[n - 1].sp_add(b[n - 1].sp_neg())) == c[n - 1].sp_mul(
                a[n - 1],
            ).sp_add(c[n - 1].sp_mul(b[n - 1].sp_neg())));
            lemma_mul_neg(c[n - 1], b[n - 1]);
        }
        // and the fold of a difference regroups
        assert(p.sp_sub(q).sp_add(x.sp_sub(y)) == p.sp_add(x).sp_sub(q.sp_add(y))) by {
            lemma_neg_add(q, y);
            assert(p.sp_sub(q).sp_add(x.sp_sub(y)) == p.sp_add(q.sp_neg()).sp_add(
                x.sp_add(y.sp_neg()),
            ));
            assert(p.sp_add(q.sp_neg()).sp_add(x.sp_add(y.sp_neg())) == p.sp_add(
                q.sp_neg().sp_add(x.sp_add(y.sp_neg())),
            ));
            assert(q.sp_neg().sp_add(x.sp_add(y.sp_neg())) == x.sp_add(
                q.sp_neg().sp_add(y.sp_neg()),
            )) by {
                assert(q.sp_neg().sp_add(x.sp_add(y.sp_neg())) == q.sp_neg().sp_add(x).sp_add(
                    y.sp_neg(),
                ));
                assert(q.sp_neg().sp_add(x) == x.sp_add(q.sp_neg()));
                assert(x.sp_add(q.sp_neg()).sp_add(y.sp_neg()) == x.sp_add(
                    q.sp_neg().sp_add(y.sp_neg()),
                ));
            }
            assert(p.sp_add(x.sp_add(q.sp_neg().sp_add(y.sp_neg()))) == p.sp_add(x).sp_add(
                q.sp_neg().sp_add(y.sp_neg()),
            ));
        }
    }
}

/// The inner product fold pulls a left scalar factor out.
proof fn lemma_dot_prefix_scale_left<T: VecElement>(a: Seq<T>, t: T, c: Seq<T>, n: int)
    requires
        ring_laws::<T>(),
        n <= a.len(),
    ensures
        spec_dot_prefix(seq_mul_scalar(a, t), c, n) == t.sp_mul(spec_dot_prefix(a, c, n)),
    decreases n,
{
    if n <= 0 {
        assert(t.sp_mul(T::sp_zero()) == T::sp_zero());
    } else {
        lemma_dot_prefix_scale_left(a, t, c, n - 1);
        let p = spec_dot_prefix(a, c, n - 1);
        let x = a[n - 1].sp_mul(c[n - 1]);
        assert(seq_mul_scalar(a, t)[n - 1].sp_mul(c[n - 1]) == t.sp_mul(x)) by {
            assert(seq_mul_scalar(a, t)[n - 1] == a[n - 1].sp_mul(t));
            assert(a[n - 1].sp_mul(t).sp_mul(c[n - 1]) == a[n - 1].sp_mul(t.sp_mul(c[n - 1])));
            assert(t.sp_mul(c[n - 1]).sp_mul(a[n - 1]) == t.sp_mul(c[n - 1].sp_mul(a[n - 1])));
        }
        assert(t.sp_mul(p).sp_add(t.sp_mul(x)) == t.sp_mul(p.sp_add(x)));
    }
}

/// A reflected direction meets the mirror normal with its inner product
/// negated: for a unit normal, `reflect(v, n) . n == -(v . n)`.
pub proof fn lemma_reflect_dot<T: VecElement, const N: usize>(v: Vector<T, N>, n: Vector<T, N>)
    requires
        ring_laws::<T>(),
        n.spec_dot(n) == T::sp_one(),
    ensures
        spec_dot_prefix(spec_reflect(v, n), n.data@, N as int) == v.spec_dot(n).sp_neg(),
{
    let d = v.spec_dot(n);
    let k = spec_reflect_coeff(v, n);
    let scaled = seq_mul_scalar(n.data@, k);
    lemma_dot_prefix_sub_left(v.data@, scaled, n.data@, N as int);
    lemma_dot_prefix_scale_left(n.data@, k, n.data@, N as int);
    // reflect . n == d - k * (n . n) == d - k
    assert(spec_dot_prefix(spec_reflect(v, n), n.data@, N as int) == d.sp_sub(k)) by {
        assert(k.sp_mul(T::sp_one()) == k);
    }
    // and d - d * (1 + 1) regroups to -d
    assert(d.sp_sub(k) == d.sp_neg()) by {
        let two = T::sp_one().sp_add(T::sp_one());
        assert(k == d.sp_mul(two));
        assert(d.sp_mul(two) == d.sp_mul(T::sp_one()).sp_add(d.sp_mul(T::sp_one())));
        assert(d.sp_sub(d.sp_add(d)) == d.sp_add(d.sp_add(d).sp_neg()));
        lemma_neg_add(d, d);
        assert(d.sp_add(d.sp_neg().sp_add(d.sp_neg())) == d.sp_add(d.sp_neg()).sp_add(
            d.sp_neg(),
        ));
        assert(T::sp_zero().sp_add(d.sp_neg()) == d.sp_neg().sp_add(T::sp_zero()));
    }
}

/// Reflection preserves length: for a unit normal, the squared length of
/// `reflect(v, n)` is the squared length of `v`.
pub proof fn lemma_reflect_length<T: VecElement, const N: usize>(v: Vector<T, N>, n: Vector<T, N>)
    requires
        ring_laws::<T>(),
        n.spec_dot(n) == T::sp_one(),
    ensures
        spec_dot_prefix(spec_reflect(v, n), spec_reflect(v, n), N as int) == v.spec_dot(v),
{
    let d = v.spec_dot(n);
    let k = spec_reflect_coeff(v, n);
    let scaled = seq_mul_scalar(n.data@, k);
    let refl = spec_reflect(v, n);

    // expand the left argument
    lemma_dot_prefix_sub_left(v.data@, scaled, refl, N as int);
    // expand each right argument by symmetry
    lemma_dot_prefix_comm(v.data@, refl, N as int);
    lemma_dot_prefix_sub_left(v.data@, scaled, v.data@, N as int);
    lemma_dot_prefix_comm(scaled, refl, N as int);
    lemma_dot_prefix_sub_left(v.data@, scaled, scaled, N as int);
    lemma_dot_prefix_scale_left(n.data@, k, v.data@, N as int);
    lemma_dot_prefix_scale_left(n.data@, k, scaled, N as int);
    lemma_dot_prefix_comm(n.data@, v.data@, N as int);

    let vv = v.spec_dot(v);
    lemma_dot_prefix_scale_left(n.data@, k, n.data@, N as int);
    lemma_dot_prefix_comm(n.data@, scaled, N as int);
    lemma_dot_prefix_comm(v.data@, scaled, N as int);

    // dot(refl, refl) == (vv - k d) - (k d - k k)
    assert(spec_dot_prefix(refl, refl, N as int) == vv.sp_sub(k.sp_mul(d)).sp_sub(
        k.sp_mul(d).sp_sub(k.sp_mul(k)),
    )) by {
        assert(spec_dot_prefix(refl, refl, N as int) == spec_dot_prefix(
            v.data@,
            refl,
            N as int,
        ).sp_sub(spec_dot_prefix(scaled, refl, N as int)));
        assert(spec_dot_prefix(refl, v.data@, N as int) == vv.sp_sub(
            spec_dot_prefix(scaled, v.data@, N as int),
        ));
        assert(spec_dot_prefix(refl, scaled, N as int) == spec_dot_prefix(
            v.data@,
            scaled,
            N as int,
        ).sp_sub(spec_dot_prefix(scaled, scaled, N as int)));
        assert(spec_dot_prefix(scaled, v.data@, N as int) == k.sp_mul(
            spec_dot_prefix(n.data@, v.data@, N as int),
        ));
        assert(spec_dot_prefix(n.data@, v.data@, N as int) == d);
        assert(spec_dot_prefix(scaled, scaled, N as int) == k.sp_mul(
            spec_dot_prefix(n.data@, scaled, N as int),
        ));
        assert(spec_dot_prefix(scaled, n.data@, N as int) == k.sp_mul(
            spec_dot_prefix(n.data@, n.data@, N as int),
        ));
        assert(k.sp_mul(k.sp_mul(T::sp_one())) == k.sp_mul(k));
        assert(k.sp_mul(T::sp_one()) == k);
    }

    // and the scalar identity (vv - k d) - (k d - k k) == vv for k == 2 d
    let two = T::sp_one().sp_add(T::sp_one());
    assert(k == d.sp_mul(two));
    let kd = k.sp_mul(d);
    assert(k.sp_mul(k) == kd.sp_add(kd)) by {
        assert(k.sp_mul(k) == k.sp_mul(d.sp_mul(two)));
        assert(k.sp_mul(d.sp_mul(two)) == k.sp_mul(d).sp_mul(two));
        assert(kd.sp_mul(two) == kd.sp_mul(T::sp_one()).sp_add(kd.sp_mul(T::sp_one())));
        assert(kd.sp_mul(T::sp_one()) == kd);
    }
    assert(kd.sp_sub(kd.sp_add(kd)) == kd.sp_neg()) by {
        lemma_neg_add(kd, kd);
        assert(kd.sp_sub(kd.sp_add(kd)) == kd.sp_add(kd.sp_neg().sp_add(kd.sp_neg())));
        assert(kd.sp_add(kd.sp_neg().sp_add(kd.sp_neg())) == kd.sp_add(kd.sp_neg()).sp_add(
            kd.sp_neg(),
        ));
        assert(T::sp_zero().sp_add(kd.sp_neg()) == kd.sp_neg().sp_add(T::sp_zero()));
    }
    assert(vv.sp_sub(kd).sp_sub(kd.sp_neg()) == vv) by {
        lemma_neg_sub(kd.sp_add(kd.sp_neg().sp_neg()), T::sp_zero());
        assert(kd.sp_neg().sp_neg() == kd) by {
            assert(kd.sp_neg().sp_add(kd) == kd.sp_add(kd.sp_neg()));
            lemma_inverse_unique(kd.sp_neg(), kd);
        }
        assert(vv.sp_sub(kd).sp_sub(kd.sp_neg()) == vv.sp_add(kd.sp_neg()).sp_add(kd));
        assert(vv.sp_add(kd.sp_neg()).sp_add(kd) == vv.sp_add(kd.sp_neg().sp_add(kd)));
        assert(kd.sp_neg().sp_add(kd) == kd.sp_add(kd.sp_neg()));
        assert(vv.sp_add(T::sp_zero()) == vv);
    }
    assert(vv.sp_sub(kd).sp_sub(kd.sp_sub(k.sp_mul(k))) == vv.sp_sub(kd).sp_sub(kd.sp_neg()))
        by {
        assert(kd.sp_sub(k.sp_mul(k)) == kd.sp_sub(kd.sp_add(kd)));
    }
}

/// A vector stands normal to its own cross products: `a . (a x b) == 0`.
pub proof fn lemma_dot_cross_zero<T: VecElement>(a: Vector<T, 3>, b: Vector<T, 3>)
    requires
        ring_laws::<T>(),
    ensures
        ({
            let c = seq![
                a.spec_cross_at(b, 1, 2),
                a.spec_cross_at(b, 2, 0),
                a.spec_cross_at(b, 0, 1),
            ];
            spec_dot_prefix(a.data@, c, 3) == T::sp_zero()
        }),
{
    let a0 = a.data@[0];
    let a1 = a.data@[1];
    let a2 = a.data@[2];
    let b0 = b.data@[0];
    let b1 = b.data@[1];
    let b2 = b.data@[2];
    let c = seq![
        a.spec_cross_at(b, 1, 2),
        a.spec_cross_at(b, 2, 0),
        a.spec_cross_at(b, 0, 1),
    ];
    let t0 = a0.sp_mul(a1.sp_mul(b2).sp_sub(a2.sp_mul(b1)));
    let t1 = a1.sp_mul(a2.sp_mul(b0).sp_sub(a0.sp_mul(b2)));
    let t2 = a2.sp_mul(a0.sp_mul(b1).sp_sub(a1.sp_mul(b0)));
    assert(spec_dot_prefix(a.data@, c, 3) == T::sp_zero().sp_add(t0).sp_add(t1).sp_add(t2)) by {
        reveal_with_fuel(spec_dot_prefix, 4);
    }

    // each term splits into two signed products
    let p01 = a0.sp_mul(a1.sp_mul(b2));
    let p02 = a0.sp_mul(a2.sp_mul(b1));
    let p12 = a1.sp_mul(a2.sp_mul(b0));
    let p10 = a1.sp_mul(a0.sp_mul(b2));
    let p20 = a2.sp_mul(a0.sp_mul(b1));
    let p21 = a2.sp_mul(a1.sp_mul(b0));
    assert(t0 == p01.sp_sub(p02)) by {
        lemma_mul_sub(a0, a1.sp_mul(b2), a2.sp_mul(b1));
    }
    assert(t1 == p12.sp_sub(p10)) by {
        lemma_mul_sub(a1, a2.sp_mul(b0), a0.sp_mul(b2));
    }
    assert(t2 == p20.sp_sub(p21)) by {
        lemma_mul_sub(a2, a0.sp_mul(b1), a1.sp_mul(b0));
    }

    // matching products are equal by commutativity and associativity
    assert(p01 == p10) by {
        assert(a0.sp_mul(a1.sp_mul(b2)) == a0.sp_mul(a1).sp_mul(b2));
        assert(a1.sp_mul(a0.sp_mul(b2)) == a1.sp_mul(a0).sp_mul(b2));
    }
    assert(p02 == p20) by {
        assert(a0.sp_mul(a2.sp_mul(b1)) == a0.sp_mul(a2).sp_mul(b1));
        assert(a2.sp_mul(a0.sp_mul(b1)) == a2.sp_mul(a0).sp_mul(b1));
    }
    assert(p12 == p21) by {
        assert(a1.sp_mul(a2.sp_mul(b0)) == a1.sp_mul(a2).sp_mul(b0));
        assert(a2.sp_mul(a1.sp_mul(b0)) == a2.sp_mul(a1).sp_mul(b0));
    }

    // so the sum telescopes to zero
    assert(T::sp_zero().sp_add(t0) == t0.sp_add(T::sp_zero()));
    assert(t0.sp_add(t1).sp_add(t2) == T::sp_zero()) by {
        lemma_sub_chain_zero(p01, p02, p12);
    }
}

/// The second operand stands normal to the cross product too:
/// `b . (a x b) == 0`.
pub proof fn lemma_dot_cross_zero_right<T: VecElement>(a: Vector<T, 3>, b: Vector<T, 3>)
    requires
        ring_laws::<T>(),
    ensures
        ({
            let c = seq![
                a.spec_cross_at(b, 1, 2),
                a.spec_cross_at(b, 2, 0),
                a.spec_cross_at(b, 0, 1),
            ];
            spec_dot_prefix(b.data@, c, 3) == T::sp_zero()
        }),
{
    let a0 = a.data@[0];
    let a1 = a.data@[1];
    let a2 = a.data@[2];
    let b0 = b.data@[0];
    let b1 = b.data@[1];
    let b2 = b.data@[2];
    let c = seq![
        a.spec_cross_at(b, 1, 2),
        a.spec_cross_at(b, 2, 0),
        a.spec_cross_at(b, 0, 1),
    ];
    let t0 = b0.sp_mul(a1.sp_mul(b2).sp_sub(a2.sp_mul(b1)));
    let t1 = b1.sp_mul(a2.sp_mul(b0).sp_sub(a0.sp_mul(b2)));
    let t2 = b2.sp_mul(a0.sp_mul(b1).sp_sub(a1.sp_mul(b0)));
    assert(spec_dot_prefix(b.data@, c, 3) == T::sp_zero().sp_add(t0).sp_add(t1).sp_add(t2)) by {
        reveal_with_fuel(spec_dot_prefix, 4);
    }

    let x = b0.sp_mul(a1.sp_mul(b2));
    let y = b0.sp_mul(a2.sp_mul(b1));
    let z = b1.sp_mul(a0.sp_mul(b2));
    assert(t0 == x.sp_sub(y)) by {
        lemma_mul_sub(b0, a1.sp_mul(b2), a2.sp_mul(b1));
    }
    assert(t1 == y.sp_sub(z)) by {
        lemma_mul_sub(b1, a2.sp_mul(b0), a0.sp_mul(b2));
        assert(b1.sp_mul(a2.sp_mul(b0)) == y) by {
            assert(b1.sp_mul(a2.sp_mul(b0)) == b1.sp_mul(a2).sp_mul(b0));
            assert(b0.sp_mul(a2.sp_mul(b1)) == b0.sp_mul(a2).sp_mul(b1));
            assert(b1.sp_mul(a2) == a2.sp_mul(b1));
            assert(b0.sp_mul(a2) == a2.sp_mul(b0));
            assert(a2.sp_mul(b1).sp_mul(b0) == b0.sp_mul(a2.sp_mul(b1))) by {
                assert(a2.sp_mul(b1).sp_mul(b0) == b0.sp_mul(a2.sp_mul(b1)));
            }
            assert(a2.sp_mul(b0).sp_mul(b1) == a2.sp_mul(b0.sp_mul(b1)));
            assert(a2.sp_mul(b1).sp_mul(b0) == a2.sp_mul(b1.sp_mul(b0)));
            assert(b0.sp_mul(b1) == b1.sp_mul(b0));
        }
    }
    assert(t2 == z.sp_sub(x)) by {
        lemma_mul_sub(b2, a0.sp_mul(b1), a1.sp_mul(b0));
        assert(b2.sp_mul(a0.sp_mul(b1)) == z) by {
            assert(b2.sp_mul(a0.sp_mul(b1)) == b2.sp_mul(a0).sp_mul(b1));
            assert(b1.sp_mul(a0.sp_mul(b2)) == b1.sp_mul(a0).sp_mul(b2));
            assert(b2.sp_mul(a0) == a0.sp_mul(b2));
            assert(b1.sp_mul(a0) == a0.sp_mul(b1));
            assert(a0.sp_mul(b2).sp_mul(b1) == a0.sp_mul(b2.sp_mul(b1)));
            assert(a0.sp_mul(b1).sp_mul(b2) == a0.sp_mul(b1.sp_mul(b2)));
            assert(b2.sp_mul(b1) == b1.sp_mul(b2));
        }
        assert(b2.sp_mul(a1.sp_mul(b0)) == x) by {
            assert(b2.sp_mul(a1.sp_mul(b0)) == b2.sp_mul(a1).sp_mul(b0));
            assert(b0.sp_mul(a1.sp_mul(b2)) == b0.sp_mul(a1).sp_mul(b2));
            assert(b2.sp_mul(a1) == a1.sp_mul(b2));
            assert(b0.sp_mul(a1) == a1.sp_mul(b0));
            assert(a1.sp_mul(b2).sp_mul(b0) == a1.sp_mul(b2.sp_mul(b0)));
            assert(a1.sp_mul(b0).sp_mul(b2) == a1.sp_mul(b0.sp_mul(b2)));
            assert(b2.sp_mul(b0) == b0.sp_mul(b2));
        }
    }

    assert(T::sp_zero().sp_add(t0) == t0.sp_add(T::sp_zero()));
    assert(t0.sp_add(t1).sp_add(t2) == T::sp_zero()) by {
        lemma_sub_chain_zero_rev(x, y, z);
    }
}

/// `(x - y) + (y - z) + (z - x) == 0` in a ring.
proof fn lemma_sub_chain_zero_rev<T: VecElement>(x: T, y: T, z: T)
    requires
        ring_laws::<T>(),
    ensures
        x.sp_sub(y).sp_add(y.sp_sub(z)).sp_add(z.sp_sub(x)) == T::sp_zero(),
{
    assert(x.sp_sub(y).sp_add(y.sp_sub(z)) == x.sp_sub(z)) by {
        assert(x.sp_sub(y).sp_add(y.sp_sub(z)) == x.sp_add(y.sp_neg()).sp_add(
            y.sp_add(z.sp_neg()),
        ));
        assert(x.sp_add(y.sp_neg()).sp_add(y.sp_add(z.sp_neg())) == x.sp_add(
            y.sp_neg().sp_add(y.sp_add(z.sp_neg())),
        ));
        assert(y.sp_neg().sp_add(y.sp_add(z.sp_neg())) == y.sp_neg().sp_add(y).sp_add(
            z.sp_neg(),
        ));
        assert(y.sp_neg().sp_add(y) == y.sp_add(y.sp_neg()));
        assert(T::sp_zero().sp_add(z.sp_neg()) == z.sp_neg().sp_add(T::sp_zero()));
        assert(x.sp_sub(z) == x.sp_add(z.sp_neg()));
    }
    assert(x.sp_sub(z).sp_add(z.sp_sub(x)) == T::sp_zero()) by {
        assert(x.sp_sub(z).sp_add(z.sp_sub(x)) == x.sp_add(z.sp_neg()).sp_add(
            z.sp_add(x.sp_neg()),
        ));
        assert(x.sp_add(z.sp_neg()).sp_add(z.sp_add(x.sp_neg())) == x.sp_add(
            z.sp_neg().sp_add(z.sp_add(x.sp_neg())),
        ));
        assert(z.sp_neg().sp_add(z.sp_add(x.sp_neg())) == z.sp_neg().sp_add(z).sp_add(
            x.sp_neg(),
        ));
        assert(z.sp_neg().sp_add(z) == z.sp_add(z.sp_neg()));
        assert(T::sp_zero().sp_add(x.sp_neg()) == x.sp_neg().sp_add(T::sp_zero()));
        assert(x.sp_add(x.sp_neg()) == T::sp_zero());
    }
}

/// In a ring, multiplication distributes over subtraction.
proof fn lemma_mul_sub<T: VecElement>(a: T, b: T, c: T)
    requires
        ring_laws::<T>(),
    ensures
        a.sp_mul(b.sp_sub(c)) == a.sp_mul(b).sp_sub(a.sp_mul(c)),
{
    assert(a.sp_mul(b.sp_add(c.sp_neg())) == a.sp_mul(b).sp_add(a.sp_mul(c.sp_neg())));
    lemma_mul_neg(a, c);
}

/// `(x - y) + (z - x) + (y - z) == 0` in a ring.
proof fn lemma_sub_chain_zero<T: VecElement>(x: T, y: T, z: T)
    requires
        ring_laws::<T>(),
    ensures
        x.sp_sub(y).sp_add(z.sp_sub(x)).sp_add(y.sp_sub(z)) == T::sp_zero(),
{
    let s = x.sp_add(y.sp_neg()).sp_add(z.sp_add(x.sp_neg()));
    assert(x.sp_sub(y).sp_add(z.sp_sub(x)) == s);
    assert(s == y.sp_neg().sp_add(z)) by {
        assert(s == x.sp_add(y.sp_neg().sp_add(z.sp_add(x.sp_neg())))) by {
            assert(x.sp_add(y.sp_neg()).sp_add(z.sp_add(x.sp_neg())) == x.sp_add(
                y.sp_neg().sp_add(z.sp_add(x.sp_neg())),
            ));
        }
        assert(y.sp_neg().sp_add(z.sp_add(x.sp_neg())) == y.sp_neg().sp_add(z).sp_add(
            x.sp_neg(),
        ));
        assert(x.sp_add(y.sp_neg().sp_add(z).sp_add(x.sp_neg())) == x.sp_add(
            x.sp_neg().sp_add(y.sp_neg().sp_add(z)),
        )) by {
            assert(y.sp_neg().sp_add(z).sp_add(x.sp_neg()) == x.sp_neg().sp_add(
                y.sp_neg().sp_add(z),
            ));
        }
        assert(x.sp_add(x.sp_neg().sp_add(y.sp_neg().sp_add(z))) == x.sp_add(x.sp_neg()).sp_add(
            y.sp_neg().sp_add(z),
        ));
        assert(T::sp_zero().sp_add(y.sp_neg().sp_add(z)) == y.sp_neg().sp_add(z).sp_add(
            T::sp_zero(),
        ));
    }
    assert(y.sp_neg().sp_add(z).sp_add(y.sp_add(z.sp_neg())) == T::sp_zero()) by {
        assert(y.sp_neg().sp_add(z).sp_add(y.sp_add(z.sp_neg())) == y.sp_neg().sp_add(
            z.sp_add(y.sp_add(z.sp_neg())),
        ));
        assert(z.sp_add(y.sp_add(z.sp_neg())) == y.sp_add(T::sp_zero())) by {
            assert(z.sp_add(y.sp_add(z.sp_neg())) == z.sp_add(z.sp_neg().sp_add(y))) by {
                assert(y.sp_add(z.sp_neg()) == z.sp_neg().sp_add(y));
            }
            assert(z.sp_add(z.sp_neg().sp_add(y)) == z.sp_add(z.sp_neg()).sp_add(y));
            assert(T::sp_zero().sp_add(y) == y.sp_add(T::sp_zero()));
        }
        assert(y.sp_neg().sp_add(y) == y.sp_add(y.sp_neg()));
    }
    assert(y.sp_sub(z) == y.sp_add(z.sp_neg()));
}

impl VecElement for i64 {
    open spec fn sp_add(self, other: Self) -> Self {
        vstd::wrapping::i64_specs::wrapping_add(self, other)
    }

    open spec fn sp_sub(self, other: Self) -> Self {
        vstd::wrapping::i64_specs::wrapping_sub(self, other)
    }

    open spec fn sp_mul(self, other: Self) -> Self {
        vstd::wrapping::i64_specs::wrapping_mul(self, other)
    }

    open spec fn sp_div(self, other: Self) -> Self {
        if other == 0 {
            if self < 0 {
                i64::MIN
            } else {
                i64::MAX
            }
        } else if self == i64::MIN && other == -1 {
            i64::MIN
        } else if self >= 0 {
            (self / other) as i64
        } else {
            (-((-self) / (other as int))) as i64
        }
    }

    open spec fn sp_neg(self) -> Self {
        vstd::wrapping::i64_specs::wrapping_sub(0, self)
    }

    open spec fn sp_zero() -> Self {
        0
    }

    open spec fn sp_one() -> Self {
        1
    }

    open spec fn sp_lt(self, other: Self) -> bool {
        self < other
    }

    open spec fn sp_le(self, other: Self) -> bool {
        self <= other
    }

    fn el_add(self, other: Self) -> (r: Self) {
        self.wrapping_add(other)
    }

    fn el_sub(self, other: Self) -> (r: Self) {
        self.wrapping_sub(other)
    }

    fn el_mul(self, other: Self) -> (r: Self) {
        self.wrapping_mul(other)
    }

    fn el_div(self, other: Self) -> (r: Self) {
        if other == 0 {
            if self < 0 {
                i64::MIN
            } else {
                i64::MAX
            }
        } else if self == i64::MIN && other == -1 {
            i64::MIN
        } else {
            self / other
        }
    }

    fn el_neg(self) -> (r: Self) {
        0i64.wrapping_sub(self)
    }

    fn el_zero() -> (r: Self) {
        0
    }

    fn el_one() -> (r: Self) {
        1
    }

    fn el_lt(self, other: Self) -> (r: bool) {
        self < other
    }

    fn el_le(self, other: Self) -> (r: bool) {
        self <= other
    }
}

} // verus!
