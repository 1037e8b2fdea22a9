use vstd::prelude::*;

verus! {

use crate::color::Color;
use crate::vec::{Scalar, Vector};

/// A texture holding one color everywhere.
#[derive(Clone, Copy, Debug)]
pub struct SolidColor<T: Scalar> {
    albedo: Color<T>,
}

impl<T: Scalar> SolidColor<T> {
    /// The color of the texture.
    pub closed spec fn spec_albedo(self) -> Color<T> {
        self.albedo
    }

    pub fn new(albedo: Color<T>) -> (r: Self)
        ensures
            r.spec_albedo() == albedo,
    {
        Self { albedo }
    }

    pub fn value(&self, uv: Vector<T, 2>, point: Vector<T, 3>) -> (r: Color<T>)
        ensures
            r == self.spec_albedo(),
    {
        self.albedo
    }
}

/// Which cell of a checkerboard a point falls in: the parity of the summed
/// floors of its scaled coordinates.  The floors are summed with wrapping,
/// so the test is total even at the ends of the integer range.
pub open spec fn spec_checker_even<T: Scalar>(inv_scale: T, point: Vector<T, 3>) -> bool {
    let f0 = point.data@[0].sp_mul(inv_scale).sp_floor_i64();
    let f1 = point.data@[1].sp_mul(inv_scale).sp_floor_i64();
    let f2 = point.data@[2].sp_mul(inv_scale).sp_floor_i64();
    let sum = vstd::wrapping::i64_specs::wrapping_add(
        vstd::wrapping::i64_specs::wrapping_add(f0, f1),
        f2,
    );
    sum as int % 2 == 0
}

/// A truncated remainder by two vanishes exactly when the value is even.
proof fn lemma_trunc_mod2_zero(a: i64)
    ensures
        ((if a >= 0 {
            a as int % 2
        } else {
            -((-(a as int)) % 2)
        }) == 0) <==> (a as int % 2 == 0),
{
    if a < 0 {
        assert(((-(a as int)) % 2 == 0) <==> (a as int % 2 == 0)) by (nonlinear_arith);
    }
}

/// A checkerboard of two solid textures in three dimensions, alternating in
/// cells whose edge is the inverse of `inv_scale`.
#[derive(Clone, Copy, Debug)]
pub struct CheckerTexture<T: Scalar> {
    inv_scale: T,
    even_tex: SolidColor<T>,
    odd_tex: SolidColor<T>,
}

impl<T: Scalar> CheckerTexture<T> {
    /// The reciprocal of the cell scale.
    pub closed spec fn spec_inv_scale(self) -> T {
        self.inv_scale
    }

    /// The texture of the even cells.
    pub closed spec fn spec_even(self) -> SolidColor<T> {
        self.even_tex
    }

    /// The texture of the odd cells.
    pub closed spec fn spec_odd(self) -> SolidColor<T> {
        self.odd_tex
    }

    pub fn new(scale: T, even_tex: SolidColor<T>, odd_tex: SolidColor<T>) -> (r: Self)
        ensures
            r.spec_inv_scale() == T::sp_one().sp_div(scale),
            r.spec_even() == even_tex,
            r.spec_odd() == odd_tex,
    {
        Self { inv_scale: T::el_one().el_div(scale), even_tex, odd_tex }
    }

    pub fn from_color(scale: T, even_color: Color<T>, odd_color: Color<T>) -> (r: Self)
        ensures
            r.spec_inv_scale() == T::sp_one().sp_div(scale),
            r.spec_even().spec_albedo() == even_color,
            r.spec_odd().spec_albedo() == odd_color,
    {
        Self::new(scale, SolidColor::new(even_color), SolidColor::new(odd_color))
    }

    pub fn value(&self, uv: Vector<T, 2>, point: Vector<T, 3>) -> (r: Color<T>)
        ensures
            r == (if spec_checker_even(self.spec_inv_scale(), point) {
                self.spec_even().spec_albedo()
            } else {
                self.spec_odd().spec_albedo()
            }),
    {
        let f0 = point.data[0].el_mul(self.inv_scale).el_floor_i64();
        let f1 = point.data[1].el_mul(self.inv_scale).el_floor_i64();
        let f2 = point.data[2].el_mul(self.inv_scale).el_floor_i64();
        let sum = f0.wrapping_add(f1).wrapping_add(f2);
        proof {
            lemma_trunc_mod2_zero(sum);
        }
        if sum % 2 == 0 {
            self.even_tex.value(uv, point)
        } else {
            self.odd_tex.value(uv, point)
        }
    }
}

/// A value lookup at surface coordinates and a world point: the closed set
/// of textures the renderer offers.
#[derive(Clone, Copy, Debug)]
pub enum Texture<T: Scalar> {
    Solid(SolidColor<T>),
    Checker(CheckerTexture<T>),
}

/// The color a texture yields at the given coordinates.
pub open spec fn spec_texture_value<T: Scalar>(
    t: Texture<T>,
    uv: Vector<T, 2>,
    point: Vector<T, 3>,
) -> Color<T> {
    match t {
        Texture::Solid(sc) => sc.spec_albedo(),
        Texture::Checker(ct) => if spec_checker_even(ct.spec_inv_scale(), point) {
            ct.spec_even().spec_albedo()
        } else {
            ct.spec_odd().spec_albedo()
        },
    }
}

impl<T: Scalar> Texture<T> {
    pub fn value(&self, uv: Vector<T, 2>, point: Vector<T, 3>) -> (r: Color<T>)
        ensures
            r == spec_texture_value(*self, uv, point),
    {
        match self {
            Texture::Solid(sc) => sc.value(uv, point),
            Texture::Checker(ct) => ct.value(uv, point),
        }
    }
}

} // verus!
