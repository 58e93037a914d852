//! The G1 group of BN254 with its hooked operations.
use vstd::prelude::*;
use core::marker::PhantomData;
use crate::bridge::g1_generator;
use crate::curve::{G1Affine, G1View, g1_identity_view};
use crate::field::{Fq, Fr};
use crate::hooks::CurveHooks;
use crate::projective::G1Projective;

verus! {

/// The outcome of a G1 multi-scalar multiplication, as a model.
pub type G1MsmOutcome = Result<G1View, usize>;

/// What a G1 multi-scalar multiplication returns: the smaller length when the
/// lengths differ, `0` when the hook fails, the hook's point otherwise.
pub open spec fn g1_msm_model<H: CurveHooks>(bases: Seq<G1Affine>, scalars: Seq<Fr>) -> Result<G1View, usize> {
    if bases.len() != scalars.len() {
        Err(if bases.len() < scalars.len() { bases.len() as usize } else { scalars.len() as usize })
    } else {
        match H::spec_msm_g1(bases, scalars) {
            Ok(v) => Ok(v),
            Err(_) => Err(0),
        }
    }
}

/// What a G1 scalar multiplication returns: the hook's point, or the identity
/// when the hook fails.
pub open spec fn g1_mul_model<H: CurveHooks>(base: G1Affine, scalar: Seq<u64>) -> G1View {
    match H::spec_mul_projective_g1(base, scalar) {
        Ok(v) => v,
        Err(_) => g1_identity_view(),
    }
}

/// The G1 curve `y^2 = x^3 + 3` over `Fq`, whose expensive operations go
/// through the hooks `H`.
#[derive(Copy)]
pub struct Config<H: CurveHooks> {
    hooks: PhantomData<H>,
}

impl<H: CurveHooks> Clone for Config<H> {
    fn clone(&self) -> (r: Config<H>) {
        Config { hooks: PhantomData }
    }
}

impl<H: CurveHooks> Config<H> {
    /// The generator `(1, 2)`.
    pub fn generator() -> (r: G1Affine)
        ensures
            r@ == (G1View { x: 1, y: 2, infinity: false }),
    {
        g1_generator()
    }

    /// Multi-scalar multiplication through the `msm_g1` hook. Inputs of
    /// different lengths are refused with the smaller length, before any hook
    /// runs; a failing hook gives `Err(0)`.
    pub fn msm(bases: &[G1Affine], scalars: &[Fr]) -> (r: Result<G1Affine, usize>)
        ensures
            match r {
                Ok(p) => g1_msm_model::<H>(bases@, scalars@) == G1MsmOutcome::Ok(p@),
                Err(e) => g1_msm_model::<H>(bases@, scalars@) == G1MsmOutcome::Err(e),
            },
    {
        if bases.len() != scalars.len() {
            return Err(if bases.len() < scalars.len() { bases.len() } else { scalars.len() });
        }
        match H::bn254_msm_g1(bases, scalars) {
            Ok(p) => Ok(p),
            Err(_) => Err(0),
        }
    }

    /// Scalar multiplication of a projective point: the point is normalized to
    /// affine form, then multiplied through the `mul_projective_g1` hook; a
    /// failing hook gives the identity.
    pub fn mul_projective(base: &G1Projective, scalar: &[u64]) -> (r: G1Affine)
        ensures
            exists|a: G1Affine|
                #[trigger] base.denotes(a@) && a.canonical() && r@ == g1_mul_model::<H>(a, scalar@),
    {
        let a = base.into_affine();
        let r = Self::mul_affine(&a, scalar);
        assert(base.denotes(a@) && a.canonical() && r@ == g1_mul_model::<H>(a, scalar@));
        r
    }

    /// Scalar multiplication of an affine point through the
    /// `mul_projective_g1` hook; a failing hook gives the identity.
    pub fn mul_affine(base: &G1Affine, scalar: &[u64]) -> (r: G1Affine)
        ensures
            r@ == g1_mul_model::<H>(*base, scalar@),
    {
        match H::bn254_mul_projective_g1(base, scalar) {
            Ok(p) => p,
            Err(_) => G1Affine::identity(),
        }
    }

    /// Multiplication by the curve coefficient `a`, which is zero.
    pub fn mul_by_a(elem: Fq) -> (r: Fq)
        ensures
            r.value() == 0,
    {
        Fq::zero()
    }

    /// G1 is the whole group of rational points, so a point on the curve is in
    /// the subgroup.
    pub fn is_in_correct_subgroup_assuming_on_curve(p: &G1Affine) -> (r: bool)
        ensures
            r,
    {
        true
    }
}

} // verus!
