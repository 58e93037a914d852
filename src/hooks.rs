//! The hook capability: the six expensive operations that a host may supply.
use vstd::prelude::*;
use crate::bridge::{
    final_exponentiation_generic, msm_g1_generic, msm_g2_generic, multi_miller_loop_generic,
    mul_projective_g1_generic, mul_projective_g2_generic, outcome, reference_final_exponentiation,
    reference_miller_loop, reference_msm_g1, reference_msm_g2, reference_mul_g1, reference_mul_g2,
};
use crate::curve::{G1Affine, G1Prepared, G1View, G2Affine, G2Prepared, G2View};
use crate::field::{Fq12, Fr};

verus! {

/// The operations a host provides for BN254. Each one must be referentially
/// transparent: its outcome is a function of its inputs, which the `spec_*`
/// members name. Each can fail with the one undistinguished error. Points
/// cross this boundary in affine form, the form the transcoding writes them in.
pub trait CurveHooks: Sized {
    spec fn spec_multi_miller_loop(g1: Seq<G1Prepared>, g2: Seq<G2Prepared>) -> Result<Seq<nat>, ()>;

    spec fn spec_final_exponentiation(target: Seq<nat>) -> Result<Seq<nat>, ()>;

    spec fn spec_msm_g1(bases: Seq<G1Affine>, scalars: Seq<Fr>) -> Result<G1View, ()>;

    spec fn spec_msm_g2(bases: Seq<G2Affine>, scalars: Seq<Fr>) -> Result<G2View, ()>;

    spec fn spec_mul_projective_g1(base: G1Affine, scalar: Seq<u64>) -> Result<G1View, ()>;

    spec fn spec_mul_projective_g2(base: G2Affine, scalar: Seq<u64>) -> Result<G2View, ()>;

    /// Pairing multi Miller loop over inputs of equal length, taken pairwise.
    fn bn254_multi_miller_loop(g1: &[G1Prepared], g2: &[G2Prepared]) -> (r: Result<Fq12, ()>)
        requires
            g1@.len() == g2@.len(),
        ensures
            outcome(r) == Self::spec_multi_miller_loop(g1@, g2@),
    ;

    /// Pairing final exponentiation.
    fn bn254_final_exponentiation(target: &Fq12) -> (r: Result<Fq12, ()>)
        ensures
            outcome(r) == Self::spec_final_exponentiation(target@),
    ;

    /// Multi-scalar multiplication on G1, on inputs of equal length.
    fn bn254_msm_g1(bases: &[G1Affine], scalars: &[Fr]) -> (r: Result<G1Affine, ()>)
        ensures
            outcome(r) == Self::spec_msm_g1(bases@, scalars@),
    ;

    /// Multi-scalar multiplication on G2, on inputs of equal length.
    fn bn254_msm_g2(bases: &[G2Affine], scalars: &[Fr]) -> (r: Result<G2Affine, ()>)
        ensures
            outcome(r) == Self::spec_msm_g2(bases@, scalars@),
    ;

    /// Scalar multiplication on G1 by little-endian 64-bit limbs.
    fn bn254_mul_projective_g1(base: &G1Affine, scalar: &[u64]) -> (r: Result<G1Affine, ()>)
        ensures
            outcome(r) == Self::spec_mul_projective_g1(*base, scalar@),
    ;

    /// Scalar multiplication on G2 by little-endian 64-bit limbs.
    fn bn254_mul_projective_g2(base: &G2Affine, scalar: &[u64]) -> (r: Result<G2Affine, ()>)
        ensures
            outcome(r) == Self::spec_mul_projective_g2(*base, scalar@),
    ;
}

/// The hooks that compute with the arkworks reference implementation, through
/// the transcoding of the bridge.
#[derive(Clone, Copy, Debug, PartialEq, Eq, Hash)]
pub struct ArkHooks;

impl CurveHooks for ArkHooks {
    open spec fn spec_multi_miller_loop(g1: Seq<G1Prepared>, g2: Seq<G2Prepared>) -> Result<Seq<nat>, ()> {
        reference_miller_loop(g1, g2)
    }

    open spec fn spec_final_exponentiation(target: Seq<nat>) -> Result<Seq<nat>, ()> {
        reference_final_exponentiation(target)
    }

    open spec fn spec_msm_g1(bases: Seq<G1Affine>, scalars: Seq<Fr>) -> Result<G1View, ()> {
        reference_msm_g1(bases, scalars)
    }

    open spec fn spec_msm_g2(bases: Seq<G2Affine>, scalars: Seq<Fr>) -> Result<G2View, ()> {
        reference_msm_g2(bases, scalars)
    }

    open spec fn spec_mul_projective_g1(base: G1Affine, scalar: Seq<u64>) -> Result<G1View, ()> {
        reference_mul_g1(base, scalar)
    }

    open spec fn spec_mul_projective_g2(base: G2Affine, scalar: Seq<u64>) -> Result<G2View, ()> {
        reference_mul_g2(base, scalar)
    }

    fn bn254_multi_miller_loop(g1: &[G1Prepared], g2: &[G2Prepared]) -> (r: Result<Fq12, ()>) {
        multi_miller_loop_generic(g1, g2)
    }

    fn bn254_final_exponentiation(target: &Fq12) -> (r: Result<Fq12, ()>) {
        final_exponentiation_generic(target)
    }

    fn bn254_msm_g1(bases: &[G1Affine], scalars: &[Fr]) -> (r: Result<G1Affine, ()>) {
        msm_g1_generic(bases, scalars)
    }

    fn bn254_msm_g2(bases: &[G2Affine], scalars: &[Fr]) -> (r: Result<G2Affine, ()>) {
        msm_g2_generic(bases, scalars)
    }

    fn bn254_mul_projective_g1(base: &G1Affine, scalar: &[u64]) -> (r: Result<G1Affine, ()>) {
        mul_projective_g1_generic(base, scalar)
    }

    fn bn254_mul_projective_g2(base: &G2Affine, scalar: &[u64]) -> (r: Result<G2Affine, ()>) {
        mul_projective_g2_generic(base, scalar)
    }
}

/// Hooks that refuse every operation with the generic failure, as a host
/// without any implementation would; with them the engine falls back on its
/// defaults everywhere.
#[derive(Clone, Copy, Debug, PartialEq, Eq, Hash)]
pub struct RefusingHooks;

impl CurveHooks for RefusingHooks {
    open spec fn spec_multi_miller_loop(g1: Seq<G1Prepared>, g2: Seq<G2Prepared>) -> Result<Seq<nat>, ()> {
        Err(())
    }

    open spec fn spec_final_exponentiation(target: Seq<nat>) -> Result<Seq<nat>, ()> {
        Err(())
    }

    open spec fn spec_msm_g1(bases: Seq<G1Affine>, scalars: Seq<Fr>) -> Result<G1View, ()> {
        Err(())
    }

    open spec fn spec_msm_g2(bases: Seq<G2Affine>, scalars: Seq<Fr>) -> Result<G2View, ()> {
        Err(())
    }

    open spec fn spec_mul_projective_g1(base: G1Affine, scalar: Seq<u64>) -> Result<G1View, ()> {
        Err(())
    }

    open spec fn spec_mul_projective_g2(base: G2Affine, scalar: Seq<u64>) -> Result<G2View, ()> {
        Err(())
    }

    fn bn254_multi_miller_loop(g1: &[G1Prepared], g2: &[G2Prepared]) -> (r: Result<Fq12, ()>) {
        Err(())
    }

    fn bn254_final_exponentiation(target: &Fq12) -> (r: Result<Fq12, ()>) {
        Err(())
    }

    fn bn254_msm_g1(bases: &[G1Affine], scalars: &[Fr]) -> (r: Result<G1Affine, ()>) {
        Err(())
    }

    fn bn254_msm_g2(bases: &[G2Affine], scalars: &[Fr]) -> (r: Result<G2Affine, ()>) {
        Err(())
    }

    fn bn254_mul_projective_g1(base: &G1Affine, scalar: &[u64]) -> (r: Result<G1Affine, ()>) {
        Err(())
    }

    fn bn254_mul_projective_g2(base: &G2Affine, scalar: &[u64]) -> (r: Result<G2Affine, ()>) {
        Err(())
    }
}

} // verus!
