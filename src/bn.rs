//! The BN254 pairing engine: the curve parameters and the two-stage pairing,
//! with the Miller loop and the final exponentiation run by the hooks.
use vstd::prelude::*;
use core::marker::PhantomData;
use ark_ec::bn::BnConfig;
use crate::curve::{G1Prepared, G2Prepared};
use crate::field::{Fq12, fq12_zero_view};
use crate::hooks::CurveHooks;

verus! {

/// The kind of sextic twist that carries G2.
#[derive(Clone, Copy, Debug, PartialEq, Eq)]
pub enum TwistType {
    /// Multiplicative twist.
    M,
    /// Divisive twist.
    D,
}

/// The signed binary digits of `6x + 2`, least significant first.
pub open spec fn ate_loop_count_digits() -> Seq<i8> {
    seq![
        0i8, 0i8, 0i8, 1i8, 0i8, 1i8, 0i8, -1i8, 0i8, 0i8, 1i8, -1i8, 0i8, 0i8, 1i8, 0i8, 0i8, 1i8, 1i8, 0i8, -1i8, 0i8, 0i8, 1i8, 0i8, -1i8, 0i8, 0i8, 0i8,
        0i8, 1i8, 1i8, 1i8, 0i8, 0i8, -1i8, 0i8, 0i8, 1i8, 0i8, 0i8, 0i8, 0i8, 0i8, -1i8, 0i8, 0i8, 1i8, 1i8, 0i8, 0i8, -1i8, 0i8, 0i8, 0i8, 1i8, 1i8, 0i8,
        -1i8, 0i8, 0i8, 1i8, 0i8, 1i8, 1i8,
    ]
}

/// Relies on `BnConfig::X` of `ark_bn254::Config`, the seed `4965661367192848881`.
#[verifier::external_body]
fn ark_x() -> (r: Vec<u64>)
    ensures
        r@ == seq![4965661367192848881u64],
{
    <ark_bn254::Config as BnConfig>::X.to_vec()
}

/// Relies on `BnConfig::X_IS_NEGATIVE` of `ark_bn254::Config`: the seed is positive.
#[verifier::external_body]
fn ark_x_is_negative() -> (r: bool)
    ensures
        !r,
{
    <ark_bn254::Config as BnConfig>::X_IS_NEGATIVE
}

/// Relies on `BnConfig::ATE_LOOP_COUNT` of `ark_bn254::Config`.
#[verifier::external_body]
fn ark_ate_loop_count() -> (r: Vec<i8>)
    ensures
        r@ == ate_loop_count_digits(),
{
    <ark_bn254::Config as BnConfig>::ATE_LOOP_COUNT.to_vec()
}

/// Relies on `BnConfig::TWIST_TYPE` of `ark_bn254::Config`, a divisive twist.
#[verifier::external_body]
fn ark_twist_type() -> (r: TwistType)
    ensures
        r == TwistType::D,
{
    match <ark_bn254::Config as BnConfig>::TWIST_TYPE {
        ark_ec::bn::TwistType::M => TwistType::M,
        ark_ec::bn::TwistType::D => TwistType::D,
    }
}

/// What the engine's Miller loop gives: the hook's value, or zero when the hook
/// fails.
pub open spec fn miller_loop_model<H: CurveHooks>(g1: Seq<G1Prepared>, g2: Seq<G2Prepared>) -> Seq<nat> {
    match H::spec_multi_miller_loop(g1, g2) {
        Ok(v) => v,
        Err(_) => fq12_zero_view(),
    }
}

/// What the engine's final exponentiation gives: the hook's value, or no
/// result when the hook fails.
pub open spec fn final_exponentiation_model<H: CurveHooks>(f: Seq<nat>) -> Option<Seq<nat>> {
    match H::spec_final_exponentiation(f) {
        Ok(v) => Some(v),
        Err(_) => None,
    }
}

/// The model of an optional result.
pub open spec fn option_view(r: Option<Fq12>) -> Option<Seq<nat>> {
    match r {
        Some(v) => Some(v@),
        None => None,
    }
}

/// The parameters of BN254 together with the hooks `H` that run its pairing.
#[derive(Copy)]
pub struct Config<H: CurveHooks> {
    hooks: PhantomData<H>,
}

impl<H: CurveHooks> Clone for Config<H> {
    fn clone(&self) -> (r: Config<H>) {
        Config { hooks: PhantomData }
    }
}

impl<H: CurveHooks> Config<H> {
    /// The seed `x` of the BN family member, as 64-bit limbs.
    pub fn x() -> (r: Vec<u64>)
        ensures
            r@ == seq![4965661367192848881u64],
    {
        ark_x()
    }

    /// Whether the seed is negative.
    pub fn x_is_negative() -> (r: bool)
        ensures
            !r,
    {
        ark_x_is_negative()
    }

    /// The signed binary digits of `6x + 2`.
    pub fn ate_loop_count() -> (r: Vec<i8>)
        ensures
            r@ == ate_loop_count_digits(),
    {
        ark_ate_loop_count()
    }

    /// The kind of twist.
    pub fn twist_type() -> (r: TwistType)
        ensures
            r == TwistType::D,
    {
        ark_twist_type()
    }

    /// The multi Miller loop through the `multi_miller_loop` hook, on inputs of
    /// equal length; a failing hook gives zero.
    pub fn multi_miller_loop(g1: &[G1Prepared], g2: &[G2Prepared]) -> (r: Fq12)
        requires
            g1@.len() == g2@.len(),
        ensures
            r@ == miller_loop_model::<H>(g1@, g2@),
    {
        match H::bn254_multi_miller_loop(g1, g2) {
            Ok(f) => f,
            Err(_) => Fq12::zero(),
        }
    }

    /// The final exponentiation through the `final_exponentiation` hook; a
    /// failing hook gives no result.
    pub fn final_exponentiation(target: &Fq12) -> (r: Option<Fq12>)
        ensures
            option_view(r) == final_exponentiation_model::<H>(target@),
    {
        match H::bn254_final_exponentiation(target) {
            Ok(f) => Some(f),
            Err(_) => None,
        }
    }
}

/// The pairing engine over BN254 with hooks `H`. It holds no data, so all its
/// values are equal and hash alike.
#[derive(Copy, Debug, Hash)]
pub struct Bn<H: CurveHooks> {
    hooks: PhantomData<H>,
}

impl<H: CurveHooks> Clone for Bn<H> {
    fn clone(&self) -> (r: Bn<H>) {
        Bn { hooks: PhantomData }
    }
}

impl<H: CurveHooks> PartialEq for Bn<H> {
    fn eq(&self, other: &Bn<H>) -> (r: bool) {
        true
    }
}

impl<H: CurveHooks> vstd::std_specs::cmp::PartialEqSpecImpl for Bn<H> {
    open spec fn obeys_eq_spec() -> bool {
        true
    }

    open spec fn eq_spec(&self, other: &Bn<H>) -> bool {
        true
    }
}

impl<H: CurveHooks> Eq for Bn<H> {
}

impl<H: CurveHooks> Bn<H> {
    /// The engine; it carries nothing but its hooks' type.
    pub fn new() -> (r: Bn<H>) {
        Bn { hooks: PhantomData }
    }
}

impl<H: CurveHooks> Bn<H> {
    /// The multi Miller loop over inputs of equal length, taken pairwise.
    pub fn multi_miller_loop(g1: &[G1Prepared], g2: &[G2Prepared]) -> (r: Fq12)
        requires
            g1@.len() == g2@.len(),
        ensures
            r@ == miller_loop_model::<H>(g1@, g2@),
    {
        Config::<H>::multi_miller_loop(g1, g2)
    }

    /// The final exponentiation of a Miller loop output.
    pub fn final_exponentiation(target: &Fq12) -> (r: Option<Fq12>)
        ensures
            option_view(r) == final_exponentiation_model::<H>(target@),
    {
        Config::<H>::final_exponentiation(target)
    }

    /// The pairing of one pair: the Miller loop, then the final exponentiation.
    pub fn pairing(p: G1Prepared, q: G2Prepared) -> (r: Option<Fq12>)
        ensures
            option_view(r) == final_exponentiation_model::<H>(miller_loop_model::<H>(seq![p], seq![q])),
    {
        let g1 = vec![p];
        let g2 = vec![q];
        assert(g1@ =~= seq![p]);
        assert(g2@ =~= seq![q]);
        let f = Self::multi_miller_loop(g1.as_slice(), g2.as_slice());
        Self::final_exponentiation(&f)
    }
}

/// Whatever the hooks are, a failing Miller-loop hook makes the engine's
/// Miller loop give zero, and a failing final-exponentiation hook makes the
/// engine's final exponentiation give no result: a failure never comes out
/// as an error.
pub proof fn lemma_failure_absorbed<H: CurveHooks>(g1: Seq<G1Prepared>, g2: Seq<G2Prepared>, f: Seq<nat>)
    requires
        H::spec_multi_miller_loop(g1, g2) is Err,
        H::spec_final_exponentiation(f) is Err,
    ensures
        miller_loop_model::<H>(g1, g2) == fq12_zero_view(),
        final_exponentiation_model::<H>(f) is None,
{
}

} // verus!
