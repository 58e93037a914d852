//! The reference implementation of the hooked operations: each value is
//! encoded, read by the arkworks BN254 implementation without validation, the
//! operation is performed there, and the result is encoded back and read.
use vstd::prelude::*;
use ark_ec::pairing::{MillerLoopOutput, Pairing};
use ark_ec::short_weierstrass::SWCurveConfig;
use ark_ec::{AffineRepr, VariableBaseMSM};
use ark_scale::scale::{Decode, Encode};
use ark_scale::{ArkScale, HOST_CALL};
use crate::codec::{
    decode_fq12, decode_g1, decode_g2, encode_fq12, encode_fr_seq, encode_g1, encode_g1_prepared,
    encode_g1_seq, encode_g2, encode_g2_prepared, encode_g2_seq, fq12_dec, word_items, fr_seq_enc,
    G1Outcome, G2Outcome, g1_dec, g1_enc, g1_seq_enc, g2_dec, g2_enc, g2_seq_enc,
};
use crate::curve::{G1Affine, G1Prepared, G1View, G2Affine, G2Prepared, G2View, g1_points, g2_points};
use crate::field::{Fq12, Fr, byte_bound, le_bytes, lemma_le_bytes_len, lemma_le_value_of_bytes, limbs_value};

verus! {

/// What the arkworks multi Miller loop gives on two encoded point sequences.
pub uninterp spec fn miller_loop_of(g1: Seq<u8>, g2: Seq<u8>) -> Option<Seq<u8>>;

/// What the arkworks final exponentiation gives on an encoded target element.
pub uninterp spec fn final_exponentiation_of(f: Seq<u8>) -> Option<Seq<u8>>;

/// What the arkworks G1 multi-scalar multiplication gives on encoded inputs.
pub uninterp spec fn msm_g1_of(bases: Seq<u8>, scalars: Seq<u8>) -> Option<Seq<u8>>;

/// What the arkworks G2 multi-scalar multiplication gives on encoded inputs.
pub uninterp spec fn msm_g2_of(bases: Seq<u8>, scalars: Seq<u8>) -> Option<Seq<u8>>;

/// What the arkworks G1 scalar multiplication gives on an encoded point and
/// little-endian 64-bit limbs.
pub uninterp spec fn mul_g1_of(base: Seq<u8>, scalar: Seq<u64>) -> Option<Seq<u8>>;

/// What the arkworks G2 scalar multiplication gives on an encoded point and
/// little-endian 64-bit limbs.
pub uninterp spec fn mul_g2_of(base: Seq<u8>, scalar: Seq<u64>) -> Option<Seq<u8>>;

/// Relies on `ark_bn254::Bn254::multi_miller_loop`, with both sequences read
/// through `ark_scale` (uncompressed, not validated) and the output written back.
/// The loop pairs its inputs with `zip_eq`, which panics on sequences of
/// different lengths, so the two length prefixes must agree.
#[verifier::external_body]
fn ark_multi_miller_loop(g1: &[u8], g2: &[u8]) -> (r: Result<Vec<u8>, ()>)
    requires
        g1@.len() >= 8,
        g2@.len() >= 8,
        g1@.subrange(0, 8) == g2@.subrange(0, 8),
    ensures
        match r {
            Ok(v) => miller_loop_of(g1@, g2@) == Some(v@),
            Err(_) => miller_loop_of(g1@, g2@) is None,
        },
{
    let a = ArkScale::<Vec<ark_bn254::G1Affine>, HOST_CALL>::decode(&mut &g1[..]).map_err(|_| ())?;
    let b = ArkScale::<Vec<ark_bn254::G2Affine>, HOST_CALL>::decode(&mut &g2[..]).map_err(|_| ())?;
    let out = ark_bn254::Bn254::multi_miller_loop(a.0, b.0).0;
    Ok(ArkScale::<ark_bn254::Fq12, HOST_CALL>::from(out).encode())
}

/// Relies on `ark_bn254::Bn254::final_exponentiation`, with its input read
/// through `ark_scale` and its output written back; `None` there is an error.
#[verifier::external_body]
fn ark_final_exponentiation(f: &[u8]) -> (r: Result<Vec<u8>, ()>)
    ensures
        match r {
            Ok(v) => final_exponentiation_of(f@) == Some(v@),
            Err(_) => final_exponentiation_of(f@) is None,
        },
{
    let a = ArkScale::<ark_bn254::Fq12, HOST_CALL>::decode(&mut &f[..]).map_err(|_| ())?;
    let out = ark_bn254::Bn254::final_exponentiation(MillerLoopOutput(a.0)).ok_or(())?;
    Ok(ArkScale::<ark_bn254::Fq12, HOST_CALL>::from(out.0).encode())
}

/// Relies on `VariableBaseMSM::msm` for `ark_bn254::G1Projective`, with bases
/// and scalars read through `ark_scale`; its length error is an error here, so
/// length prefixes that differ give an error.
#[verifier::external_body]
fn ark_msm_g1(bases: &[u8], scalars: &[u8]) -> (r: Result<Vec<u8>, ()>)
    ensures
        match r {
            Ok(v) => msm_g1_of(bases@, scalars@) == Some(v@),
            Err(_) => msm_g1_of(bases@, scalars@) is None,
        },
        bases@.len() >= 8 && scalars@.len() >= 8 && bases@.subrange(0, 8) != scalars@.subrange(0, 8)
            ==> r is Err,
{
    let b = ArkScale::<Vec<ark_bn254::G1Affine>, HOST_CALL>::decode(&mut &bases[..]).map_err(|_| ())?;
    let s = ArkScale::<Vec<ark_bn254::Fr>, HOST_CALL>::decode(&mut &scalars[..]).map_err(|_| ())?;
    let out = ark_bn254::G1Projective::msm(&b.0, &s.0).map_err(|_| ())?;
    Ok(ArkScale::<ark_bn254::G1Projective, HOST_CALL>::from(out).encode())
}

/// Relies on `VariableBaseMSM::msm` for `ark_bn254::G2Projective`, with bases
/// and scalars read through `ark_scale`; its length error is an error here, so
/// length prefixes that differ give an error.
#[verifier::external_body]
fn ark_msm_g2(bases: &[u8], scalars: &[u8]) -> (r: Result<Vec<u8>, ()>)
    ensures
        match r {
            Ok(v) => msm_g2_of(bases@, scalars@) == Some(v@),
            Err(_) => msm_g2_of(bases@, scalars@) is None,
        },
        bases@.len() >= 8 && scalars@.len() >= 8 && bases@.subrange(0, 8) != scalars@.subrange(0, 8)
            ==> r is Err,
{
    let b = ArkScale::<Vec<ark_bn254::G2Affine>, HOST_CALL>::decode(&mut &bases[..]).map_err(|_| ())?;
    let s = ArkScale::<Vec<ark_bn254::Fr>, HOST_CALL>::decode(&mut &scalars[..]).map_err(|_| ())?;
    let out = ark_bn254::G2Projective::msm(&b.0, &s.0).map_err(|_| ())?;
    Ok(ArkScale::<ark_bn254::G2Projective, HOST_CALL>::from(out).encode())
}

/// Relies on `SWCurveConfig::mul_projective` of `ark_bn254::g1::Config`, with
/// the base read through `ark_scale` and the product written back.
#[verifier::external_body]
fn ark_mul_projective_g1(base: &[u8], scalar: &[u64]) -> (r: Result<Vec<u8>, ()>)
    ensures
        match r {
            Ok(v) => mul_g1_of(base@, scalar@) == Some(v@),
            Err(_) => mul_g1_of(base@, scalar@) is None,
        },
{
    let p = ArkScale::<ark_bn254::G1Projective, HOST_CALL>::decode(&mut &base[..]).map_err(|_| ())?;
    let out = ark_bn254::g1::Config::mul_projective(&p.0, scalar);
    Ok(ArkScale::<ark_bn254::G1Projective, HOST_CALL>::from(out).encode())
}

/// Relies on `SWCurveConfig::mul_projective` of `ark_bn254::g2::Config`, with
/// the base read through `ark_scale` and the product written back.
#[verifier::external_body]
fn ark_mul_projective_g2(base: &[u8], scalar: &[u64]) -> (r: Result<Vec<u8>, ()>)
    ensures
        match r {
            Ok(v) => mul_g2_of(base@, scalar@) == Some(v@),
            Err(_) => mul_g2_of(base@, scalar@) is None,
        },
{
    let p = ArkScale::<ark_bn254::G2Projective, HOST_CALL>::decode(&mut &base[..]).map_err(|_| ())?;
    let out = ark_bn254::g2::Config::mul_projective(&p.0, scalar);
    Ok(ArkScale::<ark_bn254::G2Projective, HOST_CALL>::from(out).encode())
}

/// Relies on `ark_bn254::g1::Config::GENERATOR`, the point `(1, 2)` that
/// ark-bn254 documents, written out through `ark_scale`.
#[verifier::external_body]
fn ark_g1_generator() -> (r: Vec<u8>)
    ensures
        g1_dec(r@) == G1Outcome::Ok(G1View { x: 1, y: 2, infinity: false }),
{
    ArkScale::<ark_bn254::G1Affine, HOST_CALL>::from(ark_bn254::G1Affine::generator()).encode()
}

/// Relies on `ark_bn254::g2::Config::GENERATOR`, whose coordinates ark-bn254
/// documents as `G2_GENERATOR_X_C0` to `G2_GENERATOR_Y_C1`, written out through
/// `ark_scale`.
#[verifier::external_body]
fn ark_g2_generator() -> (r: Vec<u8>)
    ensures
        g2_dec(r@) == G2Outcome::Ok(g2_generator_view()),
{
    ArkScale::<ark_bn254::G2Affine, HOST_CALL>::from(ark_bn254::G2Affine::generator()).encode()
}

/// The generator of G2:
/// x = (10857046999023057135944570762232829481370756359578518086990519993285655852781,
///      11559732032986387107991004021392285783925812861821192530917403151452391805634),
/// y = (8495653923123431417604973247489272438418190587263600148770280649306958101930,
///      4082367875863433681332203403145435568316851327593401208105741076214120093531).
pub open spec fn g2_generator_view() -> G2View {
    G2View {
        x: (
            limbs_value(0x46debd5cd992f6ed, 0x674322d4f75edadd, 0x426a00665e5c4479, 0x1800deef121f1e76),
            limbs_value(0x97e485b7aef312c2, 0xf1aa493335a9e712, 0x7260bfb731fb5d25, 0x198e9393920d483a),
        ),
        y: (
            limbs_value(0x4ce6cc0166fa7daa, 0xe3d1e7690c43d37b, 0x4aab71808dcb408f, 0x12c85ea5db8c6deb),
            limbs_value(0x55acdadcd122975b, 0xbc4b313370b38ef3, 0xec9e99ad690c3395, 0x090689d0585ff075),
        ),
        infinity: false,
    }
}

/// The generator of G1, `(1, 2)`.
pub fn g1_generator() -> (r: G1Affine)
    ensures
        r@ == (G1View { x: 1, y: 2, infinity: false }),
        r.wf(),
{
    let b = ark_g1_generator();
    match decode_g1(&b) {
        Ok(p) => p,
        Err(_) => {
            assert(false);
            G1Affine::identity()
        },
    }
}

/// The generator of G2.
pub fn g2_generator() -> (r: G2Affine)
    ensures
        r@ == g2_generator_view(),
        r.wf(),
{
    let b = ark_g2_generator();
    match decode_g2(&b) {
        Ok(p) => p,
        Err(_) => {
            assert(false);
            G2Affine::identity()
        },
    }
}

/// The reference multi Miller loop on prepared inputs, as a model.
pub open spec fn reference_miller_loop(g1: Seq<G1Prepared>, g2: Seq<G2Prepared>) -> Result<Seq<nat>, ()> {
    match miller_loop_of(g1_seq_enc(g1_points(g1)), g2_seq_enc(g2_points(g2))) {
        Some(b) => fq12_dec(b),
        None => Err(()),
    }
}

/// The reference final exponentiation, as a model.
pub open spec fn reference_final_exponentiation(f: Seq<nat>) -> Result<Seq<nat>, ()> {
    match final_exponentiation_of(word_items(f)) {
        Some(b) => fq12_dec(b),
        None => Err(()),
    }
}

/// The reference G1 multi-scalar multiplication, as a model.
pub open spec fn reference_msm_g1(bases: Seq<G1Affine>, scalars: Seq<Fr>) -> Result<G1View, ()> {
    match msm_g1_of(g1_seq_enc(bases), fr_seq_enc(scalars)) {
        Some(b) => g1_dec(b),
        None => Err(()),
    }
}

/// The reference G2 multi-scalar multiplication, as a model.
pub open spec fn reference_msm_g2(bases: Seq<G2Affine>, scalars: Seq<Fr>) -> Result<G2View, ()> {
    match msm_g2_of(g2_seq_enc(bases), fr_seq_enc(scalars)) {
        Some(b) => g2_dec(b),
        None => Err(()),
    }
}

/// The reference G1 scalar multiplication, as a model.
pub open spec fn reference_mul_g1(base: G1Affine, scalar: Seq<u64>) -> Result<G1View, ()> {
    match mul_g1_of(g1_enc(base), scalar) {
        Some(b) => g1_dec(b),
        None => Err(()),
    }
}

/// The reference G2 scalar multiplication, as a model.
pub open spec fn reference_mul_g2(base: G2Affine, scalar: Seq<u64>) -> Result<G2View, ()> {
    match mul_g2_of(g2_enc(base), scalar) {
        Some(b) => g2_dec(b),
        None => Err(()),
    }
}

/// The model of an outcome: the model of the value, or the one failure.
pub open spec fn outcome<T: View>(r: Result<T, ()>) -> Result<T::V, ()> {
    match r {
        Ok(v) => Ok(v@),
        Err(_) => Err(()),
    }
}

/// Different lengths have different length prefixes.
proof fn lemma_length_prefixes(n: nat, m: nat)
    requires
        n <= usize::MAX,
        m <= usize::MAX,
    ensures
        le_bytes(n, 8).len() == 8,
        le_bytes(m, 8).len() == 8,
        n != m ==> le_bytes(n, 8) != le_bytes(m, 8),
{
    lemma_le_bytes_len(n, 8);
    lemma_le_bytes_len(m, 8);
    reveal_with_fuel(byte_bound, 9);
    assert(byte_bound(8) == 0x1_0000_0000_0000_0000);
    lemma_le_value_of_bytes(n, 8);
    lemma_le_value_of_bytes(m, 8);
}

/// Multi Miller loop through the reference implementation. Any failure to
/// transcode or compute is the one generic error.
pub fn multi_miller_loop_generic(g1: &[G1Prepared], g2: &[G2Prepared]) -> (r: Result<Fq12, ()>)
    requires
        g1@.len() == g2@.len(),
    ensures
        outcome(r) == reference_miller_loop(g1@, g2@),
{
    let a = encode_g1_prepared(g1);
    let b = encode_g2_prepared(g2);
    proof {
        lemma_le_bytes_len(g1@.len(), 8);
        assert(a@.subrange(0, 8) =~= b@.subrange(0, 8));
    }
    match ark_multi_miller_loop(&a, &b) {
        Ok(out) => decode_fq12(&out),
        Err(_) => Err(()),
    }
}

/// Final exponentiation through the reference implementation.
pub fn final_exponentiation_generic(target: &Fq12) -> (r: Result<Fq12, ()>)
    ensures
        outcome(r) == reference_final_exponentiation(target@),
{
    let a = encode_fq12(target);
    match ark_final_exponentiation(&a) {
        Ok(out) => decode_fq12(&out),
        Err(_) => Err(()),
    }
}

/// Multi-scalar multiplication on G1 through the reference implementation.
pub fn msm_g1_generic(bases: &[G1Affine], scalars: &[Fr]) -> (r: Result<G1Affine, ()>)
    ensures
        outcome(r) == reference_msm_g1(bases@, scalars@),
        r matches Ok(p) ==> p.wf() && p.canonical(),
        bases@.len() != scalars@.len() ==> r is Err,
{
    let a = encode_g1_seq(bases);
    let b = encode_fr_seq(scalars);
    let n = bases.len();
    let m = scalars.len();
    proof {
        lemma_length_prefixes(n as nat, m as nat);
        assert(a@.subrange(0, 8) =~= le_bytes(n as nat, 8));
        assert(b@.subrange(0, 8) =~= le_bytes(m as nat, 8));
    }
    match ark_msm_g1(&a, &b) {
        Ok(out) => decode_g1(&out),
        Err(_) => Err(()),
    }
}

/// Multi-scalar multiplication on G2 through the reference implementation.
pub fn msm_g2_generic(bases: &[G2Affine], scalars: &[Fr]) -> (r: Result<G2Affine, ()>)
    ensures
        outcome(r) == reference_msm_g2(bases@, scalars@),
        r matches Ok(p) ==> p.wf() && p.canonical(),
        bases@.len() != scalars@.len() ==> r is Err,
{
    let a = encode_g2_seq(bases);
    let b = encode_fr_seq(scalars);
    let n = bases.len();
    let m = scalars.len();
    proof {
        lemma_length_prefixes(n as nat, m as nat);
        assert(a@.subrange(0, 8) =~= le_bytes(n as nat, 8));
        assert(b@.subrange(0, 8) =~= le_bytes(m as nat, 8));
    }
    match ark_msm_g2(&a, &b) {
        Ok(out) => decode_g2(&out),
        Err(_) => Err(()),
    }
}

/// Scalar multiplication on G1 through the reference implementation.
pub fn mul_projective_g1_generic(base: &G1Affine, scalar: &[u64]) -> (r: Result<G1Affine, ()>)
    ensures
        outcome(r) == reference_mul_g1(*base, scalar@),
        r matches Ok(p) ==> p.wf() && p.canonical(),
{
    let mut a: Vec<u8> = Vec::new();
    encode_g1(&mut a, base);
    assert(a@ =~= g1_enc(*base));
    match ark_mul_projective_g1(&a, scalar) {
        Ok(out) => decode_g1(&out),
        Err(_) => Err(()),
    }
}

/// Scalar multiplication on G2 through the reference implementation.
pub fn mul_projective_g2_generic(base: &G2Affine, scalar: &[u64]) -> (r: Result<G2Affine, ()>)
    ensures
        outcome(r) == reference_mul_g2(*base, scalar@),
        r matches Ok(p) ==> p.wf() && p.canonical(),
{
    let mut a: Vec<u8> = Vec::new();
    encode_g2(&mut a, base);
    assert(a@ =~= g2_enc(*base));
    match ark_mul_projective_g2(&a, scalar) {
        Ok(out) => decode_g2(&out),
        Err(_) => Err(()),
    }
}

} // verus!
