//! The G2 group of BN254 with its hooked operations and its subgroup check.
use vstd::prelude::*;
use core::marker::PhantomData;
use ark_ff::Field;
use ark_ec::AffineRepr;
use ark_scale::scale::{Decode, Encode};
use ark_scale::{ArkScale, HOST_CALL};
use crate::bridge::{g2_generator, g2_generator_view};
use crate::codec::{G2Outcome, decode_g2, encode_g2, g2_dec, g2_enc, word_at};
use crate::curve::{G2Affine, G2View, g2_identity_view};
use crate::field::{Fq, Fq2, Fr, fq_from_slice, fq_modulus, limbs_value};
use crate::hooks::CurveHooks;
use crate::projective::G2Projective;

verus! {

/// The outcome of a G2 multi-scalar multiplication, as a model.
pub type G2MsmOutcome = Result<G2View, usize>;

/// What a G2 multi-scalar multiplication returns: the smaller length when the
/// lengths differ, `0` when the hook fails, the hook's point otherwise.
pub open spec fn g2_msm_model<H: CurveHooks>(bases: Seq<G2Affine>, scalars: Seq<Fr>) -> Result<G2View, usize> {
    if bases.len() != scalars.len() {
        Err(if bases.len() < scalars.len() { bases.len() as usize } else { scalars.len() as usize })
    } else {
        match H::spec_msm_g2(bases, scalars) {
            Ok(v) => Ok(v),
            Err(_) => Err(0),
        }
    }
}

/// What a G2 scalar multiplication returns: the hook's point, or the identity
/// when the hook fails.
pub open spec fn g2_mul_model<H: CurveHooks>(base: G2Affine, scalar: Seq<u64>) -> G2View {
    match H::spec_mul_projective_g2(base, scalar) {
        Ok(v) => v,
        Err(_) => g2_identity_view(),
    }
}

/// Product in `Fq2 = Fq[u]/(u^2 + 1)`.
pub open spec fn fq2_mul(a: (nat, nat), b: (nat, nat)) -> (nat, nat) {
    (
        ((a.0 * b.0 - a.1 * b.1) as int % fq_modulus() as int) as nat,
        ((a.0 * b.1 + a.1 * b.0) % fq_modulus()) as nat,
    )
}

/// The Frobenius map of `Fq2`, `c0 + c1 u -> c0 - c1 u`.
pub open spec fn fq2_conjugate(a: (nat, nat)) -> (nat, nat) {
    (a.0, ((fq_modulus() - a.1) as int % fq_modulus() as int) as nat)
}

/// `(u + 9)^((q - 1) / 3)`, which scales `x` in the endomorphism.
pub open spec fn psi_coeff_x() -> (nat, nat) {
    (
        limbs_value(0x99e39557176f553d, 0xb78cc310c2c3330c, 0x4c0bec3cf559b143, 0x2fb347984f7911f7),
        limbs_value(0x1665d51c640fcba2, 0x32ae2a1d0b7c9dce, 0x4ba4cc8bd75a0794, 0x16c9e55061ebae20),
    )
}

/// `(u + 9)^((q - 1) / 2)`, which scales `y` in the endomorphism.
pub open spec fn psi_coeff_y() -> (nat, nat) {
    (
        limbs_value(0xdc54014671a0135a, 0xdbaae0eda9c95998, 0xdc5ec698b6e2f9b9, 0x063cf305489af5dc),
        limbs_value(0x82d37f632623b0e3, 0x21807dc98fa25bd2, 0x0704b5a7ec796f2b, 0x07c03cbcac41049a),
    )
}

/// The untwist-Frobenius-twist endomorphism `psi` on the twist:
/// `(x, y) -> (conj(x) * psi_coeff_x, conj(y) * psi_coeff_y)`; it fixes the
/// point at infinity.
pub open spec fn psi(p: G2View) -> G2View {
    if p.infinity {
        p
    } else {
        G2View {
            x: fq2_mul(fq2_conjugate(p.x), psi_coeff_x()),
            y: fq2_mul(fq2_conjugate(p.y), psi_coeff_y()),
            infinity: false,
        }
    }
}

/// The coordinates are reduced residues.
pub open spec fn g2_canonical(p: G2Affine) -> bool {
    p.x.c0.value() < fq_modulus() && p.x.c1.value() < fq_modulus()
        && p.y.c0.value() < fq_modulus() && p.y.c1.value() < fq_modulus()
}

/// What the arkworks G2 scalar multiplication by a big integer gives on an
/// encoded point and little-endian 64-bit limbs.
pub uninterp spec fn g2_mul_bigint_of(p: Seq<u8>, k: Seq<u64>) -> Option<Seq<u8>>;

/// Relies on `AffineRepr::mul_bigint` of `ark_bn254::G2Affine`, which
/// multiplies directly on the curve and not through any hook, with the point
/// read through `ark_scale` and the product written back.
#[verifier::external_body]
fn ark_g2_mul_bigint(p: &[u8], k: &[u64]) -> (r: Result<Vec<u8>, ()>)
    ensures
        match r {
            Ok(v) => g2_mul_bigint_of(p@, k@) == Some(v@),
            Err(_) => g2_mul_bigint_of(p@, k@) is None,
        },
{
    let a = ArkScale::<ark_bn254::G2Affine, HOST_CALL>::decode(&mut &p[..]).map_err(|_| ())?;
    Ok(ArkScale::<ark_bn254::G2Projective, HOST_CALL>::from(a.0.mul_bigint(k)).encode())
}

/// Relies on `Field::frobenius_map_in_place` of `ark_bn254::Fq2` with power 1,
/// which keeps `c0` and multiplies `c1` by `FROBENIUS_COEFF_FP2_C1[1] = -1`;
/// reading fails on a coefficient that is not a reduced residue.
#[verifier::external_body]
fn ark_fq2_frobenius(a: &[u8]) -> (r: Result<Vec<u8>, ()>)
    requires
        a@.len() == 64,
    ensures
        r is Ok <==> (word_at(a@, 0) < fq_modulus() && word_at(a@, 32) < fq_modulus()),
        r matches Ok(v) ==> v@.len() == 64
            && (word_at(v@, 0), word_at(v@, 32)) == fq2_conjugate((word_at(a@, 0), word_at(a@, 32))),
{
    let mut x = ArkScale::<ark_bn254::Fq2, HOST_CALL>::decode(&mut &a[..]).map_err(|_| ())?.0;
    x.frobenius_map_in_place(1);
    Ok(ArkScale::<ark_bn254::Fq2, HOST_CALL>::from(x).encode())
}

/// Relies on the product of `ark_bn254::Fq2`, whose non-residue is `-1`;
/// reading fails on a coefficient that is not a reduced residue.
#[verifier::external_body]
fn ark_fq2_mul(a: &[u8], b: &[u8]) -> (r: Result<Vec<u8>, ()>)
    requires
        a@.len() == 64,
        b@.len() == 64,
    ensures
        r is Ok <==> (word_at(a@, 0) < fq_modulus() && word_at(a@, 32) < fq_modulus()
            && word_at(b@, 0) < fq_modulus() && word_at(b@, 32) < fq_modulus()),
        r matches Ok(v) ==> v@.len() == 64 && (word_at(v@, 0), word_at(v@, 32)) == fq2_mul(
            (word_at(a@, 0), word_at(a@, 32)),
            (word_at(b@, 0), word_at(b@, 32)),
        ),
{
    let x = ArkScale::<ark_bn254::Fq2, HOST_CALL>::decode(&mut &a[..]).map_err(|_| ())?.0;
    let y = ArkScale::<ark_bn254::Fq2, HOST_CALL>::decode(&mut &b[..]).map_err(|_| ())?.0;
    Ok(ArkScale::<ark_bn254::Fq2, HOST_CALL>::from(x * y).encode())
}

/// The 64 bytes of an `Fq2` element, `c0` first.
fn fq2_bytes(a: &Fq2) -> (r: Vec<u8>)
    ensures
        r@.len() == 64,
        word_at(r@, 0) == a.c0.value(),
        word_at(r@, 32) == a.c1.value(),
{
    let mut r: Vec<u8> = Vec::new();
    r.extend_from_slice(&a.c0.bytes);
    r.extend_from_slice(&a.c1.bytes);
    assert(r@.subrange(0, 32) =~= a.c0.bytes@);
    assert(r@.subrange(32, 64) =~= a.c1.bytes@);
    r
}

/// The `Fq2` element that 64 bytes hold, `c0` first.
fn fq2_from_bytes(b: &[u8]) -> (r: Fq2)
    requires
        b@.len() == 64,
    ensures
        r.value() == (word_at(b@, 0), word_at(b@, 32)),
{
    Fq2 { c0: fq_from_slice(b, 0), c1: fq_from_slice(b, 32) }
}

/// `conj(a) * c`, or `None` when a coefficient is not a reduced residue.
fn conjugate_times(a: &Fq2, c: &Fq2) -> (r: Option<Fq2>)
    requires
        c.c0.value() < fq_modulus(),
        c.c1.value() < fq_modulus(),
    ensures
        r is Some <==> (a.c0.value() < fq_modulus() && a.c1.value() < fq_modulus()),
        r matches Some(v) ==> v.value() == fq2_mul(fq2_conjugate(a.value()), c.value()),
{
    let ab = fq2_bytes(a);
    let conj = match ark_fq2_frobenius(&ab) {
        Ok(v) => v,
        Err(_) => return None,
    };
    let cb = fq2_bytes(c);
    match ark_fq2_mul(&conj, &cb) {
        Ok(v) => Some(fq2_from_bytes(&v)),
        Err(_) => None,
    }
}

/// `(u + 9)^((q - 1) / 3)` as an element.
fn psi_coefficient_x() -> (r: Fq2)
    ensures
        r.value() == psi_coeff_x(),
        r.c0.value() < fq_modulus(),
        r.c1.value() < fq_modulus(),
{
    let c0 = Fq::from_limbs(0x99e39557176f553d, 0xb78cc310c2c3330c, 0x4c0bec3cf559b143, 0x2fb347984f7911f7);
    let c1 = Fq::from_limbs(0x1665d51c640fcba2, 0x32ae2a1d0b7c9dce, 0x4ba4cc8bd75a0794, 0x16c9e55061ebae20);
    Fq2 { c0, c1 }
}

/// `(u + 9)^((q - 1) / 2)` as an element.
fn psi_coefficient_y() -> (r: Fq2)
    ensures
        r.value() == psi_coeff_y(),
        r.c0.value() < fq_modulus(),
        r.c1.value() < fq_modulus(),
{
    let c0 = Fq::from_limbs(0xdc54014671a0135a, 0xdbaae0eda9c95998, 0xdc5ec698b6e2f9b9, 0x063cf305489af5dc);
    let c1 = Fq::from_limbs(0x82d37f632623b0e3, 0x21807dc98fa25bd2, 0x0704b5a7ec796f2b, 0x07c03cbcac41049a);
    Fq2 { c0, c1 }
}

/// `6 x^2` for the curve seed `x = 4965661367192848881`, as little-endian
/// 64-bit limbs.
pub open spec fn six_x_squared() -> Seq<u64> {
    seq![17887900258952609094u64, 8020209761171036667u64]
}

fn six_x_squared_limbs() -> (r: Vec<u64>)
    ensures
        r@ == six_x_squared(),
        r@[0] + 0x1_0000_0000_0000_0000 * r@[1] == 6 * 4965661367192848881 * 4965661367192848881,
{
    let r = vec![17887900258952609094u64, 8020209761171036667u64];
    assert(r@ =~= six_x_squared());
    r
}

/// Applies `psi`, the untwist-Frobenius-twist endomorphism, to a point; the
/// flag of the point at infinity is kept. `None` when a coordinate is not a
/// reduced residue.
pub fn p_power_endomorphism(p: &G2Affine) -> (r: Option<G2Affine>)
    ensures
        r is Some <==> g2_canonical(*p),
        r matches Some(q) ==> q@ == psi(p@) && q.infinity == p.infinity,
{
    let cx = psi_coefficient_x();
    let cy = psi_coefficient_y();
    let x = match conjugate_times(&p.x, &cx) {
        Some(v) => v,
        None => return None,
    };
    let y = match conjugate_times(&p.y, &cy) {
        Some(v) => v,
        None => return None,
    };
    Some(G2Affine { x, y, infinity: p.infinity })
}

/// Two points are the same point of the group.
pub fn g2_same_point(a: &G2Affine, b: &G2Affine) -> (r: bool)
    ensures
        r == (a@ == b@),
{
    if a.infinity || b.infinity {
        a.infinity == b.infinity
    } else {
        a.x.equals(&b.x) && a.y.equals(&b.y)
    }
}

/// Whether a point of the twist lies in the order-`r` subgroup: `[6 x^2] P`
/// computed on the curve itself, never through a hook, equals `psi(P)`.
pub open spec fn in_g2_subgroup(p: G2Affine) -> bool {
    g2_canonical(p) && match g2_mul_bigint_of(g2_enc(p), six_x_squared()) {
        Some(b) => g2_dec(b) == G2Outcome::Ok(psi(p@)),
        None => false,
    }
}

/// The G2 curve, the sextic twist `y^2 = x^3 + 3 / (u + 9)` over `Fq2`, whose
/// expensive operations go through the hooks `H`.
#[derive(Copy)]
pub struct Config<H: CurveHooks> {
    hooks: PhantomData<H>,
}

impl<H: CurveHooks> Clone for Config<H> {
    fn clone(&self) -> (r: Config<H>) {
        Config { hooks: PhantomData }
    }
}

impl<H: CurveHooks> Config<H> {
    /// The generator of G2.
    pub fn generator() -> (r: G2Affine)
        ensures
            r@ == g2_generator_view(),
    {
        g2_generator()
    }

    /// Multi-scalar multiplication through the `msm_g2` hook. Inputs of
    /// different lengths are refused with the smaller length, before any hook
    /// runs; a failing hook gives `Err(0)`.
    pub fn msm(bases: &[G2Affine], scalars: &[Fr]) -> (r: Result<G2Affine, usize>)
        ensures
            match r {
                Ok(p) => g2_msm_model::<H>(bases@, scalars@) == G2MsmOutcome::Ok(p@),
                Err(e) => g2_msm_model::<H>(bases@, scalars@) == G2MsmOutcome::Err(e),
            },
    {
        if bases.len() != scalars.len() {
            return Err(if bases.len() < scalars.len() { bases.len() } else { scalars.len() });
        }
        match H::bn254_msm_g2(bases, scalars) {
            Ok(p) => Ok(p),
            Err(_) => Err(0),
        }
    }

    /// Scalar multiplication of a projective point: the point is normalized to
    /// affine form, then multiplied through the `mul_projective_g2` hook; a
    /// failing hook gives the identity.
    pub fn mul_projective(base: &G2Projective, scalar: &[u64]) -> (r: G2Affine)
        ensures
            exists|a: G2Affine|
                #[trigger] base.denotes(a@) && a.canonical() && r@ == g2_mul_model::<H>(a, scalar@),
    {
        let a = base.into_affine();
        let r = Self::mul_affine(&a, scalar);
        assert(base.denotes(a@) && a.canonical() && r@ == g2_mul_model::<H>(a, scalar@));
        r
    }

    /// Scalar multiplication of an affine point through the
    /// `mul_projective_g2` hook; a failing hook gives the identity.
    pub fn mul_affine(base: &G2Affine, scalar: &[u64]) -> (r: G2Affine)
        ensures
            r@ == g2_mul_model::<H>(*base, scalar@),
    {
        match H::bn254_mul_projective_g2(base, scalar) {
            Ok(p) => p,
            Err(_) => G2Affine::identity(),
        }
    }

    /// Multiplication by the curve coefficient `a`, which is zero.
    pub fn mul_by_a(elem: Fq2) -> (r: Fq2)
        ensures
            r.value() == (0nat, 0nat),
    {
        Fq2 { c0: Fq::zero(), c1: Fq::zero() }
    }

    /// The subgroup check of eprint 2022/352, section 4.3, for a point known
    /// to be on the curve: `[6 x^2] P == psi(P)`. It never runs a hook.
    pub fn is_in_correct_subgroup_assuming_on_curve(p: &G2Affine) -> (r: bool)
        ensures
            r == in_g2_subgroup(*p),
    {
        let mut enc: Vec<u8> = Vec::new();
        encode_g2(&mut enc, p);
        assert(enc@ =~= g2_enc(*p));
        let k = six_x_squared_limbs();
        match ark_g2_mul_bigint(&enc, &k) {
            Ok(product) => product_matches_psi(p, &product),
            Err(_) => false,
        }
    }
}

/// Whether an encoded point, the product `[6 x^2] P`, is `psi(P)`; false when
/// a coordinate of `P` is not a reduced residue.
pub fn product_matches_psi(p: &G2Affine, product: &[u8]) -> (r: bool)
    ensures
        r == (g2_canonical(*p) && g2_dec(product@) == G2Outcome::Ok(psi(p@))),
{
    let psi_p = match p_power_endomorphism(p) {
        Some(q) => q,
        None => return false,
    };
    match decode_g2(product) {
        Ok(q) => g2_same_point(&q, &psi_p),
        Err(_) => false,
    }
}

} // verus!
