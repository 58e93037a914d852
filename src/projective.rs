//! Points in Jacobian coordinates `(X, Y, Z)`, standing for `(X / Z^2, Y / Z^3)`,
//! and their normalization to affine form.
use vstd::prelude::*;
use ark_bn254::Fq as Fp;
use ark_ff::PrimeField;
use ark_scale::scale::Encode;
use ark_scale::{ArkScale, HOST_CALL};
use crate::codec::{decode_g1, decode_g2, g1_dec, g2_dec};
use crate::curve::{G1Affine, G1Prepared, G1View, G2Affine, G2Prepared, G2View, g1_identity_view, g2_identity_view};
use crate::field::{Fq, Fq2, fq_modulus, le_value};
use crate::g2::fq2_mul;

verus! {

/// `v` is the affine point that the Jacobian coordinates `(x, y, z)` stand for.
pub open spec fn g1_jacobian_denotes(x: nat, y: nat, z: nat, v: G1View) -> bool {
    if z == 0 {
        v == g1_identity_view()
    } else {
        &&& !v.infinity
        &&& v.x < fq_modulus()
        &&& v.y < fq_modulus()
        &&& (v.x * (z * z)) % fq_modulus() == x % fq_modulus()
        &&& (v.y * (z * z * z)) % fq_modulus() == y % fq_modulus()
    }
}

/// `v` is the affine point that the Jacobian coordinates `(x, y, z)` over
/// `Fq2` stand for.
pub open spec fn g2_jacobian_denotes(x: (nat, nat), y: (nat, nat), z: (nat, nat), v: G2View) -> bool {
    if z == (0nat, 0nat) {
        v == g2_identity_view()
    } else {
        &&& !v.infinity
        &&& v.x.0 < fq_modulus() && v.x.1 < fq_modulus()
        &&& v.y.0 < fq_modulus() && v.y.1 < fq_modulus()
        &&& fq2_mul(v.x, fq2_mul(z, z)) == x
        &&& fq2_mul(v.y, fq2_mul(z, fq2_mul(z, z))) == y
    }
}

/// Relies on the conversion of ark-ec's Jacobian `Projective` to `Affine`, which
/// writing a projective point through `ark_scale` performs: the point at
/// infinity when `z` is zero, `(x / z^2, y / z^3)` otherwise. The coordinates
/// are read with `PrimeField::from_le_bytes_mod_order`, which keeps a reduced
/// residue as it is.
#[verifier::external_body]
fn ark_g1_normalize(x: &[u8; 32], y: &[u8; 32], z: &[u8; 32]) -> (r: Vec<u8>)
    requires
        le_value(x@) < fq_modulus(),
        le_value(y@) < fq_modulus(),
        le_value(z@) < fq_modulus(),
    ensures
        match g1_dec(r@) {
            Ok(w) => g1_jacobian_denotes(le_value(x@), le_value(y@), le_value(z@), w),
            Err(_) => false,
        },
{
    let p = ark_bn254::G1Projective::new_unchecked(
        Fp::from_le_bytes_mod_order(x),
        Fp::from_le_bytes_mod_order(y),
        Fp::from_le_bytes_mod_order(z),
    );
    ArkScale::<ark_bn254::G1Projective, HOST_CALL>::from(p).encode()
}

/// Relies on the conversion of ark-ec's Jacobian `Projective` to `Affine` over
/// `Fq2`, which writing a projective point through `ark_scale` performs: the
/// point at infinity when `z` is zero, `(x / z^2, y / z^3)` otherwise. The
/// coefficients are read with `PrimeField::from_le_bytes_mod_order`, which
/// keeps a reduced residue as it is.
#[verifier::external_body]
fn ark_g2_normalize(x: &Fq2, y: &Fq2, z: &Fq2) -> (r: Vec<u8>)
    requires
        x.c0.canonical() && x.c1.canonical(),
        y.c0.canonical() && y.c1.canonical(),
        z.c0.canonical() && z.c1.canonical(),
    ensures
        match g2_dec(r@) {
            Ok(w) => g2_jacobian_denotes(x.value(), y.value(), z.value(), w),
            Err(_) => false,
        },
{
    let p = ark_bn254::G2Projective::new_unchecked(
        ark_bn254::Fq2::new(Fp::from_le_bytes_mod_order(&x.c0.bytes), Fp::from_le_bytes_mod_order(&x.c1.bytes)),
        ark_bn254::Fq2::new(Fp::from_le_bytes_mod_order(&y.c0.bytes), Fp::from_le_bytes_mod_order(&y.c1.bytes)),
        ark_bn254::Fq2::new(Fp::from_le_bytes_mod_order(&z.c0.bytes), Fp::from_le_bytes_mod_order(&z.c1.bytes)),
    );
    ArkScale::<ark_bn254::G2Projective, HOST_CALL>::from(p).encode()
}

/// One is neutral for the product of reduced `Fq2` elements.
proof fn lemma_times_one(a: (nat, nat))
    requires
        a.0 < fq_modulus(),
        a.1 < fq_modulus(),
    ensures
        fq2_mul(a, (1nat, 0nat)) == a,
{
    let p = fq_modulus();
    assert((a.0 * 1 - a.1 * 0) as int % p as int == a.0 as int) by (nonlinear_arith)
        requires
            a.0 < p,
    ;
    assert((a.0 * 0 + a.1 * 1) % p == a.1) by (nonlinear_arith)
        requires
            a.1 < p,
    ;
}

/// A G1 point in Jacobian coordinates, each a reduced residue.
#[derive(Clone, Copy, Debug, PartialEq, Eq)]
pub struct G1Projective {
    x: Fq,
    y: Fq,
    z: Fq,
}

impl G1Projective {
    #[verifier::type_invariant]
    pub closed spec fn reduced(self) -> bool {
        self.x.canonical() && self.y.canonical() && self.z.canonical()
    }

    pub closed spec fn spec_x(self) -> Fq {
        self.x
    }

    pub closed spec fn spec_y(self) -> Fq {
        self.y
    }

    pub closed spec fn spec_z(self) -> Fq {
        self.z
    }

    /// The affine point these coordinates stand for.
    pub open spec fn denotes(self, v: G1View) -> bool {
        g1_jacobian_denotes(self.spec_x().value(), self.spec_y().value(), self.spec_z().value(), v)
    }

    /// The point `(x, y, z)`; `None` when a coordinate is not a reduced residue.
    pub fn new(x: Fq, y: Fq, z: Fq) -> (r: Option<G1Projective>)
        ensures
            r is Some <==> (x.canonical() && y.canonical() && z.canonical()),
            r matches Some(p) ==> p.spec_x() == x && p.spec_y() == y && p.spec_z() == z,
    {
        if x.is_canonical() && y.is_canonical() && z.is_canonical() {
            Some(G1Projective { x, y, z })
        } else {
            None
        }
    }

    /// The point at infinity, `(1, 1, 0)`.
    pub fn zero() -> (r: G1Projective)
        ensures
            r.spec_z().value() == 0,
            r.denotes(g1_identity_view()),
    {
        let one = Fq::from_limbs(1, 0, 0, 0);
        let z = Fq::zero();
        G1Projective { x: one, y: one, z }
    }

    /// The affine point with `Z = 1`, or the point at infinity.
    pub fn from_affine(p: &G1Affine) -> (r: G1Projective)
        requires
            p.infinity || (p.x.canonical() && p.y.canonical()),
        ensures
            r.denotes(p@),
    {
        if p.infinity {
            Self::zero()
        } else {
            let one = Fq::from_limbs(1, 0, 0, 0);
            let r = G1Projective { x: p.x, y: p.y, z: one };
            let ghost o = one.value();
            let ghost x = p.x.value();
            let ghost y = p.y.value();
            assert(o == 1);
            assert(x * (o * o) == x && y * (o * o * o) == y) by (nonlinear_arith)
                requires
                    o == 1,
            ;
            assert(p.x.value() % fq_modulus() == p.x.value()) by (nonlinear_arith)
                requires
                    p.x.value() < fq_modulus(),
            ;
            assert(p.y.value() % fq_modulus() == p.y.value()) by (nonlinear_arith)
                requires
                    p.y.value() < fq_modulus(),
            ;
            r
        }
    }

    /// The affine point these coordinates stand for.
    pub fn into_affine(&self) -> (r: G1Affine)
        ensures
            self.denotes(r@),
            r.wf(),
            r.canonical(),
    {
        proof {
            use_type_invariant(self);
        }
        let b = ark_g1_normalize(&self.x.bytes, &self.y.bytes, &self.z.bytes);
        match decode_g1(&b) {
            Ok(p) => p,
            Err(_) => {
                assert(false);
                G1Affine::identity()
            },
        }
    }
}

/// A G2 point in Jacobian coordinates over `Fq2`, each a reduced residue.
#[derive(Clone, Copy, Debug, PartialEq, Eq)]
pub struct G2Projective {
    x: Fq2,
    y: Fq2,
    z: Fq2,
}

impl G2Projective {
    #[verifier::type_invariant]
    pub closed spec fn reduced(self) -> bool {
        &&& self.x.c0.canonical() && self.x.c1.canonical()
        &&& self.y.c0.canonical() && self.y.c1.canonical()
        &&& self.z.c0.canonical() && self.z.c1.canonical()
    }

    pub closed spec fn spec_x(self) -> Fq2 {
        self.x
    }

    pub closed spec fn spec_y(self) -> Fq2 {
        self.y
    }

    pub closed spec fn spec_z(self) -> Fq2 {
        self.z
    }

    /// The affine point these coordinates stand for.
    pub open spec fn denotes(self, v: G2View) -> bool {
        g2_jacobian_denotes(self.spec_x().value(), self.spec_y().value(), self.spec_z().value(), v)
    }

    /// The point at infinity, `(1, 1, 0)`.
    pub fn zero() -> (r: G2Projective)
        ensures
            r.spec_z().value() == (0nat, 0nat),
            r.denotes(g2_identity_view()),
    {
        let one = Fq2 { c0: Fq::from_limbs(1, 0, 0, 0), c1: Fq::zero() };
        let z = Fq2 { c0: Fq::zero(), c1: Fq::zero() };
        G2Projective { x: one, y: one, z }
    }

    /// The affine point with `Z = 1`, or the point at infinity.
    pub fn from_affine(p: &G2Affine) -> (r: G2Projective)
        requires
            p.infinity || (p.x.c0.canonical() && p.x.c1.canonical() && p.y.c0.canonical()
                && p.y.c1.canonical()),
        ensures
            r.denotes(p@),
    {
        if p.infinity {
            Self::zero()
        } else {
            let one = Fq2 { c0: Fq::from_limbs(1, 0, 0, 0), c1: Fq::zero() };
            proof {
                lemma_times_one(p.x.value());
                lemma_times_one(p.y.value());
                lemma_times_one((1nat, 0nat));
                assert(fq2_mul((1nat, 0nat), fq2_mul((1nat, 0nat), (1nat, 0nat))) == (1nat, 0nat));
            }
            G2Projective { x: p.x, y: p.y, z: one }
        }
    }

    /// The point `(x, y, z)`; `None` when a coordinate is not a reduced residue.
    pub fn new(x: Fq2, y: Fq2, z: Fq2) -> (r: Option<G2Projective>)
        ensures
            r is Some <==> (x.c0.canonical() && x.c1.canonical() && y.c0.canonical()
                && y.c1.canonical() && z.c0.canonical() && z.c1.canonical()),
            r matches Some(p) ==> p.spec_x() == x && p.spec_y() == y && p.spec_z() == z,
    {
        if x.c0.is_canonical() && x.c1.is_canonical() && y.c0.is_canonical() && y.c1.is_canonical()
            && z.c0.is_canonical() && z.c1.is_canonical() {
            Some(G2Projective { x, y, z })
        } else {
            None
        }
    }

    /// The affine point these coordinates stand for.
    pub fn into_affine(&self) -> (r: G2Affine)
        ensures
            self.denotes(r@),
            r.wf(),
            r.canonical(),
    {
        proof {
            use_type_invariant(self);
        }
        let b = ark_g2_normalize(&self.x, &self.y, &self.z);
        match decode_g2(&b) {
            Ok(p) => p,
            Err(_) => {
                assert(false);
                G2Affine::identity()
            },
        }
    }
}

impl G1Prepared {
    /// The prepared input of a projective point, normalized to affine form first.
    pub fn from_projective(p: &G1Projective) -> (r: G1Prepared)
        ensures
            p.denotes(r.0@),
    {
        G1Prepared(p.into_affine())
    }
}

impl G2Prepared {
    /// The prepared input of a projective point, normalized to affine form first.
    pub fn from_projective(p: &G2Projective) -> (r: G2Prepared)
        ensures
            p.denotes(r.0@),
    {
        G2Prepared(p.into_affine())
    }
}

} // verus!
