use ark_ec::pairing::Pairing;
use ark_ec::{AffineRepr, CurveGroup, Group};
use ark_ff::{Field, PrimeField};
use ark_serialize::{CanonicalDeserialize, CanonicalSerialize};
use bn254_hooks::bn::{Bn, Config, TwistType};
use bn254_hooks::bridge::{g1_generator, g2_generator, msm_g1_generic, multi_miller_loop_generic};
use bn254_hooks::codec::{decode_fq12, decode_g1, decode_g2, encode_fq12, encode_g1, encode_g2};
use bn254_hooks::curve::{G1Affine, G1Prepared, G2Affine, G2Prepared};
use bn254_hooks::field::{Fq, Fq12, Fq2, Fr};
use bn254_hooks::g1;
use bn254_hooks::g2;
use bn254_hooks::hooks::{ArkHooks, RefusingHooks};
use bn254_hooks::projective::{G1Projective, G2Projective};

type Engine = Bn<ArkHooks>;
type G1 = g1::Config<ArkHooks>;
type G2 = g2::Config<ArkHooks>;

fn g1_from_ark(p: ark_bn254::G1Affine) -> G1Affine {
    let mut b = Vec::new();
    p.serialize_uncompressed(&mut b).unwrap();
    decode_g1(&b).unwrap()
}

fn g2_from_ark(p: ark_bn254::G2Affine) -> G2Affine {
    let mut b = Vec::new();
    p.serialize_uncompressed(&mut b).unwrap();
    decode_g2(&b).unwrap()
}

fn g1_to_ark(p: &G1Affine) -> ark_bn254::G1Affine {
    let mut b = Vec::new();
    encode_g1(&mut b, p);
    ark_bn254::G1Affine::deserialize_uncompressed(&b[..]).unwrap()
}

fn g2_to_ark(p: &G2Affine) -> ark_bn254::G2Affine {
    let mut b = Vec::new();
    encode_g2(&mut b, p);
    ark_bn254::G2Affine::deserialize_uncompressed(&b[..]).unwrap()
}

fn fq12_to_ark(f: &Fq12) -> ark_bn254::Fq12 {
    ark_bn254::Fq12::deserialize_uncompressed(&encode_fq12(f)[..]).unwrap()
}

fn fq12_from_ark(f: ark_bn254::Fq12) -> Fq12 {
    let mut b = Vec::new();
    f.serialize_uncompressed(&mut b).unwrap();
    decode_fq12(&b).unwrap()
}

fn fr(k: u64) -> Fr {
    let mut bytes = [0u8; 32];
    bytes[..8].copy_from_slice(&k.to_le_bytes());
    Fr { bytes }
}

fn fq(k: u64) -> Fq {
    Fq::from_limbs(k, 0, 0, 0)
}

#[test]
fn g1_generator_is_one_two() {
    let g = G1::generator();
    assert!(!g.infinity);
    assert_eq!(g.x, fq(1));
    assert_eq!(g.y, fq(2));
    assert_eq!(g1_to_ark(&g), ark_bn254::G1Affine::generator());
}

#[test]
fn g2_generator_matches_reference() {
    let g = G2::generator();
    assert_eq!(g2_to_ark(&g), ark_bn254::G2Affine::generator());
    assert_eq!(g, g2_generator());
}

#[test]
fn prepared_default_is_generator() {
    assert_eq!(G1Prepared::default().0, g1_generator());
    assert_eq!(G2Prepared::default().0, g2_generator());
    assert!(!G1Prepared::default().is_zero());
    assert!(!G2Prepared::default().is_zero());
    assert!(G1Prepared::from(G1Affine::identity()).is_zero());
    assert!(G2Prepared::from(G2Affine::identity()).is_zero());
    let p = G1::mul_affine(&g1_generator(), &[5]);
    assert!(!G1Prepared::from(p).is_zero());
}

#[test]
fn msm_length_mismatch_reports_shorter_length() {
    let g = g1_generator();
    let bases = vec![g, g, g];
    let scalars = vec![fr(1), fr(2), fr(3), fr(4), fr(5)];
    assert_eq!(G1::msm(&bases, &scalars), Err(3));
    assert_eq!(G1::msm(&bases[..2], &scalars), Err(2));
    let h = g2_generator();
    let bases2 = vec![h, h, h];
    assert_eq!(G2::msm(&bases2, &scalars), Err(3));
}

#[test]
fn msm_matches_weighted_sum() {
    let g = g1_generator();
    let bases = vec![g, G1::mul_affine(&g, &[7])];
    let scalars = vec![fr(3), fr(2)];
    let sum = G1::msm(&bases, &scalars).unwrap();
    assert_eq!(sum, G1::mul_affine(&g, &[17]));
    let h = g2_generator();
    let bases2 = vec![h, h];
    let sum2 = G2::msm(&bases2, &[fr(4), fr(5)]).unwrap();
    assert_eq!(sum2, G2::mul_affine(&h, &[9]));
}

#[test]
fn msm_generic_matches_reference() {
    let g = g1_generator();
    let r = msm_g1_generic(&[g, g], &[fr(2), fr(3)]).unwrap();
    let expected = (ark_bn254::G1Affine::generator() * ark_bn254::Fr::from(5u64)).into_affine();
    assert_eq!(g1_to_ark(&r), expected);
}

#[test]
fn msm_with_non_canonical_scalar_fails_with_zero() {
    let g = g1_generator();
    let bad = Fr { bytes: [0xff; 32] };
    assert_eq!(G1::msm(&[g], &[bad]), Err(0));
}

#[test]
fn mul_projective_matches_reference() {
    let g = g1_generator();
    let p = G1::mul_affine(&g, &[123456789]);
    let expected = (ark_bn254::G1Affine::generator() * ark_bn254::Fr::from(123456789u64)).into_affine();
    assert_eq!(g1_to_ark(&p), expected);
    assert_ne!(p, g);
    let h = g2_generator();
    let q = G2::mul_affine(&h, &[42]);
    let expected2 = (ark_bn254::G2Affine::generator() * ark_bn254::Fr::from(42u64)).into_affine();
    assert_eq!(g2_to_ark(&q), expected2);
}

#[test]
fn mul_by_order_gives_identity() {
    let order = ark_bn254::Fr::MODULUS.0;
    assert!(G1::mul_affine(&g1_generator(), &order).is_zero());
    assert!(G2::mul_affine(&g2_generator(), &order).is_zero());
}

#[test]
fn mul_of_off_curve_encoding_fails_to_identity() {
    let bad = G1Affine::new_unchecked(Fq { bytes: [0x3f; 32] }, fq(2));
    assert!(G1::mul_affine(&bad, &[3]).is_zero());
}

#[test]
fn mul_by_a_is_zero() {
    assert_eq!(G1::mul_by_a(fq(5)), fq(0));
    assert_eq!(G2::mul_by_a(Fq2::new(fq(5), fq(6))), Fq2::new(fq(0), fq(0)));
    assert!(G1::is_in_correct_subgroup_assuming_on_curve(&g1_generator()));
}

#[test]
fn pairing_is_bilinear() {
    let (a, b) = (1234567u64, 7654321u64);
    let p = g1_generator();
    let q = g2_generator();
    let ap = G1::mul_affine(&p, &[a]);
    let bq = G2::mul_affine(&q, &[b]);
    let lhs = Engine::pairing(G1Prepared(ap), G2Prepared(bq)).unwrap();
    let base = Engine::pairing(G1Prepared(p), G2Prepared(q)).unwrap();
    let rhs = fq12_to_ark(&base).pow([a * b]);
    assert_eq!(fq12_to_ark(&lhs), rhs);
    let abp = G1::mul_affine(&p, &[a * b]);
    let moved = Engine::pairing(G1Prepared(abp), G2Prepared(q)).unwrap();
    assert!(moved.equals(&lhs));
}

#[test]
fn pairing_is_non_degenerate() {
    let e = Engine::pairing(G1Prepared::default(), G2Prepared::default()).unwrap();
    assert!(!e.equals(&Fq12::one()));
    assert!(!e.equals(&Fq12::zero()));
}

#[test]
fn pairing_of_generators_matches_reference() {
    let e = Engine::pairing(G1Prepared::default(), G2Prepared::default()).unwrap();
    let expected = ark_bn254::Bn254::pairing(
        ark_bn254::G1Affine::generator(),
        ark_bn254::G2Affine::generator(),
    );
    let mut want = Vec::new();
    expected.0.serialize_uncompressed(&mut want).unwrap();
    assert_eq!(encode_fq12(&e), want);
    assert_eq!(e, fq12_from_ark(expected.0));
}

#[test]
fn miller_loop_generic_matches_reference() {
    let a = [G1Prepared::default(), G1Prepared(G1::mul_affine(&g1_generator(), &[3]))];
    let b = [G2Prepared::default(), G2Prepared::default()];
    let m = multi_miller_loop_generic(&a, &b).unwrap();
    let expected = ark_bn254::Bn254::multi_miller_loop(
        [g1_to_ark(&a[0].0), g1_to_ark(&a[1].0)],
        [g2_to_ark(&b[0].0), g2_to_ark(&b[1].0)],
    );
    assert_eq!(m, fq12_from_ark(expected.0));
    assert_eq!(Engine::multi_miller_loop(&a, &b), m);
}

#[test]
fn final_exponentiation_of_zero_gives_no_result() {
    assert!(Engine::final_exponentiation(&Fq12::zero()).is_none());
    assert!(Engine::final_exponentiation(&Fq12::one()).unwrap().equals(&Fq12::one()));
}

#[test]
fn pairing_with_identity_is_one() {
    let e = Engine::pairing(G1Prepared(G1Affine::identity()), G2Prepared::default()).unwrap();
    assert!(e.equals(&Fq12::one()));
}

#[test]
fn curve_parameters() {
    assert_eq!(Config::<ArkHooks>::x(), vec![4965661367192848881u64]);
    assert!(!Config::<ArkHooks>::x_is_negative());
    assert_eq!(Config::<ArkHooks>::twist_type(), TwistType::D);
    let digits = Config::<ArkHooks>::ate_loop_count();
    assert_eq!(digits.len(), 65);
    let mut value: i128 = 0;
    for d in digits.iter().rev() {
        value = value * 2 + *d as i128;
    }
    assert_eq!(value, 6 * 4965661367192848881i128 + 2);
}

#[test]
fn subgroup_check_accepts_subgroup_points() {
    let g = g2_generator();
    assert!(G2::is_in_correct_subgroup_assuming_on_curve(&g));
    for k in [2u64, 3, 1000003, 987654321987] {
        let p = G2::mul_affine(&g, &[k]);
        assert!(G2::is_in_correct_subgroup_assuming_on_curve(&p));
    }
    assert!(G2::is_in_correct_subgroup_assuming_on_curve(&G2Affine::identity()));
}

#[test]
fn subgroup_check_rejects_points_outside_subgroup() {
    let mut found = 0;
    let mut x = 1u64;
    while found < 5 {
        x += 1;
        let fx = ark_bn254::Fq2::new(ark_bn254::Fq::from(x), ark_bn254::Fq::from(x + 7));
        if let Some(point) = ark_bn254::G2Affine::get_point_from_x_unchecked(fx, false) {
            assert!(point.is_on_curve());
            let raw = g2_from_ark(point);
            let in_subgroup = point.is_in_correct_subgroup_assuming_on_curve();
            assert_eq!(G2::is_in_correct_subgroup_assuming_on_curve(&raw), in_subgroup);
            assert!(!in_subgroup);
            let cleared = g2_from_ark(point.clear_cofactor());
            assert!(G2::is_in_correct_subgroup_assuming_on_curve(&cleared));
            found += 1;
        }
    }
}

#[test]
fn psi_of_generator_is_six_x_squared_multiple() {
    let g = g2_generator();
    let psi = g2::p_power_endomorphism(&g).unwrap();
    let k = [17887900258952609094u64, 8020209761171036667u64];
    let expected = (ark_bn254::G2Affine::generator().mul_bigint(k)).into_affine();
    assert_eq!(g2_to_ark(&psi), expected);
    assert_ne!(psi, g);
    let id = g2::p_power_endomorphism(&G2Affine::identity()).unwrap();
    assert!(id.infinity);
}

#[test]
fn psi_rejects_unreduced_coordinates() {
    let mut g = g2_generator();
    g.x.c1 = Fq { bytes: [0x3f; 32] };
    assert!(g2::p_power_endomorphism(&g).is_none());
    assert!(!G2::is_in_correct_subgroup_assuming_on_curve(&g));
}

#[test]
fn transcoding_round_trip() {
    let g = g1_generator();
    let points = [g, G1Affine::identity(), G1::mul_affine(&g, &[99])];
    for p in points {
        let mut b = Vec::new();
        encode_g1(&mut b, &p);
        assert_eq!(b.len(), 64);
        assert_eq!(decode_g1(&b).unwrap(), p);
        assert_eq!(g1_from_ark(g1_to_ark(&p)), p);
    }
    let h = g2_generator();
    let points2 = [h, G2Affine::identity(), G2::mul_affine(&h, &[99])];
    for q in points2 {
        let mut b = Vec::new();
        encode_g2(&mut b, &q);
        assert_eq!(b.len(), 128);
        assert_eq!(decode_g2(&b).unwrap(), q);
        assert_eq!(g2_from_ark(g2_to_ark(&q)), q);
    }
    let f = Engine::pairing(G1Prepared::default(), G2Prepared::default()).unwrap();
    assert_eq!(decode_fq12(&encode_fq12(&f)).unwrap(), f);
}

#[test]
fn decoding_refuses_bad_encodings() {
    assert!(decode_g1(&[0u8; 63]).is_err());
    let mut both_flags = [0u8; 64];
    both_flags[63] = 0xc0;
    assert!(decode_g1(&both_flags).is_err());
    let mut infinity = [0u8; 64];
    infinity[63] = 0x40;
    assert!(decode_g1(&infinity).unwrap().infinity);
    let mut negative = Vec::new();
    encode_g1(&mut negative, &g1_generator());
    negative[63] |= 0x80;
    assert_eq!(decode_g1(&negative).unwrap(), g1_generator());
    assert!(decode_fq12(&[0u8; 383]).is_err());
    let mut unreduced = Vec::new();
    encode_g1(&mut unreduced, &g1_generator());
    unreduced[..32].copy_from_slice(&[0x3f; 32]);
    assert!(decode_g1(&unreduced).is_err());
    let mut f = encode_fq12(&Fq12::one());
    f[352..384].copy_from_slice(&[0x3f; 32]);
    assert!(decode_fq12(&f).is_err());
}

#[test]
fn fq_from_limbs_is_little_endian() {
    let f = Fq::from_limbs(0x0102030405060708, 0, 0, 0x1000000000000000);
    assert_eq!(f.bytes[0], 8);
    assert_eq!(f.bytes[7], 1);
    assert_eq!(f.bytes[31], 0x10);
    assert!(f.equals(&f));
    assert!(!f.equals(&fq(8)));
}

#[test]
fn failing_hooks_are_absorbed() {
    let a = [G1Prepared::default()];
    let b = [G2Prepared::default()];
    let m = Bn::<RefusingHooks>::multi_miller_loop(&a, &b);
    assert!(m.equals(&Fq12::zero()));
    assert!(Bn::<RefusingHooks>::final_exponentiation(&m).is_none());
    assert!(Bn::<RefusingHooks>::final_exponentiation(&Fq12::one()).is_none());
    assert!(Bn::<RefusingHooks>::pairing(a[0], b[0]).is_none());
    let g = g1_generator();
    assert_eq!(g1::Config::<RefusingHooks>::msm(&[g], &[fr(1)]), Err(0));
    assert_eq!(g1::Config::<RefusingHooks>::msm(&[g], &[]), Err(0));
    assert!(g1::Config::<RefusingHooks>::mul_affine(&g, &[2]).is_zero());
    assert!(g2::Config::<RefusingHooks>::mul_affine(&g2_generator(), &[2]).is_zero());
    assert_eq!(g2::Config::<RefusingHooks>::msm(&[g2_generator()], &[fr(1)]), Err(0));
    assert!(g2::Config::<RefusingHooks>::is_in_correct_subgroup_assuming_on_curve(&g2_generator()));
}

#[test]
fn encoding_is_canonical_bytes() {
    let g = g1_generator();
    let h = g2_generator();
    for k in [1u64, 2, 3, 5, 8, 13, 21, 34] {
        let p = G1::mul_affine(&g, &[k]);
        let mut mine = Vec::new();
        encode_g1(&mut mine, &p);
        let mut theirs = Vec::new();
        g1_to_ark(&p).serialize_uncompressed(&mut theirs).unwrap();
        assert_eq!(mine, theirs);
        let q = G2::mul_affine(&h, &[k]);
        let mut mine2 = Vec::new();
        encode_g2(&mut mine2, &q);
        let mut theirs2 = Vec::new();
        g2_to_ark(&q).serialize_uncompressed(&mut theirs2).unwrap();
        assert_eq!(mine2, theirs2);
    }
    let mut id = Vec::new();
    encode_g1(&mut id, &G1Affine::identity());
    let mut want = Vec::new();
    ark_bn254::G1Affine::identity().serialize_uncompressed(&mut want).unwrap();
    assert_eq!(id, want);
}

#[test]
fn sign_of_coordinates() {
    assert!(!fq(0).is_high());
    assert!(!fq(2).is_high());
    let minus_two = -ark_bn254::Fq::from(2u64);
    let mut b = Vec::new();
    minus_two.serialize_uncompressed(&mut b).unwrap();
    let mut bytes = [0u8; 32];
    bytes.copy_from_slice(&b);
    assert!(Fq { bytes }.is_high());
    let half = Fq::from_limbs(0x9e10460b6c3e7ea3, 0xcbc0b548b438e546, 0xdc2822db40c0ac2e, 0x183227397098d014);
    assert!(!half.is_high());
    let above = Fq::from_limbs(0x9e10460b6c3e7ea4, 0xcbc0b548b438e546, 0xdc2822db40c0ac2e, 0x183227397098d014);
    assert!(above.is_high());
}

#[test]
fn product_matching_psi() {
    let g = g2_generator();
    let k = [17887900258952609094u64, 8020209761171036667u64];
    let mut product = Vec::new();
    (ark_bn254::G2Affine::generator().mul_bigint(k))
        .into_affine()
        .serialize_uncompressed(&mut product)
        .unwrap();
    assert!(g2::product_matches_psi(&g, &product));
    let mut other = Vec::new();
    encode_g2(&mut other, &g);
    assert!(!g2::product_matches_psi(&g, &other));
    assert!(!g2::product_matches_psi(&g, &product[..127]));
}

fn fq_from_ark(f: ark_bn254::Fq) -> Fq {
    let mut b = Vec::new();
    f.serialize_uncompressed(&mut b).unwrap();
    let mut bytes = [0u8; 32];
    bytes.copy_from_slice(&b);
    Fq { bytes }
}

fn fq2_from_ark(f: ark_bn254::Fq2) -> Fq2 {
    Fq2::new(fq_from_ark(f.c0), fq_from_ark(f.c1))
}

#[test]
fn projective_normalizes_like_reference() {
    let p = ark_bn254::G1Projective::from(ark_bn254::G1Affine::generator()).double().double();
    let mine = G1Projective::new(fq_from_ark(p.x), fq_from_ark(p.y), fq_from_ark(p.z)).unwrap();
    assert_eq!(g1_to_ark(&mine.into_affine()), p.into_affine());
    assert_eq!(G1Prepared::from_projective(&mine).0, mine.into_affine());
    assert_eq!(mine.into_affine(), G1::mul_affine(&g1_generator(), &[4]));
    let q = ark_bn254::G2Projective::from(ark_bn254::G2Affine::generator()).double();
    let mine2 = G2Projective::new(fq2_from_ark(q.x), fq2_from_ark(q.y), fq2_from_ark(q.z)).unwrap();
    assert_eq!(g2_to_ark(&mine2.into_affine()), q.into_affine());
    assert_eq!(G2Prepared::from_projective(&mine2).0, G2::mul_affine(&g2_generator(), &[2]));
}

#[test]
fn projective_zero_and_affine_round_trip() {
    assert!(G1Projective::zero().into_affine().is_zero());
    assert!(G2Projective::zero().into_affine().is_zero());
    assert!(G1Prepared::from_projective(&G1Projective::zero()).is_zero());
    let g = g1_generator();
    assert_eq!(G1Projective::from_affine(&g).into_affine(), g);
    assert!(G1Projective::from_affine(&G1Affine::identity()).into_affine().is_zero());
    let h = g2_generator();
    assert_eq!(G2Projective::from_affine(&h).into_affine(), h);
}

#[test]
fn projective_refuses_unreduced_coordinates() {
    let big = Fq { bytes: [0xff; 32] };
    assert!(G1Projective::new(big, fq(1), fq(1)).is_none());
    let modulus = Fq::from_limbs(0x3c208c16d87cfd47, 0x97816a916871ca8d, 0xb85045b68181585d, 0x30644e72e131a029);
    assert!(!modulus.is_canonical());
    assert!(G1Projective::new(fq(1), modulus, fq(1)).is_none());
    let below = Fq::from_limbs(0x3c208c16d87cfd46, 0x97816a916871ca8d, 0xb85045b68181585d, 0x30644e72e131a029);
    assert!(below.is_canonical());
    assert!(G2Projective::new(Fq2::new(fq(1), fq(0)), Fq2::new(fq(1), big), Fq2::new(fq(0), fq(0))).is_none());
}

#[test]
fn mul_projective_normalizes_first() {
    let p = ark_bn254::G1Projective::from(ark_bn254::G1Affine::generator()).double();
    let mine = G1Projective::new(fq_from_ark(p.x), fq_from_ark(p.y), fq_from_ark(p.z)).unwrap();
    let r = G1::mul_projective(&mine, &[5]);
    assert_eq!(r, G1::mul_affine(&g1_generator(), &[10]));
    let q = ark_bn254::G2Projective::from(ark_bn254::G2Affine::generator()).double();
    let mine2 = G2Projective::new(fq2_from_ark(q.x), fq2_from_ark(q.y), fq2_from_ark(q.z)).unwrap();
    assert_eq!(G2::mul_projective(&mine2, &[3]), G2::mul_affine(&g2_generator(), &[6]));
    assert!(G1::mul_projective(&G1Projective::zero(), &[3]).is_zero());
}

#[test]
fn points_at_infinity_are_equal() {
    let odd = G1Affine { x: fq(5), y: fq(7), infinity: true };
    assert_eq!(odd, G1Affine::identity());
    assert_eq!(G1Prepared(odd), G1Prepared(G1Affine::identity()));
    assert_ne!(odd, g1_generator());
    let odd2 = G2Affine { x: Fq2::new(fq(1), fq(2)), y: Fq2::new(fq(3), fq(4)), infinity: true };
    assert_eq!(odd2, G2Affine::identity());
    assert_eq!(G2Prepared(odd2), G2Prepared(G2Affine::identity()));
    assert_ne!(G2Prepared(odd2), G2Prepared::default());
}

#[test]
fn engines_are_all_equal() {
    let a = Engine::new();
    let b = a.clone();
    assert_eq!(a, b);
    assert_eq!(format!("{:?}", a), "Bn { hooks: PhantomData<bn254_hooks::hooks::ArkHooks> }");
}

#[test]
fn msm_generic_refuses_different_lengths() {
    let g = g1_generator();
    assert!(msm_g1_generic(&[g, g], &[fr(1)]).is_err());
    assert!(bn254_hooks::bridge::msm_g2_generic(&[g2_generator()], &[fr(1), fr(2)]).is_err());
}
