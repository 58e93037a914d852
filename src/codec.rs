//! The canonical uncompressed encoding through which values cross to the
//! reference curve implementation and back.
//!
//! A field element is its 32 little-endian bytes. A point is `x` then `y`; the
//! two high bits of the last byte of `y` carry flags: `0x40` marks the point at
//! infinity (written with zero coordinates), `0x80` a `y` larger than its
//! negation, which an uncompressed reader ignores. A sequence is its length as eight
//! little-endian bytes, then its items.
use vstd::prelude::*;
use crate::curve::{G1Affine, G1Prepared, G2Prepared, g1_points, g2_points, G1View, G2Affine, G2View, g1_identity_view, g2_identity_view};
use crate::field::{Fq, Fq2, Fq12, Fr, fq_from_slice, fq_half, fq_modulus, lemma_zero_bytes, le_bytes, le_value, lemma_le_round_trip, push_le_bytes};

verus! {

/// The outcome of reading a G1 point.
pub type G1Outcome = Result<G1View, ()>;

/// The outcome of reading a G2 point.
pub type G2Outcome = Result<G2View, ()>;

/// The outcome of reading a target-field element.
pub type Fq12Outcome = Result<Seq<nat>, ()>;

/// The flag byte of an encoded point: the last byte with only its two high bits.
pub open spec fn flag_bits(b: u8) -> nat {
    b as nat / 64
}

/// `n` zero bytes followed by the point-at-infinity flag.
pub open spec fn infinity_enc(n: nat) -> Seq<u8> {
    Seq::new(n, |i: int| 0u8).push(64u8)
}

/// The last coordinate word with the sign flag set when `negative`.
pub open spec fn signed_word(w: Seq<u8>, negative: bool) -> Seq<u8> {
    if negative {
        w.update(31, w[31] | 0x80u8)
    } else {
        w
    }
}

/// The `y` coordinate of a G1 point is larger than its negation.
pub open spec fn g1_y_negative(p: G1Affine) -> bool {
    p.y.value() > fq_half()
}

/// The `y` coordinate of a G2 point is larger than its negation, comparing
/// `c1` first and `c0` when `c1` is zero.
pub open spec fn g2_y_negative(p: G2Affine) -> bool {
    p.y.c1.value() > fq_half() || (p.y.c1.value() == 0 && p.y.c0.value() > fq_half())
}

pub open spec fn g1_enc(p: G1Affine) -> Seq<u8> {
    if p.infinity {
        infinity_enc(63)
    } else {
        p.x.bytes@ + signed_word(p.y.bytes@, g1_y_negative(p))
    }
}

pub open spec fn g2_enc(p: G2Affine) -> Seq<u8> {
    if p.infinity {
        infinity_enc(127)
    } else {
        p.x.c0.bytes@ + p.x.c1.bytes@ + p.y.c0.bytes@ + signed_word(p.y.c1.bytes@, g2_y_negative(p))
    }
}

/// The sign flag leaves the rest of a top byte as it was.
pub proof fn lemma_sign_flag(b: u8)
    requires
        b < 64,
    ensures
        (b | 0x80u8) % 64 == b,
        (b | 0x80u8) / 64 == 2,
{
    assert((b | 0x80u8) % 64 == b && (b | 0x80u8) / 64 == 2) by (bit_vector)
        requires
            b < 64,
    ;
}

/// Writes a coordinate word, setting the sign flag when `negative`.
fn push_signed_word(out: &mut Vec<u8>, w: &[u8; 32], negative: bool)
    ensures
        final(out)@ == old(out)@ + signed_word(w@, negative),
{
    let mut v = *w;
    if negative {
        v[31] = v[31] | 0x80u8;
    }
    assert(v@ =~= signed_word(w@, negative));
    out.extend_from_slice(&v);
}

/// The value of the 32 bytes of `b` at `start`.
pub open spec fn word_at(b: Seq<u8>, start: int) -> nat {
    le_value(b.subrange(start, start + 32))
}

/// The value of the 32 bytes of `b` at `start` once the flag bits of the last
/// one are cleared.
pub open spec fn masked_word_at(b: Seq<u8>, start: int) -> nat {
    le_value(b.subrange(start, start + 31).push((b[start + 31] % 64) as u8))
}

/// What a G1 point encoding reads as: both coordinates must be reduced
/// residues once the flags are cleared, and the two flags cannot both be set.
pub open spec fn g1_dec(b: Seq<u8>) -> Result<G1View, ()> {
    if b.len() != 64 || flag_bits(b[63]) == 3 || word_at(b, 0) >= fq_modulus()
        || masked_word_at(b, 32) >= fq_modulus() {
        Err(())
    } else if flag_bits(b[63]) == 1 {
        Ok(g1_identity_view())
    } else {
        Ok(G1View { x: word_at(b, 0), y: masked_word_at(b, 32), infinity: false })
    }
}

/// What a G2 point encoding reads as, as for G1 with `Fq2` coordinates.
pub open spec fn g2_dec(b: Seq<u8>) -> Result<G2View, ()> {
    if b.len() != 128 || flag_bits(b[127]) == 3 || word_at(b, 0) >= fq_modulus()
        || word_at(b, 32) >= fq_modulus() || word_at(b, 64) >= fq_modulus()
        || masked_word_at(b, 96) >= fq_modulus() {
        Err(())
    } else if flag_bits(b[127]) == 1 {
        Ok(g2_identity_view())
    } else {
        Ok(
            G2View {
                x: (word_at(b, 0), word_at(b, 32)),
                y: (word_at(b, 64), masked_word_at(b, 96)),
                infinity: false,
            },
        )
    }
}

/// The items of a sequence of G1 points, one after another.
pub open spec fn g1_items(s: Seq<G1Affine>) -> Seq<u8>
    decreases s.len(),
{
    if s.len() == 0 {
        Seq::empty()
    } else {
        g1_items(s.drop_last()) + g1_enc(s.last())
    }
}

/// The items of a sequence of G2 points, one after another.
pub open spec fn g2_items(s: Seq<G2Affine>) -> Seq<u8>
    decreases s.len(),
{
    if s.len() == 0 {
        Seq::empty()
    } else {
        g2_items(s.drop_last()) + g2_enc(s.last())
    }
}

/// The items of a sequence of scalars, one after another.
pub open spec fn fr_items(s: Seq<Fr>) -> Seq<u8>
    decreases s.len(),
{
    if s.len() == 0 {
        Seq::empty()
    } else {
        fr_items(s.drop_last()) + s.last().bytes@
    }
}

/// The coefficients of a target-field element, one after another.
pub open spec fn fq_items(s: Seq<Fq>) -> Seq<u8>
    decreases s.len(),
{
    if s.len() == 0 {
        Seq::empty()
    } else {
        fq_items(s.drop_last()) + s.last().bytes@
    }
}

pub open spec fn g1_seq_enc(s: Seq<G1Affine>) -> Seq<u8> {
    le_bytes(s.len(), 8) + g1_items(s)
}

pub open spec fn g2_seq_enc(s: Seq<G2Affine>) -> Seq<u8> {
    le_bytes(s.len(), 8) + g2_items(s)
}

pub open spec fn fr_seq_enc(s: Seq<Fr>) -> Seq<u8> {
    le_bytes(s.len(), 8) + fr_items(s)
}

pub open spec fn fq12_enc(f: Fq12) -> Seq<u8> {
    fq_items(f.coeffs@)
}

/// The encoding of a sequence of residues as 32-byte words.
pub open spec fn word_items(s: Seq<nat>) -> Seq<u8>
    decreases s.len(),
{
    if s.len() == 0 {
        Seq::empty()
    } else {
        word_items(s.drop_last()) + le_bytes(s.last(), 32)
    }
}

/// The encoding of a target-field element depends on its coefficients alone.
pub proof fn lemma_fq_items_words(s: Seq<Fq>)
    requires
        forall|i: int| 0 <= i < s.len() ==> (#[trigger] s[i]).bytes@.len() == 32,
    ensures
        fq_items(s) == word_items(s.map_values(|f: Fq| f.value())),
    decreases s.len(),
{
    if s.len() > 0 {
        lemma_fq_items_words(s.drop_last());
        assert(s.drop_last().map_values(|f: Fq| f.value()) =~= s.map_values(|f: Fq| f.value()).drop_last());
        lemma_le_round_trip(s.last().bytes@);
    }
}

/// The `i`-th coefficient of an encoded target-field element.
pub open spec fn coeff_at(b: Seq<u8>, i: int) -> nat {
    word_at(b, 32 * i)
}

/// What a target-field encoding reads as: twelve 32-byte coefficients, each a
/// reduced residue.
pub open spec fn fq12_dec(b: Seq<u8>) -> Result<Seq<nat>, ()> {
    if b.len() != 384 || exists|i: int| 0 <= i < 12 && #[trigger] coeff_at(b, i) >= fq_modulus() {
        Err(())
    } else {
        Ok(Seq::new(12, |i: int| coeff_at(b, i)))
    }
}

pub fn encode_g1(out: &mut Vec<u8>, p: &G1Affine)
    ensures
        final(out)@ == old(out)@ + g1_enc(*p),
{
    let start = Ghost(out@);
    if p.infinity {
        let mut i: usize = 0;
        while i < 63
            invariant
                0 <= i <= 63,
                out@ == start@ + Seq::new(i as nat, |j: int| 0u8),
            decreases 63 - i,
        {
            out.push(0u8);
            i = i + 1;
            assert(out@ =~= start@ + Seq::new(i as nat, |j: int| 0u8));
        }
        out.push(64u8);
        assert(out@ =~= start@ + g1_enc(*p));
    } else {
        out.extend_from_slice(&p.x.bytes);
        let negative = p.y.is_high();
        push_signed_word(out, &p.y.bytes, negative);
        assert(out@ =~= start@ + g1_enc(*p));
    }
}

pub fn encode_g2(out: &mut Vec<u8>, p: &G2Affine)
    ensures
        final(out)@ == old(out)@ + g2_enc(*p),
{
    let start = Ghost(out@);
    if p.infinity {
        let mut i: usize = 0;
        while i < 127
            invariant
                0 <= i <= 127,
                out@ == start@ + Seq::new(i as nat, |j: int| 0u8),
            decreases 127 - i,
        {
            out.push(0u8);
            i = i + 1;
            assert(out@ =~= start@ + Seq::new(i as nat, |j: int| 0u8));
        }
        out.push(64u8);
        assert(out@ =~= start@ + g2_enc(*p));
    } else {
        out.extend_from_slice(&p.x.c0.bytes);
        out.extend_from_slice(&p.x.c1.bytes);
        out.extend_from_slice(&p.y.c0.bytes);
        let zero = Fq::zero();
        let negative = p.y.c1.is_high() || (p.y.c1.equals(&zero) && p.y.c0.is_high());
        push_signed_word(out, &p.y.c1.bytes, negative);
        assert(out@ =~= start@ + g2_enc(*p));
    }
}

/// Reads a G1 point from its encoding.
pub fn decode_g1(b: &[u8]) -> (r: Result<G1Affine, ()>)
    ensures
        match r {
            Ok(p) => g1_dec(b@) == G1Outcome::Ok(p@) && p.wf() && p.canonical(),
            Err(_) => g1_dec(b@) is Err,
        },
{
    if b.len() != 64 {
        return Err(());
    }
    let flags = b[63] / 64;
    let x = fq_from_slice(b, 0);
    let mut y = fq_from_slice(b, 32);
    y.bytes[31] = b[63] % 64;
    assert(y.bytes@ =~= b@.subrange(32, 63).push((b@[63] % 64) as u8));
    if flags == 3 || !x.is_canonical() || !y.is_canonical() {
        return Err(());
    }
    if flags == 1 {
        Ok(G1Affine::identity())
    } else {
        proof {
            x.lemma_canonical_top_bits();
            y.lemma_canonical_top_bits();
        }
        Ok(G1Affine { x, y, infinity: false })
    }
}

/// Reads a G2 point from its encoding.
pub fn decode_g2(b: &[u8]) -> (r: Result<G2Affine, ()>)
    ensures
        match r {
            Ok(p) => g2_dec(b@) == G2Outcome::Ok(p@) && p.wf() && p.canonical(),
            Err(_) => g2_dec(b@) is Err,
        },
{
    if b.len() != 128 {
        return Err(());
    }
    let flags = b[127] / 64;
    let x0 = fq_from_slice(b, 0);
    let x1 = fq_from_slice(b, 32);
    let y0 = fq_from_slice(b, 64);
    let mut y1 = fq_from_slice(b, 96);
    y1.bytes[31] = b[127] % 64;
    assert(y1.bytes@ =~= b@.subrange(96, 127).push((b@[127] % 64) as u8));
    if flags == 3 || !x0.is_canonical() || !x1.is_canonical() || !y0.is_canonical() || !y1.is_canonical() {
        return Err(());
    }
    if flags == 1 {
        Ok(G2Affine::identity())
    } else {
        proof {
            x0.lemma_canonical_top_bits();
            x1.lemma_canonical_top_bits();
            y0.lemma_canonical_top_bits();
            y1.lemma_canonical_top_bits();
        }
        Ok(G2Affine { x: Fq2 { c0: x0, c1: x1 }, y: Fq2 { c0: y0, c1: y1 }, infinity: false })
    }
}

/// Reading back the encoding of a point gives the same point.
pub proof fn lemma_g1_round_trip(p: G1Affine)
    requires
        p.canonical(),
    ensures
        g1_dec(g1_enc(p)) == G1Outcome::Ok(p@),
{
    let b = g1_enc(p);
    if p.infinity {
        lemma_zero_bytes(b.subrange(0, 32));
        lemma_zero_bytes(b.subrange(32, 63).push((b[63] % 64) as u8));
    } else {
        p.lemma_canonical_wf();
        lemma_sign_flag(p.y.bytes@[31]);
        assert(b.subrange(0, 32) =~= p.x.bytes@);
        assert(b.subrange(32, 63).push((b[63] % 64) as u8) =~= p.y.bytes@);
    }
}

/// Reading back the encoding of a point gives the same point.
pub proof fn lemma_g2_round_trip(p: G2Affine)
    requires
        p.canonical(),
    ensures
        g2_dec(g2_enc(p)) == G2Outcome::Ok(p@),
{
    let b = g2_enc(p);
    if p.infinity {
        lemma_zero_bytes(b.subrange(0, 32));
        lemma_zero_bytes(b.subrange(32, 64));
        lemma_zero_bytes(b.subrange(64, 96));
        lemma_zero_bytes(b.subrange(96, 127).push((b[127] % 64) as u8));
    } else {
        p.lemma_canonical_wf();
        lemma_sign_flag(p.y.c1.bytes@[31]);
        assert(b.subrange(0, 32) =~= p.x.c0.bytes@);
        assert(b.subrange(32, 64) =~= p.x.c1.bytes@);
        assert(b.subrange(64, 96) =~= p.y.c0.bytes@);
        assert(b.subrange(96, 127).push((b[127] % 64) as u8) =~= p.y.c1.bytes@);
    }
}

/// Encodes a sequence of G1 points.
pub fn encode_g1_seq(points: &[G1Affine]) -> (r: Vec<u8>)
    ensures
        r@ == g1_seq_enc(points@),
{
    let mut out: Vec<u8> = Vec::new();
    push_le_bytes(&mut out, points.len() as u64, 8);
    let mut i: usize = 0;
    while i < points.len()
        invariant
            0 <= i <= points@.len(),
            out@ == le_bytes(points@.len(), 8) + g1_items(points@.take(i as int)),
        decreases points@.len() - i,
    {
        encode_g1(&mut out, &points[i]);
        assert(points@.take(i + 1).drop_last() =~= points@.take(i as int));
        i = i + 1;
    }
    assert(points@.take(i as int) =~= points@);
    out
}

/// Encodes the points of a sequence of prepared G1 inputs.
pub fn encode_g1_prepared(inputs: &[G1Prepared]) -> (r: Vec<u8>)
    ensures
        r@ == g1_seq_enc(g1_points(inputs@)),
{
    let ghost pts = g1_points(inputs@);
    let mut out: Vec<u8> = Vec::new();
    push_le_bytes(&mut out, inputs.len() as u64, 8);
    let mut i: usize = 0;
    while i < inputs.len()
        invariant
            0 <= i <= inputs@.len(),
            pts == g1_points(inputs@),
            out@ == le_bytes(inputs@.len(), 8) + g1_items(pts.take(i as int)),
        decreases inputs@.len() - i,
    {
        encode_g1(&mut out, &inputs[i].0);
        assert(pts.take(i + 1).drop_last() =~= pts.take(i as int));
        i = i + 1;
    }
    assert(pts.take(i as int) =~= pts);
    out
}

/// Encodes a sequence of G2 points.
pub fn encode_g2_seq(points: &[G2Affine]) -> (r: Vec<u8>)
    ensures
        r@ == g2_seq_enc(points@),
{
    let mut out: Vec<u8> = Vec::new();
    push_le_bytes(&mut out, points.len() as u64, 8);
    let mut i: usize = 0;
    while i < points.len()
        invariant
            0 <= i <= points@.len(),
            out@ == le_bytes(points@.len(), 8) + g2_items(points@.take(i as int)),
        decreases points@.len() - i,
    {
        encode_g2(&mut out, &points[i]);
        assert(points@.take(i + 1).drop_last() =~= points@.take(i as int));
        i = i + 1;
    }
    assert(points@.take(i as int) =~= points@);
    out
}

/// Encodes the points of a sequence of prepared G2 inputs.
pub fn encode_g2_prepared(inputs: &[G2Prepared]) -> (r: Vec<u8>)
    ensures
        r@ == g2_seq_enc(g2_points(inputs@)),
{
    let ghost pts = g2_points(inputs@);
    let mut out: Vec<u8> = Vec::new();
    push_le_bytes(&mut out, inputs.len() as u64, 8);
    let mut i: usize = 0;
    while i < inputs.len()
        invariant
            0 <= i <= inputs@.len(),
            pts == g2_points(inputs@),
            out@ == le_bytes(inputs@.len(), 8) + g2_items(pts.take(i as int)),
        decreases inputs@.len() - i,
    {
        encode_g2(&mut out, &inputs[i].0);
        assert(pts.take(i + 1).drop_last() =~= pts.take(i as int));
        i = i + 1;
    }
    assert(pts.take(i as int) =~= pts);
    out
}

/// Encodes a sequence of scalars.
pub fn encode_fr_seq(scalars: &[Fr]) -> (r: Vec<u8>)
    ensures
        r@ == fr_seq_enc(scalars@),
{
    let mut out: Vec<u8> = Vec::new();
    push_le_bytes(&mut out, scalars.len() as u64, 8);
    let mut i: usize = 0;
    while i < scalars.len()
        invariant
            0 <= i <= scalars@.len(),
            out@ == le_bytes(scalars@.len(), 8) + fr_items(scalars@.take(i as int)),
        decreases scalars@.len() - i,
    {
        out.extend_from_slice(&scalars[i].bytes);
        assert(scalars@.take(i + 1).drop_last() =~= scalars@.take(i as int));
        i = i + 1;
    }
    assert(scalars@.take(i as int) =~= scalars@);
    out
}

/// Encodes a target-field element.
pub fn encode_fq12(f: &Fq12) -> (r: Vec<u8>)
    ensures
        r@ == fq12_enc(*f),
        r@ == word_items(f@),
{
    proof {
        lemma_fq_items_words(f.coeffs@);
    }
    let mut out: Vec<u8> = Vec::new();
    let mut i: usize = 0;
    while i < 12
        invariant
            0 <= i <= 12,
            out@ == fq_items(f.coeffs@.take(i as int)),
        decreases 12 - i,
    {
        out.extend_from_slice(&f.coeffs[i].bytes);
        assert(f.coeffs@.take(i + 1).drop_last() =~= f.coeffs@.take(i as int));
        i = i + 1;
    }
    assert(f.coeffs@.take(12) =~= f.coeffs@);
    out
}

/// Reads a target-field element from its encoding.
pub fn decode_fq12(b: &[u8]) -> (r: Result<Fq12, ()>)
    ensures
        match r {
            Ok(f) => fq12_dec(b@) == Fq12Outcome::Ok(f@),
            Err(_) => fq12_dec(b@) is Err,
        },
{
    if b.len() != 384 {
        return Err(());
    }
    let mut coeffs = [Fq::zero(); 12];
    let mut i: usize = 0;
    while i < 12
        invariant
            0 <= i <= 12,
            b@.len() == 384,
            coeffs@.len() == 12,
            forall|j: int| 0 <= j < i ==> (#[trigger] coeffs@[j]).value() == coeff_at(b@, j),
            forall|j: int| 0 <= j < i ==> #[trigger] coeff_at(b@, j) < fq_modulus(),
        decreases 12 - i,
    {
        let c = fq_from_slice(b, 32 * i);
        if !c.is_canonical() {
            assert(coeff_at(b@, i as int) >= fq_modulus());
            return Err(());
        }
        coeffs[i] = c;
        i = i + 1;
    }
    let f = Fq12 { coeffs };
    assert(f@ =~= Seq::new(12, |i: int| coeff_at(b@, i)));
    Ok(f)
}

} // verus!
