//! Field elements of BN254 held in their canonical little-endian encoding.
use vstd::prelude::*;

verus! {

/// The prime `q` of the base field.
/// 21888242871839275222246405745257275088696311157297823662689037894645226208583,
/// written as four 64-bit limbs.
pub open spec fn fq_modulus() -> nat {
    limbs_value(0x3c208c16d87cfd47, 0x97816a916871ca8d, 0xb85045b68181585d, 0x30644e72e131a029)
}

/// The prime `r` of the scalar field, the order of G1 and G2.
/// 21888242871839275222246405745257275088548364400416034343698204186575808495617,
/// written as four 64-bit limbs.
pub open spec fn fr_modulus() -> nat {
    limbs_value(0x43e1f593f0000001, 0x2833e84879b97091, 0xb85045b68181585d, 0x30644e72e131a029)
}

/// The number with 64-bit limbs `l0, l1, l2, l3`, least significant first.
pub open spec fn limbs_value(l0: nat, l1: nat, l2: nat, l3: nat) -> nat {
    l0 + 0x1_0000_0000_0000_0000 * (l1 + 0x1_0000_0000_0000_0000 * (l2 + 0x1_0000_0000_0000_0000 * l3))
}

/// `(q - 1) / 2`, the largest residue that does not exceed its negation.
pub open spec fn fq_half() -> nat {
    ((fq_modulus() - 1) / 2) as nat
}

/// `256^n`.
pub open spec fn byte_bound(n: nat) -> nat
    decreases n,
{
    if n == 0 {
        1
    } else {
        256 * byte_bound((n - 1) as nat)
    }
}

/// The number that a byte string denotes, least significant byte first.
pub open spec fn le_value(s: Seq<u8>) -> nat
    decreases s.len(),
{
    if s.len() == 0 {
        0
    } else {
        s[0] as nat + 256 * le_value(s.drop_first())
    }
}

/// The `n` low bytes of `v`, least significant first.
pub open spec fn le_bytes(v: nat, n: nat) -> Seq<u8>
    decreases n,
{
    if n == 0 {
        Seq::empty()
    } else {
        seq![(v % 256) as u8] + le_bytes(v / 256, (n - 1) as nat)
    }
}

pub proof fn lemma_le_bytes_len(v: nat, n: nat)
    ensures
        le_bytes(v, n).len() == n,
    decreases n,
{
    if n > 0 {
        lemma_le_bytes_len(v / 256, (n - 1) as nat);
    }
}

/// A string of `n` bytes denotes a number below `256^n`.
pub proof fn lemma_le_value_bound(s: Seq<u8>)
    ensures
        le_value(s) < byte_bound(s.len()),
    decreases s.len(),
{
    if s.len() > 0 {
        lemma_le_value_bound(s.drop_first());
    }
}

/// The top byte of a string whose value is below `64 * 256^(n-1)` has its two
/// high bits clear.
pub proof fn lemma_top_byte_small(s: Seq<u8>)
    requires
        s.len() > 0,
        le_value(s) < 64 * byte_bound((s.len() - 1) as nat),
    ensures
        s[s.len() - 1] < 64,
    decreases s.len(),
{
    if s.len() == 1 {
        assert(le_value(s.drop_first()) == 0);
    } else {
        let t = s.drop_first();
        assert(le_value(s) == s[0] as nat + 256 * le_value(t));
        assert(byte_bound((s.len() - 1) as nat) == 256 * byte_bound((t.len() - 1) as nat));
        assert(le_value(t) < 64 * byte_bound((t.len() - 1) as nat)) by (nonlinear_arith)
            requires
                s[0] as nat + 256 * le_value(t) < 64 * (256 * byte_bound((t.len() - 1) as nat)),
        ;
        lemma_top_byte_small(t);
        assert(s[s.len() - 1] == t[t.len() - 1]);
    }
}

/// Two strings of one length that denote the same number are equal.
pub proof fn lemma_le_value_injective(s: Seq<u8>, t: Seq<u8>)
    requires
        s.len() == t.len(),
        le_value(s) == le_value(t),
    ensures
        s == t,
    decreases s.len(),
{
    if s.len() > 0 {
        let a = s[0] as nat;
        let b = t[0] as nat;
        let rs = le_value(s.drop_first());
        let rt = le_value(t.drop_first());
        assert(a == b && rs == rt) by (nonlinear_arith)
            requires
                a < 256,
                b < 256,
                a + 256 * rs == b + 256 * rt,
        ;
        lemma_le_value_injective(s.drop_first(), t.drop_first());
        assert(s =~= seq![s[0]] + s.drop_first());
        assert(t =~= seq![t[0]] + t.drop_first());
    } else {
        assert(s =~= t);
    }
}

/// Every byte string is the low bytes of the number it denotes.
pub proof fn lemma_le_round_trip(s: Seq<u8>)
    ensures
        le_bytes(le_value(s), s.len()) == s,
    decreases s.len(),
{
    if s.len() > 0 {
        let t = s.drop_first();
        lemma_le_round_trip(t);
        let a = s[0] as nat;
        let v = le_value(t);
        assert((a + 256 * v) % 256 == a && (a + 256 * v) / 256 == v) by (nonlinear_arith)
            requires
                a < 256,
        ;
        assert(s =~= seq![s[0]] + t);
    }
}

/// The value of a concatenation.
pub proof fn lemma_le_value_append(a: Seq<u8>, b: Seq<u8>)
    ensures
        le_value(a + b) == le_value(a) + byte_bound(a.len()) * le_value(b),
    decreases a.len(),
{
    if a.len() == 0 {
        assert(a + b =~= b);
        assert(byte_bound(0) == 1);
        assert(le_value(a) == 0);
    } else {
        let t = a.drop_first();
        assert((a + b).drop_first() =~= t + b);
        lemma_le_value_append(t, b);
        let x = a[0] as nat;
        let lt = le_value(t);
        let bb = byte_bound(t.len());
        let lb = le_value(b);
        assert(x + 256 * (lt + bb * lb) == (x + 256 * lt) + (256 * bb) * lb) by (nonlinear_arith);
        assert((a + b)[0] == a[0]);
        assert(le_value(a + b) == x + 256 * le_value(t + b));
        assert(byte_bound(a.len()) == 256 * bb);
        assert(le_value(a) == x + 256 * lt);
        assert(le_value(a + b) == le_value(a) + (256 * bb) * lb);
    }
}

/// The low bytes of a number that fits in them denote that number.
pub proof fn lemma_le_value_of_bytes(v: nat, n: nat)
    requires
        v < byte_bound(n),
    ensures
        le_value(le_bytes(v, n)) == v,
    decreases n,
{
    lemma_le_bytes_len(v, n);
    if n > 0 {
        let bb = byte_bound((n - 1) as nat);
        assert(v / 256 < bb) by (nonlinear_arith)
            requires
                v < 256 * bb,
        ;
        lemma_le_value_of_bytes(v / 256, (n - 1) as nat);
        assert(le_bytes(v, n).drop_first() =~= le_bytes(v / 256, (n - 1) as nat));
        assert(v % 256 + 256 * (v / 256) == v) by (nonlinear_arith);
    }
}

/// Appends the `n` low bytes of `v`, least significant first.
pub fn push_le_bytes(out: &mut Vec<u8>, v: u64, n: usize)
    ensures
        final(out)@ == old(out)@ + le_bytes(v as nat, n as nat),
    decreases n,
{
    if n == 0 {
        assert(old(out)@ + le_bytes(v as nat, 0) =~= old(out)@);
    } else {
        let start = Ghost(out@);
        out.push((v % 256) as u8);
        push_le_bytes(out, v / 256, n - 1);
        assert(out@ =~= start@ + le_bytes(v as nat, n as nat));
    }
}

/// An element of the base field: 32 bytes, least significant first.
#[derive(Clone, Copy, Debug, PartialEq, Eq)]
pub struct Fq {
    pub bytes: [u8; 32],
}

/// An element of the scalar field: 32 bytes, least significant first.
#[derive(Clone, Copy, Debug, PartialEq, Eq)]
pub struct Fr {
    pub bytes: [u8; 32],
}

impl Fq {
    /// The residue that the bytes denote.
    pub open spec fn value(self) -> nat {
        le_value(self.bytes@)
    }

    /// The bytes denote a reduced residue.
    pub open spec fn canonical(self) -> bool {
        self.value() < fq_modulus()
    }

    /// Whether the bytes denote a reduced residue.
    pub fn is_canonical(&self) -> (r: bool)
        ensures
            r == self.canonical(),
    {
        let top = Fq::from_limbs(0x3c208c16d87cfd46, 0x97816a916871ca8d, 0xb85045b68181585d, 0x30644e72e131a029);
        assert(top.value() == fq_modulus() - 1);
        !le_greater(&self.bytes, &top.bytes)
    }

    /// The residue lies above `(q - 1) / 2`, so that it is larger than its
    /// negation: the sign of a coordinate in the point encoding.
    pub fn is_high(&self) -> (r: bool)
        ensures
            r == (self.value() > fq_half()),
    {
        let half = Fq::from_limbs(0x9e10460b6c3e7ea3, 0xcbc0b548b438e546, 0xdc2822db40c0ac2e, 0x183227397098d014);
        assert(half.value() == fq_half());
        le_greater(&self.bytes, &half.bytes)
    }

    /// The 254-bit modulus leaves the two high bits of a reduced residue clear.
    pub proof fn lemma_canonical_top_bits(self)
        requires
            self.canonical(),
        ensures
            self.bytes@[31] < 64,
    {
        reveal_with_fuel(byte_bound, 32);
        assert(fq_modulus() < 64 * byte_bound(31));
        lemma_top_byte_small(self.bytes@);
    }

    pub fn zero() -> (r: Fq)
        ensures
            r.value() == 0,
            r.bytes@ == Seq::new(32, |i: int| 0u8),
    {
        let r = Fq { bytes: [0u8; 32] };
        proof {
            lemma_zero_bytes(r.bytes@);
        }
        r
    }

    /// The element with 64-bit limbs `l0, l1, l2, l3`, least significant first.
    pub fn from_limbs(l0: u64, l1: u64, l2: u64, l3: u64) -> (r: Fq)
        ensures
            r.value() == limbs_value(l0 as nat, l1 as nat, l2 as nat, l3 as nat),
    {
        let mut out: Vec<u8> = Vec::new();
        push_le_bytes(&mut out, l0, 8);
        push_le_bytes(&mut out, l1, 8);
        push_le_bytes(&mut out, l2, 8);
        push_le_bytes(&mut out, l3, 8);
        proof {
            reveal_with_fuel(byte_bound, 9);
            let b0 = le_bytes(l0 as nat, 8);
            let b1 = le_bytes(l1 as nat, 8);
            let b2 = le_bytes(l2 as nat, 8);
            let b3 = le_bytes(l3 as nat, 8);
            lemma_le_bytes_len(l0 as nat, 8);
            lemma_le_bytes_len(l1 as nat, 8);
            lemma_le_bytes_len(l2 as nat, 8);
            lemma_le_bytes_len(l3 as nat, 8);
            assert(byte_bound(8) == 0x1_0000_0000_0000_0000);
            lemma_le_value_of_bytes(l0 as nat, 8);
            lemma_le_value_of_bytes(l1 as nat, 8);
            lemma_le_value_of_bytes(l2 as nat, 8);
            lemma_le_value_of_bytes(l3 as nat, 8);
            assert(out@ =~= b0 + (b1 + (b2 + b3)));
            lemma_le_value_append(b2, b3);
            lemma_le_value_append(b1, b2 + b3);
            lemma_le_value_append(b0, b1 + (b2 + b3));
            assert(out@.subrange(0, 32) =~= out@);
        }
        fq_from_slice(&out, 0)
    }

    /// Two elements are equal exactly when their residues are.
    pub fn equals(&self, other: &Fq) -> (r: bool)
        ensures
            r == (self.value() == other.value()),
    {
        let r = bytes_equal(&self.bytes, &other.bytes);
        proof {
            if self.value() == other.value() {
                lemma_le_value_injective(self.bytes@, other.bytes@);
            }
        }
        r
    }
}

impl Fr {
    /// The residue that the bytes denote.
    pub open spec fn value(self) -> nat {
        le_value(self.bytes@)
    }

    /// The bytes denote a reduced residue.
    pub open spec fn canonical(self) -> bool {
        self.value() < fr_modulus()
    }
}

pub proof fn lemma_zero_bytes(s: Seq<u8>)
    requires
        forall|i: int| 0 <= i < s.len() ==> s[i] == 0,
    ensures
        le_value(s) == 0,
    decreases s.len(),
{
    if s.len() > 0 {
        lemma_zero_bytes(s.drop_first());
    }
}

/// Whether the number that `a` denotes exceeds the one `b` denotes, comparing
/// from the most significant byte down.
pub fn le_greater(a: &[u8; 32], b: &[u8; 32]) -> (r: bool)
    ensures
        r == (le_value(a@) > le_value(b@)),
{
    let mut i: usize = 32;
    while i > 0
        invariant
            0 <= i <= 32,
            a@.len() == 32,
            b@.len() == 32,
            a@.subrange(i as int, 32) == b@.subrange(i as int, 32),
        decreases i,
    {
        let j = i - 1;
        if a[j] != b[j] {
            proof {
                lemma_split_at_byte(a@, j as int);
                lemma_split_at_byte(b@, j as int);
                assert(a@.subrange(j + 1, 32) == b@.subrange(j + 1, 32)) by {
                    assert(a@.subrange(j + 1, 32) =~= a@.subrange(i as int, 32));
                    assert(b@.subrange(j + 1, 32) =~= b@.subrange(i as int, 32));
                }
                let lo_a = le_value(a@.subrange(0, j as int));
                let lo_b = le_value(b@.subrange(0, j as int));
                let t = le_value(a@.subrange(j + 1, 32));
                let bb = byte_bound(j as nat);
                let x = a@[j as int] as nat;
                let y = b@[j as int] as nat;
                if x > y {
                    assert(lo_a + bb * (x + 256 * t) > lo_b + bb * (y + 256 * t)) by (nonlinear_arith)
                        requires
                            lo_b < bb,
                            x > y,
                    ;
                } else {
                    assert(lo_a + bb * (x + 256 * t) < lo_b + bb * (y + 256 * t)) by (nonlinear_arith)
                        requires
                            lo_a < bb,
                            x < y,
                    ;
                }
            }
            return a[j] > b[j];
        }
        proof {
            assert(a@.subrange(j as int, 32) =~= seq![a@[j as int]] + a@.subrange(i as int, 32));
            assert(b@.subrange(j as int, 32) =~= seq![b@[j as int]] + b@.subrange(i as int, 32));
        }
        i = j;
    }
    assert(a@ =~= a@.subrange(0, 32));
    assert(b@ =~= b@.subrange(0, 32));
    false
}

/// The value of a string split around its byte at `j`.
pub proof fn lemma_split_at_byte(s: Seq<u8>, j: int)
    requires
        0 <= j < s.len(),
    ensures
        le_value(s) == le_value(s.subrange(0, j)) + byte_bound(j as nat) * (s[j] as nat + 256
            * le_value(s.subrange(j + 1, s.len() as int))),
        le_value(s.subrange(0, j)) < byte_bound(j as nat),
{
    let lo = s.subrange(0, j);
    let hi = s.subrange(j, s.len() as int);
    assert(s =~= lo + hi);
    lemma_le_value_append(lo, hi);
    lemma_le_value_bound(lo);
    assert(hi.drop_first() =~= s.subrange(j + 1, s.len() as int));
}

/// Byte-wise comparison of two 32-byte strings.
pub fn bytes_equal(a: &[u8; 32], b: &[u8; 32]) -> (r: bool)
    ensures
        r == (a@ == b@),
{
    let mut i: usize = 0;
    while i < 32
        invariant
            0 <= i <= 32,
            a@.len() == 32,
            b@.len() == 32,
            forall|j: int| 0 <= j < i ==> a@[j] == b@[j],
        decreases 32 - i,
    {
        if a[i] != b[i] {
            return false;
        }
        i = i + 1;
    }
    assert(a@ =~= b@);
    true
}

/// Copies the 32 bytes of `b` that start at `start` into a field element.
pub fn fq_from_slice(b: &[u8], start: usize) -> (r: Fq)
    requires
        start + 32 <= b@.len(),
    ensures
        r.bytes@ == b@.subrange(start as int, start + 32),
{
    let n: usize = b.len();
    let mut bytes = [0u8; 32];
    let mut i: usize = 0;
    while i < 32
        invariant
            0 <= i <= 32,
            start + 32 <= b@.len(),
            n == b@.len(),
            bytes@.len() == 32,
            forall|j: int| 0 <= j < i ==> bytes@[j] == b@[start + j],
        decreases 32 - i,
    {
        bytes[i] = b[start + i];
        i = i + 1;
    }
    let r = Fq { bytes };
    assert(r.bytes@ =~= b@.subrange(start as int, start + 32));
    r
}

/// An element of `Fq2 = Fq[u]/(u^2 + 1)`, written `c0 + c1 * u`.
#[derive(Clone, Copy, Debug, PartialEq, Eq)]
pub struct Fq2 {
    pub c0: Fq,
    pub c1: Fq,
}

impl Fq2 {
    /// The pair of residues `(c0, c1)`.
    pub open spec fn value(self) -> (nat, nat) {
        (self.c0.value(), self.c1.value())
    }

    pub fn new(c0: Fq, c1: Fq) -> (r: Fq2)
        ensures
            r == (Fq2 { c0, c1 }),
    {
        Fq2 { c0, c1 }
    }

    /// Two elements are equal exactly when their residues are.
    pub fn equals(&self, other: &Fq2) -> (r: bool)
        ensures
            r == (self.value() == other.value()),
    {
        self.c0.equals(&other.c0) && self.c1.equals(&other.c1)
    }
}

/// An element of the target field `Fq12`, as its twelve base-field
/// coefficients in the tower order `Fq2 -> Fq6 -> Fq12` (`c0.c0.c0` first).
#[derive(Clone, Copy, Debug, PartialEq, Eq)]
pub struct Fq12 {
    pub coeffs: [Fq; 12],
}

impl View for Fq12 {
    type V = Seq<nat>;

    open spec fn view(&self) -> Seq<nat> {
        self.coeffs@.map_values(|f: Fq| f.value())
    }
}

/// The additive identity of the target field, as a model.
pub open spec fn fq12_zero_view() -> Seq<nat> {
    Seq::new(12, |i: int| 0nat)
}

/// The multiplicative identity of the target field, as a model.
pub open spec fn fq12_one_view() -> Seq<nat> {
    Seq::new(12, |i: int| if i == 0 { 1nat } else { 0nat })
}

impl Fq12 {
    /// The additive identity.
    pub fn zero() -> (r: Fq12)
        ensures
            r@ == fq12_zero_view(),
    {
        let z = Fq::zero();
        let r = Fq12 { coeffs: [z; 12] };
        assert(r@ =~= fq12_zero_view());
        r
    }

    /// The multiplicative identity.
    pub fn one() -> (r: Fq12)
        ensures
            r@ == fq12_one_view(),
    {
        let z = Fq::zero();
        let mut coeffs = [z; 12];
        let mut b = [0u8; 32];
        b[0] = 1;
        proof {
            lemma_zero_bytes(b@.drop_first());
            assert(le_value(b@) == 1);
        }
        coeffs[0] = Fq { bytes: b };
        let r = Fq12 { coeffs };
        assert(r@ =~= fq12_one_view());
        r
    }

    /// Two elements are equal exactly when their coefficients are.
    pub fn equals(&self, other: &Fq12) -> (r: bool)
        ensures
            r == (self@ == other@),
    {
        let mut i: usize = 0;
        while i < 12
            invariant
                0 <= i <= 12,
                forall|j: int| 0 <= j < i ==> self@[j] == other@[j],
            decreases 12 - i,
        {
            if !self.coeffs[i].equals(&other.coeffs[i]) {
                assert(self@[i as int] != other@[i as int]);
                return false;
            }
            i = i + 1;
        }
        assert(self@ =~= other@);
        true
    }
}

} // verus!
