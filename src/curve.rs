//! Affine points of G1 and G2 and the prepared pairing inputs built from them.
use vstd::prelude::*;
use crate::bridge::{g1_generator, g2_generator, g2_generator_view};
use crate::field::{Fq, Fq2};

verus! {

/// A point of G1 as a model: its coordinates, or the point at infinity.
pub struct G1View {
    pub x: nat,
    pub y: nat,
    pub infinity: bool,
}

/// A point of G2 as a model: its coordinates in `Fq2`, or the point at infinity.
pub struct G2View {
    pub x: (nat, nat),
    pub y: (nat, nat),
    pub infinity: bool,
}

/// The point at infinity of G1, with the zero coordinates it is stored with.
pub open spec fn g1_identity_view() -> G1View {
    G1View { x: 0, y: 0, infinity: true }
}

/// The point at infinity of G2, with the zero coordinates it is stored with.
pub open spec fn g2_identity_view() -> G2View {
    G2View { x: (0, 0), y: (0, 0), infinity: true }
}

/// A point of G1 on `y^2 = x^3 + 3` over `Fq`, or the point at infinity.
#[derive(Clone, Copy, Debug)]
pub struct G1Affine {
    pub x: Fq,
    pub y: Fq,
    pub infinity: bool,
}

/// A point of G2 on the sextic twist over `Fq2`, or the point at infinity.
#[derive(Clone, Copy, Debug)]
pub struct G2Affine {
    pub x: Fq2,
    pub y: Fq2,
    pub infinity: bool,
}

impl View for G1Affine {
    type V = G1View;

    /// The point at infinity is one point, whatever coordinates it carries.
    open spec fn view(&self) -> G1View {
        if self.infinity {
            g1_identity_view()
        } else {
            G1View { x: self.x.value(), y: self.y.value(), infinity: false }
        }
    }
}

impl View for G2Affine {
    type V = G2View;

    /// The point at infinity is one point, whatever coordinates it carries.
    open spec fn view(&self) -> G2View {
        if self.infinity {
            g2_identity_view()
        } else {
            G2View { x: self.x.value(), y: self.y.value(), infinity: false }
        }
    }
}

impl G1Affine {
    /// The coordinates leave the two flag bits of the encoding clear.
    pub open spec fn wf(self) -> bool {
        !self.infinity ==> self.x.bytes@[31] < 64 && self.y.bytes@[31] < 64
    }

    /// Reduced coordinates leave the flag bits clear.
    pub proof fn lemma_canonical_wf(self)
        requires
            self.canonical(),
        ensures
            self.wf(),
    {
        if !self.infinity {
            self.x.lemma_canonical_top_bits();
            self.y.lemma_canonical_top_bits();
        }
    }

    /// The coordinates of a point other than the point at infinity are reduced
    /// residues.
    pub open spec fn canonical(self) -> bool {
        !self.infinity ==> self.x.canonical() && self.y.canonical()
    }

    /// The point `(x, y)`, taken as given.
    pub fn new_unchecked(x: Fq, y: Fq) -> (r: G1Affine)
        ensures
            r == (G1Affine { x, y, infinity: false }),
    {
        G1Affine { x, y, infinity: false }
    }

    /// The point at infinity.
    pub fn identity() -> (r: G1Affine)
        ensures
            r.infinity,
            r.x.value() == 0,
            r.y.value() == 0,
            r@ == g1_identity_view(),
    {
        G1Affine { x: Fq::zero(), y: Fq::zero(), infinity: true }
    }

    pub fn is_zero(&self) -> (r: bool)
        ensures
            r == self.infinity,
            r == self@.infinity,
    {
        self.infinity
    }
}

impl G2Affine {
    /// The coordinates leave the two flag bits of the encoding clear.
    pub open spec fn wf(self) -> bool {
        !self.infinity ==> self.x.c0.bytes@[31] < 64 && self.x.c1.bytes@[31] < 64
            && self.y.c0.bytes@[31] < 64 && self.y.c1.bytes@[31] < 64
    }

    /// Reduced coordinates leave the flag bits clear.
    pub proof fn lemma_canonical_wf(self)
        requires
            self.canonical(),
        ensures
            self.wf(),
    {
        if !self.infinity {
            self.x.c0.lemma_canonical_top_bits();
            self.x.c1.lemma_canonical_top_bits();
            self.y.c0.lemma_canonical_top_bits();
            self.y.c1.lemma_canonical_top_bits();
        }
    }

    /// The coordinates of a point other than the point at infinity are reduced
    /// residues.
    pub open spec fn canonical(self) -> bool {
        !self.infinity ==> self.x.c0.canonical() && self.x.c1.canonical() && self.y.c0.canonical()
            && self.y.c1.canonical()
    }

    /// The point `(x, y)`, taken as given.
    pub fn new_unchecked(x: Fq2, y: Fq2) -> (r: G2Affine)
        ensures
            r == (G2Affine { x, y, infinity: false }),
    {
        G2Affine { x, y, infinity: false }
    }

    /// The point at infinity.
    pub fn identity() -> (r: G2Affine)
        ensures
            r.infinity,
            r.x.value() == (0nat, 0nat),
            r.y.value() == (0nat, 0nat),
            r@ == g2_identity_view(),
    {
        let z = Fq2 { c0: Fq::zero(), c1: Fq::zero() };
        G2Affine { x: z, y: z, infinity: true }
    }

    pub fn is_zero(&self) -> (r: bool)
        ensures
            r == self.infinity,
            r == self@.infinity,
    {
        self.infinity
    }
}

/// A G1 point in the form the pairing consumes.
#[derive(Clone, Copy, Debug)]
pub struct G1Prepared(pub G1Affine);

/// A G2 point in the form the pairing consumes.
#[derive(Clone, Copy, Debug)]
pub struct G2Prepared(pub G2Affine);

/// The points that a sequence of prepared G1 inputs wraps.
pub open spec fn g1_points(s: Seq<G1Prepared>) -> Seq<G1Affine> {
    s.map_values(|p: G1Prepared| p.0)
}

/// The points that a sequence of prepared G2 inputs wraps.
pub open spec fn g2_points(s: Seq<G2Prepared>) -> Seq<G2Affine> {
    s.map_values(|p: G2Prepared| p.0)
}

impl G1Prepared {
    /// The wrapped point is the point at infinity.
    pub fn is_zero(&self) -> (r: bool)
        ensures
            r == self.0.infinity,
    {
        self.0.is_zero()
    }
}

impl G2Prepared {
    /// The wrapped point is the point at infinity.
    pub fn is_zero(&self) -> (r: bool)
        ensures
            r == self.0.infinity,
    {
        self.0.is_zero()
    }
}

impl From<G1Affine> for G1Prepared {
    fn from(p: G1Affine) -> (r: G1Prepared)
        ensures
            r.0 == p,
    {
        G1Prepared(p)
    }
}

impl vstd::std_specs::convert::FromSpecImpl<G1Affine> for G1Prepared {
    open spec fn obeys_from_spec() -> bool {
        true
    }

    open spec fn from_spec(p: G1Affine) -> G1Prepared {
        G1Prepared(p)
    }
}

impl From<G2Affine> for G2Prepared {
    fn from(p: G2Affine) -> (r: G2Prepared)
        ensures
            r.0 == p,
    {
        G2Prepared(p)
    }
}

impl vstd::std_specs::convert::FromSpecImpl<G2Affine> for G2Prepared {
    open spec fn obeys_from_spec() -> bool {
        true
    }

    open spec fn from_spec(p: G2Affine) -> G2Prepared {
        G2Prepared(p)
    }
}

impl Default for G1Prepared {
    /// With no point given, the generator of G1.
    fn default() -> (r: G1Prepared)
        ensures
            r.0@ == (G1View { x: 1, y: 2, infinity: false }),
    {
        G1Prepared(g1_generator())
    }
}

impl Default for G2Prepared {
    /// With no point given, the generator of G2.
    fn default() -> (r: G2Prepared)
        ensures
            r.0@ == g2_generator_view(),
    {
        G2Prepared(g2_generator())
    }
}

/// Points are equal as group elements: every point at infinity is the same
/// point, whatever coordinates it carries.
impl PartialEq for G1Affine {
    fn eq(&self, other: &G1Affine) -> (r: bool) {
        if self.infinity || other.infinity {
            self.infinity == other.infinity
        } else {
            self.x.equals(&other.x) && self.y.equals(&other.y)
        }
    }
}

impl vstd::std_specs::cmp::PartialEqSpecImpl for G1Affine {
    open spec fn obeys_eq_spec() -> bool {
        true
    }

    open spec fn eq_spec(&self, other: &G1Affine) -> bool {
        self@ == other@
    }
}

impl Eq for G1Affine {
}

/// Points are equal as group elements: every point at infinity is the same
/// point, whatever coordinates it carries.
impl PartialEq for G2Affine {
    fn eq(&self, other: &G2Affine) -> (r: bool) {
        if self.infinity || other.infinity {
            self.infinity == other.infinity
        } else {
            self.x.equals(&other.x) && self.y.equals(&other.y)
        }
    }
}

impl vstd::std_specs::cmp::PartialEqSpecImpl for G2Affine {
    open spec fn obeys_eq_spec() -> bool {
        true
    }

    open spec fn eq_spec(&self, other: &G2Affine) -> bool {
        self@ == other@
    }
}

impl Eq for G2Affine {
}

/// Prepared inputs are equal when the points they wrap are.
impl PartialEq for G1Prepared {
    fn eq(&self, other: &G1Prepared) -> (r: bool) {
        self.0.eq(&other.0)
    }
}

impl vstd::std_specs::cmp::PartialEqSpecImpl for G1Prepared {
    open spec fn obeys_eq_spec() -> bool {
        true
    }

    open spec fn eq_spec(&self, other: &G1Prepared) -> bool {
        self.0@ == other.0@
    }
}

impl Eq for G1Prepared {
}

/// Prepared inputs are equal when the points they wrap are.
impl PartialEq for G2Prepared {
    fn eq(&self, other: &G2Prepared) -> (r: bool) {
        self.0.eq(&other.0)
    }
}

impl vstd::std_specs::cmp::PartialEqSpecImpl for G2Prepared {
    open spec fn obeys_eq_spec() -> bool {
        true
    }

    open spec fn eq_spec(&self, other: &G2Prepared) -> bool {
        self.0@ == other.0@
    }
}

impl Eq for G2Prepared {
}

} // verus!
