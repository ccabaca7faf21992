//! `Color`: a 3-slot tuple denoting linear r/g/b intensity. No range
//! invariant is enforced on the stored channels; values may exceed the
//! nominal intensity range transiently under arithmetic.

use vstd::prelude::*;

use crate::linalg::tuple::Tuple;
use crate::linalg::tuple::add_in_range;
use crate::linalg::tuple::div_in_range;
use crate::linalg::tuple::scale_in_range;
use crate::linalg::tuple::seq_add;
use crate::linalg::tuple::seq_div;
use crate::linalg::tuple::seq_scale;
use crate::linalg::tuple::seq_sub;
use crate::linalg::tuple::sub_in_range;

verus! {

broadcast use crate::linalg::tuple::lemma_tuple_len;

/// Componentwise (Hadamard) product of two equally long slot sequences.
pub open spec fn seq_hadamard(a: Seq<i64>, b: Seq<i64>) -> Seq<i64> {
    Seq::new(a.len(), |i: int| (a[i] * b[i]) as i64)
}

/// Every componentwise product fits in the scalar type.
pub open spec fn hadamard_in_range(a: Seq<i64>, b: Seq<i64>) -> bool {
    forall|k: int| #![trigger a[k]] 0 <= k < a.len() ==> i64::MIN <= a[k] * b[k] <= i64::MAX
}

/// A linear RGB color with three scalar channels, in the order `r`, `g`,
/// `b`. Its view is the sequence of its three slots.
#[derive(PartialEq, Eq, Clone, Copy, Debug, Hash)]
pub struct Color(pub(crate) Tuple<3>);

impl View for Color {
    type V = Seq<i64>;

    closed spec fn view(&self) -> Seq<i64> {
        self.0@
    }
}

/// Within the crate: a color's view is its underlying tuple's view.
pub(crate) broadcast proof fn lemma_color_view(c: Color)
    ensures
        #[trigger] c@ == c.0@,
{
}

/// Record giving the individual channels of a color by name, in slot order.
#[derive(PartialEq, Eq, Structural, Clone, Copy, Hash, Debug)]
pub struct RgbView {
    pub r: i64,
    pub g: i64,
    pub b: i64,
}

impl Color {
    /// The color whose slots are exactly `s` (meaningful when `s` has
    /// length 3).
    pub closed spec fn of_seq(s: Seq<i64>) -> Color {
        choose|c: Color| c@ == s
    }

    /// `of_seq` applied to a color's view gives that color back.
    pub proof fn lemma_of_seq(c: Color)
        ensures
            Color::of_seq(c@) == c,
    {
        assert(exists|u: Color| u@ == c@) by {
            assert(c@ == c@);
        }
        let u = Color::of_seq(c@);
        Tuple::lemma_view_injective(u.0, c.0);
    }

    /// Builds a color from its three channels.
    pub fn new(r: i64, g: i64, b: i64) -> (c: Color)
        ensures
            c@ == seq![r, g, b],
    {
        let c = Color(Tuple::from_array([r, g, b]));
        proof {
            assert(c@ =~= seq![r, g, b]);
        }
        c
    }

    /// Reads the `r` channel (slot 0).
    pub fn r(&self) -> (v: i64)
        ensures
            v == self@[0],
    {
        self.0.get(0)
    }

    /// Reads the `g` channel (slot 1).
    pub fn g(&self) -> (v: i64)
        ensures
            v == self@[1],
    {
        self.0.get(1)
    }

    /// Reads the `b` channel (slot 2).
    pub fn b(&self) -> (v: i64)
        ensures
            v == self@[2],
    {
        self.0.get(2)
    }

    /// Writes the `r` channel (slot 0), leaving the others as they were.
    pub fn set_r(&mut self, v: i64)
        ensures
            final(self)@ == old(self)@.update(0, v),
    {
        self.0.set(0, v);
    }

    /// Writes the `g` channel (slot 1), leaving the others as they were.
    pub fn set_g(&mut self, v: i64)
        ensures
            final(self)@ == old(self)@.update(1, v),
    {
        self.0.set(1, v);
    }

    /// Writes the `b` channel (slot 2), leaving the others as they were.
    pub fn set_b(&mut self, v: i64)
        ensures
            final(self)@ == old(self)@.update(2, v),
    {
        self.0.set(2, v);
    }

    /// The named-field reading of this color's three slots; it forwards to
    /// the same storage as the slot reading, so the two can never diverge.
    pub fn rgb(&self) -> (v: RgbView)
        ensures
            v.r == self@[0],
            v.g == self@[1],
            v.b == self@[2],
    {
        RgbView { r: self.0.get(0), g: self.0.get(1), b: self.0.get(2) }
    }
}

/// Black: all channels zero.
impl core::default::Default for Color {
    fn default() -> (c: Color)
        ensures
            c@ == seq![0i64, 0i64, 0i64],
    {
        Color::new(0, 0, 0)
    }
}

/// Componentwise color addition.
impl core::ops::Add<Color> for Color {
    type Output = Color;

    fn add(self, rhs: Color) -> (r: Color)
        ensures
            r@ == seq_add(self@, rhs@),
    {
        let r = Color(self.0 + rhs.0);
        proof {
            Color::lemma_of_seq(r);
        }
        r
    }
}

impl vstd::std_specs::ops::AddSpecImpl<Color> for Color {
    open spec fn obeys_add_spec() -> bool {
        true
    }

    open spec fn add_req(self, rhs: Color) -> bool {
        add_in_range(self@, rhs@)
    }

    open spec fn add_spec(self, rhs: Color) -> Color {
        Color::of_seq(seq_add(self@, rhs@))
    }
}

/// Componentwise color subtraction.
impl core::ops::Sub<Color> for Color {
    type Output = Color;

    fn sub(self, rhs: Color) -> (r: Color)
        ensures
            r@ == seq_sub(self@, rhs@),
    {
        let r = Color(self.0 - rhs.0);
        proof {
            Color::lemma_of_seq(r);
        }
        r
    }
}

impl vstd::std_specs::ops::SubSpecImpl<Color> for Color {
    open spec fn obeys_sub_spec() -> bool {
        true
    }

    open spec fn sub_req(self, rhs: Color) -> bool {
        sub_in_range(self@, rhs@)
    }

    open spec fn sub_spec(self, rhs: Color) -> Color {
        Color::of_seq(seq_sub(self@, rhs@))
    }
}

/// Scalar multiplication: `color * scalar`.
impl core::ops::Mul<i64> for Color {
    type Output = Color;

    fn mul(self, rhs: i64) -> (r: Color)
        ensures
            r@ == seq_scale(self@, rhs),
    {
        let r = Color(self.0 * rhs);
        proof {
            Color::lemma_of_seq(r);
        }
        r
    }
}

impl vstd::std_specs::ops::MulSpecImpl<i64> for Color {
    open spec fn obeys_mul_spec() -> bool {
        true
    }

    open spec fn mul_req(self, rhs: i64) -> bool {
        scale_in_range(self@, rhs)
    }

    open spec fn mul_spec(self, rhs: i64) -> Color {
        Color::of_seq(seq_scale(self@, rhs))
    }
}

/// Hadamard product: `color * color`, channel by channel.
impl core::ops::Mul<Color> for Color {
    type Output = Color;

    fn mul(self, rhs: Color) -> (r: Color)
        ensures
            r@ == seq_hadamard(self@, rhs@),
    {
        let r = Color::new(
            self.0.get(0) * rhs.0.get(0),
            self.0.get(1) * rhs.0.get(1),
            self.0.get(2) * rhs.0.get(2),
        );
        proof {
            assert(r@ =~= seq_hadamard(self@, rhs@));
            Color::lemma_of_seq(r);
        }
        r
    }
}

impl vstd::std_specs::ops::MulSpecImpl<Color> for Color {
    open spec fn obeys_mul_spec() -> bool {
        true
    }

    open spec fn mul_req(self, rhs: Color) -> bool {
        hadamard_in_range(self@, rhs@)
    }

    open spec fn mul_spec(self, rhs: Color) -> Color {
        Color::of_seq(seq_hadamard(self@, rhs@))
    }
}

/// Scalar division: `color / scalar`, truncating toward zero.
impl core::ops::Div<i64> for Color {
    type Output = Color;

    fn div(self, rhs: i64) -> (r: Color)
        ensures
            r@ == seq_div(self@, rhs),
    {
        let r = Color(self.0 / rhs);
        proof {
            Color::lemma_of_seq(r);
        }
        r
    }
}

impl vstd::std_specs::ops::DivSpecImpl<i64> for Color {
    open spec fn obeys_div_spec() -> bool {
        true
    }

    open spec fn div_req(self, rhs: i64) -> bool {
        div_in_range(self@, rhs)
    }

    open spec fn div_spec(self, rhs: i64) -> Color {
        Color::of_seq(seq_div(self@, rhs))
    }
}

} // verus!
