//! `Vector`: an `N`-slot tuple tagged as a homogeneous displacement. The
//! canonical constructors and the vector arithmetic keep the trailing
//! (homogeneous) slot at `0`.

use vstd::prelude::*;

use crate::linalg::point::Point;
use crate::linalg::tuple::HasW;
use crate::linalg::tuple::HasX;
use crate::linalg::tuple::HasY;
use crate::linalg::tuple::HasZ;
use crate::linalg::tuple::Tuple;
use crate::linalg::tuple::View4;
use crate::linalg::tuple::add_in_range;
use crate::linalg::tuple::div_in_range;
use crate::linalg::tuple::neg_in_range;
use crate::linalg::tuple::scale_in_range;
use crate::linalg::tuple::seq_add;
use crate::linalg::tuple::seq_div;
use crate::linalg::tuple::seq_neg;
use crate::linalg::tuple::seq_scale;
use crate::linalg::tuple::seq_sub;
use crate::linalg::tuple::sub_in_range;

verus! {

broadcast use crate::linalg::tuple::lemma_tuple_len;

/// Sum of the pairwise products of the first `k` slots of `a` and `b`,
/// over the unbounded integers.
pub open spec fn dot_prefix(a: Seq<i64>, b: Seq<i64>, k: int) -> int
    decreases k,
{
    if k <= 0 {
        0
    } else {
        dot_prefix(a, b, k - 1) + a[k - 1] * b[k - 1]
    }
}

/// Every pairwise product of slots, and every prefix of their running sum,
/// fits in the scalar type.
pub open spec fn dot_in_range(a: Seq<i64>, b: Seq<i64>) -> bool {
    &&& forall|k: int| #![trigger a[k]]
        0 <= k < a.len() ==> i64::MIN <= a[k] * b[k] <= i64::MAX
    &&& forall|k: int| #![trigger dot_prefix(a, b, k)]
        0 <= k <= a.len() ==> i64::MIN <= dot_prefix(a, b, k) <= i64::MAX
}

/// Sum of the squares of the first `k` slots of `a`, over the unbounded
/// integers.
pub open spec fn sum_squares(a: Seq<i64>, k: int) -> int
    decreases k,
{
    if k <= 0 {
        0
    } else {
        sum_squares(a, k - 1) + a[k - 1] * a[k - 1]
    }
}

/// The standard 3-D cross product of the first three slots, with the
/// homogeneous slot forced to `0`.
pub open spec fn cross_seq(a: Seq<i64>, b: Seq<i64>) -> Seq<i64> {
    seq![
        (a[1] * b[2] - a[2] * b[1]) as i64,
        (a[2] * b[0] - a[0] * b[2]) as i64,
        (a[0] * b[1] - a[1] * b[0]) as i64,
        0i64,
    ]
}

/// Every product and every difference in the cross product of `a` and `b`
/// fits in the scalar type.
pub open spec fn cross_in_range(a: Seq<i64>, b: Seq<i64>) -> bool {
    &&& i64::MIN <= a[1] * b[2] <= i64::MAX
    &&& i64::MIN <= a[2] * b[1] <= i64::MAX
    &&& i64::MIN <= a[2] * b[0] <= i64::MAX
    &&& i64::MIN <= a[0] * b[2] <= i64::MAX
    &&& i64::MIN <= a[0] * b[1] <= i64::MAX
    &&& i64::MIN <= a[1] * b[0] <= i64::MAX
    &&& i64::MIN <= a[1] * b[2] - a[2] * b[1] <= i64::MAX
    &&& i64::MIN <= a[2] * b[0] - a[0] * b[2] <= i64::MAX
    &&& i64::MIN <= a[0] * b[1] - a[1] * b[0] <= i64::MAX
}

/// An `N`-dimensional vector representing displacement. Its view is the
/// sequence of its slots.
#[derive(PartialEq, Eq, Debug, Clone, Copy, Hash)]
pub struct Vector<const N: usize>(pub(crate) Tuple<N>);

/// In the context of this library we mostly deal with 3-dimensional space:
/// a vector in 3-dimensional space with a homogeneous coordinate.
pub type Vector3 = Vector<4>;

impl<const N: usize> View for Vector<N> {
    type V = Seq<i64>;

    closed spec fn view(&self) -> Seq<i64> {
        self.0@
    }
}

/// Within the crate: a vector's view is its underlying tuple's view.
pub(crate) broadcast proof fn lemma_vector_view<const N: usize>(v: Vector<N>)
    ensures
        #[trigger] v@ == v.0@,
{
}

impl<const N: usize> Vector<N> {
    /// The vector whose slots are exactly `s` (meaningful when `s` has
    /// length `N`).
    pub closed spec fn of_seq(s: Seq<i64>) -> Vector<N> {
        choose|v: Vector<N>| v@ == s
    }

    /// `of_seq` applied to a vector's view gives that vector back.
    pub proof fn lemma_of_seq(v: Vector<N>)
        ensures
            Vector::<N>::of_seq(v@) == v,
    {
        assert(exists|u: Vector<N>| u@ == v@) by {
            assert(v@ == v@);
        }
        let u = Vector::<N>::of_seq(v@);
        Tuple::lemma_view_injective(u.0, v.0);
    }

    /// Returns the vector with all slots zero.
    pub fn zero() -> (r: Vector<N>)
        ensures
            r@.len() == N,
            forall|k: int| 0 <= k < N ==> r@[k] == 0,
    {
        Vector(Tuple::from_array([0i64; N]))
    }

    /// Converts this vector into a point without changing the spatial
    /// slots. The last slot is set to `1`, as a point being a homogeneous
    /// coordinate requires.
    pub fn to_point(self) -> (r: Point<N>)
        requires
            N >= 1,
        ensures
            r@ == self@.update(N - 1, 1i64),
    {
        let mut t = self.0;
        t.set(N - 1, 1);
        let r = Point(t);
        proof {
            crate::linalg::point::lemma_point_view(r);
        }
        r
    }

    /// Returns the *squared* length of this vector: the sum of the squares
    /// of all slots (for a canonical vector the homogeneous slot is `0`, so
    /// only the spatial slots contribute).
    pub fn length2(&self) -> (r: i64)
        requires
            sum_squares(self@, N as int) <= i64::MAX,
        ensures
            r == sum_squares(self@, N as int),
    {
        proof {
            Self::lemma_sum_squares_bounds(self@, N as int);
        }
        let mut sum: i64 = 0;
        let mut i: usize = 0;
        while i < N
            invariant
                i <= N,
                self@.len() == N,
                sum == sum_squares(self@, i as int),
                sum_squares(self@, N as int) <= i64::MAX,
                forall|k: int| #![trigger sum_squares(self@, k)]
                    0 <= k <= N ==> 0 <= sum_squares(self@, k) <= sum_squares(self@, N as int),
            decreases N - i,
        {
            let c = self.0.get(i);
            assert(sum_squares(self@, i + 1) == sum_squares(self@, i as int) + c * c);
            sum = sum + c * c;
            i = i + 1;
        }
        sum
    }

    /// Every prefix of the running sum of squares is nonnegative and at
    /// most the full sum.
    proof fn lemma_sum_squares_bounds(a: Seq<i64>, n: int)
        ensures
            forall|k: int| #![trigger sum_squares(a, k)]
                0 <= k <= n ==> 0 <= sum_squares(a, k) <= sum_squares(a, n),
        decreases n,
    {
        if n > 0 {
            Self::lemma_sum_squares_bounds(a, n - 1);
            assert(a[n - 1] * a[n - 1] >= 0) by (nonlinear_arith);
            assert(sum_squares(a, n) == sum_squares(a, n - 1) + a[n - 1] * a[n - 1]);
            assert forall|k: int| 0 <= k <= n implies 0 <= #[trigger] sum_squares(a, k)
                <= sum_squares(a, n) by {
                if k <= n - 1 {
                    assert(0 <= sum_squares(a, k) <= sum_squares(a, n - 1));
                }
            }
        }
    }

    /// Returns the dot product of this vector and another: the sum of the
    /// pairwise products over all slots.
    pub fn dot(&self, rhs: &Vector<N>) -> (r: i64)
        requires
            dot_in_range(self@, rhs@),
        ensures
            r == dot_prefix(self@, rhs@, N as int),
    {
        let mut prod: i64 = 0;
        let mut i: usize = 0;
        while i < N
            invariant
                i <= N,
                self@.len() == N,
                rhs@.len() == N,
                prod == dot_prefix(self@, rhs@, i as int),
                dot_in_range(self@, rhs@),
            decreases N - i,
        {
            let c = self.0.get(i) * rhs.0.get(i);
            assert(dot_prefix(self@, rhs@, i + 1) == dot_prefix(self@, rhs@, i as int) + c);
            prod = prod + c;
            i = i + 1;
        }
        prod
    }

    /// Applies the given function to every slot of the vector.
    pub fn map<F: Fn(i64) -> i64>(self, f: F) -> (r: Vector<N>)
        requires
            forall|k: int| 0 <= k < N ==> call_requires(f, (self@[k],)),
        ensures
            r@.len() == N,
            forall|k: int| 0 <= k < N ==> call_ensures(f, (self@[k],), #[trigger] r@[k]),
    {
        let mut out = self;
        let mut i: usize = 0;
        while i < N
            invariant
                i <= N,
                out@.len() == N,
                self@.len() == N,
                forall|k: int| 0 <= k < N ==> call_requires(f, (self@[k],)),
                forall|k: int| 0 <= k < i ==> call_ensures(f, (self@[k],), #[trigger] out@[k]),
            decreases N - i,
        {
            let v = f(self.0.get(i));
            out.0.set(i, v);
            i = i + 1;
        }
        out
    }

    /// Zips another vector with this one and applies the given function
    /// slot by slot.
    pub fn zip_map<F: Fn(i64, i64) -> i64>(self, other: Vector<N>, f: F) -> (r: Vector<N>)
        requires
            forall|k: int| 0 <= k < N ==> call_requires(f, (self@[k], other@[k])),
        ensures
            r@.len() == N,
            forall|k: int| 0 <= k < N ==> call_ensures(f, (self@[k], other@[k]), #[trigger] r@[k]),
    {
        let mut out = self;
        let mut i: usize = 0;
        while i < N
            invariant
                i <= N,
                out@.len() == N,
                self@.len() == N,
                other@.len() == N,
                forall|k: int| 0 <= k < N ==> call_requires(f, (self@[k], other@[k])),
                forall|k: int| 0 <= k < i ==> call_ensures(f, (self@[k], other@[k]), #[trigger] out@[k]),
            decreases N - i,
        {
            let v = f(self.0.get(i), other.0.get(i));
            out.0.set(i, v);
            i = i + 1;
        }
        out
    }
}

impl Vector<4> {
    /// Returns a 3-dimensional vector in homogeneous coordinates: the given
    /// spatial slots, with the homogeneous slot `0`.
    pub fn new(x: i64, y: i64, z: i64) -> (r: Vector<4>)
        ensures
            r@ == seq![x, y, z, 0i64],
    {
        let r = Vector(Tuple::from_array([x, y, z, 0]));
        proof {
            assert(r@ =~= seq![x, y, z, 0i64]);
        }
        r
    }

    /// The standard 3-D cross product on the spatial slots; the homogeneous
    /// slot of the result is `0`. Anticommutative: see
    /// [`lemma_cross_anticommutative`].
    pub fn cross(&self, rhs: &Vector<4>) -> (r: Vector<4>)
        requires
            cross_in_range(self@, rhs@),
        ensures
            r@ == cross_seq(self@, rhs@),
    {
        let a = &self.0;
        let b = &rhs.0;
        let r = Vector(Tuple::from_array([
            a.get(1) * b.get(2) - a.get(2) * b.get(1),
            a.get(2) * b.get(0) - a.get(0) * b.get(2),
            a.get(0) * b.get(1) - a.get(1) * b.get(0),
            0,
        ]));
        proof {
            assert(r@ =~= cross_seq(self@, rhs@));
        }
        r
    }

    /// Returns a unit vector in `x` direction.
    pub fn unit_x() -> (r: Vector<4>)
        ensures
            r@ == seq![1i64, 0i64, 0i64, 0i64],
    {
        let mut x = Vector::<4>::zero();
        x.set_x(1);
        proof {
            assert(x@ =~= seq![1i64, 0i64, 0i64, 0i64]);
        }
        x
    }

    /// Returns a unit vector in `y` direction.
    pub fn unit_y() -> (r: Vector<4>)
        ensures
            r@ == seq![0i64, 1i64, 0i64, 0i64],
    {
        let mut y = Vector::<4>::zero();
        y.set_y(1);
        proof {
            assert(y@ =~= seq![0i64, 1i64, 0i64, 0i64]);
        }
        y
    }

    /// Returns a unit vector in `z` direction.
    pub fn unit_z() -> (r: Vector<4>)
        ensures
            r@ == seq![0i64, 0i64, 1i64, 0i64],
    {
        let mut z = Vector::<4>::zero();
        z.set_z(1);
        proof {
            assert(z@ =~= seq![0i64, 0i64, 1i64, 0i64]);
        }
        z
    }
}

/// The running dot-product sums of 4-slot vectors, written out, so that a
/// caller can discharge [`dot_in_range`] from facts about the slots.
pub proof fn lemma_dot_prefix_4(a: Seq<i64>, b: Seq<i64>)
    ensures
        dot_prefix(a, b, 0) == 0,
        dot_prefix(a, b, 1) == a[0] * b[0],
        dot_prefix(a, b, 2) == a[0] * b[0] + a[1] * b[1],
        dot_prefix(a, b, 3) == a[0] * b[0] + a[1] * b[1] + a[2] * b[2],
        dot_prefix(a, b, 4) == a[0] * b[0] + a[1] * b[1] + a[2] * b[2] + a[3] * b[3],
{
    assert(dot_prefix(a, b, 1) == dot_prefix(a, b, 0) + a[0] * b[0]);
    assert(dot_prefix(a, b, 2) == dot_prefix(a, b, 1) + a[1] * b[1]);
    assert(dot_prefix(a, b, 3) == dot_prefix(a, b, 2) + a[2] * b[2]);
    assert(dot_prefix(a, b, 4) == dot_prefix(a, b, 3) + a[3] * b[3]);
}

/// The sum of squares of a 4-slot vector, written out, so that a caller
/// can discharge the bound that [`Vector::length2`] asks for from facts
/// about the slots.
pub proof fn lemma_sum_squares_4(a: Seq<i64>)
    ensures
        sum_squares(a, 4) == a[0] * a[0] + a[1] * a[1] + a[2] * a[2] + a[3] * a[3],
{
    assert(sum_squares(a, 0) == 0);
    assert(sum_squares(a, 1) == sum_squares(a, 0) + a[0] * a[0]);
    assert(sum_squares(a, 2) == sum_squares(a, 1) + a[1] * a[1]);
    assert(sum_squares(a, 3) == sum_squares(a, 2) + a[2] * a[2]);
    assert(sum_squares(a, 4) == sum_squares(a, 3) + a[3] * a[3]);
}

/// The dot product is symmetric in its two operands, prefix by prefix:
/// `v.dot(w) == w.dot(v)`.
pub proof fn lemma_dot_commutative(a: Seq<i64>, b: Seq<i64>, k: int)
    ensures
        dot_prefix(a, b, k) == dot_prefix(b, a, k),
    decreases k,
{
    if k > 0 {
        lemma_dot_commutative(a, b, k - 1);
    }
}

/// The cross product is anticommutative: swapping its operands negates
/// every slot of the result, so `v.cross(w) == -(w.cross(v))`.
pub proof fn lemma_cross_anticommutative(a: Seq<i64>, b: Seq<i64>)
    requires
        cross_in_range(a, b),
        cross_in_range(b, a),
    ensures
        cross_seq(a, b) == seq_neg(cross_seq(b, a)),
{
    assert(cross_seq(a, b) =~= seq_neg(cross_seq(b, a)));
}

/// The zero vector.
impl<const N: usize> core::default::Default for Vector<N> {
    fn default() -> (r: Vector<N>)
        ensures
            r@.len() == N,
            forall|k: int| 0 <= k < N ==> r@[k] == 0,
    {
        Vector::zero()
    }
}

/// Component-wise vector addition.
impl<const N: usize> core::ops::Add<Vector<N>> for Vector<N> {
    type Output = Vector<N>;

    fn add(self, rhs: Vector<N>) -> (r: Vector<N>)
        ensures
            r@ == seq_add(self@, rhs@),
    {
        let r = Vector(self.0 + rhs.0);
        proof {
            Vector::<N>::lemma_of_seq(r);
        }
        r
    }
}

impl<const N: usize> vstd::std_specs::ops::AddSpecImpl<Vector<N>> for Vector<N> {
    open spec fn obeys_add_spec() -> bool {
        true
    }

    open spec fn add_req(self, rhs: Vector<N>) -> bool {
        add_in_range(self@, rhs@)
    }

    open spec fn add_spec(self, rhs: Vector<N>) -> Vector<N> {
        Vector::of_seq(seq_add(self@, rhs@))
    }
}

/// Component-wise vector subtraction.
impl<const N: usize> core::ops::Sub<Vector<N>> for Vector<N> {
    type Output = Vector<N>;

    fn sub(self, rhs: Vector<N>) -> (r: Vector<N>)
        ensures
            r@ == seq_sub(self@, rhs@),
    {
        let r = Vector(self.0 - rhs.0);
        proof {
            Vector::<N>::lemma_of_seq(r);
        }
        r
    }
}

impl<const N: usize> vstd::std_specs::ops::SubSpecImpl<Vector<N>> for Vector<N> {
    open spec fn obeys_sub_spec() -> bool {
        true
    }

    open spec fn sub_req(self, rhs: Vector<N>) -> bool {
        sub_in_range(self@, rhs@)
    }

    open spec fn sub_spec(self, rhs: Vector<N>) -> Vector<N> {
        Vector::of_seq(seq_sub(self@, rhs@))
    }
}

/// Component-wise negation.
impl<const N: usize> core::ops::Neg for Vector<N> {
    type Output = Vector<N>;

    fn neg(self) -> (r: Vector<N>)
        ensures
            r@ == seq_neg(self@),
    {
        let r = Vector(core::ops::Neg::neg(self.0));
        proof {
            Vector::<N>::lemma_of_seq(r);
        }
        r
    }
}

impl<const N: usize> vstd::std_specs::ops::NegSpecImpl for Vector<N> {
    open spec fn obeys_neg_spec() -> bool {
        true
    }

    open spec fn neg_req(self) -> bool {
        neg_in_range(self@)
    }

    open spec fn neg_spec(self) -> Vector<N> {
        Vector::of_seq(seq_neg(self@))
    }
}

/// Scalar multiplication: `vector * scalar`.
impl<const N: usize> core::ops::Mul<i64> for Vector<N> {
    type Output = Vector<N>;

    fn mul(self, rhs: i64) -> (r: Vector<N>)
        ensures
            r@ == seq_scale(self@, rhs),
    {
        let r = Vector(self.0 * rhs);
        proof {
            Vector::<N>::lemma_of_seq(r);
        }
        r
    }
}

impl<const N: usize> vstd::std_specs::ops::MulSpecImpl<i64> for Vector<N> {
    open spec fn obeys_mul_spec() -> bool {
        true
    }

    open spec fn mul_req(self, rhs: i64) -> bool {
        scale_in_range(self@, rhs)
    }

    open spec fn mul_spec(self, rhs: i64) -> Vector<N> {
        Vector::of_seq(seq_scale(self@, rhs))
    }
}

/// Scalar division: `vector / scalar`, truncating toward zero.
impl<const N: usize> core::ops::Div<i64> for Vector<N> {
    type Output = Vector<N>;

    fn div(self, rhs: i64) -> (r: Vector<N>)
        ensures
            r@ == seq_div(self@, rhs),
    {
        let r = Vector(self.0 / rhs);
        proof {
            Vector::<N>::lemma_of_seq(r);
        }
        r
    }
}

impl<const N: usize> vstd::std_specs::ops::DivSpecImpl<i64> for Vector<N> {
    open spec fn obeys_div_spec() -> bool {
        true
    }

    open spec fn div_req(self, rhs: i64) -> bool {
        div_in_range(self@, rhs)
    }

    open spec fn div_spec(self, rhs: i64) -> Vector<N> {
        Vector::of_seq(seq_div(self@, rhs))
    }
}

/// Construction from an array of `N` slots, taken as they are.
impl<const N: usize> core::convert::From<[i64; N]> for Vector<N> {
    fn from(src: [i64; N]) -> (r: Vector<N>)
        ensures
            r@ == src@,
    {
        let r = Vector(Tuple::from_array(src));
        proof {
            Vector::<N>::lemma_of_seq(r);
        }
        r
    }
}

impl<const N: usize> vstd::std_specs::convert::FromSpecImpl<[i64; N]> for Vector<N> {
    open spec fn obeys_from_spec() -> bool {
        true
    }

    open spec fn from_spec(src: [i64; N]) -> Vector<N> {
        Vector::of_seq(src@)
    }
}

/// Construction of a homogeneous 3-D vector from its three spatial slots.
impl core::convert::From<[i64; 3]> for Vector<4> {
    fn from(src: [i64; 3]) -> (r: Vector<4>)
        ensures
            r@ == seq![src@[0], src@[1], src@[2], 0i64],
    {
        let r = Vector::new(src[0], src[1], src[2]);
        proof {
            Vector::<4>::lemma_of_seq(r);
        }
        r
    }
}

impl vstd::std_specs::convert::FromSpecImpl<[i64; 3]> for Vector<4> {
    open spec fn obeys_from_spec() -> bool {
        true
    }

    open spec fn from_spec(src: [i64; 3]) -> Vector<4> {
        Vector::of_seq(seq![src@[0], src@[1], src@[2], 0i64])
    }
}

impl HasX for Vector<4> {
    fn x(&self) -> (r: i64)
        ensures
            r == self@[0],
    {
        self.0.x()
    }

    fn set_x(&mut self, v: i64)
        ensures
            final(self)@ == old(self)@.update(0, v),
    {
        self.0.set_x(v);
    }
}

impl HasY for Vector<4> {
    fn y(&self) -> (r: i64)
        ensures
            r == self@[1],
    {
        self.0.y()
    }

    fn set_y(&mut self, v: i64)
        ensures
            final(self)@ == old(self)@.update(1, v),
    {
        self.0.set_y(v);
    }
}

impl HasZ for Vector<4> {
    fn z(&self) -> (r: i64)
        ensures
            r == self@[2],
    {
        self.0.z()
    }

    fn set_z(&mut self, v: i64)
        ensures
            final(self)@ == old(self)@.update(2, v),
    {
        self.0.set_z(v);
    }
}

impl HasW for Vector<4> {
    fn w(&self) -> (r: i64)
        ensures
            r == self@[3],
    {
        self.0.w()
    }

    fn set_w(&mut self, v: i64)
        ensures
            final(self)@ == old(self)@.update(3, v),
    {
        self.0.set_w(v);
    }
}

impl Vector<4> {
    /// The named-field reading of this vector's four slots; it forwards to
    /// the same storage as the indexed reading.
    pub fn view4(&self) -> (r: View4)
        ensures
            r.x == self@[0],
            r.y == self@[1],
            r.z == self@[2],
            r.w == self@[3],
    {
        self.0.view4()
    }
}

} // verus!
