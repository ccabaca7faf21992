//! `Point`: an `N`-slot tuple tagged as a homogeneous position. The
//! canonical constructors and point/vector arithmetic keep the trailing
//! (homogeneous) slot at `1`.

use vstd::prelude::*;

use crate::linalg::tuple::HasW;
use crate::linalg::tuple::HasX;
use crate::linalg::tuple::HasY;
use crate::linalg::tuple::HasZ;
use crate::linalg::tuple::Tuple;
use crate::linalg::tuple::View4;
use crate::linalg::tuple::add_in_range;
use crate::linalg::tuple::div_trunc;
use crate::linalg::tuple::seq_add;
use crate::linalg::tuple::seq_sub;
use crate::linalg::tuple::sub_in_range;
use crate::linalg::vector::Vector;

verus! {

broadcast use crate::linalg::tuple::lemma_tuple_len;

/// The slots of the origin in `n`-slot homogeneous coordinates: all spatial
/// slots `0` and the trailing homogeneous slot `1`.
pub open spec fn origin_seq(n: nat) -> Seq<i64> {
    Seq::new(n, |i: int| if i == n - 1 { 1i64 } else { 0i64 })
}

/// A point in `N`-dimensional space. Its view is the sequence of its slots.
#[derive(PartialEq, Eq, Debug, Clone, Copy, Hash)]
pub struct Point<const N: usize>(pub(crate) Tuple<N>);

/// In the context of this library we mostly deal with 3-dimensional space:
/// a point in 3-dimensional space with a homogeneous coordinate.
pub type Point3 = Point<4>;

impl<const N: usize> View for Point<N> {
    type V = Seq<i64>;

    closed spec fn view(&self) -> Seq<i64> {
        self.0@
    }
}

/// Within the crate: a point's view is its underlying tuple's view.
pub(crate) broadcast proof fn lemma_point_view<const N: usize>(p: Point<N>)
    ensures
        #[trigger] p@ == p.0@,
{
}

impl<const N: usize> Point<N> {
    /// The point whose slots are exactly `s` (meaningful when `s` has
    /// length `N`).
    pub closed spec fn of_seq(s: Seq<i64>) -> Point<N> {
        choose|p: Point<N>| p@ == s
    }

    /// `of_seq` applied to a point's view gives that point back.
    pub proof fn lemma_of_seq(p: Point<N>)
        ensures
            Point::<N>::of_seq(p@) == p,
    {
        assert(exists|u: Point<N>| u@ == p@) by {
            assert(p@ == p@);
        }
        let u = Point::<N>::of_seq(p@);
        Tuple::lemma_view_injective(u.0, p.0);
    }

    /// Running componentwise sum, over the unbounded integers, of the
    /// origin-relative displacements of the first `k` points, at slot `c`.
    pub open spec fn centroid_sum(points: Seq<Point<N>>, c: int, k: int) -> int
        decreases k,
    {
        if k <= 0 {
            0
        } else {
            Point::centroid_sum(points, c, k - 1) + (points[k - 1]@[c] - origin_seq(N as nat)[c])
        }
    }

    /// The origin: all spatial slots `0` and the homogeneous slot `1`.
    pub fn origin() -> (r: Point<N>)
        ensures
            r@ == origin_seq(N as nat),
    {
        Point::default()
    }

    /// Converts this point into a vector by subtracting the origin: the
    /// spatial slots are kept and the homogeneous slot drops from `1` to
    /// `0` (for a canonical point).
    pub fn to_vec(self) -> (r: Vector<N>)
        requires
            sub_in_range(self@, origin_seq(N as nat)),
        ensures
            r@ == seq_sub(self@, origin_seq(N as nat)),
    {
        self - Point::origin()
    }

    /// The centroid of a sequence of points: the componentwise mean (under
    /// the scalar's truncating division) of their origin-relative
    /// displacements, converted back to a point. An empty sequence has no
    /// centroid.
    pub fn centroid(points: &Vec<Point<N>>) -> (r: Option<Point<N>>)
        requires
            N >= 1,
            points@.len() <= i64::MAX,
            forall|j: int| #![trigger points@[j]]
                0 <= j < points@.len() ==> sub_in_range(points@[j]@, origin_seq(N as nat)),
            forall|c: int, k: int| #![trigger Point::centroid_sum(points@, c, k)]
                0 <= c < N && 0 <= k <= points@.len()
                    ==> i64::MIN <= Point::centroid_sum(points@, c, k) <= i64::MAX,
        ensures
            r is Some <==> points@.len() > 0,
            r matches Some(p) ==> {
                &&& p@.len() == N
                &&& forall|c: int| 0 <= c < N - 1 ==> p@[c] == div_trunc(
                    Point::centroid_sum(points@, c, points@.len() as int),
                    points@.len() as int,
                )
                &&& p@[N - 1] == 1
            },
    {
        if points.len() == 0 {
            return None;
        }
        let ghost n = points@.len() as int;
        let mut total: Vector<N> = points[0].to_vec();
        proof {
            assert forall|c: int| 0 <= c < N implies total@[c] == Point::centroid_sum(
                points@,
                c,
                1,
            ) by {
                assert(Point::centroid_sum(points@, c, 0) == 0);
            }
        }
        let mut count: i64 = 1;
        let mut i: usize = 1;
        while i < points.len()
            invariant
                1 <= i <= points@.len(),
                points@.len() <= i64::MAX,
                count == i,
                total@.len() == N,
                forall|c: int| 0 <= c < N ==> total@[c] == Point::centroid_sum(points@, c, i as int),
                forall|j: int| #![trigger points@[j]]
                    0 <= j < points@.len() ==> sub_in_range(points@[j]@, origin_seq(N as nat)),
                forall|c: int, k: int| #![trigger Point::centroid_sum(points@, c, k)]
                    0 <= c < N && 0 <= k <= points@.len()
                        ==> i64::MIN <= Point::centroid_sum(points@, c, k) <= i64::MAX,
            decreases points@.len() - i,
        {
            let d = points[i].to_vec();
            proof {
                assert forall|c: int| 0 <= c < N implies i64::MIN <= total@[c] + d@[c]
                    <= i64::MAX && total@[c] + d@[c] == Point::centroid_sum(
                    points@,
                    c,
                    i + 1,
                ) by {
                    assert(Point::centroid_sum(points@, c, i + 1) == Point::centroid_sum(
                        points@,
                        c,
                        i as int,
                    ) + (points@[i as int]@[c] - origin_seq(N as nat)[c]));
                }
                assert(add_in_range(total@, d@));
            }
            total = total + d;
            count = count + 1;
            i = i + 1;
        }
        proof {
            Self::lemma_div_trunc_in_range(total@, n);
        }
        let avg = total / count;
        Some(avg.to_point())
    }

    /// Dividing a slot by a positive count keeps it in range.
    proof fn lemma_div_trunc_in_range(a: Seq<i64>, n: int)
        requires
            n >= 1,
        ensures
            forall|c: int| #![trigger a[c]]
                0 <= c < a.len() ==> i64::MIN <= div_trunc(a[c] as int, n) <= i64::MAX,
    {
        assert forall|c: int| 0 <= c < a.len() implies i64::MIN <= div_trunc(
            #[trigger] a[c] as int,
            n,
        ) <= i64::MAX by {
            let x = a[c] as int;
            if x >= 0 {
                assert(0 <= x / n <= x) by (nonlinear_arith)
                    requires
                        x >= 0,
                        n >= 1,
                ;
            } else {
                assert(0 <= (-x) / n <= -x) by (nonlinear_arith)
                    requires
                        x < 0,
                        n >= 1,
                ;
            }
        }
    }
}

impl Point<4> {
    /// Returns a 3-dimensional point in homogeneous coordinates: the given
    /// spatial slots, with the homogeneous slot `1`.
    pub fn new(x: i64, y: i64, z: i64) -> (r: Point<4>)
        ensures
            r@ == seq![x, y, z, 1i64],
    {
        let r = Point(Tuple::from_array([x, y, z, 1]));
        proof {
            assert(r@ =~= seq![x, y, z, 1i64]);
        }
        r
    }
}

/// The origin.
impl<const N: usize> core::default::Default for Point<N> {
    fn default() -> (r: Point<N>)
        ensures
            r@ == origin_seq(N as nat),
    {
        let mut t = Tuple::from_array([0i64; N]);
        if N >= 1 {
            t.set(N - 1, 1);
        }
        let r = Point(t);
        proof {
            assert(r@ =~= origin_seq(N as nat));
        }
        r
    }
}

/// Translation: `point + vector` is the translated point.
impl<const N: usize> core::ops::Add<Vector<N>> for Point<N> {
    type Output = Point<N>;

    fn add(self, rhs: Vector<N>) -> (r: Point<N>)
        ensures
            r@ == seq_add(self@, rhs@),
    {
        // Semantically equivalent to adding the underlying tuples.
        proof {
            crate::linalg::vector::lemma_vector_view(rhs);
        }
        let Point(tp) = self;
        let Vector::<N>(tv) = rhs;
        let r = Point(tp + tv);
        proof {
            Point::<N>::lemma_of_seq(r);
        }
        r
    }
}

impl<const N: usize> vstd::std_specs::ops::AddSpecImpl<Vector<N>> for Point<N> {
    open spec fn obeys_add_spec() -> bool {
        true
    }

    open spec fn add_req(self, rhs: Vector<N>) -> bool {
        add_in_range(self@, rhs@)
    }

    open spec fn add_spec(self, rhs: Vector<N>) -> Point<N> {
        Point::of_seq(seq_add(self@, rhs@))
    }
}

/// Displacement: `point - point` is the vector from the second point to the
/// first. For canonical points the homogeneous slots cancel to `0`, as
/// [`lemma_point_difference_is_vector`] states.
impl<const N: usize> core::ops::Sub<Point<N>> for Point<N> {
    type Output = Vector<N>;

    fn sub(self, rhs: Point<N>) -> (r: Vector<N>)
        ensures
            r@ == seq_sub(self@, rhs@),
    {
        let Point(tp1) = self;
        let Point(tp2) = rhs;
        let r = Vector(tp1 - tp2);
        proof {
            crate::linalg::vector::lemma_vector_view(r);
            Vector::<N>::lemma_of_seq(r);
        }
        r
    }
}

impl<const N: usize> vstd::std_specs::ops::SubSpecImpl<Point<N>> for Point<N> {
    open spec fn obeys_sub_spec() -> bool {
        true
    }

    open spec fn sub_req(self, rhs: Point<N>) -> bool {
        sub_in_range(self@, rhs@)
    }

    open spec fn sub_spec(self, rhs: Point<N>) -> Vector<N> {
        Vector::of_seq(seq_sub(self@, rhs@))
    }
}

/// Translation: `point - vector` is the translated point.
impl<const N: usize> core::ops::Sub<Vector<N>> for Point<N> {
    type Output = Point<N>;

    fn sub(self, rhs: Vector<N>) -> (r: Point<N>)
        ensures
            r@ == seq_sub(self@, rhs@),
    {
        proof {
            crate::linalg::vector::lemma_vector_view(rhs);
        }
        let Point(tp) = self;
        let Vector::<N>(tv) = rhs;
        let r = Point(tp - tv);
        proof {
            Point::<N>::lemma_of_seq(r);
        }
        r
    }
}

impl<const N: usize> vstd::std_specs::ops::SubSpecImpl<Vector<N>> for Point<N> {
    open spec fn obeys_sub_spec() -> bool {
        true
    }

    open spec fn sub_req(self, rhs: Vector<N>) -> bool {
        sub_in_range(self@, rhs@)
    }

    open spec fn sub_spec(self, rhs: Vector<N>) -> Point<N> {
        Point::of_seq(seq_sub(self@, rhs@))
    }
}

/// Construction from an array of `N` slots, taken as they are.
impl<const N: usize> core::convert::From<[i64; N]> for Point<N> {
    fn from(src: [i64; N]) -> (r: Point<N>)
        ensures
            r@ == src@,
    {
        let r = Point(Tuple::from_array(src));
        proof {
            Point::<N>::lemma_of_seq(r);
        }
        r
    }
}

impl<const N: usize> vstd::std_specs::convert::FromSpecImpl<[i64; N]> for Point<N> {
    open spec fn obeys_from_spec() -> bool {
        true
    }

    open spec fn from_spec(src: [i64; N]) -> Point<N> {
        Point::of_seq(src@)
    }
}

/// Construction of a homogeneous 3-D point from its three spatial slots.
impl core::convert::From<[i64; 3]> for Point<4> {
    fn from(src: [i64; 3]) -> (r: Point<4>)
        ensures
            r@ == seq![src@[0], src@[1], src@[2], 1i64],
    {
        let r = Point::new(src[0], src[1], src[2]);
        proof {
            Point::<4>::lemma_of_seq(r);
        }
        r
    }
}

impl vstd::std_specs::convert::FromSpecImpl<[i64; 3]> for Point<4> {
    open spec fn obeys_from_spec() -> bool {
        true
    }

    open spec fn from_spec(src: [i64; 3]) -> Point<4> {
        Point::of_seq(seq![src@[0], src@[1], src@[2], 1i64])
    }
}

impl HasX for Point<4> {
    fn x(&self) -> (r: i64)
        ensures
            r == self@[0],
    {
        self.0.x()
    }

    fn set_x(&mut self, v: i64)
        ensures
            final(self)@ == old(self)@.update(0, v),
    {
        self.0.set_x(v);
    }
}

impl HasY for Point<4> {
    fn y(&self) -> (r: i64)
        ensures
            r == self@[1],
    {
        self.0.y()
    }

    fn set_y(&mut self, v: i64)
        ensures
            final(self)@ == old(self)@.update(1, v),
    {
        self.0.set_y(v);
    }
}

impl HasZ for Point<4> {
    fn z(&self) -> (r: i64)
        ensures
            r == self@[2],
    {
        self.0.z()
    }

    fn set_z(&mut self, v: i64)
        ensures
            final(self)@ == old(self)@.update(2, v),
    {
        self.0.set_z(v);
    }
}

impl HasW for Point<4> {
    fn w(&self) -> (r: i64)
        ensures
            r == self@[3],
    {
        self.0.w()
    }

    fn set_w(&mut self, v: i64)
        ensures
            final(self)@ == old(self)@.update(3, v),
    {
        self.0.set_w(v);
    }
}

impl Point<4> {
    /// The named-field reading of this point's four slots; it forwards to
    /// the same storage as the indexed reading.
    pub fn view4(&self) -> (r: View4)
        ensures
            r.x == self@[0],
            r.y == self@[1],
            r.z == self@[2],
            r.w == self@[3],
    {
        self.0.view4()
    }
}

/// The difference of two canonical points (homogeneous slot `1`) is a
/// canonical vector: its homogeneous slot is `0`.
pub proof fn lemma_point_difference_is_vector(p: Seq<i64>, q: Seq<i64>)
    requires
        p.len() == q.len(),
        p.len() >= 1,
        p[p.len() - 1] == 1,
        q[q.len() - 1] == 1,
    ensures
        seq_sub(p, q)[p.len() - 1] == 0,
{
}

/// Translating a canonical point (homogeneous slot `1`) by a canonical
/// vector (homogeneous slot `0`) gives a canonical point: its homogeneous
/// slot is `1`.
pub proof fn lemma_translation_is_point(p: Seq<i64>, v: Seq<i64>)
    requires
        p.len() == v.len(),
        p.len() >= 1,
        p[p.len() - 1] == 1,
        v[v.len() - 1] == 0,
    ensures
        seq_add(p, v)[p.len() - 1] == 1,
        seq_sub(p, v)[p.len() - 1] == 1,
{
}

/// Translating a point by a vector and translating back is the identity:
/// `(p + v) - v == p` and `(p - v) + v == p`. Over the integer scalars the
/// identity is exact. The ranging clauses say that the inverse translation
/// can never overflow.
pub proof fn lemma_translation_cancels(p: Seq<i64>, v: Seq<i64>)
    requires
        p.len() == v.len(),
    ensures
        add_in_range(p, v) ==> sub_in_range(seq_add(p, v), v),
        add_in_range(p, v) ==> seq_sub(seq_add(p, v), v) == p,
        sub_in_range(p, v) ==> add_in_range(seq_sub(p, v), v),
        sub_in_range(p, v) ==> seq_add(seq_sub(p, v), v) == p,
{
    if add_in_range(p, v) {
        assert(seq_sub(seq_add(p, v), v) =~= p);
    }
    if sub_in_range(p, v) {
        assert(seq_add(seq_sub(p, v), v) =~= p);
    }
}

} // verus!
