//! `Tuple`, the basic fixed-length aggregate that backs points, vectors and
//! colors, together with the componentwise arithmetic that all of them share.
//!
//! Access by name (`x`, `y`, `z` and `w`) is provided for the 4-slot width
//! through the `Has*` traits and the [`View4`] record; both are thin
//! index-forwarding views of the same slots, so a write through one is
//! visible through the other.

use vstd::prelude::*;

verus! {

broadcast use vstd::array::group_array_axioms;

/// Quotient of `a / b` under the scalar's own division: truncation toward
/// zero, as Rust's integer `/` computes it (`b == 0` is left unspecified).
pub open spec fn div_trunc(a: int, b: int) -> int {
    if a >= 0 && b > 0 {
        a / b
    } else if a < 0 && b < 0 {
        (-a) / (-b)
    } else if a < 0 {
        -((-a) / b)
    } else {
        -(a / (-b))
    }
}

/// Componentwise sum of two equally long slot sequences.
pub open spec fn seq_add(a: Seq<i64>, b: Seq<i64>) -> Seq<i64> {
    Seq::new(a.len(), |i: int| (a[i] + b[i]) as i64)
}

/// Componentwise difference of two equally long slot sequences.
pub open spec fn seq_sub(a: Seq<i64>, b: Seq<i64>) -> Seq<i64> {
    Seq::new(a.len(), |i: int| (a[i] - b[i]) as i64)
}

/// Componentwise negation of a slot sequence.
pub open spec fn seq_neg(a: Seq<i64>) -> Seq<i64> {
    Seq::new(a.len(), |i: int| (-a[i]) as i64)
}

/// Componentwise scaling of a slot sequence by a scalar.
pub open spec fn seq_scale(a: Seq<i64>, k: i64) -> Seq<i64> {
    Seq::new(a.len(), |i: int| (a[i] * k) as i64)
}

/// Componentwise truncating division of a slot sequence by a scalar.
pub open spec fn seq_div(a: Seq<i64>, k: i64) -> Seq<i64> {
    Seq::new(a.len(), |i: int| div_trunc(a[i] as int, k as int) as i64)
}

/// Every componentwise sum fits in the scalar type.
pub open spec fn add_in_range(a: Seq<i64>, b: Seq<i64>) -> bool {
    forall|k: int| #![trigger a[k]] 0 <= k < a.len() ==> i64::MIN <= a[k] + b[k] <= i64::MAX
}

/// Every componentwise difference fits in the scalar type.
pub open spec fn sub_in_range(a: Seq<i64>, b: Seq<i64>) -> bool {
    forall|k: int| #![trigger a[k]] 0 <= k < a.len() ==> i64::MIN <= a[k] - b[k] <= i64::MAX
}

/// Every componentwise negation fits in the scalar type.
pub open spec fn neg_in_range(a: Seq<i64>) -> bool {
    forall|k: int| #![trigger a[k]] 0 <= k < a.len() ==> i64::MIN < a[k]
}

/// Every componentwise product with the scalar fits in the scalar type.
pub open spec fn scale_in_range(a: Seq<i64>, k: i64) -> bool {
    forall|i: int| #![trigger a[i]] 0 <= i < a.len() ==> i64::MIN <= a[i] * k <= i64::MAX
}

/// The divisor is nonzero and every componentwise quotient fits in the
/// scalar type (which only excludes dividing `i64::MIN` by `-1`).
pub open spec fn div_in_range(a: Seq<i64>, k: i64) -> bool {
    &&& k != 0
    &&& forall|i: int| #![trigger a[i]]
        0 <= i < a.len() ==> i64::MIN <= div_trunc(a[i] as int, k as int) <= i64::MAX
}

/// An ordered, fixed-length sequence of `N` scalars: the common storage for
/// vectors, points and colors. Its view is the sequence of its slots.
#[derive(PartialEq, Eq, Debug, Clone, Copy, Hash)]
pub struct Tuple<const N: usize>(pub(crate) [i64; N]);

impl<const N: usize> View for Tuple<N> {
    type V = Seq<i64>;

    closed spec fn view(&self) -> Seq<i64> {
        self.0@
    }
}

/// A tuple's view always has exactly `N` slots.
pub broadcast proof fn lemma_tuple_len<const N: usize>(t: Tuple<N>)
    ensures
        #[trigger] t@.len() == N,
{
}

impl<const N: usize> Tuple<N> {
    /// Two tuples with the same slots are the same tuple.
    pub proof fn lemma_view_injective(a: Tuple<N>, b: Tuple<N>)
        requires
            a@ == b@,
        ensures
            a == b,
    {
        assert(a.0 =~= b.0);
    }

    /// The tuple whose slots are exactly `s` (meaningful when some tuple
    /// with that view exists, that is when `s` has length `N`).
    pub closed spec fn of_seq(s: Seq<i64>) -> Tuple<N> {
        choose|t: Tuple<N>| t@ == s
    }

    /// `of_seq` applied to a tuple's view gives that tuple back.
    pub proof fn lemma_of_seq(t: Tuple<N>)
        ensures
            Tuple::<N>::of_seq(t@) == t,
    {
        assert(exists|u: Tuple<N>| u@ == t@) by {
            assert(t@ == t@);
        }
        let u = Tuple::<N>::of_seq(t@);
        Tuple::lemma_view_injective(u, t);
    }

    /// Construction from an ordered list of `N` scalars.
    pub fn from_array(src: [i64; N]) -> (r: Tuple<N>)
        ensures
            r@ == src@,
    {
        Tuple(src)
    }

    /// Indexed read of the slot at `i` (0-based; `i` must be in range).
    pub fn get(&self, i: usize) -> (r: i64)
        requires
            i < N,
        ensures
            r == self@[i as int],
    {
        self.0[i]
    }

    /// Indexed write of the slot at `i` (0-based; `i` must be in range).
    pub fn set(&mut self, i: usize, v: i64)
        requires
            i < N,
        ensures
            final(self)@ == old(self)@.update(i as int, v),
    {
        self.0[i] = v;
    }
}

/// Component-wise addition of two equally long tuples.
impl<const N: usize> core::ops::Add<Tuple<N>> for Tuple<N> {
    type Output = Tuple<N>;

    fn add(self, rhs: Tuple<N>) -> (r: Tuple<N>)
        ensures
            r@ == seq_add(self@, rhs@),
    {
        let mut out = self;
        let mut i: usize = 0;
        while i < N
            invariant
                i <= N,
                out@.len() == N,
                self@.len() == N,
                rhs@.len() == N,
                add_in_range(self@, rhs@),
                forall|k: int| 0 <= k < i ==> out@[k] == self@[k] + rhs@[k],
                forall|k: int| i <= k < N ==> out@[k] == self@[k],
            decreases N - i,
        {
            out.0[i] = self.0[i] + rhs.0[i];
            i = i + 1;
        }
        proof {
            assert(out@ =~= seq_add(self@, rhs@));
            Tuple::<N>::lemma_of_seq(out);
        }
        out
    }
}

impl<const N: usize> vstd::std_specs::ops::AddSpecImpl<Tuple<N>> for Tuple<N> {
    open spec fn obeys_add_spec() -> bool {
        true
    }

    open spec fn add_req(self, rhs: Tuple<N>) -> bool {
        add_in_range(self@, rhs@)
    }

    open spec fn add_spec(self, rhs: Tuple<N>) -> Tuple<N> {
        Tuple::of_seq(seq_add(self@, rhs@))
    }
}

/// Component-wise subtraction of two equally long tuples.
impl<const N: usize> core::ops::Sub<Tuple<N>> for Tuple<N> {
    type Output = Tuple<N>;

    fn sub(self, rhs: Tuple<N>) -> (r: Tuple<N>)
        ensures
            r@ == seq_sub(self@, rhs@),
    {
        let mut out = self;
        let mut i: usize = 0;
        while i < N
            invariant
                i <= N,
                out@.len() == N,
                self@.len() == N,
                rhs@.len() == N,
                sub_in_range(self@, rhs@),
                forall|k: int| 0 <= k < i ==> out@[k] == self@[k] - rhs@[k],
                forall|k: int| i <= k < N ==> out@[k] == self@[k],
            decreases N - i,
        {
            out.0[i] = self.0[i] - rhs.0[i];
            i = i + 1;
        }
        proof {
            assert(out@ =~= seq_sub(self@, rhs@));
            Tuple::<N>::lemma_of_seq(out);
        }
        out
    }
}

impl<const N: usize> vstd::std_specs::ops::SubSpecImpl<Tuple<N>> for Tuple<N> {
    open spec fn obeys_sub_spec() -> bool {
        true
    }

    open spec fn sub_req(self, rhs: Tuple<N>) -> bool {
        sub_in_range(self@, rhs@)
    }

    open spec fn sub_spec(self, rhs: Tuple<N>) -> Tuple<N> {
        Tuple::of_seq(seq_sub(self@, rhs@))
    }
}

/// Component-wise negation.
impl<const N: usize> core::ops::Neg for Tuple<N> {
    type Output = Tuple<N>;

    fn neg(self) -> (r: Tuple<N>)
        ensures
            r@ == seq_neg(self@),
    {
        let mut out = self;
        let mut i: usize = 0;
        while i < N
            invariant
                i <= N,
                out@.len() == N,
                self@.len() == N,
                neg_in_range(self@),
                forall|k: int| 0 <= k < i ==> out@[k] == -self@[k],
                forall|k: int| i <= k < N ==> out@[k] == self@[k],
            decreases N - i,
        {
            out.0[i] = -self.0[i];
            i = i + 1;
        }
        proof {
            assert(out@ =~= seq_neg(self@));
            Tuple::<N>::lemma_of_seq(out);
        }
        out
    }
}

impl<const N: usize> vstd::std_specs::ops::NegSpecImpl for Tuple<N> {
    open spec fn obeys_neg_spec() -> bool {
        true
    }

    open spec fn neg_req(self) -> bool {
        neg_in_range(self@)
    }

    open spec fn neg_spec(self) -> Tuple<N> {
        Tuple::of_seq(seq_neg(self@))
    }
}

/// Scalar multiplication: `tuple * scalar`.
impl<const N: usize> core::ops::Mul<i64> for Tuple<N> {
    type Output = Tuple<N>;

    fn mul(self, rhs: i64) -> (r: Tuple<N>)
        ensures
            r@ == seq_scale(self@, rhs),
    {
        let mut out = self;
        let mut i: usize = 0;
        while i < N
            invariant
                i <= N,
                out@.len() == N,
                self@.len() == N,
                scale_in_range(self@, rhs),
                forall|k: int| 0 <= k < i ==> out@[k] == self@[k] * rhs,
                forall|k: int| i <= k < N ==> out@[k] == self@[k],
            decreases N - i,
        {
            out.0[i] = self.0[i] * rhs;
            i = i + 1;
        }
        proof {
            assert(out@ =~= seq_scale(self@, rhs));
            Tuple::<N>::lemma_of_seq(out);
        }
        out
    }
}

impl<const N: usize> vstd::std_specs::ops::MulSpecImpl<i64> for Tuple<N> {
    open spec fn obeys_mul_spec() -> bool {
        true
    }

    open spec fn mul_req(self, rhs: i64) -> bool {
        scale_in_range(self@, rhs)
    }

    open spec fn mul_spec(self, rhs: i64) -> Tuple<N> {
        Tuple::of_seq(seq_scale(self@, rhs))
    }
}

/// Scalar division: `tuple / scalar`, truncating toward zero as the scalar
/// type's own division does.
impl<const N: usize> core::ops::Div<i64> for Tuple<N> {
    type Output = Tuple<N>;

    fn div(self, rhs: i64) -> (r: Tuple<N>)
        ensures
            r@ == seq_div(self@, rhs),
    {
        let mut out = self;
        let mut i: usize = 0;
        while i < N
            invariant
                i <= N,
                out@.len() == N,
                self@.len() == N,
                div_in_range(self@, rhs),
                forall|k: int| 0 <= k < i ==> out@[k] == div_trunc(self@[k] as int, rhs as int),
                forall|k: int| i <= k < N ==> out@[k] == self@[k],
            decreases N - i,
        {
            let q = self.0[i].checked_div(rhs).unwrap();
            assert(q == div_trunc(self@[i as int] as int, rhs as int));
            out.0[i] = q;
            i = i + 1;
        }
        proof {
            assert(out@ =~= seq_div(self@, rhs));
            Tuple::<N>::lemma_of_seq(out);
        }
        out
    }
}

impl<const N: usize> vstd::std_specs::ops::DivSpecImpl<i64> for Tuple<N> {
    open spec fn obeys_div_spec() -> bool {
        true
    }

    open spec fn div_req(self, rhs: i64) -> bool {
        div_in_range(self@, rhs)
    }

    open spec fn div_spec(self, rhs: i64) -> Tuple<N> {
        Tuple::of_seq(seq_div(self@, rhs))
    }
}

/// Construction from an array of `N` scalars.
impl<const N: usize> core::convert::From<[i64; N]> for Tuple<N> {
    fn from(src: [i64; N]) -> (r: Tuple<N>)
        ensures
            r@ == src@,
    {
        let r = Tuple(src);
        proof {
            Tuple::<N>::lemma_of_seq(r);
        }
        r
    }
}

impl<const N: usize> vstd::std_specs::convert::FromSpecImpl<[i64; N]> for Tuple<N> {
    open spec fn obeys_from_spec() -> bool {
        true
    }

    open spec fn from_spec(src: [i64; N]) -> Tuple<N> {
        Tuple::of_seq(src@)
    }
}

/// Record giving the individual components of a 4-slot tuple by name, in
/// slot order.
#[derive(PartialEq, Eq, Structural, Clone, Copy, Hash, Debug)]
pub struct View4 {
    pub x: i64,
    pub y: i64,
    pub z: i64,
    pub w: i64,
}

/// Vectors, points or tuples that have an `x` component in slot 0.
pub trait HasX: View<V = Seq<i64>> {
    /// Reads slot 0.
    fn x(&self) -> (r: i64)
        requires
            self@.len() >= 1,
        ensures
            r == self@[0],
    ;

    /// Writes slot 0, leaving the other slots as they were.
    fn set_x(&mut self, v: i64)
        requires
            old(self)@.len() >= 1,
        ensures
            final(self)@ == old(self)@.update(0, v),
    ;
}

/// Vectors, points or tuples that have a `y` component in slot 1.
pub trait HasY: View<V = Seq<i64>> {
    /// Reads slot 1.
    fn y(&self) -> (r: i64)
        requires
            self@.len() >= 2,
        ensures
            r == self@[1],
    ;

    /// Writes slot 1, leaving the other slots as they were.
    fn set_y(&mut self, v: i64)
        requires
            old(self)@.len() >= 2,
        ensures
            final(self)@ == old(self)@.update(1, v),
    ;
}

/// Vectors, points or tuples that have a `z` component in slot 2.
pub trait HasZ: View<V = Seq<i64>> {
    /// Reads slot 2.
    fn z(&self) -> (r: i64)
        requires
            self@.len() >= 3,
        ensures
            r == self@[2],
    ;

    /// Writes slot 2, leaving the other slots as they were.
    fn set_z(&mut self, v: i64)
        requires
            old(self)@.len() >= 3,
        ensures
            final(self)@ == old(self)@.update(2, v),
    ;
}

/// Vectors, points or tuples that have a `w` (homogeneous) component in
/// slot 3.
pub trait HasW: View<V = Seq<i64>> {
    /// Reads slot 3.
    fn w(&self) -> (r: i64)
        requires
            self@.len() >= 4,
        ensures
            r == self@[3],
    ;

    /// Writes slot 3, leaving the other slots as they were.
    fn set_w(&mut self, v: i64)
        requires
            old(self)@.len() >= 4,
        ensures
            final(self)@ == old(self)@.update(3, v),
    ;
}

impl HasX for Tuple<4> {
    fn x(&self) -> (r: i64)
        ensures
            r == self@[0],
    {
        self.0[0]
    }

    fn set_x(&mut self, v: i64)
        ensures
            final(self)@ == old(self)@.update(0, v),
    {
        self.0[0] = v;
    }
}

impl HasY for Tuple<4> {
    fn y(&self) -> (r: i64)
        ensures
            r == self@[1],
    {
        self.0[1]
    }

    fn set_y(&mut self, v: i64)
        ensures
            final(self)@ == old(self)@.update(1, v),
    {
        self.0[1] = v;
    }
}

impl HasZ for Tuple<4> {
    fn z(&self) -> (r: i64)
        ensures
            r == self@[2],
    {
        self.0[2]
    }

    fn set_z(&mut self, v: i64)
        ensures
            final(self)@ == old(self)@.update(2, v),
    {
        self.0[2] = v;
    }
}

impl HasW for Tuple<4> {
    fn w(&self) -> (r: i64)
        ensures
            r == self@[3],
    {
        self.0[3]
    }

    fn set_w(&mut self, v: i64)
        ensures
            final(self)@ == old(self)@.update(3, v),
    {
        self.0[3] = v;
    }
}

impl Tuple<4> {
    /// The named-field reading of this tuple's four slots. Together with the
    /// `set_*` writers this is an index-forwarding view of the same storage,
    /// so it can never diverge from the indexed reading.
    pub fn view4(&self) -> (r: View4)
        ensures
            r.x == self@[0],
            r.y == self@[1],
            r.z == self@[2],
            r.w == self@[3],
    {
        View4 { x: self.0[0], y: self.0[1], z: self.0[2], w: self.0[3] }
    }
}

} // verus!
