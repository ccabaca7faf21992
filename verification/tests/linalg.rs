use raytracer_rust::linalg::tuple::HasW;
use raytracer_rust::linalg::tuple::HasX;
use raytracer_rust::linalg::tuple::HasY;
use raytracer_rust::linalg::tuple::HasZ;
use raytracer_rust::linalg::tuple::Tuple;
use raytracer_rust::{Point, Point3, Vector, Vector3};

#[test]
fn point_vector_creation() {
    let p = Point::new(4, -4, 3);
    let v = Vector::new(4, -4, 3);
    assert_eq!(p.w(), 1);
    assert_eq!(v.w(), 0);
}

#[test]
fn add_tuples() {
    let a1 = Point::from([3, -2, 5]);
    let a2 = Vector::from([-2, 3, 1]);
    assert_eq!(a1 + a2, Point::<4>::from([1, 1, 6]));
}

#[test]
fn subtracting_two_points() {
    let p1 = Point::new(3, 2, 1);
    let p2 = Point::new(5, 6, 7);
    assert_eq!(p1 - p2, Vector::new(-2, -4, -6))
}

#[test]
fn subtracting_vec_from_point() {
    let p = Point::new(3, 2, 1);
    let v = Vector::new(5, 6, 7);
    assert_eq!(p - v, Point::from([-2, -4, -6]))
}

#[test]
fn subtracting_two_vectors() {
    let v1: Vector3 = Vector::from([3, 2, 1]);
    let v2: Vector3 = Vector::from([5, 6, 7]);
    assert_eq!(v1 - v2, Vector::from([-2, -4, -6]));
    // Subtraction of a point from a vector is inhibited by the types.
}

#[test]
fn negate_vector() {
    let a = Vector::from([1, -2, 3, -4]);
    assert_eq!(-a, Vector::from([-1, 2, -3, 4]))
}

#[test]
fn dot_product() {
    let v1 = Vector::new(1, 2, 3);
    let v2 = Vector::new(2, 3, 4);
    assert_eq!(v1.dot(&v2), 20);
}

#[test]
fn cross_product() {
    let v1 = Vector::new(1, 2, 3);
    let v2 = Vector::new(2, 3, 4);
    assert_eq!(v1.cross(&v2), Vector::new(-1, 2, -1));
    assert_eq!(v2.cross(&v1), Vector::new(1, -2, 1));
    let x: Vector<4> = Vector::unit_x();
    let y: Vector<4> = Vector::unit_y();
    assert_eq!(x.cross(&y), Vector::<4>::unit_z());
}

#[test]
fn dot_is_commutative() {
    let v1 = Vector::new(-7, 11, 42);
    let v2 = Vector::new(13, -5, 2);
    assert_eq!(v1.dot(&v2), v2.dot(&v1));
}

#[test]
fn cross_is_anticommutative() {
    let v1 = Vector::new(9, -3, 7);
    let v2 = Vector::new(-2, 6, 5);
    assert_eq!(v1.cross(&v2), -(v2.cross(&v1)));
}

#[test]
fn translate_and_back_is_identity() {
    let p = Point::new(3, -2, 11);
    let v = Vector::new(-8, 4, 100);
    assert_eq!((p + v) - v, p);
    assert_eq!((p - v) + v, p);
}

#[test]
fn homogeneous_components() {
    let p1 = Point::new(1, 2, 3);
    let p2 = Point::new(9, 8, 7);
    let v = Vector::new(4, 5, 6);
    assert_eq!((p1 - p2).w(), 0);
    assert_eq!((p1 + v).w(), 1);
    assert_eq!((p1 - v).w(), 1);
}

#[test]
fn scalar_mul_div_integers() {
    let v = Vector::from([1, -2, 3, -4]);
    assert_eq!(v * 3, Vector::from([3, -6, 9, -12]));
    // Integer division truncates toward zero, also for negative slots.
    assert_eq!(Vector::from([7, -7, 5, 0]) / 2, Vector::from([3, -3, 2, 0]));
}

#[test]
fn length2_sums_squares() {
    let v = Vector::new(1, 2, 3);
    assert_eq!(v.length2(), 14);
    let w = Vector::new(-1, -2, -3);
    assert_eq!(w.length2(), 14);
    assert_eq!(Vector::<4>::zero().length2(), 0);
}

#[test]
fn to_point_and_to_vec() {
    let v = Vector::new(5, 6, 7);
    let p = v.to_point();
    assert_eq!(p, Point::new(5, 6, 7));
    assert_eq!(p.to_vec(), v);
    assert_eq!(Point3::origin().to_vec(), Vector::<4>::zero());
}

#[test]
fn centroid_of_points() {
    let points = vec![Point::new(0, 0, 0), Point::new(2, 4, 6)];
    assert_eq!(Point::centroid(&points), Some(Point::new(1, 2, 3)));
    let one = vec![Point::new(5, -5, 9)];
    assert_eq!(Point::centroid(&one), Some(Point::new(5, -5, 9)));
    // The mean is taken under the scalar's truncating division.
    let odd = vec![Point::new(0, 0, 0), Point::new(1, 1, -1)];
    assert_eq!(Point::centroid(&odd), Some(Point::new(0, 0, 0)));
    let empty: Vec<Point<4>> = Vec::new();
    assert_eq!(Point::centroid(&empty), None);
}

#[test]
fn named_view_aliases_slots() {
    let mut t = Tuple::from([1, 2, 3, 4]);
    assert_eq!(t.x(), 1);
    assert_eq!(t.y(), 2);
    assert_eq!(t.z(), 3);
    assert_eq!(t.w(), 4);
    t.set_x(9);
    t.set_z(-5);
    // A write through the named view is visible through indexed access,
    // and the other way round.
    assert_eq!(t.get(0), 9);
    assert_eq!(t.get(2), -5);
    let v4 = t.view4();
    assert_eq!((v4.x, v4.y, v4.z, v4.w), (9, 2, -5, 4));
    t.set(1, 77);
    assert_eq!(t.y(), 77);
}

#[test]
fn vector_point_named_access() {
    let mut v = Vector::new(1, 2, 3);
    v.set_y(20);
    assert_eq!(v.y(), 20);
    assert_eq!(v.view4().y, 20);
    let mut p = Point::new(4, 5, 6);
    p.set_x(-1);
    assert_eq!(p.x(), -1);
    assert_eq!((p.view4().x, p.view4().w), (-1, 1));
}

#[test]
fn map_and_zip_map() {
    let v = Vector::from([1, 2, 3, 4]);
    let doubled = v.map(|c| c * 2);
    assert_eq!(doubled, Vector::from([2, 4, 6, 8]));
    let w = Vector::from([10, 20, 30, 40]);
    let sums = v.zip_map(w, |a, b| a + b);
    assert_eq!(sums, Vector::from([11, 22, 33, 44]));
}

#[test]
fn tuple_arithmetic() {
    let a = Tuple::from([1, 2, 3, 4]);
    let b = Tuple::from([10, 20, 30, 40]);
    assert_eq!(a + b, Tuple::from([11, 22, 33, 44]));
    assert_eq!(b - a, Tuple::from([9, 18, 27, 36]));
    assert_eq!(a * 5, Tuple::from([5, 10, 15, 20]));
    assert_eq!(b / 20, Tuple::from([0, 1, 1, 2]));
}
