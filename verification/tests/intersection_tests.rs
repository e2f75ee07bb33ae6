use raytracer::intersection::{Intersection, Intersections};
use raytracer::scalar::Scalar;

fn s(x: f64) -> Scalar {
    Scalar::from_bits(x.to_bits())
}

fn f(x: Scalar) -> f64 {
    f64::from_bits(x.to_bits())
}

fn values(xs: &Intersections) -> Vec<f64> {
    xs.get().iter().map(|t| f(*t)).collect()
}

#[test]
fn test_an_intersection_encapsulates_t_and_object() {
    let i = Intersection::new(s(3.5), 1);
    assert_eq!(f(i.t), 3.5);
    assert_eq!(i.object_id, 1);
}

#[test]
fn test_aggregating_intersections() {
    let i1 = Intersection::new(s(1.0), 1);
    let i2 = Intersection::new(s(2.0), 1);
    let xs = Intersections::new(vec![i1, i2]);
    assert_eq!(xs.len(), 2);
    assert_eq!(f(xs.at(0).t), 1.0);
    assert_eq!(f(xs.at(1).t), 2.0);
}

#[test]
fn test_the_hit_when_all_intersections_have_positive_t() {
    let i1 = Intersection::new(s(1.0), 1);
    let i2 = Intersection::new(s(2.0), 1);
    let expect = i1.clone();
    let xs = Intersections::new(vec![i1, i2]);
    let i = xs.hit();
    assert_eq!(i, Some(&expect));
}

#[test]
fn test_the_hit_when_some_intersections_have_negative_t() {
    let i1 = Intersection::new(s(-1.0), 1);
    let i2 = Intersection::new(s(1.0), 1);
    let expect = i2.clone();
    let xs = Intersections::new(vec![i2, i1]);
    let i = xs.hit();
    assert_eq!(i, Some(&expect));
}

#[test]
fn test_the_hit_when_all_intersections_have_negative_t() {
    let i1 = Intersection::new(s(-2.0), 1);
    let i2 = Intersection::new(s(-1.0), 1);
    let xs = Intersections::new(vec![i2, i1]);
    let i = xs.hit();
    assert_eq!(i, None);
}

#[test]
fn test_the_hit_is_always_the_lowest_nonnegative_intersection() {
    let i1 = Intersection::new(s(5.0), 1);
    let i2 = Intersection::new(s(7.0), 1);
    let i3 = Intersection::new(s(-3.0), 1);
    let i4 = Intersection::new(s(2.0), 1);
    let expect = i4.clone();
    let xs = Intersections::new(vec![i1, i2, i3, i4]);
    let i = xs.hit();
    assert_eq!(i, Some(&expect));
}

#[test]
fn sorting_orders_by_parameter_whatever_the_input_order() {
    let xs = Intersections::new(vec![
        Intersection::new(s(5.0), 0),
        Intersection::new(s(7.0), 1),
        Intersection::new(s(-3.0), 2),
        Intersection::new(s(2.0), 3),
        Intersection::new(s(-0.5), 4),
        Intersection::new(s(1e-300), 5),
        Intersection::new(s(f64::INFINITY), 6),
        Intersection::new(s(f64::NEG_INFINITY), 7),
    ]);
    assert_eq!(
        values(&xs),
        vec![f64::NEG_INFINITY, -3.0, -0.5, 1e-300, 2.0, 5.0, 7.0, f64::INFINITY]
    );
    assert_eq!(xs.hit_index(), Some(3));
    assert_eq!(xs.hit().map(|i| i.object_id), Some(5));
}

#[test]
fn sorting_is_stable_for_equal_parameters() {
    let xs = Intersections::new(vec![
        Intersection::new(s(2.0), 10),
        Intersection::new(s(1.0), 11),
        Intersection::new(s(2.0), 12),
        Intersection::new(s(1.0), 13),
        Intersection::new(s(2.0), 14),
    ]);
    let ids: Vec<usize> = (0..xs.len()).map(|k| xs.at(k).object_id).collect();
    assert_eq!(ids, vec![11, 13, 10, 12, 14]);
}

#[test]
fn both_zeros_are_equal_and_count_as_ahead() {
    let xs = Intersections::new(vec![
        Intersection::new(s(0.0), 0),
        Intersection::new(s(-0.0), 1),
        Intersection::new(s(-1.0), 2),
    ]);
    let ids: Vec<usize> = (0..xs.len()).map(|k| xs.at(k).object_id).collect();
    assert_eq!(ids, vec![2, 0, 1]);
    assert_eq!(xs.hit_index(), Some(1));

    let xs = Intersections::new(vec![Intersection::new(s(-0.0), 7)]);
    assert_eq!(xs.hit().map(|i| i.object_id), Some(7));
}

#[test]
fn no_intersections_means_no_hit() {
    let xs = Intersections::new(vec![]);
    assert_eq!(xs.len(), 0);
    assert_eq!(xs.hit(), None);
    assert_eq!(xs.hit_index(), None);
    assert!(xs.get().is_empty());
}
