use inter_val::{BoundType, BoxN, Exclusive, Inclusive, Interval, Kd, NDim, Nullable};

#[test]
fn box_between_and_corners() {
    let a: BoxN<2> = BoxN::between(&Kd::<2, i64>::new(0, 0), &Kd::<2, i64>::new(10, 20));
    assert_eq!(a.inf().into_array(), vec![0, 0]);
    assert_eq!(a.sup().into_array(), vec![10, 20]);
    assert_eq!(a.inf_point().into_array(), vec![0, 0]);
    assert_eq!(a.sup_point().into_array(), vec![10, 20]);
    // the corner order does not matter: each axis is ordered on its own
    let b: BoxN<2> = BoxN::between(&Kd::<2, i64>::new(10, 0), &Kd::<2, i64>::new(0, 20));
    assert_eq!(a, b);
}

#[test]
fn box_try_between() {
    let a: Option<BoxN<2>> = BoxN::try_between(
        &Kd::<2, i64>::new(0, 0),
        &Kd::<2, i64>::new(10, 20),
        BoundType::Inclusive,
        BoundType::Inclusive,
    );
    assert!(a.is_some());
    // one degenerate axis under exclusive bounds empties the whole box
    let b: Option<BoxN<2>> = BoxN::try_between(
        &Kd::<2, i64>::new(0, 0),
        &Kd::<2, i64>::new(0, 1),
        BoundType::Exclusive,
        BoundType::Exclusive,
    );
    assert!(b.is_none());
}

#[test]
fn box_contains_and_includes() {
    let a: BoxN<2> = BoxN::between(&Kd::<2, i64>::new(0, 0), &Kd::<2, i64>::new(10, 20));
    assert!(a.contains(&Kd::<2, i64>::new(5, 15)));
    assert!(!a.contains(&Kd::<2, i64>::new(11, 15)));
    let inner: BoxN<2> = BoxN::between(&Kd::<2, i64>::new(1, 1), &Kd::<2, i64>::new(9, 19));
    assert!(a.includes(&inner));
    assert!(!inner.includes(&a));
    assert!(a.overlaps(&inner));
    let far: BoxN<2> = BoxN::between(&Kd::<2, i64>::new(30, 30), &Kd::<2, i64>::new(40, 40));
    assert!(!a.overlaps(&far));
}

#[test]
fn box_algebra() {
    let a: BoxN<2> = BoxN::between(&Kd::<2, i64>::new(0, 0), &Kd::<2, i64>::new(10, 10));
    let b: BoxN<2> = BoxN::between(&Kd::<2, i64>::new(5, 5), &Kd::<2, i64>::new(20, 20));
    let m = a.intersection(&b).unwrap();
    assert_eq!(m, BoxN::between(&Kd::<2, i64>::new(5, 5), &Kd::<2, i64>::new(10, 10)));
    let s = a.span(&b);
    assert_eq!(s, BoxN::between(&Kd::<2, i64>::new(0, 0), &Kd::<2, i64>::new(20, 20)));
    let far: BoxN<2> = BoxN::between(&Kd::<2, i64>::new(30, 30), &Kd::<2, i64>::new(40, 40));
    assert!(a.intersection(&far).is_none());

    let h = a.hull(&Kd::<2, i64>::new(20, 5));
    assert_eq!(h, BoxN::between(&Kd::<2, i64>::new(0, 0), &Kd::<2, i64>::new(20, 10)));

    let d = a.dilate(2).unwrap();
    assert_eq!(d, BoxN::between(&Kd::<2, i64>::new(-2, -2), &Kd::<2, i64>::new(12, 12)));
    assert!(a.dilate(-6).is_err());
}

#[test]
fn box_folds() {
    let a: BoxN<2> = BoxN::between(&Kd::<2, i64>::new(0, 0), &Kd::<2, i64>::new(2, 2));
    let b: BoxN<2> = BoxN::between(&Kd::<2, i64>::new(5, 1), &Kd::<2, i64>::new(6, 9));
    let s = BoxN::span_many(&vec![a.clone(), b]).unwrap();
    assert_eq!(s, BoxN::between(&Kd::<2, i64>::new(0, 0), &Kd::<2, i64>::new(6, 9)));
    assert!(BoxN::<2>::span_many(&vec![]).is_none());

    let pts = vec![Kd::<2, i64>::new(3, 1), Kd::<2, i64>::new(0, 4), Kd::<2, i64>::new(2, 2)];
    let h = BoxN::hull_many(&pts).unwrap();
    assert_eq!(h, BoxN::between(&Kd::<2, i64>::new(0, 1), &Kd::<2, i64>::new(3, 4)));
    assert!(BoxN::<2>::hull_many(&vec![]).is_none());
}

#[test]
fn box_metrics() {
    let a: BoxN<2> = BoxN::between(&Kd::<2, i64>::new(0, 5), &Kd::<2, i64>::new(10, 20));
    assert_eq!(a.size().into_array(), vec![10, 15]);
    assert_eq!(a.measure(), 150);
    assert_eq!(a.center().into_array(), vec![5, 12]);
}

#[test]
fn box_topology() {
    let x = Exclusive.at(0).to(Exclusive.at(3)).unwrap();
    let y = Exclusive.at(1).to(Exclusive.at(4)).unwrap();
    let a = BoxN::<2>::new(x, y);
    let c = a.closure();
    assert_eq!(
        c.into_array(),
        vec![Inclusive.between(0, 3), Inclusive.between(1, 4)]
    );
    let back = a.closure().interior().unwrap();
    assert_eq!(back, a);
    let flat = BoxN::<2>::new(Inclusive.between(0, 3), Inclusive.at(1).to(Inclusive.at(1)).unwrap());
    assert!(flat.interior().is_none());
}

#[test]
fn box_arrays() {
    let x = Inclusive.between(0, 1);
    let y = Inclusive.between(2, 3);
    let z = Inclusive.between(4, 5);
    let w = Inclusive.between(6, 7);
    let b3 = BoxN::<3>::new(x, y, z);
    assert_eq!(b3.into_array(), vec![x, y, z]);
    let b4 = BoxN::<4>::new(x, y, z, w);
    assert_eq!(b4.into_array(), vec![x, y, z, w]);
    let b = BoxN::<2>::from_array(vec![x, y]);
    assert_eq!(b.into_array(), vec![x, y]);
}

#[test]
fn ndim_interval_ops() {
    let a: NDim<2, Interval> = NDim(vec![Inclusive.between(0, 10), Inclusive.between(5, 20)]);
    let b: NDim<2, Interval> = NDim(vec![Inclusive.between(5, 15), Inclusive.between(0, 10)]);
    assert!(a.contains(&NDim(vec![3, 7])));
    assert!(!a.contains(&NDim(vec![11, 7])));
    assert!(a.includes(&NDim(vec![Inclusive.between(1, 9), Inclusive.between(6, 19)])));
    assert_eq!(a.min_val().into_array(), vec![0, 5]);
    assert_eq!(a.max_val().into_array(), vec![10, 20]);
    let m = a.intersection(&b).unwrap();
    assert_eq!(m.into_array(), vec![Inclusive.between(5, 10), Inclusive.between(5, 10)]);
    let u = a.union(&b);
    assert_eq!(u.into_array(), vec![Inclusive.between(0, 15), Inclusive.between(0, 20)]);
    let w = NDim::bound(&vec![a, b]).unwrap();
    assert_eq!(w.into_array(), vec![Inclusive.between(0, 15), Inclusive.between(0, 20)]);
    assert!(NDim::<2, Interval>::bound(&vec![]).is_none());

    let c: NDim<2, Interval> = NDim(vec![Inclusive.between(0, 10), Inclusive.between(5, 20)]);
    assert_eq!(c.size().into_array(), vec![10, 15]);
    assert_eq!(c.center().into_array(), vec![5, 12]);
    assert_eq!(c.left().as_array()[0].limit, 0);
    assert_eq!(c.right().as_array()[1].limit, 20);
}

#[test]
fn kd_points() {
    let p = Kd::<2, i64>::new(1, 2);
    assert_eq!(p.as_array(), &vec![1, 2]);
    let q = Kd::<3, i64>::new(1, 2, 3);
    assert_eq!(q.into_array(), vec![1, 2, 3]);
    let r = Kd::<4, i64>::new(1, 2, 3, 4);
    assert_eq!(r.as_array().len(), 4);
}

#[test]
fn nullable_wrapping() {
    let some: Nullable<i64> = Nullable::from_option(Some(5));
    assert!(!some.is_null());
    assert_eq!(some.unwrap(), 5);
    assert_eq!(some.into_option(), Some(5));
    let none: Nullable<i64> = Nullable::from_option(None);
    assert!(none.is_null());
    assert_eq!(none.into_option(), None);
}
