use inter_val::{
    exclusive, inclusive, Bound, BoundType, Exclusive, Inclusive, Interval, LeftBounded,
    RightBounded,
};

#[test]
fn idea1_it_works() {
    let i = Interval::new(inclusive(0), exclusive(3)).unwrap();
    assert!(i.contains(&0));
    assert!(i.contains(&1));
    assert!(i.contains(&2));
    assert!(!i.contains(&3));
    assert!(!i.contains(&-1));
    assert_eq!(2 + 2, 4);
}

#[test]
fn idea2_it_works() {
    let i = Interval::new(Inclusive.at(0), Exclusive.at(3)).unwrap();
    assert!(i.contains(&0));
    assert!(i.contains(&1));
    assert!(i.contains(&2));
    assert!(!i.contains(&3));
    assert!(!i.contains(&-1));
    assert_eq!(2 + 2, 4);
}

#[test]
fn tests_it_works() {
    let i = Inclusive.at(0).to(Exclusive.at(3)).unwrap();
    assert!(i.contains(&0));
    assert!(i.contains(&1));
    assert!(i.contains(&2));
    assert!(!i.contains(&3));
    assert!(!i.contains(&-1));

    let items = vec![3, 9, 2, 5];
    let i = Interval::hull_many(&items, BoundType::Inclusive, BoundType::Inclusive).unwrap();
    assert_eq!(i.left().limit, 2);
    assert_eq!(i.right().limit, 9);
}

#[test]
fn new_interval() {
    let a = Interval::new(inclusive(0), exclusive(3)).unwrap();
    assert!(a.contains(&0));
    assert!(a.contains(&1));
    assert!(a.contains(&2));
    assert!(!a.contains(&3));
    assert!(!a.contains(&-1));

    let a = Interval::new(BoundType::Exclusive.at(0), BoundType::Exclusive.at(3)).unwrap();
    assert!(!a.contains(&0));
    assert!(a.contains(&1));
    assert!(!a.contains(&3));
}

#[test]
fn bound_to_bound() {
    let a = Inclusive.at(0).to(Exclusive.at(3)).unwrap();
    assert_eq!(a.left().bound_type, BoundType::Inclusive);
    assert_eq!(a.right().bound_type, BoundType::Exclusive);
    assert_eq!(a.inf(), 0);
    assert_eq!(a.sup(), 3);
}

#[test]
fn range_into_interval() {
    let a = Interval::try_from_range(0..3).unwrap();
    assert_eq!(a.left().limit, 0);
    assert_eq!(a.right().limit, 3);
    assert_eq!(a.left().bound_type, BoundType::Inclusive);
    assert_eq!(a.right().bound_type, BoundType::Exclusive);

    let r = 0..=3;
    let a = Interval::try_from_range_inclusive(*r.start(), *r.end()).unwrap();
    assert_eq!(a.left().limit, 0);
    assert_eq!(a.right().limit, 3);
    assert_eq!(a.left().bound_type, BoundType::Inclusive);
    assert_eq!(a.right().bound_type, BoundType::Inclusive);

    assert!(Interval::try_from_range(3..3).is_err());

    let back = Interval::try_from_range(2..4).unwrap().to_range();
    assert_eq!(back, 2..4);
}

#[test]
fn ordering() {
    let a = LeftBounded {
        limit: 0,
        bound_type: BoundType::Inclusive,
    };
    let b = LeftBounded {
        limit: 0,
        bound_type: BoundType::Exclusive,
    };
    assert!(a < b);

    let a = RightBounded {
        limit: 0,
        bound_type: BoundType::Inclusive,
    };
    let b = RightBounded {
        limit: 0,
        bound_type: BoundType::Exclusive,
    };
    assert!(a > b);
}

#[test]
fn boundary_tie_break() {
    // Inclusive.at(4) as a lower bound sorts below Exclusive.at(4);
    // as an upper bound it sorts above.
    let li = LeftBounded {
        limit: 4,
        bound_type: BoundType::Inclusive,
    };
    let le = LeftBounded {
        limit: 4,
        bound_type: BoundType::Exclusive,
    };
    assert!(li < le);
    let ri = RightBounded {
        limit: 4,
        bound_type: BoundType::Inclusive,
    };
    let re = RightBounded {
        limit: 4,
        bound_type: BoundType::Exclusive,
    };
    assert!(ri > re);
}

#[test]
fn validity_invariant() {
    // every successfully constructed interval has a lower bound admitting
    // the upper value and an upper bound admitting the lower value
    let built = vec![
        Interval::new(Inclusive.at(0), Exclusive.at(3)).unwrap(),
        Interval::new(Exclusive.at(-2), Inclusive.at(5)).unwrap(),
        Interval::new(Inclusive.at(3), Inclusive.at(3)).unwrap(),
        Interval::between(7, -7),
        Exclusive.between(0, 1),
    ];
    for i in built {
        assert!(i.left().contains(&i.right().limit));
        assert!(i.right().contains(&i.left().limit));
    }
}

#[test]
fn empty_constructions() {
    let e = Interval::new(Inclusive.at(3), Exclusive.at(3));
    assert!(e.is_err());
    assert_eq!(
        e.unwrap_err().message(),
        "left boundary must be less than or equal to right boundary"
    );
    assert!(Interval::new(Inclusive.at(3), Exclusive.at(0)).is_err());
    assert!(Interval::new(Inclusive.at(3), Inclusive.at(3)).is_ok());
    assert!(Interval::try_new(Exclusive.at(0), Exclusive.at(1)).is_some());
    assert!(Interval::try_new(Exclusive.at(0), Exclusive.at(0)).is_none());
}

#[test]
fn single_point_contains_only_itself() {
    let p = Interval::new(Inclusive.at(3), Inclusive.at(3)).unwrap();
    assert!(p.contains(&3));
    assert!(!p.contains(&2));
    assert!(!p.contains(&4));
}

#[test]
fn intersection_scenarios() {
    let a = Interval::new(Inclusive.at(0), Exclusive.at(3)).unwrap();
    let b = Interval::new(Inclusive.at(1), Exclusive.at(4)).unwrap();
    let c = Interval::new(Inclusive.at(3), Exclusive.at(5)).unwrap();
    // idempotence and commutativity on concrete values
    assert_eq!(a.intersection(&a), Some(a));
    assert_eq!(a.intersection(&b), b.intersection(&a));
    // [0,3) meet [1,4) = [1,3)
    let m = a.intersection(&b).unwrap();
    assert_eq!(m, Inclusive.at(1).to(Exclusive.at(3)).unwrap());
    // [0,3) and [3,5) share no point
    assert_eq!(a.intersection(&c), None);
    assert!(!a.overlaps(&c));
    assert!(a.overlaps(&b));
}

#[test]
fn span_scenarios() {
    let a = Interval::new(Inclusive.at(0), Exclusive.at(3)).unwrap();
    let b = Interval::new(Inclusive.at(5), Exclusive.at(8)).unwrap();
    assert_eq!(a.span(&a), a);
    assert_eq!(a.span(&b), b.span(&a));
    assert_eq!(a.span(&b), Inclusive.at(0).to(Exclusive.at(8)).unwrap());
    // a includes its span with b only if it already includes b
    let inside = Interval::new(Inclusive.at(1), Exclusive.at(2)).unwrap();
    assert!(a.includes(&a.span(&inside)));
    assert!(!a.includes(&a.span(&b)));
}

#[test]
fn gap_scenarios() {
    // facing exclusive bounds flip to inclusive ones: the gap starts at the
    // very value the open end leaves uncovered
    let a = Interval::new(Inclusive.at(0), Exclusive.at(3)).unwrap();
    let b = Interval::new(Inclusive.at(5), Exclusive.at(8)).unwrap();
    let g = a.gap(&b).unwrap();
    assert_eq!(g, Inclusive.at(3).to(Exclusive.at(5)).unwrap());
    // the argument order does not matter
    assert_eq!(b.gap(&a), Some(g));
    // facing inclusive bounds flip to an open gap
    let c = Inclusive.between(0, 10);
    let d = Inclusive.between(12, 15);
    let g = c.gap(&d).unwrap();
    assert_eq!(g, Exclusive.at(10).to(Exclusive.at(12)).unwrap());
    // overlapping or touching intervals leave no gap
    let e = Interval::new(Inclusive.at(2), Exclusive.at(6)).unwrap();
    assert_eq!(a.gap(&e), None);
    let touching = Interval::new(Inclusive.at(3), Exclusive.at(5)).unwrap();
    assert_eq!(a.gap(&touching), None);
}

#[test]
fn union_round_trip() {
    let a = Interval::new(Inclusive.at(0), Exclusive.at(3)).unwrap();
    let b = Interval::new(Inclusive.at(5), Exclusive.at(8)).unwrap();
    let u = a.union(&b);
    assert_eq!(u.span, a.span(&b));
    assert_eq!(u.gap, a.gap(&b));
    // cutting the span back at the gap's bounds reconstructs the operands
    assert_eq!(u.into_vec(), vec![a, b]);
    // without a gap the union is the span alone
    let c = Interval::new(Inclusive.at(2), Exclusive.at(6)).unwrap();
    let u = a.union(&c);
    assert_eq!(u.gap, None);
    assert_eq!(u.into_vec(), vec![a.span(&c)]);
    // union_strict exposes the same pair
    let (span, gap) = a.union_strict(&b);
    assert_eq!(span, a.span(&b));
    assert_eq!(gap, a.gap(&b));
}

#[test]
fn difference_scenarios() {
    let a = Interval::new(Inclusive.at(0), Exclusive.at(3)).unwrap();
    let b = Interval::new(Inclusive.at(1), Exclusive.at(4)).unwrap();
    let d = a.difference(&b);
    assert_eq!(d.lower, Some(Inclusive.at(0).to(Exclusive.at(1)).unwrap()));
    assert_eq!(d.upper, None);
    assert_eq!(d.into_vec().len(), 1);
    // subtracting a strict middle part leaves both sides
    let mid = Interval::new(Inclusive.at(1), Exclusive.at(2)).unwrap();
    let d = a.difference(&mid);
    assert_eq!(d.lower, Some(Inclusive.at(0).to(Exclusive.at(1)).unwrap()));
    assert_eq!(d.upper, Some(Inclusive.at(2).to(Exclusive.at(3)).unwrap()));
}

#[test]
fn split_scenarios() {
    let a = Interval::new(Inclusive.at(0), Exclusive.at(3)).unwrap();
    let (b, c) = a.try_split_at(1);
    assert_eq!(b, Some(Inclusive.at(0).to(Exclusive.at(1)).unwrap()));
    assert_eq!(c, Some(Inclusive.at(1).to(Exclusive.at(3)).unwrap()));
    let (b, c) = a.try_split_at(0);
    assert_eq!(b, None);
    assert_eq!(c, Some(a));
    let (b, c) = a.try_split_at(5);
    assert_eq!(b, Some(a));
    assert_eq!(c, None);
    let (b, c) = a.split_at(1);
    assert_eq!(b, Inclusive.at(0).to(Exclusive.at(1)).unwrap());
    assert_eq!(c, Inclusive.at(1).to(Exclusive.at(3)).unwrap());
}

#[test]
fn dilate_scenarios() {
    let a = Inclusive.at(4).to(Exclusive.at(7)).unwrap();
    assert_eq!(a.dilate(2), Ok(Inclusive.at(2).to(Exclusive.at(9)).unwrap()));
    assert_eq!(a.dilate(-1), Ok(Inclusive.at(5).to(Exclusive.at(6)).unwrap()));
    assert!(a.dilate(-2).is_err());
}

#[test]
fn measure_and_center() {
    let a = Inclusive.at(2).to(Inclusive.at(5)).unwrap();
    assert_eq!(a.measure(), 3);
    assert_eq!(a.center(), 3);
    let b = Exclusive.at(0).to(Exclusive.at(1)).unwrap();
    assert_eq!(b.measure(), 1);
    let c = Inclusive.at(-5).to(Inclusive.at(-1)).unwrap();
    assert_eq!(c.center(), -3);
}

#[test]
fn min_max_values() {
    let a = Exclusive.at(10).to(Inclusive.at(20)).unwrap();
    assert_eq!(a.min_val(), 11);
    assert_eq!(a.max_val(), 20);
    let b = Inclusive.at(0).to(Exclusive.at(3)).unwrap();
    assert_eq!(b.min_val(), 0);
    assert_eq!(b.max_val(), 2);
}

#[test]
fn stepping() {
    let a = Exclusive.at(10).to(Inclusive.at(20)).unwrap();
    assert_eq!(a.step_by(2), vec![12, 14, 16, 18, 20]);
    assert_eq!(a.step_rev_by(2), vec![20, 18, 16, 14, 12]);
    let empty_walk = Inclusive.at(0).to(Inclusive.at(0)).unwrap();
    assert_eq!(empty_walk.step_by(1), vec![0]);
    let lb = LeftBounded {
        limit: 10,
        bound_type: BoundType::Exclusive,
    };
    assert_eq!(lb.step_by(2, 3), vec![12, 14, 16]);
    let rb = RightBounded {
        limit: 20,
        bound_type: BoundType::Inclusive,
    };
    assert_eq!(rb.step_rev_by(5, 2), vec![20, 15]);
}

#[test]
fn between_orders_endpoints() {
    let a = Interval::between(3, -1);
    assert_eq!(a, Inclusive.at(-1).to(Inclusive.at(3)).unwrap());
    let b = Interval::try_between(3, -1, BoundType::Inclusive, BoundType::Exclusive).unwrap();
    assert_eq!(b, Inclusive.at(-1).to(Exclusive.at(3)).unwrap());
    assert!(Interval::try_between(1, 1, BoundType::Inclusive, BoundType::Exclusive).is_none());
    assert!(Interval::try_between(1, 1, BoundType::Inclusive, BoundType::Inclusive).is_some());
    assert!(Exclusive.try_between(1, 1).is_none());
    assert_eq!(
        Exclusive.between(10, 12),
        Exclusive.at(10).to(Exclusive.at(12)).unwrap()
    );
    assert_eq!(
        BoundType::Exclusive.try_between(0, 3).unwrap(),
        Exclusive.at(0).to(Exclusive.at(3)).unwrap()
    );
}

#[test]
fn hulls_and_folds() {
    let items = vec![3, 9, 2, 5];
    let hull = Inclusive::hull(&items).unwrap();
    assert_eq!(hull, Inclusive.between(2, 9));
    let open_hull = Exclusive::hull(&items).unwrap();
    assert_eq!(open_hull, Exclusive.between(2, 9));
    assert_eq!(Exclusive::hull(&vec![7, 7]), None);
    assert_eq!(Inclusive::hull(&vec![]), None);

    let a = Inclusive.at(0).to(Exclusive.at(3)).unwrap();
    let b = Inclusive.at(1).to(Exclusive.at(5)).unwrap();
    let c = Inclusive.at(8).to(Exclusive.at(10)).unwrap();
    let span = Interval::span_many(&vec![a, b, c]).unwrap();
    assert_eq!(span.left().limit, 0);
    assert_eq!(span.right().limit, 10);
    assert_eq!(Interval::enclose(&vec![a, b, c]), Some(span));
    assert_eq!(Interval::span_many(&vec![]), None);
}

#[test]
fn closure_and_interior() {
    let a = Exclusive.at(0).to(Exclusive.at(3)).unwrap();
    let c = a.closure();
    assert_eq!(c, Inclusive.between(0, 3));
    let i = c.interior().unwrap();
    assert_eq!(i, a);
    let point = Inclusive.at(3).to(Inclusive.at(3)).unwrap();
    assert_eq!(point.interior(), None);
}

#[test]
fn outward_bounds() {
    let a = Inclusive.at(0).to(Exclusive.at(3)).unwrap();
    let below = a.lower_bound();
    assert_eq!(below.limit, 0);
    assert_eq!(below.bound_type, BoundType::Exclusive);
    assert!(below.contains(&-1));
    assert!(!below.contains(&0));
    let above = a.upper_bound();
    assert_eq!(above.limit, 3);
    assert_eq!(above.bound_type, BoundType::Inclusive);
    assert!(above.contains(&3));
    assert!(!above.contains(&2));
}

#[test]
fn half_bound_algebra() {
    let loose = LeftBounded {
        limit: 0,
        bound_type: BoundType::Inclusive,
    };
    let tight = LeftBounded {
        limit: 2,
        bound_type: BoundType::Exclusive,
    };
    assert_eq!(loose.intersection(&tight), tight);
    assert_eq!(loose.union(&tight), loose);
    assert!(loose.includes(&tight));
    assert_eq!(loose.hull(-4).limit, -4);
    assert_eq!(loose.dilate(3).limit, -3);
    assert_eq!(loose.inf(), 0);
    assert_eq!(tight.closure().bound_type, BoundType::Inclusive);
    assert_eq!(loose.interior().bound_type, BoundType::Exclusive);
    let flipped = tight.flip();
    assert_eq!(flipped.limit, 2);
    assert_eq!(flipped.bound_type, BoundType::Inclusive);

    let lo_up = RightBounded {
        limit: 5,
        bound_type: BoundType::Inclusive,
    };
    let hi_up = RightBounded {
        limit: 8,
        bound_type: BoundType::Exclusive,
    };
    assert_eq!(lo_up.intersection(&hi_up), lo_up);
    assert_eq!(lo_up.union(&hi_up), hi_up);
    assert!(hi_up.includes(&lo_up));
    assert_eq!(hi_up.hull(11).limit, 11);
    assert_eq!(hi_up.dilate(2).limit, 10);
    assert_eq!(hi_up.sup(), 8);
    let flipped = lo_up.flip();
    assert_eq!(flipped.limit, 5);
    assert_eq!(flipped.bound_type, BoundType::Exclusive);
}

#[test]
fn bound_kind_basics() {
    assert_eq!(BoundType::Inclusive.flip(), BoundType::Exclusive);
    assert_eq!(BoundType::Exclusive.flip(), BoundType::Inclusive);
    assert!(BoundType::Inclusive.is_inclusive());
    assert!(BoundType::Exclusive.is_exclusive());
    assert!(BoundType::Inclusive.less(&3, &3));
    assert!(!BoundType::Exclusive.less(&3, &3));
    assert!(BoundType::Exclusive.less(&2, &3));
    assert_eq!(Inclusive.into_general(), BoundType::Inclusive);
    assert_eq!(Exclusive.into_general(), BoundType::Exclusive);
    assert_eq!(Inclusive.flip(), Exclusive);
    assert_eq!(Exclusive.flip(), Inclusive);

    let b = Bound::new(7, BoundType::Inclusive);
    assert_eq!(b.limit, 7);
    let f = b.flip();
    assert_eq!(f.limit, 7);
    assert_eq!(f.bound_type, BoundType::Exclusive);
    assert_eq!(inclusive(7), Inclusive.at(7));
    assert_eq!(exclusive(7), Exclusive.at(7));
}
