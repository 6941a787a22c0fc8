use binary_options_tools::amount::{Amount, MANTISSA_BOUND, MAX_SCALE};

#[test]
fn amounts_out_of_range_are_refused() {
    assert!(Amount::from_parts(1, MAX_SCALE).is_some());
    assert!(Amount::from_parts(1, MAX_SCALE + 1).is_none());
    assert!(Amount::from_parts(MANTISSA_BOUND - 1, 0).is_some());
    assert!(Amount::from_parts(MANTISSA_BOUND, 0).is_none());
    assert!(Amount::from_parts(-MANTISSA_BOUND, 0).is_none());
}

#[test]
fn comparisons_with_whole_numbers() {
    let a = Amount::from_parts(99, 2).unwrap();
    assert!(a.is_positive());
    assert!(a.is_below_whole(1));
    assert!(a.is_above_whole(0));
    let b = Amount::from_parts(200000001, 4).unwrap();
    assert!(b.is_above_whole(20000));
    assert!(!b.is_below_whole(20000));
    let c = Amount::from_parts(200000000, 4).unwrap();
    assert!(!c.is_above_whole(20000));
    assert!(!c.is_below_whole(20000));
    let d = Amount::from_parts(-1, 28).unwrap();
    assert!(!d.is_positive());
    assert!(d.is_below_whole(0));
    let e = Amount::from_parts(MANTISSA_BOUND - 1, 0).unwrap();
    assert!(e.is_above_whole(u32::MAX));
}

#[test]
fn normalizing_strips_trailing_zeros() {
    let a = Amount::from_parts(12000, 3).unwrap().normalized();
    assert_eq!((a.mantissa(), a.scale()), (12, 0));
    let b = Amount::from_parts(-120500, 4).unwrap().normalized();
    assert_eq!((b.mantissa(), b.scale()), (-1205, 2));
    let z = Amount::from_parts(0, 7).unwrap().normalized();
    assert_eq!((z.mantissa(), z.scale()), (0, 0));
    let w = Amount::from_parts(1000, 0).unwrap().normalized();
    assert_eq!((w.mantissa(), w.scale()), (1000, 0));
    let x = Amount::from_parts(10, 1).unwrap().normalized();
    let y = Amount::from_parts(1000, 3).unwrap().normalized();
    assert!(x.same_parts(&y));
    assert!(!Amount::from_parts(10, 1).unwrap().same_parts(&Amount::from_parts(1000, 3).unwrap()));
}

#[test]
fn whole_amounts() {
    let a = Amount::whole(20000);
    assert_eq!((a.mantissa(), a.scale()), (20000, 0));
}
