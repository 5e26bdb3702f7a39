use bankster::Amount;

#[test]
fn checked_add_is_exact() {
    let a = Amount { mantissa: 1, scale: 1 };
    let b = Amount { mantissa: 2, scale: 2 };
    let s = a.checked_add(b).unwrap();
    assert_eq!(s.mantissa, 12);
    assert_eq!(s.scale, 2);
}

#[test]
fn checked_sub_is_exact() {
    let a = Amount { mantissa: 10001, scale: 2 };
    let b = Amount { mantissa: 29, scale: 1 };
    let d = a.checked_sub(b).unwrap();
    assert_eq!(d.mantissa, 9711);
    assert_eq!(d.scale, 2);
    let z = Amount { mantissa: 0, scale: 4 };
    let n = z.checked_sub(b).unwrap();
    assert_eq!(n, Amount { mantissa: -29, scale: 1 });
}

#[test]
fn checked_add_overflows_to_none() {
    let max = Amount { mantissa: 0xffff_ffff_ffff_ffff_ffff_ffff, scale: 0 };
    assert_eq!(max.checked_add(max), None);
    let min = Amount { mantissa: -0xffff_ffff_ffff_ffff_ffff_ffff, scale: 0 };
    assert_eq!(min.checked_sub(max), None);
}

#[test]
fn equality_is_by_value() {
    assert_eq!(Amount { mantissa: 11000, scale: 2 }, Amount { mantissa: 110, scale: 0 });
    assert_ne!(Amount { mantissa: 11001, scale: 2 }, Amount { mantissa: 110, scale: 0 });
}

#[test]
fn less_than_compares_values() {
    let a = Amount { mantissa: 29, scale: 1 };
    let b = Amount { mantissa: 300, scale: 2 };
    assert!(a.less_than(&b));
    assert!(!b.less_than(&a));
    assert!(!a.less_than(&Amount { mantissa: 290, scale: 2 }));
}

#[test]
fn try_new_checks_the_range() {
    assert_eq!(Amount::try_new(5, 28).map(|a| a.scale), Some(28));
    assert!(Amount::try_new(5, 29).is_none());
    assert!(Amount::try_new(0x1_0000_0000_0000_0000_0000_0000, 0).is_none());
    assert!(Amount::try_new(-0xffff_ffff_ffff_ffff_ffff_ffff, 0).is_some());
}

#[test]
fn zero_has_the_given_scale() {
    let z = Amount::zero(4);
    assert_eq!(z.mantissa, 0);
    assert_eq!(z.scale, 4);
}
