use decnum::Decimal;

fn units(u: i128) -> Decimal {
    Decimal::from_units(u).unwrap()
}

#[test]
fn abs_diff_eq_compares_against_epsilon() {
    let one = Decimal::one();
    let two = Decimal::from_i64(2).unwrap();
    assert!(one.abs_diff_eq(one, Decimal::zero()));
    assert!(one.abs_diff_eq(two, one));
    assert!(!one.abs_diff_eq(two, units(999_999)));
    assert!(!Decimal::pos_infinity().abs_diff_eq(Decimal::pos_infinity(), Decimal::max_value()));
}

#[test]
fn relative_eq_is_reflexive_on_finite_values() {
    for x in [Decimal::zero(), Decimal::max_value(), Decimal::min_value(), units(-3)] {
        assert!(x.relative_eq(x, Decimal::zero(), Decimal::zero()));
    }
}

#[test]
fn relative_eq_rejects_infinities_even_when_equal() {
    let inf = Decimal::pos_infinity();
    assert!(!inf.relative_eq(inf, Decimal::max_value(), Decimal::max_value()));
    assert!(!Decimal::neg_infinity().relative_eq(
        Decimal::neg_infinity(),
        Decimal::max_value(),
        Decimal::max_value(),
    ));
    assert!(!inf.relative_eq(Decimal::one(), Decimal::max_value(), Decimal::max_value()));
}

#[test]
fn relative_eq_scales_with_the_larger_magnitude() {
    let x = Decimal::from_i64(100).unwrap();
    let y = Decimal::from_i64(101).unwrap();
    let eps = units(1);
    // 2% of 101 is 2.02, above the difference of 1.
    let two_percent = Decimal::from_str_radix("0.02", 10).unwrap();
    assert!(x.relative_eq(y, eps, two_percent));
    // 0.5% of 101 is 0.505, below the difference of 1.
    let half_percent = Decimal::from_str_radix("0.005", 10).unwrap();
    assert!(!x.relative_eq(y, eps, half_percent));
    // The absolute-epsilon fast path still accepts.
    assert!(x.relative_eq(y, Decimal::one(), Decimal::zero()));
}

#[test]
fn ulps_eq_counts_steps() {
    let x = units(100);
    let y = units(103);
    assert!(x.ulps_eq(y, Decimal::zero(), 4));
    assert!(y.ulps_eq(x, Decimal::zero(), 3));
    assert!(!x.ulps_eq(y, Decimal::zero(), 2));
    assert!(x.ulps_eq(x, Decimal::zero(), 0));
}

#[test]
fn ulps_eq_rejects_sign_mismatch() {
    let neg = units(-1);
    let pos = units(1);
    assert!(!neg.ulps_eq(pos, Decimal::zero(), 4));
    assert!(!pos.ulps_eq(neg, Decimal::zero(), u32::MAX));
    // The epsilon acceptance runs before the sign check.
    assert!(neg.ulps_eq(pos, Decimal::one(), 0));
}

#[test]
fn ulps_eq_reaches_an_infinity_in_one_step() {
    assert!(Decimal::max_value().ulps_eq(Decimal::pos_infinity(), Decimal::zero(), 1));
    assert!(!Decimal::max_value().ulps_eq(Decimal::pos_infinity(), Decimal::zero(), 0));
    assert!(Decimal::pos_infinity().ulps_eq(Decimal::pos_infinity(), Decimal::zero(), 0));
}
