use decnum::decimal::MAX_UNITS;
use decnum::Decimal;

fn units(u: i128) -> Decimal {
    Decimal::from_units(u).unwrap()
}

#[test]
fn bounds_flank_the_infinities() {
    assert_eq!(Decimal::max_value(), units(MAX_UNITS));
    assert_eq!(Decimal::min_value(), units(-MAX_UNITS));
    assert!(Decimal::max_value().lt(Decimal::pos_infinity()));
    assert!(Decimal::neg_infinity().lt(Decimal::min_value()));
    assert_eq!(Decimal::pos_infinity().previous(), Decimal::max_value());
    assert_eq!(Decimal::neg_infinity().next(), Decimal::min_value());
    assert_eq!(Decimal::max_value().next(), Decimal::pos_infinity());
    assert_eq!(Decimal::min_value().previous(), Decimal::neg_infinity());
}

#[test]
fn abs_is_the_nonnegative_magnitude() {
    assert_eq!(units(-5_000_000).abs(), units(5_000_000));
    assert_eq!(units(7).abs(), units(7));
    assert_eq!(Decimal::zero().abs(), Decimal::zero());
    assert_eq!(Decimal::neg_infinity().abs(), Decimal::pos_infinity());
    assert_eq!(Decimal::pos_infinity().abs(), Decimal::pos_infinity());
}

#[test]
fn signum_of_negative_fraction() {
    let x = Decimal::from_str_radix("-7.5", 10).unwrap();
    let minus_one = Decimal::from_str_radix("-1", 10).unwrap();
    assert_eq!(x.signum(), minus_one);
    assert_eq!(minus_one, Decimal::one().neg());
}

#[test]
fn signum_partitions_the_domain() {
    for x in [
        Decimal::neg_infinity(),
        units(-1),
        Decimal::zero(),
        units(1),
        Decimal::pos_infinity(),
    ] {
        let s = x.signum();
        let cases = [
            s == Decimal::one(),
            s == Decimal::one().neg(),
            s == Decimal::zero(),
        ];
        assert_eq!(cases.iter().filter(|&&c| c).count(), 1);
        assert_eq!(cases[0], x.is_positive());
        assert_eq!(cases[1], x.is_negative());
        assert_eq!(cases[2], x.is_zero());
    }
}

#[test]
fn abs_sub_floors_at_zero() {
    let three = Decimal::from_i64(3).unwrap();
    let five = Decimal::from_i64(5).unwrap();
    let two = Decimal::from_i64(2).unwrap();
    assert_eq!(three.abs_sub(five), Decimal::zero());
    assert_eq!(five.abs_sub(three), two);
    assert_eq!(five.abs_sub(five), Decimal::zero());
    assert_eq!(five.abs_sub(Decimal::neg_infinity()), Decimal::pos_infinity());
}

#[test]
fn identities_are_neutral() {
    let samples = [
        Decimal::zero(),
        Decimal::max_value(),
        Decimal::default_epsilon(),
        Decimal::from_i64(-12345).unwrap(),
        Decimal::pos_infinity(),
        Decimal::neg_infinity(),
    ];
    for x in samples {
        assert_eq!(Decimal::one().mul(x), x);
        assert_eq!(Decimal::zero().add(x), x);
    }
}

#[test]
fn default_epsilon_is_the_step_above_zero() {
    assert_eq!(Decimal::default_epsilon(), Decimal::zero().next());
    assert_eq!(Decimal::default_epsilon(), units(1));
    assert_eq!(Decimal::default_max_relative(), Decimal::zero().next());
}

#[test]
fn conversions_from_integers_are_exact() {
    assert_eq!(
        Decimal::from_u64(u64::MAX).unwrap(),
        units(18_446_744_073_709_551_615_000_000),
    );
    assert_eq!(
        Decimal::from_i64(i64::MIN).unwrap(),
        units(-9_223_372_036_854_775_808_000_000),
    );
    assert_eq!(Decimal::from_i64(0).unwrap(), Decimal::zero());
    assert_eq!(Decimal::from_i64(1).unwrap(), Decimal::one());
}

#[test]
fn saturating_arithmetic() {
    assert_eq!(Decimal::max_value().add(Decimal::one()), Decimal::pos_infinity());
    assert_eq!(Decimal::min_value().sub(Decimal::one()), Decimal::neg_infinity());
    let two = Decimal::from_i64(2).unwrap();
    assert_eq!(Decimal::max_value().mul(two), Decimal::pos_infinity());
    let half = Decimal::from_str_radix("0.5", 10).unwrap();
    assert_eq!(Decimal::from_i64(7).unwrap().mul(half), Decimal::from_str_radix("3.5", 10).unwrap());
    assert_eq!(two.mul(two.neg()), Decimal::from_i64(-4).unwrap());
    assert_eq!(Decimal::pos_infinity().mul(Decimal::zero()), Decimal::zero());
}
