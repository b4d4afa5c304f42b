use scip_exact::rational::Rational;

fn parts(r: Rational) -> (isize, isize) {
    (r.numer(), r.denom())
}

#[test]
fn new_reduces_to_lowest_terms() {
    assert_eq!(parts(Rational::new(2, 4)), (1, 2));
    assert_eq!(parts(Rational::new(30, 12)), (5, 2));
    assert_eq!(parts(Rational::new(7, 1)), (7, 1));
}

#[test]
fn new_makes_denominator_positive() {
    assert_eq!(parts(Rational::new(3, -6)), (-1, 2));
    assert_eq!(parts(Rational::new(-3, -6)), (1, 2));
    assert_eq!(parts(Rational::new(-4, -4)), (1, 1));
}

#[test]
fn new_of_zero_is_zero_over_one() {
    assert_eq!(parts(Rational::new(0, 5)), (0, 1));
    assert_eq!(parts(Rational::new(0, -7)), (0, 1));
}

#[test]
fn equal_values_are_equal_rationals() {
    assert_eq!(Rational::new(1, 3), Rational::new(-2, -6));
    assert_eq!(Rational::new(6, 3), Rational::from_integer(2));
    assert_ne!(Rational::new(1, 3), Rational::new(1, 4));
}

#[test]
fn from_integer_has_denominator_one() {
    assert_eq!(parts(Rational::from_integer(-300)), (-300, 1));
    assert_eq!(parts(Rational::from_integer(0)), (0, 1));
}

#[test]
fn fraction_is_numerator_and_denominator() {
    assert_eq!(Rational::new(-10, 4).fraction(), (-5i64, 2i64));
    assert_eq!(Rational::from_integer(80).fraction(), (80i64, 1i64));
}

#[test]
fn try_new_rejects_zero_denominator() {
    assert_eq!(Rational::try_new(1, 0), None);
    assert_eq!(Rational::try_new(0, 0), None);
}

#[test]
fn try_new_rejects_negating_the_minimum() {
    assert_eq!(Rational::try_new(isize::MIN, -1), None);
    assert_eq!(Rational::try_new(1, isize::MIN), None);
    assert_eq!(Rational::try_new(3, isize::MIN), None);
}

#[test]
fn try_new_accepts_reducible_extremes() {
    assert_eq!(Rational::try_new(isize::MIN, -2).map(parts), Some((1isize << 62, 1)));
    assert_eq!(Rational::try_new(2, isize::MIN).map(parts), Some((-1, 1isize << 62)));
    assert_eq!(Rational::try_new(isize::MIN, isize::MIN).map(parts), Some((1, 1)));
    assert_eq!(Rational::try_new(0, isize::MIN).map(parts), Some((0, 1)));
    assert_eq!(Rational::try_new(isize::MIN, 1).map(parts), Some((isize::MIN, 1)));
}

#[test]
fn try_new_agrees_with_new() {
    assert_eq!(Rational::try_new(9, -12), Some(Rational::new(9, -12)));
    assert_eq!(parts(Rational::try_new(9, -12).unwrap()), (-3, 4));
}
