use reps::rounding::div_round;

#[test]
fn exact_quotients_are_kept() {
    assert_eq!(div_round(0, 7), 0);
    assert_eq!(div_round(42, 7), 6);
    assert_eq!(div_round(42, 1), 42);
}

#[test]
fn quotients_round_to_the_nearest_integer() {
    assert_eq!(div_round(10, 3), 3);
    assert_eq!(div_round(11, 3), 4);
    assert_eq!(div_round(1, 3), 0);
    assert_eq!(div_round(2, 3), 1);
    assert_eq!(div_round(249, 100), 2);
    assert_eq!(div_round(251, 100), 3);
}

#[test]
fn ties_go_to_the_even_neighbour() {
    assert_eq!(div_round(5, 10), 0);
    assert_eq!(div_round(15, 10), 2);
    assert_eq!(div_round(25, 10), 2);
    assert_eq!(div_round(35, 10), 4);
    assert_eq!(div_round(5, 2), 2);
    assert_eq!(div_round(7, 2), 4);
    assert_eq!(div_round(1, 2), 0);
}

#[test]
fn largest_dividend_does_not_overflow() {
    assert_eq!(div_round(u128::MAX, 1), u128::MAX);
    assert_eq!(div_round(u128::MAX, u128::MAX), 1);
    // u128::MAX is odd: half of it lies above the lower neighbour's tie.
    assert_eq!(div_round(u128::MAX, 2), u128::MAX / 2 + 1);
}

#[test]
fn rounded_quotient_grows_with_the_dividend() {
    let mut previous: u128 = 0;
    let mut n: u128 = 0;
    while n < 500 {
        let quotient: u128 = div_round(n, 7);
        assert!(previous <= quotient);
        previous = quotient;
        n += 1;
    }
}

#[test]
fn rounded_quotient_shrinks_as_the_divisor_grows() {
    let mut previous: u128 = div_round(3600, 1);
    let mut d: u128 = 2;
    while d <= 37 {
        let quotient: u128 = div_round(3600, d);
        assert!(quotient <= previous);
        previous = quotient;
        d += 1;
    }
}
