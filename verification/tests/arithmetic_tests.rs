use linear_logic::algebra::arithmetic::{euclidean_algorithm, gcd, gcd_all, gcd_unsigned, magnitude};

#[test]
fn euclid_1() {
    let result = euclidean_algorithm(1, 2, vec![1, 2]);
    let expected = vec![2, 1, 0];
    assert_eq!(result, expected)
}

#[test]
fn euclid_2() {
    let result = euclidean_algorithm(10, 18, vec![10, 18]);
    let expected = vec![18, 10, 8, 2, 0];
    assert_eq!(result, expected)
}

#[test]
fn gcd_coprime() {
    let result = gcd(13, 17);
    let expected = 1;
    assert_eq!(result, expected)
}

#[test]
fn gcd_10() {
    let result = gcd(10, 20);
    let expected = 10;
    assert_eq!(result, expected)
}

#[test]
fn gcd_neg() {
    let result = gcd(-5, 5);
    let expected = 5;
    assert_eq!(result, expected)
}

#[test]
fn gcd_2() {
    let result = gcd(26, 10);
    let expected = 2;
    assert_eq!(result, expected)
}

#[test]
fn gcd_all_1() {
    let result = gcd_all(vec![5, 6, 7]);
    let expected = 1;
    assert_eq!(result, expected)
}

#[test]
fn gcd_all_2() {
    let result = gcd_all(vec![2, 4, 6]);
    let expected = 2;
    assert_eq!(result, expected)
}

#[test]
fn euclid_keeps_remainders_when_second_is_zero() {
    assert_eq!(euclidean_algorithm(7, 0, vec![7, 0]), vec![7, 0]);
    assert_eq!(euclidean_algorithm(0, 0, vec![4, 9]), vec![4, 9]);
}

#[test]
fn euclid_turns_round_when_first_is_less() {
    assert_eq!(euclidean_algorithm(0, 5, vec![1, 2, 3]), vec![3, 2, 1]);
    assert_eq!(euclidean_algorithm(4, 6, vec![9, 4, 6]), vec![6, 4, 9, 2, 0]);
}

#[test]
fn gcd_with_zero() {
    assert_eq!(gcd(0, 0), 0);
    assert_eq!(gcd(0, 9), 9);
    assert_eq!(gcd(9, 0), 9);
    assert_eq!(gcd(-12, 0), 12);
}

#[test]
fn gcd_of_least_integer() {
    assert_eq!(gcd(i32::MIN, 0), 2147483648);
    assert_eq!(gcd(i32::MIN, i32::MIN), 2147483648);
    assert_eq!(gcd(i32::MIN, 6), 2);
    assert_eq!(magnitude(i32::MIN), 2147483648);
    assert_eq!(magnitude(-3), 3);
    assert_eq!(magnitude(3), 3);
}

#[test]
fn gcd_is_symmetric_on_examples() {
    assert_eq!(gcd(84, 36), 12);
    assert_eq!(gcd(36, 84), 12);
    assert_eq!(gcd(-84, -36), 12);
    assert_eq!(gcd_unsigned(84, 36), 12);
    assert_eq!(gcd_unsigned(0, 0), 0);
}

#[test]
fn gcd_all_edge_cases() {
    assert_eq!(gcd_all(vec![]), 0);
    assert_eq!(gcd_all(vec![-5]), 5);
    assert_eq!(gcd_all(vec![0, 0]), 0);
    assert_eq!(gcd_all(vec![12, -18, 30]), 6);
    assert_eq!(gcd_all(vec![i32::MIN, i32::MIN]), 2147483648);
}
