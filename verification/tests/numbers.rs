use transmogrifier::numbers::{factorial_iter, factorial_loop, fibonacci};

#[test]
fn factorial_iter_of_twelve() {
    assert_eq!(factorial_iter(12), 39916800);
}

#[test]
fn factorial_loop_of_twenty() {
    assert_eq!(factorial_loop(20), 121645100408832000);
}

#[test]
fn fibonacci_of_thirty_five() {
    assert_eq!(fibonacci(35), 14930352);
}

#[test]
fn factorial_iter_stops_before_its_argument() {
    assert_eq!(factorial_iter(0), 1);
    assert_eq!(factorial_iter(1), 1);
    assert_eq!(factorial_iter(2), 1);
    assert_eq!(factorial_iter(3), 2);
    assert_eq!(factorial_iter(4), 6);
    assert_eq!(factorial_iter(5), 24);
    assert_eq!(factorial_iter(6), 120);
}

#[test]
fn factorial_loop_stops_before_its_argument() {
    assert_eq!(factorial_loop(0), 1);
    assert_eq!(factorial_loop(1), 1);
    assert_eq!(factorial_loop(2), 1);
    assert_eq!(factorial_loop(3), 2);
    assert_eq!(factorial_loop(4), 6);
    assert_eq!(factorial_loop(5), 24);
    assert_eq!(factorial_loop(6), 120);
}

#[test]
fn the_two_factorials_agree() {
    for num in 0..=13 {
        assert_eq!(factorial_iter(num), factorial_loop(num));
    }
}

#[test]
fn fibonacci_starts_with_two_ones() {
    assert_eq!(fibonacci(0), 1);
    assert_eq!(fibonacci(1), 1);
    assert_eq!(fibonacci(2), 2);
    assert_eq!(fibonacci(3), 3);
    assert_eq!(fibonacci(4), 5);
    assert_eq!(fibonacci(5), 8);
    assert_eq!(fibonacci(10), 89);
}

#[test]
fn fibonacci_is_the_sum_of_the_two_before() {
    for n in 2..40 {
        assert_eq!(fibonacci(n), fibonacci(n - 1) + fibonacci(n - 2));
    }
}
