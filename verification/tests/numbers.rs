use vinci_portal::numbers::{sum, TwoNumbers, SUM_OFFSET};

#[test]
fn sum_adds_five() {
    assert_eq!(sum(5, 6), 16);
    assert_eq!(sum(-5, 0), 0);
    assert_eq!(SUM_OFFSET, 5);
}

#[test]
fn sum_of_two_numbers() {
    let c = TwoNumbers { first: 5, second: 6 };
    assert_eq!(sum(c.first, c.second), 16);
}

#[test]
fn sum_at_the_edge() {
    assert_eq!(sum(i64::MAX - 5, 0), i64::MAX);
    assert_eq!(sum(i64::MIN, 0), i64::MIN + 5);
}
