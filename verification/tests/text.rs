use group_commit::text::push_decimal;

fn rendered(n: u128) -> String {
    let mut out = String::new();
    push_decimal(&mut out, n);
    out
}

#[test]
fn numerals_have_no_leading_zeros() {
    assert_eq!(rendered(0), "0");
    assert_eq!(rendered(7), "7");
    assert_eq!(rendered(10), "10");
    assert_eq!(rendered(99), "99");
    assert_eq!(rendered(100), "100");
    assert_eq!(rendered(1020304050), "1020304050");
}

#[test]
fn numerals_agree_with_the_standard_rendering() {
    for n in [0u128, 1, 9, 10, 11, 19, 20, 101, 65535, 1 << 64, u128::MAX - 1, u128::MAX] {
        assert_eq!(rendered(n), n.to_string());
    }
}

#[test]
fn a_numeral_is_appended_to_what_is_there() {
    let mut out = String::from("n=");
    push_decimal(&mut out, 42);
    push_decimal(&mut out, 0);
    assert_eq!(out, "n=420");
}
