use aargh64::text::decimal_string;

#[test]
fn decimal_of_zero_is_a_single_zero() {
    assert_eq!(decimal_string(0), "0");
}

#[test]
fn decimal_of_single_digits() {
    let expected = ["0", "1", "2", "3", "4", "5", "6", "7", "8", "9"];
    for (n, text) in expected.iter().enumerate() {
        assert_eq!(decimal_string(n), *text);
    }
}

#[test]
fn decimal_has_no_leading_zero() {
    assert_eq!(decimal_string(10), "10");
    assert_eq!(decimal_string(100), "100");
    assert_eq!(decimal_string(1007), "1007");
}

#[test]
fn decimal_agrees_with_the_standard_library() {
    for n in [11usize, 19, 42, 99, 101, 255, 4096, 65535, 1234567890] {
        assert_eq!(decimal_string(n), n.to_string());
    }
    assert_eq!(decimal_string(usize::MAX), usize::MAX.to_string());
}

#[test]
fn decimal_tells_numbers_apart() {
    let mut seen = Vec::new();
    for n in 0usize..300 {
        let text = decimal_string(n);
        assert!(!seen.contains(&text));
        seen.push(text);
    }
}
