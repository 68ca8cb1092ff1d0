use scope_clock::measurement_line;

#[test]
fn line_of_zero() {
    assert_eq!(measurement_line("my_scope", 0), "my_scope=0ns");
}

#[test]
fn line_of_single_digit() {
    assert_eq!(measurement_line("a", 7), "a=7ns");
}

#[test]
fn line_of_round_numbers() {
    assert_eq!(measurement_line("t", 10), "t=10ns");
    assert_eq!(measurement_line("t", 100), "t=100ns");
    assert_eq!(measurement_line("t", 1000000000), "t=1000000000ns");
}

#[test]
fn line_of_many_digits() {
    assert_eq!(
        measurement_line("outer_scope", 1234567890123),
        "outer_scope=1234567890123ns"
    );
}

#[test]
fn line_of_largest_count() {
    assert_eq!(
        measurement_line("max", u128::MAX),
        "max=340282366920938463463374607431768211455ns"
    );
}

#[test]
fn line_of_empty_label() {
    assert_eq!(measurement_line("", 42), "=42ns");
}

#[test]
fn line_keeps_label_verbatim() {
    assert_eq!(measurement_line("a=b ns é", 5), "a=b ns é=5ns");
}

#[test]
fn line_number_reads_back() {
    for n in [0u128, 9, 10, 99, 101, 65535, 987654321] {
        let line = measurement_line("scope", n);
        let digits = &line["scope=".len()..line.len() - 2];
        assert!(digits.chars().all(|c| c.is_ascii_digit()));
        assert_eq!(digits.parse::<u128>().unwrap(), n);
    }
}

#[test]
fn same_label_lines_differ_in_number_only() {
    let a = measurement_line("scope", 15);
    let b = measurement_line("scope", 2500);
    assert!(a.starts_with("scope=") && b.starts_with("scope="));
    assert!(a.ends_with("ns") && b.ends_with("ns"));
    assert_ne!(a, b);
    assert_eq!(measurement_line("scope", 15), a);
}
