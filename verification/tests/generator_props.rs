use credvault::generator::generate;

#[test]
fn generates_the_requested_length() {
    assert_eq!(generate(12).chars().count(), 12);
    assert_eq!(generate(1).chars().count(), 1);
    assert_eq!(generate(64).chars().count(), 64);
}

#[test]
fn zero_length_gives_the_empty_string() {
    assert_eq!(generate(0), "");
}

#[test]
fn draws_only_letters_and_digits() {
    let s = generate(256);
    for c in s.chars() {
        assert!(c.is_ascii_alphanumeric());
    }
}
