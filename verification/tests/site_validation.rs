use credvault::site::is_valid;

#[test]
fn accepts_bare_domain() {
    assert!(is_valid("example.com"));
}

#[test]
fn accepts_scheme_and_path() {
    assert!(is_valid("http://example.com/path"));
}

#[test]
fn rejects_whitespace() {
    assert!(!is_valid("not a url"));
}

#[test]
fn rejects_missing_tld() {
    assert!(!is_valid("example"));
}

#[test]
fn accepts_https_subdomain() {
    assert!(is_valid("https://sub.example.org"));
}

#[test]
fn accepts_trailing_dot_after_tld() {
    assert!(is_valid("example.com."));
}

#[test]
fn accepts_underscore_in_host() {
    assert!(is_valid("my_host.example.net"));
}

#[test]
fn accepts_dotted_host() {
    assert!(is_valid("a.b.cd"));
}

#[test]
fn accepts_path_after_trailing_dot() {
    assert!(is_valid("https://example.com./x"));
}

#[test]
fn accepts_digits_in_host() {
    assert!(is_valid("host123.example.io"));
}

#[test]
fn rejects_single_letter_tld() {
    assert!(!is_valid("example.c"));
}

#[test]
fn rejects_overlong_tld() {
    assert!(!is_valid("example.abcdefg"));
}

#[test]
fn rejects_uppercase_tld() {
    assert!(!is_valid("example.COM"));
}

#[test]
fn rejects_space_in_path() {
    assert!(!is_valid("example.com/a b"));
}

#[test]
fn rejects_tab_in_path() {
    assert!(!is_valid("example.com/a\tb"));
}

#[test]
fn rejects_empty_string() {
    assert!(!is_valid(""));
}

#[test]
fn rejects_scheme_alone() {
    assert!(!is_valid("http://"));
}

#[test]
fn rejects_other_scheme() {
    assert!(!is_valid("ftp://example.com"));
}

#[test]
fn rejects_missing_host() {
    assert!(!is_valid(".com"));
}

#[test]
fn accepts_empty_path_segment() {
    assert!(is_valid("example.com/"));
}
