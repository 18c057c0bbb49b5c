use pw_cast::text::{chars_of, contains, find, head_before, push_decimal, to_ascii_lower};

#[test]
fn finds_first_occurrence_by_characters() {
    assert_eq!(find("abcabc", "bc"), Some(1));
    assert_eq!(find("ééx=y=z", "="), Some(3));
    assert_eq!(find("abc", "abcd"), None);
    assert_eq!(find("abc", "x"), None);
    assert_eq!(find("", ""), Some(0));
}

#[test]
fn contains_text() {
    assert!(contains("Living Room", "g R"));
    assert!(contains("anything", ""));
    assert!(!contains("Living Room", "gR"));
}

#[test]
fn head_before_pattern() {
    assert_eq!(head_before("id._googlecast._tcp.local", "._googlecast"), "id");
    assert_eq!(head_before("id", "._googlecast"), "id");
    assert_eq!(head_before("._googlecast", "._googlecast"), "");
    assert_eq!(head_before("a--b--c", "--"), "a");
}

#[test]
fn lower_case_is_ascii_only() {
    assert_eq!(to_ascii_lower("Wohnzimmer ÄÖÜ [AZaz@`{]"), "wohnzimmer ÄÖÜ [azaz@`{]");
    assert_eq!(to_ascii_lower(""), "");
}

#[test]
fn decimal_numerals() {
    let mut s = String::from("n=");
    push_decimal(&mut s, 0);
    s.push(' ');
    push_decimal(&mut s, 907);
    s.push(' ');
    push_decimal(&mut s, u64::MAX);
    assert_eq!(s, "n=0 907 18446744073709551615");
}

#[test]
fn characters_in_order() {
    assert_eq!(chars_of("a“b"), vec!['a', '“', 'b']);
}
