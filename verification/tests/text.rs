use lightning::text::{decimal_string, same_text, split_on};

#[test]
fn split_on_cuts_at_every_separator() {
    assert_eq!(split_on("a,b,c", ','), vec!["a", "b", "c"]);
    assert_eq!(split_on("abc", ','), vec!["abc"]);
    assert_eq!(split_on("", ','), vec![""]);
    assert_eq!(split_on(",a,", ','), vec!["", "a", ""]);
}

#[test]
fn decimal_string_writes_digits() {
    assert_eq!(decimal_string(0), "0");
    assert_eq!(decimal_string(7), "7");
    assert_eq!(decimal_string(10), "10");
    assert_eq!(decimal_string(255), "255");
    assert_eq!(decimal_string(u64::MAX), "18446744073709551615");
}

#[test]
fn same_text_compares_contents() {
    assert!(same_text("tags", "tags"));
    assert!(!same_text("tags", "tag"));
    assert!(!same_text("tag", "tags"));
    assert!(same_text("", ""));
}
