use pos_sync::text::{chars_of, decimal, join2, join3, str_contains, str_eq};

#[test]
fn str_eq_compares_texts() {
    assert!(str_eq("", ""));
    assert!(str_eq("staff", "staff"));
    assert!(!str_eq("staff", "staf"));
    assert!(!str_eq("staff", "stafg"));
    assert!(!str_eq("", "a"));
    assert!(str_eq("naïve", "naïve"));
    assert!(!str_eq("naïve", "naive"));
}

#[test]
fn chars_of_lists_the_characters() {
    assert_eq!(chars_of(""), Vec::<char>::new());
    assert_eq!(chars_of("añb"), vec!['a', 'ñ', 'b']);
}

#[test]
fn str_contains_finds_runs() {
    assert!(str_contains("order-created", "create"));
    assert!(str_contains("create", "create"));
    assert!(str_contains("xcreate", "create"));
    assert!(!str_contains("creat", "create"));
    assert!(!str_contains("", "create"));
    assert!(str_contains("", ""));
    assert!(str_contains("abc", ""));
    assert!(!str_contains("crea-te", "create"));
    assert!(str_contains("ñandú-update", "update"));
    assert!(str_contains("aab", "ab"));
}

#[test]
fn decimal_formats_integers() {
    assert_eq!(decimal(0), "0");
    assert_eq!(decimal(7), "7");
    assert_eq!(decimal(10), "10");
    assert_eq!(decimal(-1), "-1");
    assert_eq!(decimal(1234567890), "1234567890");
    assert_eq!(decimal(i64::MAX), "9223372036854775807");
    assert_eq!(decimal(i64::MIN), "-9223372036854775808");
    for n in [-1001i64, -10, -9, 9, 99, 100, 101, 65535, 4294967296] {
        assert_eq!(decimal(n), n.to_string());
    }
}

#[test]
fn joins_concatenate() {
    assert_eq!(join2("ab", "cd"), "abcd");
    assert_eq!(join2("", ""), "");
    assert_eq!(join3("a", "", "c"), "ac");
    assert_eq!(join3("{\"id\":", "5", "}"), "{\"id\":5}");
}
