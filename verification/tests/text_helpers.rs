use floormap::text::{decimal_string, decimal_string_width2, split_meta_from_str};

fn split(s: &str) -> (String, String) {
    split_meta_from_str(s)
}

#[test]
fn split_meta_takes_first_section_and_removes_all() {
    assert_eq!(
        split("desk ~room 4~ by the window"),
        ("room 4".to_string(), "desk  by the window".to_string())
    );
    assert_eq!(split("a~b~c~d~e"), ("b".to_string(), "ace".to_string()));
    assert_eq!(split("~x~~y~z~w"), ("x".to_string(), "z~w".to_string()));
    assert_eq!(split("~~"), ("".to_string(), "".to_string()));
}

#[test]
fn split_meta_without_section_keeps_text() {
    assert_eq!(split("no meta"), ("".to_string(), "no meta".to_string()));
    assert_eq!(split("a~b"), ("".to_string(), "a~b".to_string()));
    assert_eq!(split(""), ("".to_string(), "".to_string()));
}

#[test]
fn split_meta_leaves_at_most_one_tilde() {
    for s in ["~a~b~c~d~e", "x~y~z~", "~~~", "a~ü~b~ß"] {
        let (meta, rest) = split(s);
        assert!(!meta.contains('~'));
        assert!(rest.matches('~').count() <= 1, "{:?}", rest);
    }
    assert_eq!(split("a~ü~b~ß"), ("ü".to_string(), "ab~ß".to_string()));
}

#[test]
fn decimal_forms() {
    assert_eq!(decimal_string(0), "0");
    assert_eq!(decimal_string(-5), "-5");
    assert_eq!(decimal_string(i32::MIN), "-2147483648");
    assert_eq!(decimal_string(i32::MAX), "2147483647");
    assert_eq!(decimal_string(10), "10");
    assert_eq!(decimal_string(1_234_509), "1234509");
    assert_eq!(decimal_string_width2(7), "07");
    assert_eq!(decimal_string_width2(12), "12");
    assert_eq!(decimal_string_width2(-3), "-3");
}
