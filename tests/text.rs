use regolith_displayd::text::{
    has_prefix, push_int, push_milli, push_nat, push_underscored, same_text, text_le,
};

#[test]
fn integers_render_in_decimal() {
    let mut s = String::new();
    push_nat(&mut s, 0);
    push_nat(&mut s, 1234567890);
    assert_eq!(s, "01234567890");
    let mut t = String::new();
    push_int(&mut t, -2147483648);
    assert_eq!(t, "-2147483648");
    let mut u = String::new();
    push_int(&mut u, 42);
    assert_eq!(u, "42");
}

#[test]
fn thousandths_render_shortest() {
    let cases: [(i64, &str); 8] = [
        (1000, "1"),
        (1500, "1.5"),
        (1250, "1.25"),
        (1005, "1.005"),
        (0, "0"),
        (59940, "59.94"),
        (-500, "-0.5"),
        (2147483647, "2147483.647"),
    ];
    for (n, expected) in cases {
        let mut s = String::new();
        push_milli(&mut s, n);
        assert_eq!(s, expected);
        let as_float = format!("{}", n as f64 / 1000f64);
        assert_eq!(s, as_float);
    }
}

#[test]
fn text_comparisons() {
    assert!(same_text("abc", "abc"));
    assert!(!same_text("abc", "abd"));
    assert!(!same_text("ab", "abc"));
    assert!(text_le("Dell", "LG"));
    assert!(!text_le("LG", "Dell"));
    assert!(text_le("ab", "abc"));
    assert!(!text_le("abc", "ab"));
    assert!(text_le("same", "same"));
    assert!(text_le("Z", "a"));
    assert!(has_prefix("eDP-1", "eDP"));
    assert!(!has_prefix("DP-1", "eDP"));
    assert!(!has_prefix("eD", "eDP"));
}

#[test]
fn spaces_become_underscores() {
    let mut s = String::from(">");
    push_underscored(&mut s, "LG Ultra HD  B2");
    assert_eq!(s, ">LG_Ultra_HD__B2");
}
