use wowasticker::text::{push_decimal, trim_text};

#[test]
fn decimal_numerals() {
    for n in [0, 7, 10, 15, 123, -1, -40, i32::MAX, i32::MIN] {
        let mut s = String::from("x");
        push_decimal(&mut s, n);
        assert_eq!(s, format!("x{}", n));
    }
}

#[test]
fn trim_matches_str_trim() {
    for t in ["", "   ", " a ", "\t\nhello world\u{3000}", "Très bien! 👍 Great", "x"] {
        assert_eq!(trim_text(t), t.trim());
    }
}
