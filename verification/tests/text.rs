use moonshine_tray::text::{
    chars_of, parse_i32, push_decimal, push_signed_decimal, same, string_of,
};

#[test]
fn strings_and_characters_correspond() {
    assert_eq!(chars_of("a…b"), vec!['a', '…', 'b']);
    assert_eq!(string_of(&vec!['a', '…', 'b']), "a…b");
    assert!(same("…", "…"));
    assert!(!same("ab", "abc"));
    assert!(!same("abc", "abd"));
}

#[test]
fn numbers_are_written_and_read_back() {
    for n in [0, 7, 10, 99, 100, 47989, i32::MAX, -1, -10, i32::MIN] {
        let mut text = "n=".to_string();
        push_signed_decimal(&mut text, n);
        assert_eq!(text, format!("n={n}"));
        assert_eq!(parse_i32(&text[2..]), Some(n));
    }
    let mut text = String::new();
    push_decimal(&mut text, u32::MAX);
    assert_eq!(text, "4294967295");
    assert_eq!(parse_i32(&text), None);
}
