use lox_scanner::text::{chars_of, string_of};

#[test]
fn chars_of_splits_by_character() {
    assert_eq!(chars_of(""), Vec::<char>::new());
    assert_eq!(chars_of("a\u{e9}\u{4e16}\n"), vec!['a', '\u{e9}', '\u{4e16}', '\n']);
}

#[test]
fn string_of_takes_the_slice() {
    let chars = vec!['v', 'a', 'r', ' ', 'x'];
    assert_eq!(string_of(&chars, 0, 3), "var");
    assert_eq!(string_of(&chars, 4, 5), "x");
    assert_eq!(string_of(&chars, 2, 2), "");
    assert_eq!(string_of(&chars, 0, 5), "var x");
}
