use aether_gui::text::{
    chars_of, contains, ends_with, is_white_space, push_decimal, string_of, trim, trim_end,
    width_of,
};

#[test]
fn white_space_and_width_are_those_of_the_standard_library() {
    for c in (0..=0x10ffffu32).filter_map(char::from_u32) {
        assert_eq!(is_white_space(c), c.is_whitespace(), "{c:?}");
        assert_eq!(width_of(c), c.len_utf8(), "{c:?}");
    }
}

#[test]
fn trimming_is_that_of_the_standard_library() {
    for s in [
        "",
        " ",
        "a",
        " a b ",
        "\t\u{2003}x\u{3000}",
        "\u{85}\u{85}",
        "x ",
        " x",
    ] {
        assert_eq!(trim(s), s.trim());
        assert_eq!(trim_end(s), s.trim_end());
    }
}

#[test]
fn searching_is_that_of_the_standard_library() {
    let texts = ["", "a", "ab", "aab", "abab", "code:", "Enter the code: ", "é:"];
    for s in texts {
        for t in texts {
            assert_eq!(contains(s, t), s.contains(t), "{s:?} {t:?}");
            assert_eq!(ends_with(s, t), s.ends_with(t), "{s:?} {t:?}");
        }
    }
}

#[test]
fn numerals_are_decimal() {
    for n in [0u64, 7, 9, 10, 99, 100, 1080, 65535, u64::MAX] {
        let mut s = "n=".to_string();
        push_decimal(&mut s, n);
        assert_eq!(s, format!("n={n}"));
    }
}

#[test]
fn strings_are_taken_apart_and_put_together() {
    let v = chars_of("aé𝄞b");
    assert_eq!(v, ['a', 'é', '𝄞', 'b']);
    assert_eq!(string_of(&v, 1, 3), "é𝄞");
    assert_eq!(string_of(&v, 2, 2), "");
}
