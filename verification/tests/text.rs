use pkgcatalog::text::{
    chars_of, join, push_decimal, replace, split_words, string_of, trim, trim_leading,
};

fn strings(parts: &[&str]) -> Vec<String> {
    parts.iter().map(|p| p.to_string()).collect()
}

#[test]
fn characters_make_up_a_text_again() {
    let v = chars_of("añ→z");
    assert_eq!(v, vec!['a', 'ñ', '→', 'z']);
    assert_eq!(string_of(&v, 1, 3), "ñ→");
    assert_eq!(string_of(&v, 0, 4), "añ→z");
    assert_eq!(string_of(&v, 2, 2), "");
}

#[test]
fn trimming_agrees_with_the_standard_library() {
    for s in [
        "",
        " ",
        "  \t\n",
        "a",
        " a",
        "a ",
        "\u{a0}a b\u{3000}",
        "\u{1c}a\u{1f}",
        "\u{b}\u{c}x\u{85}",
        "\u{200b}x\u{200b}",
    ] {
        assert_eq!(trim(s), s.trim(), "{s:?}");
    }
}

#[test]
fn every_ascii_character_is_classed_as_stated() {
    for n in 0u8..128 {
        let c = n as char;
        let s = c.to_string();
        let blank = (9..=13).contains(&n) || n == 32;
        assert_eq!(trim(&s).is_empty(), blank, "{n}");
        let word = c.is_ascii_digit() || c.is_ascii_uppercase() || c.is_ascii_lowercase();
        assert_eq!(split_words(&s).len(), if word { 1 } else { 0 }, "{n}");
    }
}

#[test]
fn leading_characters_are_removed() {
    assert_eq!(trim_leading("//a/b", '/'), "a/b");
    assert_eq!(trim_leading("a/b", '/'), "a/b");
    assert_eq!(trim_leading("///", '/'), "");
    assert_eq!(trim_leading("", '/'), "");
}

#[test]
fn replacing_agrees_with_the_standard_library() {
    for (s, p, w) in [
        ("ORDER BY {ORDER_BY} {ORDER}", "{ORDER_BY}", "name"),
        ("aaaa", "aa", "a"),
        ("aaaaa", "aa", "b"),
        ("abc", "x", "y"),
        ("abc", "abcd", "y"),
        ("", "a", "b"),
        ("abab", "ab", ""),
        ("ab", "ab", "abab"),
    ] {
        assert_eq!(replace(s, p, w), s.replace(p, w), "{s:?} {p:?} {w:?}");
    }
}

#[test]
fn words_are_runs_of_letters_and_digits() {
    assert_eq!(split_words("foo-bar_baz 2.0"), strings(&["foo", "bar", "baz", "2", "0"]));
    assert_eq!(split_words("--"), strings(&[]));
    assert_eq!(split_words(""), strings(&[]));
    assert_eq!(split_words("é٣x"), strings(&["é٣x"]));
    assert_eq!(split_words("a"), strings(&["a"]));
}

#[test]
fn parts_are_joined() {
    assert_eq!(join(&strings(&[]), ", "), "");
    assert_eq!(join(&strings(&["a"]), ", "), "a");
    assert_eq!(join(&strings(&["a", "", "c"]), ", "), "a, , c");
}

#[test]
fn numbers_are_written_in_decimal() {
    for n in [0u64, 7, 9, 10, 99, 100, 1234567890, u64::MAX] {
        let mut s = "n=".to_string();
        push_decimal(&mut s, n);
        assert_eq!(s, format!("n={n}"));
    }
}
