use codex_app_manager::digest::{base64_of, digest_matches, fnv1a64, hex16_of, sha256_hex};
use codex_app_manager::errors::{said, said_around, AppError};
use codex_app_manager::sorted::{comes_before, insert_text};
use codex_app_manager::text::{
    char_ascii_lower, char_is_ascii_alnum, char_is_control, char_is_white, chars_of, contains,
    decimal_of, ends_with, find, index_of, same_ignoring_case, starts_with, string_of, trim,
    trim_of,
};

fn chars(text: &str) -> Vec<char> {
    text.chars().collect()
}

fn text(chars: &[char]) -> String {
    chars.iter().collect()
}

#[test]
fn character_classes_are_those_of_the_standard_library() {
    for n in 0..=0x10ffff_u32 {
        if let Some(c) = char::from_u32(n) {
            assert_eq!(char_is_white(c), c.is_whitespace(), "{n:x}");
            assert_eq!(char_is_control(c), c.is_control(), "{n:x}");
            assert_eq!(char_is_ascii_alnum(c), c.is_ascii_alphanumeric(), "{n:x}");
            assert_eq!(char_ascii_lower(c), c.to_ascii_lowercase(), "{n:x}");
        }
    }
}

#[test]
fn strings_and_characters() {
    assert_eq!(string_of(&chars_of("a公b")), "a公b");
    assert_eq!(text(trim(&chars("\u{3000} a b\t"))), "a b");
    assert_eq!(text(trim(&chars(" \n"))), "");
    assert_eq!(text(trim_of(&chars("..a.b."), '.')), "a.b");
    assert_eq!(text(&decimal_of(0)), "0");
    assert_eq!(text(&decimal_of(u64::MAX)), "18446744073709551615");
    assert!(same_ignoring_case(&chars("AbÄ"), &chars("aBÄ")));
    assert!(!same_ignoring_case(&chars("ä"), &chars("Ä")));
}

#[test]
fn searching() {
    let all = chars("abcabc");
    assert_eq!(find(&all, &chars("ca")), Some(2));
    assert_eq!(find(&all, &chars("")), Some(0));
    assert_eq!(find(&all, &chars("x")), None);
    assert!(contains(&all, "bc"));
    assert!(starts_with(&all, "ab") && !starts_with(&all, "b"));
    assert!(ends_with(&all, "bc") && !ends_with(&all, "abcabcd"));
    assert_eq!(index_of(&all, 'c'), Some(2));
    assert_eq!(index_of(&all, 'z'), None);
}

#[test]
fn texts_are_ordered_as_strings_are() {
    for a in ["", "a", "ab", "b", "A", "é", "公", "😀"] {
        for b in ["", "a", "ab", "b", "A", "é", "公", "😀"] {
            assert_eq!(comes_before(&chars(a), &chars(b)), a < b, "{a} {b}");
        }
    }
    let mut list = vec![chars("a"), chars("c")];
    insert_text(&mut list, chars("b"));
    insert_text(&mut list, chars("a"));
    assert_eq!(list, vec![chars("a"), chars("b"), chars("c")]);
}

#[test]
fn digests_and_encodings() {
    assert_eq!(
        sha256_hex(b"abc"),
        "ba7816bf8f01cfea414140de5dae2223b00361a396177a9cb410ff61f20015ad"
    );
    assert_eq!(
        sha256_hex(b""),
        "e3b0c44298fc1c149afbf4c8996fb92427ae41e4649b934ca495991b7852b855"
    );
    assert_eq!(base64_of(b"f"), "Zg==");
    assert_eq!(base64_of(b"foobar"), "Zm9vYmFy");
    assert_eq!(base64_of(&[0xfb, 0xff]), "+/8=");
    assert_eq!(fnv1a64(b""), 0xcbf29ce484222325);
    assert_eq!(fnv1a64(b"a"), 0xaf63dc4c8601ec8c);
    assert_eq!(fnv1a64(b"foobar"), 0x85944171f73967e8);
    assert_eq!(text(&hex16_of(0x1f)), "000000000000001f");
    assert!(digest_matches("aB", "Ab"));
}

#[test]
fn errors_carry_their_words() {
    assert_eq!(AppError::Busy("b".to_string()).text(), "b");
    assert_eq!(AppError::UnsupportedPlatform.text(), "unsupported platform");
    let copy = AppError::StaleExpectation("s".to_string()).copy();
    assert!(matches!(copy, AppError::StaleExpectation(_)));
    assert_eq!(copy.text(), "s");
    assert_eq!(said("a", "b"), "ab");
    assert_eq!(said_around("a", "b", "c"), "abc");
}
