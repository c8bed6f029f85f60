use home_mixer::text::{
    ascii_lowercase_chars, chars_of, contains_run_chars, is_whitespace_char, split_chars, trim_chars,
    words_of, Separator,
};

fn chars(s: &str) -> Vec<char> {
    s.chars().collect()
}

fn string(v: &[char]) -> String {
    v.iter().collect()
}

#[test]
fn whitespace_agrees_with_std_on_every_char() {
    for c in (0u32..=0x10FFFF).filter_map(char::from_u32) {
        assert_eq!(is_whitespace_char(c), c.is_whitespace(), "{:?}", c);
    }
}

#[test]
fn ascii_lowercase_agrees_with_std() {
    for text in ["Hello WORLD", "ÀÉÎ abc", "@Doge_Designer42", ""] {
        assert_eq!(string(&ascii_lowercase_chars(&chars(text))), text.to_ascii_lowercase());
    }
}

#[test]
fn trim_agrees_with_std() {
    for text in ["  a b  ", "\u{3000}x\u{a0}", "   ", "", "no-trim", "\u{85}\u{2028}y z\t\n"] {
        assert_eq!(string(&trim_chars(&chars(text))), text.trim());
    }
}

#[test]
fn splitting_agrees_with_std() {
    for text in ["a  b\tc\n", "  ", "", "one", "x\u{2003}y"] {
        let words: Vec<String> = words_of(&chars(text)).iter().map(|w| string(w)).collect();
        let expected: Vec<String> = text.split_whitespace().map(str::to_string).collect();
        assert_eq!(words, expected);
    }
    for text in ["Elon, musk!", "", "a--b", "ünï-cödé"] {
        let pieces: Vec<String> =
            split_chars(&chars(text), Separator::NonAlphanumeric).iter().map(|w| string(w)).collect();
        let expected: Vec<String> =
            text.split(|c: char| !c.is_alphanumeric()).map(str::to_string).collect();
        assert_eq!(pieces, expected);
    }
}

#[test]
fn substring_search_agrees_with_std() {
    for (text, needle) in [("like and repost", "and"), ("abc", ""), ("", "a"), ("aaab", "aab"), ("xyz", "yzx")] {
        assert_eq!(contains_run_chars(&chars(text), &chars(needle)), text.contains(needle));
    }
    assert_eq!(chars_of("hé"), vec!['h', 'é']);
}
