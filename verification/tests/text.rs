use mtb_terrain::text::{
    char_len_utf8, chars_eq, chars_of, contains_chars, matches_at, parse_unsigned_chars, remove_all_chars,
    split_chars, split_words, string_of, trim_chars,
};

fn cs(s: &str) -> Vec<char> {
    s.chars().collect()
}

#[test]
fn chars_round_trip() {
    assert_eq!(chars_of("añb"), vec!['a', 'ñ', 'b']);
    assert_eq!(string_of(&cs("añb")), "añb");
    assert!(chars_eq(&cs("npd"), "npd"));
    assert!(!chars_eq(&cs("npd"), "np"));
}

#[test]
fn split_words_as_split_whitespace() {
    let got: Vec<String> = split_words(&cs("  npd\tid:1 \n loc:2  ")).iter().map(|w| w.iter().collect()).collect();
    let want: Vec<String> = "  npd\tid:1 \n loc:2  ".split_whitespace().map(|s| s.to_string()).collect();
    assert_eq!(got, want);
    assert!(split_words(&cs("   ")).is_empty());
}

#[test]
fn split_chars_as_split() {
    let got: Vec<String> = split_chars(&cs("1,,2,"), ',').iter().map(|w| w.iter().collect()).collect();
    assert_eq!(got, vec!["1", "", "2", ""]);
    assert_eq!(split_chars(&Vec::new(), ',').len(), 1);
}

#[test]
fn trim_as_str_trim() {
    assert_eq!(trim_chars(&cs("  a b \t")), cs("a b"));
    assert_eq!(trim_chars(&cs("   ")), Vec::<char>::new());
}

#[test]
fn substring_search_and_removal() {
    assert!(contains_chars(&cs("xid:3"), &cs("id:")));
    assert!(!contains_chars(&cs("xi:d"), &cs("id:")));
    assert!(matches_at(&cs("xid:3"), &cs("id"), 1));
    assert!(!matches_at(&cs("xid:3"), &cs("id"), 2));
    assert_eq!(remove_all_chars(&cs("id:1id:2"), &cs("id:")), cs("12"));
    assert_eq!(remove_all_chars(&cs("aaa"), &cs("aa")), cs("a"));
    assert_eq!(remove_all_chars(&cs("abc"), &Vec::new()), cs("abc"));
}

#[test]
fn parse_unsigned_as_str_parse() {
    assert_eq!(parse_unsigned_chars(&cs("0"), 10), Some(0));
    assert_eq!(parse_unsigned_chars(&cs("+10"), 10), Some(10));
    assert_eq!(parse_unsigned_chars(&cs("11"), 10), None);
    assert_eq!(parse_unsigned_chars(&cs("+"), 10), None);
    assert_eq!(parse_unsigned_chars(&cs("1a"), 10), None);
    assert_eq!(parse_unsigned_chars(&cs(" 1"), 10), None);
}

#[test]
fn utf8_lengths_match_len_utf8() {
    for c in ['a', 'ñ', '€', '😀'] {
        assert_eq!(char_len_utf8(c), c.len_utf8());
    }
}

#[test]
fn unicode_white_space_splits_words() {
    let s = "a\u{85}b\u{3000}c\u{2009}d\u{A0}e\u{200B}f";
    let got: Vec<String> = split_words(&cs(s)).iter().map(|w| w.iter().collect()).collect();
    let want: Vec<String> = s.split_whitespace().map(|w| w.to_string()).collect();
    assert_eq!(got, want);
    assert_eq!(got.len(), 5);
}
