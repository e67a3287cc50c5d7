use glyph::classify::{char_breakdown, classify, is_emoji, CharClass};
use glyph::discovery::{is_text_extension, is_text_file};
use glyph::format::{format_number, truncate};
use glyph::frequency::{rank_words, split_tokens, word_frequencies, word_key_of};
use glyph::search::{count_matches, search_content, search_file};
use glyph::text::chars_of;

#[test]
fn class_counts_add_up_to_the_characters() {
    let content = "Ab1 ,\t中😀\u{200D}é";
    let (b, emoji) = char_breakdown(content);
    assert_eq!(b.uppercase, 1);
    assert_eq!(b.lowercase, 2);
    assert_eq!(b.digits, 1);
    assert_eq!(b.punctuation, 1);
    assert_eq!(b.whitespace, 2);
    assert_eq!(emoji, 2);
    let other = 1;
    let total = b.uppercase + b.lowercase + b.digits + b.punctuation + b.whitespace + emoji + other;
    assert_eq!(total, content.chars().count());
}

#[test]
fn classes_follow_their_order() {
    assert_eq!(classify('A'), CharClass::Uppercase);
    assert_eq!(classify('z'), CharClass::Lowercase);
    assert_eq!(classify('7'), CharClass::Digit);
    assert_eq!(classify('\n'), CharClass::Whitespace);
    assert_eq!(classify('~'), CharClass::Punctuation);
    assert_eq!(classify('🚀'), CharClass::Emoji);
    assert_eq!(classify('中'), CharClass::Other);
    assert_eq!(classify('٣'), CharClass::Other);
}

#[test]
fn emoji_ranges_are_inclusive() {
    assert!(is_emoji('\u{1F600}'));
    assert!(is_emoji('\u{1F64F}'));
    assert!(is_emoji('\u{200D}'));
    assert!(is_emoji('\u{FE0F}'));
    assert!(!is_emoji('\u{1F650}'));
    assert!(!is_emoji('\u{200C}'));
    assert!(!is_emoji('a'));
}

#[test]
fn word_keys_drop_punctuation_and_lower_case() {
    let key = word_key_of(&chars_of("\"Don't!\""));
    assert_eq!(key, "don't");
    let key = word_key_of(&chars_of("HELLO,"));
    assert_eq!(key, "hello");
    let key = word_key_of(&chars_of("--"));
    assert_eq!(key, "");
}

#[test]
fn tokens_split_on_any_whitespace() {
    let toks = split_tokens(&chars_of("  a\tbb\n\u{3000}c  "));
    let toks: Vec<String> = toks.iter().map(|t| t.iter().collect()).collect();
    assert_eq!(toks, vec!["a", "bb", "c"]);
}

#[test]
fn ranking_is_bounded_and_sorted() {
    let r = word_frequencies("b a c a b a d -- !!", 2);
    assert_eq!(r.len(), 2);
    assert_eq!((r[0].word.as_str(), r[0].count), ("a", 3));
    assert_eq!((r[1].word.as_str(), r[1].count), ("b", 2));
    let all = word_frequencies("b a c a b a d", 10);
    assert_eq!(all.len(), 4);
    for w in all.windows(2) {
        assert!(w[0].count >= w[1].count);
    }
    assert!(word_frequencies("b a c", 0).is_empty());
}

#[test]
fn equal_counts_keep_first_appearance() {
    let words: Vec<String> = ["zeta", "alpha", "mid", "alpha", "zeta"].iter().map(|s| s.to_string()).collect();
    let r = rank_words(&words, 3);
    let got: Vec<(&str, usize)> = r.iter().map(|w| (w.word.as_str(), w.count)).collect();
    assert_eq!(got, vec![("zeta", 2), ("alpha", 2), ("mid", 1)]);
}

#[test]
fn search_counts_without_overlap() {
    assert_eq!(count_matches("aaa", "aa"), 1);
    assert_eq!(count_matches("aaaa", "aa"), 2);
    assert_eq!(count_matches("abcabc", "bc"), 2);
    assert_eq!(count_matches("abc", ""), 0);
    assert_eq!(count_matches("", "a"), 0);
    let r = search_content("f.txt".to_string(), "aaa", "aa");
    assert_eq!(r.occurrences, 1);
}

#[test]
fn search_ignores_case() {
    let content = "Hello world. HELLO again, hello!";
    let upper = search_content("f.txt".to_string(), content, "HELLO");
    let lower = search_content("f.txt".to_string(), content, "hello");
    assert_eq!(upper.occurrences, 3);
    assert_eq!(lower.occurrences, 3);
    assert_eq!(upper.pattern, "HELLO");
    assert_eq!(upper.file_path, "f.txt");
}

#[test]
fn search_of_bytes() {
    let r = search_file("f.txt".to_string(), &b"Ab ab AB".to_vec(), "aB").unwrap();
    assert_eq!(r.occurrences, 3);
    assert!(search_file("g.bin".to_string(), &vec![0xc3], "a").is_err());
}

#[test]
fn numbers_get_thousands_separators() {
    assert_eq!(format_number(0), "0");
    assert_eq!(format_number(7), "7");
    assert_eq!(format_number(42), "42");
    assert_eq!(format_number(999), "999");
    assert_eq!(format_number(1000), "1,000");
    assert_eq!(format_number(1005), "1,005");
    assert_eq!(format_number(1234567), "1,234,567");
}

#[test]
fn long_lines_are_truncated() {
    assert_eq!(truncate("hello", 3), "hel...");
    assert_eq!(truncate("hello", 5), "hello");
    assert_eq!(truncate("héllo wörld", 7), "héllo w...");
    assert_eq!(truncate("", 0), "");
}

#[test]
fn text_files_by_extension() {
    assert!(is_text_file("notes/readme.md"));
    assert!(is_text_file("src/MAIN.RS"));
    assert!(is_text_file("build/app.Dockerfile"));
    assert!(!is_text_file("photo.png"));
    assert!(!is_text_file("Makefile"));
    assert!(!is_text_file(".env"));
    assert!(is_text_extension("toml"));
    assert!(!is_text_extension("TOML"));
}
