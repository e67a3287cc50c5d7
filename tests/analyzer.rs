use glyph::analyzer::{analyze, analyze_content, reading_time_millis};
use glyph::error::GlyphError;

const SIMPLE: &str = "The quick brown fox jumps over the lazy dog.\nThe dog sleeps.\nA fox runs, the fox hides!\n";

const UNICODE: &str = "Héllo wörld 😀 🚀\nnaïve café ☀ ✨\n";

#[test]
fn test_analyze_simple_file() {
    let stats = analyze("simple.txt".to_string(), &SIMPLE.as_bytes().to_vec(), 5).unwrap();

    assert!(stats.words > 0);
    assert!(stats.lines > 0);
    assert!(stats.characters > 0);
    assert!(stats.size_bytes > 0);
    assert!(stats.reading_time_millis > 0);
}

#[test]
fn test_analyze_returns_top_words() {
    let stats = analyze("simple.txt".to_string(), &SIMPLE.as_bytes().to_vec(), 3).unwrap();

    assert!(stats.top_words.len() <= 3);
    for window in stats.top_words.windows(2) {
        assert!(window[0].count >= window[1].count);
    }
}

#[test]
fn test_analyze_empty_file() {
    let stats = analyze("empty.txt".to_string(), &Vec::new(), 5).unwrap();

    assert_eq!(stats.words, 0);
    assert_eq!(stats.characters, 0);
    assert!(stats.top_words.is_empty());
}

#[test]
fn test_analyze_unicode_file() {
    let stats = analyze("unicode.txt".to_string(), &UNICODE.as_bytes().to_vec(), 5).unwrap();

    assert!(stats.emoji_count > 0);
    assert!(stats.characters > 0);
}

#[test]
fn simple_text_exact_statistics() {
    let stats = analyze("simple.txt".to_string(), &SIMPLE.as_bytes().to_vec(), 3).unwrap();
    assert_eq!(stats.file_path, "simple.txt");
    assert_eq!(stats.size_bytes, SIMPLE.len() as u64);
    assert_eq!(stats.lines, 3);
    assert_eq!(stats.words, 18);
    assert_eq!(stats.characters, SIMPLE.chars().count());
    assert_eq!(stats.reading_time_millis, 18 * 300);
    let top: Vec<(String, usize)> =
        stats.top_words.iter().map(|w| (w.word.clone(), w.count)).collect();
    assert_eq!(
        top,
        vec![("the".to_string(), 4), ("fox".to_string(), 3), ("dog".to_string(), 2)]
    );
    assert_eq!(stats.longest_line.line_number, 1);
    assert_eq!(stats.longest_line.content, "The quick brown fox jumps over the lazy dog.");
    assert_eq!(stats.shortest_line.line_number, 2);
    assert_eq!(stats.shortest_line.content, "The dog sleeps.");
}

#[test]
fn empty_text_uses_placeholder_lines() {
    let stats = analyze_content("empty.txt".to_string(), 0, "", 5);
    assert_eq!(stats.words, 0);
    assert_eq!(stats.characters, 0);
    assert_eq!(stats.lines, 0);
    assert_eq!(stats.reading_time_millis, 0);
    assert!(stats.top_words.is_empty());
    assert_eq!(stats.longest_line.line_number, 0);
    assert_eq!(stats.longest_line.content, "");
    assert_eq!(stats.shortest_line.line_number, 0);
    assert_eq!(stats.shortest_line.content, "");
}

#[test]
fn mixed_greeting_scenario() {
    let content = "Hello hello HELLO! 123 😀";
    let stats = analyze_content("greeting.txt".to_string(), content.len() as u64, content, 2);
    assert_eq!(stats.words, 5);
    assert_eq!(stats.characters, 24);
    assert_eq!(stats.emoji_count, 1);
    assert_eq!(stats.char_breakdown.uppercase, 6);
    assert_eq!(stats.char_breakdown.lowercase, 9);
    assert_eq!(stats.char_breakdown.digits, 3);
    assert_eq!(stats.char_breakdown.punctuation, 1);
    assert_eq!(stats.char_breakdown.whitespace, 4);
    assert_eq!(stats.top_words.len(), 2);
    assert_eq!(stats.top_words[0].word, "hello");
    assert_eq!(stats.top_words[0].count, 3);
    assert_eq!(stats.top_words[1].word, "123");
    assert_eq!(stats.top_words[1].count, 1);
}

#[test]
fn longest_and_shortest_lines_scenario() {
    let content = "short\na much longer line of text\n\n";
    let stats = analyze_content("lines.txt".to_string(), content.len() as u64, content, 5);
    assert_eq!(stats.lines, 3);
    assert_eq!(stats.longest_line.line_number, 2);
    assert_eq!(stats.longest_line.content, "a much longer line of text");
    assert_eq!(stats.shortest_line.line_number, 1);
    assert_eq!(stats.shortest_line.content, "short");
}

#[test]
fn equal_lines_prefer_the_first() {
    let content = "bb\naa\r\ncc\nx\ny";
    let stats = analyze_content("ties.txt".to_string(), content.len() as u64, content, 5);
    assert_eq!(stats.lines, 5);
    assert_eq!(stats.longest_line.line_number, 1);
    assert_eq!(stats.longest_line.content, "bb");
    assert_eq!(stats.shortest_line.line_number, 4);
    assert_eq!(stats.shortest_line.content, "x");
}

#[test]
fn line_lengths_count_characters_not_bytes() {
    let content = "ééé\nabcd";
    let stats = analyze_content("len.txt".to_string(), content.len() as u64, content, 5);
    assert_eq!(stats.longest_line.line_number, 2);
    assert_eq!(stats.shortest_line.line_number, 1);
}

#[test]
fn invalid_utf8_fails_and_a_valid_file_still_succeeds() {
    let bad: Vec<u8> = vec![0x66, 0xff, 0xfe, 0x6f];
    match analyze("bad.bin".to_string(), &bad, 5) {
        Err(GlyphError::InvalidUtf8(p)) => assert_eq!(p, "bad.bin"),
        other => panic!("unexpected result: {:?}", other),
    }
    let good = analyze("good.txt".to_string(), &b"one two".to_vec(), 5).unwrap();
    assert_eq!(good.words, 2);
    assert_eq!(good.size_bytes, 7);
}

#[test]
fn decoded_bytes_give_characters() {
    let bytes = "é😀".as_bytes().to_vec();
    let stats = analyze("u.txt".to_string(), &bytes, 5).unwrap();
    assert_eq!(stats.size_bytes, 6);
    assert_eq!(stats.characters, 2);
    assert_eq!(stats.char_breakdown.lowercase, 1);
    assert_eq!(stats.emoji_count, 1);
}

#[test]
fn reading_time_is_three_tenths_of_a_second_a_word() {
    assert_eq!(reading_time_millis(0), 0);
    assert_eq!(reading_time_millis(1), 300);
    assert_eq!(reading_time_millis(200), 60_000);
    let secs = reading_time_millis(7) as f64 / 1000.0;
    assert!((secs - 7.0 * 0.3).abs() < 1e-9);
}
