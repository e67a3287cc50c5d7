//! Classification of each character into exactly one class.
use vstd::prelude::*;

use crate::models::CharBreakdown;
use crate::text::{
    ascii_digit, ascii_punctuation, is_ascii_digit, is_ascii_punctuation, is_lower, is_upper,
    is_white, lower_char, upper_char, white_space,
};

verus! {

/// The class of a character; each character has exactly one.
#[derive(Debug, Clone, Copy, PartialEq, Eq, Structural)]
pub enum CharClass {
    Uppercase,
    Lowercase,
    Digit,
    Whitespace,
    Punctuation,
    Emoji,
    Other,
}

/// The code points counted as emoji: ten inclusive ranges and the zero-width joiner.
pub open spec fn emoji_code(u: u32) -> bool {
    (0x1F600 <= u <= 0x1F64F) || (0x1F300 <= u <= 0x1F5FF) || (0x1F680 <= u <= 0x1F6FF) || (
    0x1F1E0 <= u <= 0x1F1FF) || (0x2600 <= u <= 0x26FF) || (0x2700 <= u <= 0x27BF) || (0xFE00
        <= u <= 0xFE0F) || (0x1F900 <= u <= 0x1F9FF) || (0x1FA00 <= u <= 0x1FA6F) || (0x1FA70
        <= u <= 0x1FAFF) || u == 0x200D
}

/// The class of a character: the first of these tests that holds decides.
pub open spec fn class_of(c: char) -> CharClass {
    if upper_char(c) {
        CharClass::Uppercase
    } else if lower_char(c) {
        CharClass::Lowercase
    } else if ascii_digit(c) {
        CharClass::Digit
    } else if white_space(c) {
        CharClass::Whitespace
    } else if ascii_punctuation(c) {
        CharClass::Punctuation
    } else if emoji_code(c as u32) {
        CharClass::Emoji
    } else {
        CharClass::Other
    }
}

/// The number of characters of `s` in class `k`.
pub open spec fn class_count(s: Seq<char>, k: CharClass) -> nat
    decreases s.len(),
{
    if s.len() == 0 {
        0
    } else {
        class_count(s.drop_last(), k) + if class_of(s.last()) == k {
            1nat
        } else {
            0nat
        }
    }
}

/// Whether a character lies in one of the emoji ranges.
pub fn is_emoji(ch: char) -> (r: bool)
    ensures
        r == emoji_code(ch as u32),
{
    let code = ch as u32;
    (0x1F600 <= code && code <= 0x1F64F) || (0x1F300 <= code && code <= 0x1F5FF) || (0x1F680
        <= code && code <= 0x1F6FF) || (0x1F1E0 <= code && code <= 0x1F1FF) || (0x2600 <= code
        && code <= 0x26FF) || (0x2700 <= code && code <= 0x27BF) || (0xFE00 <= code && code
        <= 0xFE0F) || (0x1F900 <= code && code <= 0x1F9FF) || (0x1FA00 <= code && code
        <= 0x1FA6F) || (0x1FA70 <= code && code <= 0x1FAFF) || code == 0x200D
}

/// The class of one character.
pub fn classify(ch: char) -> (r: CharClass)
    ensures
        r == class_of(ch),
{
    if is_upper(ch) {
        CharClass::Uppercase
    } else if is_lower(ch) {
        CharClass::Lowercase
    } else if is_ascii_digit(ch) {
        CharClass::Digit
    } else if is_white(ch) {
        CharClass::Whitespace
    } else if is_ascii_punctuation(ch) {
        CharClass::Punctuation
    } else if is_emoji(ch) {
        CharClass::Emoji
    } else {
        CharClass::Other
    }
}

/// Counts the characters of `content` in each class; the second value is the
/// number of emoji.
pub fn char_breakdown(content: &str) -> (r: (CharBreakdown, usize))
    ensures
        r.0.uppercase == class_count(content@, CharClass::Uppercase),
        r.0.lowercase == class_count(content@, CharClass::Lowercase),
        r.0.digits == class_count(content@, CharClass::Digit),
        r.0.punctuation == class_count(content@, CharClass::Punctuation),
        r.0.whitespace == class_count(content@, CharClass::Whitespace),
        r.1 == class_count(content@, CharClass::Emoji),
{
    let chars = crate::text::chars_of(content);
    let mut uppercase: usize = 0;
    let mut lowercase: usize = 0;
    let mut digits: usize = 0;
    let mut punctuation: usize = 0;
    let mut whitespace: usize = 0;
    let mut emoji: usize = 0;
    let mut i: usize = 0;
    while i < chars.len()
        invariant
            i <= chars.len(),
            chars@ == content@,
            uppercase == class_count(chars@.take(i as int), CharClass::Uppercase),
            lowercase == class_count(chars@.take(i as int), CharClass::Lowercase),
            digits == class_count(chars@.take(i as int), CharClass::Digit),
            punctuation == class_count(chars@.take(i as int), CharClass::Punctuation),
            whitespace == class_count(chars@.take(i as int), CharClass::Whitespace),
            emoji == class_count(chars@.take(i as int), CharClass::Emoji),
            uppercase + lowercase + digits + punctuation + whitespace + emoji <= i,
        decreases chars.len() - i,
    {
        let ghost before = chars@.take(i as int);
        let ghost after = chars@.take(i + 1);
        assert(after.drop_last() == before);
        assert(after.last() == chars@[i as int]);
        match classify(chars[i]) {
            CharClass::Uppercase => uppercase = uppercase + 1,
            CharClass::Lowercase => lowercase = lowercase + 1,
            CharClass::Digit => digits = digits + 1,
            CharClass::Whitespace => whitespace = whitespace + 1,
            CharClass::Punctuation => punctuation = punctuation + 1,
            CharClass::Emoji => emoji = emoji + 1,
            CharClass::Other => {},
        }
        i = i + 1;
    }
    assert(chars@.take(i as int) == content@);
    let breakdown = CharBreakdown { uppercase, lowercase, digits, punctuation, whitespace };
    (breakdown, emoji)
}

/// Every character falls in exactly one class: the seven class counts of a
/// text add up to its number of characters.
pub proof fn lemma_classes_partition(s: Seq<char>)
    ensures
        class_count(s, CharClass::Uppercase) + class_count(s, CharClass::Lowercase) + class_count(
            s,
            CharClass::Digit,
        ) + class_count(s, CharClass::Punctuation) + class_count(s, CharClass::Whitespace)
            + class_count(s, CharClass::Emoji) + class_count(s, CharClass::Other) == s.len(),
    decreases s.len(),
{
    if s.len() > 0 {
        lemma_classes_partition(s.drop_last());
    }
}

} // verus!
