use brok::offset::{cut, find_offset};
use brok::text::{
    blank, chars_of, contains, final_line, find, join, matches_at, same_text, text_of, trim,
    trim_end_of, word,
};

fn chars(text: &str) -> Vec<char> {
    text.chars().collect()
}

#[test]
fn find_gives_the_first_place() {
    assert_eq!(find(&chars("abcabc"), &chars("bc")), Some(1));
    assert_eq!(find(&chars("aaab"), &chars("aab")), Some(1));
    assert_eq!(find(&chars("abc"), &chars("")), Some(0));
    assert_eq!(find(&chars(""), &chars("")), Some(0));
    assert_eq!(find(&chars("ab"), &chars("abc")), None);
    assert_eq!(find(&chars("abc"), &chars("x")), None);
    assert_eq!(find(&chars("über alles"), &chars("alles")), Some(5));
}

#[test]
fn contains_and_matches_agree_with_std() {
    for (text, pattern) in [("hello", "ell"), ("hello", "h"), ("hello", "x"), ("", "x"), ("x", "")] {
        assert_eq!(contains(&chars(text), &chars(pattern)), text.contains(pattern));
        assert_eq!(matches_at(&chars(text), &chars(pattern), 0), text.starts_with(pattern));
    }
    assert!(!matches_at(&chars("abc"), &chars("c"), 5));
    assert!(matches_at(&chars("abc"), &chars("c"), 2));
}

#[test]
fn texts_survive_their_characters() {
    for text in ["", "abc", "naïve 黑风雷 👋"] {
        assert_eq!(chars_of(text), chars(text));
        assert_eq!(text_of(&chars(text)), text);
    }
    assert!(same_text("naïve", "naïve"));
    assert!(!same_text("naïve", "naive"));
    assert!(!same_text("a", "ab"));
}

#[test]
fn trimming_agrees_with_std() {
    for text in [
        "", " ", "a", " a ", "\t\n a b \r\n", "\u{a0}x\u{3000}", "\u{85}y\u{2003}", "\u{200b}z",
        "\u{1680}q\u{205f}\u{202f}\u{2028}\u{2029}", "\u{180e}k\u{feff}",
    ] {
        assert_eq!(text_of(trim(&chars(text))), text.trim());
        assert_eq!(text_of(trim(trim(&chars(text)))), text.trim());
        assert_eq!(blank(text), text.trim().is_empty());
    }
    assert_eq!(text_of(trim_end_of(&chars("what??"), '?')), "what");
    assert_eq!(text_of(trim_end_of(&chars("?what"), '?')), "?what");
    assert_eq!(text_of(trim_end_of(&chars("???"), '?')), "");
}

#[test]
fn white_space_is_the_unicode_property() {
    let listed = |c: char| {
        ('\u{9}'..='\u{d}').contains(&c)
            || c == ' '
            || c == '\u{85}'
            || c == '\u{a0}'
            || c == '\u{1680}'
            || ('\u{2000}'..='\u{200a}').contains(&c)
            || ['\u{2028}', '\u{2029}', '\u{202f}', '\u{205f}', '\u{3000}'].contains(&c)
    };
    for code in 0..=0x10ffff_u32 {
        if let Some(c) = char::from_u32(code) {
            assert_eq!(c.is_whitespace(), listed(c), "{code:x}");
        }
    }
}

#[test]
fn ascii_classes_are_those_of_unicode() {
    for code in 0..0x80_u8 {
        let c = code as char;
        assert_eq!(c.is_numeric(), c.is_ascii_digit());
        assert_eq!(c.is_alphabetic(), c.is_ascii_alphabetic());
        assert_eq!(c.is_alphanumeric(), c.is_ascii_alphanumeric());
        assert_eq!(c.to_string().to_lowercase(), c.to_string().to_ascii_lowercase());
    }
}

#[test]
fn words_agree_with_std() {
    for text in ["", "  ", "one", " one two", "\tone\u{a0}two", "one "] {
        let found = chars(text);
        assert_eq!(word(&found).map(text_of), text.split_whitespace().next().map(str::to_string));
    }
}

#[test]
fn last_lines_agree_with_std() {
    for text in [
        "", "a", "a\n", "a\nb", "a\nb\n", "a\r\n", "a\n\r\n", "a\n\n", "\n", "a\r", "a\nb\r", "\r\n",
    ] {
        let found = chars(text);
        assert_eq!(final_line(&found).map(text_of), text.lines().last().map(str::to_string));
    }
}

#[test]
fn joining_agrees_with_std() {
    for items in [vec![], vec!["a"], vec!["a", "", "b"]] {
        let strings: Vec<String> = items.iter().map(|s| s.to_string()).collect();
        assert_eq!(join(&strings, "\n"), strings.join("\n"));
        assert_eq!(join(&strings, ", "), strings.join(", "));
    }
}

#[test]
fn offsets_count_bytes() {
    assert_eq!(find_offset(&chars("é solve x"), &chars("solve ")), Some(9));
    assert_eq!(find_offset(&chars("黑👋a"), &chars("a")), Some(8));
    assert_eq!(find_offset(&chars("abc"), &chars("x")), None);
    let text = chars("é黑👋a");
    let std = "é黑👋a";
    for offset in 0..14_usize {
        let expected = std.get(offset..).map(str::to_string);
        assert_eq!(cut(&text, offset as u128).map(text_of), expected);
    }
}
