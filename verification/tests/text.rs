use photo_tagger::numbers::{decimal_text, parse_unsigned};
use photo_tagger::reply::strip_markdown_fence;
use photo_tagger::text::{
    capitalize_sentences, same_text, strip_prefix, strip_suffix, to_sentence_case,
};

#[test]
fn sentence_case_lowers_and_capitalizes() {
    assert_eq!(to_sentence_case("Golden Retriever Runs On The Beach"), "Golden retriever runs on the beach");
    assert_eq!(to_sentence_case("  HELLO WORLD. second ONE! third? FOURTH  "), "Hello world. Second one! Third? Fourth");
    assert_eq!(to_sentence_case("SMPTE color bars"), "Smpte color bars");
}

#[test]
fn sentence_case_skips_to_the_first_letter() {
    assert_eq!(to_sentence_case("3 dogs. 4 CATS"), "3 Dogs. 4 Cats");
    assert_eq!(to_sentence_case("'quoted' text"), "'Quoted' text");
}

#[test]
fn a_mark_inside_a_number_or_a_word_ends_no_sentence() {
    assert_eq!(to_sentence_case("a 3.5mm jack"), "A 3.5mm jack");
    assert_eq!(to_sentence_case("a.b.c"), "A.b.c");
    assert_eq!(to_sentence_case("wait...what"), "Wait...what");
    assert_eq!(to_sentence_case("the 2.4ghz router at example.com"), "The 2.4ghz router at example.com");
}

#[test]
fn a_sentence_ends_where_white_space_follows_its_marks() {
    assert_eq!(to_sentence_case("WAIT... what?! YES"), "Wait... What?! Yes");
    assert_eq!(to_sentence_case("one.\ttwo!\u{3000}three?\nfour"), "One.\tTwo!\u{3000}Three?\nFour");
    assert_eq!(to_sentence_case("it ends . here"), "It ends . Here");
    assert_eq!(to_sentence_case("the end."), "The end.");
}

#[test]
fn symbols_may_follow_the_marks() {
    assert_eq!(to_sentence_case("a sign reads \"stop.\" cars wait"), "A sign reads \"stop.\" Cars wait");
    assert_eq!(to_sentence_case("a cat (asleep!) on a mat"), "A cat (asleep!) On a mat");
    assert_eq!(to_sentence_case("one.')]} two"), "One.')]} Two");
    assert_eq!(to_sentence_case("run.* go"), "Run.* Go");
    assert_eq!(to_sentence_case("a party!\u{1f389} all dance"), "A party!\u{1f389} All dance");
    for quote in ['\u{201c}', '\u{201d}', '\u{2018}', '\u{2019}', '\u{ab}', '\u{bb}', '\u{203a}'] {
        assert_eq!(
            to_sentence_case(&format!("one.{} two", quote)),
            format!("One.{} Two", quote)
        );
    }
}

#[test]
fn a_sentence_goes_on_behind_an_abbreviation() {
    assert_eq!(to_sentence_case("fruit, e.g., an apple"), "Fruit, e.g., an apple");
    assert_eq!(to_sentence_case("boats etc.; also i.e.: water"), "Boats etc.; also i.e.: water");
    assert_eq!(to_sentence_case("one.\"two"), "One.\"two");
    assert_eq!(to_sentence_case("a 3.5 mm jack"), "A 3.5 mm jack");
}

#[test]
fn sentence_case_does_not_depend_on_the_case_of_the_text() {
    for text in ["a dog. it RUNS!", "A DOG. IT RUNS!", "A Dog. It Runs!"] {
        assert_eq!(to_sentence_case(text), "A dog. It runs!");
    }
}

#[test]
fn sentence_case_of_blank_text_is_empty() {
    assert_eq!(to_sentence_case(""), "");
    assert_eq!(to_sentence_case(" \t\n\u{3000} "), "");
}

#[test]
fn sentence_case_beyond_ascii() {
    assert_eq!(to_sentence_case("ÉCOLE À PARIS"), "École à paris");
    assert_eq!(to_sentence_case("ßtraße"), "SStraße");
    assert_eq!(to_sentence_case("ΟΔΟΣ"), "Οδος");
}

#[test]
fn sentence_case_twice_is_sentence_case_once() {
    for text in ["A B. C", "  x! y? Z ", "no end", "...", "ABC.DEF", "AB. \"CD.\" EF"] {
        let once = to_sentence_case(text);
        assert_eq!(to_sentence_case(&once), once);
    }
}

#[test]
fn capitalizing_leaves_other_letters_alone() {
    assert_eq!(capitalize_sentences("hELLO. wORLD"), "HELLO. WORLD");
    assert_eq!(capitalize_sentences(" a"), " A");
}

#[test]
fn ascii_letters_are_the_ascii_alphabetic_characters() {
    for b in 0u8..128 {
        let c = b as char;
        let expected = if c.is_ascii_lowercase() {
            c.to_ascii_uppercase()
        } else {
            c
        };
        assert_eq!(capitalize_sentences(&c.to_string()), expected.to_string());
        let trimmed_lower = c.to_ascii_lowercase().to_string();
        let cased = to_sentence_case(&format!("A{}A", c));
        assert_eq!(cased, format!("A{}a", trimmed_lower));
        let spaced = to_sentence_case(&format!("A{} A", c));
        let last = if matches!(c, '.' | '!' | '?') { "A" } else { "a" };
        assert_eq!(spaced, format!("A{} {}", trimmed_lower, last));
    }
}

#[test]
fn trimming_removes_exactly_the_white_space_characters() {
    let white: Vec<u32> = vec![
        0x9, 0xa, 0xb, 0xc, 0xd, 0x20, 0x85, 0xa0, 0x1680, 0x2000, 0x2001, 0x2002, 0x2003, 0x2004,
        0x2005, 0x2006, 0x2007, 0x2008, 0x2009, 0x200a, 0x2028, 0x2029, 0x202f, 0x205f, 0x3000,
    ];
    for u in 0..=0x10ffffu32 {
        if let Some(c) = char::from_u32(u) {
            let text = format!("{}x{}", c, c);
            let stripped = strip_markdown_fence(&text);
            if white.contains(&u) {
                assert_eq!(stripped, "x");
            } else {
                assert_eq!(stripped, text);
            }
        }
    }
}

#[test]
fn prefixes_and_suffixes_come_off() {
    assert_eq!(strip_prefix("caféteria", "café"), Some("teria"));
    assert_eq!(strip_prefix("ab", "abc"), None);
    assert_eq!(strip_prefix("xbc", "ab"), None);
    assert_eq!(strip_prefix("abc", ""), Some("abc"));
    assert_eq!(strip_suffix("crème brûlée", "brûlée"), Some("crème "));
    assert_eq!(strip_suffix("ab", "cab"), None);
    assert_eq!(strip_suffix("ab", "b"), Some("a"));
    assert!(same_text("é", "é"));
    assert!(!same_text("a", "A"));
}

#[test]
fn decimal_text_is_exact() {
    assert_eq!(decimal_text(0), "0");
    assert_eq!(decimal_text(9), "9");
    assert_eq!(decimal_text(10), "10");
    assert_eq!(decimal_text(2050), "2050");
    assert_eq!(decimal_text(u64::MAX), u64::MAX.to_string());
}

#[test]
fn numbers_are_read_as_the_standard_library_reads_them() {
    let samples = [
        "", "+", "-", "0", "+0", "-0", "007", "2000", "+2000", " 1", "1 ", "1_000", "12a", "a12",
        "18446744073709551615", "18446744073709551616", "18446744073709551620",
        "99999999999999999999", "00000000000000000000000001", "++1", "٣", "255", "256",
    ];
    for s in samples {
        assert_eq!(parse_unsigned(s, u64::MAX), s.parse::<u64>().ok(), "{}", s);
        assert_eq!(parse_unsigned(s, 255), s.parse::<u8>().ok().map(u64::from), "{}", s);
    }
}
