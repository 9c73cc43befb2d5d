use photo_tagger::metadata::{
    keep_distinct, normalize, normalize_keywords, normalize_results, StockMetadata,
};

fn words(list: &[&str]) -> Vec<String> {
    list.iter().map(|s| s.to_string()).collect()
}

fn sample() -> StockMetadata {
    StockMetadata {
        title: "A Dog On THE Beach".to_string(),
        description: "A DOG runs. The Sun shines.".to_string(),
        keywords: words(&["Dog", " beach ", "DOG", "", "  ", "Sun", "BEACH"]),
    }
}

#[test]
fn keywords_are_lowered_trimmed_and_distinct() {
    assert_eq!(
        normalize_keywords(&words(&["Dog", " beach ", "DOG", "", "  ", "Sun", "BEACH"])),
        words(&["dog", "beach", "sun"])
    );
}

#[test]
fn keywords_keep_the_order_of_first_occurrence() {
    assert_eq!(normalize_keywords(&words(&["b", "A", "B", "a", "c"])), words(&["b", "a", "c"]));
}

#[test]
fn keywords_beyond_ascii_are_lowered() {
    assert_eq!(normalize_keywords(&words(&["ÉTÉ", "été", "CAFÉ"])), words(&["été", "café"]));
}

#[test]
fn no_keywords_stay_none() {
    assert_eq!(normalize_keywords(&Vec::new()), Vec::<String>::new());
    assert_eq!(normalize_keywords(&words(&[" ", "\t"])), Vec::<String>::new());
}

#[test]
fn distinct_texts_keep_their_case() {
    assert_eq!(keep_distinct(&words(&["A", "a", "", "A", "b"])), words(&["A", "a", "b"]));
}

#[test]
fn many_keywords_are_all_kept() {
    let many: Vec<String> = (0..30).map(|i| format!("Keyword {}", i)).collect();
    let lowered: Vec<String> = (0..30).map(|i| format!("keyword {}", i)).collect();
    assert_eq!(normalize_keywords(&many), lowered);
}

#[test]
fn metadata_is_normalized() {
    let m = normalize(&sample());
    assert_eq!(m.title, "A dog on the beach");
    assert_eq!(m.description, "A dog runs. The sun shines.");
    assert_eq!(m.keywords, words(&["dog", "beach", "sun"]));
}

#[test]
fn normalizing_twice_changes_nothing() {
    let once = normalize(&sample());
    assert_eq!(normalize(&once), once);
}

#[test]
fn every_result_is_normalized() {
    let list = vec![sample(), sample().clone()];
    assert_eq!(normalize_results(&list), vec![normalize(&sample()), normalize(&sample())]);
    assert_eq!(normalize_results(&Vec::new()), Vec::new());
}
