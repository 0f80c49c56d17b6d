use trans_core::language::{Language, LanguagePair};

#[test]
fn supported_pairs_in_order() {
    let pairs = LanguagePair::supported_pairs();
    let labels: Vec<String> = pairs.iter().map(|p| p.label()).collect();
    assert_eq!(labels, vec!["en -> en", "id -> id", "en -> id", "id -> en"]);
    assert_eq!(pairs[2], LanguagePair { from: Language::En, to: Language::Id });
}

#[test]
fn language_codes() {
    assert_eq!(Language::En.code(), "en");
    assert_eq!(Language::Id.code(), "id");
}
