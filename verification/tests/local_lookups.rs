use tantivy::schema::Value;
use trans_core::entry::Entry;
use trans_core::index::{
    check_schema, entry_document, exact_plan, lookup_in, language_restriction, local_output, near_plan, result_from_stored, LocalProvider,
    SearchError, SearchIndex,
};
use trans_core::schema::build_schema;
use trans_core::search::SearchResult;

fn entry(word: &str, definition: &str, source_lang: &str, target_lang: &str) -> Entry {
    Entry {
        word: word.to_string(),
        pos: "noun".to_string(),
        pronunciation: String::new(),
        definition: definition.to_string(),
        source_lang: source_lang.to_string(),
        target_lang: target_lang.to_string(),
        source: "freedict".to_string(),
    }
}

fn index_of(entries: &[Entry]) -> SearchIndex {
    let schema = build_schema();
    let index = tantivy::Index::create_in_ram(schema.clone());
    let mut writer: tantivy::IndexWriter = index.writer_with_num_threads(1, 20_000_000).unwrap();
    for e in entries {
        writer.add_document(entry_document(&schema, e).unwrap()).unwrap();
    }
    writer.commit().unwrap();
    SearchIndex::open(index.reader().unwrap())
}

fn sample() -> SearchIndex {
    index_of(&[
        entry("Ability", "kemampuan", "en", "id"),
        entry("ability", "the power to do something", "en", "en"),
        entry("rumah", "house", "id", "en"),
        entry("mobility", "mobilitas", "en", "id"),
    ])
}

fn definitions(results: &[SearchResult]) -> Vec<String> {
    let mut d: Vec<String> = results.iter().map(|r| r.definition.clone()).collect();
    d.sort();
    d
}

#[test]
fn exact_lookup_ignores_case() {
    let idx = sample();
    let found = idx.search_exact("ABILITY", None, 10).unwrap();
    assert_eq!(definitions(&found), vec!["kemampuan", "the power to do something"]);
}

#[test]
fn exact_lookup_restricted_to_a_pair() {
    let idx = sample();
    let found = idx.search_exact("ability", Some(("en", "id")), 10).unwrap();
    assert_eq!(found.len(), 1);
    assert_eq!(found[0].word, "Ability");
    assert_eq!(found[0].pos, "noun");
    assert_eq!(found[0].pronunciation, "");
    assert_eq!(found[0].source, "freedict");
}

#[test]
fn limit_is_respected() {
    let idx = sample();
    assert_eq!(idx.search_exact("ability", None, 1).unwrap().len(), 1);
}

#[test]
fn fuzzy_lookup_tolerates_one_typo() {
    let idx = sample();
    assert!(idx.search_exact("abilty", None, 10).unwrap().is_empty());
    let found = idx.search_fuzzy("abilty", Some(("en", "id")), 10).unwrap();
    assert_eq!(definitions(&found), vec!["kemampuan"]);
    let first_letter = idx.search_fuzzy("xbility", Some(("en", "id")), 10).unwrap();
    assert_eq!(definitions(&first_letter), vec!["kemampuan"]);
}

#[test]
fn search_prefers_exact_matches() {
    let idx = sample();
    let out = idx.search("rumah", None).unwrap();
    assert!(out.exact);
    assert_eq!(out.suggestion, None);
    assert_eq!(definitions(&out.entries), vec!["house"]);
}

#[test]
fn search_falls_back_to_near_matches_with_a_suggestion() {
    let idx = sample();
    let out = idx.search("rumeh", Some(("id", "en"))).unwrap();
    assert!(!out.exact);
    assert_eq!(out.suggestion, Some("rumah".to_string()));
    assert_eq!(definitions(&out.entries), vec!["house"]);
}

#[test]
fn search_without_any_match() {
    let idx = sample();
    let out = idx.search("zzzzzz", None).unwrap();
    assert!(!out.exact);
    assert_eq!(out.suggestion, None);
    assert!(out.entries.is_empty());
}

#[test]
fn local_provider_treats_empty_pair_as_no_restriction() {
    let provider = LocalProvider::new(sample());
    assert_eq!(provider.search("ability", ("", "")).unwrap().entries.len(), 2);
    assert_eq!(provider.search("ability", ("en", "en")).unwrap().entries.len(), 1);
    assert_eq!(provider.name(), "local");
}

#[test]
fn language_restriction_needs_both_languages_empty() {
    assert_eq!(language_restriction(("", "")), None);
    assert_eq!(language_restriction(("en", "")), Some(("en", "")));
    assert_eq!(language_restriction(("", "id")), Some(("", "id")));
}

#[test]
fn exact_plan_looks_up_the_lower_cased_word() {
    let p = exact_plan("ÄBility", None);
    assert_eq!(p.field, "word_lower");
    assert_eq!(p.text, "äbility");
    assert_eq!(p.edits, 0);
    assert!(!p.transposition);
    assert!(p.filters.is_empty());
}

#[test]
fn near_plan_allows_one_edit_and_filters_the_pair() {
    let p = near_plan("Rumah", Some(("id", "en")));
    assert_eq!(p.field, "word_lower");
    assert_eq!(p.text, "rumah");
    assert_eq!(p.edits, 1);
    assert!(p.transposition);
    assert_eq!(
        p.filters,
        vec![("source_lang".to_string(), "id".to_string()), ("target_lang".to_string(), "en".to_string())]
    );
}

#[test]
fn missing_field_is_reported() {
    let mut builder = tantivy::schema::Schema::builder();
    builder.add_text_field("word", tantivy::schema::STRING | tantivy::schema::STORED);
    let schema = builder.build();
    let index = tantivy::Index::create_in_ram(schema.clone());
    let idx = SearchIndex::open(index.reader().unwrap());
    assert!(matches!(idx.search_exact("kata", None, 5), Err(SearchError::Backend(_))));
    assert_eq!(check_schema(&schema), Err(SearchError::MissingField("word_lower".to_string())));
    assert_eq!(check_schema(&build_schema()), Ok(()));
}

#[test]
fn entry_document_stores_each_field_by_name() {
    let schema = build_schema();
    let e = entry("Rumah", "house", "id", "en");
    let doc = entry_document(&schema, &e).unwrap();
    let first = |name: &str| doc.get_first(schema.get_field(name).unwrap()).and_then(|v| v.as_str()).map(|t| t.to_string());
    assert_eq!(first("word"), Some("Rumah".to_string()));
    assert_eq!(first("word_lower"), Some("rumah".to_string()));
    assert_eq!(first("definition"), Some("house".to_string()));
    assert_eq!(first("source_lang"), Some("id".to_string()));
    assert_eq!(first("target_lang"), Some("en".to_string()));
    let mut small = tantivy::schema::Schema::builder();
    small.add_text_field("word", tantivy::schema::STRING);
    let r = entry_document(&small.build(), &e);
    assert_eq!(r.err(), Some(SearchError::MissingField("word_lower".to_string())));
}

#[test]
fn lookups_read_every_field_from_the_stored_document() {
    let idx = sample();
    let found = idx.search_exact("rumah", None, 5).unwrap();
    assert_eq!(
        found,
        vec![SearchResult {
            word: "rumah".to_string(),
            definition: "house".to_string(),
            pos: "noun".to_string(),
            pronunciation: String::new(),
            source: "freedict".to_string(),
        }]
    );
    let all = idx.search_fuzzy("ability", None, 10).unwrap();
    assert_eq!(definitions(&all), vec!["kemampuan", "the power to do something"]);
}

#[test]
fn stored_values_default_to_empty() {
    let r = result_from_stored(Some("w".to_string()), None, Some("p".to_string()), None, None);
    assert_eq!(
        r,
        SearchResult { word: "w".to_string(), definition: String::new(), pos: "p".to_string(), pronunciation: String::new(), source: String::new() }
    );
}

#[test]
fn local_output_decisions() {
    let hit = |w: &str| SearchResult { word: w.to_string(), definition: "d".to_string(), pos: String::new(), pronunciation: String::new(), source: "s".to_string() };
    let exact = local_output("Kata", vec![hit("kata")], vec![hit("kita")]);
    assert!(exact.exact && exact.suggestion.is_none() && exact.entries.len() == 1);
    let near = local_output("kata", vec![], vec![hit("kita"), hit("kata")]);
    assert_eq!(near.suggestion, Some("kita".to_string()));
    let same = local_output("KITA", vec![], vec![hit("kita")]);
    assert_eq!(same.suggestion, None);
    assert!(!same.exact);
}

#[test]
fn exact_matches_are_among_near_matches() {
    let idx = sample();
    let exact = idx.search_exact("Ability", Some(("en", "id")), 10).unwrap();
    let near = idx.search_fuzzy("Ability", Some(("en", "id")), 10).unwrap();
    assert!(!exact.is_empty());
    for r in &exact {
        assert!(near.contains(r));
    }
}

#[test]
fn an_index_without_a_stored_field_opens_and_lookups_name_it() {
    let mut builder = tantivy::schema::Schema::builder();
    for name in ["word", "definition", "pos", "source_lang", "target_lang", "source"] {
        builder.add_text_field(name, tantivy::schema::STRING | tantivy::schema::STORED);
    }
    builder.add_text_field("word_lower", tantivy::schema::STRING);
    let schema = builder.build();
    let index = tantivy::Index::create_in_ram(schema.clone());
    let mut writer: tantivy::IndexWriter = index.writer_with_num_threads(1, 20_000_000).unwrap();
    let mut doc = tantivy::TantivyDocument::new();
    doc.add_text(schema.get_field("word").unwrap(), "kata");
    doc.add_text(schema.get_field("word_lower").unwrap(), "kata");
    writer.add_document(doc).unwrap();
    writer.commit().unwrap();
    let idx = SearchIndex::open(index.reader().unwrap());
    assert_eq!(idx.search_exact("Kata", None, 5), Err(SearchError::MissingField("pronunciation".to_string())));
    assert_eq!(idx.search("kata", None), Err(SearchError::MissingField("pronunciation".to_string())));
}

#[test]
fn lookups_through_one_searcher() {
    let idx = sample();
    let searcher = idx.snapshot();
    let upper = lookup_in(&searcher, &exact_plan("ABILITY", None), false, 10).unwrap();
    let lower = lookup_in(&searcher, &exact_plan("ability", None), false, 10).unwrap();
    assert_eq!(definitions(&upper), definitions(&lower));
    let pair = lookup_in(&searcher, &exact_plan("ability", Some(("en", "id"))), false, 10).unwrap();
    assert_eq!(definitions(&pair), vec!["kemampuan"]);
    for r in &pair {
        assert!(lower.contains(r));
    }
    let near = lookup_in(&searcher, &near_plan("ability", None), true, 10).unwrap();
    for r in &lower {
        assert!(near.contains(r));
    }
    assert_eq!(lookup_in(&searcher, &exact_plan("ability", None), false, 1).unwrap().len(), 1);
}
