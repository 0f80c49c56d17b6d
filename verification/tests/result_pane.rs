use trans_core::display::{
    audio_action, audio_step, enter_starts_lookup, AudioCache, result_is_current, speech_language, typing_lookup_pair, AudioAction,
    count_line, merge_outputs, on_text_change, render_output, scroll_for_key, suggestion_to_apply, verbose_requested, DisplayItem,
    EditAction, ScrollDirection,
};
use trans_core::search::{SearchOutput, SearchResult};

fn result(word: &str, definition: &str, pos: &str, pronunciation: &str, source: &str) -> SearchResult {
    SearchResult {
        word: word.to_string(),
        definition: definition.to_string(),
        pos: pos.to_string(),
        pronunciation: pronunciation.to_string(),
        source: source.to_string(),
    }
}

fn output(query: &str, exact: bool, suggestion: Option<&str>, entries: Vec<SearchResult>) -> SearchOutput {
    SearchOutput { query: query.to_string(), exact, suggestion: suggestion.map(|s| s.to_string()), entries }
}

#[test]
fn nothing_found() {
    assert_eq!(
        render_output(&output("xyz", true, None, vec![])),
        vec![DisplayItem::NoResults("No results for \"xyz\"".to_string())]
    );
}

#[test]
fn exact_results_are_counted_and_grouped() {
    let out = output(
        "run",
        true,
        None,
        vec![result("run", "lari", "verb", "/rʌn/", "freedict"), result("run", "berlari", "", "", "wiktionary")],
    );
    assert_eq!(
        render_output(&out),
        vec![
            DisplayItem::Count("2 results".to_string()),
            DisplayItem::Header { word: "run".to_string(), pronunciation: Some("/rʌn/".to_string()), pos: Some("(verb)".to_string()) },
            DisplayItem::Definition { definition: "lari".to_string(), source: "[freedict]".to_string() },
            DisplayItem::Definition { definition: "berlari".to_string(), source: "[wiktionary]".to_string() },
            DisplayItem::Divider,
        ]
    );
}

#[test]
fn inexact_results_show_the_suggestion() {
    let out = output("abilty", false, Some("ability"), vec![result("ability", "kemampuan", "", "", "google")]);
    assert_eq!(
        render_output(&out),
        vec![
            DisplayItem::Suggestion("Did you mean: ability?".to_string()),
            DisplayItem::Header { word: "ability".to_string(), pronunciation: None, pos: None },
            DisplayItem::Definition { definition: "kemampuan".to_string(), source: "[google]".to_string() },
            DisplayItem::Divider,
        ]
    );
}

#[test]
fn inexact_results_without_suggestion_have_no_intro() {
    let out = output("x", false, None, vec![result("y", "z", "", "", "s")]);
    assert_eq!(render_output(&out)[0], DisplayItem::Header { word: "y".to_string(), pronunciation: None, pos: None });
}

#[test]
fn count_lines() {
    assert_eq!(count_line(1), "1 result");
    assert_eq!(count_line(0), "0 results");
    assert_eq!(count_line(12), "12 results");
}

#[test]
fn short_text_clears() {
    assert_eq!(on_text_change("ab"), EditAction::Clear);
    assert_eq!(on_text_change(""), EditAction::Clear);
    assert_eq!(on_text_change("abc"), EditAction::SearchLocal);
    // two characters, three bytes
    assert_eq!(on_text_change("aé"), EditAction::SearchLocal);
}

#[test]
fn both_directions_are_merged() {
    let a = output("bank", false, Some("banks"), vec![result("bank", "bank", "noun", "", "google")]);
    let b = output("bank", true, None, vec![result("bank", "tepi", "noun", "", "google")]);
    let m = merge_outputs("bank".to_string(), Some(a), Some(b));
    assert!(!m.exact);
    assert_eq!(m.suggestion, Some("banks".to_string()));
    assert_eq!(m.entries.len(), 2);
    assert_eq!(m.entries[1].definition, "tepi");
}

#[test]
fn failed_direction_counts_as_empty_and_exact() {
    let b = output("rumah", true, Some("ruma"), vec![result("rumah", "house", "", "", "google")]);
    let m = merge_outputs("rumah".to_string(), None, Some(b));
    assert!(m.exact);
    assert_eq!(m.suggestion, Some("ruma".to_string()));
    assert_eq!(m.entries.len(), 1);
    let none = merge_outputs("q".to_string(), None, None);
    assert_eq!(none, output("q", true, None, vec![]));
}

#[test]
fn suggestions_to_apply() {
    assert_eq!(suggestion_to_apply(&None), None);
    assert_eq!(suggestion_to_apply(&Some(output("q", false, Some("p"), vec![]))), Some("p".to_string()));
    assert_eq!(suggestion_to_apply(&Some(output("q", false, Some(""), vec![]))), None);
    assert_eq!(suggestion_to_apply(&Some(output("q", true, None, vec![]))), None);
}

#[test]
fn scroll_keys() {
    assert_eq!(scroll_for_key(true, "u"), Some(ScrollDirection::Up));
    assert_eq!(scroll_for_key(true, "d"), Some(ScrollDirection::Down));
    assert_eq!(scroll_for_key(false, "u"), None);
    assert_eq!(scroll_for_key(true, "x"), None);
}

#[test]
fn verbose_flag() {
    assert!(verbose_requested(&vec!["-v".to_string()]));
    assert!(verbose_requested(&vec!["x".to_string(), "--verbose".to_string()]));
    assert!(!verbose_requested(&vec!["-vv".to_string()]));
    assert!(!verbose_requested(&vec![]));
}

#[test]
fn typing_looks_up_without_a_language_pair() {
    assert_eq!(typing_lookup_pair(), ("", ""));
    assert_eq!(trans_core::index::language_restriction(typing_lookup_pair()), None);
}

#[test]
fn enter_on_an_empty_field_does_nothing() {
    assert!(!enter_starts_lookup(""));
    assert!(enter_starts_lookup("bank"));
}

#[test]
fn stale_online_results_are_dropped() {
    assert!(result_is_current("bank", "bank"));
    assert!(!result_is_current("banks", "bank"));
    assert!(!result_is_current("", "bank"));
}

#[test]
fn audio_decisions() {
    assert!(matches!(audio_action("", "en", false), AudioAction::Nothing));
    assert!(matches!(audio_action("rumah", "id", true), AudioAction::PlayCached));
    match audio_action("rumah", "id", false) {
        AudioAction::Fetch(r) => {
            assert_eq!(r.url, "https://translate.google.com/translate_tts");
            assert_eq!(
                r.params,
                vec![
                    ("ie".to_string(), "UTF-8".to_string()),
                    ("client".to_string(), "tw-ob".to_string()),
                    ("tl".to_string(), "id".to_string()),
                    ("q".to_string(), "rumah".to_string()),
                ]
            );
        }
        _ => panic!("expected a fetch"),
    }
}

#[test]
fn speech_defaults_to_english() {
    assert_eq!(speech_language(None), "en");
    assert_eq!(speech_language(Some("id".to_string())), "id");
}

#[test]
fn spoken_forms_are_fetched_once() {
    let mut cache = AudioCache::new();
    assert!(cache.get("rumah", "id").is_none());
    assert!(matches!(audio_step(&cache, "rumah", "id"), AudioAction::Fetch(_)));
    cache.remember("rumah".to_string(), "id".to_string(), vec![1, 2, 3]);
    assert_eq!(cache.get("rumah", "id"), Some(&vec![1u8, 2, 3]));
    assert!(cache.get("rumah", "en").is_none());
    assert!(matches!(audio_step(&cache, "rumah", "id"), AudioAction::PlayCached));
    assert!(matches!(audio_step(&cache, "", "id"), AudioAction::Nothing));
}
