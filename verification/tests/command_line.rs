use trans_core::cli::{summary_line, format_results, parse_args, parse_lang_pair, provider_kind, report, resolve_lang, usage, CliError, Invocation, ProviderKind};
use trans_core::search::{SearchOutput, SearchResult};

fn args(a: &[&str]) -> Vec<String> {
    a.iter().map(|s| s.to_string()).collect()
}

fn result(word: &str, definition: &str, pos: &str, pronunciation: &str, source: &str) -> SearchResult {
    SearchResult {
        word: word.to_string(),
        definition: definition.to_string(),
        pos: pos.to_string(),
        pronunciation: pronunciation.to_string(),
        source: source.to_string(),
    }
}

#[test]
fn language_pairs() {
    assert_eq!(parse_lang_pair("en-id"), Some(("en", "id")));
    assert_eq!(parse_lang_pair("id-en"), Some(("id", "en")));
    assert_eq!(parse_lang_pair("en-en"), None);
    assert_eq!(parse_lang_pair(""), None);
}

#[test]
fn providers() {
    assert_eq!(provider_kind("local"), Some(ProviderKind::Local));
    assert_eq!(provider_kind("google"), Some(ProviderKind::Google));
    assert_eq!(provider_kind("bing"), None);
}

#[test]
fn lone_word() {
    assert_eq!(
        parse_args(&args(&["rumah"])),
        Ok(Invocation { lang: None, provider: "local".to_string(), word: "rumah".to_string() })
    );
}

#[test]
fn options_before_and_after_the_word() {
    let expected = Ok(Invocation { lang: Some("en-id".to_string()), provider: "google".to_string(), word: "house".to_string() });
    assert_eq!(parse_args(&args(&["-l", "en-id", "-p", "google", "house"])), expected);
    assert_eq!(parse_args(&args(&["house", "-l", "en-id", "-p", "google"])), expected);
}

#[test]
fn last_option_wins() {
    assert_eq!(
        parse_args(&args(&["-p", "google", "-p", "local", "x"])).map(|i| i.provider),
        Ok("local".to_string())
    );
}

#[test]
fn usage_errors() {
    assert_eq!(parse_args(&args(&[])), Err(CliError::Usage));
    assert_eq!(parse_args(&args(&["a", "b"])), Err(CliError::Usage));
    assert_eq!(parse_args(&args(&["a", "-l"])), Err(CliError::Usage));
    assert_eq!(parse_args(&args(&["-p"])), Err(CliError::Usage));
    assert_eq!(parse_args(&args(&["-l", "en-id"])), Err(CliError::Usage));
}

#[test]
fn language_resolution() {
    assert_eq!(resolve_lang(&Some("id-en".to_string()), "local"), Ok(("id", "en")));
    assert_eq!(resolve_lang(&None, "google"), Ok(("id", "en")));
    assert_eq!(resolve_lang(&None, "local"), Ok(("", "")));
    assert_eq!(resolve_lang(&None, "other"), Ok(("", "")));
    assert_eq!(
        resolve_lang(&Some("fr-en".to_string()), "google"),
        Err(CliError::UnknownLanguagePair("fr-en".to_string()))
    );
}

#[test]
fn results_are_grouped_under_their_word() {
    let rs = vec![
        result("run", "lari", "verb", "/rʌn/", "freedict"),
        result("run", "berlari", "", "", "freedict"),
        result("ran", "lari", "", "", "wiktionary"),
        result("run", "jalan", "noun", "", "google"),
    ];
    assert_eq!(
        format_results(&rs),
        vec![
            "run /rʌn/ (verb)",
            "  lari [freedict]",
            "  berlari [freedict]",
            "ran",
            "  lari [wiktionary]",
            "run (noun)",
            "  jalan [google]",
        ]
    );
}

#[test]
fn empty_word_gets_no_heading() {
    let rs = vec![result("", "apa", "", "", "x")];
    assert_eq!(format_results(&rs), vec!["  apa [x]"]);
}

#[test]
fn report_with_suggestion() {
    let out = SearchOutput {
        query: "abilty".to_string(),
        exact: false,
        suggestion: Some("ability".to_string()),
        entries: vec![result("ability", "kemampuan", "", "", "google")],
    };
    assert_eq!(
        report(&out),
        Some(vec!["Did you mean: ability?".to_string(), String::new(), "ability".to_string(), "  kemampuan [google]".to_string()])
    );
}

#[test]
fn exact_report_has_no_suggestion_line() {
    let out = SearchOutput {
        query: "ability".to_string(),
        exact: true,
        suggestion: Some("ignored".to_string()),
        entries: vec![result("ability", "kemampuan", "", "", "google")],
    };
    assert_eq!(report(&out), Some(vec!["ability".to_string(), "  kemampuan [google]".to_string()]));
}

#[test]
fn no_results_no_report() {
    let out = SearchOutput { query: "q".to_string(), exact: false, suggestion: Some("p".to_string()), entries: vec![] };
    assert_eq!(report(&out), None);
}

#[test]
fn usage_line() {
    assert_eq!(usage(), "Usage: trans [-l en-id|id-en] [-p local|google] <word>");
}

#[test]
fn one_line_summaries() {
    assert_eq!(summary_line(&result("run", "lari", "verb", "/rʌn/", "freedict")), "  run /rʌn/ (verb) → lari [freedict]");
    assert_eq!(summary_line(&result("abilty", "kemampuan", "", "", "google")), "  abilty → kemampuan [google]");
}

#[test]
fn listing_has_one_definition_line_per_result() {
    let rs = vec![
        result("kata", "word", "noun", "", "a"),
        result("kata", "term", "", "", "b"),
        result("kita", "we", "", "", "c"),
    ];
    let lines = format_results(&rs);
    assert_eq!(lines.len(), rs.len() + 2);
    assert_eq!(lines.iter().filter(|l| l.starts_with("  ")).count(), rs.len());
    assert_eq!(lines.last().unwrap(), "  we [c]");
}
