use trans_core::google::GoogleProvider;
use trans_core::json::Json;
use trans_core::search::SearchResult;

fn s(t: &str) -> Json {
    Json::Str(t.to_string())
}

fn arr(items: Vec<Json>) -> Json {
    Json::Array(items)
}

fn hit(word: &str, definition: &str, pos: &str) -> SearchResult {
    SearchResult {
        word: word.to_string(),
        definition: definition.to_string(),
        pos: pos.to_string(),
        pronunciation: String::new(),
        source: "google".to_string(),
    }
}

/// A reply with dictionary data for "ability" in English → Indonesian.
fn dictionary_reply() -> Json {
    arr(vec![
        arr(vec![arr(vec![s("kemampuan"), s("ability")])]),
        arr(vec![arr(vec![
            s("noun"),
            arr(vec![s("kemampuan"), s("kecakapan")]),
            arr(vec![
                arr(vec![s("kemampuan"), arr(vec![s("ability"), s("capability")]), Json::Null, Json::Number("0.5".to_string())]),
                arr(vec![s("kecakapan"), arr(vec![])]),
                arr(vec![Json::Number("1".to_string())]),
                arr(vec![Json::Bool(true), arr(vec![s("x")])]),
                arr(vec![s("bakat"), arr(vec![s("talent"), Json::Null, s("gift")])]),
            ]),
        ])]),
    ])
}

#[test]
fn dictionary_entries_become_results() {
    let (results, suggestion) = GoogleProvider::parse_response(&dictionary_reply(), "ability");
    assert_eq!(
        results,
        vec![
            hit("kemampuan", "ability, capability", "noun"),
            hit("kecakapan", "kecakapan", "noun"),
            hit("bakat", "talent, gift", "noun"),
        ]
    );
    assert_eq!(suggestion, None);
}

#[test]
fn entries_too_short_or_without_senses_are_skipped() {
    let reply = arr(vec![
        Json::Null,
        arr(vec![
            arr(vec![s("verb"), arr(vec![])]),
            arr(vec![s("verb"), arr(vec![]), s("not a list")]),
            arr(vec![Json::Null, arr(vec![]), arr(vec![arr(vec![s("lari"), arr(vec![s("run")])])])]),
        ]),
    ]);
    let (results, suggestion) = GoogleProvider::parse_response(&reply, "run");
    assert_eq!(results, vec![hit("lari", "run", "")]);
    assert_eq!(suggestion, None);
}

#[test]
fn plain_translations_when_no_dictionary_data() {
    let reply = arr(vec![
        arr(vec![arr(vec![s("rumah besar"), s("big house")]), arr(vec![Json::Null]), arr(vec![s("lagi")])]),
        Json::Null,
    ]);
    let (results, suggestion) = GoogleProvider::parse_response(&reply, "big house");
    assert_eq!(
        results,
        vec![hit("big house", "rumah besar", ""), hit("big house", "lagi", "")]
    );
    assert_eq!(suggestion, None);
}

#[test]
fn spelling_correction_is_trimmed_and_preferred() {
    let mut items = vec![arr(vec![arr(vec![s("kemampuan"), s("abilty")])])];
    for _ in 1..7 {
        items.push(Json::Null);
    }
    items.push(arr(vec![s("<b>x</b>"), s("  ability \n")]));
    let reply = arr(items);
    let (_, suggestion) = GoogleProvider::parse_response(&reply, "abilty");
    assert_eq!(suggestion, Some("ability".to_string()));
}

#[test]
fn suggestion_equal_to_query_ignoring_case_is_dropped() {
    let mut items = vec![arr(vec![arr(vec![s("rumah"), s("HOUSE")])])];
    for _ in 1..7 {
        items.push(Json::Null);
    }
    items.push(arr(vec![Json::Null, s(" House ")]));
    let (_, suggestion) = GoogleProvider::parse_response(&arr(items), "house");
    assert_eq!(suggestion, None);
}

#[test]
fn blank_suggestion_is_dropped() {
    let reply = arr(vec![arr(vec![arr(vec![s("rumah"), s("   ")])])]);
    let (_, suggestion) = GoogleProvider::parse_response(&reply, "house");
    assert_eq!(suggestion, None);
}

#[test]
fn passthrough_reply_gives_no_result() {
    let reply = arr(vec![arr(vec![arr(vec![s("Xyzzy"), s("xyzzy")])])]);
    let out = GoogleProvider::search_output(&reply, "xyzzy");
    assert_eq!(out.query, "xyzzy");
    assert!(!out.exact);
    assert_eq!(out.suggestion, None);
    assert!(out.entries.is_empty());
}

#[test]
fn exact_output_when_no_suggestion() {
    let reply = arr(vec![arr(vec![arr(vec![s("rumah"), s("house")])])]);
    let out = GoogleProvider::search_output(&reply, "house");
    assert!(out.exact);
    assert_eq!(out.suggestion, None);
    assert_eq!(out.entries, vec![hit("house", "rumah", "")]);
}

#[test]
fn inexact_output_carries_the_silent_correction() {
    let reply = dictionary_reply();
    let out = GoogleProvider::search_output(&reply, "abilty");
    assert!(!out.exact);
    assert_eq!(out.suggestion, Some("ability".to_string()));
    assert_eq!(out.entries.len(), 3);
}

#[test]
fn dictionary_reply_for_the_typed_word_is_exact() {
    let out = GoogleProvider::search_output(&dictionary_reply(), "Ability");
    assert!(out.exact);
    assert_eq!(out.suggestion, None);
    assert_eq!(out.entries[0], hit("kemampuan", "ability, capability", "noun"));
}

#[test]
fn empty_reply_gives_nothing() {
    let out = GoogleProvider::search_output(&Json::Object(vec![]), "kata");
    assert!(out.entries.is_empty());
    assert!(out.exact);
}

#[test]
fn lookup_request_parameters() {
    let req = GoogleProvider::request("rumah", ("id", "en"));
    assert_eq!(req.url, "https://translate.googleapis.com/translate_a/single");
    let expected: Vec<(String, String)> = [
        ("client", "gtx"),
        ("sl", "id"),
        ("tl", "en"),
        ("dt", "t"),
        ("dt", "bd"),
        ("dt", "ss"),
        ("dt", "qc"),
        ("q", "rumah"),
    ]
    .iter()
    .map(|(k, v)| (k.to_string(), v.to_string()))
    .collect();
    assert_eq!(req.params, expected);
}

#[test]
fn speech_request_parameters() {
    let req = GoogleProvider::speech_request("halo", "id");
    assert_eq!(req.url, "https://translate.google.com/translate_tts");
    let expected: Vec<(String, String)> = [("ie", "UTF-8"), ("client", "tw-ob"), ("tl", "id"), ("q", "halo")]
        .iter()
        .map(|(k, v)| (k.to_string(), v.to_string()))
        .collect();
    assert_eq!(req.params, expected);
}

#[test]
fn provider_name() {
    assert_eq!(GoogleProvider.name(), "google");
}

#[test]
fn reply_bodies_are_parsed_as_json() {
    let body = r#"[[["kemampuan","ability",null,null,1]],[["noun",["kemampuan"],[["kemampuan",["ability","capability"]]]]],"en"]"#;
    let out = GoogleProvider::search_reply(body, "ability").unwrap();
    assert!(out.exact);
    assert_eq!(out.suggestion, None);
    assert_eq!(out.entries, vec![hit("kemampuan", "ability, capability", "noun")]);
    assert_eq!(out.query, "ability");
}

#[test]
fn reply_bodies_that_are_not_json_give_nothing() {
    assert!(GoogleProvider::search_reply("<html>busy</html>", "ability").is_none());
    assert!(GoogleProvider::search_reply("", "ability").is_none());
}

#[test]
fn reply_suggestions_come_back_trimmed() {
    let body = r#"[[["kemampuan","abilty"]],null,"en",null,null,null,null,[null,"  ability  "]]"#;
    let out = GoogleProvider::search_reply(body, "abilty").unwrap();
    assert!(!out.exact);
    assert_eq!(out.suggestion, Some("ability".to_string()));
}
