//! Interpretation of the replies of the online translation service.

use vstd::prelude::*;

use crate::json::{element, element_of, items, items_of, text, text_of, Json};
use crate::search::{lemma_views_push, opt_text, views, OutputView, ResultView, SearchOutput, SearchResult};
use crate::text::{
    equal_ignoring_ascii_case, eq_ignore_ascii_case, is_white_space, join, joined, lowercase, owned,
    texts_of, to_lowercase, trim, trimmed, trimmed_is_trimmed,
};

verus! {

/// The online translation service as a dictionary source.
pub struct GoogleProvider;

#[verifier::external_type_specification]
#[verifier::external_body]
pub struct ExJsonValue(serde_json::Value);

/// The JSON document a reply body holds, as `serde_json::from_str` reads it
/// into a `serde_json::Value` and `json_from_value` carries it over; none
/// when the body is not JSON.
pub uninterp spec fn reply_value(body: Seq<char>) -> Option<Json>;

/// A JSON value as the library's plain value, variant by variant; a number
/// keeps its textual form (`Number`'s `Display`).
#[verifier::external_body]
fn json_from_value(v: &serde_json::Value) -> Json {
    match v {
        serde_json::Value::Null => Json::Null,
        serde_json::Value::Bool(b) => Json::Bool(*b),
        serde_json::Value::Number(n) => Json::Number(n.to_string()),
        serde_json::Value::String(s) => Json::Str(s.clone()),
        serde_json::Value::Array(a) => Json::Array(a.iter().map(json_from_value).collect()),
        serde_json::Value::Object(o) => Json::Object(o.iter().map(|(k, x)| (k.clone(), json_from_value(x))).collect()),
    }
}

/// The JSON document of a reply body (`serde_json::from_str`), none when the
/// body is not JSON.
#[verifier::external_body]
fn parse_reply(body: &str) -> (r: Option<Json>)
    ensures
        r == reply_value(body@),
{
    match serde_json::from_str::<serde_json::Value>(body) {
        Ok(v) => Some(json_from_value(&v)),
        Err(_) => None,
    }
}

/// The texts among `values`, in order; other values are skipped.
pub open spec fn strings_in(values: Seq<Json>) -> Seq<Seq<char>>
    decreases values.len(),
{
    if values.len() == 0 {
        Seq::empty()
    } else {
        let rest = strings_in(values.drop_last());
        match text(values.last()) {
            Some(t) => rest.push(t),
            None => rest,
        }
    }
}

/// A result the service contributed: no pronunciation, source `google`.
pub open spec fn service_hit(word: Seq<char>, definition: Seq<char>, pos: Seq<char>) -> ResultView {
    ResultView { word, definition, pos, pronunciation: Seq::empty(), source: "google"@ }
}

/// The result a dictionary sense `[word, [synonyms..], ..]` yields under part of speech `pos`:
/// its definition is the synonyms joined by ", ", or the word itself when there are none.
pub open spec fn sense_hit(sense: Json, pos: Seq<char>) -> Option<ResultView> {
    match items(sense) {
        Some(d) => if d.len() >= 2 {
            match text(d[0]) {
                Some(w) => {
                    let syn = match items(d[1]) {
                        Some(a) => strings_in(a),
                        None => Seq::empty(),
                    };
                    Some(
                        service_hit(
                            w,
                            if syn.len() == 0 {
                                w
                            } else {
                                joined(syn, ", "@)
                            },
                            pos,
                        ),
                    )
                },
                None => None,
            }
        } else {
            None
        },
        None => None,
    }
}

/// The results of a list of senses, in order.
pub open spec fn sense_hits(senses: Seq<Json>, pos: Seq<char>) -> Seq<ResultView>
    decreases senses.len(),
{
    if senses.len() == 0 {
        Seq::empty()
    } else {
        let rest = sense_hits(senses.drop_last(), pos);
        match sense_hit(senses.last(), pos) {
            Some(h) => rest.push(h),
            None => rest,
        }
    }
}

/// The results of one dictionary entry `[pos, [..], [senses..], ..]`.
pub open spec fn entry_hits(entry: Json) -> Seq<ResultView> {
    match items(entry) {
        Some(e) => if e.len() >= 3 {
            let pos = match text(e[0]) {
                Some(p) => p,
                None => Seq::empty(),
            };
            match items(e[2]) {
                Some(senses) => sense_hits(senses, pos),
                None => Seq::empty(),
            }
        } else {
            Seq::empty()
        },
        None => Seq::empty(),
    }
}

/// The results of a list of dictionary entries, in order.
pub open spec fn entries_hits(entries: Seq<Json>) -> Seq<ResultView>
    decreases entries.len(),
{
    if entries.len() == 0 {
        Seq::empty()
    } else {
        entries_hits(entries.drop_last()) + entry_hits(entries.last())
    }
}

/// The dictionary results of a list of entries are those of each entry, in
/// order: adding an entry adds exactly its results at the end, so their
/// number is the sum over all entries.
pub proof fn dictionary_results_cover_every_entry(entries: Seq<Json>, entry: Json)
    ensures
        entries_hits(entries.push(entry)) == entries_hits(entries) + entry_hits(entry),
        entries_hits(entries.push(entry)).len() == entries_hits(entries).len() + entry_hits(entry).len(),
        entries_hits(seq![entry]) == entry_hits(entry),
{
    assert(entries.push(entry).drop_last() =~= entries);
    let one = seq![entry];
    assert(one.drop_last() =~= Seq::<Json>::empty());
    assert(one.last() == entry);
    assert(entries_hits(Seq::<Json>::empty()) == Seq::<ResultView>::empty());
    assert(entries_hits(one) == entries_hits(one.drop_last()) + entry_hits(one.last()));
    assert(Seq::<ResultView>::empty() + entry_hits(entry) =~= entry_hits(entry));
}

/// The dictionary results of a reply: those of the entries at position 1.
pub open spec fn dictionary_hits(reply: Json) -> Seq<ResultView> {
    match items_of(element(reply, 1)) {
        Some(entries) => entries_hits(entries),
        None => Seq::empty(),
    }
}

/// The plain translations among `translations`: each whose first element is
/// a text gives that text as a definition of the query.
pub open spec fn translation_hits(translations: Seq<Json>, query: Seq<char>) -> Seq<ResultView>
    decreases translations.len(),
{
    if translations.len() == 0 {
        Seq::empty()
    } else {
        let rest = translation_hits(translations.drop_last(), query);
        match text_of(element(translations.last(), 0)) {
            Some(t) => rest.push(service_hit(query, t, Seq::empty())),
            None => rest,
        }
    }
}

/// The plain-translation results of a reply: those of the list at position 0.
pub open spec fn fallback_hits(reply: Json, query: Seq<char>) -> Seq<ResultView> {
    match items_of(element(reply, 0)) {
        Some(translations) => translation_hits(translations, query),
        None => Seq::empty(),
    }
}

/// All results of a reply: the dictionary results, or the plain translations
/// when there are no dictionary results.
pub open spec fn response_hits(reply: Json, query: Seq<char>) -> Seq<ResultView> {
    if dictionary_hits(reply).len() > 0 {
        dictionary_hits(reply)
    } else {
        fallback_hits(reply, query)
    }
}

/// A proposed spelling, trimmed, kept when it is not empty and differs from
/// the query once both are lower-cased.
pub open spec fn candidate(proposal: Option<Seq<char>>, query: Seq<char>) -> Option<Seq<char>> {
    match proposal {
        Some(p) => {
            let s = trimmed(p);
            if s.len() > 0 && lowercase(s) != lowercase(query) {
                Some(s)
            } else {
                None
            }
        },
        None => None,
    }
}

/// The spelling correction at position 7, 1 of a reply.
pub open spec fn did_you_mean(reply: Json, query: Seq<char>) -> Option<Seq<char>> {
    candidate(text_of(element_of(element(reply, 7), 1)), query)
}

/// The silently corrected word at position 0, 0, 1 of a reply.
pub open spec fn silent_correction(reply: Json, query: Seq<char>) -> Option<Seq<char>> {
    candidate(text_of(element_of(element_of(element(reply, 0), 0), 1)), query)
}

/// The suggestion of a reply: the spelling correction, else the silent correction.
pub open spec fn response_suggestion(reply: Json, query: Seq<char>) -> Option<Seq<char>> {
    match did_you_mean(reply, query) {
        Some(s) => Some(s),
        None => silent_correction(reply, query),
    }
}

/// A suggestion of a reply is already trimmed: it neither starts nor ends
/// with white space, and trimming it again changes nothing.
pub proof fn suggestions_are_trimmed(reply: Json, query: Seq<char>)
    ensures
        response_suggestion(reply, query) matches Some(s) ==> trimmed(s) == s && !is_white_space(s[0])
            && !is_white_space(s.last()),
{
    match did_you_mean(reply, query) {
        Some(_) => {
            trimmed_is_trimmed(text_of(element_of(element(reply, 7), 1))->0);
        },
        None => {
            if silent_correction(reply, query) is Some {
                trimmed_is_trimmed(text_of(element_of(element_of(element(reply, 0), 0), 1))->0);
            }
        },
    }
}

/// Whether the results only echo the query: one result, without part of
/// speech, whose definition is the query up to ASCII case.
pub open spec fn is_passthrough(hits: Seq<ResultView>, query: Seq<char>) -> bool {
    &&& hits.len() == 1
    &&& hits[0].pos.len() == 0
    &&& equal_ignoring_ascii_case(hits[0].definition, query)
}

/// The output of a lookup whose reply was `reply`.
pub open spec fn service_output(reply: Json, query: Seq<char>) -> OutputView {
    let hits = response_hits(reply, query);
    let suggestion = response_suggestion(reply, query);
    if is_passthrough(hits, query) {
        OutputView { query, exact: false, suggestion: None, entries: Seq::empty() }
    } else {
        OutputView { query, exact: suggestion is None, suggestion, entries: hits }
    }
}

/// Whether every result is marked as the service's: source `google`, no pronunciation.
pub open spec fn all_from_service(hits: Seq<ResultView>) -> bool {
    forall|i: int| 0 <= i < hits.len() ==> (#[trigger] hits[i]).source == "google"@ && hits[i].pronunciation.len() == 0
}

proof fn lemma_sense_hits_marked(senses: Seq<Json>, pos: Seq<char>)
    ensures
        all_from_service(sense_hits(senses, pos)),
    decreases senses.len(),
{
    if senses.len() > 0 {
        lemma_sense_hits_marked(senses.drop_last(), pos);
    }
}

proof fn lemma_entries_hits_marked(entries: Seq<Json>)
    ensures
        all_from_service(entries_hits(entries)),
    decreases entries.len(),
{
    if entries.len() > 0 {
        lemma_entries_hits_marked(entries.drop_last());
        let e = entries.last();
        match items(e) {
            Some(a) => if a.len() >= 3 {
                match items(a[2]) {
                    Some(senses) => lemma_sense_hits_marked(
                        senses,
                        match text(a[0]) {
                            Some(p) => p,
                            None => Seq::empty(),
                        },
                    ),
                    None => {},
                }
            },
            None => {},
        }
        let l = entries_hits(entries.drop_last());
        let r = entry_hits(e);
        assert forall|i: int| 0 <= i < (l + r).len() implies (#[trigger] (l + r)[i]).source == "google"@
            && (l + r)[i].pronunciation.len() == 0 by {
            if i >= l.len() {
                assert((l + r)[i] == r[i - l.len()]);
            }
        }
    }
}

proof fn lemma_translation_hits_marked(translations: Seq<Json>, query: Seq<char>)
    ensures
        all_from_service(translation_hits(translations, query)),
    decreases translations.len(),
{
    if translations.len() > 0 {
        lemma_translation_hits_marked(translations.drop_last(), query);
    }
}

/// Every result read from a reply of the service is marked as the service's:
/// its source is `google` and it has no pronunciation.
pub proof fn replies_yield_service_results(reply: Json, query: Seq<char>)
    ensures
        all_from_service(response_hits(reply, query)),
{
    match items_of(element(reply, 1)) {
        Some(entries) => lemma_entries_hits_marked(entries),
        None => {},
    }
    match items_of(element(reply, 0)) {
        Some(translations) => lemma_translation_hits_marked(translations, query),
        None => {},
    }
}

/// Plain translations are only used when the reply holds no dictionary
/// results; otherwise the dictionary results are the whole answer.
pub proof fn dictionary_results_take_precedence(reply: Json, query: Seq<char>)
    ensures
        dictionary_hits(reply).len() > 0 ==> response_hits(reply, query) == dictionary_hits(reply),
        dictionary_hits(reply).len() == 0 ==> response_hits(reply, query) == fallback_hits(reply, query),
{
}

/// A suggestion is never empty, carries no surrounding white space, and
/// differs from the query even when case is ignored.
pub proof fn suggestions_differ_from_query(reply: Json, query: Seq<char>)
    ensures
        response_suggestion(reply, query) matches Some(s) ==> (s.len() > 0 && lowercase(s) != lowercase(query)
            && exists|t: Seq<char>| s == trimmed(t)),
{
    match response_suggestion(reply, query) {
        Some(s) => {
            let t = match did_you_mean(reply, query) {
                Some(_) => text_of(element_of(element(reply, 7), 1)).unwrap(),
                None => text_of(element_of(element_of(element(reply, 0), 0), 1)).unwrap(),
            };
            assert(s == trimmed(t));
        },
        None => {},
    }
}

/// An output of the service is exact exactly when it proposes no other
/// spelling, except for a reply that only echoes the query, which yields no
/// result, no suggestion, and is not exact.
pub proof fn exact_outputs_have_no_suggestion(reply: Json, query: Seq<char>)
    ensures
        service_output(reply, query).exact ==> service_output(reply, query).suggestion is None,
        service_output(reply, query).query == query,
        is_passthrough(response_hits(reply, query), query) ==> service_output(reply, query).entries.len() == 0
            && !service_output(reply, query).exact,
        !is_passthrough(response_hits(reply, query), query) ==> (service_output(reply, query).exact
            <==> service_output(reply, query).suggestion is None),
{
}

/// The address and query parameters of a lookup of `query` from `sl` into `tl`.
pub open spec fn request_params(query: Seq<char>, sl: Seq<char>, tl: Seq<char>) -> Seq<
    (Seq<char>, Seq<char>),
> {
    seq![
        ("client"@, "gtx"@),
        ("sl"@, sl),
        ("tl"@, tl),
        ("dt"@, "t"@),
        ("dt"@, "bd"@),
        ("dt"@, "ss"@),
        ("dt"@, "qc"@),
        ("q"@, query),
    ]
}

/// A request to send to the service.
pub struct ServiceRequest {
    pub url: String,
    pub params: Vec<(String, String)>,
}

/// The text of a list of parameters.
pub open spec fn params_view(p: Seq<(String, String)>) -> Seq<(Seq<char>, Seq<char>)> {
    p.map_values(|kv: (String, String)| (kv.0@, kv.1@))
}

fn pair(k: &str, v: &str) -> (r: (String, String))
    ensures
        r.0@ == k@,
        r.1@ == v@,
{
    (owned(k), owned(v))
}

/// The texts of `values`, skipping values that are not texts.
fn texts_in(values: &Vec<Json>) -> (r: Vec<String>)
    ensures
        texts_of(r@) == strings_in(values@),
{
    let mut r: Vec<String> = Vec::new();
    let n = values.len();
    let mut i: usize = 0;
    while i < n
        invariant
            n == values@.len(),
            i <= n,
            texts_of(r@) == strings_in(values@.take(i as int)),
        decreases n - i,
    {
        assert(values@.take(i + 1).drop_last() =~= values@.take(i as int));
        match values[i].as_str() {
            Some(t) => {
                let ghost before = r@;
                r.push(owned(t));
                assert(texts_of(r@) =~= texts_of(before).push(t@));
            },
            None => {},
        }
        i = i + 1;
    }
    assert(values@.take(n as int) =~= values@);
    r
}

fn service_result(word: String, definition: String, pos: String) -> (r: SearchResult)
    ensures
        r@ == service_hit(word@, definition@, pos@),
{
    SearchResult { word, definition, pos, pronunciation: String::new(), source: owned("google") }
}

/// The result of one sense under part of speech `pos`.
fn sense_result(sense: &Json, pos: &String) -> (r: Option<SearchResult>)
    ensures
        match r {
            Some(x) => sense_hit(*sense, pos@) == Some(x@),
            None => sense_hit(*sense, pos@) is None,
        },
{
    let d = match sense.as_array() {
        Some(d) => d,
        None => return None,
    };
    if d.len() < 2 {
        return None;
    }
    let word = match d[0].as_str() {
        Some(w) => owned(w),
        None => return None,
    };
    let synonyms = match d[1].as_array() {
        Some(a) => texts_in(a),
        None => Vec::new(),
    };
    assert(texts_of(synonyms@).len() == synonyms@.len());
    let definition = if synonyms.len() == 0 {
        word.clone()
    } else {
        join(&synonyms, ", ")
    };
    Some(service_result(word, definition, pos.clone()))
}

/// Appends the results of one dictionary entry.
fn push_entry_results(entry: &Json, out: &mut Vec<SearchResult>)
    ensures
        views(final(out)@) == views(old(out)@) + entry_hits(*entry),
{
    let e = match entry.as_array() {
        Some(e) => e,
        None => {
            assert(views(out@) =~= views(out@) + Seq::<ResultView>::empty());
            return ;
        },
    };
    if e.len() < 3 {
        assert(views(out@) =~= views(out@) + Seq::<ResultView>::empty());
        return ;
    }
    let pos = match e[0].as_str() {
        Some(p) => owned(p),
        None => String::new(),
    };
    let senses = match e[2].as_array() {
        Some(s) => s,
        None => {
            assert(views(out@) =~= views(out@) + Seq::<ResultView>::empty());
            return ;
        },
    };
    let ghost start = views(out@);
    let n = senses.len();
    let mut j: usize = 0;
    while j < n
        invariant
            n == senses@.len(),
            j <= n,
            views(out@) == start + sense_hits(senses@.take(j as int), pos@),
        decreases n - j,
    {
        assert(senses@.take(j + 1).drop_last() =~= senses@.take(j as int));
        match sense_result(&senses[j], &pos) {
            Some(r) => {
                proof {
                    lemma_views_push(out@, r);
                }
                out.push(r);
                assert(views(out@) =~= start + sense_hits(senses@.take(j + 1), pos@));
            },
            None => {},
        }
        j = j + 1;
    }
    assert(senses@.take(n as int) =~= senses@);
}

/// The results of the dictionary entries, in order.
fn dictionary_results(entries: &Vec<Json>) -> (r: Vec<SearchResult>)
    ensures
        views(r@) == entries_hits(entries@),
{
    let mut r: Vec<SearchResult> = Vec::new();
    let n = entries.len();
    let mut i: usize = 0;
    assert(views(r@) =~= Seq::<ResultView>::empty());
    while i < n
        invariant
            n == entries@.len(),
            i <= n,
            views(r@) == entries_hits(entries@.take(i as int)),
        decreases n - i,
    {
        assert(entries@.take(i + 1).drop_last() =~= entries@.take(i as int));
        push_entry_results(&entries[i], &mut r);
        i = i + 1;
    }
    assert(entries@.take(n as int) =~= entries@);
    r
}

/// The plain translations, each as a definition of the query.
fn translation_results(translations: &Vec<Json>, query: &str) -> (r: Vec<SearchResult>)
    ensures
        views(r@) == translation_hits(translations@, query@),
{
    let mut r: Vec<SearchResult> = Vec::new();
    let n = translations.len();
    let mut i: usize = 0;
    assert(views(r@) =~= Seq::<ResultView>::empty());
    while i < n
        invariant
            n == translations@.len(),
            i <= n,
            views(r@) == translation_hits(translations@.take(i as int), query@),
        decreases n - i,
    {
        assert(translations@.take(i + 1).drop_last() =~= translations@.take(i as int));
        match translations[i].get(0) {
            Some(t) => match t.as_str() {
                Some(s) => {
                    let x = service_result(owned(query), owned(s), String::new());
                    proof {
                        lemma_views_push(r@, x);
                    }
                    r.push(x);
                },
                None => {},
            },
            None => {},
        }
        i = i + 1;
    }
    assert(translations@.take(n as int) =~= translations@);
    r
}

/// The proposal, trimmed, when it is a usable suggestion for the query.
fn suggestion_from(proposal: Option<&str>, query: &str) -> (r: Option<String>)
    ensures
        opt_text(r) == candidate(
            match proposal {
                Some(p) => Some(p@),
                None => None,
            },
            query@,
        ),
{
    match proposal {
        Some(p) => {
            let s = trim(p);
            if s.as_str().is_empty() {
                None
            } else {
                let a = to_lowercase(s.as_str());
                let b = to_lowercase(query);
                if a == b {
                    None
                } else {
                    Some(s)
                }
            }
        },
        None => None,
    }
}

fn text_at<'a>(j: Option<&'a Json>) -> (r: Option<&'a str>)
    ensures
        match r {
            Some(s) => text_of(
                match j {
                    Some(x) => Some(*x),
                    None => None,
                },
            ) == Some(s@),
            None => text_of(
                match j {
                    Some(x) => Some(*x),
                    None => None,
                },
            ) is None,
        },
{
    match j {
        Some(x) => x.as_str(),
        None => None,
    }
}

fn element_at<'a>(j: Option<&'a Json>, i: usize) -> (r: Option<&'a Json>)
    ensures
        match r {
            Some(x) => element_of(
                match j {
                    Some(y) => Some(*y),
                    None => None,
                },
                i as int,
            ) == Some(*x),
            None => element_of(
                match j {
                    Some(y) => Some(*y),
                    None => None,
                },
                i as int,
            ) is None,
        },
{
    match j {
        Some(x) => x.get(i),
        None => None,
    }
}

impl GoogleProvider {
    /// The results and the suggestion that a reply of the service holds.
    pub fn parse_response(json: &Json, query: &str) -> (r: (Vec<SearchResult>, Option<String>))
        ensures
            views(r.0@) == response_hits(*json, query@),
            opt_text(r.1) == response_suggestion(*json, query@),
    {
        let mut results = match json.get(1) {
            Some(d) => match d.as_array() {
                Some(entries) => dictionary_results(entries),
                None => Vec::new(),
            },
            None => Vec::new(),
        };
        if results.len() == 0 {
            results = match json.get(0) {
                Some(t) => match t.as_array() {
                    Some(translations) => translation_results(translations, query),
                    None => Vec::new(),
                },
                None => Vec::new(),
            };
        }
        let did = suggestion_from(text_at(element_at(json.get(7), 1)), query);
        let suggestion = match did {
            Some(s) => Some(s),
            None => suggestion_from(text_at(element_at(element_at(json.get(0), 0), 1)), query),
        };
        (results, suggestion)
    }

    /// The output of a lookup of `query` whose reply was `json`. A reply whose
    /// only result echoes the query is treated as no translation at all.
    pub fn search_output(json: &Json, query: &str) -> (out: SearchOutput)
        ensures
            out@ == service_output(*json, query@),
    {
        let (entries, suggestion) = Self::parse_response(json, query);
        let passthrough = entries.len() == 1 && entries[0].pos.as_str().is_empty()
            && eq_ignore_ascii_case(entries[0].definition.as_str(), query);
        if passthrough {
            let out = SearchOutput {
                query: owned(query),
                exact: false,
                suggestion: None,
                entries: Vec::new(),
            };
            assert(out@.entries =~= Seq::<ResultView>::empty());
            out
        } else {
            SearchOutput {
                query: owned(query),
                exact: suggestion.is_none(),
                suggestion,
                entries,
            }
        }
    }

    /// The output of a lookup of `query` whose reply body was `body`: none
    /// when the body is not JSON.
    pub fn search_reply(body: &str, query: &str) -> (r: Option<SearchOutput>)
        ensures
            match reply_value(body@) {
                Some(j) => r matches Some(o) && o@ == service_output(j, query@),
                None => r is None,
            },
    {
        match parse_reply(body) {
            Some(json) => Some(Self::search_output(&json, query)),
            None => None,
        }
    }

    /// The request that looks `query` up from language `lang.0` into `lang.1`.
    pub fn request(query: &str, lang: (&str, &str)) -> (r: ServiceRequest)
        ensures
            r.url@ == "https://translate.googleapis.com/translate_a/single"@,
            params_view(r.params@) == request_params(query@, lang.0@, lang.1@),
    {
        let (sl, tl) = lang;
        let mut params: Vec<(String, String)> = Vec::new();
        params.push(pair("client", "gtx"));
        params.push(pair("sl", sl));
        params.push(pair("tl", tl));
        params.push(pair("dt", "t"));
        params.push(pair("dt", "bd"));
        params.push(pair("dt", "ss"));
        params.push(pair("dt", "qc"));
        params.push(pair("q", query));
        assert(params_view(params@) =~= request_params(query@, sl@, tl@));
        ServiceRequest {
            url: owned("https://translate.googleapis.com/translate_a/single"),
            params,
        }
    }

    /// The request that fetches the spoken form of `text` in language `lang`.
    pub fn speech_request(text: &str, lang: &str) -> (r: ServiceRequest)
        ensures
            r.url@ == "https://translate.google.com/translate_tts"@,
            params_view(r.params@) == seq![("ie"@, "UTF-8"@), ("client"@, "tw-ob"@), ("tl"@, lang@), ("q"@, text@)],
    {
        let mut params: Vec<(String, String)> = Vec::new();
        params.push(pair("ie", "UTF-8"));
        params.push(pair("client", "tw-ob"));
        params.push(pair("tl", lang));
        params.push(pair("q", text));
        assert(params_view(params@) =~= seq![("ie"@, "UTF-8"@), ("client"@, "tw-ob"@), ("tl"@, lang@), ("q"@, text@)]);
        ServiceRequest { url: owned("https://translate.google.com/translate_tts"), params }
    }

    /// The name of this source.
    pub fn name(&self) -> (r: &'static str)
        ensures
            r@ == "google"@,
    {
        "google"
    }
}

} // verus!
