//! Queries against the local dictionary index.

use vstd::prelude::*;

use tantivy::collector::TopDocs;
use tantivy::query::{BooleanQuery, FuzzyTermQuery, Query, TermQuery};
use tantivy::schema::{IndexRecordOption, Value};
use tantivy::{Searcher, TantivyDocument, Term};

use crate::search::{lemma_views_push, opt_text, views, OutputView, ResultView, SearchOutput, SearchResult};
use crate::entry::{document_of, Entry};
use crate::schema::{distinct_names, field_names, position_of, schema_fields};
use crate::text::{lowercase, owned, to_lowercase};

verus! {

#[verifier::external_type_specification]
#[verifier::external_body]
pub struct ExIndexReader(tantivy::IndexReader);

#[verifier::external_type_specification]
#[verifier::external_body]
pub struct ExSearcher(tantivy::Searcher);

#[verifier::external_type_specification]
#[verifier::external_body]
pub struct ExTantivyDocument(tantivy::TantivyDocument);

#[verifier::external_type_specification]
#[verifier::external_body]
pub struct ExTantivyError(tantivy::TantivyError);

/// Why a query of the local index failed.
#[derive(Debug, Clone, PartialEq, Eq)]
pub enum SearchError {
    /// The schema lacks the named field.
    MissingField(String),
    /// The index could not be read; the backend's message.
    Backend(String),
}

/// The field of the index named `name` (`Schema::get_field`): found exactly
/// when the schema has a field of that name. Which handle is returned is not
/// stated: handles are opaque here.
#[verifier::external_body]
fn field_named(schema: &tantivy::schema::Schema, name: &str) -> (r: Result<tantivy::schema::Field, tantivy::TantivyError>)
    ensures
        r is Ok <==> schema_fields(*schema).contains(name@),
{
    schema.get_field(name)
}

/// The message of a backend error (its `Display` text); its wording is not stated.
#[verifier::external_body]
fn error_message(e: &tantivy::TantivyError) -> String {
    e.to_string()
}

/// A searcher over the index as the reader sees it now (`IndexReader::searcher`);
/// it is opaque here, and what it sees depends on the index on disk.
#[verifier::external_body]
fn searcher_of(reader: &tantivy::IndexReader) -> Searcher {
    reader.searcher()
}

/// The schema of the index a searcher reads (`Searcher::schema`): its
/// fields are those of the searcher. A schema is only ever built field by
/// field, refusing a name twice, so its field names are distinct. Which
/// fields it has depends on the index on disk.
#[verifier::external_body]
fn searcher_schema(searcher: &Searcher) -> (s: tantivy::schema::Schema)
    ensures
        schema_fields(s) == searcher_fields(*searcher),
        distinct_names(schema_fields(s)),
{
    searcher.schema().clone()
}

/// The field values of a document, in the order they were added: each value's
/// field number and, for a text value, its text (the `field_values` it holds,
/// read through `Value::as_str`).
pub uninterp spec fn document_values(d: TantivyDocument) -> Seq<(u32, Option<Seq<char>>)>;

/// A document without values (`TantivyDocument::new`).
#[verifier::external_body]
fn new_document() -> (d: TantivyDocument)
    ensures
        document_values(d) == Seq::<(u32, Option<Seq<char>>)>::empty(),
{
    TantivyDocument::new()
}

/// Adds `text` as a value of the field named `name` (`Schema::get_field`, then
/// `TantivyDocument::add_text`); an error, leaving the document as it was,
/// when the schema has no such field. A field's number is its position in the schema.
#[verifier::external_body]
fn add_named_text(schema: &tantivy::schema::Schema, doc: &mut TantivyDocument, name: &str, text: &str) -> (r: Result<(), tantivy::TantivyError>)
    ensures
        r is Ok <==> schema_fields(*schema).contains(name@),
        r is Ok ==> document_values(*final(doc)) == document_values(*old(doc)).push(
            ((position_of(schema_fields(*schema), name@) as u32), Some(text@)),
        ),
        r is Err ==> *final(doc) == *old(doc),
{
    doc.add_text(schema.get_field(name)?, text);
    Ok(())
}

/// The first value of the field numbered `id` among `values`, as text when it is text.
pub open spec fn first_text_in(values: Seq<(u32, Option<Seq<char>>)>, id: int) -> Option<Seq<char>>
    decreases values.len(),
{
    if values.len() == 0 {
        None
    } else if values[0].0 == id {
        values[0].1
    } else {
        first_text_in(values.drop_first(), id)
    }
}

/// The text of the first value of the field named `name` in `doc`
/// (`Schema::get_field`, `TantivyDocument::get_first`, `Value::as_str`); an
/// error when the schema has no such field.
#[verifier::external_body]
fn first_text(schema: &tantivy::schema::Schema, doc: &TantivyDocument, name: &str) -> (r: Result<Option<String>, tantivy::TantivyError>)
    ensures
        r is Ok <==> schema_fields(*schema).contains(name@),
        r matches Ok(t) ==> opt_text(t) == first_text_in(document_values(*doc), position_of(schema_fields(*schema), name@)),
{
    Ok(doc.get_first(schema.get_field(name)?).and_then(|v| v.as_str()).map(|t| t.to_string()))
}

/// The live documents of the index a searcher reads, in document order: for
/// each, the text terms indexed for it, each with its field's name, and the
/// values stored for it, as `document_values` gives those of the document
/// read back.
pub uninterp spec fn searcher_documents(s: Searcher) -> Seq<(Set<(Seq<char>, Seq<char>)>, Seq<(u32, Option<Seq<char>>)>)>;

/// The field names of the schema of the index a searcher reads, in order.
pub uninterp spec fn searcher_fields(s: Searcher) -> Seq<Seq<char>>;

/// Whether a document has `text` as a term of the field named `field`.
pub open spec fn has_term(d: (Set<(Seq<char>, Seq<char>)>, Seq<(u32, Option<Seq<char>>)>), field: Seq<char>, text: Seq<char>) -> bool {
    d.0.contains((field, text))
}

/// Whether `a` becomes `b` by one edit: inserting, deleting or replacing one
/// character at any position, or, with `transposition`, swapping two
/// neighbouring characters.
pub open spec fn one_edit_apart(a: Seq<char>, b: Seq<char>, transposition: bool) -> bool {
    ||| exists|i: int| #![trigger a.take(i)] 0 <= i <= a.len() && b.len() == a.len() + 1 && b == a.take(i) + seq![b[i]] + a.skip(i)
    ||| exists|i: int| #![trigger b.take(i)] 0 <= i <= b.len() && a.len() == b.len() + 1 && a == b.take(i) + seq![a[i]] + b.skip(i)
    ||| exists|i: int| #![trigger a.skip(i + 1)] 0 <= i < a.len() && a.len() == b.len() && a.take(i) == b.take(i)
        && a.skip(i + 1) == b.skip(i + 1)
    ||| transposition && exists|i: int| #![trigger a.skip(i + 2)] 0 <= i && i + 1 < a.len() && a.len() == b.len()
        && a.take(i) == b.take(i) && a[i] == b[i + 1] && a[i + 1] == b[i] && a.skip(i + 2) == b.skip(i + 2)
}

/// Whether a document has a term of the field named `field` at most `edits`
/// edits (zero or one) away from `text`.
pub open spec fn has_near_term(
    d: (Set<(Seq<char>, Seq<char>)>, Seq<(u32, Option<Seq<char>>)>),
    field: Seq<char>,
    text: Seq<char>,
    edits: u8,
    transposition: bool,
) -> bool {
    exists|t: Seq<char>| #[trigger] d.0.contains((field, t)) && (t == text || (edits >= 1 && one_edit_apart(t, text, transposition)))
}

/// Whether a document matches a lookup: its main clause (the exact term, or
/// with `near` a term within the plan's edits) and every filter's term.
pub open spec fn plan_matches(d: (Set<(Seq<char>, Seq<char>)>, Seq<(u32, Option<Seq<char>>)>), plan: PlanView, near: bool) -> bool {
    &&& if near {
        has_near_term(d, plan.field, plan.text, plan.edits, plan.transposition)
    } else {
        has_term(d, plan.field, plan.text)
    }
    &&& forall|k: int| 0 <= k < plan.filters.len() ==> has_term(d, #[trigger] plan.filters[k].0, plan.filters[k].1)
}

/// How many documents match a lookup.
pub open spec fn match_count(docs: Seq<(Set<(Seq<char>, Seq<char>)>, Seq<(u32, Option<Seq<char>>)>)>, plan: PlanView, near: bool) -> nat {
    docs.filter(|d: (Set<(Seq<char>, Seq<char>)>, Seq<(u32, Option<Seq<char>>)>)| plan_matches(d, plan, near)).len()
}

/// Whether `got` is what a lookup of `plan` returns from the documents
/// `docs` with room for `limit`: as many as match, up to `limit`, each the
/// stored values of a different matching document, every match among them
/// when there was room to spare.
pub open spec fn found(
    docs: Seq<(Set<(Seq<char>, Seq<char>)>, Seq<(u32, Option<Seq<char>>)>)>,
    plan: PlanView,
    near: bool,
    limit: nat,
    got: Seq<TantivyDocument>,
) -> bool {
    &&& got.len() == (if limit < match_count(docs, plan, near) { limit } else { match_count(docs, plan, near) })
    &&& exists|at: Seq<int>| {
        &&& at.len() == got.len()
        &&& forall|i: int, j: int| 0 <= i < j < at.len() ==> at[i] != at[j]
        &&& forall|i: int| #![trigger at[i]] 0 <= i < at.len() ==> 0 <= at[i] < docs.len()
            && plan_matches(docs[at[i]], plan, near) && document_values(got[i]) == docs[at[i]].1
        &&& at.len() < limit ==> forall|k: int| #![trigger docs[k]] 0 <= k < docs.len() && plan_matches(docs[k], plan, near)
            ==> at.contains(k)
    }
}

/// The stored documents of the best-scoring matches of `plan`, best first
/// (`Searcher::search` with `TopDocs::with_limit`, then `Searcher::doc`). The
/// query requires all of: the term `plan.text` in the field named
/// `plan.field`, and each filter's text as a term of the filter's field
/// (`BooleanQuery::intersection` of `TermQuery`s); so as many documents come
/// back as match, up to `limit`, each a different one. Fields are looked up by
/// name in the searcher's own schema, an error when one is missing or not
/// indexed. The order, by score, is not stated.
#[verifier::external_body]
fn exact_documents(searcher: &Searcher, plan: &LookupPlan, limit: usize) -> (r: Result<Vec<TantivyDocument>, tantivy::TantivyError>)
    requires
        limit >= 1,
    ensures
        r matches Ok(v) ==> found(searcher_documents(*searcher), plan@, false, limit as nat, v@),
{
    let schema = searcher.schema();
    let mut clauses: Vec<Box<dyn Query>> = Vec::new();
    clauses.push(Box::new(TermQuery::new(Term::from_field_text(schema.get_field(&plan.field)?, &plan.text), IndexRecordOption::Basic)));
    for (f, t) in &plan.filters {
        clauses.push(Box::new(TermQuery::new(Term::from_field_text(schema.get_field(f)?, t), IndexRecordOption::Basic)));
    }
    let top = searcher.search(&BooleanQuery::intersection(clauses), &TopDocs::with_limit(limit))?;
    top.into_iter().map(|hit| searcher.doc::<TantivyDocument>(hit.1)).collect()
}

/// As `exact_documents`, but the main clause accepts any term of the field
/// within `plan.edits` edits of `plan.text`, a swap of neighbours counting as
/// one edit when `plan.transposition` (`FuzzyTermQuery`); stated for at most
/// one edit. A main field that is not indexed has no terms, so it matches
/// nothing rather than failing.
#[verifier::external_body]
fn near_documents(searcher: &Searcher, plan: &LookupPlan, limit: usize) -> (r: Result<Vec<TantivyDocument>, tantivy::TantivyError>)
    requires
        limit >= 1,
    ensures
        r matches Ok(v) ==> plan@.edits <= 1 ==> found(searcher_documents(*searcher), plan@, true, limit as nat, v@),
{
    let schema = searcher.schema();
    let mut clauses: Vec<Box<dyn Query>> = Vec::new();
    clauses.push(Box::new(FuzzyTermQuery::new(Term::from_field_text(schema.get_field(&plan.field)?, &plan.text), plan.edits, plan.transposition)));
    for (f, t) in &plan.filters {
        clauses.push(Box::new(TermQuery::new(Term::from_field_text(schema.get_field(f)?, t), IndexRecordOption::Basic)));
    }
    let top = searcher.search(&BooleanQuery::intersection(clauses), &TopDocs::with_limit(limit))?;
    top.into_iter().map(|hit| searcher.doc::<TantivyDocument>(hit.1)).collect()
}

/// Whether `results` is what a lookup of `plan`, with room for `limit`,
/// reads through the searcher `s`: the results of the documents it found
/// among the searcher's documents, in the order found, each read by field
/// name under the searcher's schema.
pub open spec fn searched(s: Searcher, plan: PlanView, near: bool, limit: nat, results: Seq<ResultView>) -> bool {
    exists|got: Seq<TantivyDocument>|
        #![trigger found(searcher_documents(s), plan, near, limit, got)]
        found(searcher_documents(s), plan, near, limit, got) && results == documents_results(searcher_fields(s), got)
}

/// The text of an optional stored value, empty when it is absent.
pub open spec fn or_empty(o: Option<Seq<char>>) -> Seq<char> {
    match o {
        Some(s) => s,
        None => Seq::empty(),
    }
}

/// `o`, or the empty string when it is absent.
pub fn text_or_empty(o: Option<String>) -> (r: String)
    ensures
        r@ == or_empty(opt_text(o)),
{
    match o {
        Some(s) => s,
        None => String::new(),
    }
}

/// The result built from the stored values of a document; an absent value
/// reads as the empty string.
pub open spec fn stored_result(
    word: Option<Seq<char>>,
    definition: Option<Seq<char>>,
    pos: Option<Seq<char>>,
    pronunciation: Option<Seq<char>>,
    source: Option<Seq<char>>,
) -> ResultView {
    ResultView {
        word: or_empty(word),
        definition: or_empty(definition),
        pos: or_empty(pos),
        pronunciation: or_empty(pronunciation),
        source: or_empty(source),
    }
}

/// The result built from the stored values of a document.
pub fn result_from_stored(
    word: Option<String>,
    definition: Option<String>,
    pos: Option<String>,
    pronunciation: Option<String>,
    source: Option<String>,
) -> (r: SearchResult)
    ensures
        r@ == stored_result(
            opt_text(word),
            opt_text(definition),
            opt_text(pos),
            opt_text(pronunciation),
            opt_text(source),
        ),
{
    SearchResult {
        word: text_or_empty(word),
        definition: text_or_empty(definition),
        pos: text_or_empty(pos),
        pronunciation: text_or_empty(pronunciation),
        source: text_or_empty(source),
    }
}

/// The text of an optional language pair.
pub open spec fn pair_view(lang: Option<(&str, &str)>) -> Option<(Seq<char>, Seq<char>)> {
    match lang {
        Some(p) => Some((p.0@, p.1@)),
        None => None,
    }
}

/// Whether a lookup under `lang` is restricted to a language pair: it is not
/// when both languages are left empty.
pub open spec fn lang_filter(lang: (Seq<char>, Seq<char>)) -> Option<(Seq<char>, Seq<char>)> {
    if lang.0.len() == 0 && lang.1.len() == 0 {
        None
    } else {
        Some(lang)
    }
}

/// The language pair to restrict a lookup to, if any.
pub fn language_restriction<'a>(lang: (&'a str, &'a str)) -> (r: Option<(&'a str, &'a str)>)
    ensures
        pair_view(r) == lang_filter((lang.0@, lang.1@)),
{
    if lang.0.is_empty() && lang.1.is_empty() {
        None
    } else {
        Some(lang)
    }
}

/// The suggestion of a lookup that only matched approximately: the word of the
/// best match, when it differs from the query once both are lower-cased.
pub open spec fn near_suggestion(query: Seq<char>, hits: Seq<ResultView>) -> Option<Seq<char>> {
    if hits.len() > 0 && lowercase(hits[0].word) != lowercase(query) {
        Some(hits[0].word)
    } else {
        None
    }
}

/// The output of a lookup: the exact matches when there are any, else the
/// approximate matches with the best one's word as a suggestion.
pub open spec fn local_view(query: Seq<char>, exact: Seq<ResultView>, near: Seq<ResultView>) -> OutputView {
    if exact.len() > 0 {
        OutputView { query, exact: true, suggestion: None, entries: exact }
    } else {
        OutputView { query, exact: false, suggestion: near_suggestion(query, near), entries: near }
    }
}

/// The output of a lookup from its exact and its approximate matches.
pub fn local_output(query: &str, exact: Vec<SearchResult>, near: Vec<SearchResult>) -> (r: SearchOutput)
    ensures
        r@ == local_view(query@, views(exact@), views(near@)),
        exact@.len() > 0 ==> r.exact && r@.entries == views(exact@),
        exact@.len() == 0 ==> !r.exact && r@.entries == views(near@),
{
    if exact.len() > 0 {
        SearchOutput { query: owned(query), exact: true, suggestion: None, entries: exact }
    } else {
        let suggestion = if near.len() > 0 {
            let a = to_lowercase(near[0].word.as_str());
            let b = to_lowercase(query);
            if a == b {
                None
            } else {
                Some(near[0].word.clone())
            }
        } else {
            None
        };
        SearchOutput { query: owned(query), exact: false, suggestion, entries: near }
    }
}

/// A lookup's output keeps every match it shows: all the exact matches when
/// there are some, else all the approximate ones, none dropped or added.
pub proof fn local_outputs_keep_every_match(query: Seq<char>, exact: Seq<ResultView>, near: Seq<ResultView>)
    ensures
        exact.len() > 0 ==> local_view(query, exact, near).exact && local_view(query, exact, near).entries == exact,
        exact.len() == 0 ==> !local_view(query, exact, near).exact && local_view(query, exact, near).entries == near,
        local_view(query, exact, near).entries.len() == if exact.len() > 0 { exact.len() } else { near.len() },
{
}

/// A local lookup that matched exactly proposes no other spelling and found
/// something; a proposed spelling is the best approximate match's word and
/// differs from the query even when case is ignored.
pub proof fn local_suggestions_are_corrections(query: Seq<char>, exact: Seq<ResultView>, near: Seq<ResultView>)
    ensures
        local_view(query, exact, near).exact ==> local_view(query, exact, near).suggestion is None
            && local_view(query, exact, near).entries.len() > 0,
        local_view(query, exact, near).suggestion matches Some(s) ==> (s == near[0].word && lowercase(s)
            != lowercase(query) && !local_view(query, exact, near).exact),
        local_view(query, exact, near).query == query,
{
}

/// How many edits an approximate lookup tolerates; swapping two neighbouring
/// characters counts as one.
pub const TYPO_DISTANCE: u8 = 1;

/// How many results one lookup of the local index returns at most.
pub const RESULT_LIMIT: usize = 20;

/// What is handed to the index for one lookup: the field searched, the text
/// looked for, how many edits a match may be away (a swap of neighbours
/// counting as one when `transposition`), and the fields and texts that every
/// match must also have.
pub struct LookupPlan {
    pub field: String,
    pub text: String,
    pub edits: u8,
    pub transposition: bool,
    pub filters: Vec<(String, String)>,
}

/// The content of a lookup plan.
pub struct PlanView {
    pub field: Seq<char>,
    pub text: Seq<char>,
    pub edits: u8,
    pub transposition: bool,
    pub filters: Seq<(Seq<char>, Seq<char>)>,
}

impl View for LookupPlan {
    type V = PlanView;

    open spec fn view(&self) -> PlanView {
        PlanView {
            field: self.field@,
            text: self.text@,
            edits: self.edits,
            transposition: self.transposition,
            filters: self.filters@.map_values(|f: (String, String)| (f.0@, f.1@)),
        }
    }
}

/// The field constraints of a lookup restricted to `lang`: the source
/// language in `source_lang` and the target language in `target_lang`.
pub open spec fn lookup_filters(lang: Option<(Seq<char>, Seq<char>)>) -> Seq<(Seq<char>, Seq<char>)> {
    match lang {
        Some(p) => seq![("source_lang"@, p.0), ("target_lang"@, p.1)],
        None => Seq::empty(),
    }
}

/// An exact lookup: the lower-cased query as a whole term of `word_lower`,
/// no edits, under the language constraints.
pub open spec fn exact_lookup(query: Seq<char>, lang: Option<(Seq<char>, Seq<char>)>) -> PlanView {
    PlanView { field: "word_lower"@, text: lowercase(query), edits: 0, transposition: false, filters: lookup_filters(lang) }
}

/// An approximate lookup: as the exact one, but up to `TYPO_DISTANCE` edits
/// of the lower-cased query, at any position, a swap of neighbours counting as one.
pub open spec fn near_lookup(query: Seq<char>, lang: Option<(Seq<char>, Seq<char>)>) -> PlanView {
    PlanView { field: "word_lower"@, text: lowercase(query), edits: TYPO_DISTANCE, transposition: true, filters: lookup_filters(lang) }
}

fn lookup_plan(query: &str, lang: Option<(&str, &str)>, edits: u8, transposition: bool) -> (p: LookupPlan)
    ensures
        p@ == (PlanView { field: "word_lower"@, text: lowercase(query@), edits, transposition, filters: lookup_filters(pair_view(lang)) }),
{
    let mut filters: Vec<(String, String)> = Vec::new();
    match lang {
        Some((src, tgt)) => {
            filters.push((owned("source_lang"), owned(src)));
            filters.push((owned("target_lang"), owned(tgt)));
        },
        None => {},
    }
    let p = LookupPlan { field: owned("word_lower"), text: to_lowercase(query), edits, transposition, filters };
    assert(p@.filters =~= lookup_filters(pair_view(lang)));
    p
}

/// The plan of an exact lookup of `query` under `lang`.
pub fn exact_plan(query: &str, lang: Option<(&str, &str)>) -> (p: LookupPlan)
    ensures
        p@ == exact_lookup(query@, pair_view(lang)),
{
    lookup_plan(query, lang, 0, false)
}

/// The plan of an approximate lookup of `query` under `lang`.
pub fn near_plan(query: &str, lang: Option<(&str, &str)>) -> (p: LookupPlan)
    ensures
        p@ == near_lookup(query@, pair_view(lang)),
{
    lookup_plan(query, lang, TYPO_DISTANCE, true)
}

/// The result read from a stored document under a schema whose field names
/// are `names`: each result field is the first text of the same-named field.
pub open spec fn document_result(names: Seq<Seq<char>>, d: TantivyDocument) -> ResultView {
    let v = document_values(d);
    stored_result(
        first_text_in(v, position_of(names, "word"@)),
        first_text_in(v, position_of(names, "definition"@)),
        first_text_in(v, position_of(names, "pos"@)),
        first_text_in(v, position_of(names, "pronunciation"@)),
        first_text_in(v, position_of(names, "source"@)),
    )
}

/// The results read from stored documents, in order.
pub open spec fn documents_results(names: Seq<Seq<char>>, docs: Seq<TantivyDocument>) -> Seq<ResultView> {
    docs.map_values(|d: TantivyDocument| document_result(names, d))
}

fn stored_text(schema: &tantivy::schema::Schema, doc: &TantivyDocument, name: &str) -> (r: Result<Option<String>, SearchError>)
    ensures
        r is Ok <==> schema_fields(*schema).contains(name@),
        r matches Ok(t) ==> opt_text(t) == first_text_in(document_values(*doc), position_of(schema_fields(*schema), name@)),
        r matches Err(e) ==> (e matches SearchError::MissingField(n) && n@ == name@),
{
    match first_text(schema, doc, name) {
        Ok(t) => Ok(t),
        Err(_) => Err(SearchError::MissingField(owned(name))),
    }
}

/// The first of the fields a result is read from (`word`, `definition`,
/// `pos`, `pronunciation`, `source`) that is not among `have`.
pub open spec fn missing_result_field(have: Seq<Seq<char>>) -> Option<Seq<char>> {
    if !have.contains("word"@) {
        Some("word"@)
    } else if !have.contains("definition"@) {
        Some("definition"@)
    } else if !have.contains("pos"@) {
        Some("pos"@)
    } else if !have.contains("pronunciation"@) {
        Some("pronunciation"@)
    } else if !have.contains("source"@) {
        Some("source"@)
    } else {
        None
    }
}

/// The results read from stored documents, in order; an error, naming the
/// first field a result is read from that the schema lacks, when there is one.
fn collect_results(schema: &tantivy::schema::Schema, docs: &Vec<TantivyDocument>) -> (r: Result<Vec<SearchResult>, SearchError>)
    ensures
        r is Ok <==> missing_result_field(schema_fields(*schema)) is None,
        r matches Ok(v) ==> views(v@) == documents_results(schema_fields(*schema), docs@),
        r matches Err(e) ==> (e matches SearchError::MissingField(n) && missing_result_field(schema_fields(*schema)) == Some(n@)),
{
    let ghost names = schema_fields(*schema);
    let _ = field(schema, "word")?;
    let _ = field(schema, "definition")?;
    let _ = field(schema, "pos")?;
    let _ = field(schema, "pronunciation")?;
    let _ = field(schema, "source")?;
    let mut results: Vec<SearchResult> = Vec::new();
    let n = docs.len();
    let mut i: usize = 0;
    while i < n
        invariant
            n == docs@.len(),
            names == schema_fields(*schema),
            missing_result_field(names) is None,
            i <= n,
            views(results@) == documents_results(names, docs@.take(i as int)),
        decreases n - i,
    {
        let d = &docs[i];
        let r = result_from_stored(
            stored_text(schema, d, "word")?,
            stored_text(schema, d, "definition")?,
            stored_text(schema, d, "pos")?,
            stored_text(schema, d, "pronunciation")?,
            stored_text(schema, d, "source")?,
        );
        proof {
            lemma_views_push(results@, r);
        }
        results.push(r);
        assert(documents_results(names, docs@.take(i + 1)) =~= documents_results(names, docs@.take(i as int)).push(
            document_result(names, docs@[i as int]),
        ));
        i = i + 1;
    }
    assert(docs@.take(n as int) =~= docs@);
    Ok(results)
}

/// Whether `e` is an error a local lookup may end in: the index could not be
/// searched, or its schema lacks a field results are read from.
pub open spec fn lookup_error(e: SearchError) -> bool {
    match e {
        SearchError::Backend(_) => true,
        SearchError::MissingField(n) => n@ == "word"@ || n@ == "definition"@ || n@ == "pos"@ || n@ == "pronunciation"@
            || n@ == "source"@,
    }
}

/// The document stored for an entry under a schema whose field names are
/// `names`: each value of the entry's document, in order, under the number of
/// the same-named field.
pub open spec fn entry_values(names: Seq<Seq<char>>, e: Entry) -> Seq<(u32, Option<Seq<char>>)> {
    document_of(e).map_values(|f: (Seq<char>, Seq<char>)| ((position_of(names, f.0) as u32), Some(f.1)))
}

/// The document to store for an entry; an error, naming the first field of
/// the dictionary the schema lacks, when there is one.
pub fn entry_document(schema: &tantivy::schema::Schema, e: &Entry) -> (r: Result<TantivyDocument, SearchError>)
    ensures
        r is Ok <==> missing_field(schema_fields(*schema)) is None,
        r matches Ok(d) ==> document_values(d) == entry_values(schema_fields(*schema), *e),
        r matches Err(err) ==> (err matches SearchError::MissingField(n) && missing_field(schema_fields(*schema)) == Some(n@)),
{
    check_schema(schema)?;
    let fields = e.document_fields();
    let ghost names = schema_fields(*schema);
    let ghost values = document_of(*e);
    assert(forall|k: int| 0 <= k < 8 ==> names.contains(#[trigger] values[k].0));
    let mut doc = new_document();
    let n = fields.len();
    assert(crate::entry::fields_view(fields@).len() == fields@.len());
    let mut i: usize = 0;
    while i < n
        invariant
            n == fields@.len(),
            n == 8,
            crate::entry::fields_view(fields@) == values,
            names == schema_fields(*schema),
            missing_field(names) is None,
            forall|k: int| 0 <= k < 8 ==> names.contains(#[trigger] values[k].0),
            values == document_of(*e),
            i <= n,
            document_values(doc) == entry_values(names, *e).take(i as int),
        decreases n - i,
    {
        assert(crate::entry::fields_view(fields@)[i as int] == (fields@[i as int].0@, fields@[i as int].1@));
        assert(names.contains(values[i as int].0));
        match add_named_text(schema, &mut doc, fields[i].0.as_str(), fields[i].1.as_str()) {
            Ok(()) => {},
            Err(_) => return Err(SearchError::MissingField(fields[i].0.clone())),
        }
        assert(entry_values(names, *e).take(i + 1) =~= entry_values(names, *e).take(i as int).push(entry_values(names, *e)[i as int]));
        i = i + 1;
    }
    assert(entry_values(names, *e).take(n as int) =~= entry_values(names, *e));
    Ok(doc)
}

/// A lookup through a searcher returns as many results as the searcher's
/// documents match, up to `limit`.
pub proof fn lookups_count_the_searchers_matches(s: Searcher, plan: PlanView, near: bool, limit: nat, results: Seq<ResultView>)
    requires
        searched(s, plan, near, limit, results),
    ensures
        results.len() == (if limit < match_count(searcher_documents(s), plan, near) {
            limit
        } else {
            match_count(searcher_documents(s), plan, near)
        }),
{
}

/// Lookups ignore case: two queries with the same lower-case form are
/// looked up alike, exactly and approximately.
pub proof fn lookups_ignore_case(q1: Seq<char>, q2: Seq<char>, lang: Option<(Seq<char>, Seq<char>)>)
    requires
        lowercase(q1) == lowercase(q2),
    ensures
        exact_lookup(q1, lang) == exact_lookup(q2, lang),
        near_lookup(q1, lang) == near_lookup(q2, lang),
{
}

/// Every document an exact lookup matches, the approximate lookup of the
/// same query matches too.
pub proof fn exact_matches_are_near_matches(
    d: (Set<(Seq<char>, Seq<char>)>, Seq<(u32, Option<Seq<char>>)>),
    query: Seq<char>,
    lang: Option<(Seq<char>, Seq<char>)>,
)
    ensures
        plan_matches(d, exact_lookup(query, lang), false) ==> plan_matches(d, near_lookup(query, lang), true),
{
    let e = exact_lookup(query, lang);
    let n = near_lookup(query, lang);
    if plan_matches(d, e, false) {
        assert(d.0.contains((n.field, n.text)));
        assert(has_near_term(d, n.field, n.text, n.edits, n.transposition));
        assert forall|k: int| 0 <= k < n.filters.len() implies has_term(d, #[trigger] n.filters[k].0, n.filters[k].1) by {
            assert(e.filters[k] == n.filters[k]);
        }
    }
}

/// A lookup restricted to a language pair matches exactly the documents the
/// unrestricted lookup matches whose source language is the pair's first
/// and whose target language is its second, compared as they are.
pub proof fn language_pairs_filter_matches(
    d: (Set<(Seq<char>, Seq<char>)>, Seq<(u32, Option<Seq<char>>)>),
    query: Seq<char>,
    src: Seq<char>,
    tgt: Seq<char>,
    near: bool,
)
    ensures
        plan_matches(d, exact_lookup(query, Some((src, tgt))), near) <==> (plan_matches(d, exact_lookup(query, None), near)
            && has_term(d, "source_lang"@, src) && has_term(d, "target_lang"@, tgt)),
        plan_matches(d, near_lookup(query, Some((src, tgt))), near) <==> (plan_matches(d, near_lookup(query, None), near)
            && has_term(d, "source_lang"@, src) && has_term(d, "target_lang"@, tgt)),
{
    let f = lookup_filters(Some((src, tgt)));
    assert(f.len() == 2 && f[0] == ("source_lang"@, src) && f[1] == ("target_lang"@, tgt));
    assert(lookup_filters(None).len() == 0);
    let both = has_term(d, "source_lang"@, src) && has_term(d, "target_lang"@, tgt);
    assert((forall|k: int| 0 <= k < f.len() ==> has_term(d, #[trigger] f[k].0, f[k].1)) <==> both) by {
        if both {
            assert forall|k: int| 0 <= k < f.len() implies has_term(d, #[trigger] f[k].0, f[k].1) by {
                if k == 0 {
                } else {
                    assert(k == 1);
                }
            }
        }
        if forall|k: int| 0 <= k < f.len() ==> has_term(d, #[trigger] f[k].0, f[k].1) {
            assert(has_term(d, f[0].0, f[0].1));
            assert(has_term(d, f[1].0, f[1].1));
        }
    }
    let none_filters = lookup_filters(None);
    assert(forall|k: int| 0 <= k < none_filters.len() ==> has_term(d, #[trigger] none_filters[k].0, none_filters[k].1));
    assert(exact_lookup(query, Some((src, tgt))).filters == f);
    assert(near_lookup(query, Some((src, tgt))).filters == f);
    assert(exact_lookup(query, None).filters == none_filters);
    assert(near_lookup(query, None).filters == none_filters);
}

/// Whether `got` holds a document with the stored values of `d`.
pub open spec fn stored_among(d: TantivyDocument, got: Seq<TantivyDocument>) -> bool {
    exists|j: int| 0 <= j < got.len() && document_values(got[j]) == document_values(d)
}

/// Documents found by a first lookup are among those a second lookup found
/// in the same documents, when every match of the first is a match of the
/// second and the second had room to spare.
proof fn lemma_found_among(
    docs: Seq<(Set<(Seq<char>, Seq<char>)>, Seq<(u32, Option<Seq<char>>)>)>,
    p1: PlanView,
    n1: bool,
    p2: PlanView,
    n2: bool,
    limit: nat,
    g1: Seq<TantivyDocument>,
    g2: Seq<TantivyDocument>,
)
    requires
        found(docs, p1, n1, limit, g1),
        found(docs, p2, n2, limit, g2),
        g2.len() < limit,
        forall|k: int| 0 <= k < docs.len() && #[trigger] plan_matches(docs[k], p1, n1) ==> plan_matches(docs[k], p2, n2),
    ensures
        forall|i: int| 0 <= i < g1.len() ==> stored_among(#[trigger] g1[i], g2),
{
    let a1 = choose|at: Seq<int>| {
        &&& at.len() == g1.len()
        &&& forall|i: int, j: int| 0 <= i < j < at.len() ==> at[i] != at[j]
        &&& forall|i: int| #![trigger at[i]] 0 <= i < at.len() ==> 0 <= at[i] < docs.len()
            && plan_matches(docs[at[i]], p1, n1) && document_values(g1[i]) == docs[at[i]].1
        &&& at.len() < limit ==> forall|k: int| #![trigger docs[k]] 0 <= k < docs.len() && plan_matches(docs[k], p1, n1)
            ==> at.contains(k)
    };
    let a2 = choose|at: Seq<int>| {
        &&& at.len() == g2.len()
        &&& forall|i: int, j: int| 0 <= i < j < at.len() ==> at[i] != at[j]
        &&& forall|i: int| #![trigger at[i]] 0 <= i < at.len() ==> 0 <= at[i] < docs.len()
            && plan_matches(docs[at[i]], p2, n2) && document_values(g2[i]) == docs[at[i]].1
        &&& at.len() < limit ==> forall|k: int| #![trigger docs[k]] 0 <= k < docs.len() && plan_matches(docs[k], p2, n2)
            ==> at.contains(k)
    };
    assert forall|i: int| 0 <= i < g1.len() implies stored_among(#[trigger] g1[i], g2) by {
        let k = a1[i];
        assert(plan_matches(docs[k], p1, n1));
        assert(a2.contains(k));
        let j = choose|j: int| 0 <= j < a2.len() && a2[j] == k;
        assert(document_values(g2[j]) == docs[a2[j]].1);
    }
}

/// Results read through one searcher by a first lookup are among those of a
/// second lookup through it, when every match of the first is a match of the
/// second and the second had room to spare.
proof fn lemma_results_among(s: Searcher, p1: PlanView, n1: bool, p2: PlanView, n2: bool, limit: nat, r1: Seq<ResultView>, r2: Seq<ResultView>)
    requires
        searched(s, p1, n1, limit, r1),
        searched(s, p2, n2, limit, r2),
        r2.len() < limit,
        forall|k: int| 0 <= k < searcher_documents(s).len() && #[trigger] plan_matches(searcher_documents(s)[k], p1, n1)
            ==> plan_matches(searcher_documents(s)[k], p2, n2),
    ensures
        forall|x: ResultView| r1.contains(x) ==> r2.contains(x),
{
    let docs = searcher_documents(s);
    let names = searcher_fields(s);
    let g1 = choose|got: Seq<TantivyDocument>| found(docs, p1, n1, limit, got) && r1 == documents_results(names, got);
    let g2 = choose|got: Seq<TantivyDocument>| found(docs, p2, n2, limit, got) && r2 == documents_results(names, got);
    lemma_found_among(docs, p1, n1, p2, n2, limit, g1, g2);
    assert forall|x: ResultView| r1.contains(x) implies r2.contains(x) by {
        let i = choose|i: int| 0 <= i < r1.len() && r1[i] == x;
        assert(stored_among(g1[i], g2));
        let j = choose|j: int| 0 <= j < g2.len() && document_values(g2[j]) == document_values(g1[i]);
        assert(r2[j] == document_result(names, g2[j]));
        assert(r1[i] == document_result(names, g1[i]));
    }
}

/// Two lookups with one plan through one searcher return as many results,
/// and the same ones when there was room to spare.
pub proof fn one_searcher_one_answer(s: Searcher, plan: PlanView, near: bool, limit: nat, r1: Seq<ResultView>, r2: Seq<ResultView>)
    requires
        searched(s, plan, near, limit, r1),
        searched(s, plan, near, limit, r2),
    ensures
        r1.len() == r2.len(),
        r1.len() < limit ==> forall|x: ResultView| r1.contains(x) <==> r2.contains(x),
{
    if r1.len() < limit {
        lemma_results_among(s, plan, near, plan, near, limit, r1, r2);
        lemma_results_among(s, plan, near, plan, near, limit, r2, r1);
    }
}

/// Lookups through one searcher ignore case: two queries with the same
/// lower-case form get as many results, and the same ones when there was
/// room to spare.
pub proof fn case_insensitive_lookups_agree(
    s: Searcher,
    q1: Seq<char>,
    q2: Seq<char>,
    lang: Option<(Seq<char>, Seq<char>)>,
    near: bool,
    limit: nat,
    r1: Seq<ResultView>,
    r2: Seq<ResultView>,
)
    requires
        lowercase(q1) == lowercase(q2),
        searched(s, if near { near_lookup(q1, lang) } else { exact_lookup(q1, lang) }, near, limit, r1),
        searched(s, if near { near_lookup(q2, lang) } else { exact_lookup(q2, lang) }, near, limit, r2),
    ensures
        r1.len() == r2.len(),
        r1.len() < limit ==> forall|x: ResultView| r1.contains(x) <==> r2.contains(x),
{
    lookups_ignore_case(q1, q2, lang);
    one_searcher_one_answer(s, if near { near_lookup(q1, lang) } else { exact_lookup(q1, lang) }, near, limit, r1, r2);
}

/// Through one searcher, every exact result of a query is among its
/// approximate results, when the approximate lookup had room to spare.
pub proof fn exact_results_are_among_near_results(
    s: Searcher,
    query: Seq<char>,
    lang: Option<(Seq<char>, Seq<char>)>,
    limit: nat,
    exact: Seq<ResultView>,
    near: Seq<ResultView>,
)
    requires
        searched(s, exact_lookup(query, lang), false, limit, exact),
        searched(s, near_lookup(query, lang), true, limit, near),
        near.len() < limit,
    ensures
        forall|x: ResultView| exact.contains(x) ==> near.contains(x),
{
    assert forall|k: int| 0 <= k < searcher_documents(s).len() && #[trigger] plan_matches(searcher_documents(s)[k], exact_lookup(query, lang), false)
        implies plan_matches(searcher_documents(s)[k], near_lookup(query, lang), true) by {
        exact_matches_are_near_matches(searcher_documents(s)[k], query, lang);
    }
    lemma_results_among(s, exact_lookup(query, lang), false, near_lookup(query, lang), true, limit, exact, near);
}

/// Through one searcher, the results of a lookup restricted to a language
/// pair are among those of the unrestricted lookup, when that one had room
/// to spare.
pub proof fn pair_results_are_among_unrestricted_results(
    s: Searcher,
    query: Seq<char>,
    src: Seq<char>,
    tgt: Seq<char>,
    near: bool,
    limit: nat,
    restricted: Seq<ResultView>,
    all: Seq<ResultView>,
)
    requires
        searched(s, if near { near_lookup(query, Some((src, tgt))) } else { exact_lookup(query, Some((src, tgt))) }, near, limit, restricted),
        searched(s, if near { near_lookup(query, None) } else { exact_lookup(query, None) }, near, limit, all),
        all.len() < limit,
    ensures
        forall|x: ResultView| restricted.contains(x) ==> all.contains(x),
{
    let p1 = if near { near_lookup(query, Some((src, tgt))) } else { exact_lookup(query, Some((src, tgt))) };
    let p2 = if near { near_lookup(query, None) } else { exact_lookup(query, None) };
    assert forall|k: int| 0 <= k < searcher_documents(s).len() && #[trigger] plan_matches(searcher_documents(s)[k], p1, near)
        implies plan_matches(searcher_documents(s)[k], p2, near) by {
        language_pairs_filter_matches(searcher_documents(s)[k], query, src, tgt, near);
    }
    lemma_results_among(s, p1, near, p2, near, limit, restricted, all);
}

/// An approximate lookup finds a word with one typo at any position, the
/// first included: a different first character is one edit.
pub proof fn first_character_typos_are_one_edit(c: char, e: char, rest: Seq<char>)
    ensures
        one_edit_apart(seq![c] + rest, seq![e] + rest, false),
{
    let a = seq![c] + rest;
    let b = seq![e] + rest;
    assert(a.take(0) =~= b.take(0));
    assert(a.skip(1) =~= b.skip(1));
}

/// A lookup returns at most `limit` results, and every match when fewer
/// than `limit` documents match.
pub proof fn lookups_return_every_match_up_to_the_limit(
    docs: Seq<(Set<(Seq<char>, Seq<char>)>, Seq<(u32, Option<Seq<char>>)>)>,
    plan: PlanView,
    near: bool,
    limit: nat,
    got: Seq<TantivyDocument>,
)
    requires
        found(docs, plan, near, limit, got),
    ensures
        got.len() <= limit,
        match_count(docs, plan, near) <= limit ==> got.len() == match_count(docs, plan, near),
{
}

/// Whether `out` is the output of a lookup of `query` under `lang` through
/// one searcher: the exact matches when some were found, else the
/// approximate matches with a suggestion, each lookup with room for
/// `RESULT_LIMIT` results.
pub open spec fn local_lookup(query: Seq<char>, lang: Option<(Seq<char>, Seq<char>)>, out: OutputView) -> bool {
    exists|s: Searcher, exact: Seq<ResultView>, near: Seq<ResultView>|
        #![trigger searched(s, exact_lookup(query, lang), false, RESULT_LIMIT as nat, exact), local_view(query, exact, near)]
        out == local_view(query, exact, near) && searched(s, exact_lookup(query, lang), false, RESULT_LIMIT as nat, exact)
            && (exact.len() == 0 ==> searched(s, near_lookup(query, lang), true, RESULT_LIMIT as nat, near))
}

/// The results of `plan` read through `searcher`: as many as match among the
/// searcher's documents, up to `limit`, each read field by field from a
/// different matching document. An error, naming it, when the searcher's
/// schema lacks a field results are read from; otherwise a `Backend` error
/// only when the index could not be searched.
pub fn lookup_in(searcher: &Searcher, plan: &LookupPlan, near: bool, limit: usize) -> (r: Result<Vec<SearchResult>, SearchError>)
    requires
        limit >= 1,
        near ==> plan@.edits <= 1,
    ensures
        r matches Ok(v) ==> searched(*searcher, plan@, near, limit as nat, views(v@)),
        r matches Err(e) ==> lookup_error(e),
        r matches Err(SearchError::MissingField(n)) ==> missing_result_field(searcher_fields(*searcher)) == Some(n@),
        missing_result_field(searcher_fields(*searcher)) is Some ==> r is Err,
{
    let schema = searcher_schema(searcher);
    let fetched = if near {
        near_documents(searcher, plan, limit)
    } else {
        exact_documents(searcher, plan, limit)
    };
    let docs = match fetched {
        Ok(d) => d,
        Err(e) => return Err(SearchError::Backend(error_message(&e))),
    };
    let results = collect_results(&schema, &docs)?;
    assert(found(searcher_documents(*searcher), plan@, near, limit as nat, docs@));
    Ok(results)
}

/// The local dictionary index.
pub struct SearchIndex {
    reader: tantivy::IndexReader,
}

fn field(schema: &tantivy::schema::Schema, name: &str) -> (r: Result<tantivy::schema::Field, SearchError>)
    ensures
        r is Ok <==> schema_fields(*schema).contains(name@),
        r matches Err(e) ==> (e matches SearchError::MissingField(n) && n@ == name@),
{
    match field_named(schema, name) {
        Ok(f) => Ok(f),
        Err(_) => Err(SearchError::MissingField(owned(name))),
    }
}

/// The first field of the dictionary, in the order of the index layout,
/// that is not among `have`.
pub open spec fn missing_field(have: Seq<Seq<char>>) -> Option<Seq<char>> {
    if !have.contains("word"@) {
        Some("word"@)
    } else if !have.contains("word_lower"@) {
        Some("word_lower"@)
    } else if !have.contains("definition"@) {
        Some("definition"@)
    } else if !have.contains("pos"@) {
        Some("pos"@)
    } else if !have.contains("pronunciation"@) {
        Some("pronunciation"@)
    } else if !have.contains("source_lang"@) {
        Some("source_lang"@)
    } else if !have.contains("target_lang"@) {
        Some("target_lang"@)
    } else if !have.contains("source"@) {
        Some("source"@)
    } else {
        None
    }
}

/// A schema with the fields of the index layout lacks none of the dictionary's fields.
pub proof fn built_schema_has_every_field(have: Seq<Seq<char>>)
    requires
        have == field_names(),
    ensures
        missing_field(have) is None,
{
    assert(have[0] == "word"@ && have[1] == "word_lower"@ && have[2] == "definition"@ && have[3] == "pos"@);
    assert(have[4] == "pronunciation"@ && have[5] == "source_lang"@ && have[6] == "target_lang"@ && have[7] == "source"@);
}

/// Whether a schema has every field of the dictionary: the first field it
/// lacks, in layout order, is named in the error.
pub fn check_schema(schema: &tantivy::schema::Schema) -> (r: Result<(), SearchError>)
    ensures
        match r {
            Ok(_) => missing_field(schema_fields(*schema)) is None,
            Err(e) => e matches SearchError::MissingField(n) && missing_field(schema_fields(*schema)) == Some(n@),
        },
{
    let _ = field(schema, "word")?;
    let _ = field(schema, "word_lower")?;
    let _ = field(schema, "definition")?;
    let _ = field(schema, "pos")?;
    let _ = field(schema, "pronunciation")?;
    let _ = field(schema, "source_lang")?;
    let _ = field(schema, "target_lang")?;
    let _ = field(schema, "source")?;
    Ok(())
}

/// Every field `missing_field` names is a field of the dictionary.
pub proof fn missing_fields_are_dictionary_fields(have: Seq<Seq<char>>)
    ensures
        missing_field(have) matches Some(n) ==> field_names().contains(n),
{
    let f = field_names();
    assert(f[0] == "word"@ && f[1] == "word_lower"@ && f[2] == "definition"@ && f[3] == "pos"@);
    assert(f[4] == "pronunciation"@ && f[5] == "source_lang"@ && f[6] == "target_lang"@ && f[7] == "source"@);
}

impl SearchIndex {
    /// The reader the index is searched through.
    pub closed spec fn reader(self) -> tantivy::IndexReader {
        self.reader
    }

    /// The index read by `reader`. Whether its schema has the dictionary's
    /// fields is found out by the lookups.
    pub fn open(reader: tantivy::IndexReader) -> (r: SearchIndex)
        ensures
            r.reader() == reader,
    {
        SearchIndex { reader }
    }

    /// A searcher over the index as it is now (`IndexReader::searcher`):
    /// lookups through one searcher all read the same documents.
    pub fn snapshot(&self) -> Searcher {
        searcher_of(&self.reader)
    }

    /// The senses whose lower-cased word is the lower-cased query, restricted
    /// to the language pair when one is given (the lookup `exact_plan` makes):
    /// as many as match among the documents of a searcher over the index as
    /// it is now, up to `limit`, each read from a different stored document
    /// (see `lookup_in`). Which ones come first, by score, is not stated.
    pub fn search_exact(&self, query: &str, lang: Option<(&str, &str)>, limit: usize) -> (r: Result<Vec<SearchResult>, SearchError>)
        requires
            limit >= 1,
        ensures
            r matches Ok(v) ==> exists|s: Searcher| #[trigger] searched(s, exact_lookup(query@, pair_view(lang)), false, limit as nat, views(v@)),
            r matches Err(e) ==> lookup_error(e),
    {
        let plan = exact_plan(query, lang);
        lookup_in(&self.snapshot(), &plan, false, limit)
    }

    /// The senses whose lower-cased word is within one edit of the lower-cased
    /// query, restricted to the language pair when one is given (the lookup
    /// `near_plan` makes): as many as match among the documents of a searcher
    /// over the index as it is now, up to `limit`, each read from a different
    /// stored document (see `lookup_in`). Which ones come first, by score, is
    /// not stated.
    pub fn search_fuzzy(&self, query: &str, lang: Option<(&str, &str)>, limit: usize) -> (r: Result<Vec<SearchResult>, SearchError>)
        requires
            limit >= 1,
        ensures
            r matches Ok(v) ==> exists|s: Searcher| #[trigger] searched(s, near_lookup(query@, pair_view(lang)), true, limit as nat, views(v@)),
            r matches Err(e) ==> lookup_error(e),
    {
        let plan = near_plan(query, lang);
        lookup_in(&self.snapshot(), &plan, true, limit)
    }

    /// A lookup through one searcher over the index as it is now: the exact
    /// matches when there are any, else the approximate matches with a
    /// spelling suggestion.
    pub fn search(&self, query: &str, lang: Option<(&str, &str)>) -> (r: Result<SearchOutput, SearchError>)
        ensures
            r matches Ok(out) ==> local_lookup(query@, pair_view(lang), out@),
            r matches Err(e) ==> lookup_error(e),
    {
        let searcher = self.snapshot();
        let exact = lookup_in(&searcher, &exact_plan(query, lang), false, RESULT_LIMIT)?;
        if exact.len() > 0 {
            let out = local_output(query, exact, Vec::new());
            assert(out@ == local_view(query@, views(exact@), Seq::empty()));
            return Ok(out);
        }
        let near = lookup_in(&searcher, &near_plan(query, lang), true, RESULT_LIMIT)?;
        let out = local_output(query, exact, near);
        assert(out@ == local_view(query@, views(exact@), views(near@)));
        Ok(out)
    }
}

/// The local dictionary as a source of lookups.
pub struct LocalProvider {
    index: SearchIndex,
}

impl LocalProvider {
    /// The index this source looks words up in.
    pub closed spec fn index(self) -> SearchIndex {
        self.index
    }

    /// The source that looks words up in `index`.
    pub fn new(index: SearchIndex) -> (r: LocalProvider)
        ensures
            r.index() == index,
    {
        LocalProvider { index }
    }

    /// Looks `query` up, restricted to the pair `lang` unless both of its
    /// languages are empty.
    pub fn search(&self, query: &str, lang: (&str, &str)) -> (r: Result<SearchOutput, SearchError>)
        ensures
            r matches Ok(out) ==> local_lookup(query@, lang_filter((lang.0@, lang.1@)), out@),
            r matches Err(e) ==> lookup_error(e),
    {
        self.index.search(query, language_restriction(lang))
    }

    /// The name of this source.
    pub fn name(&self) -> (r: &'static str)
        ensures
            r@ == "local"@,
    {
        "local"
    }
}

} // verus!
