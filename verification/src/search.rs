//! Search results and the output of one lookup.

use vstd::prelude::*;

verus! {

/// One dictionary sense found for a word.
#[derive(Debug, Clone, PartialEq, Eq)]
pub struct SearchResult {
    pub word: String,
    pub definition: String,
    pub pos: String,
    pub pronunciation: String,
    pub source: String,
}

/// The text of a search result's fields.
pub struct ResultView {
    pub word: Seq<char>,
    pub definition: Seq<char>,
    pub pos: Seq<char>,
    pub pronunciation: Seq<char>,
    pub source: Seq<char>,
}

impl View for SearchResult {
    type V = ResultView;

    open spec fn view(&self) -> ResultView {
        ResultView {
            word: self.word@,
            definition: self.definition@,
            pos: self.pos@,
            pronunciation: self.pronunciation@,
            source: self.source@,
        }
    }
}

/// The views of a sequence of results.
pub open spec fn views(v: Seq<SearchResult>) -> Seq<ResultView> {
    v.map_values(|r: SearchResult| r@)
}

/// The text of an optional string.
pub open spec fn opt_text(o: Option<String>) -> Option<Seq<char>> {
    match o {
        Some(s) => Some(s@),
        None => None,
    }
}

/// What one lookup produced: the query, whether it matched as typed, a
/// spelling suggestion, and the senses found.
#[derive(Debug, Clone, PartialEq, Eq)]
pub struct SearchOutput {
    pub query: String,
    pub exact: bool,
    pub suggestion: Option<String>,
    pub entries: Vec<SearchResult>,
}

/// The content of a search output.
pub struct OutputView {
    pub query: Seq<char>,
    pub exact: bool,
    pub suggestion: Option<Seq<char>>,
    pub entries: Seq<ResultView>,
}

impl View for SearchOutput {
    type V = OutputView;

    open spec fn view(&self) -> OutputView {
        OutputView {
            query: self.query@,
            exact: self.exact,
            suggestion: opt_text(self.suggestion),
            entries: views(self.entries@),
        }
    }
}

/// Pushing a result extends the views by its view.
pub proof fn lemma_views_push(v: Seq<SearchResult>, r: SearchResult)
    ensures
        views(v.push(r)) == views(v).push(r@),
{
    assert(views(v.push(r)) =~= views(v).push(r@));
}

} // verus!
