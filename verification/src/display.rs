//! What the window shows for a lookup, and the decisions its events lead to.

use vstd::prelude::*;

use crate::search::{opt_text, views, OutputView, ResultView, SearchOutput, SearchResult};
use crate::google::{params_view, GoogleProvider, ServiceRequest};
use crate::index::lang_filter;
use crate::text::{decimal, decimal_string, owned, same_text};

verus! {

/// One element of the result pane.
#[derive(Debug, Clone, PartialEq, Eq)]
pub enum DisplayItem {
    /// The lookup found nothing.
    NoResults(String),
    /// A spelling the service proposes instead of the query.
    Suggestion(String),
    /// How many results an exact lookup found.
    Count(String),
    /// The heading of a word: the word, its pronunciation, its part of speech in parentheses.
    Header { word: String, pronunciation: Option<String>, pos: Option<String> },
    /// A sense: the definition, and the source in brackets.
    Definition { definition: String, source: String },
    /// The rule below the last result.
    Divider,
}

/// The text of a display element.
pub enum ItemView {
    NoResults(Seq<char>),
    Suggestion(Seq<char>),
    Count(Seq<char>),
    Header { word: Seq<char>, pronunciation: Option<Seq<char>>, pos: Option<Seq<char>> },
    Definition { definition: Seq<char>, source: Seq<char> },
    Divider,
}

/// The text of a display element.
pub open spec fn item_view(d: DisplayItem) -> ItemView {
    match d {
        DisplayItem::NoResults(s) => ItemView::NoResults(s@),
        DisplayItem::Suggestion(s) => ItemView::Suggestion(s@),
        DisplayItem::Count(s) => ItemView::Count(s@),
        DisplayItem::Header { word, pronunciation, pos } => ItemView::Header {
            word: word@,
            pronunciation: opt_text(pronunciation),
            pos: opt_text(pos),
        },
        DisplayItem::Definition { definition, source } => ItemView::Definition {
            definition: definition@,
            source: source@,
        },
        DisplayItem::Divider => ItemView::Divider,
    }
}

/// The text of a list of display elements.
pub open spec fn items_view(v: Seq<DisplayItem>) -> Seq<ItemView> {
    v.map_values(|d: DisplayItem| item_view(d))
}

/// A text shown only when it is not empty.
pub open spec fn unless_empty(s: Seq<char>) -> Option<Seq<char>> {
    if s.len() == 0 {
        None
    } else {
        Some(s)
    }
}

/// The heading of a result's word.
pub open spec fn header_item(r: ResultView) -> ItemView {
    ItemView::Header {
        word: r.word,
        pronunciation: unless_empty(r.pronunciation),
        pos: if r.pos.len() == 0 {
            None
        } else {
            Some("("@ + r.pos + ")"@)
        },
    }
}

/// A heading shows the part of speech, in parentheses, exactly when it is
/// not empty, whatever the pronunciation; it shows the word as it is.
pub proof fn headings_show_the_part_of_speech(r: ResultView, other: ResultView)
    ensures
        r.pos.len() > 0 ==> (header_item(r) matches ItemView::Header { pos: Some(p), .. } && p == "("@ + r.pos + ")"@),
        r.pos.len() == 0 ==> header_item(r) matches ItemView::Header { pos: None, .. },
        header_item(r) matches ItemView::Header { word, .. } && word == r.word,
        other.pos == r.pos ==> (header_item(r) matches ItemView::Header { pos: a, .. } && header_item(other) matches ItemView::Header {
            pos: b,
            ..
        } && a == b),
{
}

/// The element of a result's sense.
pub open spec fn definition_item(r: ResultView) -> ItemView {
    ItemView::Definition { definition: r.definition, source: "["@ + r.source + "]"@ }
}

/// The elements of one result: a heading when its word differs from `previous`, then its sense.
pub open spec fn result_items(r: ResultView, previous: Seq<char>) -> Seq<ItemView> {
    if r.word != previous {
        seq![header_item(r), definition_item(r)]
    } else {
        seq![definition_item(r)]
    }
}

/// The elements of a list of results, grouped under a heading per word.
pub open spec fn grouped(rs: Seq<ResultView>) -> Seq<ItemView>
    decreases rs.len(),
{
    if rs.len() == 0 {
        Seq::empty()
    } else {
        let i = rs.len() - 1;
        grouped(rs.drop_last()) + result_items(
            rs.last(),
            if i == 0 {
                Seq::empty()
            } else {
                rs[i - 1].word
            },
        )
    }
}

/// The count line: `1 result`, or `n results` for any other `n`.
pub open spec fn count_text(n: nat) -> Seq<char> {
    decimal(n) + " result"@ + if n == 1 {
        Seq::empty()
    } else {
        "s"@
    }
}

/// What the result pane shows for an output: a notice when nothing was found;
/// else the suggestion (inexact lookups) or the count (exact lookups), the
/// grouped results, and a divider.
pub open spec fn pane(out: OutputView) -> Seq<ItemView> {
    if out.entries.len() == 0 {
        seq![ItemView::NoResults("No results for \""@ + out.query + "\""@)]
    } else {
        let intro = if !out.exact {
            match out.suggestion {
                Some(s) => seq![ItemView::Suggestion("Did you mean: "@ + s + "?"@)],
                None => Seq::empty(),
            }
        } else {
            seq![ItemView::Count(count_text(out.entries.len()))]
        };
        intro + grouped(out.entries) + seq![ItemView::Divider]
    }
}

/// How many sense elements a list of elements holds.
pub open spec fn sense_count(items: Seq<ItemView>) -> nat
    decreases items.len(),
{
    if items.len() == 0 {
        0
    } else {
        sense_count(items.drop_last()) + if items.last() is Definition {
            1nat
        } else {
            0nat
        }
    }
}

proof fn lemma_sense_count_concat(a: Seq<ItemView>, b: Seq<ItemView>)
    ensures
        sense_count(a + b) == sense_count(a) + sense_count(b),
    decreases b.len(),
{
    if b.len() == 0 {
        assert(a + b =~= a);
    } else {
        assert((a + b).drop_last() =~= a + b.drop_last());
        lemma_sense_count_concat(a, b.drop_last());
    }
}

proof fn lemma_one_sense_per_result(r: ResultView, previous: Seq<char>)
    ensures
        sense_count(result_items(r, previous)) == 1,
{
    let d = seq![definition_item(r)];
    assert(d.drop_last() =~= Seq::<ItemView>::empty());
    assert(sense_count(Seq::<ItemView>::empty()) == 0);
    assert(sense_count(d) == 1);
    if r.word != previous {
        let h = seq![header_item(r)];
        let two = seq![header_item(r), definition_item(r)];
        assert(two.drop_last() =~= h);
        assert(h.drop_last() =~= Seq::<ItemView>::empty());
        assert(sense_count(h) == 0);
        assert(sense_count(two) == 1);
    }
}

/// Grouping shows each result's sense exactly once: the elements hold as many
/// senses as there are results.
pub proof fn every_result_shows_one_sense(rs: Seq<ResultView>)
    ensures
        sense_count(grouped(rs)) == rs.len(),
    decreases rs.len(),
{
    if rs.len() > 0 {
        let i = rs.len() - 1;
        let previous = if i == 0 {
            Seq::empty()
        } else {
            rs[i - 1].word
        };
        every_result_shows_one_sense(rs.drop_last());
        lemma_sense_count_concat(grouped(rs.drop_last()), result_items(rs.last(), previous));
        lemma_one_sense_per_result(rs.last(), previous);
    }
}

/// The pane of an output with results shows one sense per result, and
/// nothing but the notice for an output without results.
pub proof fn pane_shows_every_result(out: OutputView)
    ensures
        out.entries.len() > 0 ==> sense_count(pane(out)) == out.entries.len(),
        out.entries.len() == 0 ==> pane(out).len() == 1 && pane(out)[0] is NoResults,
{
    if out.entries.len() > 0 {
        let intro = if !out.exact {
            match out.suggestion {
                Some(s) => seq![ItemView::Suggestion("Did you mean: "@ + s + "?"@)],
                None => Seq::empty(),
            }
        } else {
            seq![ItemView::Count(count_text(out.entries.len()))]
        };
        every_result_shows_one_sense(out.entries);
        lemma_sense_count_concat(intro, grouped(out.entries));
        lemma_sense_count_concat(intro + grouped(out.entries), seq![ItemView::Divider]);
        assert(intro.len() <= 1);
        assert(sense_count(Seq::<ItemView>::empty()) == 0);
        if intro.len() == 1 {
            assert(intro.drop_last() =~= Seq::<ItemView>::empty());
            assert(!(intro[0] is Definition));
        }
        assert(sense_count(intro) == 0);
        assert(seq![ItemView::Divider].drop_last() =~= Seq::<ItemView>::empty());
        assert(sense_count(seq![ItemView::Divider]) == 0);
    }
}

fn header_of(r: &SearchResult) -> (d: DisplayItem)
    ensures
        item_view(d) == header_item(r@),
{
    let pronunciation = if r.pronunciation.as_str().is_empty() {
        None
    } else {
        Some(r.pronunciation.clone())
    };
    let pos = if r.pos.as_str().is_empty() {
        None
    } else {
        let mut p = owned("(");
        p.append(r.pos.as_str());
        p.append(")");
        Some(p)
    };
    DisplayItem::Header { word: r.word.clone(), pronunciation, pos }
}

fn definition_of(r: &SearchResult) -> (d: DisplayItem)
    ensures
        item_view(d) == definition_item(r@),
{
    let mut source = owned("[");
    source.append(r.source.as_str());
    source.append("]");
    DisplayItem::Definition { definition: r.definition.clone(), source }
}

/// The count line for `n` results.
pub fn count_line(n: usize) -> (s: String)
    ensures
        s@ == count_text(n as nat),
{
    let mut s = decimal_string(n);
    s.append(" result");
    if n != 1 {
        s.append("s");
    }
    assert(s@ =~= count_text(n as nat));
    s
}

/// The elements the result pane shows for `output`.
pub fn render_output(output: &SearchOutput) -> (items: Vec<DisplayItem>)
    ensures
        items_view(items@) == pane(output@),
{
    let mut items: Vec<DisplayItem> = Vec::new();
    if output.entries.len() == 0 {
        let mut notice = owned("No results for \"");
        notice.append(output.query.as_str());
        notice.append("\"");
        items.push(DisplayItem::NoResults(notice));
        assert(items_view(items@) =~= pane(output@));
        return items;
    }
    if !output.exact {
        match &output.suggestion {
            Some(s) => {
                let mut line = owned("Did you mean: ");
                line.append(s.as_str());
                line.append("?");
                items.push(DisplayItem::Suggestion(line));
            },
            None => {},
        }
    } else {
        items.push(DisplayItem::Count(count_line(output.entries.len())));
    }
    let ghost intro = items_view(items@);
    let ghost rs = views(output.entries@);
    proof {
        let expected = if !output@.exact {
            match output@.suggestion {
                Some(s) => seq![ItemView::Suggestion("Did you mean: "@ + s + "?"@)],
                None => Seq::empty(),
            }
        } else {
            seq![ItemView::Count(count_text(output@.entries.len()))]
        };
        assert(intro =~= expected);
    }
    let mut last_word = String::new();
    let n = output.entries.len();
    let mut i: usize = 0;
    while i < n
        invariant
            n == output.entries@.len(),
            rs == views(output.entries@),
            i <= n,
            items_view(items@) == intro + grouped(rs.take(i as int)),
            last_word@ == (if i == 0 {
                Seq::<char>::empty()
            } else {
                rs[i - 1].word
            }),
        decreases n - i,
    {
        let ghost before = items_view(items@);
        assert(rs.take(i + 1).drop_last() =~= rs.take(i as int));
        let ghost previous = if i == 0 {
            Seq::<char>::empty()
        } else {
            rs[i - 1].word
        };
        assert(rs.take(i + 1).last() == rs[i as int]);
        assert(i > 0 ==> rs.take(i + 1)[i - 1] == rs[i - 1]);
        assert(grouped(rs.take(i + 1)) == grouped(rs.take(i as int)) + result_items(rs[i as int], previous));
        let r = &output.entries[i];
        if !(r.word == last_word) {
            items.push(header_of(r));
            items.push(definition_of(r));
            assert(items_view(items@) =~= before + result_items(rs[i as int], previous));
        } else {
            items.push(definition_of(r));
            assert(items_view(items@) =~= before + result_items(rs[i as int], previous));
        }
        last_word = r.word.clone();
        i = i + 1;
    }
    assert(rs.take(n as int) =~= rs);
    let ghost before = items_view(items@);
    items.push(DisplayItem::Divider);
    assert(items_view(items@) =~= before + seq![ItemView::Divider]);
    items
}

/// How long the typed text must be, in bytes, before the local index is queried.
pub const LOCAL_MIN_LENGTH: usize = 3;

/// What an edit of the search field leads to.
#[derive(Debug, Clone, Copy, PartialEq, Eq, Structural)]
pub enum EditAction {
    /// Query the local index for the text, after a short pause.
    SearchLocal,
    /// Drop any pending lookup and clear the result pane.
    Clear,
}

/// Text of at least three bytes is looked up; shorter text clears the pane.
pub fn on_text_change(text: &str) -> (a: EditAction)
    ensures
        a == (if text.len() >= LOCAL_MIN_LENGTH {
            EditAction::SearchLocal
        } else {
            EditAction::Clear
        }),
{
    if text.len() >= LOCAL_MIN_LENGTH {
        EditAction::SearchLocal
    } else {
        EditAction::Clear
    }
}

/// The language pair a lookup made while typing is given: both languages
/// left empty, so that it is not restricted to a pair.
pub fn typing_lookup_pair() -> (r: (&'static str, &'static str))
    ensures
        r.0@ == ""@ && r.1@ == ""@,
        lang_filter((r.0@, r.1@)) is None,
{
    proof {
        reveal_strlit("");
    }
    ("", "")
}

/// Pressing Enter looks the text up online unless the field is empty.
pub fn enter_starts_lookup(query: &str) -> (r: bool)
    ensures
        r == (query@.len() > 0),
{
    !query.is_empty()
}

/// An online lookup's output is shown only when the field still holds the
/// text that was looked up; otherwise it is dropped.
pub fn result_is_current(current: &str, looked_up: &str) -> (r: bool)
    ensures
        r == (current@ == looked_up@),
{
    same_text(current, looked_up)
}

/// The language the text is spoken in: the source language of the first
/// result shown, else English.
pub fn speech_language(first_result_language: Option<String>) -> (r: String)
    ensures
        r@ == match first_result_language {
            Some(l) => l@,
            None => "en"@,
        },
{
    match first_result_language {
        Some(l) => l,
        None => owned("en"),
    }
}

/// What a request to hear the text leads to.
pub enum AudioAction {
    /// The field is empty: nothing is played.
    Nothing,
    /// The spoken form is already at hand: play it.
    PlayCached,
    /// Fetch the spoken form with this request, keep it, and play it.
    Fetch(ServiceRequest),
}

/// The decision on a request to hear `text` spoken in language `lang`, given
/// whether its spoken form was fetched before.
pub fn audio_action(text: &str, lang: &str, cached: bool) -> (a: AudioAction)
    ensures
        text@.len() == 0 ==> a is Nothing,
        text@.len() > 0 && cached ==> a is PlayCached,
        text@.len() > 0 && !cached ==> (a matches AudioAction::Fetch(r) && r.url@ == "https://translate.google.com/translate_tts"@
            && params_view(r.params@) == seq![("ie"@, "UTF-8"@), ("client"@, "tw-ob"@), ("tl"@, lang@), ("q"@, text@)]),
{
    if text.is_empty() {
        AudioAction::Nothing
    } else if cached {
        AudioAction::PlayCached
    } else {
        AudioAction::Fetch(GoogleProvider::speech_request(text, lang))
    }
}

/// The spoken forms fetched so far, each under the text and the language it
/// was fetched for, in the order they were fetched.
pub struct AudioCache {
    entries: Vec<(String, String, Vec<u8>)>,
}

/// The spoken form kept under `key`: that of the first entry with that key.
pub open spec fn cache_find(entries: Seq<((Seq<char>, Seq<char>), Seq<u8>)>, key: (Seq<char>, Seq<char>)) -> Option<Seq<u8>>
    decreases entries.len(),
{
    if entries.len() == 0 {
        None
    } else if entries[0].0 == key {
        Some(entries[0].1)
    } else {
        cache_find(entries.drop_first(), key)
    }
}

impl View for AudioCache {
    type V = Seq<((Seq<char>, Seq<char>), Seq<u8>)>;

    closed spec fn view(&self) -> Seq<((Seq<char>, Seq<char>), Seq<u8>)> {
        self.entries@.map_values(|e: (String, String, Vec<u8>)| ((e.0@, e.1@), e.2@))
    }
}

impl AudioCache {
    /// A cache with nothing fetched yet.
    pub fn new() -> (c: AudioCache)
        ensures
            c@ == Seq::<((Seq<char>, Seq<char>), Seq<u8>)>::empty(),
    {
        let c = AudioCache { entries: Vec::new() };
        assert(c@ =~= Seq::<((Seq<char>, Seq<char>), Seq<u8>)>::empty());
        c
    }

    /// The spoken form of `text` in `lang`, when it was fetched before.
    pub fn get(&self, text: &str, lang: &str) -> (r: Option<&Vec<u8>>)
        ensures
            match r {
                Some(d) => cache_find(self@, (text@, lang@)) == Some(d@),
                None => cache_find(self@, (text@, lang@)) is None,
            },
    {
        let n = self.entries.len();
        let mut i: usize = 0;
        assert(self@.skip(0) =~= self@);
        while i < n
            invariant
                n == self.entries@.len(),
                self@.len() == n,
                i <= n,
                cache_find(self@, (text@, lang@)) == cache_find(self@.skip(i as int), (text@, lang@)),
            decreases n - i,
        {
            let e = &self.entries[i];
            assert(self@.skip(i as int)[0] == ((e.0@, e.1@), e.2@));
            if same_text(e.0.as_str(), text) && same_text(e.1.as_str(), lang) {
                return Some(&e.2);
            }
            assert(self@.skip(i as int).drop_first() =~= self@.skip(i + 1));
            i = i + 1;
        }
        None
    }

    /// Keeps the spoken form `data` of `text` in `lang`.
    pub fn remember(&mut self, text: String, lang: String, data: Vec<u8>)
        ensures
            final(self)@ == old(self)@.push(((text@, lang@), data@)),
    {
        let ghost before = self@;
        self.entries.push((text, lang, data));
        assert(self@ =~= before.push(((text@, lang@), data@)));
    }
}

/// Once a spoken form is kept, looking it up finds a kept form: a text is
/// fetched at most once per language.
pub proof fn remembered_audio_is_found(entries: Seq<((Seq<char>, Seq<char>), Seq<u8>)>, key: (Seq<char>, Seq<char>), data: Seq<u8>)
    ensures
        cache_find(entries.push((key, data)), key) == match cache_find(entries, key) {
            Some(d) => Some(d),
            None => Some(data),
        },
    decreases entries.len(),
{
    let pushed = entries.push((key, data));
    if entries.len() > 0 {
        assert(pushed.drop_first() =~= entries.drop_first().push((key, data)));
        remembered_audio_is_found(entries.drop_first(), key, data);
    }
}

/// The decision on a request to hear `text` spoken in `lang`, given what was
/// fetched before: play the kept form, or fetch it.
pub fn audio_step(cache: &AudioCache, text: &str, lang: &str) -> (a: AudioAction)
    ensures
        text@.len() == 0 ==> a is Nothing,
        text@.len() > 0 && cache_find(cache@, (text@, lang@)) is Some ==> a is PlayCached,
        text@.len() > 0 && cache_find(cache@, (text@, lang@)) is None ==> (a matches AudioAction::Fetch(r)
            && r.url@ == "https://translate.google.com/translate_tts"@ && params_view(r.params@) == seq![
            ("ie"@, "UTF-8"@),
            ("client"@, "tw-ob"@),
            ("tl"@, lang@),
            ("q"@, text@),
        ]),
{
    let cached = cache.get(text, lang).is_some();
    audio_action(text, lang, cached)
}

/// The output shown when one direction of an online lookup could not be made.
pub open spec fn empty_view(query: Seq<char>) -> OutputView {
    OutputView { query, exact: true, suggestion: None, entries: Seq::empty() }
}

/// The view of a direction's output, or the empty output when it is missing.
pub open spec fn or_empty(o: Option<SearchOutput>, query: Seq<char>) -> OutputView {
    match o {
        Some(x) => x@,
        None => empty_view(query),
    }
}

/// The combination of the two directions of an online lookup: the results of
/// the first then of the second; exact when both were; the first direction's
/// suggestion, else the second's.
pub open spec fn merged(query: Seq<char>, first: OutputView, second: OutputView) -> OutputView {
    OutputView {
        query,
        exact: first.exact && second.exact,
        suggestion: match first.suggestion {
            Some(s) => Some(s),
            None => second.suggestion,
        },
        entries: first.entries + second.entries,
    }
}

/// A merged online lookup is exact only when both directions were: an
/// inexact direction makes it inexact. It shows the first direction's results
/// then the second's, and the first direction's suggestion before the second's.
pub proof fn merges_are_exact_only_when_both_are(query: Seq<char>, first: OutputView, second: OutputView)
    ensures
        merged(query, first, second).exact == (first.exact && second.exact),
        !second.exact ==> !merged(query, first, second).exact,
        !first.exact ==> !merged(query, first, second).exact,
        merged(query, first, second).entries == first.entries + second.entries,
        merged(query, first, second).entries.len() == first.entries.len() + second.entries.len(),
        first.suggestion is Some ==> merged(query, first, second).suggestion == first.suggestion,
        first.suggestion is None ==> merged(query, first, second).suggestion == second.suggestion,
        merged(query, first, second).query == query,
{
}

fn empty_output(query: &String) -> (r: SearchOutput)
    ensures
        r@ == empty_view(query@),
{
    let r = SearchOutput { query: query.clone(), exact: true, suggestion: None, entries: Vec::new() };
    assert(r@.entries =~= Seq::<ResultView>::empty());
    r
}

/// The output of an online lookup made in both directions at once; a
/// direction whose lookup failed counts as exact and empty.
pub fn merge_outputs(query: String, first: Option<SearchOutput>, second: Option<SearchOutput>) -> (r: SearchOutput)
    ensures
        r@ == merged(query@, or_empty(first, query@), or_empty(second, query@)),
        r.exact == (or_empty(first, query@).exact && or_empty(second, query@).exact),
        r@.entries == or_empty(first, query@).entries + or_empty(second, query@).entries,
{
    let a = match first {
        Some(x) => x,
        None => empty_output(&query),
    };
    let b = match second {
        Some(x) => x,
        None => empty_output(&query),
    };
    let exact = a.exact && b.exact;
    let suggestion = match a.suggestion {
        Some(s) => Some(s),
        None => b.suggestion,
    };
    let mut entries = a.entries;
    let mut rest = b.entries;
    let ghost e1 = entries@;
    let ghost e2 = rest@;
    entries.append(&mut rest);
    assert(views(entries@) =~= views(e1) + views(e2));
    SearchOutput { query, exact, suggestion, entries }
}

/// The spelling to put into the search field: the shown output's suggestion,
/// when there is one and it is not empty.
pub open spec fn applied_suggestion(shown: Option<OutputView>) -> Option<Seq<char>> {
    match shown {
        Some(o) => match o.suggestion {
            Some(s) => unless_empty(s),
            None => None,
        },
        None => None,
    }
}

/// The spelling to put into the search field, if any.
pub fn suggestion_to_apply(shown: &Option<SearchOutput>) -> (r: Option<String>)
    ensures
        opt_text(r) == applied_suggestion(
            match shown {
                Some(o) => Some(o@),
                None => None,
            },
        ),
{
    match shown {
        Some(o) => match &o.suggestion {
            Some(s) => if s.as_str().is_empty() {
                None
            } else {
                Some(s.clone())
            },
            None => None,
        },
        None => None,
    }
}

/// Which way the result pane scrolls.
#[derive(Debug, Clone, Copy, PartialEq, Eq, Structural)]
pub enum ScrollDirection {
    Up,
    Down,
}

/// The scrolling a key press asks for: Ctrl-U up, Ctrl-D down, nothing else.
pub open spec fn scroll_of(control: bool, key: Seq<char>) -> Option<ScrollDirection> {
    if control && key == "u"@ {
        Some(ScrollDirection::Up)
    } else if control && key == "d"@ {
        Some(ScrollDirection::Down)
    } else {
        None
    }
}

/// The scrolling a key press asks for.
pub fn scroll_for_key(control: bool, key: &str) -> (r: Option<ScrollDirection>)
    ensures
        r == scroll_of(control, key@),
{
    if !control {
        return None;
    }
    if same_text(key, "u") {
        Some(ScrollDirection::Up)
    } else if same_text(key, "d") {
        Some(ScrollDirection::Down)
    } else {
        None
    }
}

/// Whether the arguments ask for diagnostic output: one of them is `-v` or `--verbose`.
pub fn verbose_requested(args: &Vec<String>) -> (r: bool)
    ensures
        r == exists|i: int| 0 <= i < args@.len() && (args@[i]@ == "-v"@ || args@[i]@ == "--verbose"@),
{
    let n = args.len();
    let mut i: usize = 0;
    while i < n
        invariant
            n == args@.len(),
            i <= n,
            forall|k: int| 0 <= k < i ==> !(args@[k]@ == "-v"@ || args@[k]@ == "--verbose"@),
        decreases n - i,
    {
        if same_text(args[i].as_str(), "-v") || same_text(args[i].as_str(), "--verbose") {
            return true;
        }
        i = i + 1;
    }
    false
}

} // verus!
