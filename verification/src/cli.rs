//! The command line: its arguments, and the text it prints for a lookup.

use vstd::prelude::*;

use crate::search::{views, ResultView, SearchOutput, SearchResult};
use crate::text::{owned, same_text};

verus! {

/// The language pair a `-l` argument names.
pub open spec fn lang_pair_of(s: Seq<char>) -> Option<(Seq<char>, Seq<char>)> {
    if s == "en-id"@ {
        Some(("en"@, "id"@))
    } else if s == "id-en"@ {
        Some(("id"@, "en"@))
    } else {
        None
    }
}

/// The text of an optional pair of strings.
pub open spec fn pair_text(p: Option<(&str, &str)>) -> Option<(Seq<char>, Seq<char>)> {
    match p {
        Some(x) => Some((x.0@, x.1@)),
        None => None,
    }
}

/// The language pair `s` names: `en-id` or `id-en`; absent for anything else.
pub fn parse_lang_pair(s: &str) -> (r: Option<(&'static str, &'static str)>)
    ensures
        pair_text(r) == lang_pair_of(s@),
{
    if same_text(s, "en-id") {
        Some(("en", "id"))
    } else if same_text(s, "id-en") {
        Some(("id", "en"))
    } else {
        proof {
            reveal_strlit("en-id");
            reveal_strlit("id-en");
        }
        None
    }
}

/// Where a lookup is made.
#[derive(Debug, Clone, Copy, PartialEq, Eq, Structural)]
pub enum ProviderKind {
    Local,
    Google,
}

/// The source a `-p` argument names.
pub open spec fn provider_of(s: Seq<char>) -> Option<ProviderKind> {
    if s == "local"@ {
        Some(ProviderKind::Local)
    } else if s == "google"@ {
        Some(ProviderKind::Google)
    } else {
        None
    }
}

/// The source `name` names: `local` or `google`; absent for anything else.
pub fn provider_kind(name: &str) -> (r: Option<ProviderKind>)
    ensures
        r == provider_of(name@),
{
    if same_text(name, "local") {
        Some(ProviderKind::Local)
    } else if same_text(name, "google") {
        Some(ProviderKind::Google)
    } else {
        None
    }
}

/// Why the command line cannot be served.
#[derive(Debug, Clone, PartialEq, Eq)]
pub enum CliError {
    /// The arguments do not follow `[-l en-id|id-en] [-p local|google] <word>`.
    Usage,
    /// `-l` named a pair that is not supported.
    UnknownLanguagePair(String),
    /// `-p` named a source that is not supported.
    UnknownProvider(String),
}

/// What the command line asks for.
#[derive(Debug, Clone, PartialEq, Eq)]
pub struct Invocation {
    /// The argument of the last `-l`, if any.
    pub lang: Option<String>,
    /// The argument of the last `-p`, `local` without one.
    pub provider: String,
    /// The word to look up.
    pub word: String,
}

/// The arguments scanned from position `i`, given what was read before:
/// `-l` and `-p` each take the next argument (there must be one); the first
/// other argument is the word, and a second one is an error (`None`).
pub open spec fn scan(
    args: Seq<Seq<char>>,
    i: int,
    lang: Option<Seq<char>>,
    provider: Seq<char>,
    word: Option<Seq<char>>,
) -> Option<(Option<Seq<char>>, Seq<char>, Option<Seq<char>>)>
    decreases args.len() - i,
{
    if i < 0 || i >= args.len() {
        Some((lang, provider, word))
    } else if args[i] == "-l"@ {
        if i + 1 >= args.len() {
            None
        } else {
            scan(args, i + 2, Some(args[i + 1]), provider, word)
        }
    } else if args[i] == "-p"@ {
        if i + 1 >= args.len() {
            None
        } else {
            scan(args, i + 2, lang, args[i + 1], word)
        }
    } else if word is None {
        scan(args, i + 1, lang, provider, Some(args[i]))
    } else {
        None
    }
}

/// The invocation the arguments make, or `None` when they break the usage.
pub open spec fn invocation_of(args: Seq<Seq<char>>) -> Option<(Option<Seq<char>>, Seq<char>, Seq<char>)> {
    match scan(args, 0, None, "local"@, None) {
        Some((lang, provider, Some(word))) => Some((lang, provider, word)),
        _ => None,
    }
}

/// The text of a list of strings.
pub open spec fn texts(v: Seq<String>) -> Seq<Seq<char>> {
    v.map_values(|s: String| s@)
}

/// The text of an optional string.
pub open spec fn opt(o: Option<String>) -> Option<Seq<char>> {
    match o {
        Some(s) => Some(s@),
        None => None,
    }
}

/// Reads the arguments (the program name excluded).
pub fn parse_args(args: &Vec<String>) -> (r: Result<Invocation, CliError>)
    ensures
        match r {
            Ok(inv) => invocation_of(texts(args@)) == Some((opt(inv.lang), inv.provider@, inv.word@)),
            Err(e) => invocation_of(texts(args@)) is None && e == CliError::Usage,
        },
{
    let ghost a = texts(args@);
    let mut lang: Option<String> = None;
    let mut provider = owned("local");
    let mut word: Option<String> = None;
    let n = args.len();
    let mut i: usize = 0;
    while i < n
        invariant
            n == args@.len(),
            a == texts(args@),
            i <= n,
            scan(a, i as int, opt(lang), provider@, opt(word)) == scan(a, 0, None, "local"@, None),
        decreases n - i,
    {
        assert(a[i as int] == args@[i as int]@);
        if same_text(args[i].as_str(), "-l") {
            if i + 1 >= n {
                return Err(CliError::Usage);
            }
            assert(a[i + 1] == args@[i + 1]@);
            lang = Some(args[i + 1].clone());
            i = i + 2;
        } else if same_text(args[i].as_str(), "-p") {
            if i + 1 >= n {
                return Err(CliError::Usage);
            }
            assert(a[i + 1] == args@[i + 1]@);
            provider = args[i + 1].clone();
            i = i + 2;
        } else if word.is_none() {
            word = Some(args[i].clone());
            i = i + 1;
        } else {
            return Err(CliError::Usage);
        }
    }
    match word {
        Some(w) => Ok(Invocation { lang, provider, word: w }),
        None => Err(CliError::Usage),
    }
}

/// The language pair of a lookup: the pair `-l` named; else `id` into `en`
/// for the online service; else no restriction (both languages empty).
pub open spec fn lang_of(lang: Option<Seq<char>>, provider: Seq<char>) -> Option<(Seq<char>, Seq<char>)> {
    match lang {
        Some(l) => lang_pair_of(l),
        None => if provider == "google"@ {
            Some(("id"@, "en"@))
        } else {
            Some((Seq::empty(), Seq::empty()))
        },
    }
}

/// A `-l` argument resolves to the pair it names, source language first:
/// the argument is the two languages joined by `-`, and only `en-id` and
/// `id-en` are accepted.
pub proof fn lang_arguments_name_their_pair(l: Seq<char>, provider: Seq<char>)
    ensures
        lang_of(Some(l), provider) matches Some(p) ==> l == p.0 + "-"@ + p.1,
        lang_of(Some(l), provider) is Some <==> (l == "en-id"@ || l == "id-en"@),
        lang_of(Some(l), provider) == lang_pair_of(l),
{
    reveal_strlit("en-id");
    reveal_strlit("id-en");
    reveal_strlit("en");
    reveal_strlit("id");
    reveal_strlit("-");
    assert("en-id"@ =~= "en"@ + "-"@ + "id"@);
    assert("id-en"@ =~= "id"@ + "-"@ + "en"@);
}

/// The language pair of a lookup; an error when `-l` named an unsupported pair.
pub fn resolve_lang(lang: &Option<String>, provider: &str) -> (r: Result<(&'static str, &'static str), CliError>)
    ensures
        match r {
            Ok(p) => lang_of(opt(*lang), provider@) == Some((p.0@, p.1@)),
            Err(e) => lang_of(opt(*lang), provider@) is None && (*lang matches Some(l)
                && e == CliError::UnknownLanguagePair(l)),
        },
        *lang matches Some(l) ==> (r matches Ok(p) ==> l@ == p.0@ + "-"@ + p.1@),
{
    match lang {
        Some(l) => match parse_lang_pair(l.as_str()) {
            Some(p) => {
                proof {
                    lang_arguments_name_their_pair(l@, provider@);
                }
                Ok(p)
            },
            None => Err(CliError::UnknownLanguagePair(l.clone())),
        },
        None => if same_text(provider, "google") {
            Ok(("id", "en"))
        } else {
            proof {
                reveal_strlit("");
            }
            Ok(("", ""))
        },
    }
}

/// The heading printed for a word: the word, then its pronunciation and its
/// part of speech in parentheses, each only when not empty.
pub open spec fn header_line(r: ResultView) -> Seq<char> {
    r.word + (if r.pronunciation.len() == 0 {
        Seq::empty()
    } else {
        " "@ + r.pronunciation
    }) + (if r.pos.len() == 0 {
        Seq::empty()
    } else {
        " ("@ + r.pos + ")"@
    })
}

/// The line printed for a sense: indented definition, then the source in brackets.
pub open spec fn definition_line(r: ResultView) -> Seq<char> {
    "  "@ + r.definition + " ["@ + r.source + "]"@
}

/// The word of the result before position `i`, empty for the first.
pub open spec fn previous_word(rs: Seq<ResultView>, i: int) -> Seq<char> {
    if i == 0 {
        Seq::empty()
    } else {
        rs[i - 1].word
    }
}

/// The lines of one result: a heading when its word differs from `previous`,
/// then its definition line.
pub open spec fn result_block(r: ResultView, previous: Seq<char>) -> Seq<Seq<char>> {
    if r.word != previous {
        seq![header_line(r), definition_line(r)]
    } else {
        seq![definition_line(r)]
    }
}

/// The lines printed for a list of results.
pub open spec fn listing(rs: Seq<ResultView>) -> Seq<Seq<char>>
    decreases rs.len(),
{
    if rs.len() == 0 {
        Seq::empty()
    } else {
        listing(rs.drop_last()) + result_block(rs.last(), previous_word(rs, rs.len() - 1))
    }
}

/// How many headings the listing of `rs` prints: one for each result whose
/// word differs from the word before it.
pub open spec fn heading_count(rs: Seq<ResultView>) -> nat
    decreases rs.len(),
{
    if rs.len() == 0 {
        0
    } else {
        heading_count(rs.drop_last()) + (if rs.last().word != previous_word(rs, rs.len() - 1) {
            1nat
        } else {
            0nat
        })
    }
}

/// The listing prints one definition line for each result plus its
/// headings, at most one per result, and ends with the last result's
/// definition line.
pub proof fn listing_has_a_line_per_sense(rs: Seq<ResultView>)
    ensures
        listing(rs).len() == rs.len() + heading_count(rs),
        heading_count(rs) <= rs.len(),
        rs.len() > 0 ==> listing(rs).last() == definition_line(rs.last()),
    decreases rs.len(),
{
    if rs.len() > 0 {
        listing_has_a_line_per_sense(rs.drop_last());
    }
}

fn header_of(r: &SearchResult) -> (s: String)
    ensures
        s@ == header_line(r@),
{
    let mut s = r.word.clone();
    if !r.pronunciation.as_str().is_empty() {
        s.append(" ");
        s.append(r.pronunciation.as_str());
    }
    if !r.pos.as_str().is_empty() {
        s.append(" (");
        s.append(r.pos.as_str());
        s.append(")");
    }
    assert(s@ =~= header_line(r@));
    s
}

fn definition_of(r: &SearchResult) -> (s: String)
    ensures
        s@ == definition_line(r@),
{
    let mut s = owned("  ");
    s.append(r.definition.as_str());
    s.append(" [");
    s.append(r.source.as_str());
    s.append("]");
    assert(s@ =~= definition_line(r@));
    s
}

/// The lines that list the results, grouped under a heading per word.
pub fn format_results(results: &[SearchResult]) -> (lines: Vec<String>)
    ensures
        texts(lines@) == listing(views(results@)),
{
    let ghost rs = views(results@);
    let mut lines: Vec<String> = Vec::new();
    let mut last_word = String::new();
    let n = results.len();
    let mut i: usize = 0;
    while i < n
        invariant
            n == results@.len(),
            rs == views(results@),
            i <= n,
            texts(lines@) == listing(rs.take(i as int)),
            last_word@ == previous_word(rs, i as int),
        decreases n - i,
    {
        let ghost before = texts(lines@);
        assert(rs.take(i + 1).drop_last() =~= rs.take(i as int));
        assert(previous_word(rs.take(i + 1), i as int) == previous_word(rs, i as int));
        let r = &results[i];
        if !(r.word == last_word) {
            lines.push(header_of(r));
            lines.push(definition_of(r));
            assert(texts(lines@) =~= before + result_block(rs[i as int], previous_word(rs, i as int)));
        } else {
            lines.push(definition_of(r));
            assert(texts(lines@) =~= before + result_block(rs[i as int], previous_word(rs, i as int)));
        }
        last_word = r.word.clone();
        i = i + 1;
    }
    assert(rs.take(n as int) =~= rs);
    lines
}

/// What a lookup prints: nothing when it found no result (it then fails);
/// else a "Did you mean" line and a blank line when the match was not exact
/// and there is a suggestion, then the listing of the results.
pub open spec fn report_of(entries: Seq<ResultView>, exact: bool, suggestion: Option<Seq<char>>) -> Option<Seq<Seq<char>>> {
    if entries.len() == 0 {
        None
    } else {
        let intro = match suggestion {
            Some(s) => if !exact {
                seq!["Did you mean: "@ + s + "?"@, Seq::empty()]
            } else {
                Seq::empty()
            },
            None => Seq::empty(),
        };
        Some(intro + listing(entries))
    }
}

/// The lines printed for a lookup; absent when it found nothing.
pub fn report(output: &SearchOutput) -> (r: Option<Vec<String>>)
    ensures
        match r {
            Some(lines) => report_of(output@.entries, output.exact, output@.suggestion) == Some(texts(lines@)),
            None => report_of(output@.entries, output.exact, output@.suggestion) is None,
        },
{
    if output.entries.len() == 0 {
        return None;
    }
    let mut lines: Vec<String> = Vec::new();
    if !output.exact {
        match &output.suggestion {
            Some(s) => {
                let mut line = owned("Did you mean: ");
                line.append(s.as_str());
                line.append("?");
                lines.push(line);
                lines.push(String::new());
            },
            None => {},
        }
    }
    let ghost intro = texts(lines@);
    let mut listed = format_results(output.entries.as_slice());
    lines.append(&mut listed);
    proof {
        let entries = output@.entries;
        let expected = match output@.suggestion {
            Some(s) => if !output.exact {
                seq!["Did you mean: "@ + s + "?"@, Seq::<char>::empty()]
            } else {
                Seq::empty()
            },
            None => Seq::empty(),
        };
        assert(intro =~= expected);
    }
    assert(texts(lines@) =~= intro + listing(output@.entries));
    Some(lines)
}

/// A lone word is looked up in the local dictionary, without a language restriction.
pub proof fn lone_word_is_a_local_lookup(w: Seq<char>)
    requires
        w != "-l"@,
        w != "-p"@,
    ensures
        invocation_of(seq![w]) == Some((None::<Seq<char>>, "local"@, w)),
        lang_of(None, "local"@) == Some((Seq::<char>::empty(), Seq::<char>::empty())),
{
    reveal_strlit("local");
    reveal_strlit("google");
    assert("local"@.len() != "google"@.len());
    let a = seq![w];
    assert(scan(a, 1, None, "local"@, Some(w)) == Some((None::<Seq<char>>, "local"@, Some(w))));
}

/// The options may stand before or after the word: both orders ask for the same lookup.
pub proof fn options_may_follow_the_word(l: Seq<char>, p: Seq<char>, w: Seq<char>)
    requires
        w != "-l"@,
        w != "-p"@,
    ensures
        invocation_of(seq!["-l"@, l, "-p"@, p, w]) == Some((Some(l), p, w)),
        invocation_of(seq![w, "-l"@, l, "-p"@, p]) == Some((Some(l), p, w)),
{
    reveal_strlit("-l");
    reveal_strlit("-p");
    assert("-p"@[1] != "-l"@[1]);
    let a = seq!["-l"@, l, "-p"@, p, w];
    assert(a[0] == "-l"@ && a[2] == "-p"@ && a[4] == w);
    assert(scan(a, 5, Some(l), p, Some(w)) == Some((Some(l), p, Some(w))));
    assert(scan(a, 4, Some(l), p, None) == Some((Some(l), p, Some(w))));
    assert(scan(a, 2, Some(l), "local"@, None) == Some((Some(l), p, Some(w))));
    let b = seq![w, "-l"@, l, "-p"@, p];
    assert(b[0] == w && b[1] == "-l"@ && b[3] == "-p"@);
    assert(scan(b, 5, Some(l), p, Some(w)) == Some((Some(l), p, Some(w))));
    assert(scan(b, 3, Some(l), "local"@, Some(w)) == Some((Some(l), p, Some(w))));
    assert(scan(b, 1, None, "local"@, Some(w)) == Some((Some(l), p, Some(w))));
}

/// Two words are refused: only one word is looked up at a time.
pub proof fn two_words_are_refused(w1: Seq<char>, w2: Seq<char>)
    requires
        w1 != "-l"@,
        w1 != "-p"@,
        w2 != "-l"@,
        w2 != "-p"@,
    ensures
        invocation_of(seq![w1, w2]) is None,
{
    let a = seq![w1, w2];
    assert(a[0] == w1 && a[1] == w2);
    assert(scan(a, 1, None, "local"@, Some(w1)) is None);
}

/// An option without its value is refused.
pub proof fn options_need_a_value(w: Seq<char>, flag: Seq<char>)
    requires
        flag == "-l"@ || flag == "-p"@,
        w != "-l"@,
        w != "-p"@,
    ensures
        invocation_of(seq![w, flag]) is None,
{
    let a = seq![w, flag];
    assert(a[0] == w && a[1] == flag);
    assert(scan(a, 1, None, "local"@, Some(w)) is None);
}

/// The one-line form of a result: indented word, pronunciation and part of
/// speech as in a heading, an arrow, the definition, and the source in brackets.
pub open spec fn summary_text(r: ResultView) -> Seq<char> {
    "  "@ + header_line(r) + " → "@ + r.definition + " ["@ + r.source + "]"@
}

/// The one-line form of a result.
pub fn summary_line(r: &SearchResult) -> (s: String)
    ensures
        s@ == summary_text(r@),
{
    let mut s = owned("  ");
    let h = header_of(r);
    s.append(h.as_str());
    s.append(" → ");
    s.append(r.definition.as_str());
    s.append(" [");
    s.append(r.source.as_str());
    s.append("]");
    assert(s@ =~= summary_text(r@));
    s
}

/// The usage line.
pub fn usage() -> (r: &'static str)
    ensures
        r@ == "Usage: trans [-l en-id|id-en] [-p local|google] <word>"@,
{
    "Usage: trans [-l en-id|id-en] [-p local|google] <word>"
}

} // verus!
