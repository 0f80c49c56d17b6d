//! Dictionary entries as the indexer reads them, and the documents it stores.

use vstd::prelude::*;

use crate::schema::layout;
use crate::text::{all_white, is_blank, lowercase, owned, to_lowercase};

verus! {

/// One dictionary entry: a word, its sense, and where it comes from.
#[derive(Debug, Clone, PartialEq, Eq)]
pub struct Entry {
    pub word: String,
    pub pos: String,
    pub pronunciation: String,
    pub definition: String,
    pub source_lang: String,
    pub target_lang: String,
    pub source: String,
}

/// The values stored for an entry, by field name, in the order of the index layout;
/// the lower-cased word is what lookups match.
pub open spec fn document_of(e: Entry) -> Seq<(Seq<char>, Seq<char>)> {
    seq![
        ("word"@, e.word@),
        ("word_lower"@, lowercase(e.word@)),
        ("definition"@, e.definition@),
        ("pos"@, e.pos@),
        ("pronunciation"@, e.pronunciation@),
        ("source_lang"@, e.source_lang@),
        ("target_lang"@, e.target_lang@),
        ("source"@, e.source@),
    ]
}

/// The text of a list of field values.
pub open spec fn fields_view(v: Seq<(String, String)>) -> Seq<(Seq<char>, Seq<char>)> {
    v.map_values(|f: (String, String)| (f.0@, f.1@))
}

fn field_value(name: &str, value: &str) -> (r: (String, String))
    ensures
        r.0@ == name@,
        r.1@ == value@,
{
    (owned(name), owned(value))
}

impl Entry {
    /// The values to store for this entry, by field name.
    pub fn document_fields(&self) -> (r: Vec<(String, String)>)
        ensures
            fields_view(r@) == document_of(*self),
    {
        let lower = to_lowercase(self.word.as_str());
        let mut r: Vec<(String, String)> = Vec::new();
        r.push(field_value("word", self.word.as_str()));
        r.push(field_value("word_lower", lower.as_str()));
        r.push(field_value("definition", self.definition.as_str()));
        r.push(field_value("pos", self.pos.as_str()));
        r.push(field_value("pronunciation", self.pronunciation.as_str()));
        r.push(field_value("source_lang", self.source_lang.as_str()));
        r.push(field_value("target_lang", self.target_lang.as_str()));
        r.push(field_value("source", self.source.as_str()));
        assert(fields_view(r@) =~= document_of(*self));
        r
    }
}

/// Whether a line of the entry list is skipped: it holds only white space.
pub fn skip_line(line: &str) -> (r: bool)
    ensures
        r == all_white(line@),
{
    is_blank(line)
}

/// Each stored document fills exactly the fields of the index layout, in order.
pub proof fn documents_fill_the_layout(e: Entry)
    ensures
        document_of(e).len() == layout().len(),
        forall|i: int| 0 <= i < layout().len() ==> (#[trigger] document_of(e)[i]).0 == layout()[i].0,
{
}

} // verus!
