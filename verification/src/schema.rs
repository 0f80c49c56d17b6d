//! The layout of the dictionary index and where it is kept.

use vstd::prelude::*;

use crate::text::owned;

verus! {

#[verifier::external_type_specification]
#[verifier::external_body]
pub struct ExSchema(tantivy::schema::Schema);

#[verifier::external_type_specification]
#[verifier::external_body]
pub struct ExSchemaBuilder(tantivy::schema::SchemaBuilder);

#[verifier::external_type_specification]
#[verifier::external_body]
pub struct ExTextOptions(tantivy::schema::TextOptions);

#[verifier::external_type_specification]
#[verifier::external_body]
pub struct ExField(tantivy::schema::Field);

/// How a field of the index is kept.
#[derive(Debug, Clone, Copy, PartialEq, Eq, Structural)]
pub enum FieldKind {
    /// Indexed as one untokenized term, and stored.
    KeywordStored,
    /// Indexed as one untokenized term, not stored.
    Keyword,
    /// Indexed as tokenized text, and stored.
    TextStored,
    /// Stored only.
    StoredOnly,
}

/// The fields of the index, in order, with how each is kept.
pub open spec fn layout() -> Seq<(Seq<char>, FieldKind)> {
    seq![
        ("word"@, FieldKind::KeywordStored),
        ("word_lower"@, FieldKind::Keyword),
        ("definition"@, FieldKind::TextStored),
        ("pos"@, FieldKind::KeywordStored),
        ("pronunciation"@, FieldKind::StoredOnly),
        ("source_lang"@, FieldKind::KeywordStored),
        ("target_lang"@, FieldKind::KeywordStored),
        ("source"@, FieldKind::KeywordStored),
    ]
}

/// The text of a list of field declarations.
pub open spec fn layout_view(v: Seq<(String, FieldKind)>) -> Seq<(Seq<char>, FieldKind)> {
    v.map_values(|f: (String, FieldKind)| (f.0@, f.1))
}

/// The fields of the index, in order, with how each is kept.
pub fn schema_layout() -> (r: Vec<(String, FieldKind)>)
    ensures
        layout_view(r@) == layout(),
{
    let mut r: Vec<(String, FieldKind)> = Vec::new();
    r.push((owned("word"), FieldKind::KeywordStored));
    r.push((owned("word_lower"), FieldKind::Keyword));
    r.push((owned("definition"), FieldKind::TextStored));
    r.push((owned("pos"), FieldKind::KeywordStored));
    r.push((owned("pronunciation"), FieldKind::StoredOnly));
    r.push((owned("source_lang"), FieldKind::KeywordStored));
    r.push((owned("target_lang"), FieldKind::KeywordStored));
    r.push((owned("source"), FieldKind::KeywordStored));
    assert(layout_view(r@) =~= layout());
    r
}

/// The names of the fields a schema builder has declared so far, in order
/// (the `fields` it holds).
pub uninterp spec fn builder_fields(b: tantivy::schema::SchemaBuilder) -> Seq<Seq<char>>;

/// How each field a schema builder has declared so far is kept, in order:
/// the kind whose options it was declared with, none for other options.
pub uninterp spec fn builder_kinds(b: tantivy::schema::SchemaBuilder) -> Seq<Option<FieldKind>>;

/// The names of the fields of a schema, in order (the `fields` it holds).
pub uninterp spec fn schema_fields(s: tantivy::schema::Schema) -> Seq<Seq<char>>;

/// How each field of a schema is kept, in order: the kind whose options the
/// field has, none for other options.
pub uninterp spec fn schema_kinds(s: tantivy::schema::Schema) -> Seq<Option<FieldKind>>;

/// Whether `name` may be given to a new field: tantivy refuses (panics on)
/// an empty name, a name starting with `-`, and a name already declared.
pub open spec fn may_declare(declared: Seq<Seq<char>>, name: Seq<char>) -> bool {
    &&& name.len() > 0
    &&& name[0] != '-'
    &&& !declared.contains(name)
}

/// A new schema builder (`Schema::builder`), with no field declared yet.
#[verifier::external_body]
fn schema_builder() -> (b: tantivy::schema::SchemaBuilder)
    ensures
        builder_fields(b) == Seq::<Seq<char>>::empty(),
        builder_kinds(b) == Seq::<Option<FieldKind>>::empty(),
{
    tantivy::schema::Schema::builder()
}

/// Declares a text field with the options `STRING | STORED`
/// (`SchemaBuilder::add_text_field`): the builder's fields gain `name`, kept
/// as `FieldKind::KeywordStored`, at the end.
#[verifier::external_body]
fn declare_keyword_stored(builder: &mut tantivy::schema::SchemaBuilder, name: &str) -> (field: tantivy::schema::Field)
    requires
        may_declare(builder_fields(*old(builder)), name@),
    ensures
        builder_fields(*final(builder)) == builder_fields(*old(builder)).push(name@),
        builder_kinds(*final(builder)) == builder_kinds(*old(builder)).push(Some(FieldKind::KeywordStored)),
{
    builder.add_text_field(name, tantivy::schema::STRING | tantivy::schema::STORED)
}

/// Declares a text field with the options `STRING`
/// (`SchemaBuilder::add_text_field`): the builder's fields gain `name`, kept
/// as `FieldKind::Keyword`, at the end.
#[verifier::external_body]
fn declare_keyword(builder: &mut tantivy::schema::SchemaBuilder, name: &str) -> (field: tantivy::schema::Field)
    requires
        may_declare(builder_fields(*old(builder)), name@),
    ensures
        builder_fields(*final(builder)) == builder_fields(*old(builder)).push(name@),
        builder_kinds(*final(builder)) == builder_kinds(*old(builder)).push(Some(FieldKind::Keyword)),
{
    builder.add_text_field(name, tantivy::schema::STRING)
}

/// Declares a text field with the options `TEXT | STORED`
/// (`SchemaBuilder::add_text_field`): the builder's fields gain `name`, kept
/// as `FieldKind::TextStored`, at the end.
#[verifier::external_body]
fn declare_text_stored(builder: &mut tantivy::schema::SchemaBuilder, name: &str) -> (field: tantivy::schema::Field)
    requires
        may_declare(builder_fields(*old(builder)), name@),
    ensures
        builder_fields(*final(builder)) == builder_fields(*old(builder)).push(name@),
        builder_kinds(*final(builder)) == builder_kinds(*old(builder)).push(Some(FieldKind::TextStored)),
{
    builder.add_text_field(name, tantivy::schema::TEXT | tantivy::schema::STORED)
}

/// Declares a text field with the options `STORED`
/// (`SchemaBuilder::add_text_field`): the builder's fields gain `name`, kept
/// as `FieldKind::StoredOnly`, at the end.
#[verifier::external_body]
fn declare_stored_only(builder: &mut tantivy::schema::SchemaBuilder, name: &str) -> (field: tantivy::schema::Field)
    requires
        may_declare(builder_fields(*old(builder)), name@),
    ensures
        builder_fields(*final(builder)) == builder_fields(*old(builder)).push(name@),
        builder_kinds(*final(builder)) == builder_kinds(*old(builder)).push(Some(FieldKind::StoredOnly)),
{
    builder.add_text_field(name, tantivy::schema::STORED)
}

/// The schema declared by the builder (`SchemaBuilder::build`): it has the
/// builder's fields, in order.
#[verifier::external_body]
fn finish_schema(builder: tantivy::schema::SchemaBuilder) -> (s: tantivy::schema::Schema)
    ensures
        schema_fields(s) == builder_fields(builder),
        schema_kinds(s) == builder_kinds(builder),
{
    builder.build()
}

/// Whether no name occurs twice.
pub open spec fn distinct_names(names: Seq<Seq<char>>) -> bool {
    forall|i: int, j: int| 0 <= i < j < names.len() ==> names[i] != names[j]
}

/// The position of `name` among `names`, which is a field's number in a schema.
pub open spec fn position_of(names: Seq<Seq<char>>, name: Seq<char>) -> int {
    choose|i: int| 0 <= i < names.len() && names[i] == name
}

/// The names of the fields of the index, in order.
pub open spec fn field_names() -> Seq<Seq<char>> {
    layout().map_values(|f: (Seq<char>, FieldKind)| f.0)
}

/// The field names of the index are valid, and no two are the same.
pub proof fn field_names_are_declarable()
    ensures
        field_names().len() == 8,
        forall|i: int| 0 <= i < 8 ==> (#[trigger] field_names()[i]).len() > 0 && field_names()[i][0] != '-',
        forall|i: int, j: int| 0 <= i < j < 8 ==> field_names()[i] != field_names()[j],
{
    reveal_strlit("word");
    reveal_strlit("word_lower");
    reveal_strlit("definition");
    reveal_strlit("pos");
    reveal_strlit("pronunciation");
    reveal_strlit("source_lang");
    reveal_strlit("target_lang");
    reveal_strlit("source");
    let n = field_names();
    assert(n[0] == "word"@ && n[1] == "word_lower"@ && n[2] == "definition"@ && n[3] == "pos"@);
    assert(n[4] == "pronunciation"@ && n[5] == "source_lang"@ && n[6] == "target_lang"@ && n[7] == "source"@);
    assert forall|i: int, j: int| 0 <= i < j < 8 implies n[i] != n[j] by {
        if n[i] == n[j] {
            assert(n[i].len() == n[j].len() && n[i][0] == n[j][0]);
        }
    }
}

/// How the fields of the index are kept, in order.
pub open spec fn field_kinds() -> Seq<Option<FieldKind>> {
    layout().map_values(|f: (Seq<char>, FieldKind)| Some(f.1))
}

/// Declares the field `name`, kept as `kind`.
fn declare(builder: &mut tantivy::schema::SchemaBuilder, name: &str, kind: FieldKind)
    requires
        may_declare(builder_fields(*old(builder)), name@),
    ensures
        builder_fields(*final(builder)) == builder_fields(*old(builder)).push(name@),
        builder_kinds(*final(builder)) == builder_kinds(*old(builder)).push(Some(kind)),
{
    let _ = match kind {
        FieldKind::KeywordStored => declare_keyword_stored(builder, name),
        FieldKind::Keyword => declare_keyword(builder, name),
        FieldKind::TextStored => declare_text_stored(builder, name),
        FieldKind::StoredOnly => declare_stored_only(builder, name),
    };
}

/// The schema of the dictionary index: the fields of `schema_layout`, in
/// order, each kept as the layout says.
pub fn build_schema() -> (s: tantivy::schema::Schema)
    ensures
        schema_fields(s) == field_names(),
        schema_kinds(s) == field_kinds(),
{
    let fields = schema_layout();
    let mut builder = schema_builder();
    proof {
        field_names_are_declarable();
    }
    let n = fields.len();
    let mut i: usize = 0;
    while i < n
        invariant
            n == fields@.len(),
            layout_view(fields@) == layout(),
            n == 8,
            i <= n,
            builder_fields(builder) == field_names().take(i as int),
            builder_kinds(builder) == field_kinds().take(i as int),
            forall|k: int| 0 <= k < 8 ==> (#[trigger] field_names()[k]).len() > 0 && field_names()[k][0] != '-',
            forall|k: int, j: int| 0 <= k < j < 8 ==> field_names()[k] != field_names()[j],
        decreases n - i,
    {
        assert(fields@[i as int].0@ == field_names()[i as int]);
        assert(!field_names().take(i as int).contains(field_names()[i as int])) by {
            if field_names().take(i as int).contains(field_names()[i as int]) {
                let k = choose|k: int| 0 <= k < i && field_names().take(i as int)[k] == field_names()[i as int];
                assert(field_names()[k] == field_names()[i as int]);
            }
        }
        declare(&mut builder, fields[i].0.as_str(), fields[i].1);
        assert(field_names().take(i + 1) =~= field_names().take(i as int).push(field_names()[i as int]));
        assert(field_kinds().take(i + 1) =~= field_kinds().take(i as int).push(field_kinds()[i as int]));
        i = i + 1;
    }
    assert(field_names().take(8) =~= field_names());
    assert(field_kinds().take(8) =~= field_kinds());
    finish_schema(builder)
}

/// The parent of a path, as `Path::parent` computes it.
pub uninterp spec fn parent_path(p: Seq<char>) -> Option<Seq<char>>;

/// The parent of a path (`Path::parent`): absent for the empty path and for
/// a path that ends in a root.
#[verifier::external_body]
fn parent_of(p: &str) -> (r: Option<String>)
    ensures
        opt_path(r) == parent_path(p@),
        p@.len() == 0 ==> r is None,
{
    std::path::Path::new(p).parent().map(|q| q.to_string_lossy().into_owned())
}

/// The text of an optional path.
pub open spec fn opt_path(o: Option<String>) -> Option<Seq<char>> {
    match o {
        Some(s) => Some(s@),
        None => None,
    }
}

/// `rel` appended to the directory `base`, with one separator between them.
pub open spec fn joined_path(base: Seq<char>, rel: Seq<char>) -> Seq<char> {
    if base.len() == 0 || base.last() == '/' {
        base + rel
    } else {
        base + seq!['/'] + rel
    }
}

/// `rel` appended to the directory `base`, for a relative `rel`.
pub fn join_path(base: &str, rel: &str) -> (r: String)
    ensures
        r@ == joined_path(base@, rel@),
{
    let mut r = owned(base);
    let chars = crate::text::chars_of(base);
    if chars.len() > 0 && chars[chars.len() - 1] != '/' {
        crate::text::push_char(&mut r, '/');
    }
    r.append(rel);
    r
}

/// Where the index lives: `data/storage/index` under the parent of the
/// directory that holds the package; absent when that directory has no parent.
pub fn data_dir(package_dir: &str) -> (r: Option<String>)
    ensures
        opt_path(r) == match parent_path(package_dir@) {
            Some(root) => Some(joined_path(root, "data/storage/index"@)),
            None => None,
        },
{
    match parent_of(package_dir) {
        Some(root) => Some(join_path(root.as_str(), "data/storage/index")),
        None => None,
    }
}

} // verus!
