use trans_core::entry::{skip_line, Entry};
use trans_core::schema::{build_schema, data_dir, join_path, schema_layout, FieldKind};

fn entry() -> Entry {
    Entry {
        word: "Ability".to_string(),
        pos: "noun".to_string(),
        pronunciation: "/əˈbɪlɪti/".to_string(),
        definition: "kemampuan".to_string(),
        source_lang: "en".to_string(),
        target_lang: "id".to_string(),
        source: "freedict".to_string(),
    }
}

#[test]
fn document_fields_follow_the_layout() {
    let fields = entry().document_fields();
    let names: Vec<String> = fields.iter().map(|f| f.0.clone()).collect();
    let layout: Vec<String> = schema_layout().into_iter().map(|f| f.0).collect();
    assert_eq!(names, layout);
    assert_eq!(fields[0].1, "Ability");
    assert_eq!(fields[1].1, "ability");
    assert_eq!(fields[7].1, "freedict");
}

#[test]
fn lookup_word_is_lower_cased_unicode() {
    let mut e = entry();
    e.word = "ÄRGER".to_string();
    assert_eq!(e.document_fields()[1].1, "ärger");
}

#[test]
fn layout_kinds() {
    let layout = schema_layout();
    assert_eq!(layout.len(), 8);
    assert_eq!(layout[1], ("word_lower".to_string(), FieldKind::Keyword));
    assert_eq!(layout[2], ("definition".to_string(), FieldKind::TextStored));
    assert_eq!(layout[4], ("pronunciation".to_string(), FieldKind::StoredOnly));
}

#[test]
fn built_schema_has_every_field() {
    let schema = build_schema();
    for (name, kind) in schema_layout() {
        let field = schema.get_field(&name).expect("field is declared");
        let entry = schema.get_field_entry(field);
        assert_eq!(entry.is_indexed(), kind != FieldKind::StoredOnly, "{}", name);
        assert_eq!(entry.is_stored(), kind != FieldKind::Keyword, "{}", name);
        if let tantivy::schema::FieldType::Str(options) = entry.field_type() {
            let tokenizer = options.get_indexing_options().map(|i| i.tokenizer().to_string());
            let expected = match kind {
                FieldKind::TextStored => Some("default".to_string()),
                FieldKind::StoredOnly => None,
                _ => Some("raw".to_string()),
            };
            assert_eq!(tokenizer, expected, "{}", name);
        } else {
            panic!("{} is not a text field", name);
        }
    }
}

#[test]
fn schemas_are_built_alike() {
    assert_eq!(build_schema(), build_schema());
    let schema = build_schema();
    let names: Vec<String> = schema.fields().map(|(_, e)| e.name().to_string()).collect();
    assert_eq!(names, vec!["word", "word_lower", "definition", "pos", "pronunciation", "source_lang", "target_lang", "source"]);
}

#[test]
fn blank_lines_are_skipped() {
    assert!(skip_line(""));
    assert!(skip_line("   \t"));
    assert!(!skip_line("{\"word\": \"a\"}"));
}

#[test]
fn index_directory() {
    assert_eq!(data_dir("/repo/core"), Some("/repo/data/storage/index".to_string()));
    assert_eq!(data_dir("/repo/core/"), Some("/repo/data/storage/index".to_string()));
    assert_eq!(data_dir("core"), Some("data/storage/index".to_string()));
    assert_eq!(data_dir("/"), None);
    assert_eq!(data_dir(""), None);
}

#[test]
fn path_joining() {
    assert_eq!(join_path("/a", "b"), "/a/b");
    assert_eq!(join_path("/a/", "b"), "/a/b");
    assert_eq!(join_path("", "b"), "b");
}
