use devsql::semantic_diff::{diff_file_symbols, hunk_ends_fit_exec, ChangeType, SymbolMatch};
use devsql::source_text::{
    file_line_rows, is_white_space, line_rows, source_file_row, within_line_limit, LineCounter,
    MAX_FILE_SIZE,
};
use devsql::syntax_tree::{
    import_query, import_query_source, is_significant_node, symbol_query, symbol_query_source, Grammar,
    TsLanguageKind, TsParser,
};

fn rows_of(content: &str) -> Vec<(i64, String, i64)> {
    line_rows("src/a.rs", content)
        .into_iter()
        .map(|r| {
            assert_eq!(r.file_path, "src/a.rs");
            (r.line_number, r.content, r.is_blank)
        })
        .collect()
}

#[test]
fn line_rows_follow_str_lines() {
    let samples = ["", "a", "a\n", "a\n\n", "a\r\nb", "a\rb\r", "\n\n x \t\n\u{3000}\r\n", "x\r\r\n", "\r\n"];
    for sample in samples {
        let rows = rows_of(sample);
        let expected: Vec<&str> = sample.lines().collect();
        assert_eq!(rows.len(), expected.len(), "{:?}", sample);
        for (k, (number, content, blank)) in rows.iter().enumerate() {
            assert_eq!(*number, k as i64 + 1);
            assert_eq!(content, expected[k]);
            assert_eq!(*blank, if expected[k].trim().is_empty() { 1 } else { 0 });
        }
    }
}

#[test]
fn blank_lines_use_unicode_whitespace() {
    let rows = rows_of("  \n\u{a0}\u{2003}\nx\n\u{200b}");
    assert_eq!(rows.iter().map(|r| r.2).collect::<Vec<_>>(), vec![1, 1, 0, 0]);
    for c in ['\t', '\n', '\u{b}', '\u{c}', '\r', ' ', '\u{85}', '\u{a0}', '\u{1680}', '\u{2000}', '\u{200a}',
        '\u{2028}', '\u{2029}', '\u{202f}', '\u{205f}', '\u{3000}', 'a', '\u{200b}', '\u{180e}', '0']
    {
        assert_eq!(is_white_space(c), c.is_whitespace(), "{:?}", c);
    }
}

#[test]
fn file_line_rows_replace_invalid_bytes() {
    let rows = file_line_rows("f.txt", b"ok\n\xffbad\n");
    assert_eq!(rows.len(), 2);
    assert_eq!(rows[0].content, "ok");
    assert_eq!(rows[1].content, "\u{fffd}bad");
    assert_eq!(rows[1].line_number, 2);
    let valid = file_line_rows("f.txt", "é\n".as_bytes());
    assert_eq!(valid.len(), 1);
    assert_eq!(valid[0].content, "é");
}

fn count_in_chunks(bytes: &[u8], chunk: usize) -> u64 {
    let mut counter = LineCounter::new();
    for piece in bytes.chunks(chunk) {
        counter.feed(piece);
    }
    counter.total()
}

#[test]
fn line_counter_ignores_chunking() {
    let samples: [&[u8]; 7] = [b"", b"a", b"a\n", b"a\nb", b"\n\n", b"a\r\nb\r\n", b"x\xff\ny"];
    for sample in samples {
        let expected = sample.split(|b| *b == b'\n').count() as u64
            - if sample.is_empty() || sample.ends_with(b"\n") { 1 } else { 0 };
        for chunk in 1..4 {
            assert_eq!(count_in_chunks(sample, chunk), expected, "{:?} in chunks of {}", sample, chunk);
        }
    }
    assert_eq!(LineCounter::new().total(), 0);
}

#[test]
fn line_limit_and_file_rows() {
    assert!(within_line_limit(0));
    assert!(within_line_limit(MAX_FILE_SIZE));
    assert!(!within_line_limit(MAX_FILE_SIZE + 1));
    let row = source_file_row(
        "src/a.rs".to_string(),
        "a.rs".to_string(),
        "rs".to_string(),
        "src".to_string(),
        u64::MAX,
        12,
        "2025-01-01".to_string(),
        Some("Rust".to_string()),
    );
    assert_eq!(row.size_bytes, -1);
    assert_eq!(row.line_count, 12);
    assert_eq!(row.language.as_deref(), Some("Rust"));
}

#[test]
fn language_names() {
    assert_eq!(TsLanguageKind::from_name("Rust"), Some(TsLanguageKind::Rust));
    assert_eq!(TsLanguageKind::from_name("TSX"), Some(TsLanguageKind::Tsx));
    assert_eq!(TsLanguageKind::from_name("JSX"), Some(TsLanguageKind::Jsx));
    assert_eq!(TsLanguageKind::from_name("Go"), Some(TsLanguageKind::Go));
    assert_eq!(TsLanguageKind::from_name("rust"), None);
    assert_eq!(TsLanguageKind::from_name(""), None);
    assert_eq!(TsLanguageKind::Jsx.grammar(), Grammar::JavaScript);
    assert_eq!(TsLanguageKind::Tsx.grammar(), Grammar::Tsx);
}

#[test]
fn significant_nodes_per_language() {
    assert!(is_significant_node(TsLanguageKind::Rust, "function_item"));
    assert!(is_significant_node(TsLanguageKind::Rust, "string_literal"));
    assert!(!is_significant_node(TsLanguageKind::Rust, "identifier"));
    assert!(is_significant_node(TsLanguageKind::Tsx, "interface_declaration"));
    assert!(!is_significant_node(TsLanguageKind::Jsx, "interface_declaration"));
    assert!(is_significant_node(TsLanguageKind::Python, "decorated_definition"));
    assert!(is_significant_node(TsLanguageKind::Go, "short_var_declaration"));
    assert!(!is_significant_node(TsLanguageKind::Go, "call"));
}

#[test]
fn queries_compile_for_every_language() {
    for lang in [
        TsLanguageKind::Rust,
        TsLanguageKind::TypeScript,
        TsLanguageKind::Tsx,
        TsLanguageKind::JavaScript,
        TsLanguageKind::Jsx,
        TsLanguageKind::Python,
        TsLanguageKind::Go,
    ] {
        let q = symbol_query(lang).expect("symbol query");
        assert!(q.query().pattern_count() >= 3);
        let i = import_query(lang).expect("import query");
        assert!(i.query().pattern_count() >= 1);
        assert_ne!(q.source(), i.source());
    }
    assert_eq!(symbol_query(TsLanguageKind::Rust).expect("q").query().pattern_count(), 10);
    assert_eq!(import_query(TsLanguageKind::Python).expect("q").query().pattern_count(), 2);
    let tsx = symbol_query(TsLanguageKind::Tsx).expect("q");
    let ts = symbol_query(TsLanguageKind::TypeScript).expect("q");
    assert_eq!(tsx.source(), ts.source());
    assert_eq!(tsx.grammar(), Grammar::TypeScript);
    let jsx = import_query(TsLanguageKind::Jsx).expect("q");
    assert_eq!(jsx.grammar(), Grammar::JavaScript);
    assert!(import_query(TsLanguageKind::Rust).expect("q").source().contains("use_declaration"));
    assert_eq!(TsLanguageKind::Jsx.ts_language().grammar(), Grammar::JavaScript);
    assert_eq!(TsLanguageKind::Go.ts_language().grammar(), Grammar::Go);
    assert_eq!(TsLanguageKind::Tsx.ts_language().grammar(), Grammar::Tsx);
}

#[test]
fn parser_dispatches_on_language_name() {
    let mut parser = TsParser::new();
    let tree = parser.parse("Rust", "fn main() {}").expect("tree");
    assert_eq!(tree.root_node().kind(), "source_file");
    let tree = parser.parse("Python", "def f():\n    pass\n").expect("tree");
    assert_eq!(tree.root_node().kind(), "module");
    assert!(parser.parse("COBOL", "x").is_none());
    let tree = parser.parse("TSX", "const x = <div/>;").expect("tree");
    assert_eq!(tree.root_node().kind(), "program");
    let tree = parser.parse("Go", "package main").expect("tree");
    assert_eq!(tree.root_node().kind(), "source_file");
}

fn sym(name: &str, kind: &str, start: usize, end: usize) -> SymbolMatch {
    SymbolMatch { name: name.to_string(), kind: kind.to_string(), line_start: start, line_end: end }
}

#[test]
fn semantic_diff_classifies_symbols() {
    let base = vec![sym("keep", "function", 1, 5), sym("gone", "function", 7, 9), sym("edit", "function", 11, 20)];
    let head = vec![
        sym("keep", "function", 1, 5),
        sym("edit", "function", 11, 22),
        sym("fresh", "struct", 30, 31),
        sym("gone", "struct", 40, 41),
    ];
    let changes = diff_file_symbols(&base, &head, "src/lib.rs", &vec![(15, 2), (40, 0)]);
    let summary: Vec<(String, ChangeType, usize)> =
        changes.iter().map(|c| (c.name.clone(), c.change_type, c.line_start)).collect();
    assert_eq!(
        summary,
        vec![
            ("fresh".to_string(), ChangeType::Added, 30),
            ("gone".to_string(), ChangeType::Added, 40),
            ("gone".to_string(), ChangeType::Removed, 7),
            ("edit".to_string(), ChangeType::Modified, 11),
        ]
    );
    assert!(changes.iter().all(|c| c.file_path == "src/lib.rs"));
}

#[test]
fn semantic_diff_hunk_edges() {
    let base = vec![sym("f", "function", 10, 20)];
    let head = vec![sym("f", "function", 10, 20)];
    assert_eq!(diff_file_symbols(&base, &head, "a", &vec![(5, 5)]).len(), 1);
    assert_eq!(diff_file_symbols(&base, &head, "a", &vec![(20, 0)]).len(), 1);
    assert!(diff_file_symbols(&base, &head, "a", &vec![(21, 3), (1, 8)]).is_empty());
    assert!(diff_file_symbols(&base, &head, "a", &vec![]).is_empty());
    let removed = diff_file_symbols(&base, &vec![], "a", &vec![]);
    assert_eq!(removed.len(), 1);
    assert_eq!(removed[0].change_type, ChangeType::Removed);
}

#[test]
fn more_hunks_only_add_modified_entries() {
    let base = vec![sym("a", "function", 1, 5), sym("b", "function", 10, 20), sym("c", "struct", 30, 31)];
    let head = vec![sym("a", "function", 1, 5), sym("b", "function", 10, 20), sym("d", "struct", 40, 41)];
    let few = diff_file_symbols(&base, &head, "f", &vec![(12, 1)]);
    let more = diff_file_symbols(&base, &head, "f", &vec![(12, 1), (2, 0)]);
    let names = |v: &Vec<devsql::semantic_diff::SymbolChange>| {
        v.iter().map(|c| (c.name.clone(), c.change_type)).collect::<Vec<_>>()
    };
    assert_eq!(
        names(&few),
        vec![("d".to_string(), ChangeType::Added), ("c".to_string(), ChangeType::Removed), ("b".to_string(), ChangeType::Modified)]
    );
    assert_eq!(
        names(&more),
        vec![
            ("d".to_string(), ChangeType::Added),
            ("c".to_string(), ChangeType::Removed),
            ("a".to_string(), ChangeType::Modified),
            ("b".to_string(), ChangeType::Modified),
        ]
    );
}

#[test]
fn query_sources_list_their_patterns() {
    assert_eq!(
        symbol_query_source(TsLanguageKind::Go),
        "\n(function_declaration) @function.definition\n(method_declaration) @method.definition\n(type_declaration) @type.definition\n"
    );
    assert_eq!(
        import_query_source(TsLanguageKind::Python),
        "\n(import_statement) @import.statement\n(import_from_statement) @import.from\n"
    );
    assert_eq!(import_query_source(TsLanguageKind::Rust), "\n(use_declaration) @import.use\n");
    assert_eq!(symbol_query_source(TsLanguageKind::Jsx), symbol_query_source(TsLanguageKind::JavaScript));
    for kind in ["function_item", "impl_item", "macro_definition"] {
        assert!(symbol_query_source(TsLanguageKind::Rust).contains(&format!("({})", kind)));
        assert!(is_significant_node(TsLanguageKind::Rust, kind));
    }
}

#[test]
fn same_name_of_another_kind_does_not_hide_a_modification() {
    let base = vec![sym("foo", "function_item", 1, 3)];
    let head = vec![sym("foo", "function_item", 1, 3), sym("foo", "struct_item", 5, 6)];
    let changes = diff_file_symbols(&base, &head, "a.rs", &vec![(1, 0)]);
    let summary: Vec<(String, String, ChangeType)> =
        changes.iter().map(|c| (c.name.clone(), c.kind.clone(), c.change_type)).collect();
    assert_eq!(
        summary,
        vec![
            ("foo".to_string(), "struct_item".to_string(), ChangeType::Added),
            ("foo".to_string(), "function_item".to_string(), ChangeType::Modified),
        ]
    );
}

#[test]
fn hunk_ends_only_matter_for_symbols_in_both_versions() {
    let head = vec![sym("a", "function", 1, 2), sym("b", "function", 10, 12)];
    let huge = vec![(usize::MAX, 1)];
    assert!(hunk_ends_fit_exec(&vec![], &head, &huge));
    let added = diff_file_symbols(&vec![], &head, "f", &huge);
    assert_eq!(added.len(), 2);
    assert!(added.iter().all(|c| c.change_type == ChangeType::Added));
    let base = vec![sym("b", "function", 10, 12)];
    assert!(!hunk_ends_fit_exec(&base, &head, &huge));
    assert!(hunk_ends_fit_exec(&base, &head, &vec![(11, 0), (usize::MAX, 1)]));
    let touched = diff_file_symbols(&base, &head, "f", &vec![(11, 0), (usize::MAX, 1)]);
    assert_eq!(touched.len(), 2);
    assert_eq!(touched[1].change_type, ChangeType::Modified);
}

#[test]
fn exchanging_versions_exchanges_added_and_removed() {
    let a = vec![sym("x", "function", 1, 2), sym("y", "struct", 3, 4)];
    let b = vec![sym("y", "struct", 3, 4), sym("z", "enum", 5, 6)];
    let forward = diff_file_symbols(&a, &b, "f", &vec![]);
    let backward = diff_file_symbols(&b, &a, "f", &vec![]);
    let view = |v: &Vec<devsql::semantic_diff::SymbolChange>| {
        v.iter().map(|c| (c.name.clone(), c.change_type)).collect::<Vec<_>>()
    };
    assert_eq!(view(&forward), vec![("z".to_string(), ChangeType::Added), ("x".to_string(), ChangeType::Removed)]);
    assert_eq!(view(&backward), vec![("x".to_string(), ChangeType::Added), ("z".to_string(), ChangeType::Removed)]);
}
