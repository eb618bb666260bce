//! Tree-sitter helpers: the supported languages, which syntax node kinds are
//! materialized, and the queries that surface symbols and imports.
use vstd::prelude::*;
use ::tree_sitter::{Language, Parser, Query, Tree};
use crate::text::{owned, push_str, str_eq};

verus! {

#[verifier::external_type_specification]
#[verifier::external_body]
pub struct ExLanguage(::tree_sitter::Language);

#[verifier::external_type_specification]
#[verifier::external_body]
pub struct ExParser(::tree_sitter::Parser);

#[verifier::external_type_specification]
#[verifier::external_body]
pub struct ExTree(::tree_sitter::Tree);

#[verifier::external_type_specification]
#[verifier::external_body]
pub struct ExQuery(::tree_sitter::Query);

/// Supported tree-sitter languages.
#[derive(Clone, Copy, Debug, PartialEq, Eq, Hash, Structural)]
pub enum TsLanguageKind {
    Rust,
    TypeScript,
    Tsx,
    JavaScript,
    Jsx,
    Python,
    Go,
}

/// The language of a language name, as source files are labelled.
pub open spec fn language_of_name(name: Seq<char>) -> Option<TsLanguageKind> {
    if name == "Rust"@ {
        Some(TsLanguageKind::Rust)
    } else if name == "TypeScript"@ {
        Some(TsLanguageKind::TypeScript)
    } else if name == "TSX"@ {
        Some(TsLanguageKind::Tsx)
    } else if name == "JavaScript"@ {
        Some(TsLanguageKind::JavaScript)
    } else if name == "JSX"@ {
        Some(TsLanguageKind::Jsx)
    } else if name == "Python"@ {
        Some(TsLanguageKind::Python)
    } else if name == "Go"@ {
        Some(TsLanguageKind::Go)
    } else {
        None
    }
}

/// The grammars compiled in. JSX is parsed with the JavaScript grammar.
#[derive(Clone, Copy, Debug, PartialEq, Eq, Structural)]
pub enum Grammar {
    Rust,
    TypeScript,
    Tsx,
    JavaScript,
    Python,
    Go,
}

pub open spec fn grammar_spec(kind: TsLanguageKind) -> Grammar {
    match kind {
        TsLanguageKind::Rust => Grammar::Rust,
        TsLanguageKind::TypeScript => Grammar::TypeScript,
        TsLanguageKind::Tsx => Grammar::Tsx,
        TsLanguageKind::JavaScript | TsLanguageKind::Jsx => Grammar::JavaScript,
        TsLanguageKind::Python => Grammar::Python,
        TsLanguageKind::Go => Grammar::Go,
    }
}

/// The node kinds materialized for a language.
pub open spec fn significant_kinds(lang: TsLanguageKind) -> Seq<Seq<char>> {
    match lang {
        TsLanguageKind::Rust => seq![
            "function_item"@, "struct_item"@, "enum_item"@, "trait_item"@, "impl_item"@,
            "type_item"@, "mod_item"@, "const_item"@, "static_item"@, "macro_definition"@,
            "use_declaration"@, "if_expression"@, "match_expression"@, "for_expression"@,
            "while_expression"@, "loop_expression"@, "return_expression"@, "let_declaration"@,
            "call_expression"@, "string_literal"@,
        ],
        TsLanguageKind::TypeScript | TsLanguageKind::Tsx => seq![
            "function_declaration"@, "method_definition"@, "class_declaration"@,
            "interface_declaration"@, "type_alias_declaration"@, "enum_declaration"@,
            "arrow_function"@, "lexical_declaration"@, "variable_declaration"@,
            "import_statement"@, "export_statement"@, "if_statement"@, "for_statement"@,
            "for_in_statement"@, "while_statement"@, "switch_statement"@, "return_statement"@,
            "try_statement"@, "catch_clause"@, "throw_statement"@, "call_expression"@,
            "new_expression"@, "string"@,
        ],
        TsLanguageKind::JavaScript | TsLanguageKind::Jsx => seq![
            "function_declaration"@, "method_definition"@, "class_declaration"@,
            "lexical_declaration"@, "variable_declaration"@, "import_statement"@,
            "export_statement"@, "if_statement"@, "for_statement"@, "for_in_statement"@,
            "while_statement"@, "switch_statement"@, "return_statement"@, "try_statement"@,
            "catch_clause"@, "throw_statement"@, "call_expression"@, "new_expression"@,
            "string"@,
        ],
        TsLanguageKind::Python => seq![
            "function_definition"@, "class_definition"@, "decorated_definition"@,
            "import_statement"@, "import_from_statement"@, "assignment"@, "global_statement"@,
            "if_statement"@, "for_statement"@, "while_statement"@, "try_statement"@,
            "except_clause"@, "with_statement"@, "return_statement"@, "raise_statement"@,
            "call"@, "attribute"@, "string"@,
        ],
        TsLanguageKind::Go => seq![
            "function_declaration"@, "method_declaration"@, "type_declaration"@, "type_spec"@,
            "import_declaration"@, "if_statement"@, "for_statement"@, "switch_statement"@,
            "select_statement"@, "return_statement"@, "defer_statement"@, "go_statement"@,
            "var_declaration"@, "const_declaration"@, "short_var_declaration"@,
            "call_expression"@, "string_literal"@,
        ],
    }
}

fn significant_kinds_exec(lang: TsLanguageKind) -> (v: Vec<&'static str>)
    ensures
        v@.map_values(|s: &str| s@) == significant_kinds(lang),
{
    let v: Vec<&'static str> = match lang {
        TsLanguageKind::Rust => vec![
            "function_item", "struct_item", "enum_item", "trait_item", "impl_item",
            "type_item", "mod_item", "const_item", "static_item", "macro_definition",
            "use_declaration", "if_expression", "match_expression", "for_expression",
            "while_expression", "loop_expression", "return_expression", "let_declaration",
            "call_expression", "string_literal",
        ],
        TsLanguageKind::TypeScript | TsLanguageKind::Tsx => vec![
            "function_declaration", "method_definition", "class_declaration",
            "interface_declaration", "type_alias_declaration", "enum_declaration",
            "arrow_function", "lexical_declaration", "variable_declaration",
            "import_statement", "export_statement", "if_statement", "for_statement",
            "for_in_statement", "while_statement", "switch_statement", "return_statement",
            "try_statement", "catch_clause", "throw_statement", "call_expression",
            "new_expression", "string",
        ],
        TsLanguageKind::JavaScript | TsLanguageKind::Jsx => vec![
            "function_declaration", "method_definition", "class_declaration",
            "lexical_declaration", "variable_declaration", "import_statement",
            "export_statement", "if_statement", "for_statement", "for_in_statement",
            "while_statement", "switch_statement", "return_statement", "try_statement",
            "catch_clause", "throw_statement", "call_expression", "new_expression",
            "string",
        ],
        TsLanguageKind::Python => vec![
            "function_definition", "class_definition", "decorated_definition",
            "import_statement", "import_from_statement", "assignment", "global_statement",
            "if_statement", "for_statement", "while_statement", "try_statement",
            "except_clause", "with_statement", "return_statement", "raise_statement",
            "call", "attribute", "string",
        ],
        TsLanguageKind::Go => vec![
            "function_declaration", "method_declaration", "type_declaration", "type_spec",
            "import_declaration", "if_statement", "for_statement", "switch_statement",
            "select_statement", "return_statement", "defer_statement", "go_statement",
            "var_declaration", "const_declaration", "short_var_declaration",
            "call_expression", "string_literal",
        ],
    };
    assert(v@.map_values(|s: &str| s@) =~= significant_kinds(lang));
    v
}

impl TsLanguageKind {
    /// The language of a language name (`"Rust"`, `"TypeScript"`, `"TSX"`,
    /// `"JavaScript"`, `"JSX"`, `"Python"`, `"Go"`).
    pub fn from_name(language: &str) -> (r: Option<TsLanguageKind>)
        ensures
            r == language_of_name(language@),
    {
        if str_eq(language, "Rust") {
            Some(TsLanguageKind::Rust)
        } else if str_eq(language, "TypeScript") {
            Some(TsLanguageKind::TypeScript)
        } else if str_eq(language, "TSX") {
            Some(TsLanguageKind::Tsx)
        } else if str_eq(language, "JavaScript") {
            Some(TsLanguageKind::JavaScript)
        } else if str_eq(language, "JSX") {
            Some(TsLanguageKind::Jsx)
        } else if str_eq(language, "Python") {
            Some(TsLanguageKind::Python)
        } else if str_eq(language, "Go") {
            Some(TsLanguageKind::Go)
        } else {
            None
        }
    }

    /// The grammar that parses this language.
    pub fn grammar(self) -> (g: Grammar)
        ensures
            g == grammar_spec(self),
    {
        match self {
            TsLanguageKind::Rust => Grammar::Rust,
            TsLanguageKind::TypeScript => Grammar::TypeScript,
            TsLanguageKind::Tsx => Grammar::Tsx,
            TsLanguageKind::JavaScript | TsLanguageKind::Jsx => Grammar::JavaScript,
            TsLanguageKind::Python => Grammar::Python,
            TsLanguageKind::Go => Grammar::Go,
        }
    }

    /// The tree-sitter language of this language's grammar.
    pub fn ts_language(self) -> (l: TsLanguage)
        ensures
            l@ == grammar_spec(self),
    {
        match self.grammar() {
            Grammar::Rust => rust_grammar(),
            Grammar::TypeScript => typescript_grammar(),
            Grammar::Tsx => tsx_grammar(),
            Grammar::JavaScript => javascript_grammar(),
            Grammar::Python => python_grammar(),
            Grammar::Go => go_grammar(),
        }
    }
}

/// A tree-sitter language, together with the grammar it was made from. Only
/// the grammar functions below make one, each from its own grammar crate.
pub struct TsLanguage {
    grammar: Grammar,
    language: Language,
}

impl View for TsLanguage {
    type V = Grammar;

    closed spec fn view(&self) -> Grammar {
        self.grammar
    }
}

impl TsLanguage {
    /// The grammar of this language.
    pub fn grammar(&self) -> (g: Grammar)
        ensures
            g == self@,
    {
        self.grammar
    }

    /// The tree-sitter language itself.
    pub fn language(&self) -> &Language {
        &self.language
    }
}

/// `tree_sitter_rust::LANGUAGE` as a language, tagged with its grammar.
#[verifier::external_body]
fn rust_grammar() -> (l: TsLanguage)
    ensures
        l@ == Grammar::Rust,
{
    TsLanguage { grammar: Grammar::Rust, language: ::tree_sitter_rust::LANGUAGE.into() }
}

/// `tree_sitter_typescript::LANGUAGE_TYPESCRIPT` as a language, tagged with its grammar.
#[verifier::external_body]
fn typescript_grammar() -> (l: TsLanguage)
    ensures
        l@ == Grammar::TypeScript,
{
    TsLanguage { grammar: Grammar::TypeScript, language: ::tree_sitter_typescript::LANGUAGE_TYPESCRIPT.into() }
}

/// `tree_sitter_typescript::LANGUAGE_TSX` as a language, tagged with its grammar.
#[verifier::external_body]
fn tsx_grammar() -> (l: TsLanguage)
    ensures
        l@ == Grammar::Tsx,
{
    TsLanguage { grammar: Grammar::Tsx, language: ::tree_sitter_typescript::LANGUAGE_TSX.into() }
}

/// `tree_sitter_javascript::LANGUAGE` as a language, tagged with its grammar.
#[verifier::external_body]
fn javascript_grammar() -> (l: TsLanguage)
    ensures
        l@ == Grammar::JavaScript,
{
    TsLanguage { grammar: Grammar::JavaScript, language: ::tree_sitter_javascript::LANGUAGE.into() }
}

/// `tree_sitter_python::LANGUAGE` as a language, tagged with its grammar.
#[verifier::external_body]
fn python_grammar() -> (l: TsLanguage)
    ensures
        l@ == Grammar::Python,
{
    TsLanguage { grammar: Grammar::Python, language: ::tree_sitter_python::LANGUAGE.into() }
}

/// `tree_sitter_go::LANGUAGE` as a language, tagged with its grammar.
#[verifier::external_body]
fn go_grammar() -> (l: TsLanguage)
    ensures
        l@ == Grammar::Go,
{
    TsLanguage { grammar: Grammar::Go, language: ::tree_sitter_go::LANGUAGE.into() }
}

/// Whether nodes of kind `kind` are materialized for `lang`.
pub fn is_significant_node(lang: TsLanguageKind, kind: &str) -> (b: bool)
    ensures
        b == significant_kinds(lang).contains(kind@),
        lang == TsLanguageKind::Rust ==> (b <==> rust_significant(kind@)),
        (lang == TsLanguageKind::TypeScript || lang == TsLanguageKind::Tsx) ==> (b <==> typescript_significant(kind@)),
        (lang == TsLanguageKind::JavaScript || lang == TsLanguageKind::Jsx) ==> (b <==> javascript_significant(kind@)),
        lang == TsLanguageKind::Python ==> (b <==> python_significant(kind@)),
        lang == TsLanguageKind::Go ==> (b <==> go_significant(kind@)),
{
    let b = kinds_contain(lang, kind);
    proof {
        law_rust_significant_kinds();
        law_typescript_significant_kinds();
        law_javascript_significant_kinds();
        law_python_significant_kinds();
        law_go_significant_kinds();
    }
    b
}

fn kinds_contain(lang: TsLanguageKind, kind: &str) -> (b: bool)
    ensures
        b == significant_kinds(lang).contains(kind@),
{
    let kinds = significant_kinds_exec(lang);
    let ghost kv = kinds@.map_values(|s: &str| s@);
    let mut i: usize = 0;
    while i < kinds.len()
        invariant
            i <= kinds@.len(),
            kv == kinds@.map_values(|s: &str| s@),
            kv == significant_kinds(lang),
            forall|k: int| 0 <= k < i ==> kv[k] != kind@,
        decreases kinds.len() - i,
    {
        if str_eq(kinds[i], kind) {
            assert(kv[i as int] == kind@);
            assert(significant_kinds(lang).contains(kind@));
            return true;
        }
        i = i + 1;
    }
    false
}

// ---------------------------------------------------------------------------
// Queries
// ---------------------------------------------------------------------------
/// The query text capturing each node kind `k` under the capture name `c`,
/// for the patterns `(k, c)` in order: a line `(k) @c` each, after an empty line.
pub open spec fn query_text(patterns: Seq<(Seq<char>, Seq<char>)>) -> Seq<char>
    decreases patterns.len(),
{
    if patterns.len() == 0 {
        "\n"@
    } else {
        query_text(patterns.drop_last()) + "("@ + patterns.last().0 + ") @"@ + patterns.last().1 + "\n"@
    }
}

pub open spec fn patterns_view(v: Seq<(&str, &str)>) -> Seq<(Seq<char>, Seq<char>)> {
    v.map_values(|p: (&str, &str)| (p.0@, p.1@))
}

/// The node kinds that the symbol query of a language captures, with their capture names.
pub open spec fn symbol_patterns(lang: TsLanguageKind) -> Seq<(Seq<char>, Seq<char>)> {
    match lang {
        TsLanguageKind::Rust => seq![("function_item"@, "function.definition"@), ("struct_item"@, "struct.definition"@), ("enum_item"@, "enum.definition"@), ("trait_item"@, "trait.definition"@), ("type_item"@, "type_alias.definition"@), ("mod_item"@, "module.definition"@), ("const_item"@, "const.definition"@), ("static_item"@, "static.definition"@), ("macro_definition"@, "macro.definition"@), ("impl_item"@, "impl.definition"@)],
        TsLanguageKind::TypeScript | TsLanguageKind::Tsx => seq![("function_declaration"@, "function.definition"@), ("method_definition"@, "method.definition"@), ("class_declaration"@, "class.definition"@), ("interface_declaration"@, "interface.definition"@), ("type_alias_declaration"@, "type_alias.definition"@), ("enum_declaration"@, "enum.definition"@)],
        TsLanguageKind::JavaScript | TsLanguageKind::Jsx => seq![("function_declaration"@, "function.definition"@), ("method_definition"@, "method.definition"@), ("class_declaration"@, "class.definition"@)],
        TsLanguageKind::Python => seq![("function_definition"@, "function.definition"@), ("class_definition"@, "class.definition"@), ("decorated_definition"@, "decorated.definition"@)],
        TsLanguageKind::Go => seq![("function_declaration"@, "function.definition"@), ("method_declaration"@, "method.definition"@), ("type_declaration"@, "type.definition"@)],
    }
}

/// The node kinds that the import query of a language captures, with their capture names.
pub open spec fn import_patterns(lang: TsLanguageKind) -> Seq<(Seq<char>, Seq<char>)> {
    match lang {
        TsLanguageKind::Rust => seq![("use_declaration"@, "import.use"@)],
        TsLanguageKind::TypeScript | TsLanguageKind::Tsx => seq![("import_statement"@, "import.statement"@), ("export_statement"@, "export.statement"@)],
        TsLanguageKind::JavaScript | TsLanguageKind::Jsx => seq![("import_statement"@, "import.statement"@), ("export_statement"@, "export.statement"@)],
        TsLanguageKind::Python => seq![("import_statement"@, "import.statement"@), ("import_from_statement"@, "import.from"@)],
        TsLanguageKind::Go => seq![("import_declaration"@, "import.declaration"@)],
    }
}

/// The query source surfacing symbol definitions of a language.
pub open spec fn symbol_query_src_spec(lang: TsLanguageKind) -> Seq<char> {
    query_text(symbol_patterns(lang))
}

/// The query source surfacing imports of a language.
pub open spec fn import_query_src_spec(lang: TsLanguageKind) -> Seq<char> {
    query_text(import_patterns(lang))
}

fn symbol_patterns_exec(lang: TsLanguageKind) -> (v: Vec<(&'static str, &'static str)>)
    ensures
        patterns_view(v@) == symbol_patterns(lang),
{
    let v: Vec<(&'static str, &'static str)> = match lang {
        TsLanguageKind::Rust => vec![("function_item", "function.definition"), ("struct_item", "struct.definition"), ("enum_item", "enum.definition"), ("trait_item", "trait.definition"), ("type_item", "type_alias.definition"), ("mod_item", "module.definition"), ("const_item", "const.definition"), ("static_item", "static.definition"), ("macro_definition", "macro.definition"), ("impl_item", "impl.definition")],
        TsLanguageKind::TypeScript | TsLanguageKind::Tsx => vec![("function_declaration", "function.definition"), ("method_definition", "method.definition"), ("class_declaration", "class.definition"), ("interface_declaration", "interface.definition"), ("type_alias_declaration", "type_alias.definition"), ("enum_declaration", "enum.definition")],
        TsLanguageKind::JavaScript | TsLanguageKind::Jsx => vec![("function_declaration", "function.definition"), ("method_definition", "method.definition"), ("class_declaration", "class.definition")],
        TsLanguageKind::Python => vec![("function_definition", "function.definition"), ("class_definition", "class.definition"), ("decorated_definition", "decorated.definition")],
        TsLanguageKind::Go => vec![("function_declaration", "function.definition"), ("method_declaration", "method.definition"), ("type_declaration", "type.definition")],
    };
    assert(patterns_view(v@) =~= symbol_patterns(lang));
    v
}

fn import_patterns_exec(lang: TsLanguageKind) -> (v: Vec<(&'static str, &'static str)>)
    ensures
        patterns_view(v@) == import_patterns(lang),
{
    let v: Vec<(&'static str, &'static str)> = match lang {
        TsLanguageKind::Rust => vec![("use_declaration", "import.use")],
        TsLanguageKind::TypeScript | TsLanguageKind::Tsx => vec![("import_statement", "import.statement"), ("export_statement", "export.statement")],
        TsLanguageKind::JavaScript | TsLanguageKind::Jsx => vec![("import_statement", "import.statement"), ("export_statement", "export.statement")],
        TsLanguageKind::Python => vec![("import_statement", "import.statement"), ("import_from_statement", "import.from")],
        TsLanguageKind::Go => vec![("import_declaration", "import.declaration")],
    };
    assert(patterns_view(v@) =~= import_patterns(lang));
    v
}

fn query_text_exec(patterns: &Vec<(&'static str, &'static str)>) -> (s: String)
    ensures
        s@ == query_text(patterns_view(patterns@)),
{
    let ghost pv = patterns_view(patterns@);
    let mut s = owned("\n");
    let mut i: usize = 0;
    while i < patterns.len()
        invariant
            i <= patterns@.len(),
            pv == patterns_view(patterns@),
            s@ == query_text(pv.take(i as int)),
        decreases patterns.len() - i,
    {
        assert(pv.take(i + 1).drop_last() =~= pv.take(i as int));
        let (kind, capture) = patterns[i];
        push_str(&mut s, "(");
        push_str(&mut s, kind);
        push_str(&mut s, ") @");
        push_str(&mut s, capture);
        push_str(&mut s, "\n");
        assert(s@ =~= query_text(pv.take(i + 1)));
        i = i + 1;
    }
    assert(pv.take(patterns.len() as int) =~= pv);
    s
}

/// The query source surfacing symbol definitions of a language.
pub fn symbol_query_source(lang: TsLanguageKind) -> (s: String)
    ensures
        s@ == symbol_query_src_spec(lang),
{
    query_text_exec(&symbol_patterns_exec(lang))
}

/// The query source surfacing imports of a language.
pub fn import_query_source(lang: TsLanguageKind) -> (s: String)
    ensures
        s@ == import_query_src_spec(lang),
{
    query_text_exec(&import_patterns_exec(lang))
}

/// Every node kind that a query of a language captures is one that is
/// materialized for that language.
pub proof fn law_captured_kinds_are_significant(lang: TsLanguageKind)
    ensures
        forall|i: int| 0 <= i < symbol_patterns(lang).len() ==> significant_kinds(lang).contains(
            #[trigger] symbol_patterns(lang)[i].0,
        ),
        forall|i: int| 0 <= i < import_patterns(lang).len() ==> significant_kinds(lang).contains(
            #[trigger] import_patterns(lang)[i].0,
        ),
{
}

/// Whether `tree_sitter::Query::new` accepts the query `source` for the
/// language of grammar `grammar`.
pub uninterp spec fn query_compiles(grammar: Grammar, source: Seq<char>) -> bool;

/// `tree_sitter::Query::new`: the query, or `None` when the source does not
/// compile for the language. Claimed: whether it compiles is a function of the
/// grammar and the source. Nothing is claimed of the query itself.
#[verifier::external_body]
fn compile_query(language: &TsLanguage, source: &str) -> (r: Option<Query>)
    ensures
        r is Some <==> query_compiles(language@, source@),
{
    Query::new(&language.language, source).ok()
}

/// A compiled query, together with the grammar it was compiled for and its source.
pub struct TsQuery {
    grammar: Grammar,
    source: String,
    query: Query,
}

impl View for TsQuery {
    type V = (Grammar, Seq<char>);

    closed spec fn view(&self) -> (Grammar, Seq<char>) {
        (self.grammar, self.source@)
    }
}

impl TsQuery {
    /// The grammar the query was compiled for.
    pub fn grammar(&self) -> (g: Grammar)
        ensures
            g == self@.0,
    {
        self.grammar
    }

    /// The source of the query.
    pub fn source(&self) -> (s: &str)
        ensures
            s@ == self@.1,
    {
        self.source.as_str()
    }

    /// The compiled query.
    pub fn query(&self) -> &Query {
        &self.query
    }
}

/// Compiles `source` for the grammar of `base`.
fn compile_for(base: TsLanguageKind, source: String) -> (r: Option<TsQuery>)
    ensures
        match r {
            Some(q) => q@ == (grammar_spec(base), source@) && query_compiles(grammar_spec(base), source@),
            None => !query_compiles(grammar_spec(base), source@),
        },
{
    let language = base.ts_language();
    match compile_query(&language, source.as_str()) {
        Some(query) => Some(TsQuery { grammar: language.grammar(), source, query }),
        None => None,
    }
}

/// The query that surfaces symbol definitions for the language (TypeScript's
/// for TSX, JavaScript's for JSX), compiled for the TypeScript grammar for
/// TypeScript and TSX and the JavaScript grammar for JavaScript and JSX;
/// `None` exactly when tree-sitter does not accept it.
pub fn symbol_query(lang: TsLanguageKind) -> (r: Option<TsQuery>)
    ensures
        match r {
            Some(q) => q@ == (grammar_spec(query_grammar_kind_spec(lang)), symbol_query_src_spec(lang))
                && query_compiles(grammar_spec(query_grammar_kind_spec(lang)), symbol_query_src_spec(lang)),
            None => !query_compiles(grammar_spec(query_grammar_kind_spec(lang)), symbol_query_src_spec(lang)),
        },
{
    let base = query_grammar_kind(lang);
    compile_for(base, symbol_query_source(lang))
}

/// The query for the imports of the language, compiled like [`symbol_query`];
/// `None` exactly when tree-sitter does not accept it.
pub fn import_query(lang: TsLanguageKind) -> (r: Option<TsQuery>)
    ensures
        match r {
            Some(q) => q@ == (grammar_spec(query_grammar_kind_spec(lang)), import_query_src_spec(lang))
                && query_compiles(grammar_spec(query_grammar_kind_spec(lang)), import_query_src_spec(lang)),
            None => !query_compiles(grammar_spec(query_grammar_kind_spec(lang)), import_query_src_spec(lang)),
        },
{
    let base = query_grammar_kind(lang);
    compile_for(base, import_query_source(lang))
}

/// The language whose grammar the queries of `lang` are compiled for.
pub open spec fn query_grammar_kind_spec(lang: TsLanguageKind) -> TsLanguageKind {
    match lang {
        TsLanguageKind::Tsx => TsLanguageKind::TypeScript,
        TsLanguageKind::Jsx => TsLanguageKind::JavaScript,
        other => other,
    }
}

fn query_grammar_kind(lang: TsLanguageKind) -> (k: TsLanguageKind)
    ensures
        k == query_grammar_kind_spec(lang),
{
    match lang {
        TsLanguageKind::Tsx => TsLanguageKind::TypeScript,
        TsLanguageKind::Jsx => TsLanguageKind::JavaScript,
        other => other,
    }
}

// ---------------------------------------------------------------------------
// Parsing
// ---------------------------------------------------------------------------
/// `tree_sitter::Parser::new`; nothing is claimed of the parser.
#[verifier::external_body]
fn new_parser() -> Parser {
    Parser::new()
}

/// Whether `tree_sitter::Parser::set_language` accepts the language of grammar
/// `grammar` (its ABI version is supported and it can be used for parsing).
pub uninterp spec fn grammar_accepted(grammar: Grammar) -> bool;

/// `tree_sitter::Parser::set_language`: whether the language was assigned.
/// Claimed: the answer is a function of the grammar. When it is refused the
/// parser keeps its earlier language.
#[verifier::external_body]
fn parser_set_language(parser: &mut Parser, language: &TsLanguage) -> (ok: bool)
    ensures
        ok == grammar_accepted(language@),
{
    parser.set_language(&language.language).is_ok()
}

/// `tree_sitter::Parser::parse` without an old tree and without options.
/// Claimed, from its documentation: there is a tree whenever a language has
/// been assigned; `TsParser` records a grammar only once `set_language` has
/// accepted it. Nothing is claimed of the tree itself.
#[verifier::external_body]
fn parser_parse(parser: &mut TsParser, source: &str) -> (r: Option<Tree>)
    ensures
        old(parser)@ is Some ==> r is Some,
        final(parser)@ == old(parser)@,
{
    parser.parser.parse(source, None)
}

/// A tree-sitter parser that dispatches on the language name. Its view is the
/// grammar assigned to it, if any.
pub struct TsParser {
    parser: Parser,
    grammar: Option<Grammar>,
}

impl View for TsParser {
    type V = Option<Grammar>;

    closed spec fn view(&self) -> Option<Grammar> {
        self.grammar
    }
}

impl TsParser {
    /// A parser with no language assigned yet.
    pub fn new() -> (p: TsParser)
        ensures
            p@ is None,
    {
        TsParser { parser: new_parser(), grammar: None }
    }

    /// Parses `source` as `language`: `None` for a language that is not
    /// supported or whose grammar tree-sitter refuses, a tree otherwise. The
    /// parser keeps the grammar it was given.
    pub fn parse(&mut self, language: &str, source: &str) -> (r: Option<Tree>)
        ensures
            match language_of_name(language@) {
                None => r is None && final(self)@ == old(self)@,
                Some(l) => {
                    &&& r is Some <==> grammar_accepted(grammar_spec(l))
                    &&& final(self)@ == if grammar_accepted(grammar_spec(l)) {
                        Some(grammar_spec(l))
                    } else {
                        old(self)@
                    }
                },
            },
    {
        let lang = match TsLanguageKind::from_name(language) {
            Some(l) => l,
            None => {
                return None;
            },
        };
        let ts_language = lang.ts_language();
        if !parser_set_language(&mut self.parser, &ts_language) {
            return None;
        }
        self.grammar = Some(ts_language.grammar());
        parser_parse(self, source)
    }
}

/// JSX is handled as JavaScript and TSX as TypeScript: the same node kinds are
/// materialized, and the same queries, compiled for the same grammar, are used.
pub proof fn law_jsx_and_tsx_follow_their_base()
    ensures
        significant_kinds(TsLanguageKind::Jsx) == significant_kinds(TsLanguageKind::JavaScript),
        significant_kinds(TsLanguageKind::Tsx) == significant_kinds(TsLanguageKind::TypeScript),
        symbol_query_src_spec(TsLanguageKind::Jsx) == symbol_query_src_spec(TsLanguageKind::JavaScript),
        symbol_query_src_spec(TsLanguageKind::Tsx) == symbol_query_src_spec(TsLanguageKind::TypeScript),
        import_query_src_spec(TsLanguageKind::Jsx) == import_query_src_spec(TsLanguageKind::JavaScript),
        import_query_src_spec(TsLanguageKind::Tsx) == import_query_src_spec(TsLanguageKind::TypeScript),
        query_grammar_kind_spec(TsLanguageKind::Jsx) == TsLanguageKind::JavaScript,
        query_grammar_kind_spec(TsLanguageKind::Tsx) == TsLanguageKind::TypeScript,
        grammar_spec(TsLanguageKind::Jsx) == grammar_spec(TsLanguageKind::JavaScript),
{
}

/// The node kinds materialized for Rust.
pub open spec fn rust_significant(k: Seq<char>) -> bool {
    ||| k == "function_item"@
    ||| k == "struct_item"@
    ||| k == "enum_item"@
    ||| k == "trait_item"@
    ||| k == "impl_item"@
    ||| k == "type_item"@
    ||| k == "mod_item"@
    ||| k == "const_item"@
    ||| k == "static_item"@
    ||| k == "macro_definition"@
    ||| k == "use_declaration"@
    ||| k == "if_expression"@
    ||| k == "match_expression"@
    ||| k == "for_expression"@
    ||| k == "while_expression"@
    ||| k == "loop_expression"@
    ||| k == "return_expression"@
    ||| k == "let_declaration"@
    ||| k == "call_expression"@
    ||| k == "string_literal"@
}

/// The node kinds materialized for Rust are exactly the listed ones.
pub proof fn law_rust_significant_kinds()
    ensures
        forall|k: Seq<char>| #[trigger] significant_kinds(TsLanguageKind::Rust).contains(k) <==> rust_significant(k),
{
    let s = significant_kinds(TsLanguageKind::Rust);
    assert forall|k: Seq<char>| #[trigger] s.contains(k) <==> rust_significant(k) by {
        if rust_significant(k) {
            if k == "function_item"@ { assert(s[0] == k); }
            if k == "struct_item"@ { assert(s[1] == k); }
            if k == "enum_item"@ { assert(s[2] == k); }
            if k == "trait_item"@ { assert(s[3] == k); }
            if k == "impl_item"@ { assert(s[4] == k); }
            if k == "type_item"@ { assert(s[5] == k); }
            if k == "mod_item"@ { assert(s[6] == k); }
            if k == "const_item"@ { assert(s[7] == k); }
            if k == "static_item"@ { assert(s[8] == k); }
            if k == "macro_definition"@ { assert(s[9] == k); }
            if k == "use_declaration"@ { assert(s[10] == k); }
            if k == "if_expression"@ { assert(s[11] == k); }
            if k == "match_expression"@ { assert(s[12] == k); }
            if k == "for_expression"@ { assert(s[13] == k); }
            if k == "while_expression"@ { assert(s[14] == k); }
            if k == "loop_expression"@ { assert(s[15] == k); }
            if k == "return_expression"@ { assert(s[16] == k); }
            if k == "let_declaration"@ { assert(s[17] == k); }
            if k == "call_expression"@ { assert(s[18] == k); }
            if k == "string_literal"@ { assert(s[19] == k); }
        }
    }
}

/// The node kinds materialized for TypeScript.
pub open spec fn typescript_significant(k: Seq<char>) -> bool {
    ||| k == "function_declaration"@
    ||| k == "method_definition"@
    ||| k == "class_declaration"@
    ||| k == "interface_declaration"@
    ||| k == "type_alias_declaration"@
    ||| k == "enum_declaration"@
    ||| k == "arrow_function"@
    ||| k == "lexical_declaration"@
    ||| k == "variable_declaration"@
    ||| k == "import_statement"@
    ||| k == "export_statement"@
    ||| k == "if_statement"@
    ||| k == "for_statement"@
    ||| k == "for_in_statement"@
    ||| k == "while_statement"@
    ||| k == "switch_statement"@
    ||| k == "return_statement"@
    ||| k == "try_statement"@
    ||| k == "catch_clause"@
    ||| k == "throw_statement"@
    ||| k == "call_expression"@
    ||| k == "new_expression"@
    ||| k == "string"@
}

/// The node kinds materialized for TypeScript (and Tsx) are exactly the listed ones.
pub proof fn law_typescript_significant_kinds()
    ensures
        forall|k: Seq<char>| #[trigger] significant_kinds(TsLanguageKind::TypeScript).contains(k) <==> typescript_significant(k),
        forall|k: Seq<char>| #[trigger] significant_kinds(TsLanguageKind::Tsx).contains(k) <==> typescript_significant(k),
{
    let s = significant_kinds(TsLanguageKind::TypeScript);
    assert forall|k: Seq<char>| #[trigger] s.contains(k) <==> typescript_significant(k) by {
        if typescript_significant(k) {
            if k == "function_declaration"@ { assert(s[0] == k); }
            if k == "method_definition"@ { assert(s[1] == k); }
            if k == "class_declaration"@ { assert(s[2] == k); }
            if k == "interface_declaration"@ { assert(s[3] == k); }
            if k == "type_alias_declaration"@ { assert(s[4] == k); }
            if k == "enum_declaration"@ { assert(s[5] == k); }
            if k == "arrow_function"@ { assert(s[6] == k); }
            if k == "lexical_declaration"@ { assert(s[7] == k); }
            if k == "variable_declaration"@ { assert(s[8] == k); }
            if k == "import_statement"@ { assert(s[9] == k); }
            if k == "export_statement"@ { assert(s[10] == k); }
            if k == "if_statement"@ { assert(s[11] == k); }
            if k == "for_statement"@ { assert(s[12] == k); }
            if k == "for_in_statement"@ { assert(s[13] == k); }
            if k == "while_statement"@ { assert(s[14] == k); }
            if k == "switch_statement"@ { assert(s[15] == k); }
            if k == "return_statement"@ { assert(s[16] == k); }
            if k == "try_statement"@ { assert(s[17] == k); }
            if k == "catch_clause"@ { assert(s[18] == k); }
            if k == "throw_statement"@ { assert(s[19] == k); }
            if k == "call_expression"@ { assert(s[20] == k); }
            if k == "new_expression"@ { assert(s[21] == k); }
            if k == "string"@ { assert(s[22] == k); }
        }
    }
}

/// The node kinds materialized for JavaScript.
pub open spec fn javascript_significant(k: Seq<char>) -> bool {
    ||| k == "function_declaration"@
    ||| k == "method_definition"@
    ||| k == "class_declaration"@
    ||| k == "lexical_declaration"@
    ||| k == "variable_declaration"@
    ||| k == "import_statement"@
    ||| k == "export_statement"@
    ||| k == "if_statement"@
    ||| k == "for_statement"@
    ||| k == "for_in_statement"@
    ||| k == "while_statement"@
    ||| k == "switch_statement"@
    ||| k == "return_statement"@
    ||| k == "try_statement"@
    ||| k == "catch_clause"@
    ||| k == "throw_statement"@
    ||| k == "call_expression"@
    ||| k == "new_expression"@
    ||| k == "string"@
}

/// The node kinds materialized for JavaScript (and Jsx) are exactly the listed ones.
pub proof fn law_javascript_significant_kinds()
    ensures
        forall|k: Seq<char>| #[trigger] significant_kinds(TsLanguageKind::JavaScript).contains(k) <==> javascript_significant(k),
        forall|k: Seq<char>| #[trigger] significant_kinds(TsLanguageKind::Jsx).contains(k) <==> javascript_significant(k),
{
    let s = significant_kinds(TsLanguageKind::JavaScript);
    assert forall|k: Seq<char>| #[trigger] s.contains(k) <==> javascript_significant(k) by {
        if javascript_significant(k) {
            if k == "function_declaration"@ { assert(s[0] == k); }
            if k == "method_definition"@ { assert(s[1] == k); }
            if k == "class_declaration"@ { assert(s[2] == k); }
            if k == "lexical_declaration"@ { assert(s[3] == k); }
            if k == "variable_declaration"@ { assert(s[4] == k); }
            if k == "import_statement"@ { assert(s[5] == k); }
            if k == "export_statement"@ { assert(s[6] == k); }
            if k == "if_statement"@ { assert(s[7] == k); }
            if k == "for_statement"@ { assert(s[8] == k); }
            if k == "for_in_statement"@ { assert(s[9] == k); }
            if k == "while_statement"@ { assert(s[10] == k); }
            if k == "switch_statement"@ { assert(s[11] == k); }
            if k == "return_statement"@ { assert(s[12] == k); }
            if k == "try_statement"@ { assert(s[13] == k); }
            if k == "catch_clause"@ { assert(s[14] == k); }
            if k == "throw_statement"@ { assert(s[15] == k); }
            if k == "call_expression"@ { assert(s[16] == k); }
            if k == "new_expression"@ { assert(s[17] == k); }
            if k == "string"@ { assert(s[18] == k); }
        }
    }
}

/// The node kinds materialized for Python.
pub open spec fn python_significant(k: Seq<char>) -> bool {
    ||| k == "function_definition"@
    ||| k == "class_definition"@
    ||| k == "decorated_definition"@
    ||| k == "import_statement"@
    ||| k == "import_from_statement"@
    ||| k == "assignment"@
    ||| k == "global_statement"@
    ||| k == "if_statement"@
    ||| k == "for_statement"@
    ||| k == "while_statement"@
    ||| k == "try_statement"@
    ||| k == "except_clause"@
    ||| k == "with_statement"@
    ||| k == "return_statement"@
    ||| k == "raise_statement"@
    ||| k == "call"@
    ||| k == "attribute"@
    ||| k == "string"@
}

/// The node kinds materialized for Python are exactly the listed ones.
pub proof fn law_python_significant_kinds()
    ensures
        forall|k: Seq<char>| #[trigger] significant_kinds(TsLanguageKind::Python).contains(k) <==> python_significant(k),
{
    let s = significant_kinds(TsLanguageKind::Python);
    assert forall|k: Seq<char>| #[trigger] s.contains(k) <==> python_significant(k) by {
        if python_significant(k) {
            if k == "function_definition"@ { assert(s[0] == k); }
            if k == "class_definition"@ { assert(s[1] == k); }
            if k == "decorated_definition"@ { assert(s[2] == k); }
            if k == "import_statement"@ { assert(s[3] == k); }
            if k == "import_from_statement"@ { assert(s[4] == k); }
            if k == "assignment"@ { assert(s[5] == k); }
            if k == "global_statement"@ { assert(s[6] == k); }
            if k == "if_statement"@ { assert(s[7] == k); }
            if k == "for_statement"@ { assert(s[8] == k); }
            if k == "while_statement"@ { assert(s[9] == k); }
            if k == "try_statement"@ { assert(s[10] == k); }
            if k == "except_clause"@ { assert(s[11] == k); }
            if k == "with_statement"@ { assert(s[12] == k); }
            if k == "return_statement"@ { assert(s[13] == k); }
            if k == "raise_statement"@ { assert(s[14] == k); }
            if k == "call"@ { assert(s[15] == k); }
            if k == "attribute"@ { assert(s[16] == k); }
            if k == "string"@ { assert(s[17] == k); }
        }
    }
}

/// The node kinds materialized for Go.
pub open spec fn go_significant(k: Seq<char>) -> bool {
    ||| k == "function_declaration"@
    ||| k == "method_declaration"@
    ||| k == "type_declaration"@
    ||| k == "type_spec"@
    ||| k == "import_declaration"@
    ||| k == "if_statement"@
    ||| k == "for_statement"@
    ||| k == "switch_statement"@
    ||| k == "select_statement"@
    ||| k == "return_statement"@
    ||| k == "defer_statement"@
    ||| k == "go_statement"@
    ||| k == "var_declaration"@
    ||| k == "const_declaration"@
    ||| k == "short_var_declaration"@
    ||| k == "call_expression"@
    ||| k == "string_literal"@
}

/// The node kinds materialized for Go are exactly the listed ones.
pub proof fn law_go_significant_kinds()
    ensures
        forall|k: Seq<char>| #[trigger] significant_kinds(TsLanguageKind::Go).contains(k) <==> go_significant(k),
{
    let s = significant_kinds(TsLanguageKind::Go);
    assert forall|k: Seq<char>| #[trigger] s.contains(k) <==> go_significant(k) by {
        if go_significant(k) {
            if k == "function_declaration"@ { assert(s[0] == k); }
            if k == "method_declaration"@ { assert(s[1] == k); }
            if k == "type_declaration"@ { assert(s[2] == k); }
            if k == "type_spec"@ { assert(s[3] == k); }
            if k == "import_declaration"@ { assert(s[4] == k); }
            if k == "if_statement"@ { assert(s[5] == k); }
            if k == "for_statement"@ { assert(s[6] == k); }
            if k == "switch_statement"@ { assert(s[7] == k); }
            if k == "select_statement"@ { assert(s[8] == k); }
            if k == "return_statement"@ { assert(s[9] == k); }
            if k == "defer_statement"@ { assert(s[10] == k); }
            if k == "go_statement"@ { assert(s[11] == k); }
            if k == "var_declaration"@ { assert(s[12] == k); }
            if k == "const_declaration"@ { assert(s[13] == k); }
            if k == "short_var_declaration"@ { assert(s[14] == k); }
            if k == "call_expression"@ { assert(s[15] == k); }
            if k == "string_literal"@ { assert(s[16] == k); }
        }
    }
}

} // verus!
