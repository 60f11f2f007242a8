use search_code::options::Lang;
use search_code::parser_lang::SpecifyParser;
use search_code::search::{get_symbols, SearchError};

#[test]
fn rust_fn_main_is_found_at_line_one() {
    let mut parser = SpecifyParser::from_lang(&Lang::Rust);
    let r = get_symbols("f.rs", "fn main() { }", "main", &mut parser).unwrap();
    let entries = r.entries();
    assert_eq!(entries.len(), 1);
    assert_eq!(entries[0].0, "f.rs");
    // the searched constructs include identifiers as well as functions,
    // every template runs, and nothing is deduplicated, so the one `main`
    // node is reported by the function template and again by the
    // catch-all identifier template: two hits, in template order
    assert_eq!(entries[0].1, vec![(1, "main".to_string()), (1, "main".to_string())]);
}

#[test]
fn python_class_is_found() {
    let mut parser = SpecifyParser::from_lang(&Lang::Python);
    let code = "x = 1\nclass Widget:\n    pass\n";
    let r = get_symbols("w.py", code, "Widget", &mut parser).unwrap();
    let entries = r.entries();
    assert_eq!(entries.len(), 1);
    assert_eq!(entries[0].0, "w.py");
    assert_eq!(entries[0].1, vec![(2, "Widget".to_string())]);
}

#[test]
fn cpp_function_is_found() {
    let mut parser = SpecifyParser::from_lang(&Lang::Cpp);
    let code = "int helper() { return 0; }\n";
    let r = get_symbols("h.cpp", code, "helper", &mut parser).unwrap();
    let entries = r.entries();
    assert_eq!(entries.len(), 1);
    assert_eq!(entries[0].0, "h.cpp");
    assert_eq!(entries[0].1, vec![(1, "helper".to_string())]);
}

#[test]
fn file_without_the_symbol_gets_no_entry() {
    let mut parser = SpecifyParser::from_lang(&Lang::Rust);
    let r = get_symbols("f.rs", "fn other() { }", "nothere", &mut parser).unwrap();
    assert!(r.entries().is_empty());
}

#[test]
fn any_language_is_a_configuration_error() {
    let mut parser = SpecifyParser::from_lang(&Lang::Any);
    let r = get_symbols("f.rs", "fn main() { }", "main", &mut parser);
    assert_eq!(r.unwrap_err(), SearchError::UnsupportedLanguage);
}

#[test]
fn a_key_holding_regex_metacharacters_fails_compilation() {
    let mut parser = SpecifyParser::from_lang(&Lang::Rust);
    let r = get_symbols("f.rs", "fn main() { }", "[", &mut parser);
    assert_eq!(r.unwrap_err(), SearchError::QueryFailed);
}

#[test]
fn parsing_yields_a_tree_exactly_when_a_grammar_is_loaded() {
    let mut rust = SpecifyParser::from_lang(&Lang::Rust);
    assert!(rust.get_ast("fn main() { }").is_some());
    let mut cpp = SpecifyParser::from_lang(&Lang::Cpp);
    assert!(cpp.get_ast("int x;").is_some());
    let mut any = SpecifyParser::from_lang(&Lang::Any);
    assert!(any.get_ast("fn main() { }").is_none());
    let mut fresh = SpecifyParser::new();
    assert!(fresh.get_ast("anything").is_none());
}

#[test]
fn grammar_handles_exist_for_every_concrete_language() {
    assert!(Lang::C.into_treesitter_language().is_ok());
    assert!(Lang::Cpp.into_treesitter_language().is_ok());
    assert!(Lang::Python.into_treesitter_language().is_ok());
    assert!(Lang::Rust.into_treesitter_language().is_ok());
    assert_eq!(Lang::Any.into_treesitter_language().unwrap_err(), Lang::Any);
}
