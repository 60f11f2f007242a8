use std::str::FromStr;

use search_code::options::{get_query, obtain_lang, Lang};

#[test]
fn obtain_lang_cpp_aliases() {
    assert_eq!(obtain_lang("c"), Lang::Cpp);
    assert_eq!(obtain_lang("cpp"), Lang::Cpp);
    assert_eq!(obtain_lang("cc"), Lang::Cpp);
    assert_eq!(obtain_lang("cxx"), Lang::Cpp);
}

#[test]
fn obtain_lang_python_aliases() {
    assert_eq!(obtain_lang("python"), Lang::Python);
    assert_eq!(obtain_lang("Python"), Lang::Python);
    assert_eq!(obtain_lang("py"), Lang::Python);
}

#[test]
fn obtain_lang_rust_aliases() {
    assert_eq!(obtain_lang("rust"), Lang::Rust);
    assert_eq!(obtain_lang("rs"), Lang::Rust);
}

#[test]
fn obtain_lang_unknown_degrades_to_any() {
    assert_eq!(obtain_lang("java"), Lang::Any);
    assert_eq!(obtain_lang(""), Lang::Any);
    assert_eq!(obtain_lang("CPP"), Lang::Any);
}

#[test]
fn lang_from_str_never_fails() {
    assert_eq!(Lang::from_str("cpp"), Ok(Lang::Cpp));
    assert_eq!(Lang::from_str("nonsense"), Ok(Lang::Any));
}

#[test]
fn lang_default_is_any() {
    let lang: Lang = Default::default();
    assert_eq!(lang, Lang::Any);
}

#[test]
fn valid_extensions_per_language() {
    assert_eq!(Lang::Cpp.valid_extensions(), vec!["cpp", "c", "cc", "cxx"]);
    assert_eq!(Lang::C.valid_extensions(), vec!["cpp", "c", "cc", "cxx"]);
    assert_eq!(Lang::Python.valid_extensions(), vec!["py"]);
    assert_eq!(Lang::Rust.valid_extensions(), vec!["rs", "rust"]);
    assert_eq!(Lang::Any.valid_extensions(), Vec::<&str>::new());
}

#[test]
fn query_tables_per_language() {
    assert_eq!(get_query(&Lang::Cpp).len(), 3);
    assert_eq!(get_query(&Lang::C).len(), 3);
    assert_eq!(get_query(&Lang::Python).len(), 2);
    assert_eq!(get_query(&Lang::Rust).len(), 4);
    assert_eq!(get_query(&Lang::Any).len(), 0);
}

#[test]
fn query_templates_hold_the_placeholder() {
    for lang in [Lang::Cpp, Lang::Python, Lang::Rust] {
        let queries = get_query(&lang);
        assert!(!queries.is_empty());
        for q in queries {
            assert!(q.contains(":?"));
        }
    }
}

#[test]
fn rust_queries_are_in_template_order() {
    let queries = get_query(&Lang::Rust);
    assert!(queries[0].contains("function_item"));
    assert!(queries[1].contains("struct_item"));
    assert!(queries[2].contains("enum_item"));
    assert!(queries[3].contains("identifier"));
}
