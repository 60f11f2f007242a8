//! The per-language tables: file extensions and structural query templates.
//! Each template holds the placeholder `:?`, replaced by the search key
//! before the query is compiled.

use vstd::prelude::*;

verus! {

pub const CPP_FUNCTION_QUERY: &'static str = r#"
((function_definition
  declarator:(
        function_declarator
            declarator:(identifier) @function
    )
)
            (#match? @function ":?"))
"#;

pub const CPP_STRUCT_QUERY: &'static str = r#"
((struct_specifier
    name:(type_identifier) @struct)
    (#match? @struct ":?"))
"#;

pub const CPP_CLASS_QUERY: &'static str = r#"
((class_specifier
    name:(type_identifier) @class)
    (#match? @class ":?"))
"#;

pub const PYTHON_FUNCTION_QUERY: &'static str = r#"
((function_definition
  name:(identifier) @function)
            (#match? @function ":?"))
"#;

pub const PYTHON_CLASS_QUERY: &'static str = r#"
((class_definition
    name:(identifier) @class)
    (#match? @class ":?"))
"#;

pub const RUST_FUNCTION_QUERY: &'static str = r#"
((function_item
  name:(identifier) @function)
            (#match? @function ":?"))
"#;

pub const RUST_STRUCT_QUERY: &'static str = r#"
((struct_item
    name:(type_identifier) @struct)
    (#match? @struct ":?"))
"#;

pub const RUST_ENUM_QUERY: &'static str = r#"
((enum_item
    name:(type_identifier) @struct)
    (#match? @struct ":?"))
"#;

pub const RUST_IDENTIFIER_QUERY: &'static str = r#"
((identifier) @constant
 (#match? @constant ":?"))
"#;

} // verus!
