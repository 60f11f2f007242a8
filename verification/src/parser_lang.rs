//! The grammar engine boundary: the tree-sitter parser, wrapped behind
//! trusted declarations, and the parser each language resolves to.

use vstd::prelude::*;
use crate::options::Lang;
use crate::results::view_hits;

verus! {

#[verifier::external_type_specification]
#[verifier::external_body]
pub struct ExLanguage(tree_sitter::Language);

#[verifier::external_type_specification]
#[verifier::external_body]
pub struct ExParser(tree_sitter::Parser);

#[verifier::external_type_specification]
#[verifier::external_body]
pub struct ExTree(tree_sitter::Tree);

/// Relies on tree_sitter_cpp::LANGUAGE, the C/C++ grammar handle.
#[verifier::external_body]
pub(crate) fn cpp_language() -> tree_sitter::Language {
    tree_sitter_cpp::LANGUAGE.into()
}

/// Relies on tree_sitter_python::LANGUAGE, the Python grammar handle.
#[verifier::external_body]
pub(crate) fn python_language() -> tree_sitter::Language {
    tree_sitter_python::LANGUAGE.into()
}

/// Relies on tree_sitter_rust::LANGUAGE, the Rust grammar handle.
#[verifier::external_body]
pub(crate) fn rust_language() -> tree_sitter::Language {
    tree_sitter_rust::LANGUAGE.into()
}

/// Relies on tree_sitter::Parser::new: a fresh parser with no language set.
#[verifier::external_body]
pub(crate) fn new_parser() -> tree_sitter::Parser {
    tree_sitter::Parser::new()
}

/// Relies on tree_sitter::Parser::set_language: it fails only when the
/// grammar's ABI version lies outside the engine's supported range, and
/// the bundled C/C++ grammar's version (14) lies inside this engine's
/// range (13..=14), so the load succeeds.
#[verifier::external_body]
fn load_cpp_grammar(p: &mut tree_sitter::Parser) -> (r: bool)
    ensures
        r,
{
    p.set_language(&tree_sitter_cpp::LANGUAGE.into()).is_ok()
}

/// Relies on tree_sitter::Parser::set_language, as for the C/C++ grammar:
/// the bundled Python grammar's ABI version (14) is in range, so the load
/// succeeds.
#[verifier::external_body]
fn load_python_grammar(p: &mut tree_sitter::Parser) -> (r: bool)
    ensures
        r,
{
    p.set_language(&tree_sitter_python::LANGUAGE.into()).is_ok()
}

/// Relies on tree_sitter::Parser::set_language, as for the C/C++ grammar:
/// the bundled Rust grammar's ABI version (14) is in range, so the load
/// succeeds.
#[verifier::external_body]
fn load_rust_grammar(p: &mut tree_sitter::Parser) -> (r: bool)
    ensures
        r,
{
    p.set_language(&tree_sitter_rust::LANGUAGE.into()).is_ok()
}

impl Lang {
    /// The grammar handle for this language; `Err(Lang::Any)` when no
    /// grammar backs it, so structural search is unsupported. Callers must
    /// check support before selecting symbol search.
    pub fn into_treesitter_language(&self) -> (r: Result<tree_sitter::Language, Lang>)
        ensures
            (r is Err) <==> (*self == Lang::Any),
            *self == Lang::Any ==> r == Err::<tree_sitter::Language, Lang>(Lang::Any),
    {
        match self {
            Lang::Cpp | Lang::C => Ok(cpp_language()),
            Lang::Python => Ok(python_language()),
            Lang::Rust => Ok(rust_language()),
            Lang::Any => Err(Lang::Any),
        }
    }
}

/// The language whose grammar backs `lang`: `C` shares the C/C++ grammar,
/// every other language is its own.
pub open spec fn spec_grammar_lang(lang: Lang) -> Lang {
    match lang {
        Lang::C => Lang::Cpp,
        _ => lang,
    }
}

/// What one structural query yields over one file, as a function of the
/// grammar language (`Cpp`, `Python` or `Rust`), the query text and the
/// code alone: `None` when the query does not compile or a captured span
/// is not valid text, else every individual capture in capture order, as
/// the node's 0-based start row and its text.
pub uninterp spec fn spec_captures(lang: Lang, query: Seq<char>, code: Seq<char>) -> Option<
    Seq<(int, Seq<char>)>,
>;

/// Relies on tree_sitter's Parser::parse, Query::new and
/// QueryCursor::captures over the C/C++ grammar, run together over the one
/// `code`: grammar, tree, compiled query and captures are each functions
/// of the arguments alone, so the run's outcome is the named
/// `spec_captures`. `None` exactly when the query text does not compile
/// against the grammar (a key holding regex metacharacters can cause this)
/// or a captured byte span is not valid UTF-8; loading the bundled grammar
/// cannot fail (its ABI version is in the engine's range) and parsing with
/// a language set always yields a tree, so those two early exits never
/// fire. Every node span lies inside `code`, which std bounds below
/// `isize::MAX` bytes, so each 0-based row is strictly below `usize::MAX`.
#[verifier::external_body]
pub(crate) fn run_cpp_template(query: &str, code: &str) -> (r: Option<Vec<(usize, String)>>)
    ensures
        (r is Some) <==> (spec_captures(Lang::Cpp, query@, code@) is Some),
        r matches Some(v) ==> spec_captures(Lang::Cpp, query@, code@) == Some(view_hits(v@))
            && forall|i: int| 0 <= i < v@.len() ==> v@[i].0 < usize::MAX,
{
    let g: tree_sitter::Language = tree_sitter_cpp::LANGUAGE.into();
    let mut p = tree_sitter::Parser::new();
    p.set_language(&g).ok()?;
    let t = p.parse(code, None)?;
    let q = tree_sitter::Query::new(&g, query).ok()?;
    let mut c = tree_sitter::QueryCursor::new();
    let mut out: Vec<(usize, String)> = Vec::new();
    for (m, i) in c.captures(&q, t.root_node(), code.as_bytes()) {
        let n = m.captures[i].node;
        out.push((n.start_position().row, n.utf8_text(code.as_bytes()).ok()?.to_string()));
    }
    Some(out)
}

/// Relies on the same tree-sitter functions as the C/C++ wrapper, with the
/// bundled Python grammar, naming the run's outcome `spec_captures` at
/// `Lang::Python`.
#[verifier::external_body]
pub(crate) fn run_python_template(query: &str, code: &str) -> (r: Option<Vec<(usize, String)>>)
    ensures
        (r is Some) <==> (spec_captures(Lang::Python, query@, code@) is Some),
        r matches Some(v) ==> spec_captures(Lang::Python, query@, code@) == Some(view_hits(v@))
            && forall|i: int| 0 <= i < v@.len() ==> v@[i].0 < usize::MAX,
{
    let g: tree_sitter::Language = tree_sitter_python::LANGUAGE.into();
    let mut p = tree_sitter::Parser::new();
    p.set_language(&g).ok()?;
    let t = p.parse(code, None)?;
    let q = tree_sitter::Query::new(&g, query).ok()?;
    let mut c = tree_sitter::QueryCursor::new();
    let mut out: Vec<(usize, String)> = Vec::new();
    for (m, i) in c.captures(&q, t.root_node(), code.as_bytes()) {
        let n = m.captures[i].node;
        out.push((n.start_position().row, n.utf8_text(code.as_bytes()).ok()?.to_string()));
    }
    Some(out)
}

/// Relies on the same tree-sitter functions as the C/C++ wrapper, with the
/// bundled Rust grammar, naming the run's outcome `spec_captures` at
/// `Lang::Rust`.
#[verifier::external_body]
pub(crate) fn run_rust_template(query: &str, code: &str) -> (r: Option<Vec<(usize, String)>>)
    ensures
        (r is Some) <==> (spec_captures(Lang::Rust, query@, code@) is Some),
        r matches Some(v) ==> spec_captures(Lang::Rust, query@, code@) == Some(view_hits(v@))
            && forall|i: int| 0 <= i < v@.len() ==> v@[i].0 < usize::MAX,
{
    let g: tree_sitter::Language = tree_sitter_rust::LANGUAGE.into();
    let mut p = tree_sitter::Parser::new();
    p.set_language(&g).ok()?;
    let t = p.parse(code, None)?;
    let q = tree_sitter::Query::new(&g, query).ok()?;
    let mut c = tree_sitter::QueryCursor::new();
    let mut out: Vec<(usize, String)> = Vec::new();
    for (m, i) in c.captures(&q, t.root_node(), code.as_bytes()) {
        let n = m.captures[i].node;
        out.push((n.start_position().row, n.utf8_text(code.as_bytes()).ok()?.to_string()));
    }
    Some(out)
}

/// A parser bound to the language it was built for.
pub struct SpecifyParser {
    lang: Lang,
    loaded: bool,
    parser: tree_sitter::Parser,
}

/// Relies on tree_sitter::Parser::parse: it returns a tree exactly when a
/// language is set on the parser, and no timeout or cancellation is ever
/// configured here. `loaded` records a successful `set_language` on
/// `parser` and is written from nothing else in this module.
#[verifier::external_body]
fn parse_with(sp: &mut SpecifyParser, code: &str) -> (r: Option<tree_sitter::Tree>)
    ensures
        final(sp).spec_lang() == old(sp).spec_lang(),
        final(sp).spec_loaded() == old(sp).spec_loaded(),
        (r is Some) <==> old(sp).spec_loaded(),
{
    sp.parser.parse(code, None)
}

impl SpecifyParser {
    /// The language this parser was built for.
    pub closed spec fn spec_lang(&self) -> Lang {
        self.lang
    }

    /// Whether a grammar was loaded into this parser.
    pub closed spec fn spec_loaded(&self) -> bool {
        self.loaded
    }

    /// A parser for `Lang::Any`: no grammar is loaded.
    pub fn new() -> (r: Self)
        ensures
            r.spec_lang() == Lang::Any,
            !r.spec_loaded(),
    {
        SpecifyParser { lang: Lang::Any, loaded: false, parser: new_parser() }
    }

    /// A parser for `lang`, its grammar loaded exactly when one backs the
    /// language. For `Lang::Any` no grammar is loaded, and a later parse
    /// yields nothing; this never fails.
    pub fn from_lang(lang: &Lang) -> (r: SpecifyParser)
        ensures
            r.spec_lang() == *lang,
            r.spec_loaded() <==> (*lang != Lang::Any),
    {
        let mut parser = new_parser();
        let loaded: bool = match lang {
            Lang::Cpp | Lang::C => load_cpp_grammar(&mut parser),
            Lang::Python => load_python_grammar(&mut parser),
            Lang::Rust => load_rust_grammar(&mut parser),
            Lang::Any => false,
        };
        SpecifyParser { lang: *lang, loaded, parser }
    }

    /// Parse `code` into a syntax tree: a tree exactly when this parser
    /// holds a grammar, which `from_lang` guarantees for every language
    /// but `Any`.
    pub fn get_ast(&mut self, code: &str) -> (r: Option<tree_sitter::Tree>)
        ensures
            final(self).spec_lang() == old(self).spec_lang(),
            final(self).spec_loaded() == old(self).spec_loaded(),
            (r is Some) <==> old(self).spec_loaded(),
    {
        parse_with(self, code)
    }

    /// The language of the parser.
    pub fn get_lang(&self) -> (r: &Lang)
        ensures
            *r == self.spec_lang(),
    {
        &self.lang
    }
}

impl Default for SpecifyParser {
    fn default() -> (r: Self)
        ensures
            r.spec_lang() == Lang::Any,
            !r.spec_loaded(),
    {
        SpecifyParser::new()
    }
}

} // verus!
