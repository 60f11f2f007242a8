//! Search for a key inside a source tree, either as a plain per-line
//! substring scan or as a grammar-aware symbol search over parsed syntax
//! trees.
//!
//! The pieces: [`options`] resolves languages and holds the ignore filter,
//! [`walker`] enumerates a filesystem snapshot with ignore pruning and the
//! extension gate, [`text`] supplies the verified string machinery,
//! [`search`] holds the two search strategies, [`parser_lang`] wraps the
//! grammar engine, and [`results`] aggregates per-file hits.

pub mod cmd_args;
pub mod constants;
pub mod options;
pub mod parser_lang;
pub mod results;
pub mod search;
pub mod text;
pub mod walker;
