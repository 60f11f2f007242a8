//! The search configuration handed in by the command line.

use vstd::prelude::*;
use crate::options::Lang;

verus! {

/// What one invocation searches: a root path, the key to look for, the
/// language scope, whether symbol mode is on, and the paths to ignore.
#[derive(Debug)]
pub struct CommandArgs {
    pub path: String,
    pub key_to_search: String,
    pub lang: Lang,
    pub is_symbol: bool,
    pub ignore: Vec<String>,
}

impl Default for CommandArgs {
    fn default() -> (r: Self)
        ensures
            r.path@ == Seq::<char>::empty(),
            r.key_to_search@ == Seq::<char>::empty(),
            r.lang == Lang::Any,
            !r.is_symbol,
            r.ignore@ == Seq::<String>::empty(),
    {
        CommandArgs {
            path: String::new(),
            key_to_search: String::new(),
            lang: Lang::Any,
            is_symbol: false,
            ignore: Vec::new(),
        }
    }
}

impl CommandArgs {
    /// An empty configuration: no path, no key, language `Any`.
    pub fn new() -> (r: Self)
        ensures
            r.path@ == Seq::<char>::empty(),
            r.key_to_search@ == Seq::<char>::empty(),
            r.lang == Lang::Any,
            !r.is_symbol,
            r.ignore@ == Seq::<String>::empty(),
    {
        Default::default()
    }
}

} // verus!
