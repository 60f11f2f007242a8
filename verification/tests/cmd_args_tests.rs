use search_code::cmd_args::CommandArgs;
use search_code::options::Lang;

#[test]
fn new_configuration_is_empty() {
    let args = CommandArgs::new();
    assert_eq!(args.path, "");
    assert_eq!(args.key_to_search, "");
    assert_eq!(args.lang, Lang::Any);
    assert!(!args.is_symbol);
    assert!(args.ignore.is_empty());
}

#[test]
fn default_matches_new() {
    let d: CommandArgs = Default::default();
    let n = CommandArgs::new();
    assert_eq!(d.path, n.path);
    assert_eq!(d.key_to_search, n.key_to_search);
    assert_eq!(d.lang, n.lang);
    assert_eq!(d.is_symbol, n.is_symbol);
    assert_eq!(d.ignore, n.ignore);
}
