use search_code::results::SearchResult;
use search_code::search::find_key_file;
use search_code::text::{replace_placeholder, split_lines, str_contains};

fn hits(r: &SearchResult) -> Vec<(String, Vec<(usize, String)>)> {
    r.entries().clone()
}

fn hit_list(pairs: &[(usize, &str)]) -> Vec<(usize, String)> {
    pairs.iter().map(|(n, t)| (*n, t.to_string())).collect()
}

#[test]
fn three_line_file_single_hit() {
    let r = find_key_file("f", "abc\nkeyhit\nxyz", "keyhit");
    assert_eq!(hits(&r), vec![("f".to_string(), hit_list(&[(2, "keyhit")]))]);
}

#[test]
fn file_without_the_key_gets_no_entry() {
    let r = find_key_file("f", "abc\ndef\n", "keyhit");
    assert!(hits(&r).is_empty());
}

#[test]
fn line_numbers_are_one_based_and_increasing() {
    let r = find_key_file("f", "key\nmiss\nthe key again\nkey", "key");
    let entries = hits(&r);
    assert_eq!(
        entries,
        vec![("f".to_string(), hit_list(&[(1, "key"), (3, "the key again"), (4, "key")]))]
    );
    let numbers: Vec<usize> = entries[0].1.iter().map(|h| h.0).collect();
    assert!(numbers.windows(2).all(|w| w[0] < w[1]));
    assert!(numbers.iter().all(|&n| n >= 1));
}

#[test]
fn matched_lines_keep_their_original_text() {
    let r = find_key_file("f", "  let key = 1; // key here", "key");
    assert_eq!(hits(&r), vec![("f".to_string(), hit_list(&[(1, "  let key = 1; // key here")]))]);
}

#[test]
fn crlf_line_endings_are_stripped() {
    let r = find_key_file("f", "top\r\nkey line\r\nbottom\r\n", "key");
    assert_eq!(hits(&r), vec![("f".to_string(), hit_list(&[(2, "key line")]))]);
}

#[test]
fn matching_is_case_sensitive_substring() {
    assert!(str_contains("somekeyhere", "key"));
    assert!(!str_contains("someKEYhere", "key"));
    assert!(str_contains("anything", ""));
    assert!(!str_contains("", "key"));
}

#[test]
fn split_lines_matches_line_reader_behavior() {
    assert_eq!(split_lines("a\nb\n"), vec!["a", "b"]);
    assert_eq!(split_lines("a\nb"), vec!["a", "b"]);
    assert_eq!(split_lines(""), Vec::<String>::new());
    assert_eq!(split_lines("\n"), vec![""]);
    assert_eq!(split_lines("a\r\nb\r"), vec!["a", "b\r"]);
}

#[test]
fn placeholder_substitution_is_verbatim() {
    assert_eq!(replace_placeholder(":? and :?", "key"), "key and key");
    assert_eq!(replace_placeholder("no marker", "key"), "no marker");
    assert_eq!(replace_placeholder(":?", "(unescaped"), "(unescaped");
    assert_eq!(replace_placeholder("x:", "key"), "x:");
}

#[test]
fn push_hits_appends_per_file() {
    let mut r = SearchResult::new();
    r.push_hits("a", hit_list(&[(1, "x")]));
    r.push_hits("b", hit_list(&[(2, "y")]));
    r.push_hits("a", hit_list(&[(3, "z")]));
    assert_eq!(
        hits(&r),
        vec![
            ("a".to_string(), hit_list(&[(1, "x"), (3, "z")])),
            ("b".to_string(), hit_list(&[(2, "y")])),
        ]
    );
}

#[test]
fn empty_hit_lists_are_never_inserted() {
    let mut r = SearchResult::new();
    r.push_hits("a", Vec::new());
    assert!(hits(&r).is_empty());
}

#[test]
fn merge_concatenates_per_file_without_dedup() {
    let mut acc = SearchResult::new();
    acc.push_hits("a", hit_list(&[(1, "x")]));
    acc.push_hits("b", hit_list(&[(2, "y")]));
    let mut partial = SearchResult::new();
    partial.push_hits("a", hit_list(&[(1, "x"), (5, "w")]));
    partial.push_hits("c", hit_list(&[(7, "v")]));
    acc.merge(partial);
    assert_eq!(
        hits(&acc),
        vec![
            ("a".to_string(), hit_list(&[(1, "x"), (1, "x"), (5, "w")])),
            ("b".to_string(), hit_list(&[(2, "y")])),
            ("c".to_string(), hit_list(&[(7, "v")])),
        ]
    );
}

#[test]
fn merge_into_an_empty_accumulator_copies_the_partial() {
    let mut acc = SearchResult::new();
    let partial = find_key_file("f", "key", "key");
    acc.merge(partial);
    assert_eq!(hits(&acc), vec![("f".to_string(), hit_list(&[(1, "key")]))]);
}
