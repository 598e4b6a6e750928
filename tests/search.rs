use minigrep::search::search_lines;
use minigrep::text::{chars_of, contains_str};
use minigrep::{search, search_case_insensitive};

#[test]
fn case_sensitive() {
    let query = "duct";
    let contents = "\
Rust:
safe, fast, productive.
Pick three.
Duct tape.";

    assert_eq!(vec!["safe, fast, productive."], search(query, contents));
}

#[test]
fn case_insensitive() {
    let query = "rUsT";
    let contents = "\
Rust:
safe, fast, productive.
Pick three.
Trust me.";

    assert_eq!(
        vec!["Rust:", "Trust me."],
        search_case_insensitive(query, contents)
    );
}

#[test]
fn case_insensitive_mixed_query() {
    let contents = "Rust:\nsafe, fast, productive.\nPick three.\nTrust me.";
    assert_eq!(vec!["Rust:", "Trust me."], search_lines("RuSt", contents, true));
}

#[test]
fn case_sensitive_excludes_capitalised_line() {
    let contents = "Rust:\nsafe, fast, productive.\nPick three.\nDuct tape.";
    assert_eq!(vec!["safe, fast, productive."], search_lines("duct", contents, false));
}

#[test]
fn empty_query_returns_every_line() {
    let contents = "one\n\ntwo three\nfour";
    assert_eq!(vec!["one", "", "two three", "four"], search("", contents));
}

#[test]
fn empty_contents_give_no_lines() {
    let empty: Vec<&str> = Vec::new();
    assert_eq!(empty, search("query", ""));
    assert_eq!(empty, search_case_insensitive("query", ""));
    assert_eq!(empty, search("", ""));
}

#[test]
fn no_match_is_empty() {
    let empty: Vec<&str> = Vec::new();
    assert_eq!(empty, search("zebra", "alpha\nbeta\ngamma"));
}

#[test]
fn lines_keep_text_order_and_duplicates() {
    let contents = "ab\ncd\nab\nxaby";
    assert_eq!(vec!["ab", "ab", "xaby"], search("ab", contents));
}

#[test]
fn trailing_newline_opens_no_line() {
    assert_eq!(vec!["a", "b"], search("", "a\nb\n"));
    assert_eq!(vec![""], search("", "\n"));
}

#[test]
fn carriage_return_before_newline_is_dropped() {
    assert_eq!(vec!["one", "two"], search("", "one\r\ntwo\r\n"));
    assert_eq!(vec!["x\r"], search("x", "x\r"));
    assert_eq!(vec!["a\rb"], search("a\r", "a\rb\nc"));
}

#[test]
fn query_longer_than_line() {
    let empty: Vec<&str> = Vec::new();
    assert_eq!(empty, search("longer query", "short\nlines"));
}

#[test]
fn whole_line_query_matches() {
    assert_eq!(vec!["exact"], search("exact", "exact\nexac\nxact"));
}

#[test]
fn non_ascii_lines() {
    let contents = "Grüße\nÄrger\nstraße";
    assert_eq!(vec!["Grüße", "straße"], search("ße", contents));
    assert_eq!(vec!["Ärger"], search_case_insensitive("äR", contents));
}

#[test]
fn contains_str_cases() {
    assert!(contains_str("productive", "duct"));
    assert!(!contains_str("Duct tape", "duct"));
    assert!(contains_str("anything", ""));
    assert!(contains_str("", ""));
    assert!(!contains_str("", "a"));
    assert!(contains_str("abc", "abc"));
    assert!(!contains_str("ab", "abc"));
    assert!(contains_str("aaab", "aab"));
}

#[test]
fn chars_of_copies_characters() {
    assert_eq!(vec!['a', 'ß', '\n'], chars_of("aß\n"));
    assert_eq!(Vec::<char>::new(), chars_of(""));
}
