use minigrep::{matching_lines, search, search_case_insensitive, Config};

#[test]
fn case_sensitive() {
    let query = "duct";
    let content = "\
Rust:
safe, fast, productive.
Pick three
Duct tape.";
    assert_eq!(vec!["safe, fast, productive."], search(query, content));
}

#[test]
fn case_insensitive() {
    let query = "rUsT";
    let content = "\
Rust:
safe, fast, productive.
Pick three
Trust me.";
    assert_eq!(vec!["Rust:", "Trust me."], search_case_insensitive(query, content));
}

#[test]
fn empty_query_keeps_every_line() {
    let content = "one\ntwo\n\nthree";
    let all = vec!["one", "two", "", "three"];
    assert_eq!(all, search("", content));
    assert_eq!(all, search_case_insensitive("", content));
}

#[test]
fn searching_twice_gives_the_same_lines() {
    let content = "alpha\nBeta\nalphabet\ngamma";
    assert_eq!(search("alpha", content), search("alpha", content));
    assert_eq!(
        search_case_insensitive("BET", content),
        search_case_insensitive("BET", content)
    );
    assert_eq!(vec!["Beta", "alphabet"], search_case_insensitive("BET", content));
}

#[test]
fn exact_matches_are_among_folded_matches() {
    let content = "Rust:\nrust belt\nRUST\ntrusty";
    let exact = search("rust", content);
    let folded = search_case_insensitive("rust", content);
    assert_eq!(vec!["rust belt", "trusty"], exact);
    assert_eq!(vec!["Rust:", "rust belt", "RUST", "trusty"], folded);
    for line in &exact {
        assert!(folded.contains(line));
    }
}

#[test]
fn final_sigma_breaks_folded_match() {
    let content = "\u{391}\u{3a3}";
    assert_eq!(vec!["\u{391}\u{3a3}"], search("\u{3a3}", content));
    assert!(search_case_insensitive("\u{3a3}", content).is_empty());
}

#[test]
fn no_match_gives_no_lines() {
    let empty: Vec<&str> = Vec::new();
    assert_eq!(empty, search("zebra", "one\ntwo"));
    assert_eq!(empty, search_case_insensitive("ZEBRA", "one\ntwo"));
}

#[test]
fn empty_text_has_no_lines() {
    let empty: Vec<&str> = Vec::new();
    assert_eq!(empty, search("", ""));
    assert_eq!(empty, search_case_insensitive("", ""));
}

#[test]
fn line_endings_are_dropped() {
    let content = "first\r\nsecond\nthird\r\n";
    assert_eq!(vec!["first", "second", "third"], search("", content));
    assert_eq!(vec![""], search("", "\n"));
    assert_eq!(vec!["a\r"], search("a", "a\r"));
}

#[test]
fn a_line_with_two_matches_appears_once() {
    assert_eq!(vec!["to be or not to be"], search("be", "to be or not to be\nquestion"));
}

#[test]
fn matching_lines_goes_by_keys() {
    let lines = ["First", "second", "Third"];
    let keys = ["first", "second", "third"];
    assert_eq!(vec!["First", "Third"], matching_lines(&lines, &keys, "ir"));
    assert_eq!(vec!["second"], matching_lines(&lines, &keys, "sec"));
    assert_eq!(vec!["First", "second", "Third"], matching_lines(&lines, &keys, ""));
}

#[test]
fn config_picks_the_search() {
    let args: Vec<String> = vec!["prog".to_string(), "rust".to_string(), "f.txt".to_string()];
    let content = "Rust:\ntrust";
    let exact = Config::new(&args, false).unwrap();
    assert!(exact.case_sensitive);
    assert_eq!(vec!["trust"], exact.search_in(content));
    let folded = Config::new(&args, true).unwrap();
    assert!(!folded.case_sensitive);
    assert_eq!(vec!["Rust:", "trust"], folded.search_in(content));
}
