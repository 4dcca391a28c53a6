use minigrep::search;
use minigrep::search_case_insensitive;

#[test]
fn case_sensitive() {
    let query = "duct";
    let contents = "\
Rust:
safe, fast, productive.
Pick three.
Duck tape.";

    assert_eq!(vec!["safe, fast, productive."], search(query, contents));
}

#[test]
fn case_insensitive() {
    let query = "rUsT";
    let contents = "\
Rust:
safe, fast, productive.
Pick three.
Trust me.";

    assert_eq!(
        vec!["Rust:", "Trust me."],
        search_case_insensitive(query, contents)
    );
}

#[test]
fn search_result_is_ordered_subsequence_of_lines() {
    let contents = "alpha match\nbeta\ngamma match\ndelta\nepsilon match";
    let result = search("match", contents);
    assert_eq!(result, vec!["alpha match", "gamma match", "epsilon match"]);
    for line in &result {
        assert!(line.contains("match"));
    }
}

#[test]
fn case_insensitive_count_at_least_case_sensitive() {
    let query = "Rust";
    let contents = "Rust:\nrust is great.\nRUST!\ntrust\nnothing here";
    let exact = search(query, contents);
    let folded = search_case_insensitive(query, contents);
    assert!(folded.len() >= exact.len());
    assert_eq!(exact, vec!["Rust:"]);
    assert_eq!(folded, vec!["Rust:", "rust is great.", "RUST!", "trust"]);
}

#[test]
fn matchers_are_deterministic() {
    let query = "prod";
    let contents = "Rust:\nsafe, fast, productive.\nPick three.";
    assert_eq!(search(query, contents), search(query, contents));
    assert_eq!(
        search_case_insensitive(query, contents),
        search_case_insensitive(query, contents)
    );
}

#[test]
fn empty_query_matches_every_line() {
    let contents = "Rust:\nsafe, fast, productive.\nPick three.";
    assert_eq!(
        search("", contents),
        vec!["Rust:", "safe, fast, productive.", "Pick three."]
    );
}

#[test]
fn empty_content_yields_no_lines() {
    let empty: Vec<&str> = Vec::new();
    assert_eq!(search("anything", ""), empty);
    assert_eq!(search("", ""), empty);
    assert_eq!(search_case_insensitive("anything", ""), empty);
}

#[test]
fn query_longer_than_line_never_matches_it() {
    let contents = "ab\nabc\nabcd";
    assert_eq!(search("abc", contents), vec!["abc", "abcd"]);
}

#[test]
fn trailing_newline_adds_no_empty_line() {
    assert_eq!(search("", "one\ntwo\n"), vec!["one", "two"]);
}

#[test]
fn final_line_without_newline_is_kept() {
    assert_eq!(search("thr", "one\ntwo\nthree"), vec!["three"]);
}

#[test]
fn carriage_return_before_newline_is_shed() {
    assert_eq!(search("", "one\r\ntwo\r\n"), vec!["one", "two"]);
    assert_eq!(search("two", "one\r\ntwo"), vec!["two"]);
}

#[test]
fn matching_is_pure_substring_no_trimming() {
    let contents = "  padded match  \nword boundary match!";
    assert_eq!(
        search("match", contents),
        vec!["  padded match  ", "word boundary match!"]
    );
    assert_eq!(search("match  ", contents), vec!["  padded match  "]);
    let no_hit: Vec<&str> = Vec::new();
    assert_eq!(search("  match!", contents), no_hit);
    assert_eq!(search_case_insensitive("BOUNDARY MATCH!", contents), vec![
        "word boundary match!"
    ]);
}

#[test]
fn reported_text_keeps_original_case() {
    let contents = "MiXeD CaSe LiNe";
    assert_eq!(
        search_case_insensitive("mixed case", contents),
        vec!["MiXeD CaSe LiNe"]
    );
}
