//! The line matchers: report every line of a text that contains the query,
//! either literally or under simple case folding, in file order and with the
//! original line text.
use vstd::prelude::*;
use crate::config::Config;
use crate::lines::spec_lines;
use crate::lines::split_lines;
use crate::text::chars_of;
use crate::text::contains_chars;
use crate::text::contains_substring;
use crate::text::lower;
use crate::text::lower_chars_of;

verus! {

/// The test one line must pass to be reported: it contains the query, after
/// folding the line's case when asked to (a folded line is then held against
/// an already folded query).
pub open spec fn match_pred(query: Seq<char>, fold_case: bool) -> spec_fn(Seq<char>) -> bool {
    |line: Seq<char>|
        contains_substring(
            if fold_case {
                lower(line)
            } else {
                line
            },
            query,
        )
}

/// The lines of `content` that literally contain `query`, in file order.
pub open spec fn matching_lines(query: Seq<char>, content: Seq<char>) -> Seq<Seq<char>> {
    spec_lines(content).filter(match_pred(query, false))
}

/// The lines of `content` that contain `query` once both are case folded, in
/// file order and with their original, unfolded text.
pub open spec fn matching_lines_case_insensitive(query: Seq<char>, content: Seq<char>) -> Seq<
    Seq<char>,
> {
    spec_lines(content).filter(match_pred(lower(query), true))
}

/// Keeps, in order, the lines that contain `needle`, folding each line's case
/// first when `fold_case` is set.
fn matching_subset<'a>(lines: &Vec<&'a str>, needle: &Vec<char>, fold_case: bool) -> (matches: Vec<
    &'a str,
>)
    ensures
        matches@.map_values(|line: &str| line@) == lines@.map_values(|line: &str| line@).filter(
            match_pred(needle@, fold_case),
        ),
{
    let ghost all = lines@.map_values(|line: &str| line@);
    let ghost pred = match_pred(needle@, fold_case);
    let mut matches: Vec<&'a str> = Vec::new();
    let mut k: usize = 0;
    proof {
        reveal(Seq::filter);
        assert(all.take(0) =~= Seq::<Seq<char>>::empty());
        assert(matches@.map_values(|line: &str| line@) =~= Seq::<Seq<char>>::empty().filter(pred));
    }
    while k < lines.len()
        invariant
            k <= lines@.len(),
            all == lines@.map_values(|line: &str| line@),
            pred == match_pred(needle@, fold_case),
            matches@.map_values(|line: &str| line@) == all.take(k as int).filter(pred),
        decreases lines@.len() - k,
    {
        let line = lines[k];
        let line_chars = if fold_case {
            lower_chars_of(line)
        } else {
            chars_of(line)
        };
        let hit = contains_chars(&line_chars, needle);
        proof {
            assert(all[k as int] == line@);
            assert(hit == pred(all[k as int]));
        }
        if hit {
            let ghost before = matches@;
            matches.push(line);
            proof {
                assert(matches@.map_values(|l: &str| l@) =~= before.map_values(
                    |l: &str| l@,
                ).push(line@));
            }
        }
        proof {
            all.lemma_take_succ_push(k as int);
            all.take(k as int).lemma_filter_push(all[k as int], pred);
        }
        k = k + 1;
    }
    proof {
        assert(all.take(lines@.len() as int) =~= all);
    }
    matches
}

/// Every line of `contents` that contains `query` as a contiguous substring,
/// in file order and with its exact original text.
pub fn search<'a>(query: &str, contents: &'a str) -> (matches: Vec<&'a str>)
    ensures
        matches@.map_values(|line: &str| line@) == matching_lines(query@, contents@),
{
    let needle = chars_of(query);
    let lines = split_lines(contents);
    matching_subset(&lines, &needle, false)
}

/// Every line of `contents` that contains `query` once both are case folded,
/// in file order; the reported text is the original, unfolded line.
pub fn search_case_insensitive<'a>(query: &str, contents: &'a str) -> (matches: Vec<&'a str>)
    ensures
        matches@.map_values(|line: &str| line@) == matching_lines_case_insensitive(
            query@,
            contents@,
        ),
{
    let needle = lower_chars_of(query);
    let lines = split_lines(contents);
    matching_subset(&lines, &needle, true)
}

/// One whole search run over already loaded file content: the resolved
/// configuration picks the matcher, and the matching lines come back in file
/// order. Reading the file and printing the result stay with the caller.
pub fn run<'a>(config: &Config, contents: &'a str) -> (matches: Vec<&'a str>)
    ensures
        matches@.map_values(|line: &str| line@) == if config.ignore_case {
            matching_lines_case_insensitive(config.query@, contents@)
        } else {
            matching_lines(config.query@, contents@)
        },
{
    if config.ignore_case {
        search_case_insensitive(config.query.as_str(), contents)
    } else {
        search(config.query.as_str(), contents)
    }
}

} // verus!
