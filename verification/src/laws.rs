//! The matchers' general laws: a match result is a subsequence of the text's
//! lines made only of lines that pass the match test, folding case never
//! loses a literal match, matching is deterministic, and the empty query
//! keeps every line.
use vstd::prelude::*;
use crate::lines::spec_lines;
use crate::search::match_pred;
use crate::search::matching_lines;
use crate::search::matching_lines_case_insensitive;
use crate::text::contains_substring;
use crate::text::lemma_empty_needle_contained;
use crate::text::lemma_lower_preserves_contains;
use crate::text::lower;

verus! {

/// `xs` can be read off `ys` left to right: `ys` with zero or more elements
/// removed, the order of the rest kept.
pub open spec fn is_subsequence_of<A>(xs: Seq<A>, ys: Seq<A>) -> bool
    decreases xs.len() + ys.len(),
{
    if xs.len() == 0 {
        true
    } else if ys.len() == 0 {
        false
    } else if xs.last() == ys.last() {
        is_subsequence_of(xs.drop_last(), ys.drop_last())
    } else {
        is_subsequence_of(xs, ys.drop_last())
    }
}

/// A subsequence stays one when the right end of the longer sequence grows.
pub proof fn lemma_subsequence_extend_right<A>(xs: Seq<A>, ys: Seq<A>, y: A)
    requires
        is_subsequence_of(xs, ys),
    ensures
        is_subsequence_of(xs, ys.push(y)),
    decreases xs.len() + ys.len(), 1int,
{
    if xs.len() > 0 {
        let zs = ys.push(y);
        assert(zs.drop_last() =~= ys);
        if xs.last() == y {
            lemma_subsequence_drop_last(xs, ys);
        }
    }
}

/// Shortening a subsequence at its right end keeps it a subsequence.
pub proof fn lemma_subsequence_drop_last<A>(xs: Seq<A>, ys: Seq<A>)
    requires
        is_subsequence_of(xs, ys),
        xs.len() > 0,
    ensures
        is_subsequence_of(xs.drop_last(), ys),
    decreases xs.len() + ys.len(), 0int,
{
    assert(ys.len() > 0);
    if xs.last() == ys.last() {
        lemma_subsequence_extend_right(xs.drop_last(), ys.drop_last(), ys.last());
        assert(ys.drop_last().push(ys.last()) =~= ys);
    } else {
        lemma_subsequence_drop_last(xs, ys.drop_last());
        lemma_subsequence_extend_right(xs.drop_last(), ys.drop_last(), ys.last());
        assert(ys.drop_last().push(ys.last()) =~= ys);
    }
}

/// What a filter keeps is a subsequence of what it was given.
pub proof fn lemma_filter_is_subsequence<A>(s: Seq<A>, pred: spec_fn(A) -> bool)
    ensures
        is_subsequence_of(s.filter(pred), s),
    decreases s.len(),
{
    reveal(Seq::filter);
    if s.len() > 0 {
        let rest = s.drop_last();
        lemma_filter_is_subsequence(rest, pred);
        if pred(s.last()) {
            assert(s.filter(pred) == rest.filter(pred).push(s.last()));
            assert(s.filter(pred).drop_last() =~= rest.filter(pred));
        } else {
            lemma_subsequence_extend_right(rest.filter(pred), rest, s.last());
            assert(rest.push(s.last()) =~= s);
        }
    }
}

/// A pointwise weaker test keeps at least as many elements.
pub proof fn lemma_filter_weaker_keeps_more<A>(s: Seq<A>, p: spec_fn(A) -> bool, q: spec_fn(
    A,
) -> bool)
    requires
        forall|x: A| #[trigger] p(x) ==> q(x),
    ensures
        s.filter(p).len() <= s.filter(q).len(),
    decreases s.len(),
{
    reveal(Seq::filter);
    if s.len() > 0 {
        lemma_filter_weaker_keeps_more(s.drop_last(), p, q);
    }
}

/// A test that every element passes keeps the whole sequence.
pub proof fn lemma_filter_all_pass<A>(s: Seq<A>, pred: spec_fn(A) -> bool)
    requires
        forall|i: int| 0 <= i < s.len() ==> pred(#[trigger] s[i]),
    ensures
        s.filter(pred) == s,
    decreases s.len(),
{
    reveal(Seq::filter);
    if s.len() > 0 {
        lemma_filter_all_pass(s.drop_last(), pred);
        assert(s.filter(pred) =~= s);
    }
}

/// A literal match result is a subsequence of the content's lines, in the
/// original order, and every reported line literally contains the query.
pub proof fn lemma_search_shape(query: Seq<char>, content: Seq<char>)
    ensures
        is_subsequence_of(matching_lines(query, content), spec_lines(content)),
        forall|i: int|
            0 <= i < matching_lines(query, content).len() ==> contains_substring(
                #[trigger] matching_lines(query, content)[i],
                query,
            ),
{
    lemma_filter_is_subsequence(spec_lines(content), match_pred(query, false));
    let kept = matching_lines(query, content);
    assert forall|i: int| 0 <= i < kept.len() implies contains_substring(
        #[trigger] kept[i],
        query,
    ) by {
        spec_lines(content).lemma_filter_pred(match_pred(query, false), i);
    }
}

/// The case-folding matcher, too, reports a subsequence of the content's
/// lines, in the original order.
pub proof fn lemma_search_case_insensitive_shape(query: Seq<char>, content: Seq<char>)
    ensures
        is_subsequence_of(matching_lines_case_insensitive(query, content), spec_lines(content)),
        forall|i: int|
            0 <= i < matching_lines_case_insensitive(query, content).len() ==> contains_substring(
                lower(#[trigger] matching_lines_case_insensitive(query, content)[i]),
                lower(query),
            ),
{
    lemma_filter_is_subsequence(spec_lines(content), match_pred(lower(query), true));
    let kept = matching_lines_case_insensitive(query, content);
    assert forall|i: int| 0 <= i < kept.len() implies contains_substring(
        lower(#[trigger] kept[i]),
        lower(query),
    ) by {
        spec_lines(content).lemma_filter_pred(match_pred(lower(query), true), i);
    }
}

/// Folding case never loses a match: the case-insensitive matcher reports at
/// least as many lines as the literal one, on any query and content.
pub proof fn lemma_case_insensitive_keeps_literal_count(query: Seq<char>, content: Seq<char>)
    ensures
        matching_lines(query, content).len() <= matching_lines_case_insensitive(
            query,
            content,
        ).len(),
{
    let literal = match_pred(query, false);
    let folded = match_pred(lower(query), true);
    assert forall|line: Seq<char>| #[trigger] literal(line) implies folded(line) by {
        lemma_lower_preserves_contains(line, query);
    }
    lemma_filter_weaker_keeps_more(spec_lines(content), literal, folded);
}

/// Both matchers are functions of their inputs alone: equal queries and equal
/// contents always yield equal results.
pub proof fn lemma_matchers_deterministic(
    query_a: Seq<char>,
    content_a: Seq<char>,
    query_b: Seq<char>,
    content_b: Seq<char>,
)
    requires
        query_a == query_b,
        content_a == content_b,
    ensures
        matching_lines(query_a, content_a) == matching_lines(query_b, content_b),
        matching_lines_case_insensitive(query_a, content_a) == matching_lines_case_insensitive(
            query_b,
            content_b,
        ),
{
}

/// The empty query matches every line: a literal search for it returns all
/// lines of the content, unchanged and in order.
pub proof fn lemma_empty_query_keeps_all_lines(content: Seq<char>)
    ensures
        matching_lines(Seq::<char>::empty(), content) == spec_lines(content),
{
    let pred = match_pred(Seq::<char>::empty(), false);
    let all = spec_lines(content);
    assert forall|i: int| 0 <= i < all.len() implies pred(#[trigger] all[i]) by {
        lemma_empty_needle_contained(all[i]);
    }
    lemma_filter_all_pass(all, pred);
}

} // verus!
