//! Line splitting: a line is the text between successive newline characters,
//! a carriage return directly before a newline belongs to the terminator, a
//! trailing newline produces no spurious empty final line, and a final line
//! without a terminator is still included.
use vstd::prelude::*;
use vstd::string::StrSliceExecFns;

verus! {

/// The position of the first newline character, if any.
pub open spec fn first_newline(s: Seq<char>) -> Option<int>
    decreases s.len(),
{
    if s.len() == 0 {
        None
    } else if s[0] == '\n' {
        Some(0int)
    } else {
        match first_newline(s.drop_first()) {
            Some(j) => Some(j + 1),
            None => None,
        }
    }
}

/// A carriage return directly before a newline belongs to the terminator, so
/// a segment that ends with one sheds it.
pub open spec fn strip_cr(segment: Seq<char>) -> Seq<char> {
    if segment.len() > 0 && segment[segment.len() - 1] == '\r' {
        segment.drop_last()
    } else {
        segment
    }
}

/// The lines of a text: the segments between newline characters, each shorn
/// of a terminating carriage return; empty text has no lines, and a final
/// segment without a terminator is kept as it stands.
pub open spec fn spec_lines(s: Seq<char>) -> Seq<Seq<char>>
    decreases s.len(),
    via spec_lines_decreases
{
    if s.len() == 0 {
        Seq::empty()
    } else {
        match first_newline(s) {
            Some(i) => seq![strip_cr(s.subrange(0, i))] + spec_lines(
                s.subrange(i + 1, s.len() as int),
            ),
            None => seq![s],
        }
    }
}

#[via_fn]
proof fn spec_lines_decreases(s: Seq<char>) {
    lemma_first_newline_characterization(s);
}

/// `first_newline` finds exactly the first newline: the position it returns
/// holds one and nothing before it does, and it returns nothing only when the
/// text holds none at all.
pub proof fn lemma_first_newline_characterization(s: Seq<char>)
    ensures
        match first_newline(s) {
            Some(i) => 0 <= i < s.len() && s[i] == '\n' && forall|j: int|
                0 <= j < i ==> s[j] != '\n',
            None => forall|j: int| 0 <= j < s.len() ==> s[j] != '\n',
        },
    decreases s.len(),
{
    if s.len() > 0 && s[0] != '\n' {
        let t = s.drop_first();
        lemma_first_newline_characterization(t);
        assert(forall|k: int| 1 <= k < s.len() ==> s[k] == t[k - 1]);
    }
}

/// The converse: a newline position with none before it is what
/// `first_newline` returns.
pub proof fn lemma_first_newline_at(s: Seq<char>, i: int)
    requires
        0 <= i < s.len(),
        s[i] == '\n',
        forall|j: int| 0 <= j < i ==> s[j] != '\n',
    ensures
        first_newline(s) == Some(i),
    decreases s.len(),
{
    if i > 0 {
        let t = s.drop_first();
        assert(forall|k: int| 1 <= k < s.len() ==> s[k] == t[k - 1]);
        lemma_first_newline_at(t, i - 1);
    }
}

/// A text without any newline is one single line.
pub proof fn lemma_no_newline_single_line(s: Seq<char>)
    requires
        s.len() > 0,
        forall|j: int| 0 <= j < s.len() ==> s[j] != '\n',
    ensures
        spec_lines(s) == seq![s],
{
    lemma_first_newline_characterization(s);
    if first_newline(s) is Some {
        let i = first_newline(s)->Some_0;
        assert(s[i] == '\n');
        assert(false);
    }
}

/// Splits a text into its lines.
pub fn split_lines<'a>(contents: &'a str) -> (lines: Vec<&'a str>)
    ensures
        lines@.map_values(|line: &str| line@) == spec_lines(contents@),
{
    let n = contents.unicode_len();
    let mut lines: Vec<&'a str> = Vec::new();
    let mut start: usize = 0;
    proof {
        assert(contents@.subrange(0, n as int) =~= contents@);
        assert(lines@.map_values(|line: &str| line@) =~= Seq::<Seq<char>>::empty());
        assert(Seq::<Seq<char>>::empty() + spec_lines(contents@) =~= spec_lines(contents@));
    }
    while start < n
        invariant
            start <= n,
            n == contents@.len(),
            spec_lines(contents@) == lines@.map_values(|line: &str| line@) + spec_lines(
                contents@.subrange(start as int, n as int),
            ),
        decreases n - start,
    {
        let ghost rest = contents@.subrange(start as int, n as int);
        let mut i: usize = start;
        while i < n && contents.get_char(i) != '\n'
            invariant
                start <= i <= n,
                n == contents@.len(),
                forall|j: int| start <= j < i ==> contents@[j] != '\n',
            decreases n - i,
        {
            i = i + 1;
        }
        if i < n {
            // A newline stands at `i`; the segment before it is a line, less
            // any carriage return directly before the terminator.
            let end = if i > start && contents.get_char(i - 1) == '\r' {
                i - 1
            } else {
                i
            };
            let line = contents.substring_char(start, end);
            proof {
                lemma_first_newline_at(rest, i - start);
                assert(rest.subrange(0, i - start) =~= contents@.subrange(start as int, i as int));
                assert(strip_cr(rest.subrange(0, i - start)) =~= line@);
                assert(rest.subrange(i - start + 1, rest.len() as int) =~= contents@.subrange(
                    i + 1,
                    n as int,
                ));
                assert(spec_lines(rest) == seq![line@] + spec_lines(
                    contents@.subrange(i + 1, n as int),
                ));
                assert((lines@.push(line)).map_values(|l: &str| l@) =~= lines@.map_values(
                    |l: &str| l@,
                ).push(line@));
                assert(lines@.map_values(|l: &str| l@) + spec_lines(rest) =~= (lines@.push(
                    line,
                )).map_values(|l: &str| l@) + spec_lines(contents@.subrange(i + 1, n as int)));
            }
            lines.push(line);
            start = i + 1;
        } else {
            // No newline remains: the rest is the final line, kept as it is.
            let line = contents.substring_char(start, n);
            proof {
                assert(rest.len() > 0);
                lemma_no_newline_single_line(rest);
                assert(rest =~= line@);
                assert((lines@.push(line)).map_values(|l: &str| l@) =~= lines@.map_values(
                    |l: &str| l@,
                ).push(line@));
                assert(lines@.map_values(|l: &str| l@) + spec_lines(rest) =~= (lines@.push(
                    line,
                )).map_values(|l: &str| l@) + spec_lines(Seq::<char>::empty()));
                assert(contents@.subrange(n as int, n as int) =~= Seq::<char>::empty());
            }
            lines.push(line);
            start = n;
        }
    }
    proof {
        assert(contents@.subrange(n as int, n as int) =~= Seq::<char>::empty());
        assert(lines@.map_values(|line: &str| line@) + Seq::<Seq<char>>::empty()
            =~= lines@.map_values(|line: &str| line@));
    }
    lines
}

} // verus!
