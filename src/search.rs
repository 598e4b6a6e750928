//! The search engine: the lines of a text that contain a query, in text order.
use vstd::prelude::*;
use crate::text::{chars_of, contains, occurs_at, contains_in, line_text, lines, lines_from, next_newline};

verus! {

/// The lowercase form of a text, as `str::to_lowercase` computes it.
pub uninterp spec fn lower_of(s: Seq<char>) -> Seq<char>;

/// Relies on `str::to_lowercase`: its result is a function of the characters
/// of `s` alone.
#[verifier::external_body]
fn lowercase(s: &str) -> (r: String)
    ensures
        r@ == lower_of(s@),
{
    s.to_lowercase()
}

/// Whether `line` is a match for `query`: it holds `query` as a piece, after
/// both are lowercased when `ignore_case` is set.
pub open spec fn line_matches(line: Seq<char>, query: Seq<char>, ignore_case: bool) -> bool {
    if ignore_case {
        contains(lower_of(line), lower_of(query))
    } else {
        contains(line, query)
    }
}

/// `line_matches` as a predicate on lines.
pub open spec fn match_pred(query: Seq<char>, ignore_case: bool) -> spec_fn(Seq<char>) -> bool {
    |line: Seq<char>| line_matches(line, query, ignore_case)
}

/// The lines of `text` that match `query`, in the order of the text.
pub open spec fn matching_lines(query: Seq<char>, text: Seq<char>, ignore_case: bool) -> Seq<
    Seq<char>,
> {
    lines(text).filter(match_pred(query, ignore_case))
}

/// The characters of each string of `v`.
pub open spec fn views_of(v: Seq<&str>) -> Seq<Seq<char>> {
    v.map_values(|s: &str| s@)
}

/// The lines of `contents` that contain `query`, ignoring letter case when
/// `ignore_case` is set. Each line is a slice of `contents`, without its
/// terminator.
pub fn search_lines<'a>(query: &str, contents: &'a str, ignore_case: bool) -> (r: Vec<&'a str>)
    ensures
        views_of(r@) == matching_lines(query@, contents@, ignore_case),
{
    let s = chars_of(contents);
    let q = chars_of(query);
    let lowered_query = lowercase(query);
    let lq = chars_of(lowered_query.as_str());
    let n = s.len();
    let ghost pred = match_pred(query@, ignore_case);
    let mut res: Vec<&'a str> = Vec::new();
    let mut pos: usize = 0;
    let ghost mut done: Seq<Seq<char>> = Seq::empty();
    assert(done + lines_from(s@, 0) =~= lines(s@));
    while pos < n
        invariant
            n == s.len(),
            s@ == contents@,
            q@ == query@,
            lq@ == lower_of(query@),
            pred == match_pred(query@, ignore_case),
            pos <= n,
            lines(s@) == done + lines_from(s@, pos as int),
            views_of(res@) == done.filter(pred),
        decreases n - pos,
    {
        let mut stop: usize = pos;
        while stop < n && s[stop] != '\n'
            invariant
                n == s.len(),
                pos <= stop <= n,
                next_newline(s@, pos as int) == next_newline(s@, stop as int),
            decreases n - stop,
        {
            stop += 1;
        }
        assert(stop == next_newline(s@, pos as int));
        let mut end: usize = stop;
        if pos < stop && stop < n && s[stop - 1] == '\r' {
            end = stop - 1;
        }
        let ghost line = line_text(s@, pos as int, stop as int);
        assert(line == s@.subrange(pos as int, end as int));
        let keep = if ignore_case {
            let piece: &str = contents.substring_char(pos, end);
            let lowered = lowercase(piece);
            let low = chars_of(lowered.as_str());
            let k = contains_in(&low, 0, low.len(), &lq);
            assert(low@.subrange(0, low@.len() as int) =~= low@);
            k
        } else {
            contains_in(&s, pos, end, &q)
        };
        assert(keep == pred(line));
        let ghost before = res@;
        if keep {
            let piece: &'a str = contents.substring_char(pos, end);
            res.push(piece);
            assert(views_of(res@) =~= views_of(before).push(line));
        }
        proof {
            done.lemma_filter_push(line, pred);
            assert(views_of(res@) == done.push(line).filter(pred));
            assert(lines_from(s@, pos as int) == seq![line] + lines_from(s@, stop + 1));
            assert(done + lines_from(s@, pos as int) =~= done.push(line) + lines_from(
                s@,
                stop + 1,
            ));
            done = done.push(line);
        }
        pos = if stop < n {
            stop + 1
        } else {
            n
        };
    }
    assert(done + lines_from(s@, pos as int) =~= done);
    res
}

/// The lines of `contents` that contain `query`, letter case counting.
#[must_use]
pub fn search<'a>(query: &str, contents: &'a str) -> (r: Vec<&'a str>)
    ensures
        views_of(r@) == matching_lines(query@, contents@, false),
{
    search_lines(query, contents, false)
}

/// The lines of `contents` that contain `query` when both are lowercased.
#[must_use]
pub fn search_case_insensitive<'a>(query: &str, contents: &'a str) -> (r: Vec<&'a str>)
    ensures
        views_of(r@) == matching_lines(query@, contents@, true),
{
    search_lines(query, contents, true)
}

proof fn lemma_filter_keeps_all(s: Seq<Seq<char>>, pred: spec_fn(Seq<char>) -> bool)
    requires
        forall|i: int| 0 <= i < s.len() ==> pred(s[i]),
    ensures
        s.filter(pred) == s,
    decreases s.len(),
{
    if s.len() == 0 {
        reveal(Seq::filter);
    } else {
        let init = s.drop_last();
        lemma_filter_keeps_all(init, pred);
        init.lemma_filter_push(s.last(), pred);
        assert(init.push(s.last()) =~= s);
    }
}

/// The empty query is a piece of every line, so a case-sensitive search for
/// it returns every line of the text.
pub proof fn lemma_empty_query_matches_every_line(text: Seq<char>)
    ensures
        matching_lines(Seq::empty(), text, false) == lines(text),
{
    let pred = match_pred(Seq::empty(), false);
    assert forall|i: int| 0 <= i < lines(text).len() implies pred(lines(text)[i]) by {
        let line = lines(text)[i];
        assert(line.subrange(0, 0) =~= Seq::<char>::empty());
        assert(occurs_at(line, Seq::empty(), 0));
    }
    lemma_filter_keeps_all(lines(text), pred);
}

/// An empty text has no lines, so a search in it finds nothing, whatever the
/// query and the case rule.
pub proof fn lemma_empty_text_has_no_matches(query: Seq<char>, ignore_case: bool)
    ensures
        matching_lines(query, Seq::empty(), ignore_case) == Seq::<Seq<char>>::empty(),
{
    reveal(Seq::filter);
    assert(lines(Seq::<char>::empty()) == Seq::<Seq<char>>::empty());
}

/// A search keeps exactly the lines that match: every line returned is a line
/// of the text and matches the query, and every matching line of the text is
/// returned.
pub proof fn lemma_matches_are_exactly_the_matching_lines(
    query: Seq<char>,
    text: Seq<char>,
    ignore_case: bool,
)
    ensures
        forall|i: int|
            0 <= i < matching_lines(query, text, ignore_case).len() ==> {
                let line = #[trigger] matching_lines(query, text, ignore_case)[i];
                lines(text).contains(line) && line_matches(line, query, ignore_case)
            },
        forall|line: Seq<char>|
            lines(text).contains(line) && line_matches(line, query, ignore_case)
                ==> #[trigger] matching_lines(query, text, ignore_case).contains(line),
{
    let pred = match_pred(query, ignore_case);
    let found = matching_lines(query, text, ignore_case);
    assert forall|i: int| 0 <= i < found.len() implies {
        let line = #[trigger] found[i];
        lines(text).contains(line) && line_matches(line, query, ignore_case)
    } by {
        lines(text).lemma_filter_pred(pred, i);
        assert(found.contains(found[i]));
        lines(text).lemma_filter_contains_rev(pred, found[i]);
    }
    assert forall|line: Seq<char>|
        lines(text).contains(line) && line_matches(line, query, ignore_case)
            implies #[trigger] found.contains(line) by {
        let j = choose|j: int| 0 <= j < lines(text).len() && lines(text)[j] == line;
        lines(text).lemma_filter_contains(pred, j);
    }
}

} // verus!
