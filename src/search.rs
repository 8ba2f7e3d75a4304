//! Selecting the lines of a text that hold a query.
use vstd::prelude::*;

use crate::text::{
    contains_chars, has_substring, lines_in, lines_of, lower_of, lowercase, views,
};

verus! {

/// The lines whose key holds `needle`, in their order; `keys[i]` is the key
/// of `lines[i]`.
pub open spec fn select_lines(
    lines: Seq<Seq<char>>,
    keys: Seq<Seq<char>>,
    needle: Seq<char>,
) -> Seq<Seq<char>>
    decreases lines.len(),
{
    if lines.len() == 0 {
        seq![]
    } else {
        let before = select_lines(lines.drop_last(), keys, needle);
        if contains_chars(keys[lines.len() - 1], needle) {
            before.push(lines.last())
        } else {
            before
        }
    }
}

/// The lines of `text` that hold `query` exactly.
pub open spec fn found_lines(query: Seq<char>, text: Seq<char>) -> Seq<Seq<char>> {
    select_lines(lines_of(text), lines_of(text), query)
}

/// Each line lowercased.
pub open spec fn lowered(lines: Seq<Seq<char>>) -> Seq<Seq<char>> {
    lines.map_values(|l: Seq<char>| lower_of(l))
}

/// The lines of `text` that hold `query` once both are lowercased, as they
/// stand in `text`.
pub open spec fn folded_lines(query: Seq<char>, text: Seq<char>) -> Seq<Seq<char>> {
    select_lines(
        lines_of(text),
        lowered(lines_of(text)),
        lower_of(query),
    )
}

/// The lines whose key holds `needle`, in their order, each taken from
/// `lines`; `keys[i]` is the key of `lines[i]`.
pub fn matching_lines<'a>(lines: &[&'a str], keys: &[&str], needle: &str) -> (r: Vec<&'a str>)
    requires
        lines@.len() == keys@.len(),
    ensures
        views(r@) == select_lines(views(lines@), views(keys@), needle@),
{
    let mut r: Vec<&'a str> = Vec::new();
    let n = lines.len();
    let mut i: usize = 0;
    while i < n
        invariant
            n == lines@.len(),
            n == keys@.len(),
            i <= n,
            views(r@) == select_lines(views(lines@).take(i as int), views(keys@), needle@),
        decreases n - i,
    {
        assert(views(lines@).take(i + 1).drop_last() == views(lines@).take(i as int));
        if has_substring(keys[i], needle) {
            r.push(lines[i]);
            assert(views(r@) == views(r@).drop_last().push(lines[i as int]@));
        }
        i = i + 1;
    }
    assert(views(lines@).take(n as int) == views(lines@));
    r
}

/// Empty `needle`: every line is kept.
proof fn lemma_select_empty_needle(lines: Seq<Seq<char>>, keys: Seq<Seq<char>>, needle: Seq<char>)
    requires
        needle.len() == 0,
        lines.len() <= keys.len(),
    ensures
        select_lines(lines, keys, needle) == lines,
    decreases lines.len(),
{
    if lines.len() > 0 {
        lemma_select_empty_needle(lines.drop_last(), keys, needle);
        let key = keys[lines.len() - 1];
        assert(key.subrange(0, 0 + needle.len() as int) =~= needle);
        assert(contains_chars(key, needle));
        assert(lines.drop_last().push(lines.last()) == lines);
    } else {
        assert(lines == Seq::<Seq<char>>::empty());
    }
}

/// The lines of `content` that hold `query`, case-sensitively, in their order.
pub fn search<'a>(query: &str, content: &'a str) -> (r: Vec<&'a str>)
    ensures
        views(r@) == found_lines(query@, content@),
        query@.len() == 0 ==> views(r@) == lines_of(content@),
{
    let lines = lines_in(content);
    let r = matching_lines(lines.as_slice(), lines.as_slice(), query);
    proof {
        if query@.len() == 0 {
            lemma_select_empty_needle(lines_of(content@), lines_of(content@), query@);
        }
    }
    r
}

/// The lines of `content` that hold `query` once both are lowercased, in
/// their order and as they stand in `content`.
pub fn search_case_insensitive<'a>(query: &str, content: &'a str) -> (r: Vec<&'a str>)
    ensures
        views(r@) == folded_lines(query@, content@),
        query@.len() == 0 ==> views(r@) == lines_of(content@),
{
    let lines = lines_in(content);
    let folded_query = lowercase(query);
    let n = lines.len();
    let mut folded: Vec<String> = Vec::new();
    let mut i: usize = 0;
    while i < n
        invariant
            n == lines@.len(),
            i <= n,
            folded@.len() == i,
            forall|j: int| 0 <= j < i ==> #[trigger] folded@[j]@ == lower_of(lines@[j]@),
        decreases n - i,
    {
        folded.push(lowercase(lines[i]));
        i = i + 1;
    }
    let mut keys: Vec<&str> = Vec::new();
    let mut i: usize = 0;
    while i < n
        invariant
            n == lines@.len(),
            n == folded@.len(),
            i <= n,
            keys@.len() == i,
            forall|j: int| 0 <= j < n ==> #[trigger] folded@[j]@ == lower_of(lines@[j]@),
            forall|j: int| 0 <= j < i ==> #[trigger] keys@[j]@ == lower_of(lines@[j]@),
        decreases n - i,
    {
        keys.push(folded[i].as_str());
        i = i + 1;
    }
    assert(views(keys@) =~= lowered(views(lines@)));
    let r = matching_lines(lines.as_slice(), keys.as_slice(), folded_query.as_str());
    proof {
        if query@.len() == 0 {
            lemma_select_empty_needle(
                lines_of(content@),
                lowered(lines_of(content@)),
                folded_query@,
            );
        }
    }
    r
}

/// Whether every line of `text` that holds `query` still holds it once both
/// are lowercased. Lowercasing can break a match: "\u{3a3}" lowercases to
/// "\u{3c3}" alone, but to "\u{3c2}" at the end of a word.
pub open spec fn folding_keeps_matches(query: Seq<char>, text: Seq<char>) -> bool {
    forall|i: int|
        0 <= i < lines_of(text).len() && #[trigger] contains_chars(lines_of(text)[i], query)
            ==> contains_chars(lower_of(lines_of(text)[i]), lower_of(query))
}

/// Keys that match wherever other keys match select at least the same lines.
proof fn lemma_select_grows(
    lines: Seq<Seq<char>>,
    keys1: Seq<Seq<char>>,
    needle1: Seq<char>,
    keys2: Seq<Seq<char>>,
    needle2: Seq<char>,
)
    requires
        lines.len() <= keys1.len(),
        lines.len() <= keys2.len(),
        forall|i: int|
            0 <= i < lines.len() && #[trigger] contains_chars(keys1[i], needle1) ==> contains_chars(
                keys2[i],
                needle2,
            ),
    ensures
        forall|x: Seq<char>|
            select_lines(lines, keys1, needle1).contains(x) ==> #[trigger] select_lines(
                lines,
                keys2,
                needle2,
            ).contains(x),
    decreases lines.len(),
{
    if lines.len() > 0 {
        let init = lines.drop_last();
        lemma_select_grows(init, keys1, needle1, keys2, needle2);
        let last = lines.len() - 1;
        let s1 = select_lines(init, keys1, needle1);
        let s2 = select_lines(init, keys2, needle2);
        assert forall|x: Seq<char>|
            select_lines(lines, keys1, needle1).contains(x) implies #[trigger] select_lines(
                lines,
                keys2,
                needle2,
            ).contains(x) by {
            let full2 = select_lines(lines, keys2, needle2);
            if s1.contains(x) {
                assert(s2.contains(x));
                let j = choose|j: int| 0 <= j < s2.len() && s2[j] == x;
                if contains_chars(keys2[last], needle2) {
                    assert(full2[j] == x);
                }
            } else {
                assert(contains_chars(keys1[last], needle1));
                assert(x == lines.last());
                assert(full2[full2.len() - 1] == x);
            }
        }
    }
}

/// Every line found when case must match is also found when case is
/// ignored, for texts whose matching lines keep their match once lowercased;
/// lowercased, the first results are then among the lowercased second ones.
pub proof fn lemma_exact_within_folded(query: Seq<char>, text: Seq<char>)
    requires
        folding_keeps_matches(query, text),
    ensures
        forall|x: Seq<char>|
            found_lines(query, text).contains(x) ==> #[trigger] folded_lines(query, text).contains(
                x,
            ),
        forall|x: Seq<char>|
            lowered(found_lines(query, text)).contains(x)
                ==> #[trigger] lowered(folded_lines(query, text)).contains(x),
{
    let lines = lines_of(text);
    let folded_keys = lowered(lines);
    lemma_select_grows(lines, lines, query, folded_keys, lower_of(query));
    let found = found_lines(query, text);
    let folded = folded_lines(query, text);
    assert forall|x: Seq<char>|
        lowered(found).contains(x) implies #[trigger] lowered(folded).contains(x) by {
        let i = choose|i: int|
            0 <= i < found.len() && lowered(found)[i] == x;
        assert(found.contains(found[i]));
        assert(folded.contains(found[i]));
        let j = choose|j: int| 0 <= j < folded.len() && folded[j] == found[i];
        assert(lowered(folded)[j] == x);
    }
}

/// With an empty query, the exact search keeps every line of the text.
pub proof fn lemma_empty_query_keeps_every_line(text: Seq<char>)
    ensures
        found_lines(Seq::empty(), text) == lines_of(text),
{
    lemma_select_empty_needle(lines_of(text), lines_of(text), Seq::empty());
}

/// Searching twice with the same query and text, either way, gives the same
/// lines in the same order.
pub proof fn lemma_search_repeatable(
    query: Seq<char>,
    text: Seq<char>,
    first: Seq<Seq<char>>,
    second: Seq<Seq<char>>,
)
    requires
        (first == found_lines(query, text) && second == found_lines(query, text)) || (first
            == folded_lines(query, text) && second == folded_lines(query, text)),
    ensures
        first == second,
        first.len() == second.len(),
        forall|i: int| 0 <= i < first.len() ==> first[i] == second[i],
{
}

} // verus!
