//! A small line-search utility: keeps the lines of a text that contain a
//! query, case-sensitively or not. Reading the file and printing the matches
//! happen outside this crate; the filtering itself is verified here.

use vstd::prelude::*;

verus! {

/// What one run of the search needs: the query, the file to read, and
/// whether case is ignored.
#[derive(Debug)]
pub struct Config {
    pub query: String,
    pub file_path: String,
    pub ignore_case: bool,
}

/// `needle` occurs contiguously somewhere in `hay`.
pub open spec fn has_substring(hay: Seq<char>, needle: Seq<char>) -> bool {
    exists|i: int|
        0 <= i && i + needle.len() <= hay.len() && #[trigger] hay.subrange(i, i + needle.len())
            == needle
}

/// The lowercased form of a string, as `str::to_lowercase` computes it: a
/// function of the characters alone.
pub uninterp spec fn lower_of(s: Seq<char>) -> Seq<char>;

/// The lines of a text, as `str::lines` splits it: a function of the
/// characters alone.
pub uninterp spec fn lines_of(s: Seq<char>) -> Seq<Seq<char>>;

/// Whether one line matches the query under the chosen case mode.
pub open spec fn line_matches(line: Seq<char>, query: Seq<char>, ignore_case: bool) -> bool {
    if ignore_case {
        has_substring(lower_of(line), lower_of(query))
    } else {
        has_substring(line, query)
    }
}

/// Relies on `str::contains` with a string pattern: true exactly when the
/// pattern occurs as a contiguous substring.
#[verifier::external_body]
fn str_contains(hay: &str, needle: &str) -> (r: bool)
    ensures
        r == has_substring(hay@, needle@),
{
    hay.contains(needle)
}

/// Relies on `str::to_lowercase`: the result depends on the characters
/// alone.
#[verifier::external_body]
fn to_lowercase(s: &str) -> (r: String)
    ensures
        r@ == lower_of(s@),
{
    s.to_lowercase()
}

/// Relies on `str::lines`: the split depends on the characters alone, and
/// the pieces come back in order.
#[verifier::external_body]
fn split_lines<'a>(contents: &'a str) -> (r: Vec<&'a str>)
    ensures
        r@.len() == lines_of(contents@).len(),
        forall|i: int| 0 <= i < r@.len() ==> (#[trigger] r@[i])@ == lines_of(contents@)[i],
{
    contents.lines().collect()
}

/// Keeps exactly the lines of `contents` that contain the query, in their
/// original order; with `ignore_case`, both sides are lowercased first.
pub fn search<'a>(ignore_case: bool, query: &str, contents: &'a str) -> (results: Vec<&'a str>)
    ensures
        results@.map_values(|line: &str| line@) == lines_of(contents@).filter(
            |line: Seq<char>| line_matches(line, query@, ignore_case),
        ),
{
    let ghost all_lines = lines_of(contents@);
    let ghost pred = |line: Seq<char>| line_matches(line, query@, ignore_case);

    let lowered_query = to_lowercase(query);
    let lines = split_lines(contents);
    let mut results: Vec<&'a str> = Vec::new();

    proof {
        assert(all_lines.take(0) =~= Seq::<Seq<char>>::empty());
        assert(Seq::<Seq<char>>::empty().filter(pred) =~= Seq::<Seq<char>>::empty()) by {
            reveal(vstd::seq::Seq::filter);
        }
        assert(results@.map_values(|line: &str| line@) =~= Seq::<Seq<char>>::empty());
    }

    let mut i: usize = 0;
    while i < lines.len()
        invariant
            i <= lines@.len(),
            lines@.len() == all_lines.len(),
            forall|j: int| 0 <= j < lines@.len() ==> (#[trigger] lines@[j])@ == all_lines[j],
            lowered_query@ == lower_of(query@),
            all_lines == lines_of(contents@),
            pred == (|line: Seq<char>| line_matches(line, query@, ignore_case)),
            results@.map_values(|line: &str| line@) == all_lines.take(i as int).filter(pred),
        decreases lines@.len() - i,
    {
        let line = lines[i];
        let matched = if ignore_case {
            let lowered_line = to_lowercase(line);
            str_contains(lowered_line.as_str(), lowered_query.as_str())
        } else {
            str_contains(line, query)
        };

        let ghost prev_view = results@.map_values(|l: &str| l@);
        if matched {
            results.push(line);
        }
        proof {
            reveal(vstd::seq::Seq::filter);
            assert(all_lines.take(i + 1).drop_last() =~= all_lines.take(i as int));
            assert(all_lines.take(i + 1).last() == all_lines[i as int]);
            assert(matched == pred(all_lines[i as int]));
            if matched {
                assert(results@.map_values(|l: &str| l@) =~= prev_view.push(line@));
                assert(all_lines.take(i + 1).filter(pred) == all_lines.take(i as int).filter(
                    pred,
                ).push(all_lines[i as int]));
            }
        }
        i = i + 1;
    }

    proof {
        assert(all_lines.take(lines@.len() as int) =~= all_lines);
    }

    results
}

} // verus!
