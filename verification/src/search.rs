use vstd::prelude::*;
use crate::pattern::{
    lower_of,
    lowercase,
    regex_compiles,
    regex_found,
    regex_is_match,
    regex_new,
    regex_pattern,
};
use crate::record::{Line, LineView, views_of_lines};
use crate::text::{seqs_of, spec_lines, split_lines};

verus! {

/// One search request: the query pattern, the path of the file to scan,
/// and whether case is ignored.
pub struct Config {
    pub query: String,
    pub file_path: String,
    pub any_case: bool,
}

/// The terminal failures of one search invocation.
#[derive(Clone, Copy, Debug, PartialEq, Eq, Structural)]
pub enum SearchError {
    /// The query does not compile as a regular expression (in its
    /// case-folded form, when case is ignored).
    InvalidPattern,
}

/// The pattern one scan actually compiles: the query itself, or its
/// lower-cased form when case is ignored.
pub open spec fn effective_pattern(query: Seq<char>, any_case: bool) -> Seq<char> {
    if any_case {
        lower_of(query)
    } else {
        query
    }
}

/// Whether one line matches the query under the given case mode. Ignoring
/// case means lower-casing both the query and the line before matching,
/// never a case-insensitive engine flag.
pub open spec fn line_is_match(query: Seq<char>, line: Seq<char>, any_case: bool) -> bool {
    if any_case {
        regex_found(lower_of(query), lower_of(line))
    } else {
        regex_found(query, line)
    }
}

/// The records of one scan over `lines`: one per matching line, in original
/// order, each carrying the line's unmodified text and its 1-based place
/// among all lines, `first` being the place of `lines.first()`.
pub open spec fn match_records(
    query: Seq<char>,
    lines: Seq<Seq<char>>,
    first: int,
    any_case: bool,
) -> Seq<LineView>
    decreases lines.len(),
{
    if lines.len() == 0 {
        Seq::empty()
    } else {
        let rest = match_records(query, lines.drop_first(), first + 1, any_case);
        if line_is_match(query, lines.first(), any_case) {
            seq![LineView { text: lines.first(), number: first }] + rest
        } else {
            rest
        }
    }
}

/// Compiles the query once (lower-cased first when case is ignored), then
/// scans every line of `contents` in order, collecting a record for each
/// matching line. Fails with `InvalidPattern`, and only with it, exactly
/// when the compiled form of the query is refused; no partial results.
pub fn run_search(query: &str, contents: &str, any_case: bool) -> (r: Result<
    Vec<Line>,
    SearchError,
>)
    ensures
        r is Ok <==> regex_compiles(effective_pattern(query@, any_case)),
        r is Err ==> r->Err_0 == SearchError::InvalidPattern,
        r is Ok ==> views_of_lines(r->Ok_0@) == match_records(
            query@,
            spec_lines(contents@),
            1,
            any_case,
        ),
{
    let pat: String = if any_case {
        lowercase(query)
    } else {
        query.to_owned()
    };
    let re = match regex_new(pat.as_str()) {
        Ok(re) => re,
        Err(_) => {
            return Err(SearchError::InvalidPattern);
        },
    };
    let lines = split_lines(contents);
    let ghost lseqs = seqs_of(lines@);
    let mut results: Vec<Line> = Vec::new();
    let mut i: usize = 0;
    proof {
        assert(lseqs.skip(0) =~= lseqs);
        assert(views_of_lines(Seq::<Line>::empty()) =~= Seq::<LineView>::empty());
        assert(Seq::<LineView>::empty() + match_records(query@, lseqs, 1, any_case)
            =~= match_records(query@, lseqs, 1, any_case));
    }
    while i < lines.len()
        invariant
            i <= lines.len(),
            lseqs == seqs_of(lines@),
            lseqs.len() == lines@.len(),
            regex_pattern(re) == effective_pattern(query@, any_case),
            match_records(query@, lseqs, 1, any_case) == views_of_lines(results@)
                + match_records(query@, lseqs.skip(i as int), i + 1, any_case),
        decreases lines.len() - i,
    {
        proof {
            assert(lseqs.skip(i as int).len() > 0);
            assert(lseqs.skip(i as int).first() == lseqs[i as int]);
            assert(lseqs.skip(i as int).drop_first() =~= lseqs.skip(i as int + 1));
            assert(lseqs[i as int] == lines@[i as int]@);
        }
        let line: &String = &lines[i];
        let matched: bool = if any_case {
            let folded = lowercase(line.as_str());
            regex_is_match(&re, folded.as_str())
        } else {
            regex_is_match(&re, line.as_str())
        };
        let number: usize = i + 1;
        if matched {
            let rec = Line::new(line.as_str(), number);
            proof {
                assert(rec@ == LineView { text: lseqs[i as int], number: i as int + 1 });
                assert(views_of_lines(results@.push(rec)) =~= views_of_lines(results@).push(
                    rec@,
                ));
                assert(views_of_lines(results@).push(rec@) =~= views_of_lines(results@) + seq![
                    rec@,
                ]);
                assert(views_of_lines(results@) + (seq![rec@] + match_records(
                    query@,
                    lseqs.skip(i as int + 1),
                    i as int + 2,
                    any_case,
                )) =~= (views_of_lines(results@) + seq![rec@]) + match_records(
                    query@,
                    lseqs.skip(i as int + 1),
                    i as int + 2,
                    any_case,
                ));
            }
            results.push(rec);
        }
        i += 1;
    }
    proof {
        assert(lseqs.skip(lines@.len() as int) =~= Seq::<Seq<char>>::empty());
        assert(views_of_lines(results@) + Seq::<LineView>::empty() =~= views_of_lines(results@));
    }
    Ok(results)
}

/// The case-sensitive search: one record per line of `contents` that the
/// regular expression `query` matches, in original line order.
pub fn search(query: &str, contents: &str) -> (r: Result<Vec<Line>, SearchError>)
    ensures
        r is Ok <==> regex_compiles(query@),
        r is Err ==> r->Err_0 == SearchError::InvalidPattern,
        r is Ok ==> views_of_lines(r->Ok_0@) == match_records(
            query@,
            spec_lines(contents@),
            1,
            false,
        ),
{
    run_search(query, contents, false)
}

/// The case-insensitive search: query and each line are lower-cased before
/// matching; the records still carry each line's original, unfolded text.
pub fn search_ignored_case(query: &str, contents: &str) -> (r: Result<Vec<Line>, SearchError>)
    ensures
        r is Ok <==> regex_compiles(lower_of(query@)),
        r is Err ==> r->Err_0 == SearchError::InvalidPattern,
        r is Ok ==> views_of_lines(r->Ok_0@) == match_records(
            query@,
            spec_lines(contents@),
            1,
            true,
        ),
{
    run_search(query, contents, true)
}

} // verus!
