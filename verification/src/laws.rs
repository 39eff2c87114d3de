use vstd::prelude::*;
use crate::record::LineView;
use crate::search::{line_is_match, match_records};
use crate::text::spec_lines;

verus! {

/// What every record of a scan over `lines` says truly: its number points
/// into the block that starts at line number `first`, and its text is that
/// line's unmodified text.
pub open spec fn record_faithful(r: LineView, lines: Seq<Seq<char>>, first: int) -> bool {
    first <= r.number < first + lines.len() && r.text == lines[r.number - first]
}

/// Every record of a scan carries the unmodified text of the line its
/// number points at, numbers lie in the scanned range, and they strictly
/// increase across the records.
pub proof fn lemma_records_faithful(
    query: Seq<char>,
    lines: Seq<Seq<char>>,
    first: int,
    any_case: bool,
)
    ensures
        forall|j: int|
            0 <= j < match_records(query, lines, first, any_case).len() ==> record_faithful(
                #[trigger] match_records(query, lines, first, any_case)[j],
                lines,
                first,
            ),
        forall|j: int, k: int|
            0 <= j < k < match_records(query, lines, first, any_case).len()
                ==> match_records(query, lines, first, any_case)[j].number < match_records(
                query,
                lines,
                first,
                any_case,
            )[k].number,
    decreases lines.len(),
{
    if lines.len() == 0 {
    } else {
        lemma_records_faithful(query, lines.drop_first(), first + 1, any_case);
        let rest = match_records(query, lines.drop_first(), first + 1, any_case);
        assert(forall|j: int|
            0 <= j < rest.len() ==> lines.drop_first()[rest[j].number - (first + 1)]
                == lines[rest[j].number - first]);
    }
}

/// When the query matches every line, the case-sensitive scan returns one
/// record per line of the text, and their numbers form the sequence 1..N
/// in order.
pub proof fn lemma_all_lines_match(query: Seq<char>, text: Seq<char>)
    requires
        forall|j: int|
            0 <= j < spec_lines(text).len() ==> line_is_match(query, spec_lines(text)[j], false),
    ensures
        match_records(query, spec_lines(text), 1, false).len() == spec_lines(text).len(),
        forall|j: int|
            0 <= j < spec_lines(text).len() ==> match_records(query, spec_lines(text), 1, false)[j]
                == (LineView { text: spec_lines(text)[j], number: j + 1 }),
{
    lemma_all_match_from(query, spec_lines(text), 1, false);
}

/// The general form of `lemma_all_lines_match`, over any block of lines
/// whose first line carries the number `first`.
pub proof fn lemma_all_match_from(
    query: Seq<char>,
    lines: Seq<Seq<char>>,
    first: int,
    any_case: bool,
)
    requires
        forall|j: int| 0 <= j < lines.len() ==> line_is_match(query, lines[j], any_case),
    ensures
        match_records(query, lines, first, any_case).len() == lines.len(),
        forall|j: int|
            0 <= j < lines.len() ==> match_records(query, lines, first, any_case)[j] == (LineView {
                text: lines[j],
                number: first + j,
            }),
    decreases lines.len(),
{
    if lines.len() == 0 {
    } else {
        assert(line_is_match(query, lines.first(), any_case));
        lemma_all_match_from(query, lines.drop_first(), first + 1, any_case);
        assert(forall|j: int|
            1 <= j < lines.len() ==> lines.drop_first()[j - 1] == lines[j]);
    }
}

/// When, line by line, a case-sensitive match implies a case-insensitive
/// one, ignoring case can only keep or grow the number of records. (This
/// is not so of every pattern: lower-casing a pattern such as `[^a]`
/// changes which lines it matches.)
pub proof fn lemma_ignore_case_superset(query: Seq<char>, lines: Seq<Seq<char>>, first: int)
    requires
        forall|j: int|
            0 <= j < lines.len() ==> (line_is_match(query, lines[j], false) ==> line_is_match(
                query,
                lines[j],
                true,
            )),
    ensures
        match_records(query, lines, first, true).len() >= match_records(
            query,
            lines,
            first,
            false,
        ).len(),
    decreases lines.len(),
{
    if lines.len() == 0 {
    } else {
        assert(line_is_match(query, lines.first(), false) ==> line_is_match(
            query,
            lines.first(),
            true,
        ));
        lemma_ignore_case_superset(query, lines.drop_first(), first + 1);
    }
}

/// An empty text holds no lines, so a search over it yields no records.
pub proof fn lemma_empty_text_no_records(query: Seq<char>, any_case: bool)
    ensures
        spec_lines(Seq::<char>::empty()) == Seq::<Seq<char>>::empty(),
        match_records(query, spec_lines(Seq::<char>::empty()), 1, any_case) == Seq::<
            LineView,
        >::empty(),
{
    assert(Seq::<char>::empty().len() == 0);
}

/// One search invocation determines its records: two runs on the same
/// query, text and case mode return identical ordered results, since each
/// run's records equal `match_records` of those inputs alone.
pub proof fn lemma_search_deterministic(
    query: Seq<char>,
    text: Seq<char>,
    any_case: bool,
    r1: Seq<LineView>,
    r2: Seq<LineView>,
)
    requires
        r1 == match_records(query, spec_lines(text), 1, any_case),
        r2 == match_records(query, spec_lines(text), 1, any_case),
    ensures
        r1 == r2,
{
}

} // verus!
