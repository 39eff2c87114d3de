use vstd::prelude::*;

verus! {

/// One matched line of a search: the line's text, exactly as it stood in
/// the source (never case-folded), and its 1-based position there.
pub struct Line {
    pub string: String,
    pub number: usize,
}

/// The mathematical value of a `Line`: its characters and its position.
pub ghost struct LineView {
    pub text: Seq<char>,
    pub number: int,
}

impl View for Line {
    type V = LineView;

    open spec fn view(&self) -> LineView {
        LineView { text: self.string@, number: self.number as int }
    }
}

impl Line {
    pub fn new(string: &str, number: usize) -> (r: Self)
        ensures
            r@.text == string@,
            r@.number == number as int,
    {
        Self { string: string.to_owned(), number }
    }
}

/// The views of a sequence of records, in order.
pub open spec fn views_of_lines(v: Seq<Line>) -> Seq<LineView> {
    v.map_values(|l: Line| l@)
}

} // verus!
