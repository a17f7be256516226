//! Spreadsheet cells, as a row of a sheet holds them.
use vstd::prelude::*;

verus! {

/// One cell of a sheet row.
///
/// Numbers are the integers of the battle record; the sheet stores them
/// as its own number type.  `Blank` is an empty column.
#[derive(Debug, Clone, PartialEq, Eq)]
pub enum Cell {
    Text(String),
    Number(i32),
    Bool(bool),
    Blank,
}

pub enum CellView {
    Text(Seq<char>),
    Number(i32),
    Bool(bool),
    Blank,
}

impl View for Cell {
    type V = CellView;

    open spec fn view(&self) -> CellView {
        match self {
            Cell::Text(s) => CellView::Text(s@),
            Cell::Number(n) => CellView::Number(*n),
            Cell::Bool(b) => CellView::Bool(*b),
            Cell::Blank => CellView::Blank,
        }
    }
}

/// The cells of a row, each by its view.
pub open spec fn cells_view(row: Seq<Cell>) -> Seq<CellView> {
    row.map_values(|c: Cell| c@)
}

/// A text cell for each label.
pub open spec fn texts(labels: Seq<Seq<char>>) -> Seq<CellView> {
    labels.map_values(|l: Seq<char>| CellView::Text(l))
}

/// A text cell holding `s`.
pub fn text(s: &str) -> (c: Cell)
    ensures
        c@ == CellView::Text(s@),
{
    Cell::Text(s.to_owned())
}

/// Appends one cell.
pub fn push_cell(row: &mut Vec<Cell>, c: Cell)
    ensures
        cells_view(final(row)@) == cells_view(old(row)@).push(c@),
{
    let ghost before = row@;
    row.push(c);
    assert(cells_view(row@) =~= cells_view(before).push(c@));
}

/// Appends a text cell for each label.
pub fn push_texts(row: &mut Vec<Cell>, labels: &Vec<&'static str>)
    ensures
        cells_view(final(row)@) == cells_view(old(row)@) + texts(
            labels@.map_values(|l: &'static str| l@),
        ),
{
    let ghost start = cells_view(row@);
    let ghost wanted = texts(labels@.map_values(|l: &'static str| l@));
    let n = labels.len();
    let mut i: usize = 0;
    assert(start + wanted.take(0) =~= start);
    while i < n
        invariant
            n == labels@.len(),
            i <= n,
            wanted == texts(labels@.map_values(|l: &'static str| l@)),
            cells_view(row@) == start + wanted.take(i as int),
        decreases n - i,
    {
        push_cell(row, text(labels[i]));
        assert(start + wanted.take(i + 1) =~= (start + wanted.take(i as int)).push(
            CellView::Text(labels@[i as int]@),
        ));
        i = i + 1;
    }
    assert(wanted.take(n as int) =~= wanted);
}

} // verus!
