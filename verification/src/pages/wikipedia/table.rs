//! Tables, from the texts of their cells.
//!
//! A table arrives as the titles of its header row and the rows below it.
//! [`simple_table`] takes every cell as it is. [`spanned_table`] heeds cells
//! that span several rows or columns: such a cell fills every column it
//! spans and is carried down the rows it spans.

use vstd::prelude::*;
use crate::pages::wikipedia::{column_views, kept_columns, Column, ColumnView, Table};
use crate::text::texts;

verus! {

/// The texts of the cells of rows.
pub open spec fn row_texts(rows: Seq<Vec<String>>) -> Seq<Seq<Seq<char>>> {
    Seq::new(rows.len(), |i: int| texts(rows[i]@))
}

/// The cells that `rows` have at the position `i`, from top to bottom. A
/// row that is too short has none.
pub open spec fn cells_at(rows: Seq<Seq<Seq<char>>>, i: int) -> Seq<Seq<char>>
    decreases rows.len(),
{
    if rows.len() == 0 {
        Seq::empty()
    } else if i < rows.last().len() {
        cells_at(rows.drop_last(), i).push(rows.last()[i])
    } else {
        cells_at(rows.drop_last(), i)
    }
}

/// The columns under `headers` with the cells of `rows`, position by
/// position.
pub open spec fn raw_columns(headers: Seq<Seq<char>>, rows: Seq<Seq<Seq<char>>>) -> Seq<
    ColumnView,
> {
    Seq::new(headers.len(), |i: int| ColumnView { title: headers[i], data: cells_at(rows, i) })
}

/// The cells that `rows` have at the position `at`.
fn column_cells(rows: &Vec<Vec<String>>, at: usize) -> (cells: Vec<String>)
    ensures
        texts(cells@) == cells_at(row_texts(rows@), at as int),
{
    let ghost all = row_texts(rows@);
    let mut cells: Vec<String> = Vec::new();
    let mut i: usize = 0;
    assert(all.take(0) =~= Seq::<Seq<Seq<char>>>::empty());
    assert(texts(cells@) =~= cells_at(all.take(0), at as int));
    while i < rows.len()
        invariant
            i <= rows.len(),
            all == row_texts(rows@),
            texts(cells@) == cells_at(all.take(i as int), at as int),
        decreases rows.len() - i,
    {
        let ghost before = texts(cells@);
        proof {
            assert(all.take(i + 1).drop_last() =~= all.take(i as int));
            assert(all.take(i + 1).last() == texts(rows[i as int]@));
        }
        if at < rows[i].len() {
            cells.push(rows[i][at].clone());
            assert(texts(cells@) =~= before.push(rows[i as int][at as int]@));
        }
        i += 1;
    }
    assert(all.take(i as int) =~= all);
    cells
}

/// The table under `headers` with the cells of `rows`, each cell in the
/// column of its position, of which the columns with readable text under a
/// readable title are kept. `None` if none is kept.
pub fn simple_table(headers: &Vec<String>, rows: &Vec<Vec<String>>) -> (r: Option<Table>)
    ensures
        r is Some <==> kept_columns(raw_columns(texts(headers@), row_texts(rows@))).len() > 0,
        r matches Some(table) ==> table@ == kept_columns(
            raw_columns(texts(headers@), row_texts(rows@)),
        ),
{
    let mut columns: Vec<Column> = Vec::new();
    let mut i: usize = 0;
    while i < headers.len()
        invariant
            i <= headers.len(),
            columns.len() == i,
            forall|j: int|
                0 <= j < i ==> (#[trigger] columns[j])@ == (ColumnView {
                    title: headers[j]@,
                    data: cells_at(row_texts(rows@), j),
                }),
        decreases headers.len() - i,
    {
        columns.push(Column::raw(headers[i].clone(), column_cells(rows, i)));
        i += 1;
    }
    assert(column_views(columns@) =~= raw_columns(texts(headers@), row_texts(rows@)));
    Table::new(columns)
}

/// A cell of a table with the rows and the columns that it spans.
#[derive(Debug, Clone, PartialEq, Eq)]
pub struct Cell {
    pub text: String,
    pub rowspan: usize,
    pub colspan: usize,
}

/// What a cell holds.
pub struct CellView {
    pub text: Seq<char>,
    pub rowspan: nat,
    pub colspan: nat,
}

impl View for Cell {
    type V = CellView;

    open spec fn view(&self) -> CellView {
        CellView { text: self.text@, rowspan: self.rowspan as nat, colspan: self.colspan as nat }
    }
}

/// The views of the cells of a row.
pub open spec fn cell_views(cells: Seq<Cell>) -> Seq<CellView> {
    Seq::new(cells.len(), |i: int| cells[i]@)
}

/// The views of the cells of rows.
pub open spec fn row_views(rows: Seq<Vec<Cell>>) -> Seq<Seq<CellView>> {
    Seq::new(rows.len(), |i: int| cell_views(rows[i]@))
}

/// A table while it is filled row by row: the cells of every column so far,
/// for every column the text that is carried down into it from a cell
/// above together with the rows that the cell spans from where the row
/// stands, and the column that the row has come to, which is the number of
/// columns once the row is full.
pub struct Grid {
    pub data: Seq<Seq<Seq<char>>>,
    pub spans: Seq<Option<(nat, Seq<char>)>>,
    pub at: nat,
}

impl Grid {
    /// Every column has its place for what is carried into it, and the row
    /// has not gone beyond the columns.
    pub open spec fn well_formed(self) -> bool {
        self.spans.len() == self.data.len() && self.at <= self.data.len()
    }

    /// The column that the row has come to takes what is carried into it,
    /// if the cell above spans more rows, and the row moves on. A cell that
    /// spans no more rows is carried no further and leaves nothing.
    pub open spec fn carry_one(self) -> Grid {
        let (left, text) = self.spans[self.at as int]->Some_0;
        if left > 1 {
            Grid {
                data: self.data.update(self.at as int, self.data[self.at as int].push(text)),
                spans: self.spans.update(self.at as int, Some(((left - 1) as nat, text))),
                at: self.at + 1,
            }
        } else {
            Grid { data: self.data, spans: self.spans.update(self.at as int, None), at: self.at + 1 }
        }
    }

    /// The row moves over every column that something is carried into.
    pub open spec fn carried(self) -> Grid
        decreases self.data.len() - self.at,
    {
        if self.at < self.data.len() && self.spans[self.at as int] is Some {
            self.carry_one().carried()
        } else {
            self
        }
    }

    /// The column that the row has come to takes `cell`, which is carried
    /// down from here if it spans more than one row, and the row moves on.
    /// A full row takes nothing.
    pub open spec fn place_one(self, cell: CellView) -> Grid {
        if self.at < self.data.len() {
            Grid {
                data: self.data.update(self.at as int, self.data[self.at as int].push(cell.text)),
                spans: if cell.rowspan > 1 {
                    self.spans.update(self.at as int, Some((cell.rowspan, cell.text)))
                } else {
                    self.spans
                },
                at: self.at + 1,
            }
        } else {
            self
        }
    }

    /// `cell` is placed `times` times, in columns one after the other.
    pub open spec fn placed(self, cell: CellView, times: nat) -> Grid
        decreases times,
    {
        if times == 0 {
            self
        } else {
            self.place_one(cell).placed(cell, (times - 1) as nat)
        }
    }

    /// The column that the row has come to takes what is carried into it,
    /// or an empty cell if nothing is, and the row moves on.
    pub open spec fn fill_one(self) -> Grid {
        if self.spans[self.at as int] is Some {
            self.carry_one()
        } else {
            Grid {
                data: self.data.update(
                    self.at as int,
                    self.data[self.at as int].push(Seq::empty()),
                ),
                spans: self.spans,
                at: self.at + 1,
            }
        }
    }

    /// The row is filled up to the last column.
    pub open spec fn filled(self) -> Grid
        decreases self.data.len() - self.at,
    {
        if self.at < self.data.len() {
            self.fill_one().filled()
        } else {
            self
        }
    }

    /// The row takes `cells` from left to right: each goes to the first
    /// column that nothing is carried into, as often as it spans columns.
    pub open spec fn after_cells(self, cells: Seq<CellView>) -> Grid
        decreases cells.len(),
    {
        if cells.len() == 0 {
            self
        } else {
            self.after_cells(cells.drop_last()).carried().placed(
                cells.last(),
                cells.last().colspan,
            )
        }
    }

    /// A new row takes `cells` and is filled up.
    pub open spec fn after_row(self, cells: Seq<CellView>) -> Grid {
        (Grid { data: self.data, spans: self.spans, at: 0 }).after_cells(cells).filled()
    }

    /// One row after the other takes its cells.
    pub open spec fn after_rows(self, rows: Seq<Seq<CellView>>) -> Grid
        decreases rows.len(),
    {
        if rows.len() == 0 {
            self
        } else {
            self.after_rows(rows.drop_last()).after_row(rows.last())
        }
    }
}

/// The grid of `columns` empty columns into which nothing is carried.
pub open spec fn empty_grid(columns: nat) -> Grid {
    Grid {
        data: Seq::new(columns, |i: int| Seq::<Seq<char>>::empty()),
        spans: Seq::new(columns, |i: int| None::<(nat, Seq<char>)>),
        at: 0,
    }
}

/// The columns under `headers` after the header row, which leaves an empty
/// cell in every column, and `rows` below it.
pub open spec fn spanned_columns(headers: Seq<Seq<char>>, rows: Seq<Seq<CellView>>) -> Seq<
    ColumnView,
> {
    let grid = empty_grid(headers.len()).filled().after_rows(rows);
    Seq::new(headers.len(), |i: int| ColumnView { title: headers[i], data: grid.data[i] })
}

/// A full row takes no cell.
pub proof fn lemma_full_row_takes_nothing(grid: Grid, cell: CellView, times: nat)
    requires
        grid.at >= grid.data.len(),
    ensures
        grid.placed(cell, times) == grid,
    decreases times,
{
    if times > 0 {
        lemma_full_row_takes_nothing(grid, cell, (times - 1) as nat);
    }
}

/// The table as it is filled: the cells of every column, what is carried
/// into every column, and the column that the row has come to.
struct Filling {
    data: Vec<Vec<String>>,
    spans: Vec<Option<(usize, String)>>,
    at: usize,
}

impl Filling {
    /// The grid that this filling stands for.
    closed spec fn view(&self) -> Grid {
        Grid {
            data: row_texts(self.data@),
            spans: Seq::new(
                self.spans.len() as nat,
                |i: int|
                    match self.spans[i] {
                        Some((left, text)) => Some((left as nat, text@)),
                        None => None,
                    },
            ),
            at: self.at as nat,
        }
    }

    /// The filling of `columns` empty columns.
    fn new(columns: usize) -> (r: Self)
        ensures
            r@ == empty_grid(columns as nat),
            r@.well_formed(),
    {
        let mut data: Vec<Vec<String>> = Vec::new();
        let mut spans: Vec<Option<(usize, String)>> = Vec::new();
        let mut i: usize = 0;
        while i < columns
            invariant
                i <= columns,
                data.len() == i,
                spans.len() == i,
                forall|j: int| 0 <= j < i ==> (#[trigger] data[j])@.len() == 0,
                forall|j: int| 0 <= j < i ==> (#[trigger] spans[j]) is None,
            decreases columns - i,
        {
            data.push(Vec::new());
            spans.push(None);
            i += 1;
        }
        let r = Filling { data, spans, at: 0 };
        proof {
            assert forall|j: int| 0 <= j < columns implies (#[trigger] r@.data[j])
                == Seq::<Seq<char>>::empty() by {
                assert(texts(r.data[j]@) =~= Seq::<Seq<char>>::empty());
            }
            assert(r@.data =~= empty_grid(columns as nat).data);
            assert(r@.spans =~= empty_grid(columns as nat).spans);
        }
        r
    }

    /// Lets the column that the row has come to take what is carried into
    /// it.
    fn carry_one(&mut self)
        requires
            old(self)@.well_formed(),
            old(self)@.at < old(self)@.data.len(),
            old(self)@.spans[old(self)@.at as int] is Some,
        ensures
            final(self)@ == old(self)@.carry_one(),
            final(self)@.well_formed(),
            final(self)@.data.len() == old(self)@.data.len(),
    {
        let ghost before = self@;
        let at = self.at;
        let carried = match &self.spans[at] {
            Some((left, text)) => if *left > 1 {
                Some((*left - 1, text.clone()))
            } else {
                None
            },
            None => None,
        };
        match carried {
            Some((left, text)) => {
                self.data[at].push(text.clone());
                self.spans[at] = Some((left, text));
                self.at = at + 1;
                proof {
                    let (was, content) = before.spans[at as int]->Some_0;
                    assert(texts(self.data[at as int]@) =~= before.data[at as int].push(content));
                    assert(self@.data =~= before.carry_one().data);
                    assert(self@.spans =~= before.carry_one().spans);
                }
            },
            None => {
                self.spans[at] = None;
                self.at = at + 1;
                proof {
                    assert(self@.data =~= before.carry_one().data);
                    assert(self@.spans =~= before.carry_one().spans);
                }
            },
        }
    }

    /// Moves the row over every column that something is carried into.
    fn carry(&mut self)
        requires
            old(self)@.well_formed(),
        ensures
            final(self)@ == old(self)@.carried(),
            final(self)@.well_formed(),
            final(self)@.data.len() == old(self)@.data.len(),
    {
        while self.at < self.data.len() && self.spans[self.at].is_some()
            invariant
                self@.well_formed(),
                self@.data.len() == old(self)@.data.len(),
                self@.carried() == old(self)@.carried(),
            decreases self.data.len() - self.at,
        {
            self.carry_one();
        }
    }

    /// Places `cell` as often as it spans columns.
    fn place(&mut self, cell: &Cell)
        requires
            old(self)@.well_formed(),
        ensures
            final(self)@ == old(self)@.placed(cell@, cell@.colspan),
            final(self)@.well_formed(),
            final(self)@.data.len() == old(self)@.data.len(),
    {
        let mut times: usize = cell.colspan;
        while times > 0 && self.at < self.data.len()
            invariant
                self@.well_formed(),
                self@.data.len() == old(self)@.data.len(),
                self@.placed(cell@, times as nat) == old(self)@.placed(cell@, cell@.colspan),
            decreases times,
        {
            let ghost before = self@;
            let at = self.at;
            self.data[at].push(cell.text.clone());
            if cell.rowspan > 1 {
                self.spans[at] = Some((cell.rowspan, cell.text.clone()));
            }
            self.at = at + 1;
            times -= 1;
            proof {
                assert(texts(self.data[at as int]@) =~= before.data[at as int].push(cell@.text));
                assert(self@.data =~= before.place_one(cell@).data);
                assert(self@.spans =~= before.place_one(cell@).spans);
            }
        }
        proof {
            if times > 0 {
                lemma_full_row_takes_nothing(self@, cell@, times as nat);
            }
        }
    }

    /// Fills the row up to the last column.
    fn fill(&mut self)
        requires
            old(self)@.well_formed(),
        ensures
            final(self)@ == old(self)@.filled(),
            final(self)@.well_formed(),
            final(self)@.data.len() == old(self)@.data.len(),
    {
        while self.at < self.data.len()
            invariant
                self@.well_formed(),
                self@.data.len() == old(self)@.data.len(),
                self@.filled() == old(self)@.filled(),
            decreases self.data.len() - self.at,
        {
            if self.spans[self.at].is_some() {
                self.carry_one();
            } else {
                let ghost before = self@;
                let at = self.at;
                self.data[at].push(String::new());
                self.at = at + 1;
                proof {
                    assert(texts(self.data[at as int]@) =~= before.data[at as int].push(
                        Seq::empty(),
                    ));
                    assert(self@.data =~= before.fill_one().data);
                    assert(self@.spans =~= before.fill_one().spans);
                }
            }
        }
    }

    /// Lets a new row take `cells` and fills it up.
    fn take_row(&mut self, cells: &Vec<Cell>)
        requires
            old(self)@.well_formed(),
        ensures
            final(self)@ == old(self)@.after_row(cell_views(cells@)),
            final(self)@.well_formed(),
            final(self)@.data.len() == old(self)@.data.len(),
    {
        let ghost all = cell_views(cells@);
        self.at = 0;
        let ghost start = self@;
        proof {
            assert(start.data =~= old(self)@.data);
            assert(start.spans =~= old(self)@.spans);
            assert(all.take(0) =~= Seq::<CellView>::empty());
        }
        let mut i: usize = 0;
        while i < cells.len()
            invariant
                i <= cells.len(),
                all == cell_views(cells@),
                self@.well_formed(),
                self@.data.len() == old(self)@.data.len(),
                self@ == start.after_cells(all.take(i as int)),
            decreases cells.len() - i,
        {
            proof {
                assert(all.take(i + 1).drop_last() =~= all.take(i as int));
                assert(all.take(i + 1).last() == cells[i as int]@);
            }
            self.carry();
            self.place(&cells[i]);
            i += 1;
        }
        assert(all.take(i as int) =~= all);
        self.fill();
    }
}

/// The table under `headers` with the cells of `rows`, where a cell that
/// spans columns fills each of them and a cell that spans rows is carried
/// down into the rows below. The header row leaves an empty cell in every
/// column, and so does every row in a column that it has no cell for.
pub fn spanned_table(headers: &Vec<String>, rows: &Vec<Vec<Cell>>) -> (table: Table)
    ensures
        table@ == spanned_columns(texts(headers@), row_views(rows@)),
{
    let ghost all = row_views(rows@);
    let mut filling = Filling::new(headers.len());
    filling.fill();
    let ghost start = filling@;
    let mut i: usize = 0;
    assert(all.take(0) =~= Seq::<Seq<CellView>>::empty());
    while i < rows.len()
        invariant
            i <= rows.len(),
            all == row_views(rows@),
            filling@.well_formed(),
            filling@.data.len() == headers.len(),
            filling@ == start.after_rows(all.take(i as int)),
        decreases rows.len() - i,
    {
        proof {
            assert(all.take(i + 1).drop_last() =~= all.take(i as int));
            assert(all.take(i + 1).last() == cell_views(rows[i as int]@));
        }
        filling.take_row(&rows[i]);
        i += 1;
    }
    assert(all.take(i as int) =~= all);
    let mut columns: Vec<Column> = Vec::new();
    let mut j: usize = 0;
    while j < headers.len()
        invariant
            j <= headers.len(),
            columns.len() == j,
            filling.data.len() == headers.len(),
            forall|k: int|
                0 <= k < j ==> (#[trigger] columns[k])@ == (ColumnView {
                    title: headers[k]@,
                    data: texts(filling.data[k]@),
                }),
        decreases headers.len() - j,
    {
        columns.push(Column::raw(headers[j].clone(), filling.data[j].clone()));
        j += 1;
    }
    assert(column_views(columns@) =~= spanned_columns(texts(headers@), row_views(rows@)));
    Table::raw(columns)
}

} // verus!
