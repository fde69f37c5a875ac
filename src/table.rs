use vstd::prelude::*;

use crate::ast::{children_of, text_of, MdNode, NodeKind};
use crate::document::{cells_view, CellGrid, CellObject, CellView, GridView};
use crate::error::RenderError;

verus! {

/// The number of cells of a table row (none for a node without children).
pub open spec fn row_len(row: MdNode) -> nat {
    match children_of(row) {
        Some(c) => c.len(),
        None => 0,
    }
}

/// Every row of the table holds cells.
pub open spec fn rows_ok(rows: Seq<MdNode>) -> bool {
    forall|i: int| 0 <= i < rows.len() ==> (#[trigger] children_of(rows[i])) is Some
}

/// The largest number of cells in a row.
pub open spec fn max_row_len(rows: Seq<MdNode>) -> nat
    decreases rows.len(),
{
    if rows.len() == 0 {
        0
    } else {
        let m = max_row_len(rows.drop_last());
        let l = row_len(rows.last());
        if l > m {
            l
        } else {
            m
        }
    }
}

/// A row of `width` cells: the texts of `cells`, flagged as header cells
/// when `header` holds, then empty cells that are never header cells.
pub open spec fn row_view(cells: Seq<MdNode>, header: bool, width: nat) -> Seq<CellView> {
    Seq::new(
        width,
        |j: int|
            if j < cells.len() {
                CellView { text: Some(text_of(cells[j])), is_header: header }
            } else {
                CellView { text: None, is_header: false }
            },
    )
}

/// The cells of a table of rows, each padded to `width`, row by row; the
/// first row is the header row.
pub open spec fn grid_cells(rows: Seq<MdNode>, width: nat) -> Seq<CellView>
    decreases rows.len(),
{
    if rows.len() == 0 {
        Seq::empty()
    } else {
        grid_cells(rows.drop_last(), width) + row_view(
            children_of(rows.last()).unwrap(),
            rows.len() == 1,
            width,
        )
    }
}

/// The grid that a table of `rows` projects to.
pub open spec fn project_spec(rows: Seq<MdNode>) -> Result<GridView, RenderError> {
    if rows_ok(rows) {
        Ok(GridView { columns: max_row_len(rows), cells: grid_cells(rows, max_row_len(rows)) })
    } else {
        Err(RenderError::UnsupportedConstruct(NodeKind::TableRow))
    }
}

/// Appends one row of `width` cells to `cells`.
fn push_row(cells: &mut Vec<CellObject>, row: &Vec<MdNode>, header: bool, width: usize)
    requires
        row@.len() <= width,
    ensures
        cells_view(final(cells)@) == cells_view(old(cells)@) + row_view(row@, header, width as nat),
{
    let ghost start = cells_view(cells@);
    let ghost rv = row_view(row@, header, width as nat);
    let mut j: usize = 0;
    while j < width
        invariant
            j <= width,
            row@.len() <= width,
            rv == row_view(row@, header, width as nat),
            cells_view(cells@) == start + rv.take(j as int),
        decreases width - j,
    {
        let cell = if j < row.len() {
            let text = row[j].to_text();
            CellObject { string: Some(text), is_header: header }
        } else {
            CellObject { string: None, is_header: false }
        };
        let ghost before = cells@;
        cells.push(cell);
        assert(cells_view(cells@) =~= cells_view(before).push(cell@));
        assert(rv.take(j + 1) =~= rv.take(j as int).push(rv[j as int]));
        j = j + 1;
    }
    assert(rv.take(width as int) =~= rv);
}

/// Projects the rows of a table onto a grid whose column count is the
/// length of the longest row; shorter rows are padded with empty cells.
pub fn project_table(rows: &Vec<MdNode>) -> (r: Result<CellGrid, RenderError>)
    ensures
        match r {
            Ok(g) => project_spec(rows@) == Ok::<GridView, RenderError>(g@),
            Err(e) => project_spec(rows@) == Err::<GridView, RenderError>(e),
        },
{
    let mut max_row_size: usize = 0;
    let mut i: usize = 0;
    while i < rows.len()
        invariant
            i <= rows@.len(),
            rows_ok(rows@.take(i as int)),
            max_row_size == max_row_len(rows@.take(i as int)),
        decreases rows@.len() - i,
    {
        assert(rows@.take(i + 1).drop_last() =~= rows@.take(i as int));
        match rows[i].children() {
            Some(c) => {
                if c.len() > max_row_size {
                    max_row_size = c.len();
                }
            },
            None => {
                assert(!rows_ok(rows@));
                return Err(RenderError::UnsupportedConstruct(NodeKind::TableRow));
            },
        }
        assert(rows_ok(rows@.take(i + 1))) by {
            assert forall|k: int| 0 <= k < i + 1 implies (#[trigger] children_of(
                rows@.take(i + 1)[k],
            )) is Some by {
                if k < i {
                    assert(rows@.take(i + 1)[k] == rows@.take(i as int)[k]);
                }
            }
        }
        i = i + 1;
    }
    assert(rows@.take(i as int) =~= rows@);
    let mut cells: Vec<CellObject> = Vec::new();
    let mut i: usize = 0;
    while i < rows.len()
        invariant
            i <= rows@.len(),
            rows_ok(rows@),
            max_row_size == max_row_len(rows@),
            cells_view(cells@) == grid_cells(rows@.take(i as int), max_row_size as nat),
        decreases rows@.len() - i,
    {
        assert(rows@.take(i + 1).drop_last() =~= rows@.take(i as int));
        assert(children_of(rows@[i as int]) is Some);
        let row = match rows[i].children() {
            Some(c) => c,
            None => {
                return Err(RenderError::UnsupportedConstruct(NodeKind::TableRow));
            },
        };
        proof {
            lemma_row_len_le_max(rows@, i as int);
        }
        push_row(&mut cells, row, i == 0, max_row_size);
        i = i + 1;
    }
    assert(rows@.take(i as int) =~= rows@);
    Ok(CellGrid { columns: max_row_size, cells })
}

/// No row is longer than the longest row.
pub proof fn lemma_row_len_le_max(rows: Seq<MdNode>, i: int)
    requires
        0 <= i < rows.len(),
    ensures
        row_len(rows[i]) <= max_row_len(rows),
    decreases rows.len(),
{
    if i < rows.len() - 1 {
        lemma_row_len_le_max(rows.drop_last(), i);
        assert(rows.drop_last()[i] == rows[i]);
    }
}

/// The cells of row `i` of the grid start at position `i * width`: a grid
/// of rows padded to `width` holds `rows.len() * width` cells, and cell `j`
/// of row `i` is cell `j` of that row's view.
pub proof fn lemma_grid_cells_index(rows: Seq<MdNode>, width: nat, i: int, j: int)
    requires
        rows_ok(rows),
        0 <= i < rows.len(),
        0 <= j < width,
    ensures
        grid_cells(rows, width).len() == rows.len() * width,
        grid_cells(rows, width)[i * width + j] == row_view(
            children_of(rows[i]).unwrap(),
            i == 0,
            width,
        )[j],
    decreases rows.len(),
{
    let n = rows.len();
    let prefix = rows.drop_last();
    assert(rows_ok(prefix)) by {
        assert forall|k: int| 0 <= k < prefix.len() implies (#[trigger] children_of(prefix[k])) is Some by {
            assert(prefix[k] == rows[k]);
        }
    }
    lemma_grid_cells_len(rows, width);
    lemma_grid_cells_len(prefix, width);
    assert((n - 1) * width + width == n * width) by (nonlinear_arith);
    if i < n - 1 {
        lemma_grid_cells_index(prefix, width, i, j);
        assert(i * width + j < (n - 1) * width) by (nonlinear_arith)
            requires
                0 <= i < n - 1,
                0 <= j < width,
        ;
        assert(prefix[i] == rows[i]);
    } else {
        assert(i * width + j == (n - 1) * width + j);
    }
}

/// A grid of rows padded to `width` holds `rows.len() * width` cells.
pub proof fn lemma_grid_cells_len(rows: Seq<MdNode>, width: nat)
    ensures
        grid_cells(rows, width).len() == rows.len() * width,
    decreases rows.len(),
{
    if rows.len() > 0 {
        lemma_grid_cells_len(rows.drop_last(), width);
        assert((rows.len() - 1) * width + width == rows.len() * width) by (nonlinear_arith);
    }
}

/// A projected table has as many columns as its longest row. Each row
/// takes one line of the grid: the row's cells in order, flagged as header
/// cells exactly in the first row, then empty non-header cells.
pub proof fn lemma_project_layout(rows: Seq<MdNode>, i: int, j: int)
    requires
        rows_ok(rows),
        0 <= i < rows.len(),
        0 <= j < max_row_len(rows),
    ensures
        project_spec(rows) is Ok,
        project_spec(rows).unwrap().columns == max_row_len(rows),
        project_spec(rows).unwrap().cells.len() == rows.len() * max_row_len(rows),
        project_spec(rows).unwrap().cells[i * max_row_len(rows) + j] == (if j < row_len(rows[i]) {
            CellView {
                text: Some(text_of(children_of(rows[i]).unwrap()[j])),
                is_header: i == 0,
            }
        } else {
            CellView { text: None, is_header: false }
        }),
{
    lemma_grid_cells_index(rows, max_row_len(rows), i, j);
}

} // verus!
