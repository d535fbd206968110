//! The text form of a matrix: one line for each row, each cell followed by a
//! space, each row closed by a newline.

use crate::matrix::Matrix;
use crate::tokens::{law_split_concat, law_split_unbroken, split_spec, texts};
use vstd::prelude::*;
use vstd::string::StringExecFns;

verus! {

/// The line of one row: every cell followed by a space, then a newline.
pub open spec fn row_text(cells: Seq<Seq<char>>) -> Seq<char> {
    cells.map_values(|cell: Seq<char>| cell.push(' ')).flatten().push('\n')
}

/// The lines of all rows, first row first.
pub open spec fn table_text(rows: Seq<Seq<Seq<char>>>) -> Seq<char> {
    rows.map_values(|row: Seq<Seq<char>>| row_text(row)).flatten()
}

/// The text of each cell of a table of strings.
pub open spec fn cell_texts(rows: Seq<Vec<String>>) -> Seq<Seq<Seq<char>>> {
    rows.map_values(|row: Vec<String>| texts(row@))
}

/// `cell` is a text that `show` may return for `weight`.
pub open spec fn shows<F: Fn(u32) -> String>(show: F, weight: u32, cell: Seq<char>) -> bool {
    exists|s: String| s@ == cell && #[trigger] call_ensures(show, (weight,), s)
}

/// `cells` has the shape of `weights`, and each cell is a text that `show`
/// may return for the weight in its place.
pub open spec fn shown<F: Fn(u32) -> String>(
    weights: Seq<Seq<u32>>,
    show: F,
    cells: Seq<Seq<Seq<char>>>,
) -> bool {
    &&& cells.len() == weights.len()
    &&& forall|row: int|
        0 <= row < weights.len() ==> (#[trigger] cells[row]).len() == weights[row].len()
    &&& forall|row: int, col: int|
        0 <= row < weights.len() && 0 <= col < weights[row].len() ==> shows(
            show,
            weights[row][col],
            #[trigger] cells[row][col],
        )
}

/// `text` is a table of `weights` in which `show` gave the text of each
/// weight.
pub open spec fn renders<F: Fn(u32) -> String>(
    weights: Seq<Seq<u32>>,
    show: F,
    text: Seq<char>,
) -> bool {
    exists|cells: Seq<Seq<Seq<char>>>|
        shown(weights, show, cells) && text == #[trigger] table_text(cells)
}

/// The line of a row without its newline, cut at the space again, gives the
/// cells of the row followed by one empty token, as long as no cell holds a
/// space itself.
pub proof fn law_row_tokens(cells: Seq<Seq<char>>)
    requires
        forall|k: int| 0 <= k < cells.len() ==> !(#[trigger] cells[k]).contains(' '),
    ensures
        split_spec(row_text(cells).drop_last(), ' ') == cells.push(Seq::empty()),
    decreases cells.len(),
{
    let spaced = |cell: Seq<char>| cell.push(' ');
    let line = cells.map_values(spaced).flatten();
    assert(row_text(cells).drop_last() == line);
    if cells.len() > 0 {
        let first = cells.drop_last();
        let head = first.map_values(spaced).flatten();
        law_row_tokens(first);
        assert(row_text(first).drop_last() == head);
        assert(cells.map_values(spaced) == first.map_values(spaced).push(spaced(cells.last())));
        first.map_values(spaced).lemma_flatten_push(spaced(cells.last()));
        law_split_unbroken(cells.last(), ' ');
        assert(cells.last().push(' ').drop_last() == cells.last());
        if first.len() > 0 {
            let body = head.drop_last();
            let last_cell = first.last();
            assert(first.map_values(spaced) == first.drop_last().map_values(spaced).push(
                spaced(last_cell),
            ));
            first.drop_last().map_values(spaced).lemma_flatten_push(spaced(last_cell));
            assert(head == body.push(' '));
            assert(split_spec(body, ' ') == first) by {
                assert(first.push(Seq::empty()).drop_last() == first);
            }
            law_split_concat(body, cells.last().push(' '), ' ');
        }
    }
}

/// Writes a table of cells as text, row by row.
pub fn layout(rows: &Vec<Vec<String>>) -> (text: String)
    ensures
        text@ == table_text(cell_texts(rows@)),
{
    let ghost table = cell_texts(rows@);
    let ghost line = |row: Seq<Seq<char>>| row_text(row);
    let ghost spaced = |cell: Seq<char>| cell.push(' ');
    let mut text = String::new();
    let mut i: usize = 0;
    proof {
        reveal_strlit(" ");
        reveal_strlit("\n");
    }
    while i < rows.len()
        invariant
            i <= rows.len(),
            table == cell_texts(rows@),
            line == |row: Seq<Seq<char>>| row_text(row),
            spaced == |cell: Seq<char>| cell.push(' '),
            " "@ == seq![' '],
            "\n"@ == seq!['\n'],
            text@ == table.take(i as int).map_values(line).flatten(),
        decreases rows.len() - i,
    {
        let row = &rows[i];
        let ghost done = text@;
        let ghost cells = texts(row@);
        let mut j: usize = 0;
        while j < row.len()
            invariant
                j <= row.len(),
                cells == texts(row@),
                spaced == |cell: Seq<char>| cell.push(' '),
                " "@ == seq![' '],
                text@ == done + cells.take(j as int).map_values(spaced).flatten(),
            decreases row.len() - j,
        {
            text.append(row[j].as_str());
            text.append(" ");
            proof {
                let before = cells.take(j as int).map_values(spaced);
                assert(cells.take(j + 1).map_values(spaced) == before.push(spaced(cells[j as int])));
                before.lemma_flatten_push(spaced(cells[j as int]));
            }
            j = j + 1;
        }
        text.append("\n");
        proof {
            assert(cells.take(j as int) == cells);
            let before = table.take(i as int).map_values(line);
            assert(table.take(i + 1).map_values(line) == before.push(line(cells)));
            before.lemma_flatten_push(line(cells));
        }
        i = i + 1;
    }
    assert(table.take(i as int) == table);
    text
}

/// Writes a matrix as text, row by row, with `show` giving the text of each
/// weight.
pub fn render_matrix<F: Fn(u32) -> String>(matrix: &Matrix, show: &F) -> (text: String)
    requires
        forall|weight: u32| call_requires(*show, (weight,)),
    ensures
        renders(matrix@, *show, text@),
{
    let order = matrix.order();
    let mut rows: Vec<Vec<String>> = Vec::new();
    let mut i: usize = 0;
    while i < order
        invariant
            forall|weight: u32| call_requires(*show, (weight,)),
            order == matrix@.len(),
            forall|row: int| 0 <= row < order ==> (#[trigger] matrix@[row]).len() == order,
            i <= order,
            rows@.len() == i,
            forall|row: int| 0 <= row < i ==> (#[trigger] rows@[row])@.len() == order,
            forall|row: int, col: int|
                0 <= row < i && 0 <= col < order ==> shows(
                    *show,
                    matrix@[row][col],
                    #[trigger] rows@[row]@[col]@,
                ),
        decreases order - i,
    {
        let mut row: Vec<String> = Vec::new();
        let mut j: usize = 0;
        while j < order
            invariant
                forall|weight: u32| call_requires(*show, (weight,)),
                order == matrix@.len(),
                i < order,
                j <= order,
                row@.len() == j,
                forall|col: int|
                    0 <= col < j ==> shows(*show, matrix@[i as int][col], #[trigger] row@[col]@),
            decreases order - j,
        {
            let cell = show(matrix.cell(i, j));
            row.push(cell);
            j = j + 1;
        }
        rows.push(row);
        i = i + 1;
    }
    let text = layout(&rows);
    assert(shown(matrix@, *show, cell_texts(rows@))) by {
        let cells = cell_texts(rows@);
        assert forall|row: int, col: int|
            0 <= row < matrix@.len() && 0 <= col < matrix@[row].len() implies shows(
            *show,
            matrix@[row][col],
            #[trigger] cells[row][col],
        ) by {
            assert(cells[row][col] == rows@[row]@[col]@);
        }
    }
    text
}

} // verus!
