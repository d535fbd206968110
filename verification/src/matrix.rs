//! The dense adjacency matrix of a list of edges.

use crate::graph::Edge;
use vstd::prelude::*;

verus! {

/// A table of `u32` cells that lives in a two-dimensional `ndarray` array.
/// Nothing is known of a grid but what the functions below say of its rows.
#[verifier::external_body]
pub struct Grid {
    cells: ndarray::Array2<u32>,
}

/// The rows of a grid from first to last, each with its cells from first to
/// last.
pub uninterp spec fn grid_rows(grid: Grid) -> Seq<Seq<u32>>;

impl Grid {
    /// `ndarray::Array2::zeros` for the shape `(order, order)`: a grid of
    /// `order` rows with `order` cells each, every cell zero. The call panics
    /// where the number of cells, or the number of their bytes, is above
    /// `isize::MAX`, which `requires` rules out.
    #[verifier::external_body]
    fn zeros(order: usize) -> (grid: Grid)
        requires
            order * order * 4 <= isize::MAX,
        ensures
            grid_rows(grid) == Seq::new(order as nat, |i: int| Seq::new(order as nat, |j: int| 0u32)),
    {
        Grid { cells: ndarray::Array2::zeros((order, order)) }
    }

    /// Assignment through `ndarray`'s index `[[row, col]]`: that one cell
    /// becomes `value` and every other cell stays. The index panics outside
    /// the grid, which `requires` rules out.
    #[verifier::external_body]
    fn set(&mut self, row: usize, col: usize, value: u32)
        requires
            row < grid_rows(*old(self)).len(),
            col < grid_rows(*old(self))[row as int].len(),
        ensures
            grid_rows(*final(self)) == grid_rows(*old(self)).update(
                row as int,
                grid_rows(*old(self))[row as int].update(col as int, value),
            ),
    {
        self.cells[[row, col]] = value;
    }

    /// A read through `ndarray`'s index `[[row, col]]`: the value of that
    /// cell. The index panics outside the grid, which `requires` rules out.
    #[verifier::external_body]
    fn get(&self, row: usize, col: usize) -> (value: u32)
        requires
            row < grid_rows(*self).len(),
            col < grid_rows(*self)[row as int].len(),
        ensures
            value == grid_rows(*self)[row as int][col as int],
    {
        self.cells[[row, col]]
    }
}

/// A square matrix with `order` rows and columns can be allocated: its cells,
/// four bytes each, fit the largest allocation.
pub open spec fn storable(order: int) -> bool {
    order * order * 4 <= isize::MAX
}

/// The weight that the edges leave in the cell of `row` and `col`: that of the
/// last edge from `row` to `col`, or zero if there is none.
pub open spec fn last_weight(edges: Seq<Edge>, row: int, col: int) -> u32
    decreases edges.len(),
{
    if edges.len() == 0 {
        0
    } else if edges.last().joins(row, col) {
        edges.last().weight
    } else {
        last_weight(edges.drop_last(), row, col)
    }
}

/// The adjacency matrix of `edges` over `vertex_count` vertices, row by row.
pub open spec fn adjacency_spec(vertex_count: int, edges: Seq<Edge>) -> Seq<Seq<u32>> {
    Seq::new(
        vertex_count as nat,
        |row: int| Seq::new(vertex_count as nat, |col: int| last_weight(edges, row, col)),
    )
}

/// Every edge joins vertices below `vertex_count`.
pub open spec fn all_in_range(edges: Seq<Edge>, vertex_count: int) -> bool {
    forall|k: int| 0 <= k < edges.len() ==> (#[trigger] edges[k]).in_range(vertex_count)
}

/// There is an edge from `row` to `col`.
pub open spec fn has_edge(edges: Seq<Edge>, row: int, col: int) -> bool {
    exists|k: int| 0 <= k < edges.len() && (#[trigger] edges[k]).joins(row, col)
}

/// The edge at place `k` goes from `row` to `col`, and no edge after it does.
pub open spec fn is_last_edge(edges: Seq<Edge>, k: int, row: int, col: int) -> bool {
    &&& 0 <= k < edges.len()
    &&& edges[k].joins(row, col)
    &&& forall|l: int| k < l < edges.len() ==> !(#[trigger] edges[l]).joins(row, col)
}

/// Without an edge from `row` to `col` the weight left there is zero.
proof fn lemma_no_edge(edges: Seq<Edge>, row: int, col: int)
    requires
        !has_edge(edges, row, col),
    ensures
        last_weight(edges, row, col) == 0,
    decreases edges.len(),
{
    if edges.len() > 0 {
        let before = edges.drop_last();
        assert(!edges[edges.len() - 1].joins(row, col));
        assert(!has_edge(before, row, col)) by {
            if has_edge(before, row, col) {
                let k = choose|k: int| 0 <= k < before.len() && (#[trigger] before[k]).joins(row, col);
                assert(edges[k].joins(row, col));
            }
        }
        lemma_no_edge(before, row, col);
    }
}

/// The weight left in the cell of `row` and `col` is that of the last edge
/// from `row` to `col`.
proof fn lemma_last_edge(edges: Seq<Edge>, k: int, row: int, col: int)
    requires
        is_last_edge(edges, k, row, col),
    ensures
        last_weight(edges, row, col) == edges[k].weight,
    decreases edges.len(),
{
    if k < edges.len() - 1 {
        let before = edges.drop_last();
        assert(!edges[edges.len() - 1].joins(row, col));
        assert(is_last_edge(before, k, row, col)) by {
            assert(before[k] == edges[k]);
            assert forall|l: int| k < l < before.len() implies !(#[trigger] before[l]).joins(
                row,
                col,
            ) by {
                assert(before[l] == edges[l]);
            }
        }
        lemma_last_edge(before, k, row, col);
    }
}

/// Without an edge from `row` to `col` the weight left there is zero; with
/// one, it is the weight of the last such edge.
pub proof fn law_last_weight(edges: Seq<Edge>, row: int, col: int)
    ensures
        !has_edge(edges, row, col) ==> last_weight(edges, row, col) == 0,
        forall|k: int|
            is_last_edge(edges, k, row, col) ==> last_weight(edges, row, col) == (
            #[trigger] edges[k]).weight,
{
    if !has_edge(edges, row, col) {
        lemma_no_edge(edges, row, col);
    }
    assert forall|k: int| is_last_edge(edges, k, row, col) implies last_weight(edges, row, col) == (
    #[trigger] edges[k]).weight by {
        lemma_last_edge(edges, k, row, col);
    }
}

/// The adjacency matrix over `vertex_count` vertices has that many rows and
/// that many cells in each row. A cell holds the weight of the last edge from
/// its row to its column, whatever edges between the two came before, and
/// zero if there is no such edge.
pub proof fn law_adjacency_matrix(vertex_count: int, edges: Seq<Edge>)
    requires
        0 <= vertex_count,
    ensures
        adjacency_spec(vertex_count, edges).len() == vertex_count,
        forall|row: int|
            0 <= row < vertex_count ==> (#[trigger] adjacency_spec(vertex_count, edges)[row]).len()
                == vertex_count,
        forall|row: int, col: int|
            0 <= row < vertex_count && 0 <= col < vertex_count && !has_edge(edges, row, col)
                ==> #[trigger] adjacency_spec(vertex_count, edges)[row][col] == 0,
        forall|row: int, col: int, k: int|
            0 <= row < vertex_count && 0 <= col < vertex_count && #[trigger] is_last_edge(
                edges,
                k,
                row,
                col,
            ) ==> adjacency_spec(vertex_count, edges)[row][col] == edges[k].weight,
{
    assert forall|row: int, col: int|
        0 <= row < vertex_count && 0 <= col < vertex_count && !has_edge(
            edges,
            row,
            col,
        ) implies #[trigger] adjacency_spec(vertex_count, edges)[row][col] == 0 by {
        law_last_weight(edges, row, col);
    }
    assert forall|row: int, col: int, k: int|
        0 <= row < vertex_count && 0 <= col < vertex_count && #[trigger] is_last_edge(
            edges,
            k,
            row,
            col,
        ) implies adjacency_spec(vertex_count, edges)[row][col] == edges[k].weight by {
        law_last_weight(edges, row, col);
    }
}

/// Why no adjacency matrix was built.
#[derive(Clone, Copy, Debug, PartialEq, Eq)]
pub enum MatrixError {
    /// A matrix of that order cannot be allocated.
    TooLarge,
    /// The edge at this place of the list has an end that is no vertex.
    VertexOutOfRange {
        /// The place of the edge in the list, counted from zero.
        edge: usize,
    },
}

/// A square matrix of weights, one row for each source vertex and one column
/// for each target vertex.
pub struct Matrix {
    order: usize,
    grid: Grid,
}

impl View for Matrix {
    type V = Seq<Seq<u32>>;

    closed spec fn view(&self) -> Seq<Seq<u32>> {
        grid_rows(self.grid)
    }
}

impl Matrix {
    /// The grid has `order` rows of `order` cells.
    #[verifier::type_invariant]
    spec fn square(self) -> bool {
        &&& grid_rows(self.grid).len() == self.order
        &&& forall|row: int|
            0 <= row < self.order ==> (#[trigger] grid_rows(self.grid)[row]).len() == self.order
    }

    /// The number of rows, which is also the number of cells in each row.
    pub fn order(&self) -> (order: usize)
        ensures
            order == self@.len(),
            forall|row: int| 0 <= row < order ==> (#[trigger] self@[row]).len() == order,
    {
        proof {
            use_type_invariant(self);
        }
        self.order
    }

    /// The cell of `row` and `col`.
    pub(crate) fn cell(&self, row: usize, col: usize) -> (cell: u32)
        requires
            row < self@.len(),
            col < self@.len(),
        ensures
            cell == self@[row as int][col as int],
    {
        proof {
            use_type_invariant(self);
        }
        self.grid.get(row, col)
    }

    /// The cell of `row` and `col`, if the matrix has one.
    pub fn get(&self, row: usize, col: usize) -> (cell: Option<u32>)
        ensures
            cell == if row < self@.len() && col < self@.len() {
                Some(self@[row as int][col as int])
            } else {
                None
            },
    {
        if row < self.order() && col < self.order() {
            Some(self.cell(row, col))
        } else {
            None
        }
    }
}

/// Whether a square matrix with `order` rows and columns can be allocated.
pub fn can_store(order: usize) -> (fits: bool)
    ensures
        fits == storable(order as int),
{
    match order.checked_mul(order) {
        Some(cells) => match cells.checked_mul(4) {
            Some(bytes) => bytes <= isize::MAX as usize,
            None => false,
        },
        None => false,
    }
}

/// The place of the first edge that has an end outside the graph, if there
/// is one.
fn first_out_of_range(vertex_count: usize, edges: &Vec<Edge>) -> (place: Option<usize>)
    ensures
        match place {
            Some(edge) => {
                &&& edge < edges.len()
                &&& !edges[edge as int].in_range(vertex_count as int)
                &&& all_in_range(edges@.take(edge as int), vertex_count as int)
            },
            None => all_in_range(edges@, vertex_count as int),
        },
{
    let mut k: usize = 0;
    while k < edges.len()
        invariant
            k <= edges.len(),
            all_in_range(edges@.take(k as int), vertex_count as int),
        decreases edges.len() - k,
    {
        if edges[k].source >= vertex_count || edges[k].target >= vertex_count {
            return Some(k);
        }
        proof {
            let done = edges@.take(k as int);
            let next = edges@.take(k + 1);
            assert forall|l: int| 0 <= l < next.len() implies (#[trigger] next[l]).in_range(
                vertex_count as int,
            ) by {
                if l < k {
                    assert(next[l] == done[l]);
                }
            }
        }
        k = k + 1;
    }
    assert(edges@.take(k as int) == edges@);
    None
}

/// Builds the adjacency matrix of edges that all join vertices of the
/// graph: starting from zero in every cell, the edges are written in order,
/// each into the cell of its source row and target column.
pub(crate) fn fill(vertex_count: usize, edges: &Vec<Edge>) -> (matrix: Matrix)
    requires
        storable(vertex_count as int),
        all_in_range(edges@, vertex_count as int),
    ensures
        matrix@ == adjacency_spec(vertex_count as int, edges@),
{
    let mut grid = Grid::zeros(vertex_count);
    let mut k: usize = 0;
    assert(edges@.take(0) == Seq::<Edge>::empty());
    assert(grid_rows(grid) =~~= adjacency_spec(vertex_count as int, Seq::<Edge>::empty()));
    while k < edges.len()
        invariant
            k <= edges.len(),
            all_in_range(edges@, vertex_count as int),
            grid_rows(grid) == adjacency_spec(vertex_count as int, edges@.take(k as int)),
        decreases edges.len() - k,
    {
        let edge = edges[k];
        grid.set(edge.source, edge.target, edge.weight);
        proof {
            let next = edges@.take(k + 1);
            assert(next.drop_last() == edges@.take(k as int));
            assert(next.last() == edge);
            assert(grid_rows(grid) =~~= adjacency_spec(vertex_count as int, next));
        }
        k = k + 1;
    }
    assert(edges@.take(k as int) == edges@);
    Matrix { order: vertex_count, grid }
}

/// Builds the adjacency matrix of `edges` over `vertex_count` vertices.
///
/// The matrix starts with every cell zero; then the edges are written in
/// order, each into the cell of its source row and target column, so that a
/// later edge between the same vertices replaces an earlier one. No matrix is
/// built if it could not be allocated, nor if an edge names a vertex that
/// the graph does not have; the error then points at the first such edge.
pub fn adjacency_matrix(vertex_count: usize, edges: &Vec<Edge>) -> (r: Result<Matrix, MatrixError>)
    ensures
        match r {
            Ok(matrix) => {
                &&& storable(vertex_count as int)
                &&& all_in_range(edges@, vertex_count as int)
                &&& matrix@ == adjacency_spec(vertex_count as int, edges@)
            },
            Err(MatrixError::TooLarge) => !storable(vertex_count as int),
            Err(MatrixError::VertexOutOfRange { edge }) => {
                &&& storable(vertex_count as int)
                &&& edge < edges.len()
                &&& !edges[edge as int].in_range(vertex_count as int)
                &&& all_in_range(edges@.take(edge as int), vertex_count as int)
            },
        },
{
    if !can_store(vertex_count) {
        return Err(MatrixError::TooLarge);
    }
    match first_out_of_range(vertex_count, edges) {
        Some(edge) => Err(MatrixError::VertexOutOfRange { edge }),
        None => Ok(fill(vertex_count, edges)),
    }
}

} // verus!
