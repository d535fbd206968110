//! The graph that the input describes, and the order in which its parts
//! stand in the token stream:
//!
//! ```text
//! n m
//! u_1 v_1 w_1
//! ...
//! u_m v_m w_m
//! p_1 p_2 ... p_n
//! ```
//!
//! `n` is the number of vertices and `m` the number of edges; each edge is a
//! source vertex, a target vertex and a weight; one weight for each vertex
//! follows. Only the order of the tokens counts, not the lines they are on.

use crate::extract::{end_error, next_usize, next_val, parse_usize_spec, parses_to, ReadError};
use crate::matrix::{adjacency_spec, all_in_range, has_edge, is_last_edge, law_adjacency_matrix};
use crate::tokens::{SourceEnd, WhitespaceSplit};
use vstd::prelude::*;

verus! {

/// A directed edge. Vertices are numbered from zero; the weight is kept as
/// the bit pattern of a 32-bit number, which this library never interprets.
#[derive(Clone, Copy, Debug, PartialEq, Eq)]
pub struct Edge {
    /// The vertex the edge leaves.
    pub source: usize,
    /// The vertex the edge enters.
    pub target: usize,
    /// The weight of the edge.
    pub weight: u32,
}

impl Edge {
    /// Both ends of the edge are vertices of a graph with `vertex_count`
    /// vertices.
    pub open spec fn in_range(self, vertex_count: int) -> bool {
        self.source < vertex_count && self.target < vertex_count
    }

    /// The edge leaves vertex `source` and enters vertex `target`.
    pub open spec fn joins(self, source: int, target: int) -> bool {
        self.source == source && self.target == target
    }
}

/// A graph as it was read: its edges in input order, and a weight for each
/// vertex.
#[derive(Debug, PartialEq, Eq)]
pub struct Graph {
    /// The number of vertices.
    pub vertex_count: usize,
    /// The edges, in the order of the input.
    pub edges: Vec<Edge>,
    /// The weight of each vertex, by vertex number.
    pub vertex_weights: Vec<u32>,
}

/// Why no graph was read.
#[derive(Debug, PartialEq, Eq)]
pub enum GraphError {
    /// A value could not be read from the token stream.
    Read(ReadError),
    /// The edge at this place of the input has an end that is no vertex.
    VertexOutOfRange {
        /// The place of the edge among the edges, counted from zero.
        edge: usize,
    },
}

/// The place in the token sequence where edge `i` starts.
pub open spec fn edge_start(i: int) -> int {
    2 + 3 * i
}

/// The place in the token sequence of the weight of vertex `j`, after
/// `edge_count` edges.
pub open spec fn weight_place(edge_count: int, j: int) -> int {
    2 + 3 * edge_count + j
}

/// There is a token at `position` and it is an unsigned number.
pub open spec fn number_ok(tokens: Seq<Seq<char>>, position: int) -> bool {
    0 <= position < tokens.len() && parse_usize_spec(tokens[position]) is Ok
}

/// The number that the token at `position` stands for.
pub open spec fn number_value(tokens: Seq<Seq<char>>, position: int) -> usize {
    parse_usize_spec(tokens[position])->Ok_0
}

/// There is a token at `position`, and `weight` is what `parse_weight` may
/// make of it.
pub open spec fn weight_at<F: Fn(&str) -> Result<u32, String>>(
    tokens: Seq<Seq<char>>,
    parse_weight: F,
    position: int,
    weight: u32,
) -> bool {
    0 <= position < tokens.len() && parses_to(parse_weight, tokens[position], Ok(weight))
}

/// There is a token at `position`, and `parse_weight` may make a weight of
/// it.
pub open spec fn weight_ok<F: Fn(&str) -> Result<u32, String>>(
    tokens: Seq<Seq<char>>,
    parse_weight: F,
    position: int,
) -> bool {
    exists|weight: u32| weight_at(tokens, parse_weight, position, weight)
}

/// The three tokens of edge `i` are there, and `edge` is what they say: two
/// vertex numbers and a weight that `parse_weight` may make of the third.
pub open spec fn edge_at<F: Fn(&str) -> Result<u32, String>>(
    tokens: Seq<Seq<char>>,
    parse_weight: F,
    i: int,
    edge: Edge,
) -> bool {
    &&& number_ok(tokens, edge_start(i))
    &&& number_value(tokens, edge_start(i)) == edge.source
    &&& number_ok(tokens, edge_start(i) + 1)
    &&& number_value(tokens, edge_start(i) + 1) == edge.target
    &&& weight_at(tokens, parse_weight, edge_start(i) + 2, edge.weight)
}

/// The three tokens of edge `i` are there and say an edge between vertices
/// of a graph with `vertex_count` vertices.
pub open spec fn edge_ok<F: Fn(&str) -> Result<u32, String>>(
    tokens: Seq<Seq<char>>,
    parse_weight: F,
    vertex_count: int,
    i: int,
) -> bool {
    &&& number_ok(tokens, edge_start(i))
    &&& number_ok(tokens, edge_start(i) + 1)
    &&& weight_ok(tokens, parse_weight, edge_start(i) + 2)
    &&& number_value(tokens, edge_start(i)) < vertex_count
    &&& number_value(tokens, edge_start(i) + 1) < vertex_count
}

/// The first two tokens are the counts `vertex_count` and `edge_count`.
pub open spec fn counts_at(tokens: Seq<Seq<char>>, vertex_count: int, edge_count: int) -> bool {
    &&& number_ok(tokens, 0)
    &&& number_value(tokens, 0) == vertex_count
    &&& number_ok(tokens, 1)
    &&& number_value(tokens, 1) == edge_count
}

/// `edges` are what the tokens say of the first edges of the input, each an
/// edge between vertices of a graph with `vertex_count` vertices.
pub open spec fn edges_at<F: Fn(&str) -> Result<u32, String>>(
    tokens: Seq<Seq<char>>,
    parse_weight: F,
    vertex_count: int,
    edges: Seq<Edge>,
) -> bool {
    forall|i: int|
        0 <= i < edges.len() ==> edge_at(tokens, parse_weight, i, #[trigger] edges[i])
            && edges[i].in_range(vertex_count)
}

/// `weights` are what `parse_weight` may make of the tokens of the first
/// vertex weights, which follow `edge_count` edges.
pub open spec fn weights_at<F: Fn(&str) -> Result<u32, String>>(
    tokens: Seq<Seq<char>>,
    parse_weight: F,
    edge_count: int,
    weights: Seq<u32>,
) -> bool {
    forall|j: int|
        0 <= j < weights.len() ==> weight_at(
            tokens,
            parse_weight,
            weight_place(edge_count, j),
            #[trigger] weights[j],
        )
}

/// `graph` is what the tokens say, read in order: the two counts, then the
/// edges, each between vertices of the graph, then the vertex weights.
pub open spec fn describes<F: Fn(&str) -> Result<u32, String>>(
    tokens: Seq<Seq<char>>,
    parse_weight: F,
    graph: Graph,
) -> bool {
    let n = graph.vertex_count as int;
    let m = graph.edges@.len() as int;
    &&& counts_at(tokens, n, m)
    &&& edges_at(tokens, parse_weight, n, graph.edges@)
    &&& graph.vertex_weights@.len() == n
    &&& weights_at(tokens, parse_weight, m, graph.vertex_weights@)
}

/// Reading the token at `position` as an unsigned number fails with `error`:
/// there is no token, or it is no number.
pub open spec fn number_fails_at(
    tokens: Seq<Seq<char>>,
    end: SourceEnd,
    position: int,
    error: GraphError,
) -> bool {
    match error {
        GraphError::Read(e) => if position >= tokens.len() {
            e == end_error(end)
        } else {
            match (parse_usize_spec(tokens[position]), e) {
                (Err(fault), ReadError::Malformed { token, diagnostic }) => token@
                    == tokens[position] && diagnostic@ == fault.message_spec(),
                _ => false,
            }
        },
        _ => false,
    }
}

/// Reading the token at `position` as a weight fails with `error`: there is
/// no token, or `parse_weight` turned it down.
pub open spec fn weight_fails_at<F: Fn(&str) -> Result<u32, String>>(
    tokens: Seq<Seq<char>>,
    end: SourceEnd,
    parse_weight: F,
    position: int,
    error: GraphError,
) -> bool {
    match error {
        GraphError::Read(e) => if position >= tokens.len() {
            e == end_error(end)
        } else {
            match e {
                ReadError::Malformed { token, diagnostic } => token@ == tokens[position]
                    && parses_to(parse_weight, tokens[position], Err(diagnostic)),
                _ => false,
            }
        },
        _ => false,
    }
}

/// Reading edge `i` fails with `error`: at the first of its three tokens that
/// cannot be read, or, with all three read, because one of its ends is no
/// vertex.
pub open spec fn edge_fails<F: Fn(&str) -> Result<u32, String>>(
    tokens: Seq<Seq<char>>,
    end: SourceEnd,
    parse_weight: F,
    vertex_count: int,
    i: int,
    error: GraphError,
) -> bool {
    let at = edge_start(i);
    if !number_ok(tokens, at) {
        number_fails_at(tokens, end, at, error)
    } else if !number_ok(tokens, at + 1) {
        number_fails_at(tokens, end, at + 1, error)
    } else if error is Read {
        weight_fails_at(tokens, end, parse_weight, at + 2, error)
    } else {
        &&& weight_ok(tokens, parse_weight, at + 2)
        &&& !(number_value(tokens, at) < vertex_count && number_value(tokens, at + 1) < vertex_count)
        &&& error == GraphError::VertexOutOfRange { edge: i as usize }
    }
}

/// Reading the two counts fails with `error`, at the first of them that
/// cannot be read.
pub open spec fn counts_fail(tokens: Seq<Seq<char>>, end: SourceEnd, error: GraphError) -> bool {
    if !number_ok(tokens, 0) {
        number_fails_at(tokens, end, 0, error)
    } else {
        !number_ok(tokens, 1) && number_fails_at(tokens, end, 1, error)
    }
}

/// After the counts `n` and `m`, reading the edges and the vertex weights
/// fails with `error`: at an edge, with every edge before it read, or at a
/// vertex weight, with every edge and every weight before it read.
pub open spec fn parts_fail<F: Fn(&str) -> Result<u32, String>>(
    tokens: Seq<Seq<char>>,
    end: SourceEnd,
    parse_weight: F,
    n: int,
    m: int,
    error: GraphError,
) -> bool {
    ||| exists|i: int|
        {
            &&& 0 <= i < m
            &&& forall|k: int| 0 <= k < i ==> edge_ok(tokens, parse_weight, n, k)
            &&& #[trigger] edge_fails(tokens, end, parse_weight, n, i, error)
        }
    ||| exists|j: int|
        {
            &&& 0 <= j < n
            &&& forall|k: int| 0 <= k < m ==> edge_ok(tokens, parse_weight, n, k)
            &&& forall|k: int| 0 <= k < j ==> weight_ok(tokens, parse_weight, weight_place(m, k))
            &&& #[trigger] weight_fails_at(tokens, end, parse_weight, weight_place(m, j), error)
        }
}

/// Reading a graph from the tokens fails with `error`: everything before one
/// place was read, and reading fails there.
pub open spec fn rejects<F: Fn(&str) -> Result<u32, String>>(
    tokens: Seq<Seq<char>>,
    end: SourceEnd,
    parse_weight: F,
    error: GraphError,
) -> bool {
    if number_ok(tokens, 0) && number_ok(tokens, 1) {
        parts_fail(
            tokens,
            end,
            parse_weight,
            number_value(tokens, 0) as int,
            number_value(tokens, 1) as int,
            error,
        )
    } else {
        counts_fail(tokens, end, error)
    }
}

/// The adjacency matrix of a graph that the tokens describe has a row and a
/// column for each of the vertices that the first token counts. The cell of
/// a row and a column holds what `parse_weight` made of the weight token of
/// the last edge in the input that goes from the one to the other, and zero
/// where the input has no such edge. Every edge of the graph has its cell.
pub proof fn law_matrix_of_input<F: Fn(&str) -> Result<u32, String>>(
    tokens: Seq<Seq<char>>,
    parse_weight: F,
    graph: Graph,
)
    requires
        describes(tokens, parse_weight, graph),
    ensures
        all_in_range(graph.edges@, graph.vertex_count as int),
        adjacency_spec(graph.vertex_count as int, graph.edges@).len() == number_value(tokens, 0),
        forall|row: int|
            0 <= row < graph.vertex_count ==> (#[trigger] adjacency_spec(
                graph.vertex_count as int,
                graph.edges@,
            )[row]).len() == number_value(tokens, 0),
        forall|row: int, col: int|
            0 <= row < graph.vertex_count && 0 <= col < graph.vertex_count && !has_edge(
                graph.edges@,
                row,
                col,
            ) ==> #[trigger] adjacency_spec(graph.vertex_count as int, graph.edges@)[row][col]
                == 0,
        forall|row: int, col: int, k: int|
            0 <= row < graph.vertex_count && 0 <= col < graph.vertex_count && #[trigger] is_last_edge(
                graph.edges@,
                k,
                row,
                col,
            ) ==> weight_at(
                tokens,
                parse_weight,
                edge_start(k) + 2,
                adjacency_spec(graph.vertex_count as int, graph.edges@)[row][col],
            ),
{
    let n = graph.vertex_count as int;
    let edges = graph.edges@;
    law_adjacency_matrix(n, edges);
    assert forall|row: int, col: int, k: int|
        0 <= row < n && 0 <= col < n && #[trigger] is_last_edge(edges, k, row, col) implies weight_at(
        tokens,
        parse_weight,
        edge_start(k) + 2,
        adjacency_spec(n, edges)[row][col],
    ) by {
        assert(edge_at(tokens, parse_weight, k, edges[k]));
    }
}

/// Edges that were read are edges that can be read.
proof fn lemma_edges_ok<F: Fn(&str) -> Result<u32, String>>(
    tokens: Seq<Seq<char>>,
    parse_weight: F,
    vertex_count: int,
    edges: Seq<Edge>,
)
    requires
        edges_at(tokens, parse_weight, vertex_count, edges),
    ensures
        forall|k: int| 0 <= k < edges.len() ==> edge_ok(tokens, parse_weight, vertex_count, k),
{
    assert forall|k: int| 0 <= k < edges.len() implies edge_ok(
        tokens,
        parse_weight,
        vertex_count,
        k,
    ) by {
        assert(weight_at(tokens, parse_weight, edge_start(k) + 2, edges[k].weight));
    }
}

/// Weights that were read are weights that can be read.
proof fn lemma_weights_ok<F: Fn(&str) -> Result<u32, String>>(
    tokens: Seq<Seq<char>>,
    parse_weight: F,
    edge_count: int,
    weights: Seq<u32>,
)
    requires
        weights_at(tokens, parse_weight, edge_count, weights),
    ensures
        forall|k: int|
            0 <= k < weights.len() ==> weight_ok(
                tokens,
                parse_weight,
                #[trigger] weight_place(edge_count, k),
            ),
{
    assert forall|k: int| 0 <= k < weights.len() implies weight_ok(
        tokens,
        parse_weight,
        #[trigger] weight_place(edge_count, k),
    ) by {
        assert(weight_at(tokens, parse_weight, weight_place(edge_count, k), weights[k]));
    }
}

/// What is left of `tokens` from `position` on starts with the token at
/// `position`, if there is one, and goes on from the next position.
proof fn lemma_skip_step(tokens: Seq<Seq<char>>, position: int)
    requires
        0 <= position <= tokens.len(),
    ensures
        tokens.skip(position).len() > 0 <==> position < tokens.len(),
        position < tokens.len() ==> tokens.skip(position)[0] == tokens[position],
        position < tokens.len() ==> tokens.skip(position).skip(1) == tokens.skip(position + 1),
{
}

/// Reads the number of vertices and the number of edges.
pub(crate) fn read_counts(ws: &mut WhitespaceSplit) -> (r: Result<(usize, usize), GraphError>)
    ensures
        final(ws)@.end == old(ws)@.end,
        exists|used: int|
            0 <= used <= old(ws)@.tokens().len() && final(ws)@.tokens() == old(ws)@.tokens().skip(
                used,
            ),
        match r {
            Ok((vertex_count, edge_count)) => {
                &&& counts_at(old(ws)@.tokens(), vertex_count as int, edge_count as int)
                &&& final(ws)@.tokens() == old(ws)@.tokens().skip(2)
            },
            Err(error) => counts_fail(old(ws)@.tokens(), old(ws)@.end, error),
        },
{
    let ghost tokens = ws@.tokens();
    proof {
        lemma_skip_step(tokens, 0);
    }
    let vertex_count = match next_usize(ws) {
        Ok(v) => v,
        Err(e) => {
            return Err(GraphError::Read(e));
        },
    };
    proof {
        lemma_skip_step(tokens, 1);
    }
    let edge_count = match next_usize(ws) {
        Ok(v) => v,
        Err(e) => {
            return Err(GraphError::Read(e));
        },
    };
    Ok((vertex_count, edge_count))
}

/// Reads the edges and the vertex weights of a graph whose counts were the
/// first two of `tokens`.
pub(crate) fn read_parts<F: Fn(&str) -> Result<u32, String>>(
    ws: &mut WhitespaceSplit,
    Ghost(tokens): Ghost<Seq<Seq<char>>>,
    vertex_count: usize,
    edge_count: usize,
    parse_weight: &F,
) -> (r: Result<Graph, GraphError>)
    requires
        forall|s: &str| call_requires(*parse_weight, (s,)),
        counts_at(tokens, vertex_count as int, edge_count as int),
        old(ws)@.tokens() == tokens.skip(2),
    ensures
        final(ws)@.end == old(ws)@.end,
        exists|used: int|
            0 <= used <= tokens.len() && final(ws)@.tokens() == tokens.skip(used),
        match r {
            Ok(graph) => {
                &&& describes(tokens, *parse_weight, graph)
                &&& final(ws)@.tokens() == tokens.skip(
                    weight_place(graph.edges@.len() as int, graph.vertex_count as int),
                )
            },
            Err(error) => parts_fail(
                tokens,
                old(ws)@.end,
                *parse_weight,
                vertex_count as int,
                edge_count as int,
                error,
            ),
        },
{
    let ghost end = ws@.end;
    let ghost n = vertex_count as int;
    let ghost m = edge_count as int;
    let mut edges: Vec<Edge> = Vec::new();
    let mut i: usize = 0;
    while i < edge_count
        invariant
            forall|s: &str| call_requires(*parse_weight, (s,)),
            end == old(ws)@.end,
            n == vertex_count,
            m == edge_count,
            ws@.end == end,
            counts_at(tokens, n, m),
            i <= edge_count,
            edge_start(i as int) <= tokens.len(),
            ws@.tokens() == tokens.skip(edge_start(i as int)),
            edges@.len() == i,
            edges_at(tokens, *parse_weight, n, edges@),
        decreases edge_count - i,
    {
        let ghost at = edge_start(i as int);
        proof {
            lemma_edges_ok(tokens, *parse_weight, n, edges@);
            lemma_skip_step(tokens, at);
        }
        let source = match next_usize(ws) {
            Ok(v) => v,
            Err(e) => {
                let error = GraphError::Read(e);
                assert(edge_fails(tokens, end, *parse_weight, n, i as int, error));
                return Err(error);
            },
        };
        proof {
            lemma_skip_step(tokens, at + 1);
        }
        let target = match next_usize(ws) {
            Ok(v) => v,
            Err(e) => {
                let error = GraphError::Read(e);
                assert(edge_fails(tokens, end, *parse_weight, n, i as int, error));
                return Err(error);
            },
        };
        proof {
            lemma_skip_step(tokens, at + 2);
        }
        let weight = match next_val(ws, parse_weight) {
            Ok(v) => v,
            Err(e) => {
                let error = GraphError::Read(e);
                assert(edge_fails(tokens, end, *parse_weight, n, i as int, error));
                return Err(error);
            },
        };
        assert(weight_at(tokens, *parse_weight, at + 2, weight));
        if source >= vertex_count || target >= vertex_count {
            let error = GraphError::VertexOutOfRange { edge: i };
            assert(edge_fails(tokens, end, *parse_weight, n, i as int, error));
            return Err(error);
        }
        edges.push(Edge { source, target, weight });
        i = i + 1;
    }
    let mut vertex_weights: Vec<u32> = Vec::new();
    let mut j: usize = 0;
    while j < vertex_count
        invariant
            forall|s: &str| call_requires(*parse_weight, (s,)),
            end == old(ws)@.end,
            n == vertex_count,
            m == edge_count,
            ws@.end == end,
            counts_at(tokens, n, m),
            edges@.len() == m,
            edges_at(tokens, *parse_weight, n, edges@),
            j <= vertex_count,
            weight_place(m, j as int) <= tokens.len(),
            ws@.tokens() == tokens.skip(weight_place(m, j as int)),
            vertex_weights@.len() == j,
            weights_at(tokens, *parse_weight, m, vertex_weights@),
        decreases vertex_count - j,
    {
        proof {
            lemma_edges_ok(tokens, *parse_weight, n, edges@);
            lemma_weights_ok(tokens, *parse_weight, m, vertex_weights@);
            lemma_skip_step(tokens, weight_place(m, j as int));
        }
        let weight = match next_val(ws, parse_weight) {
            Ok(v) => v,
            Err(e) => {
                let error = GraphError::Read(e);
                assert(weight_fails_at(
                    tokens,
                    end,
                    *parse_weight,
                    weight_place(m, j as int),
                    error,
                ));
                return Err(error);
            },
        };
        vertex_weights.push(weight);
        j = j + 1;
    }
    Ok(Graph { vertex_count, edges, vertex_weights })
}

/// Reads a graph from the token stream.
///
/// The tokens are read in order: the number of vertices and the number of
/// edges; for each edge its source, its target and its weight; then a weight
/// for each vertex. Counts and vertices are unsigned decimal numbers, weights
/// are whatever `parse_weight` makes of their tokens. An edge must join
/// vertices of the graph. Reading stops at the first token that is missing
/// or cannot be read, and at the first edge that names a vertex the graph
/// does not have; the error says which of these it was.
pub fn read_graph<F: Fn(&str) -> Result<u32, String>>(
    ws: &mut WhitespaceSplit,
    parse_weight: &F,
) -> (r: Result<Graph, GraphError>)
    requires
        forall|s: &str| call_requires(*parse_weight, (s,)),
    ensures
        final(ws)@.end == old(ws)@.end,
        exists|used: int|
            0 <= used <= old(ws)@.tokens().len() && final(ws)@.tokens() == old(ws)@.tokens().skip(
                used,
            ),
        match r {
            Ok(graph) => {
                &&& describes(old(ws)@.tokens(), *parse_weight, graph)
                &&& final(ws)@.tokens() == old(ws)@.tokens().skip(
                    weight_place(graph.edges@.len() as int, graph.vertex_count as int),
                )
            },
            Err(error) => rejects(old(ws)@.tokens(), old(ws)@.end, *parse_weight, error),
        },
{
    let ghost tokens = ws@.tokens();
    let (vertex_count, edge_count) = match read_counts(ws) {
        Ok(counts) => counts,
        Err(error) => {
            return Err(error);
        },
    };
    read_parts(ws, Ghost(tokens), vertex_count, edge_count, parse_weight)
}

} // verus!
