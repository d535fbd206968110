//! The whole way from the token stream to the text of the adjacency matrix.

use crate::graph::{
    describes, number_ok, number_value, read_counts, read_parts, rejects, Graph, GraphError,
};
use crate::matrix::{adjacency_spec, can_store, fill, storable};
use crate::render::{render_matrix, renders};
use crate::tokens::WhitespaceSplit;
use vstd::prelude::*;

verus! {

/// Why no text was produced.
#[derive(Debug, PartialEq, Eq)]
pub enum RunError {
    /// No graph could be read from the input.
    Input(GraphError),
    /// The input asks for more vertices than a matrix can have rows.
    TooLarge,
}

/// Reads a graph from the token stream and writes its adjacency matrix as
/// text.
///
/// Whether the matrix can be allocated is settled as soon as the number of
/// vertices is known, before any edge is read, and the text comes only once
/// the whole graph has been read: an input that cannot be read, or that asks
/// for a matrix that cannot be allocated, gives an error and no text at all.
pub fn adjacency_text<F: Fn(&str) -> Result<u32, String>, S: Fn(u32) -> String>(
    ws: &mut WhitespaceSplit,
    parse_weight: &F,
    show_weight: &S,
) -> (r: Result<String, RunError>)
    requires
        forall|s: &str| call_requires(*parse_weight, (s,)),
        forall|weight: u32| call_requires(*show_weight, (weight,)),
    ensures
        final(ws)@.end == old(ws)@.end,
        exists|used: int|
            0 <= used <= old(ws)@.tokens().len() && final(ws)@.tokens() == old(ws)@.tokens().skip(
                used,
            ),
        match r {
            Ok(text) => exists|graph: Graph|
                {
                    &&& #[trigger] describes(old(ws)@.tokens(), *parse_weight, graph)
                    &&& storable(graph.vertex_count as int)
                    &&& renders(
                        adjacency_spec(graph.vertex_count as int, graph.edges@),
                        *show_weight,
                        text@,
                    )
                },
            Err(RunError::TooLarge) => {
                &&& number_ok(old(ws)@.tokens(), 0)
                &&& number_ok(old(ws)@.tokens(), 1)
                &&& !storable(number_value(old(ws)@.tokens(), 0) as int)
            },
            Err(RunError::Input(error)) => {
                &&& rejects(old(ws)@.tokens(), old(ws)@.end, *parse_weight, error)
                &&& number_ok(old(ws)@.tokens(), 0) && number_ok(old(ws)@.tokens(), 1) ==> storable(
                    number_value(old(ws)@.tokens(), 0) as int,
                )
            },
        },
{
    let ghost tokens = ws@.tokens();
    let (vertex_count, edge_count) = match read_counts(ws) {
        Ok(counts) => counts,
        Err(error) => {
            return Err(RunError::Input(error));
        },
    };
    if !can_store(vertex_count) {
        return Err(RunError::TooLarge);
    }
    let graph = match read_parts(ws, Ghost(tokens), vertex_count, edge_count, parse_weight) {
        Ok(graph) => graph,
        Err(error) => {
            return Err(RunError::Input(error));
        },
    };
    proof {
        assert forall|k: int| 0 <= k < graph.edges@.len() implies (#[trigger] graph.edges@[k]).in_range(
            graph.vertex_count as int,
        ) by {}
    }
    let matrix = fill(graph.vertex_count, &graph.edges);
    Ok(render_matrix(&matrix, show_weight))
}

} // verus!
