//! Reading a weighted directed graph from whitespace-separated text.
//!
//! The input is a sequence of lines. Each line is cut at every separator
//! character, the pieces of all lines form one stream of tokens, and typed
//! values are pulled from that stream one token at a time.
//!
//! - [`tokens`] cuts lines into tokens and hands them out in order.
//! - [`extract`] reads the next token as a value of some type.
//! - [`graph`] reads a graph: counts, edges and vertex weights.
//! - [`matrix`] builds the adjacency matrix of a list of edges.
//! - [`render`] writes a matrix as text.
//! - [`run`] does all of it in one call.
//!
//! The library does no input or output of its own, and no floating-point
//! arithmetic: it is given the lines of the input, a function that reads the
//! text of a weight, and one that writes it, and it carries weights as bit
//! patterns in between.

pub mod extract;
pub mod graph;
pub mod matrix;
pub mod render;
pub mod run;
pub mod tokens;
