use graph_reader::extract::ReadError;
use graph_reader::graph::{read_graph, Edge, Graph, GraphError};
use graph_reader::matrix::adjacency_matrix;
use graph_reader::render::render_matrix;
use graph_reader::tokens::{whitespace_split, SourceEnd, WhitespaceSplit};

fn stream(text: &str, end: SourceEnd) -> WhitespaceSplit {
    whitespace_split(text.lines().map(String::from).collect(), end)
}

fn weight(token: &str) -> Result<u32, String> {
    token.parse::<f32>().map(f32::to_bits).map_err(|e| e.to_string())
}

fn show(bits: u32) -> String {
    format!("{}", f32::from_bits(bits))
}

fn read(text: &str) -> Result<Graph, GraphError> {
    read_graph(&mut stream(text, SourceEnd::Complete), &weight)
}

fn run(text: &str) -> Option<String> {
    let graph = read(text).ok()?;
    let matrix = adjacency_matrix(graph.vertex_count, &graph.edges).ok()?;
    Some(render_matrix(&matrix, &show))
}

fn edge(source: usize, target: usize, weight: f32) -> Edge {
    Edge { source, target, weight: weight.to_bits() }
}

fn malformed(token: &str, diagnostic: &str) -> GraphError {
    GraphError::Read(ReadError::Malformed {
        token: token.to_string(),
        diagnostic: diagnostic.to_string(),
    })
}

fn float_diagnostic(token: &str) -> String {
    token.parse::<f32>().unwrap_err().to_string()
}

#[test]
fn end_to_end_example() {
    let graph = read("2 1\n0 1 3.5\n1.0 2.0\n").unwrap();
    assert_eq!(
        graph,
        Graph {
            vertex_count: 2,
            edges: vec![edge(0, 1, 3.5)],
            vertex_weights: vec![1.0f32.to_bits(), 2.0f32.to_bits()],
        }
    );
    assert_eq!(run("2 1\n0 1 3.5\n1.0 2.0\n"), Some("0 3.5 \n0 0 \n".to_string()));
}

#[test]
fn layout_of_the_lines_does_not_matter() {
    let expected = read("2 1\n0 1 3.5\n1.0 2.0\n").unwrap();
    assert_eq!(read("2\n1\n0\n1\n3.5\n1.0\n2.0").unwrap(), expected);
    assert_eq!(read("2 1 0 1 3.5 1.0 2.0").unwrap(), expected);
    assert_eq!(read("2 1 0\n1 3.5 1.0\n2.0\n").unwrap(), expected);
}

#[test]
fn graph_without_vertices_and_edges() {
    let graph = read("0 0").unwrap();
    assert_eq!(graph, Graph { vertex_count: 0, edges: vec![], vertex_weights: vec![] });
    assert_eq!(run("0 0"), Some(String::new()));
}

#[test]
fn graph_without_edges() {
    let graph = read("3 0\n1 2 3").unwrap();
    assert_eq!(graph.vertex_count, 3);
    assert!(graph.edges.is_empty());
    assert_eq!(graph.vertex_weights, vec![1.0f32.to_bits(), 2.0f32.to_bits(), 3.0f32.to_bits()]);
    assert_eq!(run("3 0\n1 2 3"), Some("0 0 0 \n0 0 0 \n0 0 0 \n".to_string()));
}

#[test]
fn edges_are_kept_in_input_order() {
    let graph = read("3 3\n2 1 0.5\n0 0 1\n2 1 4\n0 0 0").unwrap();
    assert_eq!(graph.edges, vec![edge(2, 1, 0.5), edge(0, 0, 1.0), edge(2, 1, 4.0)]);
}

#[test]
fn later_duplicate_edge_wins_in_the_matrix() {
    assert_eq!(
        run("3 3\n2 1 0.5\n0 0 1\n2 1 4\n0 0 0"),
        Some("1 0 0 \n0 0 0 \n0 4 0 \n".to_string())
    );
}

#[test]
fn tokens_after_the_graph_stay_in_the_stream() {
    let mut ws = stream("1 0\n2.5 rest of\nthe input", SourceEnd::Complete);
    let graph = read_graph(&mut ws, &weight).unwrap();
    assert_eq!(graph.vertex_weights, vec![2.5f32.to_bits()]);
    assert_eq!(ws.next(), Some(Ok("rest".to_string())));
    assert_eq!(ws.next(), Some(Ok("of".to_string())));
    assert_eq!(ws.next(), Some(Ok("the".to_string())));
}

#[test]
fn malformed_count_is_reported_and_nothing_is_written() {
    assert_eq!(read("abc 1\n0 1 3.5\n1 2"), Err(malformed("abc", "invalid digit found in string")));
    assert_eq!(run("abc 1\n0 1 3.5\n1 2"), None);
    assert_eq!(read("2 -1\n0 1 3.5\n1 2"), Err(malformed("-1", "invalid digit found in string")));
}

#[test]
fn malformed_vertex_is_reported() {
    assert_eq!(read("2 1\nx 1 3.5\n1 2"), Err(malformed("x", "invalid digit found in string")));
    assert_eq!(read("2 1\n0 1.0 3.5\n1 2"), Err(malformed("1.0", "invalid digit found in string")));
}

#[test]
fn malformed_weight_is_reported() {
    assert_eq!(read("2 1\n0 1 w\n1 2"), Err(malformed("w", &float_diagnostic("w"))));
    assert_eq!(read("2 1\n0 1 3.5\n1 2,0"), Err(malformed("2,0", &float_diagnostic("2,0"))));
    assert_eq!(run("2 1\n0 1 3.5\n1 2,0"), None);
}

#[test]
fn doubled_separator_is_a_malformed_empty_token() {
    assert_eq!(
        read("2  1\n0 1 3.5\n1 2"),
        Err(malformed("", "cannot parse integer from empty string"))
    );
    assert_eq!(read("2 1\n0 1 3.5 \n1 2"), Err(malformed("", &float_diagnostic(""))));
}

#[test]
fn input_that_ends_too_early_is_an_error() {
    for text in ["", "2", "2 1", "2 1\n0", "2 1\n0 1", "2 1\n0 1 3.5", "2 1\n0 1 3.5\n1.0"] {
        assert_eq!(read(text), Err(GraphError::Read(ReadError::UnexpectedEnd)), "input {:?}", text);
    }
}

#[test]
fn edge_outside_the_graph_is_an_error() {
    assert_eq!(read("2 1\n0 2 3.5\n1 2"), Err(GraphError::VertexOutOfRange { edge: 0 }));
    assert_eq!(read("2 2\n0 1 3.5\n2 0 1\n1 2"), Err(GraphError::VertexOutOfRange { edge: 1 }));
    assert_eq!(read("0 1\n0 0 1"), Err(GraphError::VertexOutOfRange { edge: 0 }));
}

#[test]
fn first_fault_in_input_order_is_reported() {
    assert_eq!(read("2 2\n0 9 w\n0 0 1\n1 2"), Err(malformed("w", &float_diagnostic("w"))));
    assert_eq!(read("2 2\n0 9 1\n0 0 w\n1 2"), Err(GraphError::VertexOutOfRange { edge: 0 }));
    assert_eq!(read("2 2\n0 9 1"), Err(GraphError::VertexOutOfRange { edge: 0 }));
    assert_eq!(read("2 2\nx 9 w"), Err(malformed("x", "invalid digit found in string")));
}

#[test]
fn failed_source_is_reported_when_a_token_is_missing() {
    let mut ws = stream("2 1\n0 1", SourceEnd::Failed);
    assert_eq!(read_graph(&mut ws, &weight), Err(GraphError::Read(ReadError::SourceFailed)));
}

#[test]
fn failed_source_does_not_matter_after_the_graph() {
    let mut ws = stream("1 0\n4", SourceEnd::Failed);
    let graph = read_graph(&mut ws, &weight).unwrap();
    assert_eq!(graph.vertex_weights, vec![4.0f32.to_bits()]);
}

#[test]
fn malformed_token_comes_before_the_failure_of_the_source() {
    let mut ws = stream("2 one", SourceEnd::Failed);
    assert_eq!(read_graph(&mut ws, &weight), Err(malformed("one", "invalid digit found in string")));
}
