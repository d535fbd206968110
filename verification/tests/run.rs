use graph_reader::extract::ReadError;
use graph_reader::graph::GraphError;
use graph_reader::run::{adjacency_text, RunError};
use graph_reader::tokens::{whitespace_split, SourceEnd, WhitespaceSplit};

fn stream(text: &str, end: SourceEnd) -> WhitespaceSplit {
    whitespace_split(text.lines().map(String::from).collect(), end)
}

fn weight(token: &str) -> Result<u32, String> {
    token.parse::<f32>().map(f32::to_bits).map_err(|e| e.to_string())
}

fn show(bits: u32) -> String {
    format!("{}", f32::from_bits(bits))
}

fn run(text: &str) -> Result<String, RunError> {
    adjacency_text(&mut stream(text, SourceEnd::Complete), &weight, &show)
}

fn input(error: ReadError) -> RunError {
    RunError::Input(GraphError::Read(error))
}

#[test]
fn example_input_gives_example_output() {
    assert_eq!(run("2 1\n0 1 3.5\n1.0 2.0\n"), Ok("0 3.5 \n0 0 \n".to_string()));
}

#[test]
fn output_has_one_line_for_each_vertex() {
    let text = run("4 2\n0 3 1\n3 0 2\n0 0 0 0").unwrap();
    assert_eq!(text, "0 0 0 1 \n0 0 0 0 \n0 0 0 0 \n2 0 0 0 \n");
    assert_eq!(text.lines().count(), 4);
    assert!(text.lines().all(|line| line.ends_with(' ')));
    assert!(text.lines().all(|line| line.split(' ').count() == 5));
}

#[test]
fn later_duplicate_edge_is_the_one_that_is_printed() {
    assert_eq!(run("2 3\n1 0 1\n1 0 2\n1 0 -3.25\n0 0"), Ok("0 0 \n-3.25 0 \n".to_string()));
}

#[test]
fn vertex_weights_do_not_show_in_the_output() {
    assert_eq!(run("2 0\n7 8"), Ok("0 0 \n0 0 \n".to_string()));
    assert_eq!(run("2 0\n-1 1e9"), Ok("0 0 \n0 0 \n".to_string()));
}

#[test]
fn empty_graph_gives_empty_text() {
    assert_eq!(run("0 0"), Ok(String::new()));
}

#[test]
fn line_layout_of_the_input_does_not_change_the_output() {
    let expected = run("3 2\n0 1 0.5\n2 2 4\n1 1 1").unwrap();
    assert_eq!(run("3 2 0 1 0.5 2 2 4 1 1 1").unwrap(), expected);
    assert_eq!(run("3\n2\n0\n1\n0.5\n2\n2\n4\n1\n1\n1\n").unwrap(), expected);
    assert_eq!(run("3 2 0\n1 0.5 2\n2 4 1\n1 1").unwrap(), expected);
}

#[test]
fn malformed_token_gives_an_error_and_no_text() {
    assert_eq!(
        run("abc 1\n0 1 3.5\n1.0 2.0\n"),
        Err(input(ReadError::Malformed {
            token: "abc".to_string(),
            diagnostic: "invalid digit found in string".to_string(),
        }))
    );
    assert!(run("2 1\n0 1 3,5\n1.0 2.0\n").is_err());
    assert!(run("2 1\n0 1 3.5\n1.0 two\n").is_err());
}

#[test]
fn missing_tokens_give_an_error_and_no_text() {
    assert_eq!(run("2 1\n0 1 3.5\n1.0\n"), Err(input(ReadError::UnexpectedEnd)));
    assert_eq!(run(""), Err(input(ReadError::UnexpectedEnd)));
}

#[test]
fn failed_source_gives_an_error_and_no_text() {
    let mut ws = stream("2 1\n0 1 3.5", SourceEnd::Failed);
    assert_eq!(adjacency_text(&mut ws, &weight, &show), Err(input(ReadError::SourceFailed)));
}

#[test]
fn edge_outside_the_graph_gives_an_error_and_no_text() {
    assert_eq!(
        run("2 1\n2 0 1\n0 0"),
        Err(RunError::Input(GraphError::VertexOutOfRange { edge: 0 }))
    );
}

#[test]
fn graph_too_large_for_a_matrix_gives_an_error_and_no_text() {
    let text = format!("{} 0", usize::MAX);
    assert_eq!(run(&text), Err(RunError::TooLarge));
    let root = 1usize << (usize::BITS / 2);
    assert_eq!(run(&format!("{} 1\n0 0 1", root)), Err(RunError::TooLarge));
}

#[test]
fn size_is_checked_after_the_counts_and_before_the_edges() {
    let text = format!("{} x", usize::MAX);
    assert_eq!(
        run(&text),
        Err(input(ReadError::Malformed {
            token: "x".to_string(),
            diagnostic: "invalid digit found in string".to_string(),
        }))
    );
    let text = format!("{} 1\nx y z", usize::MAX);
    assert_eq!(run(&text), Err(RunError::TooLarge));
}
