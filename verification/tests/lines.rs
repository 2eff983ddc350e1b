use history_viewer::lines::split_lines;

#[test]
fn split_lines_drops_line_ends_and_blank_lines() {
    let lines = split_lines(b"{\"a\":1}\r\n\n{\"b\":2}\n\r\nlast");
    assert_eq!(
        lines,
        vec![b"{\"a\":1}".to_vec(), b"{\"b\":2}".to_vec(), b"last".to_vec()]
    );
    assert!(split_lines(b"").is_empty());
    assert!(split_lines(b"\n\n").is_empty());
}
