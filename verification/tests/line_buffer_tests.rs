use mojentic::line_buffer::LineBuffer;

#[test]
fn line_buffer_returns_only_complete_lines() {
    let mut lines = LineBuffer::default();

    assert!(lines.push(b"data: {\"a\"").is_empty());
    assert_eq!(lines.push(b":1}\n\ndata: [DO"), vec![b"data: {\"a\":1}".to_vec(), vec![]]);
    assert_eq!(lines.push(b"NE]\n"), vec![b"data: [DONE]".to_vec()]);
}

#[test]
fn line_buffer_keeps_utf8_sequences_split_across_chunks() {
    let mut lines = LineBuffer::default();
    let text = "héllo\n".as_bytes();

    assert!(lines.push(&text[..2]).is_empty());
    let complete = lines.push(&text[2..]);

    assert_eq!(complete, vec!["héllo".as_bytes().to_vec()]);
}

#[test]
fn line_buffer_keeps_trailing_partial_line() {
    let mut lines = LineBuffer::new();
    assert_eq!(lines.push(b"a\nb\nc"), vec![b"a".to_vec(), b"b".to_vec()]);
    assert_eq!(lines.push(b"\n"), vec![b"c".to_vec()]);
}

#[test]
fn line_buffer_output_does_not_depend_on_chunking() {
    let stream = "data: {\"a\":1}\n\nh\u{e9}llo\nw\u{f6}rld\ntail".as_bytes();
    let expected: Vec<Vec<u8>> =
        vec![b"data: {\"a\":1}".to_vec(), vec![], "h\u{e9}llo".as_bytes().to_vec(), "w\u{f6}rld".as_bytes().to_vec()];
    for size in 1..=stream.len() {
        let mut buffer = LineBuffer::new();
        let mut out: Vec<Vec<u8>> = Vec::new();
        for chunk in stream.chunks(size) {
            out.extend(buffer.push(chunk));
        }
        assert_eq!(out, expected, "chunk size {}", size);
        assert_eq!(buffer.push(b"\n"), vec![b"tail".to_vec()]);
    }
}
