use logtail::reassembler::Reassembler;

fn reassemble(lines: &[&str]) -> Vec<String> {
    let line_vecs: Vec<Vec<u8>> = lines.iter().map(|l| l.as_bytes().to_vec()).collect();
    logtail::reassembler::reassemble_all(&line_vecs)
        .into_iter()
        .map(|b| String::from_utf8(b).unwrap())
        .collect()
}

#[test]
fn consecutive_and_leading_sentinels_emit_no_blank_blocks() {
    let blocks = reassemble(&["---", "---", "   ", "---", "payload", "---", "---"]);
    assert_eq!(blocks, vec!["   \npayload\n".to_string()]);
    for block in &blocks {
        assert!(!block.trim().is_empty());
    }
}

#[test]
fn block_count_matches_non_empty_spans() {
    let blocks = reassemble(&["a", "---", "b", "c", "---", "---", "d"]);
    assert_eq!(blocks.len(), 3);
    assert_eq!(blocks, vec!["a\n".to_string(), "b\nc\n".to_string(), "d\n".to_string()]);
}

#[test]
fn tabs_expand_to_exactly_four_spaces() {
    let blocks = reassemble(&["a\tb", "---"]);
    assert_eq!(blocks, vec!["a    b\n".to_string()]);
    let blocks = reassemble(&["\t\t", "x", "---"]);
    assert_eq!(blocks, vec!["        \nx\n".to_string()]);
}

#[test]
fn trailing_buffer_is_emitted_without_final_sentinel() {
    let blocks = reassemble(&["---", "last record"]);
    assert_eq!(blocks, vec!["last record\n".to_string()]);
}

#[test]
fn whitespace_only_tail_is_dropped() {
    let blocks = reassemble(&["a", "---", "  ", ""]);
    assert_eq!(blocks, vec!["a\n".to_string()]);
}

#[test]
fn feed_line_emits_block_at_sentinel() {
    let mut machine = Reassembler::new();
    assert_eq!(machine.feed_line(&b"hello".to_vec()), None);
    assert_eq!(machine.feed_line(&b"---".to_vec()), Some(b"hello\n".to_vec()));
    assert_eq!(machine.feed_line(&b"---".to_vec()), None);
    assert_eq!(machine.finish(), None);
}

#[test]
fn finish_returns_open_buffer() {
    let mut machine = Reassembler::new();
    assert_eq!(machine.feed_line(&b"tail".to_vec()), None);
    assert_eq!(machine.finish(), Some(b"tail\n".to_vec()));
}
