use unified_ai::frame::{FrameAssembler, Grammar};

fn rec(text: &str) -> Vec<u8> {
    text.as_bytes().to_vec()
}

#[test]
fn newline_grammar_splits_at_every_line_feed() {
    let mut assembler = FrameAssembler::new(Grammar::NewlineJson);
    let records = assembler.feed(b"{\"a\":1}\n{\"b\":2}\n{\"c\"");
    assert_eq!(records, vec![rec("{\"a\":1}"), rec("{\"b\":2}")]);
    let records = assembler.feed(b":3}\n");
    assert_eq!(records, vec![rec("{\"c\":3}")]);
    assert!(assembler.finalize().is_empty());
}

#[test]
fn newline_grammar_drops_empty_lines() {
    let mut assembler = FrameAssembler::new(Grammar::NewlineJson);
    let records = assembler.feed(b"\n\nx\n\n\ny\n");
    assert_eq!(records, vec![rec("x"), rec("y")]);
}

#[test]
fn newline_grammar_keeps_a_line_that_begins_with_a_colon() {
    let mut assembler = FrameAssembler::new(Grammar::NewlineJson);
    assert_eq!(assembler.feed(b": not a comment here\n"), vec![rec(": not a comment here")]);
}

#[test]
fn event_grammar_waits_for_the_blank_line() {
    let mut assembler = FrameAssembler::new(Grammar::EventStream);
    assert!(assembler.feed(b"data: one\n").is_empty());
    assert_eq!(assembler.feed(b"\n"), vec![rec("data: one")]);
    assert!(assembler.feed(b"data: two").is_empty());
    assert_eq!(assembler.finalize(), vec![rec("data: two")]);
    assert!(assembler.finalize().is_empty());
}

#[test]
fn event_grammar_yields_each_line_of_a_block_and_drops_comments() {
    let mut assembler = FrameAssembler::new(Grammar::EventStream);
    let records = assembler.feed(b"event: ping\ndata: {}\n: keep-alive\n\n: only a comment\n\ndata: x\n\n");
    assert_eq!(records, vec![rec("event: ping"), rec("data: {}"), rec("data: x")]);
}

#[test]
fn event_grammar_handles_a_boundary_split_across_chunks() {
    let mut assembler = FrameAssembler::new(Grammar::EventStream);
    assert!(assembler.feed(b"data: a\n").is_empty());
    assert_eq!(assembler.feed(b"\ndata: b\n"), vec![rec("data: a")]);
    assert_eq!(assembler.feed(b"\n"), vec![rec("data: b")]);
}

#[test]
fn event_grammar_takes_the_first_blank_line_of_three_line_feeds() {
    let mut assembler = FrameAssembler::new(Grammar::EventStream);
    assert_eq!(assembler.feed(b"a\n\n\nb\n\n"), vec![rec("a"), rec("b")]);
}

#[test]
fn finalize_yields_what_was_left_open_once() {
    let mut assembler = FrameAssembler::new(Grammar::NewlineJson);
    assert!(assembler.feed(b"tail without newline").is_empty());
    assert_eq!(assembler.finalize(), vec![rec("tail without newline")]);
    assert!(assembler.finalize().is_empty());
    assert_eq!(assembler.feed(b"next\n"), vec![rec("next")]);
}

fn all_records(grammar: Grammar, chunks: &[&[u8]]) -> Vec<Vec<u8>> {
    let mut assembler = FrameAssembler::new(grammar);
    let mut out = Vec::new();
    for chunk in chunks {
        out.extend(assembler.feed(chunk));
    }
    out.extend(assembler.finalize());
    out
}

#[test]
fn a_stream_split_at_any_offset_yields_the_records_of_the_whole() {
    let streams: [(&[u8], Grammar); 3] = [
        (b"{\"a\":1}\n\n{\"b\":2}\nrest", Grammar::NewlineJson),
        (b"data: a\n\n: c\ndata: b\n\n\n\ndata: [DONE]\n\ntail\nmore", Grammar::EventStream),
        (b"\n\n\n", Grammar::EventStream),
    ];
    for (stream, grammar) in streams {
        let whole = all_records(grammar, &[stream]);
        for at in 0..=stream.len() {
            let split = all_records(grammar, &[&stream[..at], &stream[at..]]);
            assert_eq!(split, whole, "split at {}", at);
        }
        let bytewise: Vec<&[u8]> = stream.chunks(1).collect();
        assert_eq!(all_records(grammar, &bytewise), whole);
    }
}

#[test]
fn discard_forgets_what_was_left_open() {
    let mut assembler = FrameAssembler::new(Grammar::NewlineJson);
    assert!(assembler.feed(b"half a li").is_empty());
    assembler.discard();
    assert_eq!(assembler.feed(b"ne\n"), vec![rec("ne")]);
    assert!(assembler.finalize().is_empty());
}
