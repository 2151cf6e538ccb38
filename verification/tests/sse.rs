//! The event-stream reader.

use tensorlake_sandbox::sse::{SsePoll, SseReader};
use tensorlake_sandbox::text::{trim_text, CharClass};

/// Every event of a stream that comes in the given chunks.
fn events(chunks: &[&[u8]]) -> Vec<(String, String)> {
    let mut reader = SseReader::new();
    let mut events = Vec::new();
    for chunk in chunks {
        reader.push_chunk(chunk);
        loop {
            match reader.next_event() {
                SsePoll::Event(event) => events.push((event.event, event.data)),
                SsePoll::NeedMore => break,
                SsePoll::End => panic!("the stream goes on"),
            }
        }
    }
    reader.end_of_stream();
    loop {
        match reader.next_event() {
            SsePoll::Event(event) => events.push((event.event, event.data)),
            SsePoll::NeedMore => panic!("the stream has ended"),
            SsePoll::End => break,
        }
    }
    assert!(matches!(reader.next_event(), SsePoll::End));
    events
}

fn event(name: &str, data: &str) -> (String, String) {
    (name.to_string(), data.to_string())
}

#[test]
fn blank_lines_deliver_events() {
    let stream = b"event: output\ndata: one\n\ndata: two\n\n\n";
    assert_eq!(events(&[stream]), vec![event("output", "one"), event("", "two")]);
}

#[test]
fn data_lines_are_joined() {
    assert_eq!(events(&[b"data: a\ndata:b\ndata:  c\n\n"]), vec![event("", "a\nb\n c")]);
}

#[test]
fn an_empty_first_data_line_leaves_no_trace() {
    assert_eq!(events(&[b"data:\ndata: x\n\n"]), vec![event("", "x")]);
    assert_eq!(events(&[b"data: x\ndata:\n\n"]), vec![event("", "x\n")]);
}

#[test]
fn comments_and_unknown_fields_are_ignored() {
    assert_eq!(events(&[b": ping\nid: 4\nretry: 10\ndata: x\n\n"]), vec![event("", "x")]);
}

#[test]
fn names_are_trimmed() {
    assert_eq!(events(&[b"event:\t eof \ndata: {}\n\n"]), vec![event("eof", "{}")]);
}

#[test]
fn an_event_may_have_a_name_alone() {
    assert_eq!(events(&[b"event: eof\n\n"]), vec![event("eof", "")]);
}

#[test]
fn carriage_returns_belong_to_the_line_ending() {
    assert_eq!(events(&[b"data: x\r\n\r\ndata: y\r\r\n\n"]), vec![event("", "x"), event("", "y")]);
}

#[test]
fn a_stream_that_ends_in_an_event_still_delivers_it() {
    assert_eq!(events(&[b"data: x\n"]), vec![event("", "x")]);
    // A last line without a line feed is part of it.
    assert_eq!(events(&[b"data: x"]), vec![event("", "x")]);
    assert_eq!(events(&[b"data: x\ndata: y"]), vec![event("", "x\ny")]);
    assert_eq!(events(&[b"event: eof\ndata: x\r"]), vec![event("eof", "x")]);
    assert_eq!(events(&[b"data: x\n\nevent:", b" eof"]), vec![event("", "x"), event("eof", "")]);
    assert_eq!(events(&[b"data: x\n\r"]), vec![event("", "x")]);
    assert_eq!(events(&[b"data: x\n: ping"]), vec![event("", "x")]);
    assert_eq!(events(&[b": ping"]), vec![]);
    assert_eq!(events(&[b""]), vec![]);
}

#[test]
fn chunks_may_be_cut_anywhere() {
    let stream = "event: output\ndata: gr\u{fc}n \u{1f600}\n\ndata: two\r\n\r\nevent: eof\n\n";
    let whole = events(&[stream.as_bytes()]);
    assert_eq!(whole.len(), 3);
    assert_eq!(whole[0].1, "gr\u{fc}n \u{1f600}");
    for width in 1..stream.len() {
        let chunks: Vec<&[u8]> = stream.as_bytes().chunks(width).collect();
        assert_eq!(events(&chunks), whole);
    }
}

#[test]
fn bytes_that_are_not_text_are_replaced() {
    assert_eq!(events(&[b"data: a\xffb\n\n"]), vec![event("", "a\u{fffd}b")]);
}

#[test]
fn a_reader_takes_lines_one_by_one() {
    let mut reader = SseReader::new();
    reader.push_chunk(b"one\r\n\ntwo");
    assert_eq!(reader.take_line().as_deref(), Some("one"));
    assert_eq!(reader.take_line().as_deref(), Some(""));
    assert_eq!(reader.take_line(), None);
    assert!(reader.consume_line("data: x").is_none());
    let event = reader.consume_line("").expect("an event");
    assert_eq!(event.data, "x");
    assert!(reader.take_pending_event().is_none());
}

#[test]
fn white_space_is_what_unicode_says() {
    for code in 0..=0x10ffffu32 {
        if let Some(c) = char::from_u32(code) {
            assert_eq!(CharClass::White.contains(c), c.is_whitespace(), "{code:x}");
        }
    }
    assert_eq!(trim_text(" \u{3000}x y\n"), "x y");
}
