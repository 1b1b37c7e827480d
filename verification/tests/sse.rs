use handy_net::remote_client::RemoteStreamEvent;
use handy_net::sse::{parse_sse_frame, EventReader};

fn field<'a>(event: &'a serde_json::Value, name: &str) -> Option<&'a str> {
    event.get(name).and_then(|value| value.as_str())
}

#[test]
fn sse_frame_parses_a_text_event() {
    let frame = "data: {\"type\":\"text\",\"committed\":\"hello\",\"tentative\":\" world\"}\n\n";
    match parse_sse_frame(frame) {
        Some(payload) => {
            let event: serde_json::Value = serde_json::from_str(&payload).unwrap();
            assert_eq!(field(&event, "type"), Some("text"));
            assert_eq!(field(&event, "committed"), Some("hello"));
            assert_eq!(field(&event, "tentative"), Some(" world"));
        }
        other => panic!("unexpected event: {other:?}"),
    }
}

#[test]
fn sse_keepalive_comment_yields_no_event() {
    assert!(parse_sse_frame(":keep-alive\n\n").is_none());
}

#[test]
fn only_data_lines_matter() {
    let frame = "event: text\nid: 7\ndata: one\n: comment\ndata:two \ndata\n data: three\n\n";
    assert_eq!(parse_sse_frame(frame).unwrap(), "one\ntwo");
    assert_eq!(parse_sse_frame(""), None);
    assert_eq!(parse_sse_frame("data:").unwrap(), "");
    assert_eq!(parse_sse_frame("data: no line feed").unwrap(), "no line feed");
}

#[test]
fn both_line_endings_are_understood() {
    assert_eq!(parse_sse_frame("data: a\r\ndata: b\r\n").unwrap(), "a\nb");
    assert_eq!(parse_sse_frame("data: a\n\n\ndata: b\n").unwrap(), "a\nb");
}

#[test]
fn frames_come_out_when_they_are_complete() {
    let mut reader = EventReader::opened(Some(200));
    assert_eq!(reader.next_frame(), None);
    reader.push_chunk(b"data: a\n");
    assert_eq!(reader.next_frame(), None);
    reader.push_chunk(b"\ndata: b\n\nda");
    assert_eq!(reader.next_frame().unwrap(), "data: a\n\n");
    assert_eq!(reader.next_frame().unwrap(), "data: b\n\n");
    assert_eq!(reader.next_frame(), None);
    reader.push_chunk(b"ta: c\n\n");
    assert_eq!(reader.next_frame().unwrap(), "data: c\n\n");
}

#[test]
fn frames_without_payload_are_passed_over() {
    let mut reader = EventReader::opened(Some(200));
    reader.push_chunk(b":\n\n:\n\ndata: {}\n\n:\n\n");
    assert_eq!(reader.next_payload().unwrap(), "{}");
    assert_eq!(reader.next_payload(), None);
    reader.push_chunk(b"data: x\n\n");
    assert_eq!(reader.next_payload().unwrap(), "x");
}

#[test]
fn the_split_into_chunks_does_not_matter() {
    let stream = "data: one\n\n:\n\n\n\ndata: zwei ist zwei\ndata: more\n\ndata: incomplete\n";
    let read = |size: usize| {
        let mut reader = EventReader::opened(Some(200));
        let mut payloads: Vec<String> = Vec::new();
        let mut frames = 0;
        let mut plain = EventReader::opened(Some(200));
        for chunk in stream.as_bytes().chunks(size) {
            reader.push_chunk(chunk);
            while let Some(payload) = reader.next_payload() {
                payloads.push(payload);
            }
            plain.push_chunk(chunk);
            while plain.next_frame().is_some() {
                frames += 1;
            }
        }
        (payloads, frames)
    };
    let whole = read(stream.len());
    assert_eq!(whole.0, ["one", "zwei ist zwei\nmore"]);
    assert_eq!(whole.1, 4);
    for size in 1..stream.len() {
        assert_eq!(read(size), whole);
    }
}

#[test]
fn frames_and_rest_are_the_whole_text() {
    let stream = "data: a\n\n\n\n\ndata: b\n\nrest";
    let mut reader = EventReader::opened(Some(200));
    reader.push_chunk(stream.as_bytes());
    let mut text = String::new();
    while let Some(frame) = reader.next_frame() {
        text.push_str(&frame);
    }
    reader.push_chunk(b"\n\n");
    text.push_str(&reader.next_frame().unwrap());
    assert_eq!(text, format!("{stream}\n\n"));
}

#[test]
fn text_is_read_as_utf8() {
    let mut reader = EventReader::opened(Some(200));
    reader.push_chunk("data: perché 今\n\n".as_bytes());
    assert_eq!(reader.next_payload().unwrap(), "perché 今");
    reader.push_chunk(b"data: \xff\n\n");
    assert_eq!(reader.next_payload().unwrap(), "\u{fffd}");
}

#[test]
fn a_cut_inside_a_character_changes_nothing() {
    let bytes = "data: é\n\n".as_bytes();
    let mut reader = EventReader::opened(Some(200));
    reader.push_chunk(&bytes[..7]);
    assert_eq!(reader.next_payload(), None);
    reader.push_chunk(&bytes[7..]);
    assert_eq!(reader.next_payload().unwrap(), "é");
}

#[test]
fn any_cut_gives_the_same_events() {
    let text = "data: perché 今天\n\n:\n\ndata: 😀\ndata: ü\n\n";
    let expected = ["perché 今天", "😀\nü"];
    for at in 0..=text.len() {
        let mut reader = EventReader::opened(Some(200));
        let mut payloads: Vec<String> = Vec::new();
        for chunk in [&text.as_bytes()[..at], &text.as_bytes()[at..]] {
            reader.push_chunk(chunk);
            while let Some(payload) = reader.next_payload() {
                payloads.push(payload);
            }
        }
        assert_eq!(payloads, expected, "{at}");
    }
    let mut reader = EventReader::opened(Some(200));
    let mut payloads: Vec<String> = Vec::new();
    for byte in text.as_bytes().chunks(1) {
        reader.push_chunk(byte);
        while let Some(payload) = reader.next_payload() {
            payloads.push(payload);
        }
    }
    assert_eq!(payloads, expected);
}

#[test]
fn invalid_bytes_are_replaced_within_their_frame() {
    let mut reader = EventReader::opened(Some(200));
    reader.push_chunk(b"data: \xc3\n\n\xa9data: x\n\ndata: y\n\n");
    assert_eq!(reader.next_payload().unwrap(), "\u{fffd}");
    assert_eq!(reader.next_payload().unwrap(), "y");
}

#[test]
fn nothing_is_told_after_the_last_event() {
    let text = RemoteStreamEvent::Text {
        committed: "a".to_string(),
        tentative: String::new(),
    };
    let ends = [
        RemoteStreamEvent::Final { text: "a".to_string() },
        RemoteStreamEvent::Error { message: "b".to_string() },
    ];
    for end in ends {
        let mut reader = EventReader::opened(Some(200));
        reader.push_chunk(b"data: 1\n\ndata: 2\n\ndata: 3\n\n");
        assert_eq!(reader.next_payload().unwrap(), "1");
        assert!(!reader.delivered(&text));
        assert!(!reader.delivered(&RemoteStreamEvent::Phase {}));
        assert!(reader.more());
        assert_eq!(reader.next_payload().unwrap(), "2");
        assert!(reader.delivered(&end));
        assert!(!reader.more());
        assert_eq!(reader.next_payload(), None);
        reader.push_chunk(b"data: 4\n\n");
        assert_eq!(reader.next_payload(), None);
        assert!(!reader.delivered(&text));
        assert!(!reader.more());
    }
}

#[test]
fn a_refused_request_opens_no_channel() {
    for status in [None, Some(199), Some(300), Some(401), Some(404), Some(503)] {
        let mut reader = EventReader::opened(status);
        assert!(!reader.more());
        reader.push_chunk(b"data: 1\n\n");
        assert_eq!(reader.next_payload(), None);
    }
    assert!(EventReader::opened(Some(204)).more());
}
