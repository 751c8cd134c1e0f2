use monolith::ascii_error::AsciiError;
use monolith::ascii_listener::{extract_line, listener_step, ListenerAction, ListenerEvent};

#[test]
fn extract_line_returns_one_complete_line() {
    let mut buffer = b"abc\r\n".to_vec();

    let line = extract_line(&mut buffer);

    assert_eq!(line, Some(b"abc".to_vec()));
    assert!(buffer.is_empty());
}

#[test]
fn extract_line_keeps_tail_after_complete_line() {
    let mut buffer = b"abc\r\ndef".to_vec();

    let line = extract_line(&mut buffer);

    assert_eq!(line, Some(b"abc".to_vec()));
    assert_eq!(buffer, b"def".to_vec());
}

#[test]
fn extract_line_returns_none_for_incomplete_line() {
    let mut buffer = b"abc\r".to_vec();

    let line = extract_line(&mut buffer);

    assert_eq!(line, None);
    assert_eq!(buffer, b"abc\r".to_vec());
}

#[test]
fn extract_line_returns_empty_line() {
    let mut buffer = b"\r\n".to_vec();

    let line = extract_line(&mut buffer);

    assert_eq!(line, Some(Vec::new()));
    assert!(buffer.is_empty());
}

#[test]
fn extract_line_can_extract_two_lines_sequentially() {
    let mut buffer = b"abc\r\ndef\r\n".to_vec();

    let first = extract_line(&mut buffer);
    let second = extract_line(&mut buffer);
    let third = extract_line(&mut buffer);

    assert_eq!(first, Some(b"abc".to_vec()));
    assert_eq!(second, Some(b"def".to_vec()));
    assert_eq!(third, None);
    assert!(buffer.is_empty());
}

#[test]
fn extract_line_takes_first_crlf_only() {
    let mut buffer = b"a\rb\n\r\r\nrest".to_vec();
    let line = extract_line(&mut buffer);
    assert_eq!(line, Some(b"a\rb\n\r".to_vec()));
    assert_eq!(buffer, b"rest".to_vec());
}

fn deliver(buffer: &mut Vec<u8>, chunk: &[u8]) -> Vec<String> {
    match listener_step(buffer, ListenerEvent::Received(chunk.to_vec())) {
        ListenerAction::Deliver(lines) => lines,
        ListenerAction::Abort(_) => panic!("unexpected abort"),
    }
}

#[test]
fn listener_step_delivers_complete_non_blank_lines() {
    let mut buffer = Vec::new();
    let lines = deliver(&mut buffer, b"one\r\n  \r\n\r\ntwo\r\nthr");
    assert_eq!(lines, vec!["one".to_string(), "two".to_string()]);
    assert_eq!(buffer, b"thr".to_vec());
    let lines = deliver(&mut buffer, b"ee\r\n");
    assert_eq!(lines, vec!["three".to_string()]);
    assert!(buffer.is_empty());
}

#[test]
fn listener_step_is_independent_of_chunking() {
    let stream: &[u8] = b"13.44 ppg,1\r\nx\r\n\t\r\nlast\r\npartial";
    let mut whole = Vec::new();
    let all_at_once = deliver(&mut whole, stream);
    for cut in 1..stream.len() {
        let mut buffer = Vec::new();
        let mut lines = deliver(&mut buffer, &stream[..cut]);
        lines.extend(deliver(&mut buffer, &stream[cut..]));
        assert_eq!(lines, all_at_once);
        assert_eq!(buffer, whole);
    }
}

#[test]
fn listener_step_decodes_invalid_utf8_lossily() {
    let mut buffer = Vec::new();
    let lines = deliver(&mut buffer, b"a\xffb\r\n");
    assert_eq!(lines, vec!["a\u{fffd}b".to_string()]);
}

#[test]
fn listener_step_ignores_timeouts_and_empty_reads() {
    let mut buffer = b"abc\r\n".to_vec();
    match listener_step(&mut buffer, ListenerEvent::TimedOut) {
        ListenerAction::Deliver(lines) => assert!(lines.is_empty()),
        ListenerAction::Abort(_) => panic!("unexpected abort"),
    }
    match listener_step(&mut buffer, ListenerEvent::Received(Vec::new())) {
        ListenerAction::Deliver(lines) => assert!(lines.is_empty()),
        ListenerAction::Abort(_) => panic!("unexpected abort"),
    }
    assert_eq!(buffer, b"abc\r\n".to_vec());
}

#[test]
fn listener_step_aborts_on_read_error() {
    let mut buffer = b"ab".to_vec();
    match listener_step(&mut buffer, ListenerEvent::Failed("broken pipe".to_string())) {
        ListenerAction::Abort(AsciiError::ReadError(msg)) => assert_eq!(msg, "broken pipe"),
        _ => panic!("expected abort"),
    }
    assert_eq!(buffer, b"ab".to_vec());
}
