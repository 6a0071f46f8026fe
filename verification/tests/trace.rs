use netero::trace::{
    resolve_trace_socket_path, separator_for, separator_line, TraceEndpoint, TracePayload,
    TraceServer,
};

#[test]
fn two_messages_are_numbered_one_and_two() {
    let mut server = TraceServer::new();
    let line = separator_for(Some(12));
    assert_eq!(line, "...........\n");
    let first = server.receive(b"REQUEST\nhello", "2024-01-02 03:04:05", &line);
    assert_eq!(
        first,
        "\n\n...........\n\n\n[id=1 ts=2024-01-02 03:04:05]\nREQUEST\nhello\n"
    );
    let second = server.receive(b"RESPONSE\nworld", "2024-01-02 03:04:06", &line);
    assert_eq!(
        second,
        "\n\n...........\n\n\n[id=2 ts=2024-01-02 03:04:06]\nRESPONSE\nworld\n"
    );
    assert_eq!(server.counter, 2);
}

#[test]
fn a_payload_that_ends_with_a_newline_gets_no_other() {
    let mut server = TraceServer::new();
    let block = server.receive_text("K\nbody\n", "t", "--\n");
    assert_eq!(block, "\n\n--\n\n\n[id=1 ts=t]\nK\nbody\n");
    let bare = server.receive_text("only-kind", "t", "--\n");
    assert_eq!(bare, "\n\n--\n\n\n[id=2 ts=t]\nonly-kind\n\n");
    let empty = server.receive_text("", "t", "");
    assert_eq!(empty, "\n\n\n\n[id=3 ts=t]\n\n\n");
}

#[test]
fn the_sequence_number_wraps() {
    let mut server = TraceServer { counter: u64::MAX - 1 };
    let last = server.receive_text("a\nb", "t", "");
    assert!(last.contains("[id=18446744073709551615 ts=t]"));
    let wrapped = server.receive_text("a\nb", "t", "");
    assert!(wrapped.contains("[id=0 ts=t]"));
    assert_eq!(server.counter, 0);
}

#[test]
fn a_datagram_that_is_no_utf8_is_decoded_leniently() {
    let mut server = TraceServer::new();
    let block = server.receive(&[b'K', b'\n', 0xff, b'x'], "t", "");
    assert_eq!(block, "\n\n\n\n[id=1 ts=t]\nK\n\u{fffd}x\n");
}

#[test]
fn receive_now_stamps_and_separates() {
    let mut server = TraceServer::new();
    let block = server.receive_now(b"REQUEST\nhello");
    assert!(block.starts_with("\n\n"));
    assert!(block.contains("\n\n\n[id=1 ts="));
    assert!(block.ends_with("]\nREQUEST\nhello\n"));
    assert_eq!(server.counter, 1);
}

#[test]
fn the_separator_is_one_dot_short_of_the_width() {
    assert_eq!(separator_for(Some(1)), "\n");
    assert_eq!(separator_for(Some(0)), "\n");
    assert_eq!(separator_for(Some(3)), "..\n");
    assert_eq!(separator_for(None), format!("{}\n", ".".repeat(79)));
    assert_eq!(separator_for(Some(u16::MAX)).len(), 65535);
}

#[test]
fn the_separator_line_is_dots_and_a_newline() {
    let line = separator_line();
    assert!(line.ends_with('\n'));
    assert!(line[..line.len() - 1].chars().all(|c| c == '.'));
}

#[test]
fn payloads_are_a_kind_a_newline_and_a_body() {
    let request = TracePayload::request("the prompt\nline two");
    assert_eq!(request.kind, "REQUEST");
    assert_eq!(request.encode(), "REQUEST\nthe prompt\nline two");
    let response = TracePayload::response("");
    assert_eq!(response.encode(), "RESPONSE\n");
}

#[test]
fn a_payload_comes_out_of_its_datagram_as_it_went_in() {
    let sent = TracePayload { kind: "RESPONSE".to_string(), body: "a\n\nb\n".to_string() };
    let got = TracePayload::parse(&sent.encode());
    assert_eq!(got.kind, "RESPONSE");
    assert_eq!(got.body, "a\n\nb\n");
    let bare = TracePayload::parse("no newline");
    assert_eq!(bare.kind, "no newline");
    assert_eq!(bare.body, "");
    let lead = TracePayload::parse("\nrest");
    assert_eq!(lead.kind, "");
    assert_eq!(lead.body, "rest");
}

#[test]
fn the_override_wins_then_the_runtime_directory_then_the_fallback() {
    match resolve_trace_socket_path(Some(" /run/x.sock "), Some("/run/user/1")) {
        TraceEndpoint::Path(p) => assert_eq!(p, "/run/x.sock"),
        _ => panic!("the override must win"),
    }
    match resolve_trace_socket_path(Some("   "), Some(" /run/user/1\n")) {
        TraceEndpoint::InDirectory { dir, name } => {
            assert_eq!(dir, "/run/user/1");
            assert_eq!(name, "netero.trace.sock");
        }
        _ => panic!("a blank override does not count"),
    }
    match resolve_trace_socket_path(None, Some("")) {
        TraceEndpoint::Path(p) => assert_eq!(p, "/tmp/netero.trace.sock"),
        _ => panic!("the fallback is a path"),
    }
    match resolve_trace_socket_path(None, None) {
        TraceEndpoint::Path(p) => assert_eq!(p, "/tmp/netero.trace.sock"),
        _ => panic!("the fallback is a path"),
    }
}
