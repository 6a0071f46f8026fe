use netero::stream::{classify_line, LineKind, Progress, StreamDecoder, StreamError};

fn chars(s: &str) -> Vec<char> {
    s.chars().collect()
}

const STREAM: &str = "data: {\"choices\":[{\"delta\":{\"content\":\"Hel\"}}]}\n\
data: {\"choices\":[{\"delta\":{\"content\":\"lo\"}}]}\n\
data: [DONE]\n";

#[test]
fn three_chunks_give_hello() {
    let mut decoder = StreamDecoder::new();
    let first = decoder.feed(b"data: {\"choices\":[{\"delta\":{\"content\":\"Hel\"}}]}\n");
    assert_eq!(first, vec!["Hel".to_string()]);
    let second = decoder.feed(b"data: {\"choices\":[{\"delta\":{\"content\":\"lo\"}}]}\n");
    assert_eq!(second, vec!["lo".to_string()]);
    assert!(decoder.is_active());
    let third = decoder.feed(b"data: [DONE]\n");
    assert!(third.is_empty());
    assert!(decoder.is_done());
    assert_eq!(decoder.finish().ok(), Some("Hello".to_string()));
}

#[test]
fn a_stream_that_ends_before_its_terminator_is_an_error() {
    let mut decoder = StreamDecoder::new();
    let shown = decoder.feed(b"data: {\"choices\":[{\"delta\":{\"content\":\"Hi\"}}]}\n");
    assert_eq!(shown, vec!["Hi".to_string()]);
    assert!(matches!(decoder.finish(), Err(StreamError::Incomplete)));
}

#[test]
fn an_empty_stream_is_incomplete() {
    assert!(matches!(StreamDecoder::new().finish(), Err(StreamError::Incomplete)));
}

#[test]
fn a_malformed_frame_fails_the_stream() {
    let mut decoder = StreamDecoder::new();
    let shown = decoder.feed(b"data: {\"choices\":[{\"delta\":{\"content\":\"a\"}}]}\ndata: {oops\ndata: [DONE]\n");
    assert_eq!(shown, vec!["a".to_string()]);
    assert!(!decoder.is_active());
    assert!(!decoder.is_done());
    assert!(decoder.feed(b"data: [DONE]\n").is_empty());
    match decoder.finish() {
        Err(StreamError::Malformed(reason)) => assert!(!reason.is_empty()),
        _ => panic!("a malformed frame must fail the stream"),
    }
}

#[test]
fn every_cut_of_the_stream_gives_the_same_message() {
    let bytes = STREAM.as_bytes();
    for cut in 0..=bytes.len() {
        let mut decoder = StreamDecoder::new();
        let mut shown = decoder.feed(&bytes[..cut]);
        shown.extend(decoder.feed(&bytes[cut..]));
        assert_eq!(shown, vec!["Hel".to_string(), "lo".to_string()]);
        assert_eq!(decoder.finish().ok(), Some("Hello".to_string()));
    }
}

#[test]
fn one_byte_at_a_time_gives_the_same_message() {
    let mut decoder = StreamDecoder::new();
    let mut shown: Vec<String> = Vec::new();
    for byte in STREAM.as_bytes() {
        shown.extend(decoder.feed(&[*byte]));
    }
    assert_eq!(shown, vec!["Hel".to_string(), "lo".to_string()]);
    assert_eq!(decoder.finish().ok(), Some("Hello".to_string()));
}

#[test]
fn text_after_the_terminator_is_not_read() {
    let mut decoder = StreamDecoder::new();
    decoder.feed(b"data: {\"choices\":[{\"delta\":{\"content\":\"x\"}}]}\ndata: [DONE]\ndata: {\"choices\":[{\"delta\":{\"content\":\"late\"}}]}\n");
    assert!(decoder.pending.is_empty());
    assert!(decoder.feed(b"data: {\"choices\":[{\"delta\":{\"content\":\"later\"}}]}\n").is_empty());
    assert_eq!(decoder.finish().ok(), Some("x".to_string()));
}

#[test]
fn an_unfinished_line_waits_for_its_end() {
    let mut decoder = StreamDecoder::new();
    assert!(decoder.feed_text("data: {\"choices\":[{\"del").is_empty());
    assert_eq!(decoder.pending, chars("data: {\"choices\":[{\"del"));
    let shown = decoder.feed_text("ta\":{\"content\":\"ok\"}}]}\nda");
    assert_eq!(shown, vec!["ok".to_string()]);
    assert_eq!(decoder.pending, chars("da"));
    decoder.feed_text("ta: [DONE]");
    assert!(decoder.is_active());
    decoder.feed_text("\n");
    assert!(decoder.is_done());
}

#[test]
fn lines_that_carry_nothing_are_skipped() {
    let mut decoder = StreamDecoder::new();
    let shown = decoder.feed_text(
        "\n: comment\nevent: ping\n   \r\ndata: {\"choices\":[{\"delta\":{}}]}\n\
data: {\"choices\":[{\"delta\":{\"content\":\"\"}}]}\ndata: {\"choices\":[]}\ndata: 7\n\
data: {\"choices\":[{\"delta\":{\"content\":5}}]}\n  data:{\"choices\":[{\"delta\":{\"content\":\"z\"}}]}  \r\ndata:[DONE]\r\n",
    );
    assert_eq!(shown, vec!["z".to_string()]);
    assert_eq!(decoder.finish().ok(), Some("z".to_string()));
}

#[test]
fn a_character_cut_in_two_is_lost() {
    let line = "data: {\"choices\":[{\"delta\":{\"content\":\"\u{e9}\"}}]}\n";
    let bytes = line.as_bytes();
    let cut = line.find('\u{e9}').unwrap() + 1;
    let mut whole = StreamDecoder::new();
    assert_eq!(whole.feed(bytes), vec!["\u{e9}".to_string()]);
    let mut halves = StreamDecoder::new();
    let mut shown = halves.feed(&bytes[..cut]);
    shown.extend(halves.feed(&bytes[cut..]));
    assert_eq!(shown, vec!["\u{fffd}\u{fffd}".to_string()]);
}

#[test]
fn classify_line_reads_the_three_kinds() {
    assert!(matches!(classify_line(&chars("")), LineKind::Skip));
    assert!(matches!(classify_line(&chars("event: x")), LineKind::Skip));
    assert!(matches!(classify_line(&chars("data")), LineKind::Skip));
    assert!(matches!(classify_line(&chars(" data:  [DONE] \r")), LineKind::Done));
    assert!(matches!(classify_line(&chars("data: [done]")), LineKind::Data(p) if p == "[done]"));
    assert!(matches!(classify_line(&chars("data: {\"a\": 1} ")), LineKind::Data(p) if p == "{\"a\": 1}"));
    assert!(matches!(classify_line(&chars("data:")), LineKind::Data(p) if p.is_empty()));
}

#[test]
fn accept_takes_what_the_parser_made() {
    let mut decoder = StreamDecoder::new();
    assert_eq!(decoder.accept(Ok(Some("a".to_string()))), Some("a".to_string()));
    assert_eq!(decoder.accept(Ok(None)), None);
    assert_eq!(decoder.accept(Ok(Some(String::new()))), None);
    assert_eq!(decoder.deltas, vec!["a".to_string()]);
    assert_eq!(decoder.accept(Err("bad".to_string())), None);
    assert!(matches!(&decoder.progress, Progress::Failed(reason) if reason == "bad"));
    assert_eq!(decoder.accept(Ok(Some("b".to_string()))), None);
    assert_eq!(decoder.deltas, vec!["a".to_string()]);
}

#[test]
fn accept_line_reads_one_line() {
    let mut decoder = StreamDecoder::new();
    let line = chars("data: {\"choices\":[{\"delta\":{\"content\":\"tok\"}}]}");
    assert_eq!(decoder.accept_line(&line), Some("tok".to_string()));
    assert_eq!(decoder.accept_line(&chars("data: [1, 2")), None);
    assert!(matches!(decoder.progress, Progress::Failed(_)));
}

#[test]
fn an_empty_payload_is_malformed() {
    let mut decoder = StreamDecoder::new();
    decoder.feed_text("data:\n");
    assert!(matches!(decoder.finish(), Err(StreamError::Malformed(_))));
}
