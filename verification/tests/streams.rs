use local_api_relay::protocol::{StreamProtocol, Usage};
use local_api_relay::sse::{sse_event_end, SseEvent, SseReader};
use local_api_relay::stream::{
    is_event_stream_content_type, is_terminal_sse_event, is_valid_sse_protocol_event,
    render_sse_event, responses_terminal_failure, ChunkStep, PrimeStep, SseRelay,
};

fn event(raw: &str) -> SseEvent {
    let mut reader = SseReader::new();
    reader.push(raw.as_bytes());
    reader.next_event().unwrap().unwrap()
}

const CHUNK: &str = r#"{"id":"c","object":"chat.completion.chunk","created":1,"model":"up","choices":[]}"#;

#[test]
fn event_ends() {
    assert_eq!(sse_event_end(b"data: x\n\nrest"), Some(9));
    assert_eq!(sse_event_end(b"data: x\r\n\r\nrest"), Some(11));
    assert_eq!(sse_event_end(b"data: x\r\rrest"), Some(9));
    assert_eq!(sse_event_end(b"data: x\n"), None);
    assert_eq!(sse_event_end(b""), None);
    assert_eq!(sse_event_end(b"a\r\n\r\nb\n\n"), Some(5));
    assert_eq!(sse_event_end(b"a\n\r\nb\n\n"), Some(7));
}

#[test]
fn events_are_read() {
    let read = event(": note\nevent: a\ndata: one\nevent:b\ndata:two\ndata\nid: 5\n\n");
    assert_eq!(read.event_type.as_deref(), Some("b"));
    assert_eq!(read.data.as_deref(), Some("one\ntwo\n"));
    let comment = event(": ping\n\n");
    assert_eq!(comment.event_type, None);
    assert_eq!(comment.data, None);
    let crlf = event("data: x\r\ndata:  y\r\n\r\n");
    assert_eq!(crlf.data.as_deref(), Some("x\n y"));
    let cr = event("data: x\r\r");
    assert_eq!(cr.data.as_deref(), Some("x\r"));
}

#[test]
fn chunking_does_not_matter() {
    let text = b"data: one\n\n: note\n\ndata: two\r\n\r\n";
    let mut whole = SseReader::new();
    whole.push(text);
    let mut expected = Vec::new();
    while let Some(event) = whole.next_event().unwrap() {
        expected.push((event.raw, event.data));
    }
    assert_eq!(expected.len(), 3);
    for size in 1..text.len() {
        let mut reader = SseReader::new();
        let mut found = Vec::new();
        for chunk in text.chunks(size) {
            reader.push(chunk);
            while let Some(event) = reader.next_event().unwrap() {
                found.push((event.raw, event.data));
            }
        }
        assert_eq!(found, expected, "chunks of {size}");
    }
}

#[test]
fn invalid_utf8_is_refused_and_dropped() {
    let mut reader = SseReader::new();
    reader.push(b"data: \xff\n\ndata: ok\n\n");
    let error = reader.next_event().unwrap_err();
    assert_eq!(error.message, "upstream SSE event is not valid UTF-8");
    assert_eq!(reader.next_event().unwrap().unwrap().data.as_deref(), Some("ok"));
}

#[test]
fn content_types() {
    assert!(is_event_stream_content_type("text/event-stream"));
    assert!(is_event_stream_content_type(" Text/Event-Stream ; charset=utf-8"));
    assert!(!is_event_stream_content_type("application/json"));
    assert!(!is_event_stream_content_type("text/event-streams"));
    assert!(!is_event_stream_content_type(""));
}

#[test]
fn protocol_events() {
    let chat = StreamProtocol::ChatCompletions;
    let responses = StreamProtocol::Responses;
    let chunk = event(&format!("data: {CHUNK}\n\n"));
    assert!(is_valid_sse_protocol_event(chat, &chunk, false));
    assert!(!is_valid_sse_protocol_event(responses, &chunk, false));
    let done = event("data: [DONE]\n\n");
    assert!(is_valid_sse_protocol_event(chat, &done, true));
    assert!(!is_valid_sse_protocol_event(chat, &done, false));
    assert!(is_terminal_sse_event(chat, &done));
    assert!(!is_terminal_sse_event(chat, &chunk));
    let completed = event("event: response.completed\ndata: {\"type\":\"response.completed\"}\n\n");
    assert!(is_valid_sse_protocol_event(responses, &completed, false));
    assert!(is_terminal_sse_event(responses, &completed));
    let mismatch = event("event: response.completed\ndata: {\"type\":\"response.created\"}\n\n");
    assert!(!is_valid_sse_protocol_event(responses, &mismatch, false));
    assert!(!is_terminal_sse_event(responses, &mismatch));
    let other = event("event: message\ndata: {\"type\":\"message\"}\n\n");
    assert!(!is_valid_sse_protocol_event(responses, &other, false));
    assert!(is_valid_sse_protocol_event(responses, &event(": hi\n\n"), false));
}

#[test]
fn terminal_failures() {
    let failure = |data: &str| {
        responses_terminal_failure(&event(&format!("event: response.completed\ndata: {data}\n\n")))
    };
    assert!(!failure("{}"));
    assert!(failure(r#"{"status":"failed"}"#));
    assert!(failure(r#"{"response":{"status":"cancelled"}}"#));
    assert!(failure(
        r#"{"type":"response.completed","status":"completed","response":{"status":"failed"}}"#
    ));
    assert!(failure(r#"{"status":"cancelled","response":{"status":"completed"}}"#));
    assert!(failure(r#"{"status":7,"response":{"status":"cancelled"}}"#));
    assert!(!failure(r#"{"status":"completed","response":{"status":"completed"}}"#));
    assert!(!failure(r#"{"status":"incomplete","response":{"status":"incomplete"}}"#));
    assert!(failure(r#"{"error":{"code":1}}"#));
    assert!(!failure(r#"{"error":null}"#));
    assert!(responses_terminal_failure(&event("event: response.failed\n\n")));
}

#[test]
fn events_are_renamed() {
    let chat = StreamProtocol::ChatCompletions;
    let raw = format!("id: 7\ndata: {CHUNK}\n\n");
    let text = String::from_utf8(render_sse_event(chat, &event(&raw), "pub")).unwrap();
    assert_eq!(text, format!("id: 7\ndata: {}\n\n", CHUNK.replace("\"up\"", "\"pub\"")));
    // Nothing to rename: byte for byte.
    assert_eq!(render_sse_event(chat, &event(&raw), "up"), raw.as_bytes());
    let done = "data: [DONE]\r\n\r\n";
    assert_eq!(render_sse_event(chat, &event(done), "pub"), done.as_bytes());
    let nested = "event: response.created\r\ndata: {\"type\":\"response.created\",\r\ndata: \"response\":{\"model\":\"up\"}}\r\n\r\n";
    assert_eq!(
        String::from_utf8(render_sse_event(StreamProtocol::Responses, &event(nested), "pub")).unwrap(),
        "event: response.created\ndata: {\"type\":\"response.created\",\"response\":{\"model\":\"pub\"}}\n\n"
    );
}

#[test]
fn streams_are_relayed() {
    let mut relay = SseRelay::new(StreamProtocol::ChatCompletions, "pub".to_owned());
    assert!(matches!(relay.prime(), PrimeStep::More));
    relay.push(b": hello\n\n");
    assert!(matches!(relay.prime(), PrimeStep::Again));
    assert!(matches!(relay.prime(), PrimeStep::More));
    relay.push(format!("data: {CHUNK}\n\n").as_bytes());
    assert!(matches!(relay.prime(), PrimeStep::Primed));
    match relay.next_body_chunk() {
        ChunkStep::Chunk(bytes) => assert_eq!(bytes, b": hello\n\n"),
        _ => panic!("expected the comment"),
    }
    match relay.next_body_chunk() {
        ChunkStep::Chunk(bytes) => {
            assert!(String::from_utf8(bytes).unwrap().contains("\"model\":\"pub\""))
        }
        _ => panic!("expected the chunk"),
    }
    assert!(matches!(relay.next_body_chunk(), ChunkStep::More));
    relay.push(
        br#"data: {"id":"c","object":"chat.completion.chunk","created":1,"model":"pub","choices":[],"usage":{"prompt_tokens":1,"completion_tokens":2}}

data: [DONE]

data: late

"#,
    );
    assert!(matches!(relay.next_body_chunk(), ChunkStep::Chunk(_)));
    assert_eq!(
        relay.take_usage(),
        Some(Usage { input_tokens: 1, cached_input_tokens: 0, output_tokens: 2 })
    );
    assert!(matches!(relay.next_body_chunk(), ChunkStep::Chunk(_)));
    assert!(matches!(relay.next_body_chunk(), ChunkStep::End));
    assert!(matches!(relay.next_body_chunk(), ChunkStep::End));
    assert!(!relay.terminal_semantic_failure);
}

#[test]
fn broken_streams_end() {
    let mut relay = SseRelay::new(StreamProtocol::ChatCompletions, "pub".to_owned());
    relay.push(b"data: nonsense\n\n");
    match relay.prime() {
        PrimeStep::Failed(error) => assert_eq!(
            error.message,
            "upstream SSE stream started with an invalid protocol event"
        ),
        _ => panic!("expected a failure"),
    }
    let mut relay = SseRelay::new(StreamProtocol::ChatCompletions, "pub".to_owned());
    relay.push(format!("data: {CHUNK}\n\ndata: nonsense\n\n").as_bytes());
    assert!(matches!(relay.prime(), PrimeStep::Primed));
    assert!(matches!(relay.next_body_chunk(), ChunkStep::Chunk(_)));
    match relay.next_body_chunk() {
        ChunkStep::Failed(error) => {
            assert_eq!(error.message, "upstream SSE stream sent an invalid protocol event")
        }
        _ => panic!("expected a failure"),
    }
    assert!(matches!(relay.next_body_chunk(), ChunkStep::End));
    let mut relay = SseRelay::new(StreamProtocol::Responses, "pub".to_owned());
    assert_eq!(relay.ended_unprimed().message, "upstream SSE stream ended before its first event");
    assert_eq!(relay.ended().message, "upstream SSE stream ended before its terminal event");
    relay.push(b"event: response.failed\ndata: {\"type\":\"response.failed\"}\n\n");
    assert!(matches!(relay.next_body_chunk(), ChunkStep::End));
}

#[test]
fn failed_responses_are_noticed() {
    let mut relay = SseRelay::new(StreamProtocol::Responses, "pub".to_owned());
    relay.push(b"event: response.failed\ndata: {\"type\":\"response.failed\"}\n\n");
    assert!(matches!(relay.prime(), PrimeStep::Primed));
    assert!(matches!(relay.next_body_chunk(), ChunkStep::Chunk(_)));
    assert!(relay.terminal_semantic_failure);
    assert!(matches!(relay.next_body_chunk(), ChunkStep::End));
}
