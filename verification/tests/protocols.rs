use local_api_relay::errors::{
    attributable_http_category, is_attributable_upstream_status, relay_error_category,
    relay_idle_error, relay_upstream_transport_error, RelayError,
};
use local_api_relay::json::{parse_json, write_json, Json, JsonNumber};
use local_api_relay::protocol::{
    extract_usage, invalid_upstream_response_error, is_complete_chat_completion,
    is_complete_responses_response, no_route_error, normalize_null_message_content, read_request,
    responses_semantic_failure, upstream_endpoint, StreamProtocol, Usage,
};
use local_api_relay::wire::{event_line, models_response};

fn json(text: &str) -> Json {
    parse_json(text.as_bytes()).expect("valid JSON")
}

#[test]
fn json_keeps_order_and_numbers() {
    let text = r#"{"z":1,"a":[true,null,-3,1.25,"é"],"m":{"b":18446744073709551615}}"#;
    let value = json(text);
    assert_eq!(write_json(&value), text);
    assert!(parse_json(b"{").is_none());
    assert!(parse_json(&[0x22, 0xff, 0x22]).is_none());
    assert_eq!(value.get("z").unwrap().as_i64(), Some(1));
    let items = value.get("a").unwrap().as_array().unwrap();
    assert_eq!(items[2].as_i64(), Some(-3));
    assert_eq!(items[3].as_i64(), None);
    assert_eq!(value.get("m").unwrap().integer_at("b"), None);
    assert_eq!(value.text_at("z"), None);
}

#[test]
fn json_members_are_set_in_place() {
    let mut value = json(r#"{"a":1,"b":2}"#);
    value.set("a", Json::Text("x".to_owned()));
    value.set("c", Json::Number(JsonNumber::Negative(-5)));
    assert_eq!(write_json(&value), r#"{"a":"x","b":2,"c":-5}"#);
    let mut list = json("[1]");
    list.set("a", Json::Null);
    assert_eq!(write_json(&list), "[1]");
}

#[test]
fn chat_requests_are_understood() {
    let body = br#"{"model":" gpt ","messages":[{"role":"assistant","content":null,"x":1},{"role":"user","content":"hi"},{"role":"tool"},7],"temperature":0.7}"#;
    let request = read_request(StreamProtocol::ChatCompletions, Some(body)).unwrap();
    assert_eq!(request.model, "gpt");
    assert!(!request.stream);
    assert_eq!(
        write_json(&request.body),
        r#"{"model":" gpt ","messages":[{"role":"assistant","content":"","x":1},{"role":"user","content":"hi"},{"role":"tool"},7],"temperature":0.7,"stream":false}"#
    );
}

#[test]
fn responses_requests_are_understood() {
    let request = read_request(
        StreamProtocol::Responses,
        Some(br#"{"stream":true,"model":"m","input":"hello"}"#),
    )
    .unwrap();
    assert!(request.stream);
    assert_eq!(
        write_json(&request.body),
        r#"{"stream":true,"model":"m","input":"hello"}"#
    );
}

#[test]
fn requests_are_refused() {
    let refused = |protocol, body: Option<&[u8]>| {
        let error = read_request(protocol, body).unwrap_err();
        (error.status, error.message, error.param, error.code)
    };
    let chat = StreamProtocol::ChatCompletions;
    assert_eq!(refused(chat, None), (413, "request body is too large", None, None));
    let spaces = vec![b' '; 16_777_217];
    assert_eq!(refused(chat, Some(&spaces)), (413, "request body is too large", None, None));
    assert_eq!(refused(chat, Some(&spaces[1..])).0, 400);
    assert_eq!(refused(chat, Some(b"x")), (400, "request body must be valid JSON", None, None));
    assert_eq!(
        refused(chat, Some(b"[]")),
        (400, "request body must be a JSON object", None, None)
    );
    assert_eq!(
        refused(chat, Some(br#"{"model":"  "}"#)),
        (400, "model must be a non-empty string", Some("model"), None)
    );
    assert_eq!(
        refused(chat, Some(br#"{"model":5}"#)),
        (400, "model must be a non-empty string", Some("model"), None)
    );
    assert_eq!(
        refused(chat, Some(br#"{"model":"m","messages":"x"}"#)),
        (400, "messages must be an array", Some("messages"), None)
    );
    assert_eq!(
        refused(StreamProtocol::Responses, Some(br#"{"model":"m","input":5}"#)),
        (400, "input must be a string or array", Some("input"), None)
    );
    assert_eq!(
        refused(chat, Some(br#"{"model":"m","messages":[],"stream":"yes"}"#)),
        (400, "stream must be a boolean", Some("stream"), None)
    );
}

#[test]
fn normalizing_twice_changes_nothing() {
    let mut value = json(r#"{"messages":[{"content":null}],"input":[{"content":null},{"content":[]}]}"#);
    normalize_null_message_content(&mut value);
    let once = write_json(&value);
    assert_eq!(once, r#"{"messages":[{"content":""}],"input":[{"content":""},{"content":[]}]}"#);
    normalize_null_message_content(&mut value);
    assert_eq!(write_json(&value), once);
}

const CHAT: &str = r#"{"id":"c1","object":"chat.completion","created":1,"model":"m","choices":[{"index":0,"message":{},"finish_reason":null}],"usage":{"prompt_tokens":10,"completion_tokens":3,"prompt_tokens_details":{"cached_tokens":4}}}"#;
const RESPONSE: &str = r#"{"id":"r1","object":"response","created_at":1,"model":"m","status":"completed","output":[],"usage":{"input_tokens":10,"output_tokens":3}}"#;

#[test]
fn complete_answers() {
    assert!(is_complete_chat_completion(&json(CHAT)));
    assert!(is_complete_responses_response(&json(RESPONSE)));
    for broken in [
        r#"{"id":"","object":"chat.completion","created":1,"model":"m","choices":[{"index":0,"message":{},"finish_reason":null}]}"#,
        r#"{"id":"c1","object":"chat.completion","created":1,"model":"m","choices":[]}"#,
        r#"{"id":"c1","object":"chat.completion","created":1,"model":"m","choices":[{"index":0,"message":{}}]}"#,
        r#"{"id":"c1","object":"chat.completion","created":1.5,"model":"m","choices":[{"index":0,"message":{},"finish_reason":"stop"}]}"#,
        r#"{"id":"c1","object":"chat.completion","created":1,"model":"m","choices":[{"index":0,"message":"x","finish_reason":"stop"}]}"#,
    ] {
        assert!(!is_complete_chat_completion(&json(broken)), "{broken}");
    }
    for broken in [
        r#"{"id":"r1","object":"response","created_at":1,"model":"m","status":"in_progress","output":[]}"#,
        r#"{"id":"r1","object":"response","created_at":1,"model":"m","status":"completed","output":{}}"#,
    ] {
        assert!(!is_complete_responses_response(&json(broken)), "{broken}");
    }
}

#[test]
fn semantic_failures() {
    assert!(!responses_semantic_failure(&json(RESPONSE)));
    assert!(responses_semantic_failure(&json(r#"{"status":"failed"}"#)));
    assert!(responses_semantic_failure(&json(r#"{"status":"cancelled"}"#)));
    assert!(responses_semantic_failure(&json(r#"{"status":"completed","error":{}}"#)));
    assert!(!responses_semantic_failure(&json(r#"{"status":"incomplete","error":null}"#)));
}

#[test]
fn usage_is_extracted() {
    assert_eq!(
        extract_usage(StreamProtocol::ChatCompletions, &json(CHAT)),
        Some(Usage { input_tokens: 10, cached_input_tokens: 4, output_tokens: 3 })
    );
    assert_eq!(
        extract_usage(StreamProtocol::Responses, &json(RESPONSE)),
        Some(Usage { input_tokens: 10, cached_input_tokens: 0, output_tokens: 3 })
    );
    assert_eq!(extract_usage(StreamProtocol::Responses, &json(CHAT)), None);
    assert_eq!(extract_usage(StreamProtocol::ChatCompletions, &json("{}")), None);
}

#[test]
fn endpoints() {
    assert_eq!(
        upstream_endpoint(StreamProtocol::ChatCompletions, "http://u/v1"),
        "http://u/v1/chat/completions"
    );
    assert_eq!(upstream_endpoint(StreamProtocol::Responses, "http://u/v1"), "http://u/v1/responses");
}

#[test]
fn statuses_that_speak_against_a_route() {
    for status in [401, 403, 404, 429, 500, 503, 599] {
        assert!(is_attributable_upstream_status(status), "{status}");
    }
    for status in [400, 402, 409, 422, 301, 600] {
        assert!(!is_attributable_upstream_status(status), "{status}");
    }
    assert_eq!(attributable_http_category(429), "upstream_http_429");
    assert_eq!(attributable_http_category(503), "upstream_http_5xx");
}

#[test]
fn error_categories() {
    assert_eq!(relay_error_category(&relay_upstream_transport_error(true)), "upstream_timeout");
    assert_eq!(relay_error_category(&relay_upstream_transport_error(false)), "upstream_connection");
    assert_eq!(relay_error_category(&relay_idle_error()), "upstream_timeout");
    assert_eq!(
        relay_error_category(&invalid_upstream_response_error(StreamProtocol::Responses)),
        "invalid_upstream_response"
    );
    assert_eq!(
        relay_error_category(&invalid_upstream_response_error(StreamProtocol::ChatCompletions)),
        "upstream_failure"
    );
}

#[test]
fn error_answers() {
    let error = RelayError::unauthorized();
    assert_eq!(error.status, 401);
    assert!(error.authenticate);
    assert_eq!(
        write_json(&error.body()),
        r#"{"error":{"message":"a valid relay access key is required","type":"authentication_error","param":null,"code":"invalid_api_key"}}"#
    );
    let missing = no_route_error(false);
    assert_eq!((missing.status, missing.code), (404, Some("model_not_found")));
    let down = no_route_error(true);
    assert_eq!((down.status, down.code), (503, Some("no_available_route")));
}

#[test]
fn model_lists_and_event_lines() {
    let names = vec!["a".to_owned(), "b".to_owned()];
    assert_eq!(
        write_json(&models_response(&names)),
        r#"{"object":"list","data":[{"id":"a","object":"model","created":0,"owned_by":"local-api-relay"},{"id":"b","object":"model","created":0,"owned_by":"local-api-relay"}]}"#
    );
    assert_eq!(
        event_line(-5, "routes", "info", "routes.check", "0.1.0", None, json(r#"{"x":1}"#)),
        r#"{"ts":-5,"severity":"info","event":"routes.check","version":"0.1.0","section":"routes","correlation":null,"payload":{"x":1}}"#
    );
    assert_eq!(
        event_line(5, "calls", "error", "call.failed", "1", Some("c"), Json::Null),
        r#"{"ts":5,"severity":"error","event":"call.failed","version":"1","section":"calls","correlation":"c","payload":null}"#
    );
}
