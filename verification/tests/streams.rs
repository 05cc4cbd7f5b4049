//! The decoders of the streamed replies.

use jcode_copilot::json::{array, object1, object2, Json};
use jcode_copilot::keyed::TextMap;
use jcode_copilot::message::{ConnectionPhase, Event, StreamEvent};
use jcode_copilot::sse::{
    parse_sse_event, process_payload, process_sse_event, read_payload, read_value_payload,
    strip_1m_suffix, Payload, SseEvent, SseStreamState,
};
use jcode_copilot::stream::{sse_data_line, Next, Read};
use jcode_copilot::stream_chat::ChatStream;
use jcode_copilot::stream_messages::MessagesStream;
use jcode_copilot::stream_responses::ResponsesStream;

fn delta(text: &str) -> StreamEvent {
    Event::TextDelta(text.to_string())
}

fn ended(reason: Option<&str>) -> StreamEvent {
    Event::MessageEnd {
        stop_reason: reason.map(str::to_string),
    }
}

#[test]
fn a_chat_reply_is_decoded_line_by_line() {
    let mut stream = ChatStream::new();
    let step = stream.receive(
        ": keepalive\r\n\
         data: {\"choices\":[{\"delta\":{\"content\":\"Hel\"}}]}\r\n\
         \r\n\
         data: {\"choices\":[{\"delta\":{\"content\":\"\"}}]}\n\
         data: not json\n\
         data:{\"choices\":[{\"delta\":{\"content\":\"lo\"}},{\"index\":1}]}\n",
    );
    assert_eq!(step.events, [delta("Hel"), delta("lo")]);
    assert_eq!(step.next, Next::Wait);
    assert_eq!(step.usage, None);

    let step = stream.receive(
        "data: {\"usage\":{\"prompt_tokens\":12,\"completion_tokens\":3},\
         \"choices\":[{\"delta\":{},\"finish_reason\":\"stop\"}]}\n\
         data: [DONE]\nignored\n",
    );
    assert_eq!(
        step.events,
        [
            ended(Some("end_turn")),
            Event::TokenUsage {
                input_tokens: Some(12),
                output_tokens: Some(3),
                cache_creation_input_tokens: None,
                cache_read_input_tokens: None,
            },
            ended(None),
        ]
    );
    assert_eq!(step.usage, Some((12, 3)));
    assert_eq!(step.next, Next::Finish);
}

#[test]
fn chat_tool_calls_start_grow_and_end() {
    let mut stream = ChatStream::new();
    let mut events: Vec<StreamEvent> = Vec::new();
    let call = |id: Option<&str>, name: &str, arguments: &str| {
        let function = object2(
            "name",
            Json::text(name),
            "arguments",
            Json::text(arguments),
        );
        let call = match id {
            Some(id) => object2("id", Json::text(id), "function", function),
            None => object1("function", function),
        };
        object1(
            "choices",
            array(vec![object1(
                "delta",
                object1("tool_calls", array(vec![call])),
            )]),
        )
    };
    stream.take_value(&call(Some("a"), "bash", "{\"x\""), &mut events);
    stream.take_value(&call(None, "", ":1}"), &mut events);
    stream.take_value(&call(Some("b"), "read", ""), &mut events);
    let finish = object1(
        "choices",
        array(vec![object2(
            "delta",
            Json::Object(Vec::new()),
            "finish_reason",
            Json::text("tool_calls"),
        )]),
    );
    stream.take_value(&finish, &mut events);
    let start = |id: &str, name: &str| Event::ToolUseStart {
        id: id.to_string(),
        name: name.to_string(),
    };
    assert_eq!(
        events,
        [
            start("a", "bash"),
            Event::ToolInputDelta("{\"x\"".to_string()),
            Event::ToolInputDelta(":1}".to_string()),
            Event::ToolUseEnd,
            start("b", "read"),
            Event::ToolInputDelta(String::new()),
            Event::ToolUseEnd,
            ended(Some("tool_use")),
        ]
    );
}

#[test]
fn other_finish_reasons_are_passed_on() {
    for (finish, reason) in [("length", "max_tokens"), ("content_filter", "content_filter")] {
        let mut stream = ChatStream::new();
        let step = stream.receive(&format!(
            "data: {{\"choices\":[{{\"delta\":{{}},\"finish_reason\":\"{finish}\"}}]}}\n"
        ));
        assert_eq!(step.events, [ended(Some(reason))]);
    }
}

#[test]
fn chat_text_may_arrive_in_pieces() {
    let whole = "data: {\"choices\":[{\"delta\":{\"content\":\"a\"}}]}\ndata: [DONE]\n";
    let mut one = ChatStream::new();
    let expected = one.receive(whole).events;
    for cut in 0..whole.len() {
        let mut stream = ChatStream::new();
        let mut events = stream.receive(&whole[..cut]).events;
        events.extend(stream.receive(&whole[cut..]).events);
        assert_eq!(events, expected, "{cut}");
    }
}

#[test]
fn chat_bytes_that_are_no_text_are_replaced() {
    let mut stream = ChatStream::new();
    let mut bytes = b"data: {\"choices\":[{\"delta\":{\"content\":\"".to_vec();
    bytes.push(0xff);
    bytes.extend_from_slice("\u{e9}\"}}]}\n".as_bytes());
    let step = stream.step(Read::Piece(bytes), 60);
    assert_eq!(step.events, [delta("\u{fffd}\u{e9}")]);
}

#[test]
fn chat_streams_end_fail_and_time_out() {
    let step = ChatStream::new().step(Read::Ended, 60);
    assert_eq!(step.events, [ended(None)]);
    assert_eq!(step.next, Next::Finish);
    let step = ChatStream::new().step(Read::Failed("reset".to_string()), 60);
    assert_eq!(step.next, Next::Fail("Stream error: reset".to_string()));
    let step = ChatStream::new().step(Read::TimedOut, 60);
    assert_eq!(
        step.next,
        Next::Fail("Stream read timeout: no data received for 60 seconds".to_string())
    );
}

#[test]
fn sse_events_are_cut_at_blank_lines() {
    let mut buffer = "event: ping\ndata: {}\n\nevent: error\ndata: a\ndata: b\n\nrest".to_string();
    let first = parse_sse_event(&mut buffer).unwrap();
    assert_eq!(first.event_type, "ping");
    assert_eq!(first.data, "{}");
    let second = parse_sse_event(&mut buffer).unwrap();
    assert_eq!(second.event_type, "error");
    assert_eq!(second.data, "b");
    assert!(parse_sse_event(&mut buffer).is_none());
    assert_eq!(buffer, "rest");

    let mut comment = ": hi\n\n".to_string();
    assert!(parse_sse_event(&mut comment).is_none());
    assert_eq!(comment, "");
    assert_eq!(sse_data_line("data: x"), Some("x"));
    assert_eq!(sse_data_line("data:x"), Some("x"));
    assert_eq!(sse_data_line("event: x"), None);
}

fn event(event_type: &str, data: &str) -> SseEvent {
    SseEvent {
        event_type: event_type.to_string(),
        data: data.to_string(),
    }
}

fn handled(state: &mut SseStreamState, event_type: &str, data: &str) -> Vec<StreamEvent> {
    process_sse_event(&event(event_type, data), state, false, &TextMap::new())
}

#[test]
fn a_messages_reply_is_decoded() {
    let mut state = SseStreamState::default();
    let events = handled(
        &mut state,
        "message_start",
        r#"{"message":{"model":"served","usage":{"input_tokens":5,
            "cache_read_input_tokens":6,"cache_creation_input_tokens":7}}}"#,
    );
    assert_eq!(events, []);
    assert_eq!(state.input_tokens, Some(5));
    assert_eq!(state.cache_read_input_tokens, Some(6));
    assert_eq!(state.cache_creation_input_tokens, Some(7));

    let events = handled(
        &mut state,
        "content_block_start",
        r#"{"content_block":{"type":"thinking","thinking":"hm"}}"#,
    );
    assert_eq!(
        events,
        [
            Event::ThinkingStart,
            Event::ThinkingDelta("hm".to_string())
        ]
    );
    let events = handled(
        &mut state,
        "content_block_delta",
        r#"{"delta":{"type":"signature_delta","signature":"s"}}"#,
    );
    assert_eq!(events, [Event::ThinkingSignatureDelta("s".to_string())]);
    assert_eq!(
        handled(&mut state, "content_block_stop", "{}"),
        [Event::ThinkingEnd]
    );
    assert_eq!(handled(&mut state, "content_block_stop", "{}"), []);

    let events = handled(
        &mut state,
        "content_block_start",
        r#"{"content_block":{"type":"tool_use","id":"t","name":"bash"}}"#,
    );
    assert_eq!(
        events,
        [Event::ToolUseStart {
            id: "t".to_string(),
            name: "bash".to_string()
        }]
    );
    let events = handled(
        &mut state,
        "content_block_delta",
        r#"{"delta":{"type":"input_json_delta","partial_json":"{"}}"#,
    );
    assert_eq!(events, [Event::ToolInputDelta("{".to_string())]);
    assert_eq!(state.current_tool_use.as_ref().unwrap().input_json, "{");
    assert_eq!(
        handled(&mut state, "content_block_stop", ""),
        [Event::ToolUseEnd]
    );

    let events = handled(
        &mut state,
        "content_block_delta",
        r#"{"delta":{"type":"text_delta","text":"hi"}}"#,
    );
    assert_eq!(events, [delta("hi")]);
    let events = handled(
        &mut state,
        "message_delta",
        r#"{"delta":{"stop_reason":"end_turn"},"usage":{"output_tokens":9}}"#,
    );
    assert_eq!(events, [ended(Some("end_turn"))]);
    assert_eq!(state.output_tokens, Some(9));
    assert_eq!(handled(&mut state, "message_stop", "{}"), []);
    assert_eq!(
        handled(&mut state, "ping", ""),
        [Event::ConnectionPhase {
            phase: ConnectionPhase::Streaming
        }]
    );
    assert_eq!(
        handled(&mut state, "error", "overloaded"),
        [Event::Error {
            message: "overloaded".to_string(),
            retry_after_secs: None
        }]
    );
    assert_eq!(handled(&mut state, "mystery", "{}"), []);
    assert_eq!(handled(&mut state, "content_block_delta", "no json"), []);
}

#[test]
fn a_substituted_model_is_reported_once() {
    let mut state = SseStreamState::default();
    state.requested_model_base = "fable-5".to_string();
    let start = r#"{"message":{"model":"Haiku-4-5[1m]"}}"#;
    let events = handled(&mut state, "message_start", start);
    assert_eq!(events.len(), 1);
    assert!(matches!(
        &events[0],
        Event::StatusDetail { detail } if detail.contains("haiku-4-5")
            && detail.contains("fable-5")
    ));
    assert_eq!(handled(&mut state, "message_start", start), []);
    assert_eq!(strip_1m_suffix("haiku[1m]"), "haiku");
    assert_eq!(strip_1m_suffix("haiku"), "haiku");
}

#[test]
fn oauth_tool_names_are_mapped_back() {
    let mut names: TextMap<String> = TextMap::new();
    names.insert("Bash".to_string(), "bash".to_string());
    let payload = || Payload::ToolUse {
        id: "t".to_string(),
        name: "Bash".to_string(),
    };
    let mut state = SseStreamState::default();
    let mapped = process_payload(payload(), &mut state, true, &names);
    assert_eq!(
        mapped,
        [Event::ToolUseStart {
            id: "t".to_string(),
            name: "bash".to_string()
        }]
    );
    let plain = process_payload(payload(), &mut state, false, &names);
    assert_eq!(
        plain,
        [Event::ToolUseStart {
            id: "t".to_string(),
            name: "Bash".to_string()
        }]
    );
}

#[test]
fn payloads_are_read_by_the_kind_of_their_event() {
    let block = object1(
        "content_block",
        object1("type", Json::text("redacted_thinking")),
    );
    assert!(matches!(
        read_value_payload("content_block_start", &block),
        Payload::RedactedThinking
    ));
    let text = object1(
        "delta",
        object2("type", Json::text("text_delta"), "text", Json::text("x")),
    );
    assert!(matches!(
        read_value_payload("content_block_delta", &text),
        Payload::Text { text } if text == "x"
    ));
    assert!(matches!(read_value_payload("message_start", &text), Payload::Nothing));
    assert!(matches!(read_payload(&event("ping", "")), Payload::Ping));
    assert!(matches!(
        read_payload(&event("content_block_stop", "x")),
        Payload::BlockStop
    ));
}

#[test]
fn a_messages_stream_is_cut_into_events() {
    let mut stream = MessagesStream::new("Haiku-X");
    assert_eq!(stream.state.requested_model_base, "haiku-x");
    let whole = "event: content_block_delta\n\
                 data: {\"delta\":{\"type\":\"text_delta\",\"text\":\"hi\"}}\n\n\
                 event: ping\ndata: {}\n\n";
    let expected = [
        delta("hi"),
        Event::ConnectionPhase {
            phase: ConnectionPhase::Streaming,
        },
    ];
    assert_eq!(stream.receive(whole).events, expected);
    for cut in 0..whole.len() {
        let mut stream = MessagesStream::new("Haiku-X");
        let mut events = stream.receive(&whole[..cut]).events;
        events.extend(stream.receive(&whole[cut..]).events);
        assert_eq!(events, expected, "{cut}");
    }
    let step = stream.step(Read::Piece(b"event: ping\n\n".to_vec()), 5);
    assert_eq!(step.events.len(), 1);
    assert_eq!(stream.step(Read::Ended, 5).next, Next::Finish);
}

#[test]
fn an_empty_messages_stream_is_a_failure() {
    let step = MessagesStream::new("m").step(Read::Ended, 5);
    assert_eq!(
        step.next,
        Next::Fail("Copilot returned an empty stream".to_string())
    );
    let step = MessagesStream::new("m").step(Read::TimedOut, 5);
    assert_eq!(
        step.next,
        Next::Fail("Stream read timeout: no data received for 5 seconds".to_string())
    );
    let step = MessagesStream::new("m").step(Read::Failed("eof".to_string()), 5);
    assert_eq!(step.next, Next::Fail("Stream error: eof".to_string()));
}

#[test]
fn responses_events_are_passed_on() {
    let mut stream = ResponsesStream::new();
    let step = stream.step(Read::Ended, 5);
    assert_eq!(
        step.next,
        Next::Fail("Copilot returned an empty stream".to_string())
    );
    let step = stream.step(Read::Piece(delta("hi")), 5);
    assert_eq!(step.events, [delta("hi")]);
    assert_eq!(step.next, Next::Wait);
    assert_eq!(step.error, None);
    assert_eq!(stream.step(Read::Ended, 5).next, Next::Finish);
    let step = stream.step(Read::TimedOut, 9);
    assert_eq!(
        step.next,
        Next::Fail("Stream read timeout: no data received for 9 seconds".to_string())
    );
    assert_eq!(step.error, None);

    // An error of the event stream is handed on, and counts as an event.
    let mut failing = ResponsesStream::new();
    let step = failing.step(Read::Failed("decode".to_string()), 5);
    assert_eq!(step.events, []);
    assert_eq!(step.error, Some("decode".to_string()));
    assert_eq!(step.next, Next::Wait);
    assert_eq!(failing.step(Read::Ended, 5).next, Next::Finish);
}

#[test]
fn a_reason_to_stop_follows_the_end_of_the_call() {
    let mut stream = ChatStream::new();
    let step = stream.receive(
        "data: {\"choices\":[{\"delta\":{\"tool_calls\":[{\"id\":\"a\",\"function\":{\"name\":\"bash\"}}]}}]}\n\
         data: {\"choices\":[{\"delta\":{\"tool_calls\":[{\"id\":\"b\",\"function\":{\"name\":\"read\"}}]},\
         \"finish_reason\":\"tool_calls\"}]}\n",
    );
    let start = |id: &str, name: &str| Event::ToolUseStart {
        id: id.to_string(),
        name: name.to_string(),
    };
    assert_eq!(
        step.events,
        [
            start("a", "bash"),
            Event::ToolUseEnd,
            start("b", "read"),
            Event::ToolUseEnd,
            ended(Some("tool_use")),
        ]
    );
}
