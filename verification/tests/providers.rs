use lightcode::providers::anthropic::{parse_event, to_wire, AnthropicEvent, WireBlock, WireRole};
use lightcode::providers::openai::{self, DeltaCall, OpenAiChunk, OpenAiDelta};
use lightcode::providers::{Message, StreamEvent, ToolCall};

fn s(x: &str) -> Option<String> {
    Some(x.to_string())
}

#[test]
fn translates_history_to_anthropic_format() {
    let msgs = vec![
        Message::System { content: "You are LightCode.".into() },
        Message::User { content: "hi".into() },
        Message::Assistant {
            content: Some("thinking".into()),
            reasoning: Some("chain of thought".into()),
            tool_calls: vec![ToolCall {
                id: "c1".into(),
                name: "grep".into(),
                arguments: "{\"pattern\":\"foo\"}".into(),
            }],
        },
        Message::Tool { tool_call_id: "c1".into(), content: "a match".into() },
        Message::User { content: "thanks".into() },
    ];
    let (system, msgs) = to_wire(&msgs);
    assert_eq!(system, "You are LightCode.");
    assert_eq!(msgs.len(), 3, "consecutive users must be merged");
    assert_eq!(msgs[0].role, WireRole::User);
    assert_eq!(msgs[1].role, WireRole::Assistant);
    assert!(matches!(&msgs[1].content[0], WireBlock::Text(_)));
    assert!(matches!(&msgs[1].content[1], WireBlock::ToolUse { name, .. } if name == "grep"));
    assert_eq!(msgs[2].role, WireRole::User);
    assert!(matches!(&msgs[2].content[0], WireBlock::ToolResult { tool_use_id, .. } if tool_use_id == "c1"));
    assert!(matches!(&msgs[2].content[1], WireBlock::Text(t) if t == "thanks"));
}

#[test]
fn anthropic_wire_edge_cases() {
    let msgs = vec![
        Message::System { content: "a".into() },
        Message::System { content: "b".into() },
        Message::Assistant {
            content: Some(String::new()),
            reasoning: None,
            tool_calls: vec![ToolCall { id: "c".into(), name: "n".into(), arguments: "null".into() }],
        },
        Message::Assistant { content: None, reasoning: None, tool_calls: vec![] },
    ];
    let (system, wire) = to_wire(&msgs);
    assert_eq!(system, "a\n\nb");
    assert_eq!(wire.len(), 1);
    assert!(matches!(&wire[0].content[0], WireBlock::ToolUse { input, .. } if input == "{}"));
    assert!(matches!(&wire[0].content[1], WireBlock::Text(t) if t.is_empty()));
}

#[test]
fn parses_text_and_tool_deltas() {
    let e = AnthropicEvent {
        kind: s("content_block_delta"),
        index: Some(0),
        delta_type: s("text_delta"),
        delta_text: s("Hel"),
        ..Default::default()
    };
    assert!(matches!(&parse_event(&e)[..], [StreamEvent::Text(t)] if t == "Hel"));

    let e = AnthropicEvent {
        kind: s("content_block_start"),
        index: Some(1),
        block_type: s("tool_use"),
        block_id: s("toolu_1"),
        block_name: s("grep"),
        ..Default::default()
    };
    assert!(matches!(
        &parse_event(&e)[..],
        [StreamEvent::ToolCallDelta { index: 1, id: Some(i), name: Some(n), arguments: None }]
        if i == "toolu_1" && n == "grep"
    ));

    let e = AnthropicEvent {
        kind: s("content_block_delta"),
        index: Some(1),
        delta_type: s("input_json_delta"),
        delta_partial_json: s("{\"pat"),
        ..Default::default()
    };
    assert!(matches!(
        &parse_event(&e)[..],
        [StreamEvent::ToolCallDelta { index: 1, arguments: Some(a), .. }] if a == "{\"pat"
    ));

    let e = AnthropicEvent {
        kind: s("content_block_delta"),
        index: Some(0),
        delta_type: s("thinking_delta"),
        delta_thinking: s("let me think"),
        ..Default::default()
    };
    assert!(matches!(&parse_event(&e)[..], [StreamEvent::Reasoning(r)] if r == "let me think"));
}

#[test]
fn parses_error_and_stop() {
    let e = AnthropicEvent { kind: s("error"), error_message: s("boom"), ..Default::default() };
    assert!(matches!(&parse_event(&e)[..], [StreamEvent::Error(m)] if m == "boom"));
    let e = AnthropicEvent { kind: s("message_stop"), ..Default::default() };
    assert!(matches!(&parse_event(&e)[..], [StreamEvent::Done]));
    let e = AnthropicEvent { kind: s("ping"), ..Default::default() };
    assert!(parse_event(&e).is_empty());
}

#[test]
fn wire_messages_match_openai_format() {
    let msgs = vec![
        Message::User { content: "hi".into() },
        Message::Assistant {
            content: None,
            reasoning: None,
            tool_calls: vec![ToolCall {
                id: "c1".into(),
                name: "grep".into(),
                arguments: "{\"pattern\":\"foo\"}".into(),
            }],
        },
        Message::Tool { tool_call_id: "c1".into(), content: "match".into() },
    ];
    let wire = openai::to_wire(&msgs);
    assert!(matches!(&wire[0], openai::WireMessage::User { .. }));
    match &wire[1] {
        openai::WireMessage::Assistant { tool_calls, .. } => {
            assert_eq!(tool_calls[0].arguments, "{\"pattern\":\"foo\"}")
        }
        _ => panic!("expected the assistant"),
    }
    assert!(matches!(&wire[2], openai::WireMessage::Tool { tool_call_id, .. } if tool_call_id == "c1"));
}

#[test]
fn parse_delta_extracts_text() {
    let c = OpenAiChunk { delta: Some(OpenAiDelta { content: s("hel"), ..Default::default() }) };
    let events = openai::parse_delta(&c);
    assert!(matches!(&events[..], [StreamEvent::Text(t)] if t == "hel"));
}

#[test]
fn parse_delta_extracts_tool_call_fragments() {
    let c = OpenAiChunk {
        delta: Some(OpenAiDelta {
            tool_calls: Some(vec![DeltaCall {
                index: Some(0),
                id: s("call_1"),
                name: s("grep"),
                arguments: s("{\"pat"),
            }]),
            ..Default::default()
        }),
    };
    let events = openai::parse_delta(&c);
    assert!(matches!(
        &events[..],
        [StreamEvent::ToolCallDelta { index: 0, id: Some(i), name: Some(n), arguments: Some(a) }]
        if i == "call_1" && n == "grep" && a == "{\"pat"
    ));
    let c = OpenAiChunk {
        delta: Some(OpenAiDelta { reasoning_content: s(""), ..Default::default() }),
    };
    assert!(openai::parse_delta(&c).is_empty());
}
