use lightcode::agent::stream::{StreamState, StreamStep};
use lightcode::providers::StreamEvent;

fn delta(index: usize, id: Option<&str>, name: Option<&str>, args: Option<&str>) -> StreamEvent {
    StreamEvent::ToolCallDelta {
        index,
        id: id.map(|s| s.to_string()),
        name: name.map(|s| s.to_string()),
        arguments: args.map(|s| s.to_string()),
    }
}

#[test]
fn stream_assembles_text_and_tool_calls() {
    let mut st = StreamState::new();
    assert!(matches!(st.step(StreamEvent::Reasoning("hm".into())), StreamStep::Continue));
    assert!(!st.progress);
    assert!(matches!(st.step(StreamEvent::Text("Hel".into())), StreamStep::Continue));
    assert!(matches!(st.step(StreamEvent::Text("lo".into())), StreamStep::Continue));
    st.step(delta(1, Some("c2"), Some("grep"), Some("{\"pat")));
    st.step(delta(0, Some("c1"), Some("shell"), Some("{}")));
    st.step(delta(1, None, None, Some("tern\":\"x\"}")));
    assert!(matches!(st.step(StreamEvent::Done), StreamStep::Stop));
    let (content, reasoning, calls) = st.finish();
    assert_eq!(content.as_deref(), Some("Hello"));
    assert_eq!(reasoning.as_deref(), Some("hm"));
    assert_eq!(calls.len(), 2);
    assert_eq!(calls[0].id, "c1");
    assert_eq!(calls[0].name, "shell");
    assert_eq!(calls[1].arguments, "{\"pattern\":\"x\"}");
}

#[test]
fn stream_error_and_empty_finish() {
    let mut st = StreamState::new();
    match st.step(StreamEvent::Error("boom".into())) {
        StreamStep::Fail(m) => assert_eq!(m, "provider stream error: boom"),
        _ => panic!("expected a failure"),
    }
    let (content, reasoning, calls) = st.finish();
    assert!(content.is_none());
    assert!(reasoning.is_none());
    assert!(calls.is_empty());
}

use lightcode::agent::context::estimate_tokens;
use lightcode::providers::sse::{SseDecoder, SseItem};
use lightcode::providers::{Message, ToolCall};

#[test]
fn counts_text() {
    let msgs = vec![
        Message::System { content: "abcd".into() },
        Message::User { content: "efghijkl".into() },
    ];
    assert_eq!(estimate_tokens(&msgs), 3); // 12 chars / 4
}

#[test]
fn counts_tool_calls_and_results() {
    let msgs = vec![
        Message::Assistant {
            content: Some("hi".into()),
            reasoning: None,
            tool_calls: vec![ToolCall {
                id: "c1".into(),
                name: "grep".into(),
                arguments: "{\"pattern\":\"xyz\"}".into(),
            }],
        },
        Message::Tool { tool_call_id: "c1".into(), content: "01234567".into() },
    ];
    let tokens = estimate_tokens(&msgs);
    assert!(tokens > 4, "tool call args and result must count: {tokens}");
}

fn data(items: &[SseItem]) -> Vec<String> {
    items
        .iter()
        .map(|i| match i {
            SseItem::Data(s) => s.clone(),
            SseItem::Done => "<done>".to_string(),
        })
        .collect()
}

#[test]
fn sse_records_split_across_chunks() {
    let mut d = SseDecoder::new();
    assert!(d.push(b"data: {\"a\":1}\n").is_empty());
    let got = d.push(b"\nevent: x\ndata:  {\"b\":2} \n\ndata: part");
    assert_eq!(data(&got), vec!["{\"a\":1}", "{\"b\":2}"]);
    assert_eq!(d.buf, b"data: part".to_vec());
    let got = d.push(b"ial\n\ndata: [DONE]\n\ndata: after\n\n");
    assert_eq!(data(&got), vec!["partial", "<done>"]);
}
