//! OpenAI-compatible chat completions: the history as its messages, and
//! its streamed deltas as events.
use vstd::prelude::*;

use crate::providers::anthropic::{event_view, events_view, ostr, EventV};
use crate::providers::{Message, StreamEvent};
use crate::text::chars_of;

verus! {

/// A tool call as the chat API takes it (`type: function`).
#[derive(Debug, Clone)]
pub struct WireCall {
    pub id: String,
    pub name: String,
    /// The JSON text of the arguments.
    pub arguments: String,
}

/// A chat message as the API takes it; reasoning is never sent back.
#[derive(Debug, Clone)]
pub enum WireMessage {
    System { content: String },
    User { content: String },
    Assistant { content: Option<String>, tool_calls: Vec<WireCall> },
    Tool { tool_call_id: String, content: String },
}

pub open spec fn calls_match(w: Seq<WireCall>, c: Seq<crate::providers::ToolCall>) -> bool {
    &&& w.len() == c.len()
    &&& forall|i: int|
        0 <= i < w.len() ==> (#[trigger] w[i]).id@ == c[i].id@ && w[i].name@ == c[i].name@ && w[i].arguments@
            == c[i].arguments@
}

/// The wire message carries the same role and text as the message.
pub open spec fn wire_matches(w: WireMessage, m: Message) -> bool {
    match (w, m) {
        (WireMessage::System { content: a }, Message::System { content: b }) => a@ == b@,
        (WireMessage::User { content: a }, Message::User { content: b }) => a@ == b@,
        (
            WireMessage::Assistant { content: a, tool_calls: wc },
            Message::Assistant { content: b, tool_calls: mc, .. },
        ) => ostr(a) == ostr(b) && calls_match(wc@, mc@),
        (WireMessage::Tool { tool_call_id: a, content: x }, Message::Tool { tool_call_id: b, content: y }) => a@
            == b@ && x@ == y@,
        _ => false,
    }
}

fn clone_opt(o: &Option<String>) -> (r: Option<String>)
    ensures
        ostr(r) == ostr(*o),
{
    match o {
        Some(s) => Some(s.clone()),
        None => None,
    }
}

/// Translate the history into chat messages, one for one.
pub fn to_wire(messages: &[Message]) -> (r: Vec<WireMessage>)
    ensures
        r@.len() == messages@.len(),
        forall|i: int| 0 <= i < r@.len() ==> wire_matches(#[trigger] r@[i], messages@[i]),
{
    let mut out: Vec<WireMessage> = Vec::new();
    for k in 0..messages.len()
        invariant
            out@.len() == k,
            forall|i: int| 0 <= i < k ==> wire_matches(#[trigger] out@[i], messages@[i]),
    {
        let w = match &messages[k] {
            Message::System { content } => WireMessage::System { content: content.clone() },
            Message::User { content } => WireMessage::User { content: content.clone() },
            Message::Assistant { content, tool_calls, .. } => {
                let mut calls: Vec<WireCall> = Vec::new();
                for j in 0..tool_calls.len()
                    invariant
                        calls@.len() == j,
                        forall|i: int|
                            0 <= i < j ==> (#[trigger] calls@[i]).id@ == tool_calls@[i].id@ && calls@[i].name@
                                == tool_calls@[i].name@ && calls@[i].arguments@ == tool_calls@[i].arguments@,
                {
                    let tc = &tool_calls[j];
                    calls.push(WireCall { id: tc.id.clone(), name: tc.name.clone(), arguments: tc.arguments.clone() });
                }
                WireMessage::Assistant { content: clone_opt(content), tool_calls: calls }
            },
            Message::Tool { tool_call_id, content } => WireMessage::Tool {
                tool_call_id: tool_call_id.clone(),
                content: content.clone(),
            },
        };
        out.push(w);
    }
    out
}

/// One tool call fragment of a delta: `index`, `id`, `function.name` and
/// `function.arguments`, each when present with the right JSON type.
#[derive(Debug, Clone, Default)]
pub struct DeltaCall {
    pub index: Option<u64>,
    pub id: Option<String>,
    pub name: Option<String>,
    pub arguments: Option<String>,
}

/// The `delta` object of a chunk's first choice: its `content` and
/// `reasoning_content` strings and its `tool_calls` array, when present.
#[derive(Debug, Clone, Default)]
pub struct OpenAiDelta {
    pub content: Option<String>,
    pub reasoning_content: Option<String>,
    pub tool_calls: Option<Vec<DeltaCall>>,
}

/// A streamed chunk: the delta of its first choice, when that is an object.
#[derive(Debug, Clone, Default)]
pub struct OpenAiChunk {
    pub delta: Option<OpenAiDelta>,
}

pub open spec fn call_event(c: DeltaCall) -> EventV {
    EventV::ToolCallDelta(
        match c.index {
            Some(i) => i as usize,
            None => 0,
        },
        ostr(c.id),
        ostr(c.name),
        ostr(c.arguments),
    )
}

/// The events of a chunk: its text, its non-empty reasoning, then a
/// fragment per tool call.
pub open spec fn delta_spec(c: OpenAiChunk) -> Seq<EventV> {
    match c.delta {
        None => seq![],
        Some(d) => {
            let a = match d.content {
                Some(t) => seq![EventV::Text(t@)],
                None => seq![],
            };
            let b = match d.reasoning_content {
                Some(r) => if r@.len() > 0 {
                    seq![EventV::Reasoning(r@)]
                } else {
                    seq![]
                },
                None => seq![],
            };
            let calls = match d.tool_calls {
                Some(v) => Seq::new(v@.len(), |i: int| call_event(v@[i])),
                None => seq![],
            };
            a + b + calls
        },
    }
}

/// Extract events from one streaming delta chunk.
pub fn parse_delta(c: &OpenAiChunk) -> (r: Vec<StreamEvent>)
    ensures
        events_view(r@) == delta_spec(*c),
{
    let mut out: Vec<StreamEvent> = Vec::new();
    let d = match &c.delta {
        Some(d) => d,
        None => {
            assert(events_view(out@) =~= Seq::<EventV>::empty());
            return out;
        },
    };
    if let Some(t) = &d.content {
        out.push(StreamEvent::Text(t.clone()));
    }
    if let Some(r) = &d.reasoning_content {
        if chars_of(r.as_str()).len() > 0 {
            out.push(StreamEvent::Reasoning(r.clone()));
        }
    }
    let ghost head = events_view(out@);
    let ghost dd = *d;
    proof {
        let a = match dd.content {
            Some(t) => seq![EventV::Text(t@)],
            None => Seq::<EventV>::empty(),
        };
        let b = match dd.reasoning_content {
            Some(r) => if r@.len() > 0 {
                seq![EventV::Reasoning(r@)]
            } else {
                Seq::<EventV>::empty()
            },
            None => Seq::<EventV>::empty(),
        };
        assert(head =~= a + b);
    }
    if let Some(tcs) = &d.tool_calls {
        for k in 0..tcs.len()
            invariant
                events_view(out@) == head + Seq::new(k as nat, |i: int| call_event(tcs@[i])),
        {
            let tc = &tcs[k];
            let index = match tc.index {
                Some(i) => i as usize,
                None => 0,
            };
            let ghost prev = events_view(out@);
            out.push(StreamEvent::ToolCallDelta {
                index,
                id: clone_opt(&tc.id),
                name: clone_opt(&tc.name),
                arguments: clone_opt(&tc.arguments),
            });
            assert(events_view(out@) =~= prev.push(call_event(tcs@[k as int])));
            assert(head + Seq::new((k + 1) as nat, |i: int| call_event(tcs@[i])) =~= (head + Seq::new(k as nat, |i: int| call_event(tcs@[i]))).push(call_event(tcs@[k as int])));
        }
        assert(Seq::new(tcs@.len(), |i: int| call_event(tcs@[i])) =~= Seq::new(tcs@.len() as nat, |i: int| call_event(tcs@[i])));
    } else {
        assert(events_view(out@) =~= head + Seq::<EventV>::empty());
    }
    out
}

} // verus!
