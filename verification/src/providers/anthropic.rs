//! The Anthropic Messages API: the history as its messages, and its stream
//! records as events.
use vstd::prelude::*;

use crate::providers::{Message, StreamEvent, ToolCall};
use crate::text::{chars_of, push_str_chars, string_of};

verus! {

/// Who speaks in a wire message.
#[derive(Debug, Clone, Copy, PartialEq, Eq, Structural)]
pub enum WireRole {
    User,
    Assistant,
}

/// A content block of a wire message.
#[derive(Debug, Clone)]
pub enum WireBlock {
    Text(String),
    /// A tool call; `input` is the JSON text of its arguments.
    ToolUse { id: String, name: String, input: String },
    ToolResult { tool_use_id: String, content: String },
}

/// A message as the Messages API takes it.
#[derive(Debug, Clone)]
pub struct WireMessage {
    pub role: WireRole,
    pub content: Vec<WireBlock>,
}

pub enum BlockV {
    Text(Seq<char>),
    ToolUse(Seq<char>, Seq<char>, Seq<char>),
    ToolResult(Seq<char>, Seq<char>),
}

pub open spec fn block_view(b: WireBlock) -> BlockV {
    match b {
        WireBlock::Text(t) => BlockV::Text(t@),
        WireBlock::ToolUse { id, name, input } => BlockV::ToolUse(id@, name@, input@),
        WireBlock::ToolResult { tool_use_id, content } => BlockV::ToolResult(tool_use_id@, content@),
    }
}

pub open spec fn blocks_view(v: Seq<WireBlock>) -> Seq<BlockV> {
    Seq::new(v.len(), |i: int| block_view(v[i]))
}

pub open spec fn wire_view(v: Seq<WireMessage>) -> Seq<(WireRole, Seq<BlockV>)> {
    Seq::new(v.len(), |i: int| (v[i].role, blocks_view(v[i].content@)))
}

/// The system prompt: the system messages joined by blank lines.
pub open spec fn system_text(ms: Seq<Message>) -> Seq<char>
    decreases ms.len(),
{
    if ms.len() == 0 {
        seq![]
    } else {
        let prev = system_text(ms.drop_last());
        match ms.last() {
            Message::System { content } => if prev.len() > 0 {
                prev + "\n\n"@ + content@
            } else {
                prev + content@
            },
            _ => prev,
        }
    }
}

/// The input of a tool use: the call's arguments, `{}` for a null.
pub open spec fn tool_input(args: Seq<char>) -> Seq<char> {
    if args == "null"@ {
        "{}"@
    } else {
        args
    }
}

pub open spec fn call_blocks(calls: Seq<ToolCall>) -> Seq<BlockV> {
    Seq::new(calls.len(), |i: int| BlockV::ToolUse(calls[i].id@, calls[i].name@, tool_input(calls[i].arguments@)))
}

/// The content of an assistant message: its text (when not empty), then
/// its tool calls; one empty text block when there is neither.
pub open spec fn assistant_blocks(content: Option<Seq<char>>, calls: Seq<ToolCall>) -> Seq<BlockV> {
    let text = match content {
        Some(t) => if t.len() > 0 {
            seq![BlockV::Text(t)]
        } else {
            seq![]
        },
        None => seq![],
    };
    let all = text + call_blocks(calls);
    if all.len() == 0 {
        seq![BlockV::Text(seq![])]
    } else {
        all
    }
}

/// Each non-system message as a wire message, before merging.
pub open spec fn raw_wire(ms: Seq<Message>) -> Seq<(WireRole, Seq<BlockV>)>
    decreases ms.len(),
{
    if ms.len() == 0 {
        seq![]
    } else {
        let prev = raw_wire(ms.drop_last());
        match ms.last() {
            Message::System { .. } => prev,
            Message::User { content } => prev.push((WireRole::User, seq![BlockV::Text(content@)])),
            Message::Assistant { content, tool_calls, .. } => prev.push(
                (
                    WireRole::Assistant,
                    assistant_blocks(
                        match content {
                            Some(c) => Some(c@),
                            None => None,
                        },
                        tool_calls@,
                    ),
                ),
            ),
            Message::Tool { tool_call_id, content } => prev.push(
                (WireRole::User, seq![BlockV::ToolResult(tool_call_id@, content@)]),
            ),
        }
    }
}

/// Adjacent messages of the same role merged into one (the API wants the
/// roles to alternate).
pub open spec fn merged(ms: Seq<(WireRole, Seq<BlockV>)>) -> Seq<(WireRole, Seq<BlockV>)>
    decreases ms.len(),
{
    if ms.len() == 0 {
        seq![]
    } else {
        let prev = merged(ms.drop_last());
        let m = ms.last();
        if prev.len() > 0 && prev.last().0 == m.0 {
            prev.update(prev.len() - 1, (m.0, prev.last().1 + m.1))
        } else {
            prev.push(m)
        }
    }
}

fn copy_calls(calls: &Vec<ToolCall>, out: &mut Vec<WireBlock>)
    ensures
        blocks_view(final(out)@) == blocks_view(old(out)@) + call_blocks(calls@),
{
    let ghost base = blocks_view(out@);
    for k in 0..calls.len()
        invariant
            blocks_view(out@) == base + call_blocks(calls@.take(k as int)),
            base == blocks_view(old(out)@),
    {
        let tc = &calls[k];
        let a = chars_of(tc.arguments.as_str());
        let input = if crate::text::eq_str(&a, "null") {
            String::from_str("{}")
        } else {
            tc.arguments.clone()
        };
        let ghost prev = blocks_view(out@);
        out.push(WireBlock::ToolUse { id: tc.id.clone(), name: tc.name.clone(), input });
        assert(blocks_view(out@) =~= prev.push(block_view(out@.last())));
        assert(call_blocks(calls@.take(k + 1)) =~= call_blocks(calls@.take(k as int)).push(call_blocks(calls@)[k as int]));
    }
    assert(calls@.take(calls@.len() as int) =~= calls@);
}

fn append_blocks(dst: &mut Vec<WireBlock>, src: Vec<WireBlock>)
    ensures
        blocks_view(final(dst)@) == blocks_view(old(dst)@) + blocks_view(src@),
{
    let mut rest = src;
    let ghost s0 = rest@;
    let ghost base = blocks_view(dst@);
    let mut k: usize = 0;
    let n0 = rest.len();
    while rest.len() > 0
        invariant
            rest@ == s0.skip(k as int),
            n0 == s0.len(),
            k <= s0.len(),
            base == blocks_view(old(dst)@),
            blocks_view(dst@) == base + blocks_view(s0.take(k as int)),
        decreases rest.len(),
    {
        let b = rest.remove(0);
        assert(b == s0[k as int]);
        assert(rest@ =~= s0.skip(k + 1));
        let ghost prev = blocks_view(dst@);
        dst.push(b);
        assert(blocks_view(dst@) =~= prev.push(block_view(b)));
        assert(blocks_view(s0.take(k + 1)) =~= blocks_view(s0.take(k as int)).push(block_view(s0[k as int])));
        k += 1;
    }
    assert(s0.take(k as int) =~= s0);
}

/// Translate the history into the Messages API's `system` text and
/// messages; consecutive messages with the same role are merged.
pub fn to_wire(messages: &[Message]) -> (r: (String, Vec<WireMessage>))
    ensures
        r.0@ == system_text(messages@),
        wire_view(r.1@) == merged(raw_wire(messages@)),
{
    let mut system: Vec<char> = Vec::new();
    let mut raw: Vec<WireMessage> = Vec::new();
    for k in 0..messages.len()
        invariant
            system@ == system_text(messages@.take(k as int)),
            wire_view(raw@) == raw_wire(messages@.take(k as int)),
    {
        assert(messages@.take(k + 1).drop_last() =~= messages@.take(k as int));
        let ghost prev = wire_view(raw@);
        match &messages[k] {
            Message::System { content } => {
                if system.len() > 0 {
                    push_str_chars(&mut system, "\n\n");
                }
                push_str_chars(&mut system, content.as_str());
            },
            Message::User { content } => {
                let mut blocks: Vec<WireBlock> = Vec::new();
                blocks.push(WireBlock::Text(content.clone()));
                assert(blocks_view(blocks@) =~= seq![BlockV::Text(content@)]);
                raw.push(WireMessage { role: WireRole::User, content: blocks });
                assert(wire_view(raw@) =~= prev.push((WireRole::User, seq![BlockV::Text(content@)])));
            },
            Message::Assistant { content, tool_calls, .. } => {
                let mut blocks: Vec<WireBlock> = Vec::new();
                if let Some(t) = content {
                    if chars_of(t.as_str()).len() > 0 {
                        blocks.push(WireBlock::Text(t.clone()));
                    }
                }
                let ghost text_part = blocks_view(blocks@);
                proof {
                    let want_text = match content {
                        Some(t) => if t@.len() > 0 {
                            seq![BlockV::Text(t@)]
                        } else {
                            Seq::<BlockV>::empty()
                        },
                        None => Seq::<BlockV>::empty(),
                    };
                    assert(text_part =~= want_text);
                }
                copy_calls(tool_calls, &mut blocks);
                if blocks.len() == 0 {
                    blocks.push(WireBlock::Text(String::new()));
                }
                proof {
                    let want = assistant_blocks(
                        match content {
                            Some(c) => Some(c@),
                            None => None,
                        },
                        tool_calls@,
                    );
                    assert(blocks_view(blocks@) =~= want);
                }
                let ghost bv = blocks_view(blocks@);
                raw.push(WireMessage { role: WireRole::Assistant, content: blocks });
                assert(wire_view(raw@) =~= prev.push((WireRole::Assistant, bv)));
            },
            Message::Tool { tool_call_id, content } => {
                let mut blocks: Vec<WireBlock> = Vec::new();
                blocks.push(WireBlock::ToolResult { tool_use_id: tool_call_id.clone(), content: content.clone() });
                assert(blocks_view(blocks@) =~= seq![BlockV::ToolResult(tool_call_id@, content@)]);
                raw.push(WireMessage { role: WireRole::User, content: blocks });
                assert(wire_view(raw@) =~= prev.push((WireRole::User, seq![BlockV::ToolResult(tool_call_id@, content@)])));
            },
        }
    }
    assert(messages@.take(messages@.len() as int) =~= messages@);
    // Merge adjacent same-role messages.
    let ghost rv = wire_view(raw@);
    let mut out: Vec<WireMessage> = Vec::new();
    let mut rest = raw;
    let mut k: usize = 0;
    let n0 = rest.len();
    assert(wire_view(rest@) =~= rv.skip(0));
    while rest.len() > 0
        invariant
            wire_view(rest@) == rv.skip(k as int),
            n0 == rv.len(),
            k <= rv.len(),
            wire_view(out@) == merged(rv.take(k as int)),
        decreases rest.len(),
    {
        let ghost r0 = rest@;
        let m = rest.remove(0);
        proof {
            assert(wire_view(r0).len() == rv.len() - k);
            assert(rv.skip(k as int)[0] == rv[k as int]);
            assert(wire_view(r0)[0] == rv[k as int]);
            assert(wire_view(rest@) =~= wire_view(r0).drop_first());
            assert(rv.take(k + 1).drop_last() =~= rv.take(k as int));
            assert(rv.take(k + 1).last() == rv[k as int]);
        }
        let ghost prev = wire_view(out@);
        let n = out.len();
        if n > 0 && out[n - 1].role == m.role {
            let mut last = out.remove(n - 1);
            let ghost lv = blocks_view(last.content@);
            let ghost mv = blocks_view(m.content@);
            append_blocks(&mut last.content, m.content);
            out.push(last);
            assert(wire_view(out@) =~= prev.update(prev.len() - 1, (prev.last().0, lv + mv)));
        } else {
            out.push(m);
            assert(wire_view(out@) =~= prev.push(rv[k as int]));
        }
        k += 1;
    }
    assert(rv.take(k as int) =~= rv);
    (string_of(&system), out)
}

/// The fields of one stream record that matter: its `type`, `index`,
/// `content_block.{type,id,name}`, `delta.{type,text,thinking,partial_json}`
/// and `error.message`, each when it is present with the right JSON type.
#[derive(Debug, Clone, Default)]
pub struct AnthropicEvent {
    pub kind: Option<String>,
    pub index: Option<u64>,
    pub block_type: Option<String>,
    pub block_id: Option<String>,
    pub block_name: Option<String>,
    pub delta_type: Option<String>,
    pub delta_text: Option<String>,
    pub delta_thinking: Option<String>,
    pub delta_partial_json: Option<String>,
    pub error_message: Option<String>,
}

pub enum EventV {
    Text(Seq<char>),
    Reasoning(Seq<char>),
    ToolCallDelta(usize, Option<Seq<char>>, Option<Seq<char>>, Option<Seq<char>>),
    Done,
    Error(Seq<char>),
}

pub open spec fn ostr(o: Option<String>) -> Option<Seq<char>> {
    match o {
        Some(s) => Some(s@),
        None => None,
    }
}

pub open spec fn event_view(e: StreamEvent) -> EventV {
    match e {
        StreamEvent::Text(t) => EventV::Text(t@),
        StreamEvent::Reasoning(t) => EventV::Reasoning(t@),
        StreamEvent::ToolCallDelta { index, id, name, arguments } => EventV::ToolCallDelta(
            index,
            ostr(id),
            ostr(name),
            ostr(arguments),
        ),
        StreamEvent::Done => EventV::Done,
        StreamEvent::Error(m) => EventV::Error(m@),
    }
}

pub open spec fn events_view(v: Seq<StreamEvent>) -> Seq<EventV> {
    Seq::new(v.len(), |i: int| event_view(v[i]))
}

pub open spec fn index_of(e: AnthropicEvent) -> usize {
    match e.index {
        Some(i) => i as usize,
        None => 0,
    }
}

/// The events of one stream record: a tool-use block start, a text,
/// thinking or argument delta, the end of the message, or an error.
pub open spec fn event_spec(e: AnthropicEvent) -> Seq<EventV> {
    match e.kind {
        None => seq![],
        Some(k) => if k@ == "content_block_start"@ {
            if e.block_type matches Some(t) && t@ == "tool_use"@ {
                seq![EventV::ToolCallDelta(index_of(e), ostr(e.block_id), ostr(e.block_name), None)]
            } else {
                seq![]
            }
        } else if k@ == "content_block_delta"@ {
            match e.delta_type {
                Some(d) => if d@ == "text_delta"@ {
                    match e.delta_text {
                        Some(t) => seq![EventV::Text(t@)],
                        None => seq![],
                    }
                } else if d@ == "thinking_delta"@ {
                    match e.delta_thinking {
                        Some(t) => seq![EventV::Reasoning(t@)],
                        None => seq![],
                    }
                } else if d@ == "input_json_delta"@ {
                    match e.delta_partial_json {
                        Some(p) => seq![EventV::ToolCallDelta(index_of(e), None, None, Some(p@))],
                        None => seq![],
                    }
                } else {
                    seq![]
                },
                None => seq![],
            }
        } else if k@ == "message_stop"@ {
            seq![EventV::Done]
        } else if k@ == "error"@ {
            match e.error_message {
                Some(m) => seq![EventV::Error(m@)],
                None => seq![],
            }
        } else {
            seq![]
        },
    }
}

fn clone_opt(o: &Option<String>) -> (r: Option<String>)
    ensures
        ostr(r) == ostr(*o),
{
    match o {
        Some(s) => Some(s.clone()),
        None => None,
    }
}

fn one(e: StreamEvent) -> (r: Vec<StreamEvent>)
    ensures
        events_view(r@) == seq![event_view(e)],
{
    let mut v: Vec<StreamEvent> = Vec::new();
    v.push(e);
    assert(events_view(v@) =~= seq![event_view(e)]);
    v
}

fn none() -> (r: Vec<StreamEvent>)
    ensures
        events_view(r@) == Seq::<EventV>::empty(),
{
    let v: Vec<StreamEvent> = Vec::new();
    assert(events_view(v@) =~= Seq::<EventV>::empty());
    v
}

/// Extract events from one Anthropic stream record.
pub fn parse_event(e: &AnthropicEvent) -> (r: Vec<StreamEvent>)
    ensures
        events_view(r@) == event_spec(*e),
{
    let k = match &e.kind {
        Some(k) => chars_of(k.as_str()),
        None => return none(),
    };
    let index = match e.index {
        Some(i) => i as usize,
        None => 0,
    };
    if crate::text::eq_str(&k, "content_block_start") {
        let tool_use = match &e.block_type {
            Some(t) => crate::text::eq_str(&chars_of(t.as_str()), "tool_use"),
            None => false,
        };
        if tool_use {
            return one(StreamEvent::ToolCallDelta {
                index,
                id: clone_opt(&e.block_id),
                name: clone_opt(&e.block_name),
                arguments: None,
            });
        }
        none()
    } else if crate::text::eq_str(&k, "content_block_delta") {
        let d = match &e.delta_type {
            Some(d) => chars_of(d.as_str()),
            None => return none(),
        };
        if crate::text::eq_str(&d, "text_delta") {
            match &e.delta_text {
                Some(t) => one(StreamEvent::Text(t.clone())),
                None => none(),
            }
        } else if crate::text::eq_str(&d, "thinking_delta") {
            match &e.delta_thinking {
                Some(t) => one(StreamEvent::Reasoning(t.clone())),
                None => none(),
            }
        } else if crate::text::eq_str(&d, "input_json_delta") {
            match &e.delta_partial_json {
                Some(p) => one(StreamEvent::ToolCallDelta { index, id: None, name: None, arguments: Some(p.clone()) }),
                None => none(),
            }
        } else {
            none()
        }
    } else if crate::text::eq_str(&k, "message_stop") {
        one(StreamEvent::Done)
    } else if crate::text::eq_str(&k, "error") {
        match &e.error_message {
            Some(m) => one(StreamEvent::Error(m.clone())),
            None => none(),
        }
    } else {
        none()
    }
}

} // verus!
