//! A rough size of the conversation, for deciding when to compact it.
use vstd::prelude::*;

use crate::providers::Message;
use crate::text::chars_of;

verus! {

/// The characters a message carries: its text, its reasoning, and the JSON
/// arguments of its tool calls.
pub open spec fn measure_spec(m: Message) -> nat {
    match m {
        Message::System { content } => content@.len(),
        Message::User { content } => content@.len(),
        Message::Assistant { content, reasoning, tool_calls } => (match content {
            Some(c) => c@.len(),
            None => 0,
        }) + (match reasoning {
            Some(r) => r@.len(),
            None => 0,
        }) + args_chars(tool_calls@),
        Message::Tool { content, .. } => content@.len(),
    }
}

/// The characters of the tool calls' arguments.
pub open spec fn args_chars(calls: Seq<crate::providers::ToolCall>) -> nat
    decreases calls.len(),
{
    if calls.len() == 0 {
        0
    } else {
        args_chars(calls.drop_last()) + calls.last().arguments@.len()
    }
}

/// The characters of all messages.
pub open spec fn total_chars(ms: Seq<Message>) -> nat
    decreases ms.len(),
{
    if ms.len() == 0 {
        0
    } else {
        total_chars(ms.drop_last()) + measure_spec(ms.last())
    }
}

proof fn lemma_total_prefix(ms: Seq<Message>, k: int)
    requires
        0 <= k <= ms.len(),
    ensures
        total_chars(ms.take(k)) <= total_chars(ms),
    decreases ms.len() - k,
{
    if k < ms.len() {
        lemma_total_prefix(ms, k + 1);
        assert(ms.take(k + 1).drop_last() =~= ms.take(k));
    } else {
        assert(ms.take(k) =~= ms);
    }
}

proof fn lemma_args_prefix(calls: Seq<crate::providers::ToolCall>, k: int)
    requires
        0 <= k <= calls.len(),
    ensures
        args_chars(calls.take(k)) <= args_chars(calls),
    decreases calls.len() - k,
{
    if k < calls.len() {
        lemma_args_prefix(calls, k + 1);
        assert(calls.take(k + 1).drop_last() =~= calls.take(k));
    } else {
        assert(calls.take(k) =~= calls);
    }
}

fn measure(m: &Message) -> (r: usize)
    requires
        measure_spec(*m) <= usize::MAX,
    ensures
        r == measure_spec(*m),
{
    match m {
        Message::System { content } => chars_of(content.as_str()).len(),
        Message::User { content } => chars_of(content.as_str()).len(),
        Message::Assistant { content, reasoning, tool_calls } => {
            let a = match content {
                Some(c) => chars_of(c.as_str()).len(),
                None => 0,
            };
            let b = match reasoning {
                Some(r) => chars_of(r.as_str()).len(),
                None => 0,
            };
            let mut n: usize = a + b;
            for k in 0..tool_calls.len()
                invariant
                    n == a + b + args_chars(tool_calls@.take(k as int)),
                    a + b + args_chars(tool_calls@) <= usize::MAX,
            {
                proof {
                    assert(tool_calls@.take(k + 1).drop_last() =~= tool_calls@.take(k as int));
                    lemma_args_prefix(tool_calls@, k + 1);
                }
                n = n + chars_of(tool_calls[k].arguments.as_str()).len();
            }
            assert(tool_calls@.take(tool_calls@.len() as int) =~= tool_calls@);
            n
        },
        Message::Tool { content, .. } => chars_of(content.as_str()).len(),
    }
}

/// Rough token estimate: characters / 4. Good enough for compaction thresholds.
pub fn estimate_tokens(messages: &[Message]) -> (r: usize)
    requires
        total_chars(messages@) <= usize::MAX,
    ensures
        r == total_chars(messages@) / 4,
{
    let mut chars: usize = 0;
    for k in 0..messages.len()
        invariant
            chars == total_chars(messages@.take(k as int)),
            total_chars(messages@) <= usize::MAX,
    {
        proof {
            assert(messages@.take(k + 1).drop_last() =~= messages@.take(k as int));
            lemma_total_prefix(messages@, k + 1);
        }
        chars = chars + measure(&messages[k]);
    }
    assert(messages@.take(messages@.len() as int) =~= messages@);
    chars / 4
}

} // verus!
