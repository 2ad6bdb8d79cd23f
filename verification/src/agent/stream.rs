//! Folding a streamed completion: text and reasoning are gathered, tool
//! calls assembled from their deltas.
use vstd::prelude::*;

use crate::providers::StreamEvent;
use crate::text::{chars_of, push_str_chars, string_of};

verus! {

/// A tool call assembled from deltas: its id, its name, and the raw text of
/// its JSON arguments.
pub struct PendingCall {
    pub id: String,
    pub name: String,
    pub arguments: String,
}

pub type CallV = (Seq<char>, Seq<char>, Seq<char>);

pub open spec fn call_view(c: PendingCall) -> CallV {
    (c.id@, c.name@, c.arguments@)
}

pub open spec fn calls_view(v: Seq<PendingCall>) -> Seq<CallV> {
    Seq::new(v.len(), |i: int| call_view(v[i]))
}

/// What has arrived of a streamed completion so far.
pub struct StreamState {
    pub content: String,
    pub reasoning: String,
    pub calls: Vec<PendingCall>,
    /// Whether text or a tool call has arrived (reasoning alone does not count).
    pub progress: bool,
}

/// What to do after an event.
pub enum StreamStep {
    /// Keep reading.
    Continue,
    /// The stream is complete.
    Stop,
    /// The stream failed, with this message.
    Fail(String),
}

/// The calls after a delta for call `index`: missing calls are added empty,
/// a given id or name replaces the old one, argument text is appended.
pub open spec fn apply_delta(
    calls: Seq<CallV>,
    index: nat,
    id: Option<Seq<char>>,
    name: Option<Seq<char>>,
    args: Option<Seq<char>>,
) -> Seq<CallV> {
    let ext = if calls.len() > index {
        calls
    } else {
        calls + Seq::new((index + 1 - calls.len()) as nat, |i: int| (Seq::<char>::empty(), Seq::<char>::empty(), Seq::<char>::empty()))
    };
    let c = ext[index as int];
    ext.update(
        index as int,
        (
            match id {
                Some(x) => x,
                None => c.0,
            },
            match name {
                Some(x) => x,
                None => c.1,
            },
            match args {
                Some(a) => c.2 + a,
                None => c.2,
            },
        ),
    )
}

pub open spec fn opt_str(o: Option<String>) -> Option<Seq<char>> {
    match o {
        Some(s) => Some(s@),
        None => None,
    }
}

fn empty_call() -> (r: PendingCall)
    ensures
        call_view(r) == (Seq::<char>::empty(), Seq::<char>::empty(), Seq::<char>::empty()),
{
    PendingCall { id: String::new(), name: String::new(), arguments: String::new() }
}

fn concat(a: &String, b: &String) -> (r: String)
    ensures
        r@ == a@ + b@,
{
    let mut v = chars_of(a.as_str());
    push_str_chars(&mut v, b.as_str());
    string_of(&v)
}

impl StreamState {
    /// Nothing received yet.
    pub fn new() -> (r: StreamState)
        ensures
            r.content@ == Seq::<char>::empty(),
            r.reasoning@ == Seq::<char>::empty(),
            r.calls@.len() == 0,
            !r.progress,
    {
        StreamState { content: String::new(), reasoning: String::new(), calls: Vec::new(), progress: false }
    }

    /// Take in one event of the stream.
    pub fn step(&mut self, ev: StreamEvent) -> (r: StreamStep)
        requires
            ev matches StreamEvent::ToolCallDelta { index, .. } ==> index < usize::MAX,
        ensures
            match ev {
                StreamEvent::Text(t) => {
                    &&& r is Continue
                    &&& final(self).content@ == old(self).content@ + t@
                    &&& final(self).progress
                    &&& final(self).reasoning == old(self).reasoning
                    &&& calls_view(final(self).calls@) == calls_view(old(self).calls@)
                },
                StreamEvent::Reasoning(t) => {
                    &&& r is Continue
                    &&& final(self).reasoning@ == old(self).reasoning@ + t@
                    &&& final(self).content == old(self).content
                    &&& final(self).progress == old(self).progress
                    &&& calls_view(final(self).calls@) == calls_view(old(self).calls@)
                },
                StreamEvent::ToolCallDelta { index, id, name, arguments } => {
                    &&& r is Continue
                    &&& calls_view(final(self).calls@) == apply_delta(
                        calls_view(old(self).calls@),
                        index as nat,
                        opt_str(id),
                        opt_str(name),
                        opt_str(arguments),
                    )
                    &&& final(self).progress
                    &&& final(self).content == old(self).content
                    &&& final(self).reasoning == old(self).reasoning
                },
                StreamEvent::Done => r is Stop && *final(self) == *old(self),
                StreamEvent::Error(e) => {
                    &&& r matches StreamStep::Fail(m) && m@ == "provider stream error: "@ + e@
                    &&& *final(self) == *old(self)
                },
            },
    {
        match ev {
            StreamEvent::Text(t) => {
                self.progress = true;
                self.content = concat(&self.content, &t);
                StreamStep::Continue
            },
            StreamEvent::Reasoning(t) => {
                self.reasoning = concat(&self.reasoning, &t);
                StreamStep::Continue
            },
            StreamEvent::ToolCallDelta { index, id, name, arguments } => {
                self.progress = true;
                let ghost c0 = calls_view(self.calls@);
                let ghost content0 = self.content;
                let ghost reasoning0 = self.reasoning;
                let ghost ext = if c0.len() > index as nat {
                    c0
                } else {
                    c0 + Seq::new((index + 1 - c0.len()) as nat, |i: int| (Seq::<char>::empty(), Seq::<char>::empty(), Seq::<char>::empty()))
                };
                while self.calls.len() <= index
                    invariant
                        index < usize::MAX,
                        self.progress,
                        self.content == content0,
                        self.reasoning == reasoning0,
                        c0.len() <= self.calls@.len(),
                        self.calls@.len() <= index + 1 || self.calls@.len() == c0.len(),
                        ext.len() == (if c0.len() > index as nat { c0.len() } else { (index + 1) as nat }),
                        calls_view(self.calls@) == ext.take(self.calls@.len() as int),
                        ext.take(c0.len() as int) == c0,
                        forall|i: int| c0.len() <= i < ext.len() ==> #[trigger] ext[i] == (Seq::<char>::empty(), Seq::<char>::empty(), Seq::<char>::empty()),
                    decreases index + 1 - self.calls.len(),
                {
                    let ghost prev = calls_view(self.calls@);
                    self.calls.push(empty_call());
                    assert(calls_view(self.calls@) =~= prev.push((Seq::<char>::empty(), Seq::<char>::empty(), Seq::<char>::empty())));
                    assert(ext.take(self.calls@.len() as int) =~= ext.take(self.calls@.len() - 1).push(ext[self.calls@.len() - 1]));
                }
                assert(ext.take(self.calls@.len() as int) =~= ext);
                let ghost before = calls_view(self.calls@);
                let mut c = self.calls.remove(index);
                if let Some(x) = id {
                    c.id = x;
                }
                if let Some(x) = name {
                    c.name = x;
                }
                if let Some(a) = arguments {
                    c.arguments = concat(&c.arguments, &a);
                }
                self.calls.insert(index, c);
                assert(calls_view(self.calls@) =~= before.update(index as int, call_view(c)));
                StreamStep::Continue
            },
            StreamEvent::Done => StreamStep::Stop,
            StreamEvent::Error(e) => {
                let mut m = chars_of("provider stream error: ");
                push_str_chars(&mut m, e.as_str());
                StreamStep::Fail(string_of(&m))
            },
        }
    }

    /// The gathered text and reasoning (none when empty) and the calls.
    pub fn finish(self) -> (r: (Option<String>, Option<String>, Vec<PendingCall>))
        ensures
            opt_str(r.0) == (if self.content@.len() == 0 {
                None
            } else {
                Some(self.content@)
            }),
            opt_str(r.1) == (if self.reasoning@.len() == 0 {
                None
            } else {
                Some(self.reasoning@)
            }),
            calls_view(r.2@) == calls_view(self.calls@),
    {
        let ghost cv = self.content@;
        let ghost rv = self.reasoning@;
        let content = if crate::text::str_byte_len(self.content.as_str()) == 0 {
            proof {
                crate::text::lemma_byte_len_zero(cv);
            }
            None
        } else {
            Some(self.content)
        };
        let reasoning = if crate::text::str_byte_len(self.reasoning.as_str()) == 0 {
            proof {
                crate::text::lemma_byte_len_zero(rv);
            }
            None
        } else {
            Some(self.reasoning)
        };
        (content, reasoning, self.calls)
    }
}

} // verus!
