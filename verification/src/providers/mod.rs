//! What the model providers hand back while streaming a completion.
pub mod anthropic;
pub mod openai;
pub mod sse;

use vstd::prelude::*;

use crate::text::view2;

verus! {

/// Incremental chunks from a streaming completion.
#[derive(Debug)]
pub enum StreamEvent {
    Text(String),
    /// Model reasoning / thinking content (e.g. Anthropic thinking blocks, o-series `reasoning_content`).
    Reasoning(String),
    ToolCallDelta {
        index: usize,
        id: Option<String>,
        name: Option<String>,
        arguments: Option<String>,
    },
    Done,
    Error(String),
}

/// A provider failure, with its message.
#[derive(Debug)]
pub struct ProviderError(pub String);

impl ProviderError {
    /// The message (what `Display` shows).
    pub fn message(&self) -> (r: String)
        ensures
            r@ == self.0@,
    {
        self.0.clone()
    }
}

/// A tool call requested by the model. Its arguments are kept as the JSON
/// text of an object.
#[derive(Debug, Clone)]
pub struct ToolCall {
    pub id: String,
    pub name: String,
    pub arguments: String,
}

/// Provider-agnostic message history. Each provider translates these to its wire format.
#[derive(Debug, Clone)]
pub enum Message {
    System { content: String },
    User { content: String },
    Assistant {
        content: Option<String>,
        /// Reasoning/thinking text, kept for history replay but never re-sent.
        reasoning: Option<String>,
        tool_calls: Vec<ToolCall>,
    },
    Tool { tool_call_id: String, content: String },
}

pub type FieldV = (Seq<char>, Option<Seq<char>>);

pub open spec fn fields_view(v: Seq<(String, Option<String>)>) -> Seq<FieldV> {
    Seq::new(
        v.len(),
        |i: int|
            (
                v[i].0@,
                match v[i].1 {
                    Some(s) => Some(s@),
                    None => None,
                },
            ),
    )
}

/// The members of the JSON object in `text`, in the order `serde_json`
/// keeps them, each with its value when that is a string; nothing when the
/// text is not a JSON object.
pub uninterp spec fn json_string_fields(text: Seq<char>) -> Seq<FieldV>;

/// Parses `text` with `serde_json::from_str::<serde_json::Value>`; for an
/// object, lists its members, a string value kept and any other value as
/// `None`; for anything else (an error, or a value that is no object) gives
/// no members. Claimed: the result is `json_string_fields(text)`.
#[verifier::external_body]
pub(crate) fn string_fields(text: &str) -> (r: Vec<(String, Option<String>)>)
    ensures
        fields_view(r@) == json_string_fields(text@),
{
    match serde_json::from_str::<serde_json::Value>(text) {
        Ok(serde_json::Value::Object(m)) => m
            .into_iter()
            .map(|(k, v)| match v {
                serde_json::Value::String(s) => (k, Some(s)),
                _ => (k, None),
            })
            .collect(),
        _ => Vec::new(),
    }
}

/// The string value of the first member named `key`, if it is a string.
pub open spec fn field_str(fields: Seq<FieldV>, key: Seq<char>) -> Option<Seq<char>>
    decreases fields.len(),
{
    if fields.len() == 0 {
        None
    } else if fields[0].0 == key {
        fields[0].1
    } else {
        field_str(fields.drop_first(), key)
    }
}

/// The string argument `key` of a tool call's JSON arguments.
pub open spec fn arg_str(args: Seq<char>, key: Seq<char>) -> Option<Seq<char>> {
    field_str(json_string_fields(args), key)
}

/// The string argument `key` of a tool call's JSON arguments, if present.
pub fn arg_string(args: &str, key: &str) -> (r: Option<String>)
    ensures
        match arg_str(args@, key@) {
            Some(v) => r matches Some(x) && x@ == v,
            None => r is None,
        },
{
    let fields = string_fields(args);
    let ghost fv = fields_view(fields@);
    let k = crate::text::chars_of(key);
    assert(fv.skip(0) =~= fv);
    for i in 0..fields.len()
        invariant
            fv == fields_view(fields@),
            fv == json_string_fields(args@),
            k@ == key@,
            field_str(fv, key@) == field_str(fv.skip(i as int), key@),
    {
        assert(fv.skip(i as int)[0] == fv[i as int]);
        assert(fv.skip(i as int).drop_first() =~= fv.skip(i + 1));
        if crate::text::eq_str(&k, fields[i].0.as_str()) {
            return match &fields[i].1 {
                Some(v) => Some(v.clone()),
                None => None,
            };
        }
    }
    assert(fv.skip(fields@.len() as int).len() == 0);
    None
}

pub type ListFieldV = (Seq<char>, Option<Seq<Option<Seq<char>>>>);

pub open spec fn items_view(v: Seq<Option<String>>) -> Seq<Option<Seq<char>>> {
    Seq::new(
        v.len(),
        |j: int|
            match v[j] {
                Some(s) => Some(s@),
                None => None,
            },
    )
}

pub open spec fn list_fields_view(v: Seq<(String, Option<Vec<Option<String>>>)>) -> Seq<ListFieldV> {
    Seq::new(
        v.len(),
        |i: int|
            (
                v[i].0@,
                match v[i].1 {
                    Some(items) => Some(items_view(items@)),
                    None => None,
                },
            ),
    )
}

/// The members of the JSON object in `text`, in the order `serde_json`
/// keeps them, each with its items when its value is an array (an item kept
/// when it is a string, `None` otherwise); nothing when the text is not a
/// JSON object.
pub uninterp spec fn json_list_fields(text: Seq<char>) -> Seq<ListFieldV>;

/// Parses `text` with `serde_json::from_str::<serde_json::Value>`; for an
/// object, lists its members, an array value as its items (a string item
/// kept, any other as `None`) and any other value as `None`; for anything
/// else gives no members. Claimed: the result is `json_list_fields(text)`.
#[verifier::external_body]
pub(crate) fn list_fields(text: &str) -> (r: Vec<(String, Option<Vec<Option<String>>>)>)
    ensures
        list_fields_view(r@) == json_list_fields(text@),
{
    match serde_json::from_str::<serde_json::Value>(text) {
        Ok(serde_json::Value::Object(m)) => m
            .into_iter()
            .map(|(k, v)| match v {
                serde_json::Value::Array(a) => (k, Some(a.into_iter().map(|x| match x {
                    serde_json::Value::String(s) => Some(s),
                    _ => None,
                }).collect())),
                _ => (k, None),
            })
            .collect(),
        _ => Vec::new(),
    }
}

/// The items of the first member named `key`, if it is an array.
pub open spec fn field_list(fields: Seq<ListFieldV>, key: Seq<char>) -> Option<Seq<Option<Seq<char>>>>
    decreases fields.len(),
{
    if fields.len() == 0 {
        None
    } else if fields[0].0 == key {
        fields[0].1
    } else {
        field_list(fields.drop_first(), key)
    }
}

/// The string items among `items`, in order.
pub open spec fn string_items(items: Seq<Option<Seq<char>>>) -> Seq<Seq<char>>
    decreases items.len(),
{
    if items.len() == 0 {
        seq![]
    } else {
        string_items(items.drop_last()) + match items.last() {
            Some(t) => seq![t],
            None => seq![],
        }
    }
}

/// The string items of the array argument `key` of a tool call's JSON
/// arguments: the strings in order, other items skipped; none when the
/// argument is missing or no array.
pub open spec fn arg_strs(args: Seq<char>, key: Seq<char>) -> Seq<Seq<char>> {
    match field_list(json_list_fields(args), key) {
        Some(items) => string_items(items),
        None => seq![],
    }
}

/// The string items of the array argument `key`.
pub fn arg_strings(args: &str, key: &str) -> (r: Vec<String>)
    ensures
        crate::goal::strs(r@) == arg_strs(args@, key@),
{
    let fields = list_fields(args);
    let ghost fv = list_fields_view(fields@);
    let k = crate::text::chars_of(key);
    assert(fv.skip(0) =~= fv);
    let mut i: usize = 0;
    while i < fields.len()
        invariant
            fv == list_fields_view(fields@),
            fv == json_list_fields(args@),
            k@ == key@,
            i <= fields@.len(),
            field_list(fv, key@) == field_list(fv.skip(i as int), key@),
        decreases fields.len() - i,
    {
        assert(fv.skip(i as int)[0] == fv[i as int]);
        assert(fv.skip(i as int).drop_first() =~= fv.skip(i + 1));
        if crate::text::eq_str(&k, fields[i].0.as_str()) {
            let mut out: Vec<String> = Vec::new();
            match &fields[i].1 {
                Some(items) => {
                    let ghost iv = items_view(items@);
                    assert(field_list(fv, key@) == Some(iv));
                    for j in 0..items.len()
                        invariant
                            iv == items_view(items@),
                            crate::goal::strs(out@) == string_items(iv.take(j as int)),
                    {
                        let ghost prev = crate::goal::strs(out@);
                        assert(iv.take(j + 1).drop_last() =~= iv.take(j as int));
                        match &items[j] {
                            Some(t) => {
                                out.push(t.clone());
                                assert(crate::goal::strs(out@) =~= prev + seq![t@]);
                            },
                            None => {
                                assert(prev + Seq::<Seq<char>>::empty() =~= prev);
                            },
                        }
                    }
                    assert(iv.take(items@.len() as int) =~= iv);
                },
                None => {
                    assert(crate::goal::strs(out@) =~= Seq::<Seq<char>>::empty());
                },
            }
            return out;
        }
        i += 1;
    }
    assert(fv.skip(fields@.len() as int).len() == 0);
    let out: Vec<String> = Vec::new();
    assert(crate::goal::strs(out@) =~= Seq::<Seq<char>>::empty());
    out
}

} // verus!
