//! The decisions of the chat-completions adapter: what the status of a reply
//! calls for, which fields its JSON body holds, which token counts its usage
//! reports, and which events the body gives. Sending the request and
//! receiving the body are the caller's.

use vstd::prelude::*;
use crate::adapters::{LLMError, ResponseEvent, ToolInvocation, Usage};
use crate::text::{concat, owned, parse_u64, spec_parse_u64};
use crate::json::{
    empty_json_object, items_of, json_array, json_member, json_object_of, json_u64, json_value_of,
    member, member_at, member_in, member_string, member_text, opt_view, parse_json, u64_of,
};

verus! {

/// A tool call as a chat-completions reply carries it; a field that is
/// missing, or not a string, is `None`.
#[derive(Debug)]
pub struct RawToolCall {
    pub id: Option<String>,
    pub name: Option<String>,
    pub arguments: Option<String>,
}

/// One choice of a reply: the text of its message and its tool calls, each
/// `None` where the body has none (or not of the right JSON type).
#[derive(Debug)]
pub struct RawChoice {
    pub content: Option<String>,
    pub tool_calls: Option<Vec<RawToolCall>>,
}

/// The items of the array at `key`, then `inner`, of `v`: nothing where a
/// member is missing or the value there is not an array.
pub open spec fn items_at(v: serde_json::Value, key: Seq<char>, inner: Seq<char>) -> Option<
    Seq<serde_json::Value>,
> {
    match member_at(v, key, inner) {
        Some(a) => json_array(a),
        None => None,
    }
}

/// The text at `key`, then `inner`, of `v`, when it is a string.
pub open spec fn text_at(v: serde_json::Value, key: Seq<char>, inner: Seq<char>) -> Option<
    Seq<char>,
> {
    match json_member(v, key) {
        Some(m) => member_text(m, inner),
        None => None,
    }
}

/// Whether `c` holds the fields of the tool call `j`: its "id", and its
/// function's "name" and "arguments".
pub open spec fn is_tool_call_of(c: RawToolCall, j: serde_json::Value) -> bool {
    &&& opt_view(c.id) == member_text(j, "id"@)
    &&& opt_view(c.name) == text_at(j, "function"@, "name"@)
    &&& opt_view(c.arguments) == text_at(j, "function"@, "arguments"@)
}

/// Whether `c` holds the fields of the choice `j`: its message's "content"
/// and, one by one, its message's "tool_calls".
pub open spec fn is_choice_of(c: RawChoice, j: serde_json::Value) -> bool {
    &&& opt_view(c.content) == text_at(j, "message"@, "content"@)
    &&& match (c.tool_calls, items_at(j, "message"@, "tool_calls"@)) {
        (None, None) => true,
        (Some(calls), Some(items)) => calls@.len() == items.len() && forall|i: int|
            0 <= i < items.len() ==> is_tool_call_of(#[trigger] calls@[i], items[i]),
        _ => false,
    }
}

/// The fields of one tool call of a reply.
pub fn raw_tool_call(j: &serde_json::Value) -> (res: RawToolCall)
    ensures
        is_tool_call_of(res, *j),
{
    let function = member(j, "function");
    let (name, arguments) = match &function {
        Some(f) => (member_string(f, "name"), member_string(f, "arguments")),
        None => (None, None),
    };
    RawToolCall { id: member_string(j, "id"), name, arguments }
}

/// The fields of one choice of a reply.
pub fn raw_choice(j: &serde_json::Value) -> (res: RawChoice)
    ensures
        is_choice_of(res, *j),
{
    let content = match member(j, "message") {
        Some(m) => member_string(&m, "content"),
        None => None,
    };
    let tool_calls = match member_in(j, "message", "tool_calls") {
        Some(t) => match items_of(&t) {
            Some(items) => {
                let mut calls: Vec<RawToolCall> = Vec::new();
                let mut i: usize = 0;
                while i < items.len()
                    invariant
                        i <= items.len(),
                        calls@.len() == i,
                        forall|k: int| 0 <= k < i ==> is_tool_call_of(#[trigger] calls@[k], items@[k]),
                    decreases items.len() - i,
                {
                    calls.push(raw_tool_call(&items[i]));
                    i = i + 1;
                }
                Some(calls)
            },
            None => None,
        },
        None => None,
    };
    RawChoice { content, tool_calls }
}

/// The choices of a reply body, one by one: nothing when its "choices" is
/// missing or not an array.
pub fn raw_choices(body: &serde_json::Value) -> (res: Option<Vec<RawChoice>>)
    ensures
        match (res, json_member(*body, "choices"@)) {
            (Some(cs), Some(a)) => json_array(a) matches Some(items) && cs@.len() == items.len()
                && forall|i: int| 0 <= i < items.len() ==> is_choice_of(#[trigger] cs@[i], items[i]),
            (None, Some(a)) => json_array(a) is None,
            (None, None) => true,
            (Some(_), None) => false,
        },
{
    let items = match member(body, "choices") {
        Some(a) => match items_of(&a) {
            Some(items) => items,
            None => return None,
        },
        None => return None,
    };
    let mut cs: Vec<RawChoice> = Vec::new();
    let mut i: usize = 0;
    while i < items.len()
        invariant
            i <= items.len(),
            cs@.len() == i,
            forall|k: int| 0 <= k < i ==> is_choice_of(#[trigger] cs@[k], items@[k]),
        decreases items.len() - i,
    {
        cs.push(raw_choice(&items[i]));
        i = i + 1;
    }
    Some(cs)
}

/// The "prompt_tokens" and "completion_tokens" of a reply body's "usage",
/// each when it is a whole number that fits in 64 bits.
pub fn usage_counts(body: &serde_json::Value) -> (res: (Option<u64>, Option<u64>))
    ensures
        res.0 == match member_at(*body, "usage"@, "prompt_tokens"@) {
            Some(n) => json_u64(n),
            None => None,
        },
        res.1 == match member_at(*body, "usage"@, "completion_tokens"@) {
            Some(n) => json_u64(n),
            None => None,
        },
{
    let prompt = match member_in(body, "usage", "prompt_tokens") {
        Some(n) => u64_of(&n),
        None => None,
    };
    let completion = match member_in(body, "usage", "completion_tokens") {
        Some(n) => u64_of(&n),
        None => None,
    };
    (prompt, completion)
}

/// What the status of a reply calls for.
#[derive(Debug)]
pub enum StatusVerdict {
    /// A successful reply: read its JSON body.
    Success,
    /// The call failed with this error.
    Fail(LLMError),
    /// The call failed: read the body's text for the error message.
    ReadBody,
}

/// The wait that a rate-limited reply asks for: the "retry-after" header
/// read as a decimal number, 1000 when it is missing or not a number.
pub open spec fn retry_after_ms(header: Option<Seq<char>>) -> u64 {
    match header {
        Some(h) => match spec_parse_u64(h) {
            Some(n) => n,
            None => 1000,
        },
        None => 1000,
    }
}

/// The chat-completions endpoint of a provider: its base URL (which holds
/// the API version) and "/chat/completions".
pub fn completions_url(base_url: &str) -> (res: String)
    ensures
        res@ == base_url@ + "/chat/completions"@,
{
    concat(base_url, "/chat/completions")
}

/// What a reply's status calls for: 401 is an authentication error, 429 a
/// rate limit with the header's wait, any other status outside 200..=299 a
/// failure whose body gives the message, and a status in that range a
/// success.
pub fn status_verdict(status: u16, retry_after: &Option<String>) -> (res: StatusVerdict)
    ensures
        status == 401 ==> (res matches StatusVerdict::Fail(LLMError::Auth(m)) && m@
            == "authentication failed"@),
        status == 429 ==> (res matches StatusVerdict::Fail(
            LLMError::RateLimited { retry_after_ms: ms },
        ) && ms == retry_after_ms(opt_view(*retry_after))),
        status != 401 && status != 429 && 200 <= status <= 299 ==> res is Success,
        status != 401 && status != 429 && !(200 <= status <= 299) ==> res is ReadBody,
{
    if status == 401 {
        return StatusVerdict::Fail(LLMError::Auth(owned("authentication failed")));
    }
    if status == 429 {
        let ms = match retry_after {
            Some(h) => match parse_u64(h.as_str()) {
                Some(n) => n,
                None => 1000,
            },
            None => 1000,
        };
        return StatusVerdict::Fail(LLMError::RateLimited { retry_after_ms: ms });
    }
    if 200 <= status && status <= 299 {
        StatusVerdict::Success
    } else {
        StatusVerdict::ReadBody
    }
}

/// The error of a failed reply: "HTTP ", the status line, ": " and the
/// body's text, as a model error.
pub fn status_failure(status_line: &str, body: &str) -> (res: LLMError)
    ensures
        res matches LLMError::Model(m) && m@ == "HTTP "@ + status_line@ + ": "@ + body@,
{
    let mut m = concat("HTTP ", status_line);
    m.append(": ");
    m.append(body);
    LLMError::Model(m)
}

/// A usage count as the reply reports it: the number truncated to 32 bits,
/// 0 when missing.
pub open spec fn token_field(v: Option<u64>) -> u32 {
    match v {
        Some(n) => (n % 0x1_0000_0000) as u32,
        None => 0,
    }
}

/// The input and output token counts of a reply's usage.
pub fn usage_tokens(prompt_tokens: Option<u64>, completion_tokens: Option<u64>) -> (res: (
    u32,
    u32,
))
    ensures
        res == (token_field(prompt_tokens), token_field(completion_tokens)),
{
    let input = match prompt_tokens {
        Some(n) => (n % 0x1_0000_0000) as u32,
        None => 0,
    };
    let output = match completion_tokens {
        Some(n) => (n % 0x1_0000_0000) as u32,
        None => 0,
    };
    (input, output)
}

/// The arguments of a tool call: the JSON its arguments text holds, or `{}`
/// when the text is missing or not JSON.
pub open spec fn tool_arguments(text: Option<String>) -> serde_json::Value {
    match text {
        Some(t) => match json_value_of(t@) {
            Some(v) => v,
            None => json_object_of(Seq::empty()),
        },
        None => json_object_of(Seq::empty()),
    }
}

/// An event with what the library reads of it: a chunk's text, a tool
/// call's identifier, tool name and arguments, a usage.
pub enum EventSketch {
    Chunk(Seq<char>),
    ToolCall(Seq<char>, Seq<char>, serde_json::Value),
    Done(Usage),
}

/// What the library reads of an event.
pub open spec fn sketch(e: ResponseEvent) -> EventSketch {
    match e {
        ResponseEvent::Chunk(t) => EventSketch::Chunk(t@),
        ResponseEvent::ToolCall(i) => EventSketch::ToolCall(i.call_id@, i.tool_name@, i.arguments),
        ResponseEvent::Done(u) => EventSketch::Done(u),
    }
}

/// An optional text, or "unknown".
pub open spec fn or_unknown(s: Option<String>) -> Seq<char> {
    match s {
        Some(t) => t@,
        None => "unknown"@,
    }
}

/// The events of tool calls, in order.
pub open spec fn call_sketches(calls: Seq<RawToolCall>) -> Seq<EventSketch> {
    calls.map_values(
        |c: RawToolCall|
            EventSketch::ToolCall(or_unknown(c.id), or_unknown(c.name), tool_arguments(c.arguments)),
    )
}

/// The events of a choice: its text, if any, then its tool calls.
pub open spec fn choice_sketches(c: RawChoice) -> Seq<EventSketch> {
    (match c.content {
        Some(t) => seq![EventSketch::Chunk(t@)],
        None => Seq::empty(),
    }) + (match c.tool_calls {
        Some(calls) => call_sketches(calls@),
        None => Seq::empty(),
    })
}

/// The events of the choices, in order.
pub open spec fn choices_sketches(cs: Seq<RawChoice>) -> Seq<EventSketch>
    decreases cs.len(),
{
    if cs.len() == 0 {
        Seq::empty()
    } else {
        choices_sketches(cs.drop_last()) + choice_sketches(cs.last())
    }
}

/// The events of a reply: those of its choices, then the usage.
pub open spec fn reply_sketches(choices: Option<Vec<RawChoice>>, usage: Usage) -> Seq<EventSketch> {
    (match choices {
        Some(cs) => choices_sketches(cs@),
        None => Seq::empty(),
    }).push(EventSketch::Done(usage))
}

fn text_or_unknown(s: &Option<String>) -> (res: String)
    ensures
        res@ == or_unknown(*s),
{
    match s {
        Some(t) => t.clone(),
        None => owned("unknown"),
    }
}

fn call_event(c: &RawToolCall) -> (res: ResponseEvent)
    ensures
        sketch(res) == EventSketch::ToolCall(
            or_unknown(c.id),
            or_unknown(c.name),
            tool_arguments(c.arguments),
        ),
{
    let arguments = match &c.arguments {
        Some(text) => match parse_json(text.as_str()) {
            Ok(v) => v,
            Err(_) => empty_json_object(),
        },
        None => empty_json_object(),
    };
    ResponseEvent::ToolCall(
        ToolInvocation {
            call_id: text_or_unknown(&c.id),
            tool_name: text_or_unknown(&c.name),
            arguments,
        },
    )
}

/// The events of a successful reply: for each choice its text as a chunk
/// and its tool calls (a missing identifier or name reads "unknown", the
/// arguments are the parsed JSON or `{}`), then the usage.
pub fn reply_events(choices: &Option<Vec<RawChoice>>, usage: Usage) -> (res: Vec<ResponseEvent>)
    ensures
        res@.map_values(|e: ResponseEvent| sketch(e)) == reply_sketches(*choices, usage),
{
    let mut out: Vec<ResponseEvent> = Vec::new();
    match choices {
        Some(cs) => {
            let mut i: usize = 0;
            while i < cs.len()
                invariant
                    i <= cs.len(),
                    out@.map_values(|e: ResponseEvent| sketch(e)) == choices_sketches(
                        cs@.take(i as int),
                    ),
                decreases cs.len() - i,
            {
                let c = &cs[i];
                let ghost before = out@.map_values(|e: ResponseEvent| sketch(e));
                let ghost head = match cs@[i as int].content {
                    Some(t) => seq![EventSketch::Chunk(t@)],
                    None => Seq::<EventSketch>::empty(),
                };
                match &c.content {
                    Some(t) => {
                        let ghost prev = out@;
                        out.push(ResponseEvent::Chunk(t.clone()));
                        assert(out@.map_values(|e: ResponseEvent| sketch(e)) =~= prev.map_values(
                            |e: ResponseEvent| sketch(e),
                        ).push(sketch(out@.last())));
                    },
                    None => {},
                }
                assert(out@.map_values(|e: ResponseEvent| sketch(e)) =~= before + head);
                match &c.tool_calls {
                    Some(calls) => {
                        let mut j: usize = 0;
                        while j < calls.len()
                            invariant
                                j <= calls.len(),
                                out@.map_values(|e: ResponseEvent| sketch(e)) == before + head
                                    + call_sketches(calls@.take(j as int)),
                            decreases calls.len() - j,
                        {
                            let ghost prev = out@;
                            let ev = call_event(&calls[j]);
                            out.push(ev);
                            assert(out@.map_values(|e: ResponseEvent| sketch(e)) =~= prev.map_values(
                                |e: ResponseEvent| sketch(e),
                            ).push(sketch(ev)));
                            assert(call_sketches(calls@.take(j + 1)) =~= call_sketches(
                                calls@.take(j as int),
                            ).push(sketch(ev)));
                            j += 1;
                        }
                        assert(calls@.take(calls.len() as int) =~= calls@);
                    },
                    None => {
                        assert(before + head =~= before + head + Seq::<EventSketch>::empty());
                    },
                }
                assert(cs@.take(i + 1).drop_last() =~= cs@.take(i as int));
                assert(choices_sketches(cs@.take(i + 1)) =~= before + choice_sketches(cs@[i as int]));
                i += 1;
            }
            assert(cs@.take(cs.len() as int) =~= cs@);
        },
        None => {},
    }
    let ghost prev = out@;
    out.push(ResponseEvent::Done(usage));
    assert(out@.map_values(|e: ResponseEvent| sketch(e)) =~= prev.map_values(
        |e: ResponseEvent| sketch(e),
    ).push(EventSketch::Done(usage)));
    out
}

} // verus!
