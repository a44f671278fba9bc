//! A deterministic model adapter for development and tests: it answers
//! every prompt by echoing it, asks for a file-reading tool when told to
//! read a file, and prices its usage from a pricing table.

use vstd::prelude::*;
use crate::json::{json_object_of, json_string_object};
use vstd::hash_map::StringHashMap;
use vstd::utf8::encode_utf8;
use crate::adapters::{ModelCapabilities, ResponseEvent, ToolInvocation, Usage};
use crate::engine::{Cost, Message, MessageContent, Role};
use crate::text::{
    concat, contains_run, contains_str, decimal, decimal_text, join, join_range, owned,
    split_whitespace, to_lowercase, unicode_lowercase, views, words,
};

verus! {

/// The pricing table that a list of entries makes: each entry sets the
/// price of its model, later entries over earlier ones.
pub open spec fn pricing_of(entries: Seq<(String, (u64, u64))>) -> Map<Seq<char>, (u64, u64)>
    decreases entries.len(),
{
    if entries.len() == 0 {
        Map::empty()
    } else {
        pricing_of(entries.drop_last()).insert(entries.last().0@, entries.last().1)
    }
}

/// Whether the cost of `input` and `output` tokens of `model` can be
/// computed in 64 bits: each count times its price, and the sum of the two
/// parts, fit.
pub open spec fn cost_fits(
    pricing: Map<Seq<char>, (u64, u64)>,
    model: Seq<char>,
    input: u32,
    output: u32,
) -> bool {
    pricing.contains_key(model) ==> {
        &&& input * pricing[model].0 <= u64::MAX
        &&& output * pricing[model].1 <= u64::MAX
        &&& (input * pricing[model].0) / 1_000_000 + (output * pricing[model].1) / 1_000_000
            <= u64::MAX
    }
}

/// The cost, in cents, of `input` and `output` tokens of `model`: each count
/// times its price per million tokens, divided by a million (rounding down),
/// summed; nothing for a model without a price.
pub open spec fn priced_cost(
    pricing: Map<Seq<char>, (u64, u64)>,
    model: Seq<char>,
    input: u32,
    output: u32,
) -> u64 {
    if pricing.contains_key(model) {
        ((input * pricing[model].0) / 1_000_000 + (output * pricing[model].1) / 1_000_000) as u64
    } else {
        0
    }
}

/// The texts of the user's text messages, in order.
pub open spec fn user_texts(ms: Seq<Message>) -> Seq<Seq<char>>
    decreases ms.len(),
{
    if ms.len() == 0 {
        Seq::empty()
    } else {
        let prev = user_texts(ms.drop_last());
        match ms.last().content {
            MessageContent::Text { text } => if ms.last().role == Role::User {
                prev.push(text@)
            } else {
                prev
            },
            _ => prev,
        }
    }
}

/// The length in bytes of the UTF-8 encoding of `s`, as `str::len` reports
/// it.
pub open spec fn utf8_len(s: Seq<char>) -> nat {
    (encode_utf8(s).len() as usize) as nat
}

/// The size a message counts for in the input estimate: the UTF-8 length
/// of a text, that of a tool name plus ten, twenty for a tool result.
pub open spec fn message_size(m: Message) -> nat {
    match m.content {
        MessageContent::Text { text } => utf8_len(text@),
        MessageContent::ToolCall { tool_name, .. } => utf8_len(tool_name@) + 10,
        MessageContent::ToolResult { .. } => 20,
    }
}

/// The summed sizes of messages.
pub open spec fn messages_size(ms: Seq<Message>) -> nat
    decreases ms.len(),
{
    if ms.len() == 0 {
        0
    } else {
        messages_size(ms.drop_last()) + message_size(ms.last())
    }
}

/// The input estimate counts every message, whatever its role: adding a
/// message adds its size; two lists add up; and lists with the same
/// contents in the same order have the same size, whoever sent them.
pub proof fn law_input_size_counts_every_message(ms: Seq<Message>, others: Seq<Message>, m: Message)
    ensures
        messages_size(ms.push(m)) == messages_size(ms) + message_size(m),
        messages_size(ms + others) == messages_size(ms) + messages_size(others),
        others.len() == ms.len() && (forall|i: int|
            0 <= i < ms.len() ==> (#[trigger] others[i]).content == ms[i].content)
            ==> messages_size(others) == messages_size(ms),
    decreases others.len(),
{
    assert(ms.push(m).drop_last() =~= ms);
    if others.len() == 0 {
        assert(ms + others =~= ms);
        if ms.len() == 0 {
        }
    } else {
        law_input_size_counts_every_message(ms, others.drop_last(), m);
        assert((ms + others).drop_last() =~= ms + others.drop_last());
        assert((ms + others).last() == others.last());
        if others.len() == ms.len() && (forall|i: int|
            0 <= i < ms.len() ==> (#[trigger] others[i]).content == ms[i].content) {
            law_input_size_counts_every_message(ms.drop_last(), others.drop_last(), m);
            assert(others.last().content == ms.last().content);
        }
    }
}

/// `n`, or `u128::MAX` when it is larger.
pub open spec fn capped(n: nat) -> nat {
    if n > u128::MAX {
        u128::MAX as nat
    } else {
        n
    }
}

/// The token estimate of a size: a quarter of it, at least one, as a
/// `u32` (truncated).
pub open spec fn token_estimate(size: nat) -> u32 {
    (if size / 4 >= 1 {
        size / 4
    } else {
        1
    }) as u32
}

/// The text the mock answers with.
pub open spec fn mock_reply_text(user: Seq<char>) -> Seq<char> {
    "Mock response to: "@ + user
}

/// The number of words per streamed chunk: a quarter of the words, at
/// least three.
pub open spec fn chunk_size(n: nat) -> nat {
    if n / 4 > 3 {
        n / 4
    } else {
        3
    }
}

/// The streamed chunks of a list of words: groups of `k` words (the last
/// may be shorter), each joined with spaces and followed by a space.
pub open spec fn chunk_texts(ws: Seq<Seq<char>>, k: nat) -> Seq<Seq<char>>
    decreases ws.len(),
{
    if ws.len() == 0 || k == 0 {
        Seq::empty()
    } else if ws.len() <= k {
        seq![join(ws, " "@) + " "@]
    } else {
        seq![join(ws.take(k as int), " "@) + " "@] + chunk_texts(ws.skip(k as int), k)
    }
}

/// The user's texts of a conversation, joined with spaces.
pub open spec fn mock_user_text(ms: Seq<Message>) -> Seq<char> {
    join(user_texts(ms), " "@)
}

/// The mock's estimate of a conversation's input tokens.
pub open spec fn mock_input_tokens(ms: Seq<Message>) -> u32 {
    token_estimate(capped(messages_size(ms)))
}

/// The mock's estimate of its reply's output tokens.
pub open spec fn mock_output_tokens(ms: Seq<Message>) -> u32 {
    token_estimate(utf8_len(mock_reply_text(mock_user_text(ms))))
}

/// Whether the mock asks for the file-reading tool.
pub open spec fn mock_calls_tool(ms: Seq<Message>) -> bool {
    contains_run(unicode_lowercase(mock_user_text(ms)), "read the file"@)
}

/// Whether `res` is the mock's reply to `ms`, priced from `pricing`, with
/// `calls` as the number of its tool call identifier.
pub open spec fn is_mock_reply(
    pricing: Map<Seq<char>, (u64, u64)>,
    calls: u32,
    ms: Seq<Message>,
    res: Seq<ResponseEvent>,
) -> bool {
    let ws = words(mock_reply_text(mock_user_text(ms)));
    let chunks = chunk_texts(ws, chunk_size(ws.len()));
    let first = if mock_calls_tool(ms) {
        1int
    } else {
        0int
    };
    let input = mock_input_tokens(ms);
    let output = mock_output_tokens(ms);
    &&& res.len() == first + chunks.len() + 1
    &&& mock_calls_tool(ms) ==> (res[0] matches ResponseEvent::ToolCall(inv) && inv.tool_name@
        == "filesystem"@ && inv.call_id@ == "call_"@ + decimal_text(calls as nat)
        && inv.arguments == json_object_of(seq![("path"@, "/tmp/example.txt"@)]))
    &&& forall|i: int|
        0 <= i < chunks.len() ==> (res[first + i] matches ResponseEvent::Chunk(t) && t@
            == #[trigger] chunks[i])
    &&& res.last() == ResponseEvent::Done(
        Usage {
            input_tokens: input,
            output_tokens: output,
            cost: Cost(priced_cost(pricing, "gpt-4o-mini"@, input, output)),
        },
    )
}

/// A deterministic adapter: no network, a pricing table, and a counter for
/// tool call identifiers.
///
/// The counter is a plain field, advanced through `&mut self`, so that the
/// identifiers are stated; a driver that shares the adapter puts it behind
/// a lock.
pub struct MockAdapter {
    pricing: StringHashMap<(u64, u64)>,
    capabilities: ModelCapabilities,
    call_counter: u32,
}

impl MockAdapter {
    /// The pricing table: model name to input and output price, in cents
    /// per million tokens.
    pub closed spec fn pricing(&self) -> Map<Seq<char>, (u64, u64)> {
        self.pricing@
    }

    /// The number of the next tool call identifier (modulo 2^32).
    pub closed spec fn calls(&self) -> u32 {
        self.call_counter
    }

    /// An adapter with the pricing table that `entries` make, whose first
    /// tool call identifier is "call_0".
    pub fn new(entries: Vec<(String, (u64, u64))>) -> (res: MockAdapter)
        ensures
            res.pricing() == pricing_of(entries@),
            res.calls() == 0,
    {
        let mut pricing: StringHashMap<(u64, u64)> = StringHashMap::new();
        let mut i: usize = 0;
        while i < entries.len()
            invariant
                i <= entries.len(),
                pricing@ == pricing_of(entries@.take(i as int)),
            decreases entries.len() - i,
        {
            assert(entries@.take(i + 1).drop_last() =~= entries@.take(i as int));
            let (name, price) = (entries[i].0.clone(), entries[i].1);
            pricing.insert(name, price);
            i += 1;
        }
        assert(entries@.take(entries.len() as int) =~= entries@);
        MockAdapter {
            pricing,
            capabilities: ModelCapabilities {
                streaming: true,
                tool_calling: true,
                structured_output: true,
                vision: false,
                max_context_tokens: 128_000,
            },
            call_counter: 0,
        }
    }

    /// What the mock reports it supports: streaming, tool calls and
    /// structured output, no vision, 128,000 tokens of context.
    pub fn capabilities(&self) -> (res: ModelCapabilities)
        ensures
            res == (ModelCapabilities {
                streaming: true,
                tool_calling: true,
                structured_output: true,
                vision: false,
                max_context_tokens: 128_000,
            }),
    {
        ModelCapabilities {
            streaming: true,
            tool_calling: true,
            structured_output: true,
            vision: false,
            max_context_tokens: 128_000,
        }
    }

    /// The cost of a usage of `model`, from the pricing table.
    pub fn compute_cost(&self, model: &str, input_tokens: u32, output_tokens: u32) -> (res: Cost)
        requires
            cost_fits(self.pricing(), model@, input_tokens, output_tokens),
        ensures
            res.0 == priced_cost(self.pricing(), model@, input_tokens, output_tokens),
    {
        match self.pricing.get(model) {
            Some(price) => {
                let (input_per_1m, output_per_1m) = *price;
                let input_cost = (input_tokens as u64 * input_per_1m) / 1_000_000;
                let output_cost = (output_tokens as u64 * output_per_1m) / 1_000_000;
                Cost(input_cost + output_cost)
            },
            None => Cost(0),
        }
    }

    /// Whether the cost of a usage of `model` can be computed (see
    /// `cost_fits`).
    pub fn cost_fits_in_64_bits(&self, model: &str, input_tokens: u32, output_tokens: u32) -> (res: bool)
        ensures
            res == cost_fits(self.pricing(), model@, input_tokens, output_tokens),
    {
        match self.pricing.get(model) {
            Some(price) => {
                let (input_per_1m, output_per_1m) = *price;
                match (input_tokens as u64).checked_mul(input_per_1m) {
                    Some(a) => match (output_tokens as u64).checked_mul(output_per_1m) {
                        Some(b) => (a / 1_000_000).checked_add(b / 1_000_000).is_some(),
                        None => false,
                    },
                    None => false,
                }
            },
            None => true,
        }
    }

    /// A fresh tool call identifier: "call_" and the counter's value, which
    /// the call advances (wrapping at 2^32).
    pub fn next_call_id(&mut self) -> (res: String)
        ensures
            res@ == "call_"@ + decimal_text(old(self).calls() as nat),
            final(self).calls() == (old(self).calls() as int + 1) % 0x1_0000_0000,
            final(self).pricing() == old(self).pricing(),
    {
        let n = self.call_counter;
        self.call_counter = self.call_counter.wrapping_add(1);
        call_id_text(n)
    }

    /// The mock's reply to a conversation: a call of the "filesystem" tool
    /// first when the user's text, in lower case, contains "read the file",
    /// with the next call identifier; then "Mock response to: " and the
    /// user's texts joined with spaces, streamed in chunks of words; then
    /// the usage, with input and output token estimates and their cost as
    /// "gpt-4o-mini". The cost must fit in 64 bits.
    pub fn send(&mut self, messages: &Vec<Message>) -> (res: Vec<ResponseEvent>)
        requires
            cost_fits(
                old(self).pricing(),
                "gpt-4o-mini"@,
                mock_input_tokens(messages@),
                mock_output_tokens(messages@),
            ),
        ensures
            is_mock_reply(old(self).pricing(), old(self).calls(), messages@, res@),
            final(self).pricing() == old(self).pricing(),
            final(self).calls() as int == (if mock_calls_tool(messages@) {
                (old(self).calls() as int + 1) % 0x1_0000_0000
            } else {
                old(self).calls() as int
            }),
    {
        let ghost c0 = old(self).calls();
        let ghost p0 = old(self).pricing();
        let user = extract_user_text(messages);
        let input_tokens = count_input_tokens(messages);
        let mut events: Vec<ResponseEvent> = Vec::new();
        let lower = to_lowercase(user.as_str());
        let calls = contains_str(lower.as_str(), "read the file");
        if calls {
            let call_id = self.next_call_id();
            events.push(
                ResponseEvent::ToolCall(
                    ToolInvocation {
                        call_id,
                        tool_name: owned("filesystem"),
                        arguments: json_string_object("path", "/tmp/example.txt"),
                    },
                ),
            );
        }
        let reply = concat("Mock response to: ", user.as_str());
        let ws = split_whitespace(reply.as_str());
        let k = if ws.len() / 4 > 3 {
            ws.len() / 4
        } else {
            3
        };
        let ghost first = events@.len();
        let ghost all = views(ws@);
        let mut start: usize = 0;
        assert(all.skip(0) =~= all);
        while start < ws.len()
            invariant
                all == views(ws@),
                k == chunk_size(all.len()),
                self.pricing() == p0,
                self.calls() as int == (if calls {
                    (c0 as int + 1) % 0x1_0000_0000
                } else {
                    c0 as int
                }),
                start <= ws.len(),
                events@.len() >= first,
                events@.subrange(first as int, events@.len() as int).len() + chunk_texts(
                    all.skip(start as int),
                    k as nat,
                ).len() == chunk_texts(all, k as nat).len(),
                forall|i: int|
                    0 <= i < events@.len() - first ==> (#[trigger] events@[first + i] matches ResponseEvent::Chunk(
                        t,
                    ) && t@ == chunk_texts(all, k as nat)[i]),
                calls ==> (events@[0] matches ResponseEvent::ToolCall(inv) && inv.tool_name@
                    == "filesystem"@ && inv.call_id@ == "call_"@ + decimal_text(c0 as nat)
                    && inv.arguments == json_object_of(seq![("path"@, "/tmp/example.txt"@)])),
                first == (if calls {
                    1int
                } else {
                    0int
                }),
                chunk_texts(all, k as nat) == chunk_texts(all, k as nat).take(
                    events@.len() - first,
                ) + chunk_texts(all.skip(start as int), k as nat),
            decreases ws.len() - start,
        {
            let end = if ws.len() - start <= k {
                ws.len()
            } else {
                start + k
            };
            let mut piece = join_range(&ws, start, end, " ");
            piece.append(" ");
            let ghost rest = all.skip(start as int);
            proof {
                reveal_strlit(" ");
                if rest.len() <= k {
                    assert(all.subrange(start as int, end as int) =~= rest);
                } else {
                    assert(all.subrange(start as int, end as int) =~= rest.take(k as int));
                    assert(rest.skip(k as int) =~= all.skip(end as int));
                }
            }
            events.push(ResponseEvent::Chunk(piece));
            start = end;
        }
        let output_tokens = estimate_tokens(reply.as_str().len() as u128);
        let cost = self.compute_cost("gpt-4o-mini", input_tokens, output_tokens);
        let ghost chunks = chunk_texts(all, k as nat);
        assert(all.skip(start as int) =~= Seq::<Seq<char>>::empty());
        assert(chunk_texts(all.skip(start as int), k as nat) =~= Seq::<Seq<char>>::empty());
        assert(events@.len() == first + chunks.len());
        events.push(
            ResponseEvent::Done(Usage { input_tokens, output_tokens, cost }),
        );
        assert(forall|i: int| 0 <= i < chunks.len() ==> (events@[first + i] matches ResponseEvent::Chunk(t)
                        && t@ == #[trigger] chunks[i]));
        assert(reply@ == mock_reply_text(user@));
        assert(all == words(mock_reply_text(user@)));
        assert(output_tokens == token_estimate(utf8_len(mock_reply_text(user@))));
        assert(events@.last() == ResponseEvent::Done(
                    Usage {
                        input_tokens: input_tokens,
                        output_tokens: output_tokens,
                        cost: Cost(priced_cost(self.pricing(), "gpt-4o-mini"@, input_tokens, output_tokens)),
                    },
                ));
        assert(calls == contains_run(unicode_lowercase(user@), "read the file"@));
        events
    }

    /// The mock's reply (see `send`), or nothing, the adapter unchanged,
    /// when its cost would not fit in 64 bits.
    pub fn send_checked(&mut self, messages: &Vec<Message>) -> (res: Option<Vec<ResponseEvent>>)
        ensures
            res is Some <==> cost_fits(
                old(self).pricing(),
                "gpt-4o-mini"@,
                mock_input_tokens(messages@),
                mock_output_tokens(messages@),
            ),
            match res {
                Some(v) => {
                    &&& is_mock_reply(old(self).pricing(), old(self).calls(), messages@, v@)
                    &&& final(self).pricing() == old(self).pricing()
                    &&& final(self).calls() as int == (if mock_calls_tool(messages@) {
                        (old(self).calls() as int + 1) % 0x1_0000_0000
                    } else {
                        old(self).calls() as int
                    })
                },
                None => *final(self) == *old(self),
            },
    {
        let user = extract_user_text(messages);
        let input_tokens = count_input_tokens(messages);
        let reply = concat("Mock response to: ", user.as_str());
        let output_tokens = estimate_tokens(reply.as_str().len() as u128);
        assert(reply@ == mock_reply_text(user@));
        if !self.cost_fits_in_64_bits("gpt-4o-mini", input_tokens, output_tokens) {
            return None;
        }
        Some(self.send(messages))
    }
}

/// "call_" and `n` in decimal.
fn call_id_text(n: u32) -> (res: String)
    ensures
        res@ == "call_"@ + decimal_text(n as nat),
{
    let d = decimal(n as u64);
    concat("call_", d.as_str())
}

/// The token estimate of a size.
fn estimate_tokens(size: u128) -> (res: u32)
    ensures
        res == token_estimate(size as nat),
{
    let q = size / 4;
    let t = if q >= 1 {
        q
    } else {
        1
    };
    t as u32
}

/// The user's text messages, joined with spaces.
fn extract_user_text(ms: &Vec<Message>) -> (res: String)
    ensures
        res@ == join(user_texts(ms@), " "@),
{
    let mut parts: Vec<String> = Vec::new();
    let mut i: usize = 0;
    while i < ms.len()
        invariant
            i <= ms.len(),
            views(parts@) == user_texts(ms@.take(i as int)),
        decreases ms.len() - i,
    {
        assert(ms@.take(i + 1).drop_last() =~= ms@.take(i as int));
        let ghost before = parts@;
        if ms[i].role == Role::User {
            match &ms[i].content {
                MessageContent::Text { text } => {
                    parts.push(text.clone());
                    assert(views(parts@) =~= views(before).push(text@));
                },
                _ => {},
            }
        }
        i += 1;
    }
    assert(ms@.take(ms.len() as int) =~= ms@);
    assert(views(parts@).subrange(0, parts@.len() as int) =~= views(parts@));
    join_range(&parts, 0, parts.len(), " ")
}

/// The input token estimate of a conversation.
fn count_input_tokens(ms: &Vec<Message>) -> (res: u32)
    ensures
        res == token_estimate(capped(messages_size(ms@))),
{
    let mut total: u128 = 0;
    let mut i: usize = 0;
    while i < ms.len()
        invariant
            i <= ms.len(),
            total == capped(messages_size(ms@.take(i as int))),
        decreases ms.len() - i,
    {
        assert(ms@.take(i + 1).drop_last() =~= ms@.take(i as int));
        let size: u128 = match &ms[i].content {
            MessageContent::Text { text } => text.as_str().len() as u128,
            MessageContent::ToolCall { tool_name, .. } => tool_name.as_str().len() as u128 + 10,
            MessageContent::ToolResult { .. } => 20,
        };
        assert(size == message_size(ms@[i as int]));
        total = total.saturating_add(size);
        i += 1;
    }
    assert(ms@.take(ms.len() as int) =~= ms@);
    estimate_tokens(total)
}

} // verus!
