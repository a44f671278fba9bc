//! Session state: the conversation, its context window, its cost, and the
//! slash commands that act on it.

use vstd::prelude::*;
use crate::engine::{Cost, Message, MessageContent, ModelId, Role};
use crate::engine::router::spec_render_model_id;
use crate::adapters::{ResponseEvent, ToolInvocation, Usage};
use crate::engine::router::spec_parse_model_id;
use crate::text::{concat, decimal, decimal_text, first_index_of, owned, str_eq, trim, trimmed, chars_of, find_char};
use crate::tools::{same_result, ToolResult};
use crate::engine::ranking_commands::{parse_ranking_command, ranking_command, RankingCommand};

verus! {

/// The number of cl100k_base tokens that `text` encodes to (special tokens
/// allowed), as tiktoken-rs computes it; nothing when its regex engine gives
/// up on the text.
pub uninterp spec fn cl100k_tokens(text: Seq<char>) -> Option<nat>;

/// Counts the cl100k_base tokens of `text`; `None` when the tokenizer fails.
///
/// Calls `CoreBPE::encode` of tiktoken-rs on the cl100k_base singleton, with
/// every special token allowed, and takes the length of the encoding. That
/// call returns an error when the backtracking regex engine it splits the
/// text with gives up (stack or backtrack limit); the search for special
/// tokens it also makes runs on a pattern of escaped literals, which the
/// engine hands to a non-backtracking matcher that does not fail.
#[verifier::external_body]
fn count_text_tokens(text: &str) -> (res: Option<usize>)
    ensures
        match res {
            Some(n) => cl100k_tokens(text@) == Some(n as nat),
            None => cl100k_tokens(text@) is None,
        },
{
    let bpe = tiktoken_rs::cl100k_base_singleton();
    bpe.encode(text, &bpe.special_tokens()).ok().map(|(tokens, _)| tokens.len())
}

/// The text whose tokens a message counts for: the text of a text message,
/// the tool name and the arguments of a tool call, the result of a tool
/// result.
pub open spec fn counted_text(c: MessageContent) -> Seq<char> {
    match c {
        MessageContent::Text { text } => text@,
        MessageContent::ToolCall { tool_name, arguments, .. } => tool_name@ + seq![' ']
            + arguments@,
        MessageContent::ToolResult { result, .. } => result@,
    }
}

/// The tokens of one message, when the tokenizer can count them.
pub open spec fn message_tokens(m: Message) -> Option<nat> {
    cl100k_tokens(counted_text(m.content))
}

/// The tokens of a list of messages, when the tokenizer can count every one.
pub open spec fn context_tokens(ms: Seq<Message>) -> Option<nat>
    decreases ms.len(),
{
    if ms.len() == 0 {
        Some(0)
    } else {
        match (context_tokens(ms.drop_last()), message_tokens(ms.last())) {
            (Some(a), Some(b)) => Some(a + b),
            _ => None,
        }
    }
}

/// Counts the tokens of one message; `None` when the tokenizer fails.
pub fn message_token_count(m: &Message) -> (n: Option<usize>)
    ensures
        match n {
            Some(k) => message_tokens(*m) == Some(k as nat),
            None => message_tokens(*m) is None,
        },
{
    match &m.content {
        MessageContent::Text { text } => count_text_tokens(text.as_str()),
        MessageContent::ToolCall { tool_name, arguments, .. } => {
            let mut s = tool_name.clone();
            s.append(" ");
            s.append(arguments.as_str());
            proof {
                reveal_strlit(" ");
                assert(s@ =~= tool_name@ + seq![' '] + arguments@);
            }
            count_text_tokens(s.as_str())
        },
        MessageContent::ToolResult { result, .. } => count_text_tokens(result.as_str()),
    }
}

/// Counts the tokens of a list of messages; `None` when the tokenizer fails
/// on one of them.
pub fn context_token_count(ms: &Vec<Message>) -> (n: Option<u128>)
    ensures
        match n {
            Some(k) => context_tokens(ms@) == Some(k as nat),
            None => context_tokens(ms@) is None,
        },
{
    let mut total: u128 = 0;
    let mut i: usize = 0;
    while i < ms.len()
        invariant
            i <= ms.len(),
            context_tokens(ms@.take(i as int)) == Some(total as nat),
            total <= i as u128 * 0xffff_ffff_ffff_ffffu128,
        decreases ms.len() - i,
    {
        assert(ms@.take(i + 1).drop_last() =~= ms@.take(i as int));
        let n = match message_token_count(&ms[i]) {
            Some(n) => n,
            None => {
                proof {
                    lemma_context_tokens_prefix_none(ms@, i + 1);
                }
                return None;
            },
        };
        total = total + n as u128;
        i += 1;
    }
    assert(ms@.take(ms.len() as int) =~= ms@);
    Some(total)
}

proof fn lemma_context_tokens_prefix_none(ms: Seq<Message>, k: int)
    requires
        0 <= k <= ms.len(),
        context_tokens(ms.take(k)) is None,
    ensures
        context_tokens(ms) is None,
    decreases ms.len() - k,
{
    if k < ms.len() {
        assert(ms.take(k + 1).drop_last() =~= ms.take(k));
        lemma_context_tokens_prefix_none(ms, k + 1);
    } else {
        assert(ms.take(k) =~= ms);
    }
}

/// The messages of `ms` from the system.
pub open spec fn system_messages(ms: Seq<Message>) -> Seq<Message>
    decreases ms.len(),
{
    if ms.len() == 0 {
        Seq::empty()
    } else if ms.last().role == Role::System {
        system_messages(ms.drop_last()).push(ms.last())
    } else {
        system_messages(ms.drop_last())
    }
}

/// The messages of `ms` not from the system.
pub open spec fn dialogue_messages(ms: Seq<Message>) -> Seq<Message>
    decreases ms.len(),
{
    if ms.len() == 0 {
        Seq::empty()
    } else if ms.last().role != Role::System {
        dialogue_messages(ms.drop_last()).push(ms.last())
    } else {
        dialogue_messages(ms.drop_last())
    }
}

/// The position of the oldest message not from the system.
pub open spec fn oldest_dialogue_index(ms: Seq<Message>) -> Option<int> {
    if exists|i: int| 0 <= i < ms.len() && ms[i].role != Role::System {
        Some(
            choose|i: int|
                0 <= i < ms.len() && ms[i].role != Role::System && forall|j: int|
                    0 <= j < i ==> ms[j].role == Role::System,
        )
    } else {
        None
    }
}

/// Whether the context `ms` is known to hold more than `limit` tokens.
pub open spec fn over_limit(ms: Seq<Message>, limit: nat) -> bool {
    context_tokens(ms) matches Some(t) && t > limit
}

/// The context that sliding-window management leaves of `ms` under a
/// budget of `limit` tokens: while the context holds more than `limit`
/// tokens and more than one message, its oldest message not from the system
/// is dropped; system messages are never dropped. When the tokenizer cannot
/// count the context, nothing more is dropped.
pub open spec fn sliding_window(ms: Seq<Message>, limit: nat) -> Seq<Message>
    decreases ms.len(),
{
    if over_limit(ms, limit) && ms.len() > 1 {
        match oldest_dialogue_index(ms) {
            Some(i) => if 0 <= i < ms.len() {
                sliding_window(ms.remove(i), limit)
            } else {
                ms
            },
            None => ms,
        }
    } else {
        ms
    }
}

proof fn lemma_oldest_dialogue_index(ms: Seq<Message>)
    ensures
        match oldest_dialogue_index(ms) {
            Some(i) => 0 <= i < ms.len() && ms[i].role != Role::System && forall|j: int|
                0 <= j < i ==> ms[j].role == Role::System,
            None => forall|j: int| 0 <= j < ms.len() ==> ms[j].role == Role::System,
        },
{
    if exists|i: int| 0 <= i < ms.len() && ms[i].role != Role::System {
        let k = choose|i: int| 0 <= i < ms.len() && ms[i].role != Role::System;
        lemma_first_witness(ms, k);
    }
}

proof fn lemma_first_witness(ms: Seq<Message>, k: int)
    requires
        0 <= k < ms.len(),
        ms[k].role != Role::System,
    ensures
        exists|i: int|
            0 <= i < ms.len() && ms[i].role != Role::System && forall|j: int|
                0 <= j < i ==> ms[j].role == Role::System,
    decreases k,
{
    if forall|j: int| 0 <= j < k ==> ms[j].role == Role::System {
    } else {
        let j = choose|j: int| 0 <= j < k && ms[j].role != Role::System;
        lemma_first_witness(ms, j);
    }
}

proof fn lemma_split_filters(a: Seq<Message>, b: Seq<Message>)
    ensures
        system_messages(a + b) == system_messages(a) + system_messages(b),
        dialogue_messages(a + b) == dialogue_messages(a) + dialogue_messages(b),
    decreases b.len(),
{
    if b.len() == 0 {
        assert(a + b =~= a);
        assert(system_messages(a) + system_messages(b) =~= system_messages(a));
        assert(dialogue_messages(a) + dialogue_messages(b) =~= dialogue_messages(a));
    } else {
        lemma_split_filters(a, b.drop_last());
        assert((a + b).drop_last() =~= a + b.drop_last());
        assert((a + b).last() == b.last());
        assert(system_messages(a) + system_messages(b.drop_last()).push(b.last())
            =~= (system_messages(a) + system_messages(b.drop_last())).push(b.last()));
        assert(dialogue_messages(a) + dialogue_messages(b.drop_last()).push(b.last())
            =~= (dialogue_messages(a) + dialogue_messages(b.drop_last())).push(b.last()));
    }
}

proof fn lemma_all_system(ms: Seq<Message>)
    requires
        forall|j: int| 0 <= j < ms.len() ==> ms[j].role == Role::System,
    ensures
        dialogue_messages(ms) == Seq::<Message>::empty(),
        system_messages(ms) == ms,
    decreases ms.len(),
{
    if ms.len() > 0 {
        lemma_all_system(ms.drop_last());
        assert(ms.drop_last().push(ms.last()) =~= ms);
    }
}

proof fn lemma_single(m: Message)
    ensures
        system_messages(seq![m]) == (if m.role == Role::System {
            seq![m]
        } else {
            Seq::<Message>::empty()
        }),
        dialogue_messages(seq![m]) == (if m.role != Role::System {
            seq![m]
        } else {
            Seq::<Message>::empty()
        }),
{
    reveal_with_fuel(system_messages, 2);
    reveal_with_fuel(dialogue_messages, 2);
    assert(seq![m].drop_last() =~= Seq::<Message>::empty());
    assert(Seq::<Message>::empty().push(m) =~= seq![m]);
}

/// Dropping the oldest dialogue message keeps the system messages and drops
/// the first dialogue message.
proof fn lemma_drop_oldest(ms: Seq<Message>, i: int)
    requires
        oldest_dialogue_index(ms) == Some(i),
    ensures
        0 <= i < ms.len(),
        system_messages(ms.remove(i)) == system_messages(ms),
        dialogue_messages(ms) == seq![ms[i]] + dialogue_messages(ms.remove(i)),
{
    lemma_oldest_dialogue_index(ms);
    let pre = ms.take(i);
    let post = ms.skip(i + 1);
    assert(ms =~= pre + seq![ms[i]] + post);
    assert(ms.remove(i) =~= pre + post);
    lemma_split_filters(pre + seq![ms[i]], post);
    lemma_split_filters(pre, seq![ms[i]]);
    lemma_split_filters(pre, post);
    lemma_single(ms[i]);
    lemma_all_system(pre);
    assert(system_messages(pre) + Seq::<Message>::empty() =~= system_messages(pre));
    assert(Seq::<Message>::empty() + seq![ms[i]] =~= seq![ms[i]]);
    assert(Seq::<Message>::empty() + dialogue_messages(post) =~= dialogue_messages(post));
}

/// Sliding-window management never drops a system message, drops only the
/// oldest dialogue messages, keeps a leading system message first, and
/// leaves the context within the limit unless only one message or only
/// system messages are left (or the tokenizer cannot count it).
pub proof fn law_sliding_window(ms: Seq<Message>, limit: nat)
    ensures
        ms.len() > 0 && ms[0].role == Role::System ==> sliding_window(ms, limit).len() > 0
            && sliding_window(ms, limit)[0] == ms[0],
        system_messages(sliding_window(ms, limit)) == system_messages(ms),
        dialogue_messages(sliding_window(ms, limit)).is_suffix_of(dialogue_messages(ms)),
        !over_limit(sliding_window(ms, limit), limit) || sliding_window(ms, limit).len() <= 1
            || dialogue_messages(sliding_window(ms, limit)).len() == 0,
        !over_limit(ms, limit) ==> sliding_window(ms, limit) == ms,
    decreases ms.len(),
{
    lemma_oldest_dialogue_index(ms);
    if over_limit(ms, limit) && ms.len() > 1 {
        match oldest_dialogue_index(ms) {
            Some(i) => {
                lemma_drop_oldest(ms, i);
                law_sliding_window(ms.remove(i), limit);
                if ms[0].role == Role::System {
                    assert(i > 0);
                    assert(ms.remove(i)[0] == ms[0]);
                }
                let d = dialogue_messages(ms);
                let dr = dialogue_messages(ms.remove(i));
                let dw = dialogue_messages(sliding_window(ms.remove(i), limit));
                assert(d.subrange(1, d.len() as int) =~= dr);
                assert(dw =~= d.subrange(d.len() - dw.len(), d.len() as int));
            },
            None => {
                lemma_all_system(ms);
            },
        }
    } else {
        assert(dialogue_messages(ms) =~= dialogue_messages(ms).subrange(0, dialogue_messages(ms).len() as int));
    }
}

proof fn lemma_all_counted(ms: Seq<Message>)
    requires
        forall|j: int| 0 <= j < ms.len() ==> (#[trigger] message_tokens(ms[j])) is Some,
    ensures
        context_tokens(ms) is Some,
    decreases ms.len(),
{
    if ms.len() > 0 {
        assert forall|j: int| 0 <= j < ms.drop_last().len() implies (#[trigger] message_tokens(
            ms.drop_last()[j],
        )) is Some by {
            assert(ms.drop_last()[j] == ms[j]);
        }
        lemma_all_counted(ms.drop_last());
        assert(message_tokens(ms[ms.len() - 1]) is Some);
    }
}

/// The tokens of two contexts together: the sum, when both are counted.
proof fn lemma_tokens_concat(a: Seq<Message>, b: Seq<Message>)
    ensures
        context_tokens(a + b) == match (context_tokens(a), context_tokens(b)) {
            (Some(x), Some(y)) => Some(x + y),
            _ => None::<nat>,
        },
    decreases b.len(),
{
    if b.len() == 0 {
        assert(a + b =~= a);
    } else {
        lemma_tokens_concat(a, b.drop_last());
        assert((a + b).drop_last() =~= a + b.drop_last());
        assert((a + b).last() == b.last());
    }
}

/// Taking a message out of a counted context takes its tokens out.
proof fn lemma_tokens_remove(ms: Seq<Message>, i: int)
    requires
        0 <= i < ms.len(),
        context_tokens(ms) is Some,
    ensures
        message_tokens(ms[i]) is Some,
        context_tokens(ms.remove(i)) is Some,
        context_tokens(ms)->0 == context_tokens(ms.remove(i))->0 + message_tokens(ms[i])->0,
{
    let pre = ms.take(i);
    let post = ms.skip(i + 1);
    let one = seq![ms[i]];
    assert(ms =~= pre + one + post);
    assert(ms.remove(i) =~= pre + post);
    lemma_tokens_concat(pre + one, post);
    lemma_tokens_concat(pre, one);
    lemma_tokens_concat(pre, post);
    assert(one.drop_last() =~= Seq::<Message>::empty());
    assert(context_tokens(one.drop_last()) == Some(0nat));
    assert(one.last() == ms[i]);
    assert(context_tokens(one) == match message_tokens(ms[i]) {
        Some(t) => Some(0 + t),
        None => None::<nat>,
    });
}

/// Sliding-window management drops no more than it needs: when it drops
/// anything, putting back the last dialogue message it dropped (the `k`-th
/// oldest) would take the context over the limit again.
pub proof fn law_window_drops_no_more_than_needed(ms: Seq<Message>, limit: nat)
    ensures
        sliding_window(ms, limit) != ms ==> {
            let k = dialogue_messages(ms).len() - dialogue_messages(sliding_window(ms, limit)).len();
            &&& 1 <= k <= dialogue_messages(ms).len()
            &&& context_tokens(sliding_window(ms, limit)) matches Some(tw)
            &&& message_tokens(dialogue_messages(ms)[k - 1]) matches Some(tm)
            &&& tw + tm > limit
        },
    decreases ms.len(),
{
    lemma_oldest_dialogue_index(ms);
    if over_limit(ms, limit) && ms.len() > 1 {
        match oldest_dialogue_index(ms) {
            Some(i) => {
                lemma_drop_oldest(ms, i);
                let r = ms.remove(i);
                let w = sliding_window(r, limit);
                let d = dialogue_messages(ms);
                let dr = dialogue_messages(r);
                law_sliding_window(r, limit);
                law_window_drops_no_more_than_needed(r, limit);
                lemma_tokens_remove(ms, i);
                assert(d[0] == ms[i]);
                if w == r {
                    assert(d.len() - dialogue_messages(w).len() == 1);
                } else {
                    let kr = dr.len() - dialogue_messages(w).len();
                    assert(d[kr] == dr[kr - 1]);
                }
            },
            None => {},
        }
    }
}

/// When every message fits in the budget on its own, and so do the system
/// messages together, sliding-window management leaves a context that the
/// tokenizer counts and that fits in the budget: after any turn, the tokens
/// in context are within the limit.
pub proof fn law_window_within_limit(ms: Seq<Message>, limit: nat)
    requires
        forall|j: int|
            0 <= j < ms.len() ==> ((#[trigger] message_tokens(ms[j])) matches Some(t) && t <= limit),
        context_tokens(system_messages(ms)) matches Some(t) && t <= limit,
    ensures
        context_tokens(sliding_window(ms, limit)) matches Some(t) && t <= limit,
    decreases ms.len(),
{
    lemma_oldest_dialogue_index(ms);
    lemma_all_counted(ms);
    if over_limit(ms, limit) && ms.len() > 1 {
        match oldest_dialogue_index(ms) {
            Some(i) => {
                lemma_drop_oldest(ms, i);
                let r = ms.remove(i);
                assert forall|j: int| 0 <= j < r.len() implies ((#[trigger] message_tokens(r[j]))
                    matches Some(t) && t <= limit) by {
                    if j < i {
                        assert(r[j] == ms[j]);
                    } else {
                        assert(r[j] == ms[j + 1]);
                    }
                }
                law_window_within_limit(r, limit);
            },
            None => {
                lemma_all_system(ms);
                // Only system messages: they fit, so the context is not over.
                assert(system_messages(ms) == ms);
                assert(false);
            },
        }
    } else if ms.len() == 1 {
        assert(ms.drop_last().len() == 0);
        assert(message_tokens(ms[0]) matches Some(t) && t <= limit);
        assert(ms.last() == ms[0]);
        assert(context_tokens(ms.drop_last()) == Some(0nat));
        assert(sliding_window(ms, limit) == ms);
    } else {
        assert(sliding_window(ms, limit) == ms);
        assert(context_tokens(ms) is Some);
    }
}

/// With a system prompt, a turn keeps it first: whatever the conversation
/// held, once the prompt is made to lead and the turn's messages are added,
/// sliding-window management leaves a system message in front.
pub proof fn law_system_prompt_leads(
    ms: Seq<Message>,
    prompt: String,
    added: Seq<Message>,
    limit: nat,
)
    requires
        prompt@.len() > 0,
    ensures
        sliding_window(with_system_prompt(ms, prompt) + added, limit).len() > 0,
        sliding_window(with_system_prompt(ms, prompt) + added, limit)[0].role == Role::System,
{
    let w = with_system_prompt(ms, prompt);
    assert(w.len() > 0 && w[0].role == Role::System);
    assert((w + added)[0] == w[0]);
    law_sliding_window(w + added, limit);
}

/// Finds the oldest message not from the system.
fn find_oldest_dialogue(ms: &Vec<Message>) -> (r: Option<usize>)
    ensures
        match r {
            Some(i) => oldest_dialogue_index(ms@) == Some(i as int),
            None => oldest_dialogue_index(ms@) is None,
        },
{
    proof {
        lemma_oldest_dialogue_index(ms@);
    }
    let mut i: usize = 0;
    while i < ms.len()
        invariant
            i <= ms.len(),
            forall|j: int| 0 <= j < i ==> ms@[j].role == Role::System,
        decreases ms.len() - i,
    {
        if ms[i].role != Role::System {
            proof {
                let k = oldest_dialogue_index(ms@)->0;
                assert(k == i as int) by {
                    if k < i {
                    } else if k > i {
                        assert(ms@[i as int].role != Role::System);
                    }
                }
            }
            return Some(i);
        }
        i += 1;
    }
    None
}

/// The conversation state of a session: its messages (system prompt first
/// when there is one), the model the user forced, the cost spent, and the
/// limits that apply.
#[derive(Debug)]
pub struct Conversation {
    pub messages: Vec<Message>,
    pub current_model: Option<ModelId>,
    pub total_cost: Cost,
    pub system_prompt: String,
    /// Budget of the context window, in tokens.
    pub context_limit: usize,
    /// The hard spending limit, when cost tracking is on.
    pub budget_limit: Option<Cost>,
}

/// The system message that carries `prompt`.
pub open spec fn system_message(prompt: String) -> Message {
    Message { role: Role::System, content: MessageContent::Text { text: prompt } }
}

/// `ms` with the system prompt put first, unless the prompt is empty or
/// the first message is already from the system.
pub open spec fn with_system_prompt(ms: Seq<Message>, prompt: String) -> Seq<Message> {
    if prompt@.len() == 0 || (ms.len() > 0 && ms[0].role == Role::System) {
        ms
    } else {
        seq![system_message(prompt)] + ms
    }
}

/// The number of messages not from the system.
pub open spec fn dialogue_count(ms: Seq<Message>) -> nat {
    dialogue_messages(ms).len()
}

/// The spending limit that `spent` has reached, if any.
pub open spec fn exceeded_budget(spent: Cost, limit: Option<Cost>) -> Option<Cost> {
    match limit {
        Some(l) => if spent.0 >= l.0 {
            Some(l)
        } else {
            None
        },
        None => None,
    }
}

/// The name of a role, in lower case.
pub open spec fn role_name(role: Role) -> Seq<char> {
    match role {
        Role::System => "system"@,
        Role::User => "user"@,
        Role::Assistant => "assistant"@,
        Role::Tool => "tool"@,
    }
}

/// The name of a role, in lower case.
pub fn role_str(role: &Role) -> (res: String)
    ensures
        res@ == role_name(*role),
{
    match role {
        Role::System => owned("system"),
        Role::User => owned("user"),
        Role::Assistant => owned("assistant"),
        Role::Tool => owned("tool"),
    }
}

/// A snapshot of a session for display.
#[derive(Debug)]
pub struct SessionState {
    pub message_count: usize,
    pub total_cost_cents: u64,
    pub current_model: Option<String>,
    pub context_tokens_used: usize,
    pub context_token_limit: usize,
    /// Role of the first message in context ("system" when the system
    /// prompt is present).
    pub first_message_role: Option<String>,
}

impl Conversation {
    /// A conversation that starts with the system prompt (when not empty)
    /// followed by `stored`, the history kept for this session.
    pub fn new(system_prompt: String, stored: Vec<Message>, context_limit: usize, budget_limit: Option<
        Cost,
    >) -> (res: Conversation)
        ensures
            res.messages@ == (if system_prompt@.len() == 0 {
                stored@
            } else {
                seq![system_message(system_prompt)] + stored@
            }),
            res.current_model is None,
            res.total_cost == Cost(0),
            res.system_prompt == system_prompt,
            res.context_limit == context_limit,
            res.budget_limit == budget_limit,
    {
        let mut messages: Vec<Message> = Vec::new();
        if !system_prompt.as_str().is_empty() {
            messages.push(Message::text(Role::System, system_prompt.clone()));
        }
        let ghost stored_before = stored@;
        let mut stored = stored;
        messages.append(&mut stored);
        proof {
            if system_prompt@.len() != 0 {
                assert(messages@ =~= seq![system_message(system_prompt)] + stored_before);
            } else {
                assert(messages@ =~= stored_before);
            }
        }
        Conversation {
            messages,
            current_model: None,
            total_cost: Cost(0),
            system_prompt,
            context_limit,
            budget_limit,
        }
    }

    /// Puts the system prompt first, unless it is empty or already there.
    pub fn ensure_system_prompt(&mut self)
        ensures
            final(self).messages@ == with_system_prompt(old(self).messages@, old(self).system_prompt),
            final(self).current_model == old(self).current_model,
            final(self).total_cost == old(self).total_cost,
            final(self).system_prompt == old(self).system_prompt,
            final(self).context_limit == old(self).context_limit,
            final(self).budget_limit == old(self).budget_limit,
    {
        if self.system_prompt.as_str().is_empty() {
            return ;
        }
        let has_system = self.messages.len() > 0 && self.messages[0].role == Role::System;
        if !has_system {
            let m = Message::text(Role::System, self.system_prompt.clone());
            self.messages.insert(0, m);
            assert(self.messages@ =~= seq![system_message(self.system_prompt)] + old(self).messages@);
        }
    }

    /// Sliding-window management: drops the oldest messages not from the
    /// system while the context holds more tokens than its limit.
    pub fn apply_context_window(&mut self)
        ensures
            final(self).messages@ == sliding_window(old(self).messages@, old(self).context_limit as nat),
            final(self).current_model == old(self).current_model,
            final(self).total_cost == old(self).total_cost,
            final(self).system_prompt == old(self).system_prompt,
            final(self).context_limit == old(self).context_limit,
            final(self).budget_limit == old(self).budget_limit,
    {
        let limit = self.context_limit;
        let ghost start = self.messages@;
        let mut count = context_token_count(&self.messages);
        loop
            invariant
                sliding_window(self.messages@, limit as nat) == sliding_window(start, limit as nat),
                start == old(self).messages@,
                match count {
                    Some(c) => context_tokens(self.messages@) == Some(c as nat),
                    None => context_tokens(self.messages@) is None,
                },
                self.current_model == old(self).current_model,
                self.total_cost == old(self).total_cost,
                self.system_prompt == old(self).system_prompt,
                self.context_limit == limit,
                limit == old(self).context_limit,
                self.budget_limit == old(self).budget_limit,
            ensures
                self.messages@ == sliding_window(start, limit as nat),
            decreases self.messages@.len(),
        {
            let over = match count {
                Some(c) => c > limit as u128,
                None => false,
            };
            if !(over && self.messages.len() > 1) {
                assert(sliding_window(self.messages@, limit as nat) == self.messages@);
                return ;
            }
            match find_oldest_dialogue(&self.messages) {
                Some(idx) => {
                    proof {
                        lemma_oldest_dialogue_index(self.messages@);
                    }
                    let ghost before = self.messages@;
                    self.messages.remove(idx);
                    assert(sliding_window(before, limit as nat) == sliding_window(
                        self.messages@,
                        limit as nat,
                    ));
                    count = context_token_count(&self.messages);
                },
                None => {
                    assert(sliding_window(self.messages@, limit as nat) == self.messages@);
                    return ;
                },
            }
        }
    }

    /// The spending limit reached, if cost tracking is on and the session
    /// has spent at least its hard limit.
    pub fn budget_exceeded(&self) -> (res: Option<Cost>)
        ensures
            res == exceeded_budget(self.total_cost, self.budget_limit),
    {
        match self.budget_limit {
            Some(limit) => if self.total_cost.0 >= limit.0 {
                Some(limit)
            } else {
                None
            },
            None => None,
        }
    }

    /// Empties the conversation: no messages, no cost, no forced model.
    pub fn clear(&mut self)
        ensures
            final(self).messages@.len() == 0,
            final(self).total_cost == Cost(0),
            final(self).current_model is None,
            final(self).system_prompt == old(self).system_prompt,
            final(self).context_limit == old(self).context_limit,
            final(self).budget_limit == old(self).budget_limit,
    {
        self.messages.clear();
        self.total_cost = Cost(0);
        self.current_model = None;
    }

    /// Starts the conversation over: no cost, no forced model, and only the
    /// system prompt (when there is one).
    pub fn reset(&mut self)
        ensures
            final(self).messages@ == with_system_prompt(Seq::empty(), old(self).system_prompt),
            final(self).total_cost == Cost(0),
            final(self).current_model is None,
            final(self).system_prompt == old(self).system_prompt,
            final(self).context_limit == old(self).context_limit,
            final(self).budget_limit == old(self).budget_limit,
    {
        self.clear();
        self.ensure_system_prompt();
    }

    /// The session's status: messages not from the system, cost, forced
    /// model, tokens in context (at most `usize::MAX`, and `usize::MAX` when
    /// the tokenizer cannot count them), the limit, and the role of the
    /// first message.
    pub fn status(&self) -> (res: SessionState)
        ensures
            res.message_count == dialogue_count(self.messages@),
            res.total_cost_cents == self.total_cost.0,
            match self.current_model {
                Some(m) => res.current_model matches Some(s) && s@ == spec_render_model_id(m@),
                None => res.current_model is None,
            },
            res.context_tokens_used as nat == match context_tokens(self.messages@) {
                Some(t) => if t > usize::MAX {
                    usize::MAX as nat
                } else {
                    t
                },
                None => usize::MAX as nat,
            },
            res.context_token_limit == self.context_limit,
            self.messages@.len() > 0 ==> (res.first_message_role matches Some(r) && r@
                == role_name(self.messages@[0].role)),
            self.messages@.len() == 0 ==> res.first_message_role is None,
    {
        let used: usize = match context_token_count(&self.messages) {
            Some(tokens) => if tokens > usize::MAX as u128 {
                usize::MAX
            } else {
                tokens as usize
            },
            None => usize::MAX,
        };
        let current_model = match &self.current_model {
            Some(m) => Some(m.as_str()),
            None => None,
        };
        let first_message_role = if self.messages.len() > 0 {
            Some(role_str(&self.messages[0].role))
        } else {
            None
        };
        SessionState {
            message_count: count_dialogue(&self.messages),
            total_cost_cents: self.total_cost.0,
            current_model,
            context_tokens_used: used,
            context_token_limit: self.context_limit,
            first_message_role,
        }
    }
}

/// Counts the messages not from the system.
fn count_dialogue(ms: &Vec<Message>) -> (n: usize)
    ensures
        n == dialogue_count(ms@),
{
    let mut n: usize = 0;
    let mut i: usize = 0;
    while i < ms.len()
        invariant
            i <= ms.len(),
            n == dialogue_count(ms@.take(i as int)),
            n <= i,
        decreases ms.len() - i,
    {
        assert(ms@.take(i + 1).drop_last() =~= ms@.take(i as int));
        if ms[i].role != Role::System {
            n += 1;
        }
        i += 1;
    }
    assert(ms@.take(ms.len() as int) =~= ms@);
    n
}

/// An event of a turn, as the session reports it.
#[derive(Debug)]
pub enum SessionEvent {
    Text(String),
    ToolCall(ToolInvocation),
    ToolResult(ToolResult),
    Error(String),
}

impl Clone for SessionEvent {
    fn clone(&self) -> (res: Self)
        ensures
            match (*self, res) {
                (SessionEvent::ToolResult(a), SessionEvent::ToolResult(b)) => same_result(a, b),
                _ => res == *self,
            },
    {
        match self {
            SessionEvent::Text(t) => SessionEvent::Text(t.clone()),
            SessionEvent::ToolCall(i) => SessionEvent::ToolCall(i.clone()),
            SessionEvent::ToolResult(r) => SessionEvent::ToolResult(r.clone()),
            SessionEvent::Error(t) => SessionEvent::Error(t.clone()),
        }
    }
}

/// The output of one turn: its events, the usage of the model call, and
/// the model that answered.
#[derive(Debug)]
pub struct SessionOutput {
    pub events: Vec<SessionEvent>,
    pub usage: Option<Usage>,
    pub model_used: Option<ModelId>,
}

/// What a slash command asks of the session's driver.
#[derive(Debug)]
pub enum SlashAction {
    /// Show this output.
    Reply(SessionOutput),
    /// Delete the session's stored messages, then show this output.
    ClearStorage(SessionOutput),
    /// Show the session's spending, which is this cost, and its limit.
    ShowCost(Cost),
    /// Carry out this ranking command.
    Ranking(RankingCommand),
}

/// The command and the argument text of a trimmed input that starts with
/// '/': the command runs to the first space, the arguments follow it.
pub open spec fn spec_split_command(t: Seq<char>) -> Option<(Seq<char>, Seq<char>)> {
    if t.len() > 0 && t[0] == '/' {
        let rest = t.skip(1);
        match first_index_of(rest, ' ') {
            Some(i) => Some((rest.take(i), rest.skip(i + 1))),
            None => Some((rest, Seq::empty())),
        }
    } else {
        None
    }
}

/// The list of commands that /help shows.
pub open spec fn help_text() -> Seq<char> {
    "Commands: /help, /tools, /model <id>, /clear, /budget <tokens>, /cost, /quit"@
}

/// The reply to a slash command other than /clear and /cost: whether it is
/// an error, and its text.
pub open spec fn slash_reply(
    cmd: Seq<char>,
    args: Seq<char>,
    current: Option<(Seq<char>, Seq<char>)>,
    context_limit: nat,
) -> (bool, Seq<char>) {
    let a = trim(args);
    if cmd == "help"@ {
        (false, help_text())
    } else if cmd == "tools"@ {
        (false, "No tools registered. (Phase 4)"@)
    } else if cmd == "model"@ {
        if a.len() == 0 {
            (
                false,
                "Current model: "@ + match current {
                    Some(m) => spec_render_model_id(m),
                    None => "auto (router-selected)"@,
                },
            )
        } else {
            match spec_parse_model_id(a) {
                Some(id) => (false, "Model override set to: "@ + spec_render_model_id(id)),
                None => (true, "Invalid model ID: '"@ + a + "' (expected 'provider/model')"@),
            }
        }
    } else if cmd == "budget"@ {
        if a.len() == 0 {
            (false, "Context budget: "@ + decimal_text(context_limit) + " tokens"@)
        } else {
            (false, "Budget set to: "@ + a + " tokens (not yet enforced)"@)
        }
    } else if cmd == "quit"@ {
        (false, "Goodbye."@)
    } else {
        (true, "Unknown command: /"@ + cmd + ". Type /help for available commands."@)
    }
}

/// Whether `o` shows exactly one event, `text`, as an error or as text.
pub open spec fn single_reply(o: SessionOutput, is_error: bool, text: Seq<char>) -> bool {
    &&& o.usage is None
    &&& o.model_used is None
    &&& o.events@.len() == 1
    &&& match o.events@[0] {
        SessionEvent::Text(t) => !is_error && t@ == text,
        SessionEvent::Error(t) => is_error && t@ == text,
        _ => false,
    }
}

/// An output of one text or error event.
fn reply(is_error: bool, text: String) -> (o: SessionOutput)
    ensures
        single_reply(o, is_error, text@),
{
    let mut events: Vec<SessionEvent> = Vec::new();
    if is_error {
        events.push(SessionEvent::Error(text));
    } else {
        events.push(SessionEvent::Text(text));
    }
    SessionOutput { events, usage: None, model_used: None }
}

/// `a`, then `b`, then `c`.
fn concat3(a: &str, b: &str, c: &str) -> (res: String)
    ensures
        res@ == a@ + b@ + c@,
{
    let mut out = concat(a, b);
    out.append(c);
    out
}

/// Splits a trimmed input into its command and argument text when it starts
/// with '/'.
pub fn split_command(t: &str) -> (res: Option<(String, String)>)
    ensures
        match res {
            Some((c, a)) => spec_split_command(t@) == Some((c@, a@)),
            None => spec_split_command(t@) is None,
        },
{
    let v = chars_of(t);
    if v.len() == 0 || v[0] != '/' {
        return None;
    }
    let n = v.len();
    let ghost rest = t@.skip(1);
    let rest_str = t.substring_char(1, n);
    let rv = chars_of(rest_str);
    assert(rv@ =~= rest);
    match find_char(&rv, ' ') {
        Some(i) => {
            let cmd = owned(rest_str.substring_char(0, i));
            let args = owned(rest_str.substring_char(i + 1, n - 1));
            assert(cmd@ =~= rest.take(i as int));
            assert(args@ =~= rest.skip(i + 1));
            Some((cmd, args))
        },
        None => Some((owned(rest_str), String::new())),
    }
}

/// How a turn starts.
#[derive(Debug)]
pub enum TurnStart {
    /// The input was a slash command; the session acted on it.
    Command(SlashAction),
    /// The session has spent its limit; nothing was added.
    BudgetExceeded { spent: Cost, limit: Cost },
    /// The input, trimmed, was added as a user message; it goes to the
    /// analyzer, the router and the model.
    Prompt(String),
}

/// What the slash command `cmd` with arguments `args` does to a
/// conversation `before`, leaving it `after` and answering `res`: the limits
/// and the system prompt never change; a ranking command changes nothing and
/// goes to the ranking engine (or is refused with its usage); /cost reports
/// the spending and changes nothing; /clear empties the conversation; any
/// other command answers `slash_reply` and changes nothing but, for a valid
/// /model argument, the forced model.
pub open spec fn slash_effect(
    before: Conversation,
    cmd: Seq<char>,
    args: Seq<char>,
    res: SlashAction,
    after: Conversation,
) -> bool {
    &&& after.system_prompt == before.system_prompt
    &&& after.context_limit == before.context_limit
    &&& after.budget_limit == before.budget_limit
    &&& ranking_command(cmd, args) is Some ==> after == before && match ranking_command(
        cmd,
        args,
    )->0 {
        Ok(v) => res matches SlashAction::Ranking(c) && c@ == v,
        Err(t) => res matches SlashAction::Reply(o) && single_reply(o, true, t),
    }
    &&& ranking_command(cmd, args) is None && cmd == "cost"@ ==> res == SlashAction::ShowCost(
        before.total_cost,
    ) && after == before
    &&& ranking_command(cmd, args) is None && cmd == "clear"@ ==> (res matches SlashAction::ClearStorage(
        o,
    ) && single_reply(o, false, "Session cleared."@)) && after.messages@.len() == 0
        && after.total_cost == Cost(0) && after.current_model is None
    &&& ranking_command(cmd, args) is None && cmd != "cost"@ && cmd != "clear"@ ==> ({
        let r = slash_reply(
            cmd,
            args,
            match before.current_model {
                Some(m) => Some(m@),
                None => None,
            },
            before.context_limit as nat,
        );
        &&& res matches SlashAction::Reply(o) && single_reply(o, r.0, r.1)
        &&& after.messages@ == before.messages@
        &&& after.total_cost == before.total_cost
        &&& if cmd == "model"@ && spec_parse_model_id(trim(args)) is Some {
            after.current_model matches Some(m) && Some(m@) == spec_parse_model_id(trim(args))
        } else {
            after.current_model == before.current_model
        }
    })
}

impl Conversation {
    /// Acts on a slash command: /model sets or shows the forced model,
    /// /clear empties the conversation, /cost reports the spending, the
    /// ranking commands go to the ranking engine (or are refused with their
    /// usage); the others only answer.
    pub fn handle_slash_command(&mut self, cmd: &str, args: &str) -> (res: SlashAction)
        ensures
            slash_effect(*old(self), cmd@, args@, res, *final(self)),
    {
        proof {
            reveal_strlit("help");
            reveal_strlit("tools");
            reveal_strlit("model");
            reveal_strlit("clear");
            reveal_strlit("budget");
            reveal_strlit("cost");
            reveal_strlit("quit");
            let names = seq!["help"@, "tools"@, "model"@, "clear"@, "budget"@, "cost"@, "quit"@];
            assert(names[0][0] == 'h' && names[1][0] == 't' && names[2][0] == 'm' && names[3][1]
                == 'l' && names[4][0] == 'b' && names[5][1] == 'o' && names[6][0] == 'q');
            assert(names[2][1] == 'o' && names[3][0] == 'c' && names[5][0] == 'c');
            assert forall|i: int, j: int| 0 <= i < j < 7 implies names[i] != names[j] by {
                if names[i].len() == names[j].len() {
                    if names[i][0] == names[j][0] {
                        assert(names[i][1] != names[j][1]);
                    } else {
                        assert(names[i][0] != names[j][0]);
                    }
                }
            }
        }
        match parse_ranking_command(cmd, args) {
            Some(Ok(c)) => {
                return SlashAction::Ranking(c);
            },
            Some(Err(t)) => {
                return SlashAction::Reply(reply(true, t));
            },
            None => {},
        }
        if str_eq(cmd, "cost") {
            return SlashAction::ShowCost(self.total_cost);
        }
        if str_eq(cmd, "clear") {
            self.clear();
            return SlashAction::ClearStorage(reply(false, owned("Session cleared.")));
        }
        if str_eq(cmd, "help") {
            return SlashAction::Reply(
                reply(
                    false,
                    owned("Commands: /help, /tools, /model <id>, /clear, /budget <tokens>, /cost, /quit"),
                ),
            );
        }
        if str_eq(cmd, "tools") {
            return SlashAction::Reply(reply(false, owned("No tools registered. (Phase 4)")));
        }
        if str_eq(cmd, "model") {
            let a = trimmed(args);
            if a.as_str().is_empty() {
                let shown = match &self.current_model {
                    Some(m) => m.as_str(),
                    None => owned("auto (router-selected)"),
                };
                return SlashAction::Reply(reply(false, concat("Current model: ", shown.as_str())));
            }
            match ModelId::parse(a.as_str()) {
                Some(id) => {
                    let shown = id.as_str();
                    self.current_model = Some(id);
                    return SlashAction::Reply(
                        reply(false, concat("Model override set to: ", shown.as_str())),
                    );
                },
                None => {
                    return SlashAction::Reply(
                        reply(
                            true,
                            concat3(
                                "Invalid model ID: '",
                                a.as_str(),
                                "' (expected 'provider/model')",
                            ),
                        ),
                    );
                },
            }
        }
        if str_eq(cmd, "budget") {
            let a = trimmed(args);
            if a.as_str().is_empty() {
                let n = decimal(self.context_limit as u64);
                return SlashAction::Reply(
                    reply(false, concat3("Context budget: ", n.as_str(), " tokens")),
                );
            }
            return SlashAction::Reply(
                reply(false, concat3("Budget set to: ", a.as_str(), " tokens (not yet enforced)")),
            );
        }
        if str_eq(cmd, "quit") {
            return SlashAction::Reply(reply(false, owned("Goodbye.")));
        }
        SlashAction::Reply(
            reply(
                true,
                concat3("Unknown command: /", cmd, ". Type /help for available commands."),
            ),
        )
    }

    /// Starts a turn on the user's input. A slash command is acted on; a
    /// prompt is refused when the spending limit is reached, and otherwise
    /// added, trimmed, as a user message after making sure the system prompt
    /// leads.
    pub fn begin_turn(&mut self, input: &str) -> (res: TurnStart)
        ensures
            final(self).system_prompt == old(self).system_prompt,
            final(self).context_limit == old(self).context_limit,
            final(self).budget_limit == old(self).budget_limit,
            spec_split_command(trim(input@)) matches Some((c, a)) ==> (res matches TurnStart::Command(
                act,
            ) && slash_effect(*old(self), c, a, act, *final(self))),
            spec_split_command(trim(input@)) is None ==> match exceeded_budget(
                old(self).total_cost,
                old(self).budget_limit,
            ) {
                Some(limit) => res == (TurnStart::BudgetExceeded {
                    spent: old(self).total_cost,
                    limit,
                }) && *final(self) == *old(self),
                None => res matches TurnStart::Prompt(t) && t@ == trim(input@)
                    && final(self).messages@ == with_system_prompt(
                    old(self).messages@,
                    old(self).system_prompt,
                ).push(Message { role: Role::User, content: MessageContent::Text { text: t } })
                    && final(self).total_cost == old(self).total_cost
                    && final(self).current_model == old(self).current_model,
            },
    {
        let t = trimmed(input);
        match split_command(t.as_str()) {
            Some((cmd, args)) => {
                return TurnStart::Command(self.handle_slash_command(cmd.as_str(), args.as_str()));
            },
            None => {},
        }
        match self.budget_exceeded() {
            Some(limit) => {
                return TurnStart::BudgetExceeded { spent: self.total_cost, limit };
            },
            None => {},
        }
        self.ensure_system_prompt();
        self.messages.push(Message::text(Role::User, t.clone()));
        TurnStart::Prompt(t)
    }
}

/// The events a turn shows for a model's reply: each text chunk as text,
/// each tool call as a tool call, in order; the end event shows nothing.
pub open spec fn reply_events(evs: Seq<ResponseEvent>) -> Seq<SessionEvent>
    decreases evs.len(),
{
    if evs.len() == 0 {
        Seq::empty()
    } else {
        let prev = reply_events(evs.drop_last());
        match evs.last() {
            ResponseEvent::Chunk(t) => prev.push(SessionEvent::Text(t)),
            ResponseEvent::ToolCall(i) => prev.push(SessionEvent::ToolCall(i)),
            ResponseEvent::Done(_) => prev,
        }
    }
}

/// The text of a reply: its chunks, joined.
pub open spec fn reply_text(evs: Seq<ResponseEvent>) -> Seq<char>
    decreases evs.len(),
{
    if evs.len() == 0 {
        Seq::empty()
    } else {
        let prev = reply_text(evs.drop_last());
        match evs.last() {
            ResponseEvent::Chunk(t) => prev + t@,
            _ => prev,
        }
    }
}

/// The cost of a reply: the costs its end events report, summed.
pub open spec fn reply_cost(evs: Seq<ResponseEvent>) -> nat
    decreases evs.len(),
{
    if evs.len() == 0 {
        0
    } else {
        let prev = reply_cost(evs.drop_last());
        match evs.last() {
            ResponseEvent::Done(u) => prev + u.cost.0 as nat,
            _ => prev,
        }
    }
}

/// The usage of a reply: that of its last end event.
pub open spec fn reply_usage(evs: Seq<ResponseEvent>) -> Option<Usage>
    decreases evs.len(),
{
    if evs.len() == 0 {
        None
    } else {
        match evs.last() {
            ResponseEvent::Done(u) => Some(u),
            _ => reply_usage(evs.drop_last()),
        }
    }
}

impl Conversation {
    /// Takes in a model's reply: its chunks and tool calls become the
    /// turn's events, its end event's cost is added to the session's
    /// spending, and its text, when there is any, becomes an assistant
    /// message, which is also returned (to be stored).
    pub fn absorb_reply(&mut self, events: &Vec<ResponseEvent>, model_used: Option<ModelId>) -> (res: (
        SessionOutput,
        Option<Message>,
    ))
        requires
            old(self).total_cost.0 + reply_cost(events@) <= u64::MAX,
        ensures
            res.0.events@ == reply_events(events@),
            res.0.usage == reply_usage(events@),
            res.0.model_used == model_used,
            final(self).total_cost.0 == old(self).total_cost.0 + reply_cost(events@),
            final(self).current_model == old(self).current_model,
            final(self).system_prompt == old(self).system_prompt,
            final(self).context_limit == old(self).context_limit,
            final(self).budget_limit == old(self).budget_limit,
            reply_text(events@).len() == 0 ==> res.1 is None && final(self).messages@ == old(
                self,
            ).messages@,
            reply_text(events@).len() > 0 ==> (res.1 matches Some(m) && m.role == Role::Assistant
                && (m.content matches MessageContent::Text { text } && text@ == reply_text(events@))
                && final(self).messages@ == old(self).messages@.push(m)),
    {
        let mut shown: Vec<SessionEvent> = Vec::new();
        let mut text = String::new();
        let mut usage: Option<Usage> = None;
        let mut i: usize = 0;
        while i < events.len()
            invariant
                i <= events.len(),
                shown@ == reply_events(events@.take(i as int)),
                text@ == reply_text(events@.take(i as int)),
                usage == reply_usage(events@.take(i as int)),
                self.total_cost.0 == old(self).total_cost.0 + reply_cost(events@.take(i as int)),
                old(self).total_cost.0 + reply_cost(events@) <= u64::MAX,
                self.messages@ == old(self).messages@,
                self.current_model == old(self).current_model,
                self.system_prompt == old(self).system_prompt,
                self.context_limit == old(self).context_limit,
                self.budget_limit == old(self).budget_limit,
            decreases events.len() - i,
        {
            proof {
                assert(events@.take(i + 1).drop_last() =~= events@.take(i as int));
                assert(events@.take(i + 1).last() == events@[i as int]);
                lemma_reply_cost_prefix(events@, i + 1);
            }
            match &events[i] {
                ResponseEvent::Chunk(t) => {
                    text.append(t.as_str());
                    shown.push(SessionEvent::Text(t.clone()));
                },
                ResponseEvent::ToolCall(inv) => {
                    shown.push(SessionEvent::ToolCall(inv.clone()));
                },
                ResponseEvent::Done(u) => {
                    self.total_cost = self.total_cost.add(u.cost);
                    usage = Some(u.clone());
                },
            }
            i += 1;
        }
        assert(events@.take(events.len() as int) =~= events@);
        let output = SessionOutput { events: shown, usage, model_used };
        if text.as_str().is_empty() {
            (output, None)
        } else {
            let m = Message::text(Role::Assistant, text);
            let stored = m.clone();
            self.messages.push(m);
            (output, Some(stored))
        }
    }
}

/// The session's spending after a reply of `events`, when it fits in 64
/// bits: `spent` plus what the reply's end events cost.
pub fn spending_after(spent: Cost, events: &Vec<ResponseEvent>) -> (res: Option<Cost>)
    ensures
        match res {
            Some(c) => c.0 == spent.0 + reply_cost(events@),
            None => spent.0 + reply_cost(events@) > u64::MAX,
        },
{
    let mut total: u64 = spent.0;
    let mut i: usize = 0;
    while i < events.len()
        invariant
            i <= events.len(),
            total == spent.0 + reply_cost(events@.take(i as int)),
        decreases events.len() - i,
    {
        proof {
            assert(events@.take(i + 1).drop_last() =~= events@.take(i as int));
            assert(events@.take(i + 1).last() == events@[i as int]);
        }
        match &events[i] {
            ResponseEvent::Done(u) => match total.checked_add(u.cost.0) {
                Some(t) => total = t,
                None => {
                    proof {
                        lemma_reply_cost_prefix(events@, i + 1);
                    }
                    return None;
                },
            },
            _ => {},
        }
        i += 1;
    }
    assert(events@.take(events.len() as int) =~= events@);
    Some(Cost(total))
}

/// What taking in a reply does (see `Conversation::absorb_reply`): `out`
/// shows the reply's events, usage and model; the spending grows by the
/// reply's cost; the reply's text, when there is any, is the stored
/// assistant message, and the rest of the conversation stays.
pub open spec fn absorbs(
    before: Conversation,
    after: Conversation,
    events: Seq<ResponseEvent>,
    model_used: Option<ModelId>,
    out: (SessionOutput, Option<Message>),
) -> bool {
    &&& out.0.events@ == reply_events(events)
    &&& out.0.usage == reply_usage(events)
    &&& out.0.model_used == model_used
    &&& after.total_cost.0 == before.total_cost.0 + reply_cost(events)
    &&& after.current_model == before.current_model
    &&& after.system_prompt == before.system_prompt
    &&& after.context_limit == before.context_limit
    &&& after.budget_limit == before.budget_limit
    &&& reply_text(events).len() == 0 ==> out.1 is None && after.messages@ == before.messages@
    &&& reply_text(events).len() > 0 ==> (out.1 matches Some(m) && m.role == Role::Assistant && (
    m.content matches MessageContent::Text { text } && text@ == reply_text(events))
        && after.messages@ == before.messages@.push(m))
}

impl Conversation {
    /// Takes in a model's reply as `absorb_reply` does, when the session's
    /// spending with the reply's cost fits in 64 bits; otherwise returns
    /// nothing and leaves the conversation as it was.
    pub fn absorb_reply_checked(&mut self, events: &Vec<ResponseEvent>, model_used: Option<ModelId>) -> (res: Option<
        (SessionOutput, Option<Message>),
    >)
        ensures
            match res {
                Some(out) => absorbs(*old(self), *final(self), events@, model_used, out),
                None => old(self).total_cost.0 + reply_cost(events@) > u64::MAX && *final(self)
                    == *old(self),
            },
    {
        match spending_after(self.total_cost, events) {
            None => None,
            Some(_) => Some(self.absorb_reply(events, model_used)),
        }
    }
}

/// The messages after a reply is taken in: the stored assistant message,
/// when there is one, after the others.
pub open spec fn with_reply(ms: Seq<Message>, stored: Option<Message>) -> Seq<Message> {
    match stored {
        Some(m) => ms.push(m),
        None => ms,
    }
}

/// Whether every message fits the limit on its own, and the system
/// messages fit it together.
pub open spec fn fits_window(ms: Seq<Message>, limit: nat) -> bool {
    &&& forall|j: int|
        0 <= j < ms.len() ==> ((#[trigger] message_tokens(ms[j])) matches Some(t) && t <= limit)
    &&& context_tokens(system_messages(ms)) matches Some(t) && t <= limit
}

impl Conversation {
    /// Ends a turn on a model's reply: takes it in (see `absorb_reply`),
    /// then slides the context window over the messages. When the spending
    /// with the reply's cost would not fit in 64 bits, nothing changes and
    /// nothing is returned. Where every message fits the window on its own
    /// and the system messages fit it together, the context left fits it.
    pub fn finish_turn(&mut self, events: &Vec<ResponseEvent>, model_used: Option<ModelId>) -> (res: Option<
        (SessionOutput, Option<Message>),
    >)
        ensures
            match res {
                None => old(self).total_cost.0 + reply_cost(events@) > u64::MAX && *final(self)
                    == *old(self),
                Some(out) => {
                    &&& out.0.events@ == reply_events(events@)
                    &&& out.0.usage == reply_usage(events@)
                    &&& out.0.model_used == model_used
                    &&& final(self).total_cost.0 == old(self).total_cost.0 + reply_cost(events@)
                    &&& final(self).current_model == old(self).current_model
                    &&& final(self).system_prompt == old(self).system_prompt
                    &&& final(self).context_limit == old(self).context_limit
                    &&& final(self).budget_limit == old(self).budget_limit
                    &&& reply_text(events@).len() == 0 ==> out.1 is None
                    &&& reply_text(events@).len() > 0 ==> (out.1 matches Some(m) && m.role
                        == Role::Assistant && (m.content matches MessageContent::Text { text }
                        && text@ == reply_text(events@)))
                    &&& final(self).messages@ == sliding_window(
                        with_reply(old(self).messages@, out.1),
                        old(self).context_limit as nat,
                    )
                    &&& fits_window(
                        with_reply(old(self).messages@, out.1),
                        old(self).context_limit as nat,
                    ) ==> (context_tokens(final(self).messages@) matches Some(t) && t
                        <= old(self).context_limit)
                },
            },
    {
        let out = match self.absorb_reply_checked(events, model_used) {
            None => return None,
            Some(out) => out,
        };
        let ghost ms = self.messages@;
        assert(ms == with_reply(old(self).messages@, out.1));
        self.apply_context_window();
        proof {
            if fits_window(ms, self.context_limit as nat) {
                law_window_within_limit(ms, self.context_limit as nat);
            }
        }
        Some(out)
    }
}

proof fn lemma_reply_cost_prefix(evs: Seq<ResponseEvent>, k: int)
    requires
        0 <= k <= evs.len(),
    ensures
        reply_cost(evs.take(k)) <= reply_cost(evs),
    decreases evs.len() - k,
{
    if k < evs.len() {
        lemma_reply_cost_prefix(evs, k + 1);
        assert(evs.take(k + 1).drop_last() =~= evs.take(k));
    } else {
        assert(evs.take(k) =~= evs);
    }
}

} // verus!
