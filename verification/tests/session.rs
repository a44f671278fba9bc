use workhorse::engine::session::spending_after;
use workhorse::adapters::{ResponseEvent, ToolInvocation, Usage};
use workhorse::engine::session::{
    context_token_count, message_token_count, role_str, split_command, SlashAction, TurnStart,
};
use workhorse::engine::{Conversation, Cost, Message, MessageContent, Role, SessionEvent, SessionOutput};

fn conversation() -> Conversation {
    Conversation::new(String::new(), Vec::new(), 128_000, None)
}

fn text_of(output: &SessionOutput) -> (bool, String) {
    assert_eq!(output.events.len(), 1);
    match &output.events[0] {
        SessionEvent::Text(t) => (false, t.clone()),
        SessionEvent::Error(t) => (true, t.clone()),
        other => panic!("unexpected event {:?}", other),
    }
}

fn command_reply(conv: &mut Conversation, input: &str) -> (bool, String) {
    match conv.begin_turn(input) {
        TurnStart::Command(SlashAction::Reply(o)) => text_of(&o),
        other => panic!("unexpected turn {:?}", other),
    }
}

#[test]
fn prompt_is_added_trimmed() {
    let mut conv = conversation();
    match conv.begin_turn("  hello  ") {
        TurnStart::Prompt(t) => assert_eq!(t, "hello"),
        other => panic!("unexpected turn {:?}", other),
    }
    assert_eq!(conv.messages.len(), 1);
    assert_eq!(conv.messages[0].role, Role::User);
    assert_eq!(conv.status().message_count, 1);
}

#[test]
fn slash_clear_resets_session() {
    let mut conv = conversation();
    conv.begin_turn("hello");
    assert!(conv.status().message_count > 0);
    match conv.begin_turn("/clear") {
        TurnStart::Command(SlashAction::ClearStorage(o)) => {
            assert_eq!(text_of(&o), (false, "Session cleared.".to_string()))
        }
        other => panic!("unexpected turn {:?}", other),
    }
    assert_eq!(conv.status().message_count, 0, "/clear must reset message count");
    assert_eq!(conv.total_cost, Cost(0));
    assert!(conv.current_model.is_none());
}

#[test]
fn slash_model_overrides_routing() {
    let mut conv = conversation();
    let (err, text) = command_reply(&mut conv, "/model anthropic/opus-4");
    assert!(!err);
    assert_eq!(text, "Model override set to: anthropic/opus-4");
    let status = conv.status();
    assert_eq!(status.current_model.as_deref(), Some("anthropic/opus-4"));
    let (_, shown) = command_reply(&mut conv, "/model");
    assert_eq!(shown, "Current model: anthropic/opus-4");
}

#[test]
fn slash_model_without_override_and_invalid() {
    let mut conv = conversation();
    assert_eq!(
        command_reply(&mut conv, "/model"),
        (false, "Current model: auto (router-selected)".to_string())
    );
    assert_eq!(
        command_reply(&mut conv, "/model   bad  "),
        (true, "Invalid model ID: 'bad' (expected 'provider/model')".to_string())
    );
    assert!(conv.current_model.is_none());
}

#[test]
fn slash_cost_shows_session_spend() {
    let mut conv = conversation();
    conv.total_cost = Cost(42);
    match conv.begin_turn("/cost") {
        TurnStart::Command(SlashAction::ShowCost(c)) => assert_eq!(c, Cost(42)),
        other => panic!("unexpected turn {:?}", other),
    }
    assert_eq!(conv.messages.len(), 0);
}

#[test]
fn slash_help_tools_budget_quit_unknown() {
    let mut conv = Conversation::new(String::new(), Vec::new(), 4096, None);
    assert_eq!(
        command_reply(&mut conv, "/help"),
        (
            false,
            "Commands: /help, /tools, /model <id>, /clear, /budget <tokens>, /cost, /quit"
                .to_string()
        )
    );
    assert_eq!(
        command_reply(&mut conv, "/tools"),
        (false, "No tools registered. (Phase 4)".to_string())
    );
    assert_eq!(
        command_reply(&mut conv, "/budget"),
        (false, "Context budget: 4096 tokens".to_string())
    );
    assert_eq!(
        command_reply(&mut conv, "/budget 500"),
        (false, "Budget set to: 500 tokens (not yet enforced)".to_string())
    );
    assert_eq!(command_reply(&mut conv, "/quit"), (false, "Goodbye.".to_string()));
    assert_eq!(
        command_reply(&mut conv, "/frobnicate now"),
        (true, "Unknown command: /frobnicate. Type /help for available commands.".to_string())
    );
    assert_eq!(conv.messages.len(), 0);
}

#[test]
fn split_command_cases() {
    assert_eq!(
        split_command("/model a/b"),
        Some(("model".to_string(), "a/b".to_string()))
    );
    assert_eq!(split_command("/clear"), Some(("clear".to_string(), String::new())));
    assert_eq!(
        split_command("/model  x"),
        Some(("model".to_string(), " x".to_string()))
    );
    assert_eq!(split_command("hello"), None);
    assert_eq!(split_command(""), None);
}

#[test]
fn cost_limit_blocks_execution() {
    let mut conv = Conversation::new(String::new(), Vec::new(), 128_000, Some(Cost(100)));
    conv.total_cost = Cost(100);
    match conv.begin_turn("expensive prompt") {
        TurnStart::BudgetExceeded { spent, limit } => {
            assert_eq!(spent, Cost(100));
            assert_eq!(limit, Cost(100));
        }
        other => panic!("expected BudgetExceeded, got {:?}", other),
    }
    assert_eq!(conv.messages.len(), 0);
    conv.total_cost = Cost(99);
    assert!(matches!(conv.begin_turn("cheap prompt"), TurnStart::Prompt(_)));
    assert_eq!(conv.budget_exceeded(), None);
}

#[test]
fn commands_run_even_over_budget() {
    let mut conv = Conversation::new(String::new(), Vec::new(), 128_000, Some(Cost(1)));
    conv.total_cost = Cost(5);
    assert_eq!(conv.budget_exceeded(), Some(Cost(1)));
    assert!(matches!(conv.begin_turn("/cost"), TurnStart::Command(_)));
}

fn done(cost: u64) -> ResponseEvent {
    ResponseEvent::Done(Usage { input_tokens: 2, output_tokens: 3, cost: Cost(cost) })
}

#[test]
fn cost_tracking_accumulates_per_session() {
    let mut conv = conversation();
    conv.begin_turn("hello");
    let events = vec![
        ResponseEvent::Chunk("Hel".to_string()),
        ResponseEvent::Chunk("lo".to_string()),
        ResponseEvent::ToolCall(ToolInvocation {
            call_id: "call_0".to_string(),
            tool_name: "filesystem".to_string(),
            arguments: serde_json::Value::Null,
        }),
        done(7),
    ];
    let (output, stored) = conv.absorb_reply(&events, None);
    assert_eq!(output.events.len(), 3);
    assert!(matches!(&output.events[0], SessionEvent::Text(t) if t == "Hel"));
    assert!(matches!(&output.events[1], SessionEvent::Text(t) if t == "lo"));
    assert!(matches!(&output.events[2], SessionEvent::ToolCall(i) if i.call_id == "call_0"));
    assert_eq!(output.usage.as_ref().map(|u| u.cost), Some(Cost(7)));
    let stored = stored.expect("the reply text is stored");
    assert_eq!(stored.role, Role::Assistant);
    assert!(matches!(&stored.content, MessageContent::Text { text } if text == "Hello"));
    assert_eq!(conv.messages.len(), 2);
    assert_eq!(conv.total_cost, Cost(7));
    conv.begin_turn("analyze this");
    conv.absorb_reply(&vec![ResponseEvent::Chunk("ok".to_string()), done(5)], None);
    assert!(conv.total_cost.0 > 7, "cost must accumulate after LLM calls");
    assert_eq!(conv.total_cost, Cost(12));
}

#[test]
fn reply_without_text_stores_nothing() {
    let mut conv = conversation();
    let model = workhorse::engine::ModelId::parse("openai/gpt-4o");
    let (output, stored) = conv.absorb_reply(&vec![done(3)], model);
    assert!(stored.is_none());
    assert!(output.events.is_empty());
    assert_eq!(output.model_used.map(|m| m.as_str()), Some("openai/gpt-4o".to_string()));
    assert_eq!(conv.messages.len(), 0);
    assert_eq!(conv.total_cost, Cost(3));
}

#[test]
fn system_prompt_leads_and_is_not_counted() {
    let conv = Conversation::new("You are helpful.".to_string(), vec![], 128_000, None);
    assert_eq!(conv.messages.len(), 1);
    let status = conv.status();
    assert_eq!(status.message_count, 0);
    assert_eq!(status.first_message_role.as_deref(), Some("system"));
    assert_eq!(status.context_token_limit, 128_000);
    assert_eq!(status.total_cost_cents, 0);
}

#[test]
fn ensure_system_prompt_puts_it_first_once() {
    let stored = vec![Message::text(Role::User, "earlier".to_string())];
    let mut conv = Conversation::new(String::new(), stored, 1000, None);
    conv.system_prompt = "be brief".to_string();
    conv.ensure_system_prompt();
    conv.ensure_system_prompt();
    assert_eq!(conv.messages.len(), 2);
    assert_eq!(conv.messages[0].role, Role::System);
    assert_eq!(conv.messages[1].role, Role::User);
}

#[test]
fn reset_keeps_only_the_system_prompt() {
    let mut conv = Conversation::new("sys".to_string(), vec![], 1000, None);
    conv.begin_turn("hello");
    conv.total_cost = Cost(9);
    conv.reset();
    assert_eq!(conv.messages.len(), 1);
    assert_eq!(conv.messages[0].role, Role::System);
    assert_eq!(conv.total_cost, Cost(0));
}

#[test]
fn token_counts_use_the_tokenizer() {
    let m = Message::text(Role::User, "hello".to_string());
    assert_eq!(message_token_count(&m), Some(1));
    let empty = Message::text(Role::User, String::new());
    assert_eq!(message_token_count(&empty), Some(0));
    assert_eq!(context_token_count(&vec![m.clone(), m.clone(), empty]), Some(2));
}

#[test]
fn sliding_window_drops_oldest_messages() {
    let mut conv = Conversation::new("sys".to_string(), vec![], 20, None);
    for i in 0..50 {
        conv.begin_turn(&format!("message {i}"));
        conv.apply_context_window();
    }
    let status = conv.status();
    assert!(status.context_tokens_used <= status.context_token_limit);
    assert_eq!(status.first_message_role.as_deref(), Some("system"));
    match &conv.messages.last().unwrap().content {
        MessageContent::Text { text } => assert_eq!(text, "message 49"),
        other => panic!("unexpected {:?}", other),
    }
    assert!(status.message_count < 50);
}

#[test]
fn context_window_prevents_overflow() {
    let mut conv = Conversation::new("You are a careful assistant.".to_string(), vec![], 30, None);
    for i in 0..100 {
        conv.begin_turn(&format!("message number {i}"));
    }
    conv.apply_context_window();
    let status = conv.status();
    assert!(
        status.context_tokens_used <= status.context_token_limit,
        "context tokens used ({}) must not exceed limit ({})",
        status.context_tokens_used,
        status.context_token_limit
    );
}

#[test]
fn system_prompt_is_never_dropped() {
    let mut conv = Conversation::new("sys".to_string(), vec![], 1, None);
    for i in 0..100 {
        conv.begin_turn(&format!("filler message {i}"));
    }
    conv.apply_context_window();
    assert_eq!(conv.messages[0].role, Role::System);
    assert_eq!(conv.messages.len(), 1);
}

#[test]
fn window_within_limit_changes_nothing() {
    let mut conv = Conversation::new("sys".to_string(), vec![], 1000, None);
    conv.begin_turn("a");
    conv.begin_turn("b");
    conv.apply_context_window();
    assert_eq!(conv.messages.len(), 3);
}

#[test]
fn role_names() {
    assert_eq!(role_str(&Role::System), "system");
    assert_eq!(role_str(&Role::User), "user");
    assert_eq!(role_str(&Role::Assistant), "assistant");
    assert_eq!(role_str(&Role::Tool), "tool");
}

#[test]
fn spending_after_adds_every_end_event() {
    let events = vec![ResponseEvent::Chunk("a".to_string()), done(5), done(7)];
    assert_eq!(spending_after(Cost(10), &events), Some(Cost(22)));
    assert_eq!(spending_after(Cost(u64::MAX - 12), &events), Some(Cost(u64::MAX)));
    assert_eq!(spending_after(Cost(u64::MAX - 11), &events), None);
}

#[test]
fn absorb_reply_checked_refuses_an_overflowing_reply() {
    let mut conv = conversation();
    let (output, stored) = conv
        .absorb_reply_checked(&vec![ResponseEvent::Chunk("hi".to_string()), done(4)], None)
        .expect("fits");
    assert_eq!(conv.total_cost, Cost(4));
    assert_eq!(output.events.len(), 1);
    assert!(stored.is_some());
    assert_eq!(conv.messages.len(), 1);
    assert!(conv
        .absorb_reply_checked(&vec![ResponseEvent::Chunk("more".to_string()), done(u64::MAX)], None)
        .is_none());
    assert_eq!(conv.total_cost, Cost(4));
    assert_eq!(conv.messages.len(), 1);
}

#[test]
fn finish_turn_slides_the_window_after_the_reply() {
    let mut conv = Conversation::new(String::new(), Vec::new(), 8, None);
    let (output, stored) = conv
        .finish_turn(&vec![ResponseEvent::Chunk("one two three".to_string()), done(2)], None)
        .expect("fits");
    assert!(stored.is_some());
    assert_eq!(output.events.len(), 1);
    assert_eq!(conv.total_cost, Cost(2));
    let used = context_token_count(&conv.messages).expect("countable");
    assert!(used <= 8);
    conv.finish_turn(&vec![ResponseEvent::Chunk("four five six seven eight nine".to_string()), done(1)], None)
        .expect("fits");
    assert!(context_token_count(&conv.messages).expect("countable") <= 8);
    assert_eq!(conv.messages.len(), 1);
    assert_eq!(conv.total_cost, Cost(3));
    assert!(conv.finish_turn(&vec![done(u64::MAX)], None).is_none());
    assert_eq!(conv.total_cost, Cost(3));
}
