use voxclaw::agent::context::{
    ContextTransformer, DefaultConverter, TokenBudgetTransformer, TruncationTransformer,
};
use voxclaw::agent::error::AgentError;
use voxclaw::agent::event::AgentEvent;
use voxclaw::agent::history::{
    append_entry, format_as_context, history_path, read_recent, stored_lines, stored_text,
    AgentHistoryEntry, MAX_ENTRIES,
};
use voxclaw::agent::message::{
    default_system_prompt, ActionSummary, AgentMessage, AgentResult, ToolCall, ToolResult,
    ToolResultContent, UserContent,
};
use voxclaw::agent::request::{
    LlmMessage, LlmStreamEvent, StopReason, ThinkingBudgets, ThinkingConfig, ThinkingLevel,
};
use voxclaw::agent::run::{Agent, AgentBuilder, QueueMode, RunAction, Transformer};
use voxclaw::agent::session::{
    list_sessions, read_summary, split_log, LogLine, SessionEntry, SessionEntryKind, SessionLog,
    SessionStore, SessionSummary, SESSION_FORMAT_VERSION,
};
use voxclaw::agent::tool::ToolExecutor;
use voxclaw::agent::usage::Usage;

#[test]
fn tool_result_construction() {
    let result = ToolResult {
        call_id: "call_1".into(),
        tool_name: "bash".into(),
        content: "output".into(),
        is_error: false,
    };
    assert!(!result.is_error);
}

#[test]
fn agent_result_construction() {
    let result = AgentResult {
        text: "final answer".into(),
        actions: vec![],
    };
    assert_eq!(result.text, "final answer");
}

#[test]
fn action_summary_construction() {
    let summary = ActionSummary {
        tool_name: "execute_command".into(),
        success: true,
        output_preview: "Opened calculator".into(),
    };
    assert!(summary.success);
    assert_eq!(summary.tool_name, "execute_command");
}

#[test]
fn default_system_prompt_returns_non_empty() {
    let prompt = default_system_prompt();
    assert!(!prompt.is_empty());
    assert!(prompt.contains("VoxClaw Agent"));
}

#[test]
fn stop_reason_from_openai() {
    let sr = StopReason::from_openai("stop");
    assert!(matches!(sr, StopReason::Stop));
    let sr = StopReason::from_openai("tool_calls");
    assert!(matches!(sr, StopReason::ToolCalls));
    let sr = StopReason::from_openai("length");
    assert!(matches!(sr, StopReason::MaxTokens));
}

#[test]
fn llm_message_construction() {
    let msg = LlmMessage::system("You are helpful.");
    assert_eq!(msg.role, "system");
    let msg = LlmMessage::user("Hello");
    assert_eq!(msg.role, "user");
    let msg = LlmMessage::assistant_text("Hi there");
    assert_eq!(msg.role, "assistant");
}

// ---------------------------------------------------------------------------
// Context
// ---------------------------------------------------------------------------

#[test]
fn truncation_transformer_keeps_recent() {
    let mut messages = vec![
        AgentMessage::system("sys"),
        AgentMessage::user("old 1"),
        AgentMessage::assistant_text("old reply 1"),
        AgentMessage::user("old 2"),
        AgentMessage::assistant_text("old reply 2"),
        AgentMessage::user("recent"),
    ];
    let transformer = TruncationTransformer { max_messages: 3 };
    assert!(transformer.transform(&mut messages).is_ok());
    assert_eq!(messages.len(), 3);
    assert!(matches!(&messages[0], AgentMessage::System { .. }));
    assert!(matches!(&messages[2], AgentMessage::User { .. }));
    assert!(matches!(
        &messages[2],
        AgentMessage::User { content: UserContent::Text(t), .. } if t == "recent"
    ));
}

#[test]
fn truncation_transformer_allows_all_when_under_limit() {
    let mut messages = vec![AgentMessage::user("hello")];
    let transformer = TruncationTransformer { max_messages: 10 };
    assert!(transformer.transform(&mut messages).is_ok());
    assert_eq!(messages.len(), 1);
}

#[test]
fn token_budget_transformer_trims_long_conversation() {
    let mut messages = vec![
        AgentMessage::system("sys"),
        AgentMessage::user(&"a".repeat(500)),
        AgentMessage::assistant_text(&"b".repeat(500)),
        AgentMessage::user(&"c".repeat(500)),
        AgentMessage::assistant_text(&"d".repeat(500)),
        AgentMessage::user(&"e".repeat(500)),
    ];
    let transformer = TokenBudgetTransformer { max_tokens: 300 };
    assert!(transformer.can_trim(&messages));
    assert!(transformer.transform(&mut messages).is_ok());
    assert!(messages.len() <= 4);
    assert_eq!(messages.len(), 3);
    assert!(matches!(&messages[0], AgentMessage::System { .. }));
}

#[test]
fn token_budget_keeps_a_short_conversation() {
    let mut messages = vec![AgentMessage::system("sys"), AgentMessage::user("hello")];
    let transformer = TokenBudgetTransformer { max_tokens: 2 };
    assert!(transformer.can_trim(&messages));
    assert!(transformer.transform(&mut messages).is_ok());
    assert_eq!(messages.len(), 2);
}

#[test]
fn token_budget_may_leave_only_the_system_messages() {
    let transformer = TokenBudgetTransformer { max_tokens: 1 };
    let mut messages = vec![AgentMessage::user("hello")];
    assert!(transformer.can_trim(&messages));
    assert!(transformer.transform(&mut messages).is_ok());
    assert!(messages.is_empty());
    let mut messages =
        vec![AgentMessage::system("sys"), AgentMessage::user("a"), AgentMessage::user("hello")];
    assert!(transformer.transform(&mut messages).is_ok());
    assert_eq!(messages.len(), 1);
    assert!(matches!(&messages[0], AgentMessage::System { .. }));
}

#[test]
fn token_budget_must_hold_the_system_messages() {
    let messages = vec![AgentMessage::system("a long system prompt"), AgentMessage::user("x")];
    assert!(!TokenBudgetTransformer { max_tokens: 1 }.can_trim(&messages));
}

#[test]
fn converter_keeps_roles_and_ids() {
    let messages = vec![
        AgentMessage::system("sys"),
        AgentMessage::user("question"),
        AgentMessage::assistant_tool_calls(vec![ToolCall {
            id: "call_1".to_string(),
            name: "bash".to_string(),
            arguments: "{}".to_string(),
        }]),
        AgentMessage::tool_result("call_1", "done"),
        AgentMessage::assistant_text("answer"),
    ];
    let out = DefaultConverter.convert(&messages);
    let roles: Vec<&str> = out.iter().map(|m| m.role.as_str()).collect();
    assert_eq!(roles, vec!["system", "user", "assistant", "tool", "assistant"]);
    assert_eq!(out[2].tool_calls.len(), 1);
    assert_eq!(out[2].tool_calls[0].call_type, "function");
    assert_eq!(out[2].tool_calls[0].function.name, "bash");
    assert_eq!(out[3].tool_call_id.as_deref(), Some("call_1"));
    assert_eq!(out[4].content.as_deref(), Some("answer"));
}

// ---------------------------------------------------------------------------
// Messages, usage and errors
// ---------------------------------------------------------------------------

#[test]
fn tool_result_message_with_error() {
    let msg = AgentMessage::tool_result_with_error("call_1", "boom", true);
    match msg {
        AgentMessage::ToolResult { is_error, .. } => assert!(is_error),
        _ => panic!("expected ToolResult"),
    }
}

#[test]
fn assistant_message_carries_usage_and_stop_reason() {
    let msg = AgentMessage::Assistant {
        content: Some("hi".into()),
        tool_calls: vec![],
        thinking: Some("...".into()),
        usage: Some(Usage { input: 5, output: 7, ..Default::default() }),
        stop_reason: Some(StopReason::Stop),
    };
    match msg {
        AgentMessage::Assistant { usage, stop_reason, thinking, .. } => {
            assert_eq!(usage.unwrap().output, 7);
            assert!(matches!(stop_reason, Some(StopReason::Stop)));
            assert_eq!(thinking.as_deref(), Some("..."));
        }
        _ => panic!("expected Assistant"),
    }
}

#[test]
fn effective_total_uses_native_when_present() {
    let u = Usage { input: 10, output: 20, total: 99, ..Default::default() };
    assert_eq!(u.effective_total(), 99);
}

#[test]
fn effective_total_falls_back_to_sum() {
    let u = Usage { input: 10, output: 20, cache_read: 3, cache_write: 4, ..Default::default() };
    assert_eq!(u.effective_total(), 37);
}

#[test]
fn add_accumulates_tokens_and_costs() {
    let mut a = Usage { input: 100, output: 50, ..Default::default() };
    let b = Usage { input: 200, output: 60, ..Default::default() };
    a.add(&b);
    assert_eq!(a.input, 300);
    assert_eq!(a.output, 110);
}

#[test]
fn totals_add_up() {
    let mut a = Usage { input: 1, output: 2, total: 10, ..Default::default() };
    let b = Usage { input: 3, output: 4, cache_read: 5, cache_write: 6, total: 0 };
    let sum = a.effective_total() + b.effective_total();
    a.add(&b);
    assert_eq!(sum, 28);
    assert_eq!(a.effective_total(), sum);
}

#[test]
fn provider_error_displays_correctly() {
    let err = AgentError::Provider("API returned 429".into());
    assert_eq!(err.message(), "Provider error: API returned 429");
}

#[test]
fn cancelled_error_displays_correctly() {
    let err = AgentError::Cancelled;
    assert_eq!(err.message(), "Cancelled");
}

#[test]
fn serialization_error_converts() {
    let json_err = serde_json::from_str::<serde_json::Value>("not json");
    let json_err = json_err.unwrap_err();
    let why = json_err.to_string();
    let err = AgentError::from_json(json_err);
    let msg = err.message();
    assert_eq!(msg, format!("Serialization error: {}", why));
    assert!(msg.contains("Serialization error"));
    assert!(msg.len() > "Serialization error: ".len());
}

#[test]
fn thinking_levels_are_read_in_any_case() {
    assert!(matches!(ThinkingLevel::from_str_lossy("HIGH"), ThinkingLevel::High));
    assert!(matches!(ThinkingLevel::from_str_lossy("Medium"), ThinkingLevel::Medium));
    assert!(matches!(ThinkingLevel::from_str_lossy("nonsense"), ThinkingLevel::Off));
    assert!(!ThinkingLevel::Off.is_active());
    assert!(ThinkingLevel::Low.is_active());
    let budgets = ThinkingBudgets::default();
    assert!(budgets.budget_for(ThinkingLevel::Off).is_none());
    assert_eq!(budgets.budget_for(ThinkingLevel::High), Some(budgets.high));
}

// ---------------------------------------------------------------------------
// A run
// ---------------------------------------------------------------------------

/// Answers every request with the next script, and runs every tool as an echo.
struct Script {
    scripts: Vec<Vec<LlmStreamEvent>>,
    events: Vec<AgentEvent>,
    requests: usize,
}

impl Script {
    fn new(scripts: Vec<Vec<LlmStreamEvent>>) -> Self {
        Script { scripts, events: vec![], requests: 0 }
    }

    fn drive(&mut self, agent: &mut Agent, started: AgentEvent) -> Result<AgentResult, AgentError> {
        self.events.push(started);
        loop {
            let (action, events) = agent.begin_turn(false);
            self.events.extend(events);
            match action {
                RunAction::Request { .. } => {}
                RunAction::Finished { result } => return Ok(result),
                RunAction::Failed { error } => return Err(error),
                _ => panic!("unexpected action at the start of a turn"),
            }
            let pieces = if self.scripts.is_empty() { vec![] } else { self.scripts.remove(0) };
            self.requests += 1;
            self.events.push(agent.stream_opened());
            for piece in pieces {
                let (action, events) = agent.receive(Ok(piece), false);
                self.events.extend(events);
                if matches!(action, RunAction::Conclude) {
                    break;
                }
            }
            let (action, events) = agent.conclude();
            self.events.extend(events);
            match action {
                RunAction::NextTurn => {}
                RunAction::Execute { calls } => {
                    let results = calls
                        .iter()
                        .map(|c| ToolResult {
                            call_id: c.id.clone(),
                            tool_name: c.name.clone(),
                            content: c.arguments.clone(),
                            is_error: false,
                        })
                        .collect();
                    let events = agent.take_results(results);
                    self.events.extend(events);
                }
                RunAction::Finished { result } => return Ok(result),
                RunAction::Failed { error } => return Err(error),
                _ => panic!("unexpected action at the end of an answer"),
            }
        }
    }

    fn process(&mut self, agent: &mut Agent, text: &str) -> Result<AgentResult, AgentError> {
        let started = agent.process(text);
        self.drive(agent, started)
    }

    fn prompt(&mut self, agent: &mut Agent, text: &str) -> Result<AgentResult, AgentError> {
        let started = agent.prompt(text);
        self.drive(agent, started)
    }
}

fn says(text: &str) -> Vec<LlmStreamEvent> {
    vec![
        LlmStreamEvent::TextDelta(text.to_string()),
        LlmStreamEvent::Done { stop_reason: StopReason::Stop },
    ]
}

fn calls_echo() -> Vec<LlmStreamEvent> {
    vec![
        LlmStreamEvent::ToolCallStart { index: 0, id: "call_1".into(), name: "echo".into() },
        LlmStreamEvent::ToolCallDelta { index: 0, arguments_delta: "{\"text\":".into() },
        LlmStreamEvent::ToolCallDelta { index: 0, arguments_delta: "\"ping\"}".into() },
        LlmStreamEvent::ToolCallEnd { index: 0 },
        LlmStreamEvent::Done { stop_reason: StopReason::ToolCalls },
    ]
}

fn test_agent() -> Agent {
    match AgentBuilder::new().provider("mock").model("test").build() {
        Ok(agent) => agent,
        Err(_) => panic!("the agent has a provider"),
    }
}

#[test]
fn a_request_goes_to_the_model_of_the_agent() {
    let mut agent = test_agent();
    agent.process("hi");
    let (messages, thinking) = match agent.begin_turn(false).0 {
        RunAction::Request { messages, thinking } => (messages, thinking),
        _ => panic!("a turn begins with a request"),
    };
    let count = messages.len();
    let tools = ToolExecutor::new().tool_specs();
    let request = agent.request_for(messages, thinking, tools);
    assert_eq!(request.model, "test");
    assert_eq!(request.messages.len(), count);
    assert!(request.tools.is_empty());
    assert!(request.thinking.is_none());
    assert!(request.max_tokens.is_none());
}

fn text_of(result: Result<AgentResult, AgentError>) -> String {
    match result {
        Ok(r) => r.text,
        Err(e) => panic!("{}", e.message()),
    }
}

#[test]
fn agent_returns_text_response() {
    let mut agent = test_agent();
    let mut script = Script::new(vec![says("Hello!")]);
    assert_eq!(text_of(script.process(&mut agent, "Say hello")), "Hello!");
}

#[test]
fn agent_tool_call_loop() {
    let mut agent = test_agent();
    let mut script = Script::new(vec![calls_echo(), says("Echo: ping")]);
    let result = match script.process(&mut agent, "Test") {
        Ok(r) => r,
        Err(e) => panic!("{}", e.message()),
    };
    assert_eq!(result.text, "Echo: ping");
    assert_eq!(result.actions.len(), 1);
    assert!(result.actions[0].success);
    assert_eq!(result.actions[0].tool_name, "echo");
    assert_eq!(result.actions[0].output_preview, "{\"text\":\"ping\"}");
    // user, assistant with the call, tool result, assistant with the answer
    assert_eq!(agent.message_count(), 4);
}

#[test]
fn agent_emits_events() {
    let mut agent = test_agent();
    let mut script = Script::new(vec![says("Hi")]);
    assert!(script.process(&mut agent, "Hello").is_ok());
    let events = &script.events;
    assert!(events.len() >= 4);
    assert!(matches!(&events[0], AgentEvent::AgentStart));
    assert!(matches!(&events[1], AgentEvent::TurnStart { .. }));
    assert!(matches!(&events[2], AgentEvent::MessageStart));
    assert!(matches!(&events[3], AgentEvent::MessageUpdate { .. }));
    assert!(matches!(&events[events.len() - 2], AgentEvent::MessageEnd { .. }));
    assert!(matches!(&events[events.len() - 1], AgentEvent::AgentEnd { .. }));
}

#[test]
fn agent_builder_default_system_prompt() {
    let mut agent = test_agent();
    assert!(agent.system_prompt.contains("VoxClaw Agent"));
    let mut script = Script::new(vec![says("OK")]);
    assert!(script.process(&mut agent, "hi").is_ok());
}

#[test]
fn agent_builder_custom_system_prompt() {
    let built = AgentBuilder::new()
        .provider("mock")
        .model("test")
        .system_prompt("You are a custom assistant.")
        .build();
    let mut agent = match built {
        Ok(agent) => agent,
        Err(_) => panic!("the agent has a provider"),
    };
    assert_eq!(agent.system_prompt, "You are a custom assistant.");
    let started = agent.process("hi");
    assert!(matches!(started, AgentEvent::AgentStart));
    match agent.begin_turn(false).0 {
        RunAction::Request { messages, .. } => {
            assert_eq!(messages[0].role, "system");
            assert_eq!(messages[0].content.as_deref(), Some("You are a custom assistant."));
            assert_eq!(messages[1].content.as_deref(), Some("hi"));
        }
        _ => panic!("expected a request"),
    }
}

#[test]
fn agent_builder_requires_provider() {
    let result = AgentBuilder::new().model("test").build();
    assert!(result.is_err());
    match result {
        Err(e) => assert_eq!(e.message(), "Provider error: Agent requires a provider"),
        Ok(_) => panic!("no provider was given"),
    }
}

#[test]
fn prompt_accumulates_history_across_calls() {
    let mut agent = test_agent();
    let mut script = Script::new(vec![says("first"), says("second"), says("third")]);
    assert_eq!(text_of(script.prompt(&mut agent, "a")), "first");
    assert_eq!(text_of(script.prompt(&mut agent, "b")), "second");
    assert_eq!(text_of(script.prompt(&mut agent, "c")), "third");
    // 3 user + 3 assistant = 6 messages
    assert_eq!(agent.message_count(), 6);
}

#[test]
fn followup_triggers_extra_run_cycle() {
    let mut agent = test_agent();
    let mut script = Script::new(vec![says("ack"), says("ack2")]);
    agent.follow_up("queued");
    // The run goes on with what was queued.
    assert_eq!(text_of(script.prompt(&mut agent, "first")), "ack2");
    // user(first) + assistant(ack) + user(queued follow-up) + assistant(ack2)
    assert_eq!(agent.message_count(), 4);
}

#[test]
fn on_message_callback_fires() {
    let mut agent = test_agent();
    let mut script = Script::new(vec![says("hi")]);
    assert!(script.prompt(&mut agent, "hello").is_ok());
    // The user message and the reply are what a listener is told of.
    let captured = agent.take_appended();
    assert_eq!(captured.len(), 2);
    assert!(matches!(&captured[0], AgentMessage::User { .. }));
    assert!(matches!(&captured[1], AgentMessage::Assistant { .. }));
    assert!(agent.take_appended().is_empty());
}

#[test]
fn seeded_messages_are_not_handed_out() {
    let mut agent = test_agent();
    let mut script = Script::new(vec![says("hi")]);
    agent.seed_messages(vec![AgentMessage::user("earlier")]);
    assert!(agent.take_appended().is_empty());
    assert!(script.prompt(&mut agent, "hello").is_ok());
    assert_eq!(agent.message_count(), 3);
    assert_eq!(agent.take_appended().len(), 2);
}

#[test]
fn processing_forgets_the_conversation() {
    let mut agent = test_agent();
    let mut script = Script::new(vec![says("one"), says("two")]);
    assert!(script.prompt(&mut agent, "a").is_ok());
    assert!(script.process(&mut agent, "b").is_ok());
    assert_eq!(agent.message_count(), 2);
}

#[test]
fn a_run_ends_after_its_last_turn() {
    let built = AgentBuilder::new().provider("mock").model("test").max_iterations(2).build();
    let mut agent = match built {
        Ok(agent) => agent,
        Err(_) => panic!("the agent has a provider"),
    };
    let mut script = Script::new(vec![calls_echo(), calls_echo(), says("never asked")]);
    match script.process(&mut agent, "go") {
        Ok(_) => {}
        Err(e) => assert_eq!(e.message(), AgentError::MaxIterationsReached(2).message()),
    }
    assert_eq!(script.requests, 2);
}

#[test]
fn a_cancelled_run_fails() {
    let mut agent = test_agent();
    let _ = agent.prompt("a");
    assert!(matches!(
        agent.begin_turn(true).0,
        RunAction::Failed { error: AgentError::Cancelled }
    ));
    let _ = agent.continue_run();
    assert!(matches!(agent.begin_turn(false).0, RunAction::Request { .. }));
    assert!(matches!(
        agent.receive(Ok(LlmStreamEvent::TextDelta("x".to_string())), true).0,
        RunAction::Failed { error: AgentError::Cancelled }
    ));
}

#[test]
fn a_broken_answer_fails_the_run() {
    let mut agent = test_agent();
    let _ = agent.prompt("a");
    assert!(matches!(agent.begin_turn(false).0, RunAction::Request { .. }));
    let (action, events) = agent.receive(Err(AgentError::Http("lost".to_string())), false);
    assert!(matches!(action, RunAction::Failed { error: AgentError::Http(_) }));
    assert_eq!(events.len(), 1);
    assert!(matches!(&events[0], AgentEvent::Error { .. }));
}

#[test]
fn steering_is_taken_one_at_a_time() {
    let mut agent = test_agent();
    agent.set_queue_mode(QueueMode::OneAtATime);
    agent.steer("s1");
    agent.steer("s2");
    let _ = agent.prompt("a");
    let _ = agent.begin_turn(false);
    assert_eq!(agent.message_count(), 2);
    assert_eq!(agent.steering_queue.len(), 1);
}

#[test]
fn steering_is_taken_at_once() {
    let mut agent = test_agent();
    agent.set_queue_mode(QueueMode::All);
    agent.steer("s1");
    agent.steer("s2");
    let _ = agent.prompt("a");
    let _ = agent.begin_turn(false);
    assert_eq!(agent.message_count(), 3);
    assert_eq!(agent.steering_queue.len(), 0);
}

#[test]
fn a_transformer_shapes_the_request_only() {
    let built = AgentBuilder::new()
        .provider("mock")
        .model("test")
        .context_transformer(Transformer::Truncation(TruncationTransformer { max_messages: 2 }))
        .thinking(ThinkingConfig { level: ThinkingLevel::Low, budget_tokens: None })
        .build();
    let mut agent = match built {
        Ok(agent) => agent,
        Err(_) => panic!("the agent has a provider"),
    };
    agent.seed_messages(vec![
        AgentMessage::user("old"),
        AgentMessage::assistant_text("older reply"),
    ]);
    let _ = agent.prompt("new");
    match agent.begin_turn(false).0 {
        RunAction::Request { messages, thinking } => {
            // The system prompt goes before what is left of the conversation.
            assert_eq!(messages.len(), 3);
            assert_eq!(messages[0].role, "system");
            assert_eq!(messages[1].content.as_deref(), Some("older reply"));
            assert_eq!(messages[2].content.as_deref(), Some("new"));
            assert!(thinking.is_some());
        }
        _ => panic!("expected a request"),
    }
    assert_eq!(agent.message_count(), 3);
}

// ---------------------------------------------------------------------------
// History
// ---------------------------------------------------------------------------

fn entry(n: usize) -> AgentHistoryEntry {
    AgentHistoryEntry {
        timestamp: format!("t{}", n),
        user_input: format!("ask {}", n),
        agent_output: format!("answer {}", n),
        tool_summaries: vec![],
    }
}

#[test]
fn history_is_bounded() {
    let mut entries: Vec<AgentHistoryEntry> = vec![];
    for n in 0..MAX_ENTRIES + 7 {
        entries = append_entry(entries, entry(n));
    }
    assert_eq!(entries.len(), MAX_ENTRIES);
    assert_eq!(entries[entries.len() - 1].user_input, format!("ask {}", MAX_ENTRIES + 6));
    let recent = read_recent(entries, 3);
    assert_eq!(recent.len(), 3);
    assert!(recent.iter().any(|e| e.user_input == format!("ask {}", MAX_ENTRIES + 6)));
}

#[test]
fn no_history_gives_no_context() {
    assert_eq!(format_as_context(&vec![]), "");
    let context = format_as_context(&vec![entry(1)]);
    assert!(context.contains("ask 1"));
    assert!(context.contains("answer 1"));
    assert!(history_path("data").starts_with("data"));
}

// ---------------------------------------------------------------------------
// Sessions
// ---------------------------------------------------------------------------

fn message(m: AgentMessage) -> SessionEntryKind {
    SessionEntryKind::Message { message: m }
}

fn write(store: &mut SessionStore, log: &mut SessionLog, kind: SessionEntryKind) -> Option<String> {
    let entry: SessionEntry = store.next_entry(kind);
    let parent = entry.parent_id.clone();
    store.append(&entry);
    log.lines.push(LogLine::Entry(entry));
    parent
}

#[test]
fn create_append_replay() {
    let (mut store, header) = SessionStore::create("data", None, None);
    assert_eq!(header.version, SESSION_FORMAT_VERSION);
    assert_eq!(header.session_id, store.session_id);
    let mut log = SessionLog { header: Some(header), lines: vec![] };
    write(&mut store, &mut log, message(AgentMessage::user("hi")));
    write(&mut store, &mut log, message(AgentMessage::assistant_text("hello")));
    let messages = store.replay_messages(&log);
    assert_eq!(messages.len(), 2);
    assert!(matches!(&messages[1], AgentMessage::Assistant { content: Some(t), .. } if t == "hello"));
}

#[test]
fn open_resumes_chain() {
    let (mut store, header) = SessionStore::create("data", None, None);
    let session_id = header.session_id.clone();
    let mut log = SessionLog { header: Some(header), lines: vec![] };
    let first = write(&mut store, &mut log, message(AgentMessage::user("first")));
    assert!(first.is_none());
    let mut reopened = SessionStore::open("data", &session_id, &log);
    let second = write(&mut reopened, &mut log, message(AgentMessage::user("second")));
    assert!(second.is_some(), "second entry should chain off first");
    let all = reopened.replay_messages(&log);
    assert_eq!(all.len(), 2);
}

#[test]
fn list_sessions_sorted() {
    let summary = |id: &str, at: &str| SessionSummary {
        session_id: id.to_string(),
        created_at: at.to_string(),
        entry_count: 0,
        last_user_text: None,
        last_assistant_text: None,
    };
    let found = vec![
        summary("a", "2025-01-01T00:00:00Z"),
        summary("b", "2025-01-01T00:00:01Z"),
    ];
    let summaries = list_sessions(&found);
    assert_eq!(summaries.len(), 2);
    assert!(summaries[0].created_at >= summaries[1].created_at);
    assert_eq!(summaries[0].session_id, "b");
}

#[test]
fn unreadable_lines_are_passed_over() {
    let (mut store, header) = SessionStore::create("data", Some("here".to_string()), None);
    assert_eq!(header.cwd.as_deref(), Some("here"));
    let mut log = SessionLog { header: Some(header), lines: vec![LogLine::Other] };
    write(&mut store, &mut log, message(AgentMessage::user("question")));
    log.lines.push(LogLine::Other);
    let kind = SessionEntryKind::ThinkingLevelChange { level: "high".to_string() };
    write(&mut store, &mut log, kind);
    write(&mut store, &mut log, message(AgentMessage::assistant_text("answer")));
    assert_eq!(store.replay_messages(&log).len(), 2);
    let summary = match read_summary(&log) {
        Some(s) => s,
        None => panic!("the log has a header"),
    };
    assert_eq!(summary.last_user_text.as_deref(), Some("question"));
    assert_eq!(summary.last_assistant_text.as_deref(), Some("answer"));
    assert!(read_summary(&SessionLog { header: None, lines: vec![] }).is_none());
}

#[test]
fn logs_are_read_line_by_line() {
    let lines = vec!["{1}".to_string(), "{2}".to_string()];
    assert_eq!(stored_lines("{1}\n\n  \r\n{2}\n"), lines);
    assert_eq!(stored_text(&lines), "{1}\n{2}\n");
    assert_eq!(stored_lines(&stored_text(&lines)), lines);
    assert_eq!(split_log("head\n{1}\n \n{2}"), (Some("head".to_string()), lines));
    assert_eq!(split_log("head\n{1}\n{2}\n{3}\n").1.len(), 3);
    assert_eq!(split_log(""), (None, vec![]));
    assert_eq!(split_log("\nx").0.as_deref(), Some(""));
}

#[test]
fn session_ids_and_entry_ids_differ() {
    let (a, first) = SessionStore::create("data", None, None);
    let (b, _) = SessionStore::create("data", None, None);
    assert_ne!(a.session_id, b.session_id);
    assert!(a.path().contains(&a.session_id));
    assert!(first.created_at.contains('T'));
    let e1 = a.next_entry(message(AgentMessage::user("x")));
    let e2 = a.next_entry(message(AgentMessage::user("x")));
    assert_ne!(e1.id, e2.id);
}

#[test]
fn tool_result_messages_hold_their_text() {
    match AgentMessage::tool_result("call_9", "out") {
        AgentMessage::ToolResult { tool_call_id, content: ToolResultContent::Text(t), is_error } => {
            assert_eq!(tool_call_id, "call_9");
            assert_eq!(t, "out");
            assert!(!is_error);
        }
        _ => panic!("expected a text result"),
    }
}
