//! The run loop of the agent.
//!
//! A run takes turns with the application. The agent names the request that is to be
//! sent or the tools that are to be called; the application does it and reports the
//! answer piece by piece, and the results.
use vstd::prelude::*;

use crate::text;

use super::context;
use super::context::{
    ContextTransformer, DefaultConverter, TokenBudgetTransformer, TruncationTransformer,
};
use super::error::AgentError;
use super::event;
use super::event::{ActionModel, AgentEvent, EventModel, MessageUpdateContent, UpdateModel};
use super::message;
use super::message::{
    ActionSummary, AgentMessage, AgentResult, MessageModel, ToolCall, ToolCallModel, ToolResult,
};
use super::request;
use super::request::{
    LlmMessage, LlmMessageModel, LlmRequest, LlmStreamEvent, LlmTool, StopReason,
    ThinkingConfig, ThinkingLevel,
};
use super::tool::ExecutionMode;
use super::usage::Usage;

verus! {

/// How messages that wait for their turn are let in.
#[derive(Clone, Copy, Debug, PartialEq, Eq, Structural)]
pub enum QueueMode {
    /// All at once.
    All,
    /// One at each opportunity.
    OneAtATime,
}

impl Default for QueueMode {
    fn default() -> (r: Self)
        ensures
            r == QueueMode::All,
    {
        QueueMode::All
    }
}

/// A step of the way from the conversation to the request.
pub enum Transformer {
    Truncation(TruncationTransformer),
    TokenBudget(TokenBudgetTransformer),
}

impl Transformer {
    pub open spec fn accepts(self, ms: Seq<MessageModel>) -> bool {
        match self {
            Transformer::Truncation(t) => t.accepts(ms),
            Transformer::TokenBudget(t) => t.accepts(ms),
        }
    }

    pub open spec fn transformed(self, ms: Seq<MessageModel>) -> Seq<MessageModel> {
        match self {
            Transformer::Truncation(t) => t.transformed(ms),
            Transformer::TokenBudget(t) => t.transformed(ms),
        }
    }
}

/// The conversation after all steps.
pub open spec fn piped(steps: Seq<Transformer>, ms: Seq<MessageModel>) -> Seq<MessageModel>
    decreases steps.len(),
{
    if steps.len() == 0 {
        ms
    } else {
        piped(steps.drop_first(), steps[0].transformed(ms))
    }
}

/// Each step can do its work.
pub open spec fn pipe_accepts(steps: Seq<Transformer>, ms: Seq<MessageModel>) -> bool
    decreases steps.len(),
{
    steps.len() == 0 || (steps[0].accepts(ms) && pipe_accepts(
        steps.drop_first(),
        steps[0].transformed(ms),
    ))
}

/// Sends a conversation through all steps. Fails where the system messages are too much
/// for a token budget.
fn pipe(steps: &Vec<Transformer>, messages: &Vec<AgentMessage>) -> (r: Result<
    Vec<AgentMessage>,
    AgentError,
>)
    ensures
        r is Ok <==> pipe_accepts(steps@, message::message_views(messages@)),
        r matches Ok(out) ==> message::message_views(out@) == piped(
            steps@,
            message::message_views(messages@),
        ),
        r matches Err(e) ==> e is Context,
{
    let mut out = messages.clone();
    let ghost ms = message::message_views(messages@);
    assert(message::message_views(out@) =~= ms);
    assert(steps@.skip(0) =~= steps@);
    for i in 0..steps.len()
        invariant
            ms == message::message_views(messages@),
            piped(steps@, ms) == piped(steps@.skip(i as int), message::message_views(out@)),
            pipe_accepts(steps@, ms) == pipe_accepts(
                steps@.skip(i as int),
                message::message_views(out@),
            ),
    {
        assert(steps@.skip(i as int)[0] == steps@[i as int]);
        assert(steps@.skip(i as int).drop_first() =~= steps@.skip(i + 1));
        match &steps[i] {
            Transformer::Truncation(t) => {
                let _ = t.transform(&mut out);
            },
            Transformer::TokenBudget(t) => {
                if !t.can_trim(&out) {
                    return Err(
                        AgentError::Context(
                            "system messages exceed the token budget".to_string(),
                        ),
                    );
                }
                let _ = t.transform(&mut out);
            },
        }
    }
    Ok(out)
}

/// What is let in from a queue, and what stays in it.
pub open spec fn drained(queue: Seq<MessageModel>, mode: QueueMode) -> (
    Seq<MessageModel>,
    Seq<MessageModel>,
) {
    match mode {
        QueueMode::All => (queue, seq![]),
        QueueMode::OneAtATime => if queue.len() == 0 {
            (seq![], seq![])
        } else {
            (seq![queue[0]], queue.drop_first())
        },
    }
}

fn drain_queue(queue: &mut Vec<AgentMessage>, mode: QueueMode) -> (r: Vec<AgentMessage>)
    ensures
        (message::message_views(r@), message::message_views(final(queue)@)) == drained(
            message::message_views(old(queue)@),
            mode,
        ),
{
    let mut out: Vec<AgentMessage> = Vec::new();
    let ghost before = message::message_views(queue@);
    match mode {
        QueueMode::All => {
            out.append(queue);
        },
        QueueMode::OneAtATime => {
            if queue.len() > 0 {
                let first = queue.remove(0);
                out.push(first);
            }
        },
    }
    assert(message::message_views(out@) =~= drained(before, mode).0);
    assert(message::message_views(queue@) =~= drained(before, mode).1);
    out
}

/// What is shown of a tool's output: its first 500 characters.
pub open spec fn output_preview(content: Seq<char>) -> Seq<char> {
    if content.len() > 500 {
        content.take(500) + "..."@
    } else {
        content
    }
}

fn preview_output(content: &str) -> (r: String)
    ensures
        r@ == output_preview(content@),
{
    if content.unicode_len() > 500 {
        let head = text::take_chars(content, 500);
        text::concat2(head.as_str(), "...")
    } else {
        content.to_string()
    }
}

// ---------------------------------------------------------------------------
// The agent
// ---------------------------------------------------------------------------

/// An agent in the making.
pub struct AgentBuilder {
    pub model: String,
    /// The kind of provider, once there is one.
    pub provider: Option<String>,
    pub system_prompt: Option<String>,
    pub thinking: ThinkingConfig,
    pub transformers: Vec<Transformer>,
    pub max_iterations: u32,
    pub execution_mode: ExecutionMode,
}

impl AgentBuilder {
    pub fn new() -> (r: Self)
        ensures
            r.model@ == Seq::<char>::empty(),
            r.provider is None,
            r.system_prompt is None,
            r.thinking == (ThinkingConfig { level: ThinkingLevel::Off, budget_tokens: None }),
            r.transformers@ == Seq::<Transformer>::empty(),
            r.max_iterations == 10,
            r.execution_mode == ExecutionMode::Sequential,
    {
        AgentBuilder {
            model: String::new(),
            provider: None,
            system_prompt: None,
            thinking: ThinkingConfig { level: ThinkingLevel::Off, budget_tokens: None },
            transformers: Vec::new(),
            max_iterations: 10,
            execution_mode: ExecutionMode::Sequential,
        }
    }

    pub fn model(self, model: &str) -> (r: Self)
        ensures
            r.model@ == model@,
            r == (AgentBuilder { model: r.model, ..self }),
    {
        let mut r = self;
        r.model = model.to_string();
        r
    }

    pub fn provider(self, provider: &str) -> (r: Self)
        ensures
            text::opt_text(r.provider) == Some(provider@),
            r == (AgentBuilder { provider: r.provider, ..self }),
    {
        let mut r = self;
        r.provider = Some(provider.to_string());
        r
    }

    pub fn thinking(self, config: ThinkingConfig) -> (r: Self)
        ensures
            r == (AgentBuilder { thinking: config, ..self }),
    {
        let mut r = self;
        r.thinking = config;
        r
    }

    pub fn context_transformer(self, t: Transformer) -> (r: Self)
        ensures
            r.transformers@ == self.transformers@.push(t),
            r == (AgentBuilder { transformers: r.transformers, ..self }),
    {
        let mut r = self;
        r.transformers.push(t);
        r
    }

    pub fn max_iterations(self, n: u32) -> (r: Self)
        ensures
            r == (AgentBuilder { max_iterations: n, ..self }),
    {
        let mut r = self;
        r.max_iterations = n;
        r
    }

    pub fn execution_mode(self, mode: ExecutionMode) -> (r: Self)
        ensures
            r == (AgentBuilder { execution_mode: mode, ..self }),
    {
        let mut r = self;
        r.execution_mode = mode;
        r
    }

    pub fn system_prompt(self, prompt: &str) -> (r: Self)
        ensures
            text::opt_text(r.system_prompt) == Some(prompt@),
            r == (AgentBuilder { system_prompt: r.system_prompt, ..self }),
    {
        let mut r = self;
        r.system_prompt = Some(prompt.to_string());
        r
    }

    /// The agent, unless it lacks a provider.
    pub fn build(self) -> (r: Result<Agent, AgentError>)
        ensures
            r is Ok <==> self.provider is Some,
            r matches Err(e) ==> e matches AgentError::Provider(m) && m@
                == "Agent requires a provider"@,
            r matches Ok(a) ==> {
                &&& a.wf()
                &&& a.phase is Resting
                &&& a.system_prompt@ == (match self.system_prompt {
                    Some(p) => p@,
                    None => message::default_prompt(),
                })
                &&& a.model == self.model
                &&& a.thinking == self.thinking
                &&& a.transformers == self.transformers
                &&& a.max_iterations == self.max_iterations
                &&& a.execution_mode == self.execution_mode
                &&& a.run() == (RunModel {
                    messages: seq![],
                    reported: 0,
                    steering: seq![],
                    followup: seq![],
                    queue_mode: QueueMode::All,
                    next_turn: 0,
                    text: seq![],
                    calls: seq![],
                    stop: StopReason::Stop,
                    usage: None,
                    final_text: seq![],
                    actions: seq![],
                })
            },
    {
        if self.provider.is_none() {
            return Err(AgentError::Provider("Agent requires a provider".to_string()));
        }
        let agent = Agent {
            system_prompt: match self.system_prompt {
                Some(p) => p,
                None => message::default_system_prompt().to_string(),
            },
            model: self.model,
            thinking: self.thinking,
            transformers: self.transformers,
            max_iterations: self.max_iterations,
            execution_mode: self.execution_mode,
            messages: Vec::new(),
            reported: 0,
            steering_queue: Vec::new(),
            followup_queue: Vec::new(),
            queue_mode: QueueMode::All,
            phase: Phase::Resting,
            next_turn: 0,
            text: String::new(),
            calls: Vec::new(),
            stop_reason: StopReason::Stop,
            usage: None,
            final_text: String::new(),
            actions: Vec::new(),
        };
        assert(agent.run().messages =~= seq![]);
        assert(agent.run().calls =~= seq![]);
        assert(agent.run().actions =~= seq![]);
        Ok(agent)
    }
}

impl Default for AgentBuilder {
    fn default() -> (r: Self)
        ensures
            r.model@ == Seq::<char>::empty(),
            r.provider is None,
            r.system_prompt is None,
            r.thinking == (ThinkingConfig { level: ThinkingLevel::Off, budget_tokens: None }),
            r.transformers@ == Seq::<Transformer>::empty(),
            r.max_iterations == 10,
            r.execution_mode == ExecutionMode::Sequential,
    {
        AgentBuilder::new()
    }
}

/// Where a run stands.
#[derive(Clone, Copy, PartialEq, Eq, Structural)]
pub enum Phase {
    /// No run is under way.
    Resting,
    /// Between two turns.
    Between,
    /// An answer is coming in.
    Streaming,
    /// Tools are being called.
    Executing,
}

/// The AI agent.
pub struct Agent {
    pub system_prompt: String,
    pub model: String,
    pub thinking: ThinkingConfig,
    pub transformers: Vec<Transformer>,
    pub max_iterations: u32,
    pub execution_mode: ExecutionMode,
    /// The conversation.
    pub messages: Vec<AgentMessage>,
    /// The number of messages of the conversation that have been handed out.
    pub reported: usize,
    /// Messages that are let in before the next turn.
    pub steering_queue: Vec<AgentMessage>,
    /// Messages that are let in when the agent would stop.
    pub followup_queue: Vec<AgentMessage>,
    pub queue_mode: QueueMode,
    pub phase: Phase,
    /// The number of turns of the run that have begun.
    pub next_turn: u32,
    /// The answer of the turn so far.
    pub text: String,
    pub calls: Vec<ToolCall>,
    pub stop_reason: StopReason,
    pub usage: Option<Usage>,
    /// What the run has come to so far.
    pub final_text: String,
    pub actions: Vec<ActionSummary>,
}

/// What changes about an agent while it works.
#[verifier::ext_equal]
pub struct RunModel {
    pub messages: Seq<MessageModel>,
    pub reported: nat,
    pub steering: Seq<MessageModel>,
    pub followup: Seq<MessageModel>,
    pub queue_mode: QueueMode,
    pub next_turn: u32,
    pub text: Seq<char>,
    pub calls: Seq<ToolCallModel>,
    pub stop: StopReason,
    pub usage: Option<Usage>,
    pub final_text: Seq<char>,
    pub actions: Seq<ActionModel>,
}

/// What the application is to do next.
pub enum RunAction {
    /// Start the next turn.
    NextTurn,
    /// Send a request with these messages.
    Request { messages: Vec<LlmMessage>, thinking: Option<ThinkingConfig> },
    /// Go on reading the answer.
    Read,
    /// The answer is complete.
    Conclude,
    /// Call these tools.
    Execute { calls: Vec<ToolCall> },
    Finished { result: AgentResult },
    Failed { error: AgentError },
}

/// The event at the end of a run.
pub open spec fn end_event(m: RunModel) -> EventModel {
    EventModel::AgentEnd { text: m.final_text, actions: m.actions }
}

/// `action` hands out what the run has come to.
pub open spec fn hands_out(action: RunAction, m: RunModel) -> bool {
    action matches RunAction::Finished { result } && result.text@ == m.final_text
        && event::action_views(result.actions@) == m.actions
}

/// The run once the messages that steer it have been let in and a new turn has begun.
pub open spec fn turn_begun(m: RunModel) -> RunModel {
    let (inside, outside) = drained(m.steering, m.queue_mode);
    RunModel {
        messages: m.messages + inside,
        steering: outside,
        next_turn: (m.next_turn + 1) as u32,
        text: seq![],
        calls: seq![],
        stop: StopReason::Stop,
        usage: None,
        ..m
    }
}

/// The run after a piece of an answer.
pub open spec fn after_piece(m: RunModel, e: LlmStreamEvent) -> RunModel {
    match e {
        LlmStreamEvent::TextDelta(d) => RunModel { text: m.text + d@, ..m },
        LlmStreamEvent::ToolCallStart { index, id, name } => RunModel {
            calls: m.calls.push(ToolCallModel { id: id@, name: name@, arguments: seq![] }),
            ..m
        },
        LlmStreamEvent::ToolCallDelta { index, arguments_delta } => if index < m.calls.len() {
            let c = m.calls[index as int];
            RunModel {
                calls: m.calls.update(
                    index as int,
                    ToolCallModel { arguments: c.arguments + arguments_delta@, ..c },
                ),
                ..m
            }
        } else {
            m
        },
        LlmStreamEvent::Usage(u) => RunModel { usage: Some(u), ..m },
        LlmStreamEvent::Done { stop_reason } => RunModel { stop: stop_reason, ..m },
        _ => m,
    }
}

/// What is reported of a piece of an answer.
pub open spec fn piece_events(e: LlmStreamEvent) -> Seq<EventModel> {
    match e {
        LlmStreamEvent::TextDelta(d) => seq![
            EventModel::MessageUpdate { content: UpdateModel::TextDelta { text: d@ } },
        ],
        LlmStreamEvent::ThinkingDelta(c) => seq![EventModel::ThinkingDelta { content: c@ }],
        LlmStreamEvent::ToolCallStart { index, id, name } => seq![
            EventModel::MessageUpdate {
                content: UpdateModel::ToolCallStart { index, id: id@, name: name@ },
            },
        ],
        LlmStreamEvent::ToolCallDelta { index, arguments_delta } => seq![
            EventModel::MessageUpdate {
                content: UpdateModel::ToolCallDelta { index, arguments: arguments_delta@ },
            },
        ],
        _ => seq![],
    }
}

/// The answer of a turn as a message.
pub open spec fn answer_message(m: RunModel) -> MessageModel {
    MessageModel::Assistant {
        content: if m.text.len() == 0 {
            None
        } else {
            Some(m.text)
        },
        tool_calls: m.calls,
        thinking: None,
        usage: m.usage,
        stop_reason: Some(m.stop),
    }
}

/// The run after a turn without tool calls: the answer is the text of the run so far,
/// and the messages that waited for this moment are let in.
pub open spec fn turn_stopped(m: RunModel) -> RunModel {
    let (inside, outside) = drained(m.followup, m.queue_mode);
    let answer = if m.text.len() == 0 {
        seq![]
    } else {
        seq![answer_message(m)]
    };
    RunModel {
        messages: m.messages + answer + inside,
        followup: outside,
        final_text: m.text,
        ..m
    }
}

/// The messages of the conversation that have not been handed out.
pub open spec fn unreported(m: RunModel) -> Seq<MessageModel> {
    m.messages.skip(m.reported as int)
}

/// The run once all messages have been handed out.
pub open spec fn all_reported(m: RunModel) -> RunModel {
    RunModel { reported: m.messages.len(), ..m }
}

/// The report that a tool is being called.
pub open spec fn call_event(c: ToolCallModel) -> EventModel {
    EventModel::ToolExecutionStart { tool_name: c.name, call_id: c.id, args: c.arguments }
}

pub open spec fn call_events(calls: Seq<ToolCallModel>) -> Seq<EventModel> {
    calls.map_values(|c: ToolCallModel| call_event(c))
}

/// The run after the results of its tool calls.
pub open spec fn with_results(m: RunModel, results: Seq<ToolResult>) -> RunModel {
    RunModel {
        messages: m.messages + results.map_values(
            |r: ToolResult| message::result_message(r.call_id@, r.content@, false),
        ),
        actions: m.actions + results.map_values(
            |r: ToolResult|
                ActionModel {
                    tool_name: r.tool_name@,
                    success: !r.is_error,
                    output_preview: output_preview(r.content@),
                },
        ),
        ..m
    }
}

/// What is reported of the results.
pub open spec fn result_events(m: RunModel, results: Seq<ToolResult>) -> Seq<EventModel> {
    results.map_values(
        |r: ToolResult| EventModel::ToolExecutionEnd { call_id: r.call_id@, result: r },
    ).push(EventModel::TurnEnd { turn: (m.next_turn - 1) as u32 })
}

impl Agent {
    pub open spec fn run(self) -> RunModel {
        RunModel {
            messages: message::message_views(self.messages@),
            reported: self.reported as nat,
            steering: message::message_views(self.steering_queue@),
            followup: message::message_views(self.followup_queue@),
            queue_mode: self.queue_mode,
            next_turn: self.next_turn,
            text: self.text@,
            calls: message::tool_call_views(self.calls@),
            stop: self.stop_reason,
            usage: self.usage,
            final_text: self.final_text@,
            actions: event::action_views(self.actions@),
        }
    }

    /// What does not change about the agent while it works.
    pub open spec fn same_setup(self, other: Agent) -> bool {
        &&& self.system_prompt == other.system_prompt
        &&& self.model == other.model
        &&& self.thinking == other.thinking
        &&& self.transformers == other.transformers
        &&& self.max_iterations == other.max_iterations
        &&& self.execution_mode == other.execution_mode
    }

    /// No more turns have begun than are allowed, a turn that is under way has begun, and no
    /// more messages have been handed out than there are.
    pub open spec fn wf(self) -> bool {
        &&& self.next_turn <= self.max_iterations
        &&& self.reported <= self.messages@.len()
        &&& self.phase == Phase::Streaming || self.phase == Phase::Executing ==> self.next_turn > 0
    }

    /// Forgets the conversation and what waits in the queues.
    pub fn reset(&mut self)
        ensures
            final(self).wf(),
            final(self).phase is Resting,
            final(self).same_setup(*old(self)),
            final(self).run() == (RunModel {
                messages: seq![],
                reported: 0,
                steering: seq![],
                followup: seq![],
                next_turn: 0,
                ..old(self).run()
            }),
    {
        self.messages.clear();
        self.reported = 0;
        self.steering_queue.clear();
        self.followup_queue.clear();
        self.phase = Phase::Resting;
        self.next_turn = 0;
        assert(self.run() =~= (RunModel {
            messages: seq![],
            reported: 0,
            steering: seq![],
            followup: seq![],
            next_turn: 0,
            ..old(self).run()
        }));
    }

    pub fn set_queue_mode(&mut self, mode: QueueMode)
        requires
            old(self).wf(),
        ensures
            final(self).wf(),
            final(self).phase == old(self).phase,
            final(self).same_setup(*old(self)),
            final(self).run() == (RunModel { queue_mode: mode, ..old(self).run() }),
    {
        self.queue_mode = mode;
    }

    /// Starts from an earlier conversation, whose messages count as handed out.
    pub fn seed_messages(&mut self, msgs: Vec<AgentMessage>)
        requires
            old(self).wf(),
        ensures
            final(self).wf(),
            final(self).phase == old(self).phase,
            final(self).same_setup(*old(self)),
            final(self).run() == (RunModel {
                messages: message::message_views(msgs@),
                reported: msgs@.len(),
                ..old(self).run()
            }),
    {
        self.reported = msgs.len();
        self.messages = msgs;
    }

    /// Hands out the messages that were added to the conversation since the last time.
    pub fn take_appended(&mut self) -> (r: Vec<AgentMessage>)
        requires
            old(self).wf(),
        ensures
            final(self).wf(),
            final(self).phase == old(self).phase,
            final(self).same_setup(*old(self)),
            message::message_views(r@) == unreported(old(self).run()),
            final(self).run() == all_reported(old(self).run()),
    {
        let ghost m = self.run();
        let mut out: Vec<AgentMessage> = Vec::new();
        assert(message::message_views(out@) =~= m.messages.subrange(
            self.reported as int,
            self.reported as int,
        ));
        for i in self.reported..self.messages.len()
            invariant
                self.run() == m,
                m.reported <= m.messages.len() == self.messages@.len(),
                message::message_views(out@) == m.messages.subrange(m.reported as int, i as int),
        {
            let ghost before = message::message_views(out@);
            let copy = self.messages[i].clone();
            out.push(copy);
            assert(message::message_views(out@) =~= before.push(m.messages[i as int]));
            assert(m.messages.subrange(m.reported as int, i + 1) =~= before.push(
                m.messages[i as int],
            ));
        }
        assert(m.messages.subrange(m.reported as int, m.messages.len() as int) =~= unreported(m));
        self.reported = self.messages.len();
        assert(self.run() =~= all_reported(m));
        out
    }

    /// The number of messages of the conversation.
    pub fn message_count(&self) -> (r: usize)
        ensures
            r == self.run().messages.len(),
    {
        self.messages.len()
    }

    /// Queues a message that is let in before the next turn.
    pub fn steer(&mut self, text: &str)
        requires
            old(self).wf(),
        ensures
            final(self).wf(),
            final(self).phase == old(self).phase,
            final(self).same_setup(*old(self)),
            final(self).run() == (RunModel {
                steering: old(self).run().steering.push(message::user_message(text@)),
                ..old(self).run()
            }),
    {
        self.steering_queue.push(AgentMessage::user(text));
        assert(self.run().steering =~= old(self).run().steering.push(message::user_message(text@)));
    }

    /// Queues a message that is let in when the agent would stop.
    pub fn follow_up(&mut self, text: &str)
        requires
            old(self).wf(),
        ensures
            final(self).wf(),
            final(self).phase == old(self).phase,
            final(self).same_setup(*old(self)),
            final(self).run() == (RunModel {
                followup: old(self).run().followup.push(message::user_message(text@)),
                ..old(self).run()
            }),
    {
        self.followup_queue.push(AgentMessage::user(text));
        assert(self.run().followup =~= old(self).run().followup.push(message::user_message(text@)));
    }

    /// Adds what the user says to the conversation and starts a run.
    pub fn prompt(&mut self, user_text: &str) -> (r: AgentEvent)
        requires
            old(self).wf(),
        ensures
            final(self).wf(),
            final(self).phase is Between,
            final(self).same_setup(*old(self)),
            final(self).run() == (RunModel {
                messages: old(self).run().messages.push(message::user_message(user_text@)),
                next_turn: 0,
                final_text: seq![],
                actions: seq![],
                ..old(self).run()
            }),
            r@ == EventModel::AgentStart,
    {
        self.messages.push(AgentMessage::user(user_text));
        let r = self.continue_run();
        assert(self.run().messages =~= old(self).run().messages.push(
            message::user_message(user_text@),
        ));
        r
    }

    /// Forgets the conversation, then does as `prompt`.
    pub fn process(&mut self, user_text: &str) -> (r: AgentEvent)
        ensures
            final(self).wf(),
            final(self).phase is Between,
            final(self).same_setup(*old(self)),
            final(self).run() == (RunModel {
                messages: seq![message::user_message(user_text@)],
                reported: 0,
                steering: seq![],
                followup: seq![],
                next_turn: 0,
                final_text: seq![],
                actions: seq![],
                ..old(self).run()
            }),
            r@ == EventModel::AgentStart,
    {
        self.reset();
        let r = self.prompt(user_text);
        assert(self.run().messages =~= seq![message::user_message(user_text@)]);
        r
    }

    /// Starts a run over the conversation as it is.
    pub fn continue_run(&mut self) -> (r: AgentEvent)
        requires
            old(self).wf(),
        ensures
            final(self).wf(),
            final(self).phase is Between,
            final(self).same_setup(*old(self)),
            final(self).run() == (RunModel {
                next_turn: 0,
                final_text: seq![],
                actions: seq![],
                ..old(self).run()
            }),
            r@ == EventModel::AgentStart,
    {
        self.phase = Phase::Between;
        self.next_turn = 0;
        self.final_text = String::new();
        self.actions = Vec::new();
        assert(self.run().actions =~= seq![]);
        AgentEvent::AgentStart
    }

    /// The request of a turn, to the agent's model and with the tools that it may call. How
    /// long the answer may be is left to the provider.
    pub fn request_for(
        &self,
        messages: Vec<LlmMessage>,
        thinking: Option<ThinkingConfig>,
        tools: Vec<LlmTool>,
    ) -> (r: LlmRequest)
        ensures
            r.model@ == self.model@,
            r.messages == messages,
            r.tools == tools,
            r.thinking == thinking,
            r.max_tokens is None,
    {
        LlmRequest { model: self.model.clone(), messages, tools, thinking, max_tokens: None }
    }

    /// Starts the next turn, unless all turns are used up or the run was cancelled.
    pub fn begin_turn(&mut self, cancelled: bool) -> (r: (RunAction, Vec<AgentEvent>))
        requires
            old(self).wf(),
            old(self).phase is Between,
        ensures
            final(self).wf(),
            final(self).same_setup(*old(self)),
            ({
                let m = old(self).run();
                let n = turn_begun(m);
                if m.next_turn >= old(self).max_iterations {
                    &&& hands_out(r.0, m)
                    &&& event::event_views(r.1@) == seq![end_event(m)]
                    &&& final(self).run() == m
                    &&& final(self).phase is Resting
                } else if cancelled {
                    &&& r.0 matches RunAction::Failed { error } && error is Cancelled
                    &&& r.1@.len() == 0
                    &&& final(self).run() == m
                    &&& final(self).phase is Resting
                } else {
                    &&& event::event_views(r.1@) == seq![EventModel::TurnStart { turn: m.next_turn }]
                    &&& final(self).run() == n
                    &&& if pipe_accepts(old(self).transformers@, n.messages) {
                        &&& final(self).phase is Streaming
                        &&& r.0 matches RunAction::Request { messages, thinking }
                            && request::llm_views(messages@) == seq![
                            request::plain_message("system"@, old(self).system_prompt@),
                        ] + context::converted(piped(old(self).transformers@, n.messages))
                            && thinking == (if old(self).thinking.level != ThinkingLevel::Off {
                            Some(old(self).thinking)
                        } else {
                            None
                        })
                    } else {
                        &&& final(self).phase is Resting
                        &&& r.0 matches RunAction::Failed { error } && error is Context
                    }
                }
            }),
    {
        let ghost m = self.run();
        let mut events: Vec<AgentEvent> = Vec::new();
        if self.next_turn >= self.max_iterations {
            return self.finish(events);
        }
        if cancelled {
            self.phase = Phase::Resting;
            return (RunAction::Failed { error: AgentError::Cancelled }, events);
        }
        let mut inside = drain_queue(&mut self.steering_queue, self.queue_mode);
        let ghost let_in = message::message_views(inside@);
        self.messages.append(&mut inside);
        assert(message::message_views(self.messages@) =~= m.messages + let_in);

        let turn: u32 = self.next_turn;
        self.next_turn = turn + 1;
        self.text = String::new();
        self.calls = Vec::new();
        self.stop_reason = StopReason::Stop;
        self.usage = None;
        assert(self.run().calls =~= seq![]);
        assert(self.run() =~= turn_begun(m));
        events.push(AgentEvent::TurnStart { turn });
        assert(event::event_views(events@) =~= seq![EventModel::TurnStart { turn }]);

        let transformed = match pipe(&self.transformers, &self.messages) {
            Ok(t) => t,
            Err(error) => {
                self.phase = Phase::Resting;
                return (RunAction::Failed { error }, events);
            },
        };
        let mut messages: Vec<LlmMessage> = Vec::new();
        messages.push(LlmMessage::system(self.system_prompt.as_str()));
        let converter = DefaultConverter;
        let mut rest = converter.convert(&transformed);
        let ghost tail = request::llm_views(rest@);
        messages.append(&mut rest);
        assert(request::llm_views(messages@) =~= seq![
            request::plain_message("system"@, self.system_prompt@),
        ] + tail);
        let thinking = if self.thinking.level.is_active() {
            Some(self.thinking)
        } else {
            None
        };
        self.phase = Phase::Streaming;
        (RunAction::Request { messages, thinking }, events)
    }

    fn finish(&mut self, events: Vec<AgentEvent>) -> (r: (RunAction, Vec<AgentEvent>))
        requires
            old(self).wf(),
        ensures
            final(self).wf(),
            final(self).phase is Resting,
            final(self).same_setup(*old(self)),
            final(self).run() == old(self).run(),
            hands_out(r.0, old(self).run()),
            event::event_views(r.1@) == event::event_views(events@).push(end_event(old(self).run())),
    {
        let mut events = events;
        let ghost before = event::event_views(events@);
        self.phase = Phase::Resting;
        let actions = self.actions.clone();
        assert(actions@ =~= self.actions@);
        let reported = self.actions.clone();
        assert(reported@ =~= self.actions@);
        let end = AgentEvent::AgentEnd {
            result: AgentResult { text: self.final_text.clone(), actions: reported },
        };
        assert(end@ =~= end_event(self.run()));
        events.push(end);
        assert(event::event_views(events@) =~= before.push(end@));
        let result = AgentResult { text: self.final_text.clone(), actions };
        (RunAction::Finished { result }, events)
    }

    /// The request was answered; the answer begins.
    pub fn stream_opened(&self) -> (r: AgentEvent)
        ensures
            r@ == EventModel::MessageStart,
    {
        AgentEvent::MessageStart
    }

    /// Takes in a piece of the answer.
    pub fn receive(
        &mut self,
        piece: Result<LlmStreamEvent, AgentError>,
        cancelled: bool,
    ) -> (r: (RunAction, Vec<AgentEvent>))
        requires
            old(self).wf(),
            old(self).phase is Streaming,
        ensures
            final(self).wf(),
            final(self).same_setup(*old(self)),
            if cancelled {
                &&& r.0 matches RunAction::Failed { error } && error is Cancelled
                &&& r.1@.len() == 0
                &&& final(self).run() == old(self).run()
                &&& final(self).phase is Resting
            } else {
                match piece {
                    Err(e) => {
                        &&& r.0 == RunAction::Failed { error: e }
                        &&& event::event_views(r.1@) == seq![EventModel::Error { error: e.text() }]
                        &&& final(self).run() == old(self).run()
                        &&& final(self).phase is Resting
                    },
                    Ok(e) => {
                        &&& r.0 == (if e is Done {
                            RunAction::Conclude
                        } else {
                            RunAction::Read
                        })
                        &&& event::event_views(r.1@) == piece_events(e)
                        &&& final(self).run() == after_piece(old(self).run(), e)
                        &&& final(self).phase is Streaming
                    },
                }
            },
    {
        let mut events: Vec<AgentEvent> = Vec::new();
        let ghost m = self.run();
        if cancelled {
            self.phase = Phase::Resting;
            return (RunAction::Failed { error: AgentError::Cancelled }, events);
        }
        let e = match piece {
            Ok(e) => e,
            Err(error) => {
                events.push(AgentEvent::Error { error: error.message() });
                assert(event::event_views(events@) =~= seq![
                    EventModel::Error { error: error.text() },
                ]);
                self.phase = Phase::Resting;
                return (RunAction::Failed { error }, events);
            },
        };
        let ghost wanted = piece_events(e);
        match e {
            LlmStreamEvent::TextDelta(delta) => {
                self.text.append(delta.as_str());
                let content = MessageUpdateContent::TextDelta { text: delta };
                events.push(AgentEvent::MessageUpdate { content });
                assert(event::event_views(events@) =~= wanted);
                (RunAction::Read, events)
            },
            LlmStreamEvent::ThinkingDelta(content) => {
                events.push(AgentEvent::ThinkingDelta { content });
                assert(event::event_views(events@) =~= wanted);
                (RunAction::Read, events)
            },
            LlmStreamEvent::ToolCallStart { index, id, name } => {
                let call = ToolCall {
                    id: id.clone(),
                    name: name.clone(),
                    arguments: String::new(),
                };
                assert(call@ =~= (ToolCallModel { id: id@, name: name@, arguments: seq![] }));
                self.calls.push(call);
                assert(self.run().calls =~= m.calls.push(call@));
                let content = MessageUpdateContent::ToolCallStart { index, id, name };
                events.push(AgentEvent::MessageUpdate { content });
                assert(event::event_views(events@) =~= wanted);
                (RunAction::Read, events)
            },
            LlmStreamEvent::ToolCallDelta { index, arguments_delta } => {
                if index < self.calls.len() {
                    let ghost before = self.calls@[index as int]@;
                    self.calls[index].arguments.append(arguments_delta.as_str());
                    assert(self.run().calls =~= m.calls.update(
                        index as int,
                        ToolCallModel {
                            arguments: before.arguments + arguments_delta@,
                            ..before
                        },
                    ));
                }
                let content = MessageUpdateContent::ToolCallDelta {
                    index,
                    arguments: arguments_delta,
                };
                events.push(AgentEvent::MessageUpdate { content });
                assert(event::event_views(events@) =~= wanted);
                (RunAction::Read, events)
            },
            LlmStreamEvent::ToolCallEnd { .. } => {
                assert(event::event_views(events@) =~= wanted);
                (RunAction::Read, events)
            },
            LlmStreamEvent::Usage(usage) => {
                self.usage = Some(usage);
                assert(event::event_views(events@) =~= wanted);
                (RunAction::Read, events)
            },
            LlmStreamEvent::Done { stop_reason } => {
                self.stop_reason = stop_reason;
                assert(event::event_views(events@) =~= wanted);
                (RunAction::Conclude, events)
            },
        }
    }

    /// The answer is complete: it ended, or nothing more came.
    pub fn conclude(&mut self) -> (r: (RunAction, Vec<AgentEvent>))
        requires
            old(self).wf(),
            old(self).phase is Streaming,
        ensures
            final(self).wf(),
            final(self).same_setup(*old(self)),
            ({
                let m = old(self).run();
                let end = EventModel::MessageEnd { stop_reason: m.stop };
                if m.calls.len() == 0 {
                    let n = turn_stopped(m);
                    &&& final(self).run() == n
                    &&& if drained(m.followup, m.queue_mode).0.len() == 0 {
                        &&& hands_out(r.0, n)
                        &&& event::event_views(r.1@) == seq![end, end_event(n)]
                        &&& final(self).phase is Resting
                    } else {
                        &&& r.0 is NextTurn
                        &&& event::event_views(r.1@) == seq![end]
                        &&& final(self).phase is Between
                    }
                } else {
                    &&& final(self).run() == (RunModel {
                        messages: m.messages.push(answer_message(m)),
                        ..m
                    })
                    &&& r.0 matches RunAction::Execute { calls } && message::tool_call_views(calls@)
                        == m.calls
                    &&& event::event_views(r.1@) == seq![end] + call_events(m.calls)
                    &&& final(self).phase is Executing
                }
            }),
    {
        let ghost m = self.run();
        let mut events: Vec<AgentEvent> = Vec::new();
        events.push(AgentEvent::MessageEnd { stop_reason: self.stop_reason.clone() });
        let ghost end = EventModel::MessageEnd { stop_reason: m.stop };
        assert(event::event_views(events@) =~= seq![end]);

        if self.calls.len() == 0 {
            if !self.text.as_str().is_empty() {
                let answer = self.answer();
                self.messages.push(answer);
                assert(message::message_views(self.messages@) =~= m.messages + seq![
                    answer_message(m),
                ]);
            } else {
                assert(message::message_views(self.messages@) =~= m.messages + seq![]);
            }
            self.final_text = self.text.clone();
            let ghost so_far = message::message_views(self.messages@);
            let mut inside = drain_queue(&mut self.followup_queue, self.queue_mode);
            let ghost let_in = message::message_views(inside@);
            if inside.len() == 0 {
                assert(so_far + let_in =~= so_far);
                assert(self.run() =~= turn_stopped(m));
                let r = self.finish(events);
                assert(event::event_views(r.1@) =~= seq![end, end_event(turn_stopped(m))]);
                return r;
            }
            self.messages.append(&mut inside);
            assert(message::message_views(self.messages@) =~= so_far + let_in);
            self.phase = Phase::Between;
            assert(self.run() =~= turn_stopped(m));
            return (RunAction::NextTurn, events);
        }

        for i in 0..self.calls.len()
            invariant
                message::tool_call_views(self.calls@) == m.calls,
                event::event_views(events@) == seq![end] + call_events(m.calls.take(i as int)),
        {
            let ghost before = event::event_views(events@);
            let start = AgentEvent::ToolExecutionStart {
                tool_name: self.calls[i].name.clone(),
                call_id: self.calls[i].id.clone(),
                args: self.calls[i].arguments.clone(),
            };
            assert(start@ =~= call_event(m.calls[i as int]));
            events.push(start);
            assert(event::event_views(events@) =~= before.push(start@));
            assert(call_events(m.calls.take(i + 1)) =~= call_events(m.calls.take(i as int)).push(
                start@,
            ));
            assert(event::event_views(events@) =~= seq![end] + call_events(m.calls.take(i + 1)));
        }
        assert(m.calls.take(m.calls.len() as int) =~= m.calls);
        let answer = self.answer();
        self.messages.push(answer);
        assert(message::message_views(self.messages@) =~= m.messages.push(answer_message(m)));
        let calls = self.calls.clone();
        assert(calls@ =~= self.calls@);
        self.phase = Phase::Executing;
        (RunAction::Execute { calls }, events)
    }

    fn answer(&self) -> (r: AgentMessage)
        ensures
            r@ == answer_message(self.run()),
    {
        let calls = self.calls.clone();
        assert(calls@ =~= self.calls@);
        AgentMessage::Assistant {
            content: if self.text.as_str().is_empty() {
                None
            } else {
                Some(self.text.clone())
            },
            tool_calls: calls,
            thinking: None,
            usage: self.usage,
            stop_reason: Some(self.stop_reason.clone()),
        }
    }

    /// Takes in the results of the tool calls and ends the turn.
    pub fn take_results(&mut self, results: Vec<ToolResult>) -> (r: Vec<AgentEvent>)
        requires
            old(self).wf(),
            old(self).phase is Executing,
        ensures
            final(self).wf(),
            final(self).phase is Between,
            final(self).same_setup(*old(self)),
            final(self).run() == with_results(old(self).run(), results@),
            event::event_views(r@) == result_events(old(self).run(), results@),
    {
        let ghost m = self.run();
        let ghost all = results@;
        let mut events: Vec<AgentEvent> = Vec::new();
        let ghost ends = |r: ToolResult|
            EventModel::ToolExecutionEnd { call_id: r.call_id@, result: r };
        assert(self.run() =~= with_results(m, all.take(0)));
        assert(event::event_views(events@) =~= all.take(0).map_values(ends));
        for i in 0..results.len()
            invariant
                all == results@,
                self.same_setup(*old(self)),
                self.next_turn == old(self).next_turn,
                self.reported <= self.messages@.len(),
                self.run() == with_results(m, all.take(i as int)),
                ends == (|r: ToolResult|
                    EventModel::ToolExecutionEnd { call_id: r.call_id@, result: r }),
                event::event_views(events@) == all.take(i as int).map_values(ends),
        {
            let ghost before = self.run();
            let ghost told = event::event_views(events@);
            let result = &results[i];
            let action = ActionSummary {
                tool_name: result.tool_name.clone(),
                success: !result.is_error,
                output_preview: preview_output(result.content.as_str()),
            };
            self.actions.push(action);
            let msg = AgentMessage::tool_result(result.call_id.as_str(), result.content.as_str());
            self.messages.push(msg);
            let done = AgentEvent::ToolExecutionEnd {
                call_id: result.call_id.clone(),
                result: result.clone(),
            };
            assert(done@ =~= ends(*result));
            events.push(done);
            assert(event::event_views(events@) =~= told.push(done@));
            assert(all.take(i + 1) =~= all.take(i as int).push(*result));
            assert(all.take(i + 1).map_values(ends) =~= told.push(done@));
            assert(self.run().messages =~= before.messages.push(msg@));
            assert(self.run().actions =~= before.actions.push(action@));
            assert(self.run() =~= with_results(m, all.take(i + 1)));
        }
        assert(all.take(all.len() as int) =~= all);
        let ghost told = event::event_views(events@);
        let end = AgentEvent::TurnEnd { turn: self.next_turn - 1 };
        events.push(end);
        assert(event::event_views(events@) =~= told.push(end@));
        self.phase = Phase::Between;
        events
    }
}

// ---------------------------------------------------------------------------
// Laws of a run
// ---------------------------------------------------------------------------

/// A run only ever adds to the conversation.
pub proof fn law_conversation_only_grows(
    m: RunModel,
    e: LlmStreamEvent,
    results: Seq<ToolResult>,
)
    ensures
        m.messages.is_prefix_of(turn_begun(m).messages),
        m.messages.is_prefix_of(after_piece(m, e).messages),
        m.messages.is_prefix_of(turn_stopped(m).messages),
        m.messages.is_prefix_of(with_results(m, results).messages),
{
    let answer = if m.text.len() == 0 {
        seq![]
    } else {
        seq![answer_message(m)]
    };
    assert(turn_stopped(m).messages =~= m.messages + (answer + drained(
        m.followup,
        m.queue_mode,
    ).0));
}

/// Letting messages in from a queue loses none of them and keeps their order.
pub proof fn law_queue_loses_nothing(queue: Seq<MessageModel>, mode: QueueMode)
    ensures
        drained(queue, mode).0 + drained(queue, mode).1 == queue,
        queue.len() > 0 ==> drained(queue, mode).0.len() > 0,
{
    assert(drained(queue, mode).0 + drained(queue, mode).1 =~= queue);
}

/// Every message that a run adds to the conversation is handed out once, in its order,
/// whether the messages are taken after each step or later.
pub proof fn law_messages_are_handed_out_once(m: RunModel, n: RunModel)
    requires
        m.reported <= m.messages.len(),
        m.messages.is_prefix_of(n.messages),
        n.reported == m.reported,
    ensures
        unreported(all_reported(m)) == Seq::<MessageModel>::empty(),
        unreported(n) == unreported(m) + unreported(
            RunModel { reported: all_reported(m).reported, ..n },
        ),
{
    assert(unreported(all_reported(m)) =~= seq![]);
    let later = RunModel { reported: all_reported(m).reported, ..n };
    assert(m.messages =~= n.messages.take(m.messages.len() as int));
    assert(unreported(n) =~= unreported(m) + unreported(later));
}

/// The results of the tool calls stand in the conversation behind what was there, one message
/// each, in their order. Each names the call that it answers and holds what the tool returned,
/// in full. What the run has done gets longer by as many actions, each with the tool's name
/// and whether it succeeded.
pub proof fn law_results_enter_the_conversation(m: RunModel, results: Seq<ToolResult>, i: int)
    requires
        0 <= i < results.len(),
    ensures
        ({
            let n = with_results(m, results);
            let at = m.messages.len() + i;
            &&& n.messages.len() == m.messages.len() + results.len()
            &&& n.messages.take(m.messages.len() as int) == m.messages
            &&& n.messages[at] matches MessageModel::ToolResult { tool_call_id, content, .. }
                && tool_call_id == results[i].call_id@ && content
                == message::ContentModel::Text(results[i].content@)
            &&& n.actions.len() == m.actions.len() + results.len()
            &&& n.actions.take(m.actions.len() as int) == m.actions
            &&& n.actions[m.actions.len() + i].tool_name == results[i].tool_name@
            &&& n.actions[m.actions.len() + i].success == !results[i].is_error
            &&& results[i].content@.take(500).is_prefix_of(
                n.actions[m.actions.len() + i].output_preview,
            ) || n.actions[m.actions.len() + i].output_preview == results[i].content@
        }),
{
    let n = with_results(m, results);
    assert(n.messages.take(m.messages.len() as int) =~= m.messages);
    assert(n.actions.take(m.actions.len() as int) =~= m.actions);
}

/// The results of the tool calls reach the model: where no step of the way cuts the
/// conversation, the request of the next turn ends with one tool message for each of them, in
/// their order, that names the call and holds what the tool returned, in full.
pub proof fn law_results_reach_the_model(m: RunModel, results: Seq<ToolResult>, i: int)
    requires
        m.steering.len() == 0,
        0 <= i < results.len(),
    ensures
        ({
            let sent = context::converted(
                piped(Seq::empty(), turn_begun(with_results(m, results)).messages),
            );
            let before = context::converted(m.messages);
            let message = sent[before.len() + i];
            &&& sent.len() == before.len() + results.len()
            &&& sent.take(before.len() as int) == before
            &&& message.role == "tool"@
            &&& message.tool_call_id == Some(results[i].call_id@)
            &&& message.content == Some(results[i].content@)
            &&& message.tool_calls.len() == 0
        }),
{
    let n = with_results(m, results);
    let answered = n.messages.skip(m.messages.len() as int);
    assert(turn_begun(n).messages =~= n.messages);
    assert(n.messages =~= m.messages + answered);
    context::lemma_converted_add(m.messages, answered);
    assert forall|k: int| 0 <= k < answered.len() implies context::converted_message(
        #[trigger] answered[k],
    ).len() == 1 by {
        law_results_enter_the_conversation(m, results, k);
        assert(answered[k] == n.messages[m.messages.len() + k]);
    }
    context::lemma_converted_one_each(answered);
    let sent = context::converted(n.messages);
    let before = context::converted(m.messages);
    assert(sent.take(before.len() as int) =~= before);
    law_results_enter_the_conversation(m, results, i);
    assert(answered[i] == n.messages[m.messages.len() + i]);
}

/// A piece of an answer is kept: text is added to the text so far, a tool call to the calls,
/// the arguments of a call to those of that call and of no other; and what was there stays.
pub proof fn law_pieces_make_up_the_answer(m: RunModel, e: LlmStreamEvent)
    ensures
        ({
            let n = after_piece(m, e);
            &&& n.messages == m.messages
            &&& n.actions == m.actions
            &&& m.text.is_prefix_of(n.text)
            &&& n.text.skip(m.text.len() as int) == match e {
                LlmStreamEvent::TextDelta(d) => d@,
                _ => Seq::<char>::empty(),
            }
            &&& e matches LlmStreamEvent::ToolCallStart { id, name, .. } ==> {
                &&& n.calls.len() == m.calls.len() + 1
                &&& n.calls.drop_last() == m.calls
                &&& n.calls.last().id == id@
                &&& n.calls.last().name == name@
                &&& n.calls.last().arguments.len() == 0
            }
            &&& !(e is ToolCallStart) ==> {
                &&& n.calls.len() == m.calls.len()
                &&& forall|k: int|
                    0 <= k < m.calls.len() ==> {
                        &&& (#[trigger] n.calls[k]).id == m.calls[k].id
                        &&& n.calls[k].name == m.calls[k].name
                        &&& n.calls[k].arguments == m.calls[k].arguments + (match e {
                            LlmStreamEvent::ToolCallDelta { index, arguments_delta } => if index
                                == k {
                                arguments_delta@
                            } else {
                                Seq::<char>::empty()
                            },
                            _ => Seq::<char>::empty(),
                        })
                    }
            }
            &&& e matches LlmStreamEvent::Usage(u) ==> n.usage == Some(u)
            &&& e matches LlmStreamEvent::Done { stop_reason } ==> n.stop == stop_reason
        }),
{
    let n = after_piece(m, e);
    assert(m.text =~= n.text.take(m.text.len() as int));
    assert(n.text.skip(m.text.len() as int) =~= match e {
        LlmStreamEvent::TextDelta(d) => d@,
        _ => Seq::<char>::empty(),
    });
    if e is ToolCallStart {
        assert(n.calls.drop_last() =~= m.calls);
    } else {
        assert forall|k: int| 0 <= k < m.calls.len() implies {
            &&& (#[trigger] n.calls[k]).id == m.calls[k].id
            &&& n.calls[k].name == m.calls[k].name
            &&& n.calls[k].arguments == m.calls[k].arguments + (match e {
                LlmStreamEvent::ToolCallDelta { index, arguments_delta } => if index == k {
                    arguments_delta@
                } else {
                    Seq::<char>::empty()
                },
                _ => Seq::<char>::empty(),
            })
        } by {
            assert(m.calls[k].arguments + Seq::<char>::empty() =~= m.calls[k].arguments);
        }
    }
}

/// A new turn begins with an empty answer, behind the messages that were let in; it counts as
/// one more turn. What the run has come to so far stays.
pub proof fn law_a_turn_begins_afresh(m: RunModel)
    requires
        m.next_turn < u32::MAX,
    ensures
        ({
            let n = turn_begun(m);
            &&& n.messages.take(m.messages.len() as int) == m.messages
            &&& n.messages.skip(m.messages.len() as int) + n.steering == m.steering
            &&& m.queue_mode == QueueMode::All ==> n.steering.len() == 0
            &&& m.queue_mode == QueueMode::OneAtATime && m.steering.len() > 0 ==> n.steering.len()
                == m.steering.len() - 1
            &&& n.text.len() == 0
            &&& n.calls.len() == 0
            &&& n.next_turn == m.next_turn + 1
            &&& n.followup == m.followup
            &&& n.final_text == m.final_text
            &&& n.actions == m.actions
        }),
{
    let n = turn_begun(m);
    assert(n.messages.take(m.messages.len() as int) =~= m.messages);
    assert(n.messages.skip(m.messages.len() as int) + n.steering =~= m.steering);
}

/// An answer without tool calls is what the run comes to: its text is handed out, and stands
/// in the conversation as an answer, unless it is empty. Then come the messages that waited
/// for this moment, and none of them is lost.
pub proof fn law_an_answer_ends_the_run(m: RunModel)
    ensures
        ({
            let n = turn_stopped(m);
            let at = m.messages.len() as int;
            let said = if m.text.len() > 0 {
                1int
            } else {
                0
            };
            &&& n.final_text == m.text
            &&& n.actions == m.actions
            &&& n.messages.take(at) == m.messages
            &&& m.text.len() > 0 ==> (n.messages[at] matches MessageModel::Assistant {
                content,
                tool_calls,
                ..
            } && content == Some(m.text) && tool_calls == m.calls)
            &&& n.messages.skip(at + said) + n.followup == m.followup
        }),
{
    let n = turn_stopped(m);
    let at = m.messages.len() as int;
    assert(n.messages.take(at) =~= m.messages);
    let said = if m.text.len() > 0 {
        1int
    } else {
        0
    };
    assert(n.messages.skip(at + said) + n.followup =~= m.followup);
}

/// What is shown of a tool's output is the output itself, up to 500 characters; of a longer
/// one the first 500 are shown, with dots behind them.
pub proof fn law_previews_show_the_beginning(content: Seq<char>)
    ensures
        content.len() <= 500 ==> output_preview(content) == content,
        content.len() > 500 ==> output_preview(content).len() == 503 && output_preview(
            content,
        ).take(500) == content.take(500) && output_preview(content).skip(500) == seq!['.', '.', '.'],
{
    reveal_strlit("...");
    if content.len() > 500 {
        assert(output_preview(content).take(500) =~= content.take(500));
        assert(output_preview(content).skip(500) =~= seq!['.', '.', '.']);
    }
}

/// The steps that prepare a conversation are taken one after the other, each on what the one
/// before has left.
pub proof fn law_steps_are_taken_in_order(
    a: Seq<Transformer>,
    step: Transformer,
    b: Seq<Transformer>,
    ms: Seq<MessageModel>,
)
    ensures
        piped(a + seq![step] + b, ms) == piped(b, step.transformed(piped(a, ms))),
        piped(Seq::<Transformer>::empty(), ms) == ms,
    decreases a.len(),
{
    let all = a + seq![step] + b;
    if a.len() == 0 {
        assert(all[0] == step);
        assert(all.drop_first() =~= b);
    } else {
        law_steps_are_taken_in_order(a.drop_first(), step, b, a[0].transformed(ms));
        assert(all[0] == a[0]);
        assert(all.drop_first() =~= a.drop_first() + seq![step] + b);
    }
}

/// What is going on is reported as it is: the text as it comes in, each call with the name of
/// its tool, its id and its arguments, the results one by one in their order and then the end
/// of the turn, and at the end of the run what it has come to.
pub proof fn law_reports_tell_what_is_going_on(
    m: RunModel,
    delta: String,
    calls: Seq<ToolCallModel>,
    results: Seq<ToolResult>,
    i: int,
)
    requires
        m.next_turn > 0,
    ensures
        piece_events(LlmStreamEvent::TextDelta(delta)) == seq![
            EventModel::MessageUpdate { content: UpdateModel::TextDelta { text: delta@ } },
        ],
        call_events(calls).len() == calls.len(),
        0 <= i < calls.len() ==> call_events(calls)[i] == (EventModel::ToolExecutionStart {
            tool_name: calls[i].name,
            call_id: calls[i].id,
            args: calls[i].arguments,
        }),
        result_events(m, results).len() == results.len() + 1,
        0 <= i < results.len() ==> result_events(m, results)[i] == (EventModel::ToolExecutionEnd {
            call_id: results[i].call_id@,
            result: results[i],
        }),
        result_events(m, results).last() == (EventModel::TurnEnd {
            turn: (m.next_turn - 1) as u32,
        }),
        end_event(m) == (EventModel::AgentEnd { text: m.final_text, actions: m.actions }),
{
}

/// What a run hands out is its last answer, with all that it has done.
pub proof fn law_the_outcome_is_handed_out(action: RunAction, m: RunModel, result: AgentResult)
    requires
        hands_out(action, m),
        action == (RunAction::Finished { result }),
    ensures
        result.text@ == m.final_text,
        result.actions@.len() == m.actions.len(),
        forall|i: int|
            0 <= i < m.actions.len() ==> (#[trigger] result.actions@[i]).tool_name@
                == m.actions[i].tool_name && result.actions@[i].success == m.actions[i].success
                && result.actions@[i].output_preview@ == m.actions[i].output_preview,
{
    let views = event::action_views(result.actions@);
    assert(views.len() == result.actions@.len());
    assert forall|i: int| 0 <= i < m.actions.len() implies (#[trigger] result.actions@[i]).tool_name@
        == m.actions[i].tool_name && result.actions@[i].success == m.actions[i].success
        && result.actions@[i].output_preview@ == m.actions[i].output_preview by {
        assert(views[i] == result.actions@[i]@);
    }
}

/// An answer is kept whole: its text, its calls, what it used and why it ended.
pub proof fn law_an_answer_is_kept_whole(m: RunModel)
    ensures
        answer_message(m) matches MessageModel::Assistant {
            content,
            tool_calls,
            usage,
            stop_reason,
            ..
        } && tool_calls == m.calls && usage == m.usage && stop_reason == Some(m.stop) && (
        m.text.len() > 0 ==> content == Some(m.text)) && (m.text.len() == 0 ==> content is None),
{
}

} // verus!
