//! What is sent to a language model, and what comes back.
use vstd::prelude::*;

use crate::json::{Json, JsonModel};
use crate::text;

use super::usage::Usage;

verus! {

// ---------------------------------------------------------------------------
// Thinking
// ---------------------------------------------------------------------------

/// How much a model may think before it answers.
#[derive(Clone, Copy, Debug, PartialEq, Eq, Structural)]
pub enum ThinkingLevel {
    /// No thinking.
    Off,
    Minimal,
    Low,
    Medium,
    High,
    XHigh,
}

impl ThinkingLevel {
    /// The level that a setting in lower case names. Anything unknown is no thinking.
    pub open spec fn named(s: Seq<char>) -> ThinkingLevel {
        if s == "minimal"@ {
            ThinkingLevel::Minimal
        } else if s == "low"@ {
            ThinkingLevel::Low
        } else if s == "medium"@ {
            ThinkingLevel::Medium
        } else if s == "high"@ {
            ThinkingLevel::High
        } else if s == "xhigh"@ || s == "x-high"@ || s == "xhi"@ {
            ThinkingLevel::XHigh
        } else {
            ThinkingLevel::Off
        }
    }

    /// The level that a setting in lower case names.
    pub fn from_lowercase(s: &str) -> (r: Self)
        ensures
            r == ThinkingLevel::named(s@),
    {
        if text::str_eq(s, "minimal") {
            ThinkingLevel::Minimal
        } else if text::str_eq(s, "low") {
            ThinkingLevel::Low
        } else if text::str_eq(s, "medium") {
            ThinkingLevel::Medium
        } else if text::str_eq(s, "high") {
            ThinkingLevel::High
        } else if text::str_eq(s, "xhigh") || text::str_eq(s, "x-high") || text::str_eq(s, "xhi") {
            ThinkingLevel::XHigh
        } else {
            ThinkingLevel::Off
        }
    }

    /// The level that a setting names, in whatever case it is written.
    pub fn from_str_lossy(s: &str) -> (r: Self)
        ensures
            r == ThinkingLevel::named(text::lowercase(s@)),
    {
        let lower = text::to_lowercase(s);
        ThinkingLevel::from_lowercase(lower.as_str())
    }

    /// Whether the level is above `Off`.
    pub fn is_active(self) -> (r: bool)
        ensures
            r == (self != ThinkingLevel::Off),
    {
        match self {
            ThinkingLevel::Off => false,
            _ => true,
        }
    }
}

/// Token budgets for providers that take a number instead of a level.
#[derive(Clone, Copy, Debug, PartialEq, Eq, Structural)]
pub struct ThinkingBudgets {
    pub minimal: u32,
    pub low: u32,
    pub medium: u32,
    pub high: u32,
    pub xhigh: u32,
}

/// The budgets that levels have unless others are set.
pub open spec fn default_budgets() -> ThinkingBudgets {
    ThinkingBudgets { minimal: 128, low: 512, medium: 1024, high: 2048, xhigh: 4096 }
}

impl Default for ThinkingBudgets {
    fn default() -> (r: Self)
        ensures
            r == default_budgets(),
    {
        ThinkingBudgets { minimal: 128, low: 512, medium: 1024, high: 2048, xhigh: 4096 }
    }
}

impl ThinkingBudgets {
    pub open spec fn budget(self, level: ThinkingLevel) -> Option<u32> {
        match level {
            ThinkingLevel::Off => None,
            ThinkingLevel::Minimal => Some(self.minimal),
            ThinkingLevel::Low => Some(self.low),
            ThinkingLevel::Medium => Some(self.medium),
            ThinkingLevel::High => Some(self.high),
            ThinkingLevel::XHigh => Some(self.xhigh),
        }
    }

    pub fn budget_for(self, level: ThinkingLevel) -> (r: Option<u32>)
        ensures
            r == self.budget(level),
    {
        match level {
            ThinkingLevel::Off => None,
            ThinkingLevel::Minimal => Some(self.minimal),
            ThinkingLevel::Low => Some(self.low),
            ThinkingLevel::Medium => Some(self.medium),
            ThinkingLevel::High => Some(self.high),
            ThinkingLevel::XHigh => Some(self.xhigh),
        }
    }
}

#[derive(Clone, Copy, Debug, PartialEq, Eq, Structural)]
pub struct ThinkingConfig {
    pub level: ThinkingLevel,
    /// An explicit budget. Without one, providers go by the level.
    pub budget_tokens: Option<u32>,
}

impl ThinkingConfig {
    pub open spec fn budget(self) -> Option<u32> {
        match self.budget_tokens {
            Some(n) => Some(n),
            None => default_budgets().budget(self.level),
        }
    }

    /// The budget for providers that take a number: the explicit one, or else that of the
    /// level.
    pub fn effective_budget(self) -> (r: Option<u32>)
        ensures
            r == self.budget(),
    {
        match self.budget_tokens {
            Some(n) => Some(n),
            None => ThinkingBudgets::default().budget_for(self.level),
        }
    }
}

// ---------------------------------------------------------------------------
// Stop reason
// ---------------------------------------------------------------------------

/// Why an answer of the model ended.
pub enum StopReason {
    Stop,
    ToolCalls,
    MaxTokens,
    Cancelled,
    Refusal,
    Error(String),
}

impl Clone for StopReason {
    fn clone(&self) -> (r: Self)
        ensures
            r == *self,
    {
        match self {
            StopReason::Stop => StopReason::Stop,
            StopReason::ToolCalls => StopReason::ToolCalls,
            StopReason::MaxTokens => StopReason::MaxTokens,
            StopReason::Cancelled => StopReason::Cancelled,
            StopReason::Refusal => StopReason::Refusal,
            StopReason::Error(e) => StopReason::Error(e.clone()),
        }
    }
}

/// What a stop reason holds.
#[verifier::ext_equal]
pub enum StopModel {
    Stop,
    ToolCalls,
    MaxTokens,
    Cancelled,
    Refusal,
    Error(Seq<char>),
}

impl View for StopReason {
    type V = StopModel;

    open spec fn view(&self) -> StopModel {
        match self {
            StopReason::Stop => StopModel::Stop,
            StopReason::ToolCalls => StopModel::ToolCalls,
            StopReason::MaxTokens => StopModel::MaxTokens,
            StopReason::Cancelled => StopModel::Cancelled,
            StopReason::Refusal => StopModel::Refusal,
            StopReason::Error(e) => StopModel::Error(e@),
        }
    }
}

/// What a finish reason of the OpenAI interface stands for.
pub open spec fn openai_stop(finish_reason: Seq<char>) -> StopModel {
    if finish_reason == "stop"@ {
        StopModel::Stop
    } else if finish_reason == "tool_calls"@ || finish_reason == "function_call"@ {
        StopModel::ToolCalls
    } else if finish_reason == "length"@ {
        StopModel::MaxTokens
    } else if finish_reason == "content_filter"@ || finish_reason == "refusal"@ {
        StopModel::Refusal
    } else {
        StopModel::Error(finish_reason)
    }
}

impl StopReason {
    pub fn from_openai(finish_reason: &str) -> (r: Self)
        ensures
            r@ == openai_stop(finish_reason@),
    {
        if text::str_eq(finish_reason, "stop") {
            StopReason::Stop
        } else if text::str_eq(finish_reason, "tool_calls") || text::str_eq(
            finish_reason,
            "function_call",
        ) {
            StopReason::ToolCalls
        } else if text::str_eq(finish_reason, "length") {
            StopReason::MaxTokens
        } else if text::str_eq(finish_reason, "content_filter") || text::str_eq(
            finish_reason,
            "refusal",
        ) {
            StopReason::Refusal
        } else {
            StopReason::Error(finish_reason.to_string())
        }
    }
}

// ---------------------------------------------------------------------------
// Messages as a model sees them
// ---------------------------------------------------------------------------

pub struct LlmFunctionCall {
    pub name: String,
    pub arguments: String,
}

pub struct LlmToolCall {
    pub id: String,
    pub call_type: String,
    pub function: LlmFunctionCall,
}

pub struct LlmMessage {
    pub role: String,
    pub content: Option<String>,
    pub tool_calls: Vec<LlmToolCall>,
    pub tool_call_id: Option<String>,
}

/// What a tool call holds: its id, its type, and the name and arguments of the
/// function.
#[verifier::ext_equal]
pub struct CallModel {
    pub id: Seq<char>,
    pub call_type: Seq<char>,
    pub name: Seq<char>,
    pub arguments: Seq<char>,
}

impl View for LlmToolCall {
    type V = CallModel;

    open spec fn view(&self) -> CallModel {
        CallModel {
            id: self.id@,
            call_type: self.call_type@,
            name: self.function.name@,
            arguments: self.function.arguments@,
        }
    }
}

pub open spec fn call_views(s: Seq<LlmToolCall>) -> Seq<CallModel> {
    s.map_values(|c: LlmToolCall| c@)
}

/// What a message holds.
#[verifier::ext_equal]
pub struct LlmMessageModel {
    pub role: Seq<char>,
    pub content: Option<Seq<char>>,
    pub tool_calls: Seq<CallModel>,
    pub tool_call_id: Option<Seq<char>>,
}

impl View for LlmMessage {
    type V = LlmMessageModel;

    open spec fn view(&self) -> LlmMessageModel {
        LlmMessageModel {
            role: self.role@,
            content: text::opt_text(self.content),
            tool_calls: call_views(self.tool_calls@),
            tool_call_id: text::opt_text(self.tool_call_id),
        }
    }
}

pub open spec fn llm_views(s: Seq<LlmMessage>) -> Seq<LlmMessageModel> {
    s.map_values(|m: LlmMessage| m@)
}

/// A message with nothing but a text.
pub open spec fn plain_message(role: Seq<char>, content: Seq<char>) -> LlmMessageModel {
    LlmMessageModel { role, content: Some(content), tool_calls: seq![], tool_call_id: None }
}

impl LlmMessage {
    pub fn system(content: &str) -> (r: Self)
        ensures
            r@ == plain_message("system"@, content@),
    {
        LlmMessage::plain("system", content)
    }

    pub fn user(content: &str) -> (r: Self)
        ensures
            r@ == plain_message("user"@, content@),
    {
        LlmMessage::plain("user", content)
    }

    pub fn assistant_text(content: &str) -> (r: Self)
        ensures
            r@ == plain_message("assistant"@, content@),
    {
        LlmMessage::plain("assistant", content)
    }

    pub fn assistant_tool_calls(calls: Vec<LlmToolCall>) -> (r: Self)
        ensures
            r@ == (LlmMessageModel {
                role: "assistant"@,
                content: None,
                tool_calls: call_views(calls@),
                tool_call_id: None,
            }),
    {
        LlmMessage {
            role: "assistant".to_string(),
            content: None,
            tool_calls: calls,
            tool_call_id: None,
        }
    }

    pub fn tool_result(tool_call_id: &str, content: &str) -> (r: Self)
        ensures
            r@ == (LlmMessageModel {
                tool_call_id: Some(tool_call_id@),
                ..plain_message("tool"@, content@)
            }),
    {
        let mut r = LlmMessage::plain("tool", content);
        r.tool_call_id = Some(tool_call_id.to_string());
        r
    }

    fn plain(role: &str, content: &str) -> (r: Self)
        ensures
            r@ == plain_message(role@, content@),
    {
        let r = LlmMessage {
            role: role.to_string(),
            content: Some(content.to_string()),
            tool_calls: Vec::new(),
            tool_call_id: None,
        };
        assert(r@.tool_calls =~= seq![]);
        r
    }
}

/// A tool as it is described to a model.
pub struct LlmTool {
    pub spec_type: String,
    pub function: LlmToolFunction,
}

pub struct LlmToolFunction {
    pub name: String,
    pub description: String,
    /// The schema of the arguments.
    pub parameters: Json,
}

/// What the description of a tool holds.
#[verifier::ext_equal]
pub struct ToolModel {
    pub spec_type: Seq<char>,
    pub name: Seq<char>,
    pub description: Seq<char>,
    pub parameters: JsonModel,
}

impl View for LlmTool {
    type V = ToolModel;

    open spec fn view(&self) -> ToolModel {
        ToolModel {
            spec_type: self.spec_type@,
            name: self.function.name@,
            description: self.function.description@,
            parameters: self.function.parameters@,
        }
    }
}

pub open spec fn tool_views(s: Seq<LlmTool>) -> Seq<ToolModel> {
    s.map_values(|t: LlmTool| t@)
}

impl Clone for LlmTool {
    fn clone(&self) -> (r: Self)
        ensures
            r@ == self@,
    {
        LlmTool {
            spec_type: self.spec_type.clone(),
            function: LlmToolFunction {
                name: self.function.name.clone(),
                description: self.function.description.clone(),
                parameters: self.function.parameters.clone(),
            },
        }
    }
}

impl LlmTool {
    pub fn new(name: &str, description: &str, parameters: Json) -> (r: Self)
        ensures
            r@ == (ToolModel {
                spec_type: "function"@,
                name: name@,
                description: description@,
                parameters: parameters@,
            }),
    {
        LlmTool {
            spec_type: "function".to_string(),
            function: LlmToolFunction {
                name: name.to_string(),
                description: description.to_string(),
                parameters,
            },
        }
    }
}

// ---------------------------------------------------------------------------
// Requests and answers
// ---------------------------------------------------------------------------

pub struct LlmRequest {
    pub model: String,
    pub messages: Vec<LlmMessage>,
    pub tools: Vec<LlmTool>,
    pub thinking: Option<ThinkingConfig>,
    pub max_tokens: Option<u32>,
}

/// A piece of an answer. Failures come beside these.
pub enum LlmStreamEvent {
    TextDelta(String),
    ThinkingDelta(String),
    ToolCallStart { index: usize, id: String, name: String },
    ToolCallDelta { index: usize, arguments_delta: String },
    ToolCallEnd { index: usize },
    /// The tokens that the answer took.
    Usage(Usage),
    Done { stop_reason: StopReason },
}

/// What a piece of an answer holds.
#[verifier::ext_equal]
pub enum PieceModel {
    TextDelta(Seq<char>),
    ThinkingDelta(Seq<char>),
    ToolCallStart { index: int, id: Seq<char>, name: Seq<char> },
    ToolCallDelta { index: int, arguments: Seq<char> },
    ToolCallEnd { index: int },
    Usage(Usage),
    Done(StopModel),
}

impl View for LlmStreamEvent {
    type V = PieceModel;

    open spec fn view(&self) -> PieceModel {
        match self {
            LlmStreamEvent::TextDelta(t) => PieceModel::TextDelta(t@),
            LlmStreamEvent::ThinkingDelta(t) => PieceModel::ThinkingDelta(t@),
            LlmStreamEvent::ToolCallStart { index, id, name } => PieceModel::ToolCallStart {
                index: *index as int,
                id: id@,
                name: name@,
            },
            LlmStreamEvent::ToolCallDelta { index, arguments_delta } =>
            PieceModel::ToolCallDelta { index: *index as int, arguments: arguments_delta@ },
            LlmStreamEvent::ToolCallEnd { index } => PieceModel::ToolCallEnd {
                index: *index as int,
            },
            LlmStreamEvent::Usage(u) => PieceModel::Usage(*u),
            LlmStreamEvent::Done { stop_reason } => PieceModel::Done(stop_reason@),
        }
    }
}

pub open spec fn piece_views(s: Seq<LlmStreamEvent>) -> Seq<PieceModel> {
    s.map_values(|e: LlmStreamEvent| e@)
}

/// Adds a piece to an answer.
pub(crate) fn add_piece(pieces: &mut Vec<LlmStreamEvent>, piece: LlmStreamEvent)
    ensures
        piece_views(final(pieces)@) == piece_views(old(pieces)@).push(piece@),
{
    let ghost before = piece_views(pieces@);
    pieces.push(piece);
    assert(piece_views(pieces@) =~= before.push(piece@));
}

/// The budget of a level for which no number is set.
pub open spec fn level_budget(level: ThinkingLevel) -> Option<u32> {
    ThinkingConfig { level, budget_tokens: None }.budget()
}

/// The more thinking is asked for, the more tokens there are for it; none where it is off. A
/// number that is set counts, whatever the level.
pub proof fn law_more_thinking_has_more_tokens(n: u32, level: ThinkingLevel)
    ensures
        (ThinkingConfig { level, budget_tokens: Some(n) }).budget() == Some(n),
        level_budget(ThinkingLevel::Off) is None,
        level != ThinkingLevel::Off ==> level_budget(level) is Some,
        0 < level_budget(ThinkingLevel::Minimal)->0,
        level_budget(ThinkingLevel::Minimal)->0 < level_budget(ThinkingLevel::Low)->0,
        level_budget(ThinkingLevel::Low)->0 < level_budget(ThinkingLevel::Medium)->0,
        level_budget(ThinkingLevel::Medium)->0 < level_budget(ThinkingLevel::High)->0,
        level_budget(ThinkingLevel::High)->0 < level_budget(ThinkingLevel::XHigh)->0,
{
}

/// A reason that is not known is passed on in its own words, and no other is.
pub proof fn law_unknown_reasons_are_passed_on(reason: Seq<char>)
    ensures
        openai_stop(reason) is Error <==> reason != "stop"@ && reason != "tool_calls"@ && reason
            != "function_call"@ && reason != "length"@ && reason != "content_filter"@ && reason
            != "refusal"@,
        openai_stop(reason) is Error ==> openai_stop(reason) == StopModel::Error(reason),
        openai_stop(reason) is Stop <==> reason == "stop"@,
        openai_stop(reason) is MaxTokens <==> reason == "length"@,
        openai_stop(reason) is ToolCalls <==> reason == "tool_calls"@ || reason
            == "function_call"@,
{
    reveal_strlit("stop");
    reveal_strlit("tool_calls");
    reveal_strlit("function_call");
    reveal_strlit("length");
    reveal_strlit("content_filter");
    reveal_strlit("refusal");
    assert("stop"@.len() == 4);
    assert("tool_calls"@.len() == 10);
    assert("function_call"@.len() == 13);
    assert("length"@.len() == 6);
    assert("content_filter"@.len() == 14);
    assert("refusal"@.len() == 7);
}

/// Each level is named by its own name, and whatever names none is no thinking.
pub proof fn law_levels_are_named(s: Seq<char>)
    ensures
        ThinkingLevel::named("minimal"@) == ThinkingLevel::Minimal,
        ThinkingLevel::named("low"@) == ThinkingLevel::Low,
        ThinkingLevel::named("medium"@) == ThinkingLevel::Medium,
        ThinkingLevel::named("high"@) == ThinkingLevel::High,
        ThinkingLevel::named("xhigh"@) == ThinkingLevel::XHigh,
        s != "minimal"@ && s != "low"@ && s != "medium"@ && s != "high"@ && s != "xhigh"@ && s
            != "x-high"@ && s != "xhi"@ ==> ThinkingLevel::named(s) == ThinkingLevel::Off,
{
    reveal_strlit("minimal");
    reveal_strlit("low");
    reveal_strlit("medium");
    reveal_strlit("high");
    reveal_strlit("xhigh");
    assert("minimal"@.len() == 7);
    assert("low"@.len() == 3);
    assert("medium"@.len() == 6);
    assert("high"@.len() == 4);
    assert("xhigh"@.len() == 5);
    assert("low"@[0] == 'l');
}

} // verus!
