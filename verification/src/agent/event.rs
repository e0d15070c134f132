//! What the agent reports while it works.
use vstd::prelude::*;

use super::message::{ActionSummary, AgentResult, ToolResult};
use super::request::StopReason;

verus! {

#[allow(inconsistent_fields)]
pub enum AgentEvent {
    AgentStart,
    AgentEnd { result: AgentResult },
    TurnStart { turn: u32 },
    TurnEnd { turn: u32 },
    MessageStart,
    MessageUpdate { content: MessageUpdateContent },
    MessageEnd { stop_reason: StopReason },
    ToolExecutionStart { tool_name: String, call_id: String, args: String },
    ToolExecutionUpdate { call_id: String, update: ToolUpdateContent },
    ToolExecutionEnd { call_id: String, result: ToolResult },
    ThinkingDelta { content: String },
    Error { error: String },
}

/// A piece of an answer.
pub enum MessageUpdateContent {
    TextDelta { text: String },
    ToolCallStart { index: usize, id: String, name: String },
    ToolCallDelta { index: usize, arguments: String },
}

/// A piece of a tool's output.
pub enum ToolUpdateContent {
    Progress { message: String },
    PartialOutput { text: String },
}

/// What an action summary holds.
#[verifier::ext_equal]
pub struct ActionModel {
    pub tool_name: Seq<char>,
    pub success: bool,
    pub output_preview: Seq<char>,
}

impl View for ActionSummary {
    type V = ActionModel;

    open spec fn view(&self) -> ActionModel {
        ActionModel {
            tool_name: self.tool_name@,
            success: self.success,
            output_preview: self.output_preview@,
        }
    }
}

pub open spec fn action_views(s: Seq<ActionSummary>) -> Seq<ActionModel> {
    s.map_values(|a: ActionSummary| a@)
}

#[verifier::ext_equal]
pub enum UpdateModel {
    TextDelta { text: Seq<char> },
    ToolCallStart { index: usize, id: Seq<char>, name: Seq<char> },
    ToolCallDelta { index: usize, arguments: Seq<char> },
}

impl View for MessageUpdateContent {
    type V = UpdateModel;

    open spec fn view(&self) -> UpdateModel {
        match self {
            MessageUpdateContent::TextDelta { text } => UpdateModel::TextDelta { text: text@ },
            MessageUpdateContent::ToolCallStart { index, id, name } => UpdateModel::ToolCallStart {
                index: *index,
                id: id@,
                name: name@,
            },
            MessageUpdateContent::ToolCallDelta { index, arguments } =>
            UpdateModel::ToolCallDelta { index: *index, arguments: arguments@ },
        }
    }
}

/// What an event holds.
#[verifier::ext_equal]
#[allow(inconsistent_fields)]
pub enum EventModel {
    AgentStart,
    AgentEnd { text: Seq<char>, actions: Seq<ActionModel> },
    TurnStart { turn: u32 },
    TurnEnd { turn: u32 },
    MessageStart,
    MessageUpdate { content: UpdateModel },
    MessageEnd { stop_reason: StopReason },
    ToolExecutionStart { tool_name: Seq<char>, call_id: Seq<char>, args: Seq<char> },
    ToolExecutionUpdate { call_id: Seq<char>, update: ToolUpdateContent },
    ToolExecutionEnd { call_id: Seq<char>, result: ToolResult },
    ThinkingDelta { content: Seq<char> },
    Error { error: Seq<char> },
}

impl View for AgentEvent {
    type V = EventModel;

    open spec fn view(&self) -> EventModel {
        match self {
            AgentEvent::AgentStart => EventModel::AgentStart,
            AgentEvent::AgentEnd { result } => EventModel::AgentEnd {
                text: result.text@,
                actions: action_views(result.actions@),
            },
            AgentEvent::TurnStart { turn } => EventModel::TurnStart { turn: *turn },
            AgentEvent::TurnEnd { turn } => EventModel::TurnEnd { turn: *turn },
            AgentEvent::MessageStart => EventModel::MessageStart,
            AgentEvent::MessageUpdate { content } => EventModel::MessageUpdate {
                content: content@,
            },
            AgentEvent::MessageEnd { stop_reason } => EventModel::MessageEnd {
                stop_reason: *stop_reason,
            },
            AgentEvent::ToolExecutionStart { tool_name, call_id, args } =>
            EventModel::ToolExecutionStart {
                tool_name: tool_name@,
                call_id: call_id@,
                args: args@,
            },
            AgentEvent::ToolExecutionUpdate { call_id, update } =>
            EventModel::ToolExecutionUpdate { call_id: call_id@, update: *update },
            AgentEvent::ToolExecutionEnd { call_id, result } => EventModel::ToolExecutionEnd {
                call_id: call_id@,
                result: *result,
            },
            AgentEvent::ThinkingDelta { content } => EventModel::ThinkingDelta {
                content: content@,
            },
            AgentEvent::Error { error } => EventModel::Error { error: error@ },
        }
    }
}

pub open spec fn event_views(s: Seq<AgentEvent>) -> Seq<EventModel> {
    s.map_values(|e: AgentEvent| e@)
}

} // verus!
