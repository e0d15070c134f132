//! The conversation as the agent keeps it.
use vstd::prelude::*;

use crate::text;

use super::request::StopReason;
use super::usage::Usage;

verus! {

/// The result of one tool call.
pub struct ToolResult {
    pub call_id: String,
    pub tool_name: String,
    pub content: String,
    pub is_error: bool,
}

impl Clone for ToolResult {
    fn clone(&self) -> (r: Self)
        ensures
            r == *self,
    {
        ToolResult {
            call_id: self.call_id.clone(),
            tool_name: self.tool_name.clone(),
            content: self.content.clone(),
            is_error: self.is_error,
        }
    }
}

/// One action that the agent has taken.
pub struct ActionSummary {
    pub tool_name: String,
    pub success: bool,
    pub output_preview: String,
}

impl Clone for ActionSummary {
    fn clone(&self) -> (r: Self)
        ensures
            r == *self,
    {
        ActionSummary {
            tool_name: self.tool_name.clone(),
            success: self.success,
            output_preview: self.output_preview.clone(),
        }
    }
}

/// What a run of the agent has come to.
pub struct AgentResult {
    pub text: String,
    pub actions: Vec<ActionSummary>,
}

/// A tool call that the model has asked for.
pub struct ToolCall {
    pub id: String,
    pub name: String,
    pub arguments: String,
}

/// What a tool call holds.
#[verifier::ext_equal]
pub struct ToolCallModel {
    pub id: Seq<char>,
    pub name: Seq<char>,
    pub arguments: Seq<char>,
}

impl View for ToolCall {
    type V = ToolCallModel;

    open spec fn view(&self) -> ToolCallModel {
        ToolCallModel { id: self.id@, name: self.name@, arguments: self.arguments@ }
    }
}

pub open spec fn tool_call_views(s: Seq<ToolCall>) -> Seq<ToolCallModel> {
    s.map_values(|c: ToolCall| c@)
}

impl Clone for ToolCall {
    fn clone(&self) -> (r: Self)
        ensures
            r == *self,
    {
        ToolCall {
            id: self.id.clone(),
            name: self.name.clone(),
            arguments: self.arguments.clone(),
        }
    }
}

pub enum UserContent {
    Text(String),
    /// An image in the message itself. No provider takes it yet.
    Image { mime_type: String, data: Vec<u8> },
}

pub enum ToolResultContent {
    Text(String),
    /// An image that a tool has made. It is shown, but not sent to the model yet.
    Image { mime_type: String, data: Vec<u8> },
}

/// Something that goes along with a message.
pub struct Attachment {
    pub mime_type: String,
    pub data: Vec<u8>,
    pub name: String,
}

/// One message of a conversation, whatever the provider.
#[allow(inconsistent_fields)]
pub enum AgentMessage {
    System { content: String },
    User { content: UserContent, attachments: Vec<Attachment> },
    Assistant {
        content: Option<String>,
        tool_calls: Vec<ToolCall>,
        thinking: Option<String>,
        usage: Option<Usage>,
        stop_reason: Option<StopReason>,
    },
    ToolResult { tool_call_id: String, content: ToolResultContent, is_error: bool },
}

/// A text, or an image with its type.
#[verifier::ext_equal]
pub enum ContentModel {
    Text(Seq<char>),
    Image { mime_type: Seq<char>, data: Seq<u8> },
}

impl View for UserContent {
    type V = ContentModel;

    open spec fn view(&self) -> ContentModel {
        match self {
            UserContent::Text(t) => ContentModel::Text(t@),
            UserContent::Image { mime_type, data } => ContentModel::Image {
                mime_type: mime_type@,
                data: data@,
            },
        }
    }
}

impl View for ToolResultContent {
    type V = ContentModel;

    open spec fn view(&self) -> ContentModel {
        match self {
            ToolResultContent::Text(t) => ContentModel::Text(t@),
            ToolResultContent::Image { mime_type, data } => ContentModel::Image {
                mime_type: mime_type@,
                data: data@,
            },
        }
    }
}

#[verifier::ext_equal]
pub struct AttachmentModel {
    pub mime_type: Seq<char>,
    pub data: Seq<u8>,
    pub name: Seq<char>,
}

impl View for Attachment {
    type V = AttachmentModel;

    open spec fn view(&self) -> AttachmentModel {
        AttachmentModel { mime_type: self.mime_type@, data: self.data@, name: self.name@ }
    }
}

pub open spec fn attachment_views(s: Seq<Attachment>) -> Seq<AttachmentModel> {
    s.map_values(|a: Attachment| a@)
}

/// What a message holds.
#[verifier::ext_equal]
#[allow(inconsistent_fields)]
pub enum MessageModel {
    System { content: Seq<char> },
    User { content: ContentModel, attachments: Seq<AttachmentModel> },
    Assistant {
        content: Option<Seq<char>>,
        tool_calls: Seq<ToolCallModel>,
        thinking: Option<Seq<char>>,
        usage: Option<Usage>,
        stop_reason: Option<StopReason>,
    },
    ToolResult { tool_call_id: Seq<char>, content: ContentModel, is_error: bool },
}

impl View for AgentMessage {
    type V = MessageModel;

    open spec fn view(&self) -> MessageModel {
        match self {
            AgentMessage::System { content } => MessageModel::System { content: content@ },
            AgentMessage::User { content, attachments } => MessageModel::User {
                content: content@,
                attachments: attachment_views(attachments@),
            },
            AgentMessage::Assistant { content, tool_calls, thinking, usage, stop_reason } =>
            MessageModel::Assistant {
                content: text::opt_text(*content),
                tool_calls: tool_call_views(tool_calls@),
                thinking: text::opt_text(*thinking),
                usage: *usage,
                stop_reason: *stop_reason,
            },
            AgentMessage::ToolResult { tool_call_id, content, is_error } =>
            MessageModel::ToolResult {
                tool_call_id: tool_call_id@,
                content: content@,
                is_error: *is_error,
            },
        }
    }
}

/// What a conversation holds.
pub open spec fn message_views(s: Seq<AgentMessage>) -> Seq<MessageModel> {
    s.map_values(|m: AgentMessage| m@)
}

impl Clone for UserContent {
    fn clone(&self) -> (r: Self)
        ensures
            r@ == self@,
    {
        match self {
            UserContent::Text(t) => UserContent::Text(t.clone()),
            UserContent::Image { mime_type, data } => {
                let copy = data.clone();
                assert(copy@ =~= data@);
                UserContent::Image { mime_type: mime_type.clone(), data: copy }
            },
        }
    }
}

impl Clone for ToolResultContent {
    fn clone(&self) -> (r: Self)
        ensures
            r@ == self@,
    {
        match self {
            ToolResultContent::Text(t) => ToolResultContent::Text(t.clone()),
            ToolResultContent::Image { mime_type, data } => {
                let copy = data.clone();
                assert(copy@ =~= data@);
                ToolResultContent::Image { mime_type: mime_type.clone(), data: copy }
            },
        }
    }
}

impl Clone for Attachment {
    fn clone(&self) -> (r: Self)
        ensures
            r@ == self@,
    {
        let data = self.data.clone();
        assert(data@ =~= self.data@);
        Attachment { mime_type: self.mime_type.clone(), data, name: self.name.clone() }
    }
}

impl Clone for AgentMessage {
    fn clone(&self) -> (r: Self)
        ensures
            r@ == self@,
    {
        match self {
            AgentMessage::System { content } => AgentMessage::System { content: content.clone() },
            AgentMessage::User { content, attachments } => {
                let copies = attachments.clone();
                assert(attachment_views(copies@) =~= attachment_views(attachments@));
                AgentMessage::User { content: content.clone(), attachments: copies }
            },
            AgentMessage::Assistant { content, tool_calls, thinking, usage, stop_reason } => {
                let calls = tool_calls.clone();
                assert(calls@ =~= tool_calls@);
                AgentMessage::Assistant {
                    content: content.clone(),
                    tool_calls: calls,
                    thinking: thinking.clone(),
                    usage: *usage,
                    stop_reason: stop_reason.clone(),
                }
            },
            AgentMessage::ToolResult { tool_call_id, content, is_error } => {
                AgentMessage::ToolResult {
                    tool_call_id: tool_call_id.clone(),
                    content: content.clone(),
                    is_error: *is_error,
                }
            },
        }
    }
}

/// A user's message with nothing but a text.
pub open spec fn user_message(text: Seq<char>) -> MessageModel {
    MessageModel::User { content: ContentModel::Text(text), attachments: seq![] }
}

/// An answer with nothing but a text and tool calls.
pub open spec fn assistant_message(
    content: Option<Seq<char>>,
    tool_calls: Seq<ToolCallModel>,
) -> MessageModel {
    MessageModel::Assistant { content, tool_calls, thinking: None, usage: None, stop_reason: None }
}

/// The result of a tool call as a message.
pub open spec fn result_message(
    tool_call_id: Seq<char>,
    content: Seq<char>,
    is_error: bool,
) -> MessageModel {
    MessageModel::ToolResult { tool_call_id, content: ContentModel::Text(content), is_error }
}

impl AgentMessage {
    pub fn system(content: &str) -> (r: Self)
        ensures
            r@ == (MessageModel::System { content: content@ }),
    {
        AgentMessage::System { content: content.to_string() }
    }

    pub fn user(text: &str) -> (r: Self)
        ensures
            r@ == user_message(text@),
    {
        let attachments: Vec<Attachment> = Vec::new();
        assert(attachment_views(attachments@) =~= seq![]);
        AgentMessage::User { content: UserContent::Text(text.to_string()), attachments }
    }

    pub fn assistant_text(text: &str) -> (r: Self)
        ensures
            r@ == assistant_message(Some(text@), seq![]),
    {
        let tool_calls: Vec<ToolCall> = Vec::new();
        assert(tool_call_views(tool_calls@) =~= seq![]);
        AgentMessage::Assistant {
            content: Some(text.to_string()),
            tool_calls,
            thinking: None,
            usage: None,
            stop_reason: None,
        }
    }

    pub fn assistant_tool_calls(calls: Vec<ToolCall>) -> (r: Self)
        ensures
            r@ == assistant_message(None, tool_call_views(calls@)),
    {
        AgentMessage::Assistant {
            content: None,
            tool_calls: calls,
            thinking: None,
            usage: None,
            stop_reason: None,
        }
    }

    pub fn tool_result(tool_call_id: &str, content: &str) -> (r: Self)
        ensures
            r@ == result_message(tool_call_id@, content@, false),
    {
        AgentMessage::tool_result_with_error(tool_call_id, content, false)
    }

    /// The result of a tool call, which may be an error.
    pub fn tool_result_with_error(tool_call_id: &str, content: &str, is_error: bool) -> (r: Self)
        ensures
            r@ == result_message(tool_call_id@, content@, is_error),
    {
        AgentMessage::ToolResult {
            tool_call_id: tool_call_id.to_string(),
            content: ToolResultContent::Text(content.to_string()),
            is_error,
        }
    }
}

/// The system prompt of an agent that is given no other.
pub open spec fn default_prompt() -> Seq<char> {
    "You are VoxClaw Agent, a voice-driven AI assistant. The user speaks to you via voice input.\n- If the user wants to dictate text, return it directly without using tools.\n- If the user wants to perform an action (open app, run command, etc.), use the appropriate tool.\n- Be concise — voice interactions should be quick.\n- Respond in the same language the user speaks.\n- When you perform an action, briefly confirm what you did."@
}

pub fn default_system_prompt() -> (r: &'static str)
    ensures
        r@ == default_prompt(),
{
    "You are VoxClaw Agent, a voice-driven AI assistant. The user speaks to you via voice input.\n- If the user wants to dictate text, return it directly without using tools.\n- If the user wants to perform an action (open app, run command, etc.), use the appropriate tool.\n- Be concise — voice interactions should be quick.\n- Respond in the same language the user speaks.\n- When you perform an action, briefly confirm what you did."
}

} // verus!
