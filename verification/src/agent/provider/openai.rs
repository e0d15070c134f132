//! Providers that speak the OpenAI interface.
use vstd::prelude::*;

use crate::agent::error::AgentError;
use crate::agent::request::{
    CallModel, LlmMessage, LlmMessageModel, LlmRequest, LlmStreamEvent, LlmTool, LlmToolCall,
    PieceModel, StopModel, StopReason, ToolModel,
};
use crate::agent::usage::Usage;
use crate::json::{Json, JsonModel};
use crate::text::CharClass;
use crate::{agent, json, state, text};

use super::ProviderCapabilities;

verus! {

pub struct OpenAiProvider {
    pub base_url: String,
    pub api_key: String,
    pub model: String,
}

impl OpenAiProvider {
    /// The provider was made for these settings.
    pub open spec fn is_for(self, base_url: Seq<char>, api_key: Seq<char>, model: Seq<char>) -> bool {
        &&& self.base_url@ == text::trim_end(base_url, CharClass::Slash)
        &&& self.api_key@ == api_key
        &&& self.model@ == model
    }

    pub fn new(base_url: &str, api_key: &str, model: &str) -> (r: Self)
        ensures
            r.is_for(base_url@, api_key@, model@),
    {
        OpenAiProvider {
            base_url: text::trim_end_str(base_url, CharClass::Slash).to_string(),
            api_key: api_key.to_string(),
            model: model.to_string(),
        }
    }

    pub fn name(&self) -> (r: &'static str)
        ensures
            r@ == "openai_compatible"@,
    {
        "openai_compatible"
    }

    pub fn capabilities(&self) -> (r: ProviderCapabilities)
        ensures
            r == (ProviderCapabilities {
                thinking: false,
                vision: true,
                tool_calling: true,
                streaming: true,
            }),
    {
        ProviderCapabilities { thinking: false, vision: true, tool_calling: true, streaming: true }
    }

    /// Where requests go.
    pub fn url(&self) -> (r: String)
        ensures
            r@ == self.base_url@ + "/chat/completions"@,
    {
        text::concat2(self.base_url.as_str(), "/chat/completions")
    }

    /// The value of the header that authorises a request.
    pub fn authorization(&self) -> (r: String)
        ensures
            r@ == "Bearer "@ + self.api_key@,
    {
        text::concat2("Bearer ", self.api_key.as_str())
    }
}

/// One line of at most `max_chars` characters of a response.
pub fn response_preview(text: &str, max_chars: usize) -> (r: String)
    ensures
        r@ == state::preview(text@, max_chars as nat),
{
    state::preview_text(text, max_chars)
}

// ---------------------------------------------------------------------------
// Requests
// ---------------------------------------------------------------------------

/// A tool call as it stands in a request.
pub open spec fn call_json(c: CallModel) -> JsonModel {
    JsonModel::Object(
        seq![
            ("id"@, JsonModel::Text(c.id)),
            ("type"@, JsonModel::Text(c.call_type)),
            (
                "function"@,
                JsonModel::Object(
                    seq![
                        ("name"@, JsonModel::Text(c.name)),
                        ("arguments"@, JsonModel::Text(c.arguments)),
                    ],
                ),
            ),
        ],
    )
}

/// A message as it stands in a request.
pub open spec fn message_json(m: LlmMessageModel) -> JsonModel {
    let role = seq![("role"@, JsonModel::Text(m.role))];
    let content = match m.content {
        Some(c) => seq![("content"@, JsonModel::Text(c))],
        None => seq![],
    };
    let calls = if m.tool_calls.len() > 0 {
        seq![("tool_calls"@, JsonModel::List(m.tool_calls.map_values(|c: CallModel| call_json(c))))]
    } else {
        seq![]
    };
    let id = match m.tool_call_id {
        Some(i) => seq![("tool_call_id"@, JsonModel::Text(i))],
        None => seq![],
    };
    JsonModel::Object(role + content + calls + id)
}

/// A tool as it stands in a request.
pub open spec fn tool_json(t: ToolModel) -> JsonModel {
    JsonModel::Object(
        seq![
            ("type"@, JsonModel::Text(t.spec_type)),
            (
                "function"@,
                JsonModel::Object(
                    seq![
                        ("name"@, JsonModel::Text(t.name)),
                        ("description"@, JsonModel::Text(t.description)),
                        ("parameters"@, t.parameters),
                    ],
                ),
            ),
        ],
    )
}

/// The body of a request.
pub open spec fn body_json(
    model: Seq<char>,
    messages: Seq<LlmMessageModel>,
    tools: Seq<ToolModel>,
    max_tokens: Option<u32>,
) -> JsonModel {
    let fixed = seq![
        ("model"@, JsonModel::Text(model)),
        ("messages"@, JsonModel::List(messages.map_values(|m: LlmMessageModel| message_json(m)))),
        ("stream"@, JsonModel::Bool(false)),
    ];
    let offered = if tools.len() > 0 {
        seq![
            ("tools"@, JsonModel::List(tools.map_values(|t: ToolModel| tool_json(t)))),
            ("tool_choice"@, JsonModel::Text("auto"@)),
        ]
    } else {
        seq![]
    };
    let limit = match max_tokens {
        Some(n) => seq![("max_tokens"@, json::number_model(n as nat))],
        None => seq![],
    };
    JsonModel::Object(fixed + offered + limit)
}

fn call_value(c: &LlmToolCall) -> (r: Json)
    ensures
        r@ == call_json(c@),
{
    let function = json::object2(
        "name",
        json::text_value(c.function.name.as_str()),
        "arguments",
        json::text_value(c.function.arguments.as_str()),
    );
    json::object3(
        "id",
        json::text_value(c.id.as_str()),
        "type",
        json::text_value(c.call_type.as_str()),
        "function",
        function,
    )
}

fn message_value(m: &LlmMessage) -> (r: Json)
    ensures
        r@ == message_json(m@),
{
    let mut members: Vec<(String, Json)> = Vec::new();
    json::add_member(&mut members, "role", json::text_value(m.role.as_str()));
    if let Some(content) = &m.content {
        json::add_member(&mut members, "content", json::text_value(content.as_str()));
    }
    if m.tool_calls.len() > 0 {
        let ghost all = m@.tool_calls;
        let mut calls: Vec<Json> = Vec::new();
        for i in 0..m.tool_calls.len()
            invariant
                all == agent::request::call_views(m.tool_calls@),
                json::item_views(calls@) == all.take(i as int).map_values(
                    |c: CallModel| call_json(c),
                ),
        {
            json::add_item(&mut calls, call_value(&m.tool_calls[i]));
            assert(all.take(i + 1) =~= all.take(i as int).push(all[i as int]));
        }
        assert(all.take(all.len() as int) =~= all);
        json::add_member(&mut members, "tool_calls", json::list(calls));
    }
    if let Some(id) = &m.tool_call_id {
        json::add_member(&mut members, "tool_call_id", json::text_value(id.as_str()));
    }
    let r = json::object(members);
    assert(r@->Object_0 =~= message_json(m@)->Object_0);
    r
}

fn tool_value(t: LlmTool) -> (r: Json)
    ensures
        r@ == tool_json(t@),
{
    let function = json::object3(
        "name",
        json::text_value(t.function.name.as_str()),
        "description",
        json::text_value(t.function.description.as_str()),
        "parameters",
        t.function.parameters,
    );
    json::object2("type", json::text_value(t.spec_type.as_str()), "function", function)
}

/// The body of the request to the provider. The sampling temperature is no part of it.
pub fn request_body(request: LlmRequest) -> (r: Json)
    ensures
        r@ == body_json(
            request.model@,
            agent::request::llm_views(request.messages@),
            agent::request::tool_views(request.tools@),
            request.max_tokens,
        ),
{
    let ghost all = agent::request::llm_views(request.messages@);
    let ghost offered = agent::request::tool_views(request.tools@);
    let mut messages: Vec<Json> = Vec::new();
    for i in 0..request.messages.len()
        invariant
            all == agent::request::llm_views(request.messages@),
            json::item_views(messages@) == all.take(i as int).map_values(
                |m: LlmMessageModel| message_json(m),
            ),
    {
        json::add_item(&mut messages, message_value(&request.messages[i]));
        assert(all.take(i + 1) =~= all.take(i as int).push(all[i as int]));
    }
    assert(all.take(all.len() as int) =~= all);
    let mut members: Vec<(String, Json)> = Vec::new();
    json::add_member(&mut members, "model", json::text_value(request.model.as_str()));
    json::add_member(&mut members, "messages", json::list(messages));
    json::add_member(&mut members, "stream", Json::Bool(false));
    if request.tools.len() > 0 {
        let mut rest = request.tools;
        let n: usize = rest.len();
        let mut tools: Vec<Json> = Vec::new();
        assert(offered.skip(0) =~= offered);
        for i in 0..n
            invariant
                n == offered.len(),
                agent::request::tool_views(rest@) == offered.skip(i as int),
                json::item_views(tools@) == offered.take(i as int).map_values(
                    |t: ToolModel| tool_json(t),
                ),
        {
            let ghost before = agent::request::tool_views(rest@);
            assert(before.len() == rest@.len());
            let tool = rest.remove(0);
            assert(before[0] == tool@);
            assert(offered[i as int] == tool@);
            json::add_item(&mut tools, tool_value(tool));
            assert(agent::request::tool_views(rest@) =~= before.drop_first());
            assert(before.drop_first() =~= offered.skip(i + 1));
            assert(offered.take(i + 1) =~= offered.take(i as int).push(offered[i as int]));
        }
        assert(offered.take(offered.len() as int) =~= offered);
        json::add_member(&mut members, "tools", json::list(tools));
        json::add_member(&mut members, "tool_choice", json::text_value("auto"));
    }
    if let Some(n) = request.max_tokens {
        json::add_member(&mut members, "max_tokens", json::number(n as u64));
    }
    let r = json::object(members);
    assert(r@->Object_0 =~= body_json(
        request.model@,
        all,
        offered,
        request.max_tokens,
    )->Object_0);
    r
}

// ---------------------------------------------------------------------------
// Responses
// ---------------------------------------------------------------------------

/// The pieces of a tool call of a response.
pub open spec fn call_pieces(call: JsonModel, index: int) -> Seq<PieceModel> {
    let function = json::member_or_null(call, "function"@);
    let arguments = json::text_or_empty(function, "arguments"@);
    let start = seq![
        PieceModel::ToolCallStart {
            index,
            id: json::text_or_empty(call, "id"@),
            name: json::text_or_empty(function, "name"@),
        },
    ];
    let body = if arguments.len() > 0 {
        seq![PieceModel::ToolCallDelta { index, arguments }]
    } else {
        seq![]
    };
    start + body + seq![PieceModel::ToolCallEnd { index }]
}

/// The pieces of the tool calls of a response, in their order.
pub open spec fn all_call_pieces(calls: Seq<JsonModel>) -> Seq<PieceModel>
    decreases calls.len(),
{
    if calls.len() == 0 {
        seq![]
    } else {
        all_call_pieces(calls.drop_last()) + call_pieces(calls.last(), calls.len() - 1)
    }
}

/// The token counts of a response.
pub open spec fn usage_of(usage: JsonModel) -> Usage {
    Usage {
        input: json::number_or_zero(usage, "prompt_tokens"@),
        output: json::number_or_zero(usage, "completion_tokens"@),
        cache_read: json::number_or_zero(
            json::member_or_null(usage, "prompt_tokens_details"@),
            "cached_tokens"@,
        ),
        cache_write: 0,
        total: json::number_or_zero(usage, "total_tokens"@),
    }
}

/// The text of a message of a response, where it has any.
pub open spec fn text_pieces(message: JsonModel) -> Seq<PieceModel> {
    let content = json::text_or_empty(message, "content"@);
    if content.len() > 0 {
        seq![PieceModel::TextDelta(content)]
    } else {
        seq![]
    }
}

pub open spec fn usage_pieces(response: JsonModel) -> Seq<PieceModel> {
    match json::member(response, "usage"@) {
        Some(u) => seq![PieceModel::Usage(usage_of(u))],
        None => seq![],
    }
}

/// Why a choice of a response ended.
pub open spec fn choice_stop(choice: JsonModel) -> StopModel {
    match json::text_member(choice, "finish_reason"@) {
        Some(f) => agent::request::openai_stop(f),
        None => StopModel::Stop,
    }
}

/// The pieces of a response: those of the message of its first choice, its token counts
/// and why it ended; none where it has no choice with a message.
pub open spec fn chat_pieces(response: JsonModel) -> Seq<PieceModel> {
    let choices = json::items(json::member_or_null(response, "choices"@));
    if choices.len() == 0 || json::member(choices[0], "message"@) is None {
        seq![]
    } else {
        let message = json::member_or_null(choices[0], "message"@);
        text_pieces(message) + all_call_pieces(
            json::items(json::member_or_null(message, "tool_calls"@)),
        ) + usage_pieces(response) + seq![PieceModel::Done(choice_stop(choices[0]))]
    }
}

fn add_call_pieces(pieces: &mut Vec<LlmStreamEvent>, call: &Json, index: usize)
    ensures
        agent::request::piece_views(final(pieces)@) == agent::request::piece_views(old(pieces)@)
            + call_pieces(call@, index as int),
{
    let ghost before = agent::request::piece_views(pieces@);
    let id = call.get_text("id");
    let (name, arguments) = match call.get("function") {
        Some(f) => (f.get_text("name"), f.get_text("arguments")),
        None => (String::new(), String::new()),
    };
    agent::request::add_piece(pieces, LlmStreamEvent::ToolCallStart { index, id, name });
    if !arguments.as_str().is_empty() {
        agent::request::add_piece(
            pieces,
            LlmStreamEvent::ToolCallDelta { index, arguments_delta: arguments },
        );
    }
    agent::request::add_piece(pieces, LlmStreamEvent::ToolCallEnd { index });
    assert(agent::request::piece_views(pieces@) =~= before + call_pieces(call@, index as int));
}

/// The pieces of a response.
pub fn parse_chat_response(value: &Json) -> (r: Vec<LlmStreamEvent>)
    ensures
        agent::request::piece_views(r@) == chat_pieces(value@),
{
    let mut events: Vec<LlmStreamEvent> = Vec::new();
    assert(agent::request::piece_views(events@) =~= seq![]);
    let choices = match value.get("choices") {
        Some(c) => c,
        None => return events,
    };
    if choices.item_count() == 0 {
        return events;
    }
    let choice = choices.item(0);
    let message = match choice.get("message") {
        Some(m) => m,
        None => return events,
    };
    let content = message.get_text("content");
    if !content.as_str().is_empty() {
        agent::request::add_piece(&mut events, LlmStreamEvent::TextDelta(content));
    }
    let ghost head = text_pieces(message@);
    assert(agent::request::piece_views(events@) =~= head);
    let ghost all = json::items(json::member_or_null(message@, "tool_calls"@));
    assert(head + all_call_pieces(all.take(0)) =~= head);
    if let Some(calls) = message.get("tool_calls") {
        let n: usize = calls.item_count();
        for i in 0..n
            invariant
                n == all.len(),
                all == json::items(calls@),
                agent::request::piece_views(events@) == head + all_call_pieces(all.take(i as int)),
        {
            add_call_pieces(&mut events, calls.item(i), i);
            assert(all.take(i + 1).drop_last() =~= all.take(i as int));
            assert(agent::request::piece_views(events@) =~= head + all_call_pieces(
                all.take(i + 1),
            ));
        }
    }
    assert(all.take(all.len() as int) =~= all);
    if let Some(usage) = value.get("usage") {
        let cache_read: u64 = match usage.get("prompt_tokens_details") {
            Some(d) => d.get_number("cached_tokens"),
            None => 0,
        };
        agent::request::add_piece(
            &mut events,
            LlmStreamEvent::Usage(
                Usage {
                    input: usage.get_number("prompt_tokens"),
                    output: usage.get_number("completion_tokens"),
                    cache_read,
                    cache_write: 0,
                    total: usage.get_number("total_tokens"),
                },
            ),
        );
    }
    let stop_reason = match choice.get_str("finish_reason") {
        Some(f) => StopReason::from_openai(f),
        None => StopReason::Stop,
    };
    agent::request::add_piece(&mut events, LlmStreamEvent::Done { stop_reason });
    assert(agent::request::piece_views(events@) =~= chat_pieces(value@));
    events
}

/// What a response of the provider says: its status, where that reports a failure, or
/// the pieces of the answer that its text stands for.
pub fn read_response(failed_status: Option<&str>, text: &str) -> (r: Result<
    Vec<LlmStreamEvent>,
    AgentError,
>)
    ensures
        match failed_status {
            Some(status) => r matches Err(AgentError::Provider(m)) && m@ == "API error ("@ + status@
                + "): "@ + state::preview(text@, 400),
            None => match json::parsed(text@) {
                Some(v) => r matches Ok(pieces) && agent::request::piece_views(pieces@)
                    == chat_pieces(v),
                None => r matches Err(AgentError::Provider(m)) && exists|e: Seq<char>| #[trigger]
                    json::is_parse_message(text, e) && m@ == ("Parse error: "@ + e) + (" | raw response preview: "@
                        + state::preview(text@, 500)),
            },
        },
{
    if let Some(status) = failed_status {
        return Err(super::api_error(status, response_preview(text, 400).as_str()));
    }
    match json::parse(text) {
        Ok(v) => Ok(parse_chat_response(&v)),
        Err(e) => {
            let why = json::error_message(&e);
            assert(json::is_parse_message(text, why@));
            let head = text::concat2("Parse error: ", why.as_str());
            let tail = text::concat2(
                " | raw response preview: ",
                response_preview(text, 500).as_str(),
            );
            Err(AgentError::Provider(text::concat2(head.as_str(), tail.as_str())))
        },
    }
}

// ---------------------------------------------------------------------------
// Laws of requests and responses
// ---------------------------------------------------------------------------

/// A message stands in a request under its own role, with its content and the call that it
/// answers where it has them, and with all its tool calls: their ids, names and arguments.
pub proof fn law_a_message_is_sent_as_it_is(m: LlmMessageModel)
    ensures
        ({
            let sent = message_json(m);
            let calls = json::items(json::member_or_null(sent, "tool_calls"@));
            &&& json::text_member(sent, "role"@) == Some(m.role)
            &&& json::text_member(sent, "content"@) == m.content
            &&& json::text_member(sent, "tool_call_id"@) == m.tool_call_id
            &&& json::member(sent, "content"@) is Some <==> m.content is Some
            &&& json::member(sent, "tool_call_id"@) is Some <==> m.tool_call_id is Some
            &&& json::member(sent, "tool_calls"@) is Some <==> m.tool_calls.len() > 0
            &&& calls.len() == m.tool_calls.len()
            &&& forall|i: int|
                0 <= i < calls.len() ==> {
                    let function = json::member_or_null(#[trigger] calls[i], "function"@);
                    &&& json::text_member(calls[i], "id"@) == Some(m.tool_calls[i].id)
                    &&& json::text_member(calls[i], "type"@) == Some(m.tool_calls[i].call_type)
                    &&& json::text_member(function, "name"@) == Some(m.tool_calls[i].name)
                    &&& json::text_member(function, "arguments"@) == Some(
                        m.tool_calls[i].arguments,
                    )
                }
        }),
{
    reveal_strlit("role");
    reveal_strlit("content");
    reveal_strlit("tool_calls");
    reveal_strlit("tool_call_id");
    assert("role"@.len() == 4);
    assert("content"@.len() == 7);
    assert("tool_calls"@.len() == 10);
    assert("tool_call_id"@.len() == 12);
    let all = message_json(m)->Object_0;
    let said = if m.content is Some {
        1int
    } else {
        0
    };
    let called = if m.tool_calls.len() > 0 {
        1int
    } else {
        0
    };
    let answers = if m.tool_call_id is Some {
        1int
    } else {
        0
    };
    assert(all.len() == 1 + said + called + answers);
    assert(all[0].0 == "role"@);
    json::lemma_find_at(all, 0);
    if said == 1 {
        assert(all[1] == ("content"@, JsonModel::Text(m.content->0)));
        json::lemma_find_at(all, 1);
    }
    if called == 1 {
        assert(all[1 + said].0 == "tool_calls"@);
        json::lemma_find_at(all, 1 + said);
    }
    if answers == 1 {
        assert(all[1 + said + called] == ("tool_call_id"@, JsonModel::Text(m.tool_call_id->0)));
        json::lemma_find_at(all, 1 + said + called);
    }
    if said == 0 {
        json::lemma_find_none(all, "content"@);
    }
    if called == 0 {
        json::lemma_find_none(all, "tool_calls"@);
    }
    if answers == 0 {
        json::lemma_find_none(all, "tool_call_id"@);
    }
    let sent = json::items(json::member_or_null(message_json(m), "tool_calls"@));
    assert forall|i: int| 0 <= i < sent.len() implies {
        let function = json::member_or_null(#[trigger] sent[i], "function"@);
        &&& json::text_member(sent[i], "id"@) == Some(m.tool_calls[i].id)
        &&& json::text_member(sent[i], "type"@) == Some(m.tool_calls[i].call_type)
        &&& json::text_member(function, "name"@) == Some(m.tool_calls[i].name)
        &&& json::text_member(function, "arguments"@) == Some(m.tool_calls[i].arguments)
    } by {
        lemma_call_members(m.tool_calls[i]);
    }
}

proof fn lemma_call_members(c: CallModel)
    ensures
        ({
            let call = call_json(c);
            let function = json::member_or_null(call, "function"@);
            &&& json::text_member(call, "id"@) == Some(c.id)
            &&& json::text_member(call, "type"@) == Some(c.call_type)
            &&& json::text_member(function, "name"@) == Some(c.name)
            &&& json::text_member(function, "arguments"@) == Some(c.arguments)
        }),
{
    reveal_strlit("id");
    reveal_strlit("type");
    reveal_strlit("function");
    reveal_strlit("name");
    reveal_strlit("arguments");
    assert("id"@.len() == 2);
    assert("type"@.len() == 4);
    assert("function"@.len() == 8);
    assert("name"@.len() == 4);
    assert("arguments"@.len() == 9);
    let call = call_json(c);
    json::lemma_find_at(call->Object_0, 0);
    json::lemma_find_at(call->Object_0, 1);
    json::lemma_find_at(call->Object_0, 2);
    let function = call->Object_0[2].1;
    json::lemma_find_at(function->Object_0, 0);
    json::lemma_find_at(function->Object_0, 1);
}

/// A request names its model and carries the messages of the conversation, all of them and in
/// their order, each under its own role and with its own content; it asks for a whole answer,
/// and limits the length of it as it was told to.
pub proof fn law_a_request_carries_the_conversation(
    model: Seq<char>,
    messages: Seq<LlmMessageModel>,
    tools: Seq<ToolModel>,
    max_tokens: Option<u32>,
)
    ensures
        ({
            let body = body_json(model, messages, tools, max_tokens);
            let sent = json::items(json::member_or_null(body, "messages"@));
            let offered = json::items(json::member_or_null(body, "tools"@));
            &&& json::text_member(body, "model"@) == Some(model)
            &&& json::bool_member(body, "stream"@) == Some(false)
            &&& sent.len() == messages.len()
            &&& forall|i: int|
                0 <= i < messages.len() ==> {
                    &&& json::text_member(#[trigger] sent[i], "role"@) == Some(messages[i].role)
                    &&& json::text_member(sent[i], "content"@) == messages[i].content
                    &&& json::text_member(sent[i], "tool_call_id"@) == messages[i].tool_call_id
                    &&& json::items(json::member_or_null(sent[i], "tool_calls"@)).len()
                        == messages[i].tool_calls.len()
                }
            &&& offered.len() == tools.len()
            &&& forall|i: int|
                0 <= i < tools.len() ==> {
                    let function = json::member_or_null(#[trigger] offered[i], "function"@);
                    &&& json::text_member(function, "name"@) == Some(tools[i].name)
                    &&& json::text_member(function, "description"@) == Some(tools[i].description)
                    &&& json::member(function, "parameters"@) == Some(tools[i].parameters)
                }
            &&& tools.len() > 0 ==> json::text_member(body, "tool_choice"@) == Some("auto"@)
            &&& match max_tokens {
                Some(n) => json::number_or_zero(body, "max_tokens"@) == n,
                None => json::member(body, "max_tokens"@) is None,
            }
        }),
{
    reveal_strlit("model");
    reveal_strlit("messages");
    reveal_strlit("stream");
    reveal_strlit("tools");
    reveal_strlit("tool_choice");
    reveal_strlit("max_tokens");
    assert("model"@.len() == 5);
    assert("messages"@.len() == 8);
    assert("stream"@.len() == 6);
    assert("tools"@.len() == 5);
    assert("tool_choice"@.len() == 11);
    assert("max_tokens"@.len() == 10);
    assert("model"@[0] == 'm');
    assert("tools"@[0] == 't');
    let body = body_json(model, messages, tools, max_tokens);
    let all = body->Object_0;
    let offers = if tools.len() > 0 {
        2int
    } else {
        0
    };
    let limits = if max_tokens is Some {
        1int
    } else {
        0
    };
    assert(all.len() == 3 + offers + limits);
    assert(all[0].0 == "model"@);
    assert(all[1].0 == "messages"@);
    assert(all[2].0 == "stream"@);
    json::lemma_find_at(all, 0);
    json::lemma_find_at(all, 1);
    json::lemma_find_at(all, 2);
    if offers == 2 {
        assert(all[3].0 == "tools"@);
        assert(all[4].0 == "tool_choice"@);
        json::lemma_find_at(all, 3);
        json::lemma_find_at(all, 4);
    }
    if limits == 1 {
        assert(all[3 + offers] == ("max_tokens"@, json::number_model(max_tokens->0 as nat)));
        json::lemma_find_at(all, 3 + offers);
    }
    if offers == 0 {
        json::lemma_find_none(all, "tools"@);
    }
    if limits == 0 {
        json::lemma_find_none(all, "max_tokens"@);
    }
    let out = json::items(json::member_or_null(body, "messages"@));
    assert forall|i: int| 0 <= i < messages.len() implies {
        &&& json::text_member(#[trigger] out[i], "role"@) == Some(messages[i].role)
        &&& json::text_member(out[i], "content"@) == messages[i].content
        &&& json::text_member(out[i], "tool_call_id"@) == messages[i].tool_call_id
        &&& json::items(json::member_or_null(out[i], "tool_calls"@)).len()
            == messages[i].tool_calls.len()
    } by {
        law_a_message_is_sent_as_it_is(messages[i]);
    }
    let given = json::items(json::member_or_null(body, "tools"@));
    assert forall|i: int| 0 <= i < tools.len() implies {
        let function = json::member_or_null(#[trigger] given[i], "function"@);
        &&& json::text_member(function, "name"@) == Some(tools[i].name)
        &&& json::text_member(function, "description"@) == Some(tools[i].description)
        &&& json::member(function, "parameters"@) == Some(tools[i].parameters)
    } by {
        lemma_tool_members(tools[i]);
    }
}

proof fn lemma_tool_members(t: ToolModel)
    ensures
        ({
            let tool = tool_json(t);
            let function = json::member_or_null(tool, "function"@);
            &&& json::text_member(tool, "type"@) == Some(t.spec_type)
            &&& json::text_member(function, "name"@) == Some(t.name)
            &&& json::text_member(function, "description"@) == Some(t.description)
            &&& json::member(function, "parameters"@) == Some(t.parameters)
        }),
{
    reveal_strlit("type");
    reveal_strlit("function");
    reveal_strlit("name");
    reveal_strlit("description");
    reveal_strlit("parameters");
    assert("type"@.len() == 4);
    assert("function"@.len() == 8);
    assert("name"@.len() == 4);
    assert("description"@.len() == 11);
    assert("parameters"@.len() == 10);
    let tool = tool_json(t);
    json::lemma_find_at(tool->Object_0, 0);
    json::lemma_find_at(tool->Object_0, 1);
    let function = tool->Object_0[1].1;
    json::lemma_find_at(function->Object_0, 0);
    json::lemma_find_at(function->Object_0, 1);
    json::lemma_find_at(function->Object_0, 2);
}

/// Two requests that differ in who said something, or in what was said, have different bodies.
pub proof fn law_different_conversations_have_different_bodies(
    model: Seq<char>,
    a: Seq<LlmMessageModel>,
    b: Seq<LlmMessageModel>,
    tools: Seq<ToolModel>,
    max_tokens: Option<u32>,
    i: int,
)
    requires
        0 <= i < a.len(),
        a.len() != b.len() || a[i].role != b[i].role || a[i].content != b[i].content
            || a[i].tool_call_id != b[i].tool_call_id,
    ensures
        body_json(model, a, tools, max_tokens) != body_json(model, b, tools, max_tokens),
{
    law_a_request_carries_the_conversation(model, a, tools, max_tokens);
    law_a_request_carries_the_conversation(model, b, tools, max_tokens);
    let x = json::items(json::member_or_null(body_json(model, a, tools, max_tokens), "messages"@));
    let y = json::items(json::member_or_null(body_json(model, b, tools, max_tokens), "messages"@));
    if a.len() == b.len() {
        assert(json::text_member(x[i], "role"@) == Some(a[i].role));
        assert(json::text_member(y[i], "role"@) == Some(b[i].role));
    }
}

/// The pieces of a tool call begin with its id and name and hold its arguments, all under its
/// place among the calls.
proof fn lemma_call_pieces(call: JsonModel, index: int)
    ensures
        ({
            let p = call_pieces(call, index);
            let function = json::member_or_null(call, "function"@);
            &&& p.len() >= 2
            &&& p[0] == PieceModel::ToolCallStart {
                index,
                id: json::text_or_empty(call, "id"@),
                name: json::text_or_empty(function, "name"@),
            }
            &&& p.last() == PieceModel::ToolCallEnd { index }
            &&& json::text_or_empty(function, "arguments"@).len() > 0 ==> p.len() == 3 && p[1]
                == PieceModel::ToolCallDelta {
                index,
                arguments: json::text_or_empty(function, "arguments"@),
            }
            &&& json::text_or_empty(function, "arguments"@).len() == 0 ==> p.len() == 2
        }),
{
}

/// The pieces of the first calls come first.
proof fn lemma_calls_in_order(calls: Seq<JsonModel>, n: int)
    requires
        0 <= n <= calls.len(),
    ensures
        all_call_pieces(calls.take(n)).is_prefix_of(all_call_pieces(calls)),
    decreases calls.len() - n,
{
    let all = all_call_pieces(calls);
    if n == calls.len() {
        assert(calls.take(n) =~= calls);
        assert(all =~= all.take(all.len() as int));
    } else {
        lemma_calls_in_order(calls, n + 1);
        assert(calls.take(n + 1).drop_last() =~= calls.take(n));
        let a = all_call_pieces(calls.take(n));
        let b = all_call_pieces(calls.take(n + 1));
        assert(a =~= b.take(a.len() as int));
        assert(b =~= all.take(b.len() as int));
        assert(a =~= all.take(a.len() as int));
    }
}

/// An answer is read in full: its text comes first, where it has any, then each of its tool
/// calls with its id, name and arguments, in their order, and at last why it ended. An answer
/// of nothing but a text is that text and its end.
pub proof fn law_an_answer_is_read_in_full(response: JsonModel, i: int)
    requires
        json::items(json::member_or_null(response, "choices"@)).len() > 0,
        json::member(
            json::items(json::member_or_null(response, "choices"@))[0],
            "message"@,
        ) is Some,
    ensures
        ({
            let choice = json::items(json::member_or_null(response, "choices"@))[0];
            let message = json::member_or_null(choice, "message"@);
            let text = json::text_or_empty(message, "content"@);
            let calls = json::items(json::member_or_null(message, "tool_calls"@));
            let pieces = chat_pieces(response);
            &&& pieces.len() > 0
            &&& text.len() > 0 ==> pieces[0] == PieceModel::TextDelta(text)
            &&& text.len() == 0 ==> !pieces.contains(PieceModel::TextDelta(text))
            &&& pieces.last() is Done
            &&& 0 <= i < calls.len() ==> {
                let function = json::member_or_null(calls[i], "function"@);
                let arguments = json::text_or_empty(function, "arguments"@);
                &&& pieces.contains(
                    PieceModel::ToolCallStart {
                        index: i,
                        id: json::text_or_empty(calls[i], "id"@),
                        name: json::text_or_empty(function, "name"@),
                    },
                )
                &&& arguments.len() > 0 ==> pieces.contains(
                    PieceModel::ToolCallDelta { index: i, arguments },
                )
            }
            &&& json::text_member(choice, "finish_reason"@) == Some("stop"@) ==> pieces.last()
                == PieceModel::Done(StopModel::Stop)
            &&& json::text_member(choice, "finish_reason"@) == Some("tool_calls"@)
                ==> pieces.last() == PieceModel::Done(StopModel::ToolCalls)
            &&& json::text_member(choice, "finish_reason"@) == Some("length"@) ==> pieces.last()
                == PieceModel::Done(StopModel::MaxTokens)
            &&& json::member(response, "usage"@) matches Some(u) ==> pieces[pieces.len() - 2]
                matches PieceModel::Usage(counts) && counts.input == json::number_or_zero(
                u,
                "prompt_tokens"@,
            ) && counts.output == json::number_or_zero(u, "completion_tokens"@)
        }),
{
    reveal_strlit("stop");
    reveal_strlit("tool_calls");
    reveal_strlit("length");
    reveal_strlit("function_call");
    assert("stop"@.len() == 4);
    assert("tool_calls"@.len() == 10);
    assert("length"@.len() == 6);
    assert("function_call"@.len() == 13);
    let choice = json::items(json::member_or_null(response, "choices"@))[0];
    let message = json::member_or_null(choice, "message"@);
    let text = json::text_or_empty(message, "content"@);
    let calls = json::items(json::member_or_null(message, "tool_calls"@));
    let head = text_pieces(message);
    let body = all_call_pieces(calls);
    let pieces = chat_pieces(response);
    let counts = usage_pieces(response);
    let end = seq![PieceModel::Done(choice_stop(choice))];
    assert(pieces == head + body + counts + end);
    if text.len() == 0 {
        lemma_no_text(calls, text);
        if pieces.contains(PieceModel::TextDelta(text)) {
            let k = choose|k: int| 0 <= k < pieces.len() && pieces[k] == PieceModel::TextDelta(text);
            if k < body.len() {
                assert(body[k] == pieces[k]);
                assert(body.contains(PieceModel::TextDelta(text)));
            }
        }
    }
    if 0 <= i < calls.len() {
        lemma_calls_in_order(calls, i + 1);
        assert(calls.take(i + 1).drop_last() =~= calls.take(i));
        let before = all_call_pieces(calls.take(i));
        let upto = all_call_pieces(calls.take(i + 1));
        lemma_call_pieces(calls[i], i);
        let own = call_pieces(calls[i], i);
        assert(upto == before + own);
        assert(upto =~= body.take(upto.len() as int));
        assert(upto[before.len() as int] == own[0]);
        assert(body[before.len() as int] == own[0]);
        assert(pieces[head.len() as int + before.len()] == own[0]);
        if own.len() == 3 {
            assert(upto[before.len() as int + 1] == own[1]);
            assert(body[before.len() as int + 1] == own[1]);
            assert(pieces[head.len() as int + before.len() + 1] == own[1]);
        }
    }
}

proof fn lemma_no_text(calls: Seq<JsonModel>, text: Seq<char>)
    ensures
        !all_call_pieces(calls).contains(PieceModel::TextDelta(text)),
    decreases calls.len(),
{
    if calls.len() > 0 {
        lemma_no_text(calls.drop_last(), text);
        let before = all_call_pieces(calls.drop_last());
        let own = call_pieces(calls.last(), calls.len() - 1);
        let all = all_call_pieces(calls);
        if all.contains(PieceModel::TextDelta(text)) {
            let k = choose|k: int| 0 <= k < all.len() && all[k] == PieceModel::TextDelta(text);
            if k < before.len() {
                assert(before[k] == all[k]);
                assert(before.contains(PieceModel::TextDelta(text)));
            } else {
                assert(own[k - before.len()] == all[k]);
            }
        }
    }
}

/// The tokens that an answer has used are reported as they are counted, where they are.
pub proof fn law_used_tokens_are_reported(response: JsonModel, usage: JsonModel)
    requires
        json::items(json::member_or_null(response, "choices"@)).len() > 0,
        json::member(
            json::items(json::member_or_null(response, "choices"@))[0],
            "message"@,
        ) is Some,
        json::member(response, "usage"@) == Some(usage),
    ensures
        exists|i: int|
            0 <= i < chat_pieces(response).len() && (#[trigger] chat_pieces(response)[i] matches
                PieceModel::Usage(u) && u.input == json::number_or_zero(usage, "prompt_tokens"@)
                && u.output == json::number_or_zero(usage, "completion_tokens"@) && u.total
                == json::number_or_zero(usage, "total_tokens"@)),
{
    let pieces = chat_pieces(response);
    assert(pieces[pieces.len() - 2] == PieceModel::Usage(usage_of(usage)));
}

/// A tool is offered under its kind.
pub proof fn law_a_tool_is_offered_under_its_kind(t: ToolModel)
    ensures
        json::text_member(tool_json(t), "type"@) == Some(t.spec_type),
{
    json::lemma_find_at(tool_json(t)->Object_0, 0);
}

/// A provider goes to the address that is set, with the key and the model that are set; only
/// slashes at the end of the address are left out.
pub proof fn law_a_provider_goes_where_it_is_set_to(
    p: OpenAiProvider,
    base_url: Seq<char>,
    api_key: Seq<char>,
    model: Seq<char>,
)
    requires
        p.is_for(base_url, api_key, model),
    ensures
        p.api_key@ == api_key,
        p.model@ == model,
        p.base_url@.is_prefix_of(base_url),
        p.base_url@.len() > 0 ==> p.base_url@.last() != '/',
        forall|i: int|
            p.base_url@.len() <= i < base_url.len() ==> #[trigger] base_url[i] == '/',
{
    text::lemma_trailing(base_url, CharClass::Slash);
    let n = p.base_url@.len() as int;
    assert(base_url.subrange(0, n) =~= p.base_url@);
}

} // verus!
