//! The provider that speaks the Anthropic interface.
use vstd::prelude::*;

use crate::agent::error::AgentError;
use crate::agent::request::{
    CallModel, LlmMessage, LlmMessageModel, LlmRequest, LlmStreamEvent, LlmTool, LlmToolCall,
    PieceModel, StopModel, StopReason, ThinkingConfig, ThinkingLevel, ToolModel,
};
use crate::json::{Json, JsonModel};
use crate::text::CharClass;
use crate::{agent, json, text};

use super::ProviderCapabilities;

verus! {

pub struct AnthropicProvider {
    pub base_url: String,
    pub api_key: String,
    pub model: String,
}

impl AnthropicProvider {
    /// The provider was made for these settings.
    pub open spec fn is_for(self, base_url: Seq<char>, api_key: Seq<char>, model: Seq<char>) -> bool {
        &&& self.base_url@ == text::trim_end(base_url, CharClass::Slash)
        &&& self.api_key@ == api_key
        &&& self.model@ == model
    }

    pub fn new(base_url: &str, api_key: &str, model: &str) -> (r: Self)
        ensures
            r.is_for(base_url@, api_key@, model@),
    {
        AnthropicProvider {
            base_url: text::trim_end_str(base_url, CharClass::Slash).to_string(),
            api_key: api_key.to_string(),
            model: model.to_string(),
        }
    }

    pub fn name(&self) -> (r: &'static str)
        ensures
            r@ == "anthropic"@,
    {
        "anthropic"
    }

    pub fn capabilities(&self) -> (r: ProviderCapabilities)
        ensures
            r == (ProviderCapabilities {
                thinking: true,
                vision: true,
                tool_calling: true,
                streaming: false,
            }),
    {
        ProviderCapabilities { thinking: true, vision: true, tool_calling: true, streaming: false }
    }

    /// Where requests go.
    pub fn url(&self) -> (r: String)
        ensures
            r@ == self.base_url@ + "/v1/messages"@,
    {
        text::concat2(self.base_url.as_str(), "/v1/messages")
    }

    /// The system prompt and the messages of a conversation as they stand in a request.
    /// The system prompt is no message, tool results are parts of user messages, and
    /// neighbouring ones share a message.
    pub fn convert_messages(&self, messages: &Vec<LlmMessage>) -> (r: (Option<String>, Vec<Json>))
        ensures
            text::opt_text(r.0) == system_prompt(agent::request::llm_views(messages@)),
            json::item_views(r.1@) == api_messages(
                agent::request::llm_views(messages@),
            ).map_values(|m: ApiModel| api_json(m)),
    {
        let ghost all = agent::request::llm_views(messages@);
        let mut system: Option<String> = None;
        let mut out: Vec<ApiMessage> = Vec::new();
        assert(api_views(out@) =~= seq![]);
        for i in 0..messages.len()
            invariant
                all == agent::request::llm_views(messages@),
                text::opt_text(system) == system_prompt(all.take(i as int)),
                api_views(out@) == api_messages(all.take(i as int)),
        {
            let msg = &messages[i];
            assert(all.take(i + 1).drop_last() =~= all.take(i as int));
            assert(all.take(i + 1).last() == msg@);
            if text::str_eq(msg.role.as_str(), "system") {
                system = msg.content.clone();
            }
            add_message(&mut out, msg);
        }
        assert(all.take(all.len() as int) =~= all);
        let mut rest = out;
        let ghost model = api_views(rest@);
        let n: usize = rest.len();
        let mut values: Vec<Json> = Vec::new();
        assert(model.skip(0) =~= model);
        for i in 0..n
            invariant
                n == model.len(),
                api_views(rest@) == model.skip(i as int),
                json::item_views(values@) == model.take(i as int).map_values(
                    |m: ApiModel| api_json(m),
                ),
        {
            let ghost before = api_views(rest@);
            assert(before.len() == rest@.len());
            let m = rest.remove(0);
            assert(before[0] == m@);
            assert(model[i as int] == m@);
            let role = if m.user {
                "user"
            } else {
                "assistant"
            };
            json::add_item(
                &mut values,
                json::object2("role", json::text_value(role), "content", json::list(m.content)),
            );
            assert(api_views(rest@) =~= before.drop_first());
            assert(before.drop_first() =~= model.skip(i + 1));
            assert(model.take(i + 1) =~= model.take(i as int).push(model[i as int]));
        }
        assert(model.take(model.len() as int) =~= model);
        (system, values)
    }

    /// The body of the request to the provider.
    pub fn request_body(&self, request: LlmRequest) -> (r: Json)
        ensures
            r@ == body_json(
                request.model@,
                agent::request::llm_views(request.messages@),
                agent::request::tool_views(request.tools@),
                request.max_tokens,
                request.thinking,
            ),
    {
        let ghost all = agent::request::llm_views(request.messages@);
        let ghost offered = agent::request::tool_views(request.tools@);
        let (system, messages) = self.convert_messages(&request.messages);
        let max_tokens: u32 = match request.max_tokens {
            Some(n) => n,
            None => 4096,
        };
        let mut members: Vec<(String, Json)> = Vec::new();
        json::add_member(&mut members, "model", json::text_value(request.model.as_str()));
        json::add_member(&mut members, "messages", json::list(messages));
        json::add_member(&mut members, "max_tokens", json::number(max_tokens as u64));
        if let Some(s) = system {
            json::add_member(&mut members, "system", json::text_value(s.as_str()));
        }
        if request.tools.len() > 0 {
            let mut rest = request.tools;
            let n: usize = rest.len();
            let mut tools: Vec<Json> = Vec::new();
            assert(offered.skip(0) =~= offered);
            for i in 0..n
                invariant
                    n == offered.len(),
                    agent::request::tool_views(rest@) == offered.skip(i as int),
                    json::item_views(tools@) == offered.take(i as int).map_values(
                        |t: ToolModel| tool_json(t),
                    ),
            {
                let ghost before = agent::request::tool_views(rest@);
                assert(before.len() == rest@.len());
                let tool = rest.remove(0);
                assert(before[0] == tool@);
                assert(offered[i as int] == tool@);
                json::add_item(&mut tools, tool_value(tool));
                assert(agent::request::tool_views(rest@) =~= before.drop_first());
                assert(before.drop_first() =~= offered.skip(i + 1));
                assert(offered.take(i + 1) =~= offered.take(i as int).push(offered[i as int]));
            }
            assert(offered.take(offered.len() as int) =~= offered);
            json::add_member(&mut members, "tools", json::list(tools));
            json::add_member(
                &mut members,
                "tool_choice",
                json::object1("type", json::text_value("auto")),
            );
        }
        if let Some(t) = request.thinking {
            if t.level.is_active() {
                if let Some(budget) = t.effective_budget() {
                    json::add_member(
                        &mut members,
                        "thinking",
                        json::object2(
                            "type",
                            json::text_value("enabled"),
                            "budget_tokens",
                            json::number(budget as u64),
                        ),
                    );
                }
            }
        }
        let r = json::object(members);
        assert(r@->Object_0 =~= body_json(
            request.model@,
            all,
            offered,
            request.max_tokens,
            request.thinking,
        )->Object_0);
        r
    }

    /// The pieces of a response. `inputs` holds, for each content block, the input that
    /// the block has, written without spaces.
    pub fn parse_response(&self, body: &Json, inputs: &Vec<Option<String>>) -> (r: Vec<
        LlmStreamEvent,
    >)
        requires
            inputs@.len() == content_blocks(body@).len(),
        ensures
            agent::request::piece_views(r@) == response_pieces(body@, text::opt_texts(inputs@)),
    {
        let mut events: Vec<LlmStreamEvent> = Vec::new();
        let ghost blocks = content_blocks(body@);
        let ghost given = text::opt_texts(inputs@);
        assert(agent::request::piece_views(events@) =~= seq![]);
        if let Some(content) = body.get("content") {
            let n: usize = content.item_count();
            for i in 0..n
                invariant
                    n == blocks.len() == inputs@.len(),
                    blocks == json::items(content@),
                    given == text::opt_texts(inputs@),
                    agent::request::piece_views(events@) == block_pieces(
                        blocks.take(i as int),
                        given.take(i as int),
                    ),
            {
                assert(blocks.take(i + 1).drop_last() =~= blocks.take(i as int));
                assert(given.take(i + 1).drop_last() =~= given.take(i as int));
                assert(given[i as int] == text::opt_text(inputs@[i as int]));
                add_block_pieces(&mut events, content.item(i), &inputs[i]);
            }
        }
        assert(blocks.take(blocks.len() as int) =~= blocks);
        assert(given.take(blocks.len() as int) =~= given);
        let stop_reason = match body.get_str("stop_reason") {
            Some(s) => if text::str_eq(s, "tool_use") {
                StopReason::ToolCalls
            } else if text::str_eq(s, "max_tokens") {
                StopReason::MaxTokens
            } else {
                StopReason::Stop
            },
            None => StopReason::Stop,
        };
        agent::request::add_piece(&mut events, LlmStreamEvent::Done { stop_reason });
        events
    }

    /// What a response of the provider says: its status, where that reports a failure,
    /// or the pieces of the answer that its text stands for.
    pub fn read_response(&self, failed_status: Option<&str>, text: &str) -> (r: Result<
        Vec<LlmStreamEvent>,
        AgentError,
    >)
        ensures
            match failed_status {
                Some(status) => r matches Err(AgentError::Provider(m)) && m@ == "API error ("@
                    + status@ + "): "@ + text@,
                None => match json::parsed(text@) {
                    Some(v) => r matches Ok(pieces) && agent::request::piece_views(pieces@)
                        == response_pieces(v, json::written_members(content_blocks(v), "input"@)),
                    None => r matches Err(AgentError::Provider(m)) && exists|e: Seq<char>| #[trigger]
                        json::is_parse_message(text, e) && m@ == ("Parse error: "@ + e) + (" | raw response: "@
                            + text::fitting(text@, 500)),
                },
            },
    {
        if let Some(status) = failed_status {
            return Err(super::api_error(status, text));
        }
        match json::parse(text) {
            Ok(v) => {
                let inputs = json::write_members(text, "content", "input");
                assert(text::opt_texts(inputs@).len() == inputs@.len());
                Ok(self.parse_response(&v, &inputs))
            },
            Err(e) => {
                let why = json::error_message(&e);
                assert(json::is_parse_message(text, why@));
                let head = text::concat2("Parse error: ", why.as_str());
                let tail = text::concat2(
                    " | raw response: ",
                    text::take_bytes(text, 500).as_str(),
                );
                Err(AgentError::Provider(text::concat2(head.as_str(), tail.as_str())))
            },
        }
    }
}

// ---------------------------------------------------------------------------
// Requests
// ---------------------------------------------------------------------------

/// A message of a request.
struct ApiMessage {
    user: bool,
    content: Vec<Json>,
}

/// What a message of a request holds: whether it is the user's, and its content blocks.
#[verifier::ext_equal]
pub struct ApiModel {
    pub user: bool,
    pub content: Seq<JsonModel>,
}

impl View for ApiMessage {
    type V = ApiModel;

    closed spec fn view(&self) -> ApiModel {
        ApiModel { user: self.user, content: json::item_views(self.content@) }
    }
}

spec fn api_views(s: Seq<ApiMessage>) -> Seq<ApiModel> {
    s.map_values(|m: ApiMessage| m@)
}

/// A message as it stands in a request.
pub open spec fn api_json(m: ApiModel) -> JsonModel {
    let role = if m.user {
        "user"@
    } else {
        "assistant"@
    };
    JsonModel::Object(seq![("role"@, JsonModel::Text(role)), ("content"@, JsonModel::List(m.content))])
}

pub open spec fn text_block(text: Seq<char>) -> JsonModel {
    JsonModel::Object(seq![("type"@, JsonModel::Text("text"@)), ("text"@, JsonModel::Text(text))])
}

pub open spec fn tool_use_block(c: CallModel) -> JsonModel {
    JsonModel::Object(
        seq![
            ("type"@, JsonModel::Text("tool_use"@)),
            ("id"@, JsonModel::Text(c.id)),
            ("name"@, JsonModel::Text(c.name)),
            ("input"@, json::parsed_or_empty(c.arguments)),
        ],
    )
}

pub open spec fn tool_result_block(id: Option<Seq<char>>, text: Seq<char>) -> JsonModel {
    let id = match id {
        Some(i) => i,
        None => seq![],
    };
    JsonModel::Object(
        seq![
            ("type"@, JsonModel::Text("tool_result"@)),
            ("tool_use_id"@, JsonModel::Text(id)),
            ("content"@, JsonModel::Text(text)),
        ],
    )
}

/// The content blocks of an assistant message.
pub open spec fn assistant_blocks(m: LlmMessageModel) -> Seq<JsonModel> {
    let said = match m.content {
        Some(t) => if t.len() > 0 {
            seq![text_block(t)]
        } else {
            seq![]
        },
        None => seq![],
    };
    said + m.tool_calls.map_values(|c: CallModel| tool_use_block(c))
}

/// The messages of a request after one more message of the conversation.
pub open spec fn with_message(before: Seq<ApiModel>, m: LlmMessageModel) -> Seq<ApiModel> {
    if m.role == "system"@ {
        before
    } else if m.role == "user"@ {
        let content = match m.content {
            Some(t) => seq![text_block(t)],
            None => seq![],
        };
        before.push(ApiModel { user: true, content })
    } else if m.role == "assistant"@ {
        before.push(ApiModel { user: false, content: assistant_blocks(m) })
    } else if m.role == "tool"@ && m.content is Some {
        let block = tool_result_block(m.tool_call_id, m.content->0);
        if before.len() > 0 && before.last().user {
            before.drop_last().push(
                ApiModel { user: true, content: before.last().content.push(block) },
            )
        } else {
            before.push(ApiModel { user: true, content: seq![block] })
        }
    } else {
        before
    }
}

/// The messages of a request.
pub open spec fn api_messages(messages: Seq<LlmMessageModel>) -> Seq<ApiModel>
    decreases messages.len(),
{
    if messages.len() == 0 {
        seq![]
    } else {
        with_message(api_messages(messages.drop_last()), messages.last())
    }
}

/// The system prompt of a conversation: the text of its last system message.
pub open spec fn system_prompt(messages: Seq<LlmMessageModel>) -> Option<Seq<char>>
    decreases messages.len(),
{
    if messages.len() == 0 {
        None
    } else if messages.last().role == "system"@ {
        messages.last().content
    } else {
        system_prompt(messages.drop_last())
    }
}

/// Results of tools that follow each other in a conversation share one message of the
/// request.
pub proof fn law_tool_results_share_a_message(
    before: Seq<LlmMessageModel>,
    first: LlmMessageModel,
    second: LlmMessageModel,
)
    requires
        first.role == "tool"@,
        first.content is Some,
        second.role == "tool"@,
        second.content is Some,
    ensures
        ({
            let one = api_messages(before.push(first));
            let both = api_messages(before.push(first).push(second));
            &&& both.len() == one.len()
            &&& both.drop_last() == one.drop_last()
            &&& both.last().user
            &&& both.last().content == one.last().content.push(
                tool_result_block(second.tool_call_id, second.content->0),
            )
        }),
{
    reveal_strlit("tool");
    reveal_strlit("system");
    reveal_strlit("user");
    reveal_strlit("assistant");
    assert("tool"@.len() == 4);
    assert("system"@.len() == 6);
    assert("user"@[0] == 'u');
    assert("tool"@[0] == 't');
    assert("assistant"@.len() == 9);
    assert(before.push(first).drop_last() =~= before);
    assert(before.push(first).push(second).drop_last() =~= before.push(first));
    let one = api_messages(before.push(first));
    let both = api_messages(before.push(first).push(second));
    assert(both.drop_last() =~= one.drop_last());
}

/// A tool as it stands in a request.
pub open spec fn tool_json(t: ToolModel) -> JsonModel {
    JsonModel::Object(
        seq![
            ("name"@, JsonModel::Text(t.name)),
            ("description"@, JsonModel::Text(t.description)),
            ("input_schema"@, t.parameters),
        ],
    )
}

/// The body of a request.
pub open spec fn body_json(
    model: Seq<char>,
    messages: Seq<LlmMessageModel>,
    tools: Seq<ToolModel>,
    max_tokens: Option<u32>,
    thinking: Option<ThinkingConfig>,
) -> JsonModel {
    let limit = match max_tokens {
        Some(n) => n as nat,
        None => 4096,
    };
    let fixed = seq![
        ("model"@, JsonModel::Text(model)),
        (
            "messages"@,
            JsonModel::List(api_messages(messages).map_values(|m: ApiModel| api_json(m))),
        ),
        ("max_tokens"@, json::number_model(limit)),
    ];
    let system = match system_prompt(messages) {
        Some(s) => seq![("system"@, JsonModel::Text(s))],
        None => seq![],
    };
    let offered = if tools.len() > 0 {
        seq![
            ("tools"@, JsonModel::List(tools.map_values(|t: ToolModel| tool_json(t)))),
            ("tool_choice"@, JsonModel::Object(seq![("type"@, JsonModel::Text("auto"@))])),
        ]
    } else {
        seq![]
    };
    let thought = match thinking {
        Some(t) => if t.level != ThinkingLevel::Off {
            let budget = t.budget()->0 as nat;
            seq![
                (
                    "thinking"@,
                    JsonModel::Object(
                        seq![
                            ("type"@, JsonModel::Text("enabled"@)),
                            ("budget_tokens"@, json::number_model(budget)),
                        ],
                    ),
                ),
            ]
        } else {
            seq![]
        },
        None => seq![],
    };
    JsonModel::Object(fixed + system + offered + thought)
}

fn text_value(text: &str) -> (r: Json)
    ensures
        r@ == text_block(text@),
{
    json::object2("type", json::text_value("text"), "text", json::text_value(text))
}

fn tool_use_value(c: &LlmToolCall) -> (r: Json)
    ensures
        r@ == tool_use_block(c@),
{
    json::object4(
        "type",
        json::text_value("tool_use"),
        "id",
        json::text_value(c.id.as_str()),
        "name",
        json::text_value(c.function.name.as_str()),
        "input",
        json::parse_lenient(c.function.arguments.as_str()),
    )
}

fn tool_value(t: LlmTool) -> (r: Json)
    ensures
        r@ == tool_json(t@),
{
    json::object3(
        "name",
        json::text_value(t.function.name.as_str()),
        "description",
        json::text_value(t.function.description.as_str()),
        "input_schema",
        t.function.parameters,
    )
}

fn assistant_content(m: &LlmMessage) -> (r: Vec<Json>)
    ensures
        json::item_views(r@) == assistant_blocks(m@),
{
    let mut content: Vec<Json> = Vec::new();
    if let Some(text) = &m.content {
        if !text.as_str().is_empty() {
            json::add_item(&mut content, text_value(text.as_str()));
        }
    }
    let ghost said = json::item_views(content@);
    let ghost all = m@.tool_calls;
    for i in 0..m.tool_calls.len()
        invariant
            all == agent::request::call_views(m.tool_calls@),
            json::item_views(content@) == said + all.take(i as int).map_values(
                |c: CallModel| tool_use_block(c),
            ),
    {
        json::add_item(&mut content, tool_use_value(&m.tool_calls[i]));
        assert(all.take(i + 1) =~= all.take(i as int).push(all[i as int]));
    }
    assert(all.take(all.len() as int) =~= all);
    assert(json::item_views(content@) =~= assistant_blocks(m@));
    content
}

fn add_message(out: &mut Vec<ApiMessage>, m: &LlmMessage)
    ensures
        api_views(final(out)@) == with_message(api_views(old(out)@), m@),
{
    let ghost before = api_views(out@);
    if text::str_eq(m.role.as_str(), "system") {
    } else if text::str_eq(m.role.as_str(), "user") {
        let mut content: Vec<Json> = Vec::new();
        if let Some(text) = &m.content {
            json::add_item(&mut content, text_value(text.as_str()));
        }
        let added = ApiMessage { user: true, content };
        assert(added@ =~= with_message(before, m@).last());
        out.push(added);
        assert(api_views(out@) =~= before.push(added@));
    } else if text::str_eq(m.role.as_str(), "assistant") {
        let added = ApiMessage { user: false, content: assistant_content(m) };
        assert(added@ =~= with_message(before, m@).last());
        out.push(added);
        assert(api_views(out@) =~= before.push(added@));
    } else if text::str_eq(m.role.as_str(), "tool") {
        if let Some(text) = &m.content {
            let id = match &m.tool_call_id {
                Some(i) => i.as_str(),
                None => "",
            };
            proof {
                reveal_strlit("");
                assert(""@ =~= seq![]);
            }
            let block = json::object3(
                "type",
                json::text_value("tool_result"),
                "tool_use_id",
                json::text_value(id),
                "content",
                json::text_value(text.as_str()),
            );
            assert(block@ == tool_result_block(m@.tool_call_id, text@));
            let n: usize = out.len();
            let appends = n > 0 && out[n - 1].user;
            if appends {
                let mut last = out.remove(n - 1);
                assert(last@ == before.last());
                json::add_item(&mut last.content, block);
                out.push(last);
                assert(api_views(out@) =~= before.drop_last().push(last@));
            } else {
                let mut content: Vec<Json> = Vec::new();
                json::add_item(&mut content, block);
                let added = ApiMessage { user: true, content };
                assert(added@ =~= with_message(before, m@).last());
                out.push(added);
                assert(api_views(out@) =~= before.push(added@));
            }
        }
    }
}

// ---------------------------------------------------------------------------
// Responses
// ---------------------------------------------------------------------------

/// The content blocks of a response.
pub open spec fn content_blocks(body: JsonModel) -> Seq<JsonModel> {
    json::items(json::member_or_null(body, "content"@))
}

/// The pieces of one content block.
pub open spec fn pieces_of(block: JsonModel, input: Option<Seq<char>>) -> Seq<PieceModel> {
    let kind = json::text_or_empty(block, "type"@);
    if kind == "text"@ {
        match json::text_member(block, "text"@) {
            Some(t) => seq![PieceModel::TextDelta(t)],
            None => seq![],
        }
    } else if kind == "thinking"@ {
        match json::text_member(block, "thinking"@) {
            Some(t) => seq![PieceModel::ThinkingDelta(t)],
            None => seq![],
        }
    } else if kind == "tool_use"@ {
        let arguments = match input {
            Some(t) => t,
            None => "{}"@,
        };
        seq![
            PieceModel::ToolCallStart {
                index: 0,
                id: json::text_or_empty(block, "id"@),
                name: json::text_or_empty(block, "name"@),
            },
            PieceModel::ToolCallDelta { index: 0, arguments },
            PieceModel::ToolCallEnd { index: 0 },
        ]
    } else {
        seq![]
    }
}

/// The pieces of the content blocks of a response, in their order.
pub open spec fn block_pieces(blocks: Seq<JsonModel>, inputs: Seq<Option<Seq<char>>>) -> Seq<
    PieceModel,
>
    decreases blocks.len(),
{
    if blocks.len() == 0 {
        seq![]
    } else {
        block_pieces(blocks.drop_last(), inputs.drop_last()) + pieces_of(
            blocks.last(),
            inputs.last(),
        )
    }
}

/// Why a response ended.
pub open spec fn response_stop(body: JsonModel) -> StopModel {
    let reason = json::text_member(body, "stop_reason"@);
    if reason == Some("tool_use"@) {
        StopModel::ToolCalls
    } else if reason == Some("max_tokens"@) {
        StopModel::MaxTokens
    } else {
        StopModel::Stop
    }
}

/// The pieces of a response: those of its content blocks, and why it ended.
pub open spec fn response_pieces(body: JsonModel, inputs: Seq<Option<Seq<char>>>) -> Seq<
    PieceModel,
> {
    block_pieces(content_blocks(body), inputs).push(PieceModel::Done(response_stop(body)))
}

fn add_block_pieces(events: &mut Vec<LlmStreamEvent>, block: &Json, input: &Option<String>)
    ensures
        agent::request::piece_views(final(events)@) == agent::request::piece_views(old(events)@)
            + pieces_of(block@, text::opt_text(*input)),
{
    let ghost before = agent::request::piece_views(events@);
    let kind = block.get_text("type");
    if text::str_eq(kind.as_str(), "text") {
        if let Some(t) = block.get_str("text") {
            agent::request::add_piece(events, LlmStreamEvent::TextDelta(t.to_string()));
        }
    } else if text::str_eq(kind.as_str(), "thinking") {
        if let Some(t) = block.get_str("thinking") {
            agent::request::add_piece(events, LlmStreamEvent::ThinkingDelta(t.to_string()));
        }
    } else if text::str_eq(kind.as_str(), "tool_use") {
        let id = block.get_text("id");
        let name = block.get_text("name");
        let arguments_delta = match input {
            Some(t) => t.clone(),
            None => "{}".to_string(),
        };
        agent::request::add_piece(events, LlmStreamEvent::ToolCallStart { index: 0, id, name });
        agent::request::add_piece(
            events,
            LlmStreamEvent::ToolCallDelta { index: 0, arguments_delta },
        );
        agent::request::add_piece(events, LlmStreamEvent::ToolCallEnd { index: 0 });
    }
    assert(agent::request::piece_views(events@) =~= before + pieces_of(
        block@,
        text::opt_text(*input),
    ));
}

// ---------------------------------------------------------------------------
// Laws of requests and responses
// ---------------------------------------------------------------------------

proof fn lemma_roles()
    ensures
        "tool"@ != "system"@,
        "tool"@ != "user"@,
        "tool"@ != "assistant"@,
        "system"@ != "user"@,
        "system"@ != "assistant"@,
        "user"@ != "assistant"@,
{
    reveal_strlit("tool");
    reveal_strlit("system");
    reveal_strlit("user");
    reveal_strlit("assistant");
    assert("tool"@.len() == 4);
    assert("system"@.len() == 6);
    assert("user"@.len() == 4);
    assert("assistant"@.len() == 9);
    assert("user"@[0] == 'u');
    assert("tool"@[0] == 't');
}

proof fn lemma_block_members(text: Seq<char>, c: CallModel, id: Option<Seq<char>>, m: ApiModel)
    ensures
        json::text_member(text_block(text), "type"@) == Some("text"@),
        json::text_member(text_block(text), "text"@) == Some(text),
        json::text_member(tool_use_block(c), "type"@) == Some("tool_use"@),
        json::text_member(tool_use_block(c), "id"@) == Some(c.id),
        json::text_member(tool_use_block(c), "name"@) == Some(c.name),
        json::member(tool_use_block(c), "input"@) == Some(json::parsed_or_empty(c.arguments)),
        json::text_member(tool_result_block(id, text), "type"@) == Some("tool_result"@),
        id is Some ==> json::text_member(tool_result_block(id, text), "tool_use_id"@) == id,
        json::text_member(tool_result_block(id, text), "content"@) == Some(text),
        json::text_member(api_json(m), "role"@) == Some(
            if m.user {
                "user"@
            } else {
                "assistant"@
            },
        ),
        json::items(json::member_or_null(api_json(m), "content"@)) == m.content,
{
    reveal_strlit("type");
    reveal_strlit("text");
    reveal_strlit("id");
    reveal_strlit("name");
    reveal_strlit("input");
    reveal_strlit("tool_use_id");
    reveal_strlit("content");
    reveal_strlit("role");
    assert("type"@.len() == 4);
    assert("text"@.len() == 4);
    assert("id"@.len() == 2);
    assert("name"@.len() == 4);
    assert("input"@.len() == 5);
    assert("tool_use_id"@.len() == 11);
    assert("content"@.len() == 7);
    assert("role"@.len() == 4);
    assert("type"@[1] == 'y');
    assert("text"@[1] == 'e');
    assert("name"@[0] == 'n');
    assert("type"@[0] == 't');
    let t = text_block(text)->Object_0;
    json::lemma_find_at(t, 0);
    json::lemma_find_at(t, 1);
    let u = tool_use_block(c)->Object_0;
    json::lemma_find_at(u, 0);
    json::lemma_find_at(u, 1);
    json::lemma_find_at(u, 2);
    json::lemma_find_at(u, 3);
    let r = tool_result_block(id, text)->Object_0;
    json::lemma_find_at(r, 0);
    json::lemma_find_at(r, 1);
    json::lemma_find_at(r, 2);
    let a = api_json(m)->Object_0;
    json::lemma_find_at(a, 0);
    json::lemma_find_at(a, 1);
}

/// What a user says is one message more in the request, under the user's role and with the
/// text; what the model answered is one under its own, with its text and all its tool calls:
/// their ids, names and arguments.
pub proof fn law_both_sides_are_told_apart(before: Seq<LlmMessageModel>, m: LlmMessageModel, k: int)
    requires
        m.role == "user"@ || m.role == "assistant"@,
    ensures
        ({
            let a = api_messages(before);
            let b = api_messages(before.push(m));
            let sent = api_json(b.last());
            let blocks = json::items(json::member_or_null(sent, "content"@));
            let said = if m.content is Some && m.content->0.len() > 0 {
                1int
            } else {
                0
            };
            &&& b.len() == a.len() + 1
            &&& b.drop_last() == a
            &&& json::text_member(sent, "role"@) == Some(m.role)
            &&& m.content is Some && m.content->0.len() > 0 ==> json::text_member(
                blocks[0],
                "type"@,
            ) == Some("text"@) && json::text_member(blocks[0], "text"@) == m.content
            &&& m.role == "assistant"@ ==> blocks.len() == said + m.tool_calls.len()
            &&& m.role == "assistant"@ && 0 <= k < m.tool_calls.len() ==> {
                let block = blocks[said + k];
                &&& json::text_member(block, "type"@) == Some("tool_use"@)
                &&& json::text_member(block, "id"@) == Some(m.tool_calls[k].id)
                &&& json::text_member(block, "name"@) == Some(m.tool_calls[k].name)
                &&& json::parsed(m.tool_calls[k].arguments) is Some ==> json::member(
                    block,
                    "input"@,
                ) == json::parsed(m.tool_calls[k].arguments)
            }
        }),
{
    lemma_roles();
    assert(before.push(m).drop_last() =~= before);
    let b = api_messages(before.push(m));
    assert(b.drop_last() =~= api_messages(before));
    let c = m.tool_calls[k];
    let t = match m.content {
        Some(t) => t,
        None => seq![],
    };
    lemma_block_members(t, c, None, b.last());
}

/// The result of a tool call stands in a message of the user: it names the call and holds the
/// result in full, behind what was there before, of which nothing is lost.
pub proof fn law_tool_results_are_sent_in_full(before: Seq<LlmMessageModel>, m: LlmMessageModel)
    requires
        m.role == "tool"@,
        m.content is Some,
        m.tool_call_id is Some,
    ensures
        ({
            let a = api_messages(before);
            let b = api_messages(before.push(m));
            let joins = a.len() > 0 && a.last().user;
            let block = b.last().content.last();
            &&& b.last().user
            &&& b.last().content.len() > 0
            &&& json::text_member(block, "type"@) == Some("tool_result"@)
            &&& json::text_member(block, "tool_use_id"@) == m.tool_call_id
            &&& json::text_member(block, "content"@) == m.content
            &&& joins ==> b.drop_last() == a.drop_last() && b.last().content.drop_last()
                == a.last().content
            &&& !joins ==> b.drop_last() == a && b.last().content.len() == 1
        }),
{
    lemma_roles();
    assert(before.push(m).drop_last() =~= before);
    let a = api_messages(before);
    let b = api_messages(before.push(m));
    let c = CallModel { id: seq![], call_type: seq![], name: seq![], arguments: seq![] };
    lemma_block_members(m.content->0, c, m.tool_call_id, b.last());
    if a.len() > 0 && a.last().user {
        assert(b.drop_last() =~= a.drop_last());
        assert(b.last().content.drop_last() =~= a.last().content);
    } else {
        assert(b.drop_last() =~= a);
    }
}

/// The system prompt is no message of the request but stands by itself: it is what the last
/// system message says, whatever else follows.
pub proof fn law_the_system_prompt_stands_by_itself(
    before: Seq<LlmMessageModel>,
    m: LlmMessageModel,
)
    ensures
        m.role == "system"@ ==> api_messages(before.push(m)) == api_messages(before)
            && system_prompt(before.push(m)) == m.content,
        m.role != "system"@ ==> system_prompt(before.push(m)) == system_prompt(before),
        system_prompt(Seq::<LlmMessageModel>::empty()) is None,
{
    assert(before.push(m).drop_last() =~= before);
}

/// A request names its model, carries the conversation and the system prompt, and offers the
/// tools, each with its name, description and parameters. An answer may have as many tokens as
/// was asked for, or 4096; where the model is to think, it is told how much.
pub proof fn law_a_request_carries_the_conversation(
    model: Seq<char>,
    messages: Seq<LlmMessageModel>,
    tools: Seq<ToolModel>,
    max_tokens: Option<u32>,
    thinking: Option<ThinkingConfig>,
)
    ensures
        ({
            let body = body_json(model, messages, tools, max_tokens, thinking);
            let sent = json::items(json::member_or_null(body, "messages"@));
            let offered = json::items(json::member_or_null(body, "tools"@));
            let thought = json::member(body, "thinking"@);
            &&& json::text_member(body, "model"@) == Some(model)
            &&& json::text_member(body, "system"@) == system_prompt(messages)
            &&& sent.len() == api_messages(messages).len()
            &&& forall|i: int|
                0 <= i < sent.len() ==> {
                    let m = api_messages(messages)[i];
                    &&& json::text_member(#[trigger] sent[i], "role"@) == Some(
                        if m.user {
                            "user"@
                        } else {
                            "assistant"@
                        },
                    )
                    &&& json::items(json::member_or_null(sent[i], "content"@)) == m.content
                }
            &&& json::number_or_zero(body, "max_tokens"@) == (match max_tokens {
                Some(n) => n as u64,
                None => 4096,
            })
            &&& offered.len() == tools.len()
            &&& forall|i: int|
                0 <= i < tools.len() ==> {
                    &&& json::text_member(#[trigger] offered[i], "name"@) == Some(tools[i].name)
                    &&& json::text_member(offered[i], "description"@) == Some(tools[i].description)
                    &&& json::member(offered[i], "input_schema"@) == Some(tools[i].parameters)
                }
            &&& thought is Some <==> (thinking matches Some(t) && t.level != ThinkingLevel::Off)
            &&& thought matches Some(t) ==> json::text_member(t, "type"@) == Some("enabled"@)
                && json::number_or_zero(t, "budget_tokens"@) == thinking->0.budget()->0
        }),
{
    reveal_strlit("model");
    reveal_strlit("messages");
    reveal_strlit("max_tokens");
    reveal_strlit("system");
    reveal_strlit("tools");
    reveal_strlit("tool_choice");
    reveal_strlit("thinking");
    assert("model"@.len() == 5);
    assert("messages"@.len() == 8);
    assert("max_tokens"@.len() == 10);
    assert("system"@.len() == 6);
    assert("tools"@.len() == 5);
    assert("tool_choice"@.len() == 11);
    assert("thinking"@.len() == 8);
    assert("model"@[0] == 'm');
    assert("tools"@[0] == 't');
    assert("messages"@[0] == 'm');
    assert("thinking"@[0] == 't');
    let body = body_json(model, messages, tools, max_tokens, thinking);
    let all = body->Object_0;
    let p = if system_prompt(messages) is Some {
        1int
    } else {
        0
    };
    let o = if tools.len() > 0 {
        2int
    } else {
        0
    };
    let thinks = thinking matches Some(t) && t.level != ThinkingLevel::Off;
    let h = if thinks {
        1int
    } else {
        0
    };
    assert(all.len() == 3 + p + o + h);
    assert(all[0].0 == "model"@);
    assert(all[1].0 == "messages"@);
    assert(all[2].0 == "max_tokens"@);
    json::lemma_find_at(all, 0);
    json::lemma_find_at(all, 1);
    json::lemma_find_at(all, 2);
    if p == 1 {
        assert(all[3].0 == "system"@);
        json::lemma_find_at(all, 3);
    } else {
        json::lemma_find_none(all, "system"@);
    }
    if o == 2 {
        assert(all[3 + p].0 == "tools"@);
        assert(all[4 + p].0 == "tool_choice"@);
        json::lemma_find_at(all, 3 + p);
    } else {
        json::lemma_find_none(all, "tools"@);
    }
    if thinks {
        assert(all[3 + p + o].0 == "thinking"@);
        json::lemma_find_at(all, 3 + p + o);
        lemma_thinking_members(thinking->0);
    } else {
        json::lemma_find_none(all, "thinking"@);
    }
    let sent = json::items(json::member_or_null(body, "messages"@));
    assert forall|i: int| 0 <= i < sent.len() implies {
        let m = api_messages(messages)[i];
        &&& json::text_member(#[trigger] sent[i], "role"@) == Some(
            if m.user {
                "user"@
            } else {
                "assistant"@
            },
        )
        &&& json::items(json::member_or_null(sent[i], "content"@)) == m.content
    } by {
        let c = CallModel { id: seq![], call_type: seq![], name: seq![], arguments: seq![] };
        lemma_block_members(seq![], c, None, api_messages(messages)[i]);
    }
    let offered = json::items(json::member_or_null(body, "tools"@));
    assert forall|i: int| 0 <= i < tools.len() implies {
        &&& json::text_member(#[trigger] offered[i], "name"@) == Some(tools[i].name)
        &&& json::text_member(offered[i], "description"@) == Some(tools[i].description)
        &&& json::member(offered[i], "input_schema"@) == Some(tools[i].parameters)
    } by {
        lemma_tool_members(tools[i]);
    }
}

proof fn lemma_tool_members(t: ToolModel)
    ensures
        json::text_member(tool_json(t), "name"@) == Some(t.name),
        json::text_member(tool_json(t), "description"@) == Some(t.description),
        json::member(tool_json(t), "input_schema"@) == Some(t.parameters),
{
    reveal_strlit("name");
    reveal_strlit("description");
    reveal_strlit("input_schema");
    assert("name"@.len() == 4);
    assert("description"@.len() == 11);
    assert("input_schema"@.len() == 12);
    let all = tool_json(t)->Object_0;
    json::lemma_find_at(all, 0);
    json::lemma_find_at(all, 1);
    json::lemma_find_at(all, 2);
}

proof fn lemma_thinking_members(t: ThinkingConfig)
    ensures
        ({
            let budget = t.budget()->0 as nat;
            let told = JsonModel::Object(
                seq![
                    ("type"@, JsonModel::Text("enabled"@)),
                    ("budget_tokens"@, json::number_model(budget)),
                ],
            );
            &&& json::text_member(told, "type"@) == Some("enabled"@)
            &&& json::number_or_zero(told, "budget_tokens"@) == t.budget()->0
        }),
{
    reveal_strlit("type");
    reveal_strlit("budget_tokens");
    assert("type"@.len() == 4);
    assert("budget_tokens"@.len() == 13);
    let all = seq![
        ("type"@, JsonModel::Text("enabled"@)),
        ("budget_tokens"@, json::number_model(t.budget()->0 as nat)),
    ];
    json::lemma_find_at(all, 0);
    json::lemma_find_at(all, 1);
}

/// An answer is read in full, block by block and in their order: a text gives its text, a
/// thought its thought, and a call of a tool its id, name and input; at last comes why the
/// answer ended.
pub proof fn law_an_answer_is_read_in_full(
    body: JsonModel,
    blocks: Seq<JsonModel>,
    inputs: Seq<Option<Seq<char>>>,
    block: JsonModel,
    input: Seq<char>,
    t: Seq<char>,
)
    ensures
        ({
            let before = block_pieces(blocks, inputs);
            let after = block_pieces(blocks.push(block), inputs.push(Some(input)));
            let kind = json::text_member(block, "type"@);
            &&& kind == Some("text"@) && json::text_member(block, "text"@) == Some(t) ==> after
                == before.push(PieceModel::TextDelta(t))
            &&& kind == Some("thinking"@) && json::text_member(block, "thinking"@) == Some(t)
                ==> after == before.push(PieceModel::ThinkingDelta(t))
            &&& kind == Some("tool_use"@) ==> {
                &&& after.len() == before.len() + 3
                &&& after.take(before.len() as int) == before
                &&& after[before.len() as int] == PieceModel::ToolCallStart {
                    index: 0,
                    id: json::text_or_empty(block, "id"@),
                    name: json::text_or_empty(block, "name"@),
                }
                &&& after[before.len() as int + 1] == PieceModel::ToolCallDelta {
                    index: 0,
                    arguments: input,
                }
                &&& after[before.len() as int + 2] == PieceModel::ToolCallEnd { index: 0 }
            }
        }),
        ({
            let given = json::written_members(content_blocks(body), "input"@);
            let pieces = response_pieces(body, given);
            let stop = json::text_member(body, "stop_reason"@);
            &&& pieces.len() > 0
            &&& pieces.drop_last() == block_pieces(content_blocks(body), given)
            &&& stop == Some("end_turn"@) ==> pieces.last() == PieceModel::Done(StopModel::Stop)
            &&& stop == Some("tool_use"@) ==> pieces.last() == PieceModel::Done(
                StopModel::ToolCalls,
            )
            &&& stop == Some("max_tokens"@) ==> pieces.last() == PieceModel::Done(
                StopModel::MaxTokens,
            )
        }),
{
    reveal_strlit("text");
    reveal_strlit("thinking");
    reveal_strlit("tool_use");
    reveal_strlit("end_turn");
    reveal_strlit("max_tokens");
    assert("text"@.len() == 4);
    assert("thinking"@.len() == 8);
    assert("tool_use"@.len() == 8);
    assert("end_turn"@.len() == 8);
    assert("max_tokens"@.len() == 10);
    assert("tool_use"@[0] == 't');
    assert("tool_use"@[1] == 'o');
    assert("thinking"@[1] == 'h');
    assert("end_turn"@[0] == 'e');
    assert(blocks.push(block).drop_last() =~= blocks);
    assert(inputs.push(Some(input)).drop_last() =~= inputs);
    let before = block_pieces(blocks, inputs);
    let after = block_pieces(blocks.push(block), inputs.push(Some(input)));
    let own = pieces_of(block, Some(input));
    assert(after == before + own);
    if own.len() == 1 {
        assert(after =~= before.push(own[0]));
    }
    assert(after.take(before.len() as int) =~= before);
    let given = json::written_members(content_blocks(body), "input"@);
    assert(response_pieces(body, given).drop_last() =~= block_pieces(content_blocks(body), given));
}

/// A provider goes to the address that is set, with the key and the model that are set; only
/// slashes at the end of the address are left out.
pub proof fn law_a_provider_goes_where_it_is_set_to(
    p: AnthropicProvider,
    base_url: Seq<char>,
    api_key: Seq<char>,
    model: Seq<char>,
)
    requires
        p.is_for(base_url, api_key, model),
    ensures
        p.api_key@ == api_key,
        p.model@ == model,
        p.base_url@.is_prefix_of(base_url),
        p.base_url@.len() > 0 ==> p.base_url@.last() != '/',
        forall|i: int|
            p.base_url@.len() <= i < base_url.len() ==> #[trigger] base_url[i] == '/',
{
    text::lemma_trailing(base_url, CharClass::Slash);
    let n = p.base_url@.len() as int;
    assert(base_url.subrange(0, n) =~= p.base_url@);
}

} // verus!
