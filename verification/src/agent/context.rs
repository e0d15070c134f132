//! From the conversation to what is sent to the model.
use vstd::prelude::*;

use crate::text;

use super::error::AgentError;
use super::message;
use super::message::{
    AgentMessage, ContentModel, MessageModel, ToolCall, ToolCallModel, ToolResultContent,
    UserContent,
};
use super::request;
use super::request::{CallModel, LlmFunctionCall, LlmMessage, LlmMessageModel, LlmToolCall};

verus! {

/// Changes a conversation before it is sent to the model.
pub trait ContextTransformer {
    /// The conversations that can be transformed.
    spec fn accepts(&self, messages: Seq<MessageModel>) -> bool;

    spec fn transformed(&self, messages: Seq<MessageModel>) -> Seq<MessageModel>;

    fn transform(&self, messages: &mut Vec<AgentMessage>) -> (r: Result<(), AgentError>)
        requires
            self.accepts(message::message_views(old(messages)@)),
        ensures
            r is Ok ==> message::message_views(final(messages)@) == self.transformed(
                message::message_views(old(messages)@),
            ),
    ;
}

// ---------------------------------------------------------------------------
// Truncation
// ---------------------------------------------------------------------------

/// The number of system messages at the start of a conversation.
pub open spec fn leading_system(ms: Seq<MessageModel>) -> nat
    decreases ms.len(),
{
    if ms.len() > 0 && ms[0] is System {
        1 + leading_system(ms.drop_first())
    } else {
        0
    }
}

/// The system messages at the start, and the last `keep` of the others.
pub open spec fn with_recent(ms: Seq<MessageModel>, keep: nat) -> Seq<MessageModel> {
    let system = leading_system(ms) as int;
    if keep >= ms.len() - system {
        ms
    } else {
        ms.take(system) + ms.skip(ms.len() - keep)
    }
}

/// At most `max` messages: the system messages at the start, and as many of the most
/// recent others as there is room for.
pub open spec fn truncated(ms: Seq<MessageModel>, max: nat) -> Seq<MessageModel> {
    if ms.len() <= max {
        ms
    } else if max <= leading_system(ms) {
        with_recent(ms, 0)
    } else {
        with_recent(ms, (max - leading_system(ms)) as nat)
    }
}

proof fn lemma_leading_system(ms: Seq<MessageModel>)
    ensures
        leading_system(ms) <= ms.len(),
        forall|i: int| 0 <= i < leading_system(ms) ==> (#[trigger] ms[i]) is System,
        leading_system(ms) < ms.len() ==> !(ms[leading_system(ms) as int] is System),
    decreases ms.len(),
{
    if ms.len() > 0 && ms[0] is System {
        let t = ms.drop_first();
        lemma_leading_system(t);
        assert forall|i: int| 0 <= i < leading_system(ms) implies (#[trigger] ms[i]) is System by {
            if i > 0 {
                assert(ms[i] == t[i - 1]);
            }
        }
    }
}

proof fn lemma_leading_system_is(ms: Seq<MessageModel>, n: nat)
    requires
        n <= ms.len(),
        forall|i: int| 0 <= i < n ==> (#[trigger] ms[i]) is System,
        n < ms.len() ==> !(ms[n as int] is System),
    ensures
        leading_system(ms) == n,
{
    lemma_leading_system(ms);
    let l = leading_system(ms);
    if l < n {
        assert(ms[l as int] is System);
    } else if n < l {
        assert(ms[n as int] is System);
    }
}

fn count_leading_system(messages: &Vec<AgentMessage>) -> (r: usize)
    ensures
        r == leading_system(message::message_views(messages@)),
        r <= messages@.len(),
{
    let ghost ms = message::message_views(messages@);
    let mut i: usize = 0;
    while i < messages.len()
        invariant_except_break
            forall|j: int| 0 <= j < i ==> (#[trigger] ms[j]) is System,
        invariant
            ms == message::message_views(messages@),
            i <= messages@.len(),
        ensures
            forall|j: int| 0 <= j < i ==> (#[trigger] ms[j]) is System,
            i < ms.len() ==> !(ms[i as int] is System),
        decreases messages@.len() - i,
    {
        let system = match &messages[i] {
            AgentMessage::System { .. } => true,
            _ => false,
        };
        assert(system == (ms[i as int] is System));
        if !system {
            break;
        }
        i += 1;
    }
    proof {
        lemma_leading_system_is(ms, i as nat);
    }
    i
}

/// Takes the messages from `from` up to `to` out of a conversation.
fn cut(messages: &mut Vec<AgentMessage>, from: usize, to: usize)
    requires
        from <= to <= old(messages)@.len(),
    ensures
        final(messages)@ == old(messages)@.take(from as int) + old(messages)@.skip(to as int),
{
    let mut tail = messages.split_off(to);
    messages.truncate(from);
    messages.append(&mut tail);
    assert(messages@ =~= old(messages)@.take(from as int) + old(messages)@.skip(to as int));
}

/// Keeps the last messages, and always the system messages at the start.
pub struct TruncationTransformer {
    pub max_messages: usize,
}

impl ContextTransformer for TruncationTransformer {
    open spec fn accepts(&self, messages: Seq<MessageModel>) -> bool {
        true
    }

    open spec fn transformed(&self, messages: Seq<MessageModel>) -> Seq<MessageModel> {
        truncated(messages, self.max_messages as nat)
    }

    fn transform(&self, messages: &mut Vec<AgentMessage>) -> (r: Result<(), AgentError>)
        ensures
            r is Ok,
    {
        let ghost ms = message::message_views(messages@);
        let n: usize = messages.len();
        if n <= self.max_messages {
            return Ok(());
        }
        let system: usize = count_leading_system(messages);
        let keep: usize = if self.max_messages <= system {
            0
        } else {
            self.max_messages - system
        };
        if keep >= n - system {
            return Ok(());
        }
        cut(messages, system, n - keep);
        assert(message::message_views(messages@) =~= ms.take(system as int) + ms.skip(n - keep));
        Ok(())
    }
}

/// Truncation keeps the system messages at the start and the most recent of the
/// others, in their order, and leaves no more than `max` messages, or none but the
/// system messages where these are that many already.
pub proof fn law_truncation_keeps_system_and_recent(ms: Seq<MessageModel>, max: nat)
    ensures
        ({
            let out = truncated(ms, max);
            let system = leading_system(ms);
            &&& system <= out.len() <= ms.len()
            &&& out.len() <= max || out.len() == system
            &&& out.take(system as int) == ms.take(system as int)
            &&& out.skip(system as int) == ms.skip(ms.len() - (out.len() - system))
        }),
{
    lemma_leading_system(ms);
    let out = truncated(ms, max);
    let system = leading_system(ms) as int;
    assert(out.take(system) =~= ms.take(system));
    assert(out.skip(system) =~= ms.skip(ms.len() - (out.len() - system)));
}

// ---------------------------------------------------------------------------
// Token budget
// ---------------------------------------------------------------------------

/// The number of bytes of the arguments of tool calls.
pub open spec fn argument_chars(calls: Seq<ToolCallModel>) -> nat
    decreases calls.len(),
{
    if calls.len() == 0 {
        0
    } else {
        argument_chars(calls.drop_last()) + text::byte_len(calls.last().arguments)
    }
}

/// The size of a content: that of its text. Images do not count.
pub open spec fn content_chars(c: ContentModel) -> nat {
    match c {
        ContentModel::Text(t) => text::byte_len(t),
        ContentModel::Image { .. } => 0,
    }
}

/// The size of a message: the number of bytes of its text and of the arguments of its
/// tool calls.
pub open spec fn message_chars(m: MessageModel) -> nat {
    match m {
        MessageModel::System { content } => text::byte_len(content),
        MessageModel::User { content, .. } => content_chars(content),
        MessageModel::Assistant { content, tool_calls, .. } => (match content {
            Some(c) => text::byte_len(c),
            None => 0,
        }) + argument_chars(tool_calls),
        MessageModel::ToolResult { content, .. } => content_chars(content),
    }
}

pub open spec fn total_chars(ms: Seq<MessageModel>) -> nat
    decreases ms.len(),
{
    if ms.len() == 0 {
        0
    } else {
        total_chars(ms.drop_last()) + message_chars(ms.last())
    }
}

/// The number of messages at the end that fit into `budget` together.
pub open spec fn fitting(ms: Seq<MessageModel>, budget: int) -> nat
    decreases ms.len(),
{
    if ms.len() == 0 || message_chars(ms.last()) > budget {
        0
    } else {
        1 + fitting(ms.drop_last(), budget - message_chars(ms.last()))
    }
}

/// A conversation within a budget of characters: the system messages at the start,
/// and as many of the most recent others as fit beside them, which may be none.
pub open spec fn budgeted(ms: Seq<MessageModel>, max_chars: nat) -> Seq<MessageModel> {
    let system = leading_system(ms) as int;
    let fits = fitting(ms.skip(system), max_chars - total_chars(ms.take(system)));
    if total_chars(ms) <= max_chars {
        ms
    } else {
        with_recent(ms, fits)
    }
}

/// The size of the arguments, if it is no more than `limit`.
fn arguments_within(calls: &Vec<ToolCall>, limit: usize) -> (r: Option<usize>)
    ensures
        r matches Some(n) ==> n == argument_chars(message::tool_call_views(calls@)) && n <= limit,
        r is None ==> argument_chars(message::tool_call_views(calls@)) > limit,
{
    let mut total: usize = 0;
    let ghost all = message::tool_call_views(calls@);
    for i in 0..calls.len()
        invariant
            all == message::tool_call_views(calls@),
            total == argument_chars(all.take(i as int)),
            total <= limit,
    {
        assert(all.take(i + 1).drop_last() =~= all.take(i as int));
        assert(all.take(i + 1).last() == calls@[i as int]@);
        let c: usize = text::byte_count(calls[i].arguments.as_str());
        if c > limit - total {
            proof {
                lemma_argument_chars_grow(all, i + 1);
            }
            return None;
        }
        total += c;
    }
    assert(all.take(all.len() as int) =~= all);
    Some(total)
}

proof fn lemma_argument_chars_grow(calls: Seq<ToolCallModel>, i: int)
    requires
        0 <= i <= calls.len(),
    ensures
        argument_chars(calls.take(i)) <= argument_chars(calls),
    decreases calls.len(),
{
    if i < calls.len() {
        lemma_argument_chars_grow(calls.drop_last(), i);
        assert(calls.drop_last().take(i) =~= calls.take(i));
    } else {
        assert(calls.take(i) =~= calls);
    }
}

proof fn lemma_total_chars_grow(ms: Seq<MessageModel>, i: int)
    requires
        0 <= i <= ms.len(),
    ensures
        total_chars(ms.take(i)) <= total_chars(ms),
    decreases ms.len(),
{
    if i < ms.len() {
        lemma_total_chars_grow(ms.drop_last(), i);
        assert(ms.drop_last().take(i) =~= ms.take(i));
    } else {
        assert(ms.take(i) =~= ms);
    }
}

/// The size of a message, if it is no more than `limit`.
fn chars_within(msg: &AgentMessage, limit: usize) -> (r: Option<usize>)
    ensures
        r matches Some(n) ==> n == message_chars(msg@) && n <= limit,
        r is None ==> message_chars(msg@) > limit,
{
    let n: usize = match msg {
        AgentMessage::System { content } => text::byte_count(content.as_str()),
        AgentMessage::User { content, .. } => match content {
            UserContent::Text(t) => text::byte_count(t.as_str()),
            UserContent::Image { .. } => 0,
        },
        AgentMessage::Assistant { content, tool_calls, .. } => {
            let own: usize = match content {
                Some(c) => text::byte_count(c.as_str()),
                None => 0,
            };
            if own > limit {
                return None;
            }
            match arguments_within(tool_calls, limit - own) {
                Some(arguments) => own + arguments,
                None => return None,
            }
        },
        AgentMessage::ToolResult { content, .. } => match content {
            ToolResultContent::Text(t) => text::byte_count(t.as_str()),
            ToolResultContent::Image { .. } => 0,
        },
    };
    if n <= limit {
        Some(n)
    } else {
        None
    }
}

/// The size of the first `count` messages, if it is no more than `limit`.
fn total_within(messages: &Vec<AgentMessage>, count: usize, limit: usize) -> (r: Option<usize>)
    requires
        count <= messages@.len(),
    ensures
        r matches Some(n) ==> n == total_chars(
            message::message_views(messages@).take(count as int),
        ) && n <= limit,
        r is None ==> total_chars(message::message_views(messages@).take(count as int)) > limit,
{
    let ghost ms = message::message_views(messages@);
    let mut total: usize = 0;
    for i in 0..count
        invariant
            ms == message::message_views(messages@),
            count <= messages@.len(),
            total == total_chars(ms.take(i as int)),
            total <= limit,
    {
        assert(ms.take(i + 1).drop_last() =~= ms.take(i as int));
        assert(ms.take(i + 1).last() == messages@[i as int]@);
        match chars_within(&messages[i], limit - total) {
            Some(c) => {
                total += c;
            },
            None => {
                proof {
                    lemma_total_chars_grow(ms.take(count as int), i + 1);
                    assert(ms.take(count as int).take(i + 1) =~= ms.take(i + 1));
                }
                return None;
            },
        }
    }
    Some(total)
}

/// Keeps the most recent messages that fit into a budget of tokens, at about four
/// characters to the token.
pub struct TokenBudgetTransformer {
    pub max_tokens: usize,
}

impl TokenBudgetTransformer {
    pub open spec fn max_chars(self) -> nat {
        (self.max_tokens * 4) as nat
    }

    /// Whether a conversation can be trimmed: it fits, or at least its system messages
    /// do.
    pub fn can_trim(&self, messages: &Vec<AgentMessage>) -> (r: bool)
        ensures
            r == self.accepts(message::message_views(messages@)),
    {
        if self.max_tokens > usize::MAX / 4 {
            return false;
        }
        let max_chars: usize = self.max_tokens * 4;
        let ghost ms = message::message_views(messages@);
        assert(ms.take(ms.len() as int) =~= ms);
        if total_within(messages, messages.len(), max_chars).is_some() {
            return true;
        }
        let system: usize = count_leading_system(messages);
        total_within(messages, system, max_chars).is_some()
    }
}

impl ContextTransformer for TokenBudgetTransformer {
    open spec fn accepts(&self, messages: Seq<MessageModel>) -> bool {
        &&& self.max_chars() <= usize::MAX
        &&& total_chars(messages) <= self.max_chars() || total_chars(
            messages.take(leading_system(messages) as int),
        ) <= self.max_chars()
    }

    open spec fn transformed(&self, messages: Seq<MessageModel>) -> Seq<MessageModel> {
        budgeted(messages, self.max_chars())
    }

    fn transform(&self, messages: &mut Vec<AgentMessage>) -> (r: Result<(), AgentError>)
        ensures
            r is Ok,
    {
        let max_chars: usize = self.max_tokens * 4;
        let ghost ms = message::message_views(messages@);
        let n: usize = messages.len();
        assert(ms.take(n as int) =~= ms);
        if total_within(messages, n, max_chars).is_some() {
            return Ok(());
        }
        let system: usize = count_leading_system(messages);
        let mut budget: usize = match total_within(messages, system, max_chars) {
            Some(used) => max_chars - used,
            None => return Ok(()),
        };
        let ghost rest = ms.skip(system as int);
        let ghost whole = budget as int;
        assert(rest.take(rest.len() as int) =~= rest);
        let mut start: usize = n;
        while start > system
            invariant_except_break
                fitting(rest, whole) == (n - start) + fitting(
                    rest.take(start - system),
                    budget as int,
                ),
            invariant
                ms == message::message_views(messages@),
                n == messages@.len(),
                rest == ms.skip(system as int),
                system <= start <= n,
            ensures
                fitting(rest, whole) == n - start,
            decreases start,
        {
            let ghost front = rest.take(start - system);
            assert(front.last() == messages@[start - 1]@);
            assert(front.drop_last() =~= rest.take(start - 1 - system));
            match chars_within(&messages[start - 1], budget) {
                Some(c) => {
                    budget -= c;
                    start -= 1;
                },
                None => {
                    break;
                },
            }
        }
        cut(messages, system, start);
        assert(message::message_views(messages@) =~= ms.take(system as int) + ms.skip(
            start as int,
        ));
        Ok(())
    }
}

proof fn lemma_fitting_total(ms: Seq<MessageModel>, budget: int)
    requires
        budget >= 0,
    ensures
        fitting(ms, budget) <= ms.len(),
        total_chars(ms.skip(ms.len() - fitting(ms, budget))) <= budget,
    decreases ms.len(),
{
    let f = fitting(ms, budget) as int;
    if ms.len() > 0 && message_chars(ms.last()) <= budget {
        let t = ms.drop_last();
        lemma_fitting_total(t, budget - message_chars(ms.last()));
        let kept = ms.skip(ms.len() - f);
        assert(kept.drop_last() =~= t.skip(t.len() - (f - 1)));
        assert(kept.last() == ms.last());
    } else {
        assert(ms.skip(ms.len() as int) =~= seq![]);
    }
}

proof fn lemma_total_chars_add(a: Seq<MessageModel>, b: Seq<MessageModel>)
    ensures
        total_chars(a + b) == total_chars(a) + total_chars(b),
    decreases b.len(),
{
    if b.len() == 0 {
        assert(a + b =~= a);
    } else {
        lemma_total_chars_add(a, b.drop_last());
        assert((a + b).drop_last() =~= a + b.drop_last());
        assert((a + b).last() == b.last());
    }
}

/// Trimming keeps within the budget wherever the system messages fit into it, and a
/// conversation that fits is left as it is.
pub proof fn law_budget_is_kept(ms: Seq<MessageModel>, max_chars: nat)
    requires
        total_chars(ms.take(leading_system(ms) as int)) <= max_chars,
    ensures
        total_chars(budgeted(ms, max_chars)) <= max_chars,
        total_chars(ms) <= max_chars ==> budgeted(ms, max_chars) == ms,
{
    lemma_leading_system(ms);
    let system = leading_system(ms) as int;
    let rest = ms.skip(system);
    let budget = max_chars - total_chars(ms.take(system));
    lemma_fitting_total(rest, budget);
    let f = fitting(rest, budget) as int;
    if total_chars(ms) > max_chars {
        let kept = rest.skip(rest.len() - f);
        assert(kept =~= ms.skip(ms.len() - f));
        lemma_total_chars_add(ms.take(system), kept);
        if f >= ms.len() - system {
            assert(ms =~= ms.take(system) + kept);
        }
    }
}

// ---------------------------------------------------------------------------
// Conversion
// ---------------------------------------------------------------------------

/// A tool call as a model sees it.
pub open spec fn converted_call(c: ToolCallModel) -> CallModel {
    CallModel { id: c.id, call_type: "function"@, name: c.name, arguments: c.arguments }
}

pub open spec fn converted_calls(s: Seq<ToolCallModel>) -> Seq<CallModel> {
    s.map_values(|c: ToolCallModel| converted_call(c))
}

/// What becomes of a message: at most one message for the model. An image is not sent,
/// and neither is an answer that holds nothing.
pub open spec fn converted_message(m: MessageModel) -> Seq<LlmMessageModel> {
    match m {
        MessageModel::System { content } => seq![request::plain_message("system"@, content)],
        MessageModel::User { content, .. } => match content {
            ContentModel::Text(t) => seq![request::plain_message("user"@, t)],
            _ => seq![],
        },
        MessageModel::Assistant { content, tool_calls, .. } => if tool_calls.len() > 0 {
            seq![
                LlmMessageModel {
                    role: "assistant"@,
                    content: None,
                    tool_calls: converted_calls(tool_calls),
                    tool_call_id: None,
                },
            ]
        } else {
            match content {
                Some(t) => seq![request::plain_message("assistant"@, t)],
                None => seq![],
            }
        },
        MessageModel::ToolResult { tool_call_id, content, .. } => match content {
            ContentModel::Text(t) => seq![
                LlmMessageModel {
                    tool_call_id: Some(tool_call_id),
                    ..request::plain_message("tool"@, t)
                },
            ],
            _ => seq![],
        },
    }
}

/// A conversation as a model sees it.
pub open spec fn converted(ms: Seq<MessageModel>) -> Seq<LlmMessageModel>
    decreases ms.len(),
{
    if ms.len() == 0 {
        seq![]
    } else {
        converted(ms.drop_last()) + converted_message(ms.last())
    }
}

fn convert_calls(calls: &Vec<ToolCall>) -> (r: Vec<LlmToolCall>)
    ensures
        request::call_views(r@) == converted_calls(message::tool_call_views(calls@)),
{
    let mut out: Vec<LlmToolCall> = Vec::new();
    for i in 0..calls.len()
        invariant
            out@.len() == i,
            forall|j: int| 0 <= j < i ==> (#[trigger] out@[j])@ == converted_call(calls@[j]@),
    {
        let call = LlmToolCall {
            id: calls[i].id.clone(),
            call_type: "function".to_string(),
            function: LlmFunctionCall {
                name: calls[i].name.clone(),
                arguments: calls[i].arguments.clone(),
            },
        };
        assert(call@ =~= converted_call(calls@[i as int]@));
        out.push(call);
    }
    assert(request::call_views(out@) =~= converted_calls(message::tool_call_views(calls@)));
    out
}

/// The usual conversion, in the format of the OpenAI interface.
pub struct DefaultConverter;

impl DefaultConverter {
    pub fn convert(&self, messages: &Vec<AgentMessage>) -> (r: Vec<LlmMessage>)
        ensures
            request::llm_views(r@) == converted(message::message_views(messages@)),
    {
        let mut out: Vec<LlmMessage> = Vec::new();
        let ghost ms = message::message_views(messages@);
        assert(request::llm_views(out@) =~= converted(ms.take(0)));
        for i in 0..messages.len()
            invariant
                ms == message::message_views(messages@),
                request::llm_views(out@) == converted(ms.take(i as int)),
        {
            let ghost before = request::llm_views(out@);
            assert(ms.take(i + 1).drop_last() =~= ms.take(i as int));
            assert(ms.take(i + 1).last() == messages@[i as int]@);
            let next: Option<LlmMessage> = match &messages[i] {
                AgentMessage::System { content } => Some(LlmMessage::system(content.as_str())),
                AgentMessage::User { content, .. } => match content {
                    UserContent::Text(t) => Some(LlmMessage::user(t.as_str())),
                    UserContent::Image { .. } => None,
                },
                AgentMessage::Assistant { content, tool_calls, .. } => {
                    if tool_calls.len() > 0 {
                        Some(LlmMessage::assistant_tool_calls(convert_calls(tool_calls)))
                    } else {
                        match content {
                            Some(t) => Some(LlmMessage::assistant_text(t.as_str())),
                            None => None,
                        }
                    }
                },
                AgentMessage::ToolResult { tool_call_id, content, .. } => match content {
                    ToolResultContent::Text(t) => Some(
                        LlmMessage::tool_result(tool_call_id.as_str(), t.as_str()),
                    ),
                    ToolResultContent::Image { .. } => None,
                },
            };
            match next {
                Some(m) => {
                    assert(converted_message(ms[i as int]) =~= seq![m@]);
                    out.push(m);
                    assert(request::llm_views(out@) =~= before + seq![m@]);
                },
                None => {
                    assert(before + converted_message(ms[i as int]) =~= before);
                },
            }
        }
        assert(ms.take(ms.len() as int) =~= ms);
        out
    }
}

/// A conversation is converted message by message.
pub proof fn lemma_converted_add(a: Seq<MessageModel>, b: Seq<MessageModel>)
    ensures
        converted(a + b) == converted(a) + converted(b),
    decreases b.len(),
{
    if b.len() == 0 {
        assert(a + b =~= a);
        assert(converted(a) + converted(b) =~= converted(a));
    } else {
        lemma_converted_add(a, b.drop_last());
        assert((a + b).drop_last() =~= a + b.drop_last());
        assert((a + b).last() == b.last());
        assert(converted(a + b) =~= converted(a) + converted(b));
    }
}

/// Where each message becomes one message for the model, they keep their places.
pub proof fn lemma_converted_one_each(ms: Seq<MessageModel>)
    requires
        forall|i: int| 0 <= i < ms.len() ==> converted_message(#[trigger] ms[i]).len() == 1,
    ensures
        converted(ms).len() == ms.len(),
        forall|i: int|
            0 <= i < ms.len() ==> #[trigger] converted(ms)[i] == converted_message(ms[i])[0],
    decreases ms.len(),
{
    if ms.len() > 0 {
        let t = ms.drop_last();
        assert forall|i: int| 0 <= i < t.len() implies converted_message(#[trigger] t[i]).len()
            == 1 by {
            assert(t[i] == ms[i]);
        }
        lemma_converted_one_each(t);
        assert forall|i: int| 0 <= i < ms.len() implies #[trigger] converted(ms)[i]
            == converted_message(ms[i])[0] by {
            if i < t.len() {
                assert(converted(ms)[i] == converted(t)[i]);
                assert(t[i] == ms[i]);
            } else {
                assert(converted_message(ms[ms.len() - 1]).len() == 1);
            }
        }
    }
}

/// Every message that holds a text comes to the model as one message, behind those before it,
/// with the role of who said it and the text in full; a tool's result names its call. An
/// answer with tool calls comes with all of them: their ids, names and arguments.
pub proof fn law_the_model_is_told_who_said_what(before: Seq<MessageModel>, m: MessageModel)
    ensures
        ({
            let earlier = converted(before);
            let all = converted(before.push(m));
            let told = all.last();
            &&& earlier.is_prefix_of(all)
            &&& all.len() <= earlier.len() + 1
            &&& m matches MessageModel::System { content } ==> all.len() == earlier.len() + 1
                && told.role == "system"@ && told.content == Some(content)
            &&& m matches MessageModel::User { content: ContentModel::Text(t), .. } ==> all.len()
                == earlier.len() + 1 && told.role == "user"@ && told.content == Some(t)
            &&& m matches MessageModel::Assistant { content, tool_calls, .. } ==> if tool_calls.len()
                > 0 {
                &&& all.len() == earlier.len() + 1
                &&& told.role == "assistant"@
                &&& told.tool_calls.len() == tool_calls.len()
                &&& forall|i: int|
                    0 <= i < tool_calls.len() ==> {
                        &&& (#[trigger] told.tool_calls[i]).id == tool_calls[i].id
                        &&& told.tool_calls[i].name == tool_calls[i].name
                        &&& told.tool_calls[i].arguments == tool_calls[i].arguments
                        &&& told.tool_calls[i].call_type == "function"@
                    }
            } else {
                match content {
                    Some(t) => all.len() == earlier.len() + 1 && told.role == "assistant"@
                        && told.content == Some(t) && told.tool_calls.len() == 0,
                    None => all == earlier,
                }
            }
            &&& m matches MessageModel::ToolResult {
                tool_call_id,
                content: ContentModel::Text(t),
                ..
            } ==> all.len() == earlier.len() + 1 && told.role == "tool"@ && told.content == Some(t)
                && told.tool_call_id == Some(tool_call_id)
        }),
{
    assert(before.push(m).drop_last() =~= before);
    let earlier = converted(before);
    let all = converted(before.push(m));
    assert(all == earlier + converted_message(m));
    assert(earlier =~= all.take(earlier.len() as int));
    if converted_message(m).len() == 0 {
        assert(all =~= earlier);
    }
}

/// Trimming to a budget keeps as much as it can: the system messages at the start and the end
/// of the conversation, and where a message was left out, the last of those would not have
/// fitted any more.
pub proof fn law_budget_is_used_up(ms: Seq<MessageModel>, max_chars: nat)
    requires
        total_chars(ms.take(leading_system(ms) as int)) <= max_chars,
    ensures
        ({
            let out = budgeted(ms, max_chars);
            let system = leading_system(ms) as int;
            let kept = out.len() - system;
            let left_out = ms.len() - out.len();
            &&& system <= out.len() <= ms.len()
            &&& out.take(system) == ms.take(system)
            &&& out.skip(system) == ms.skip(ms.len() - kept)
            &&& left_out > 0 ==> total_chars(ms.take(system) + ms.skip(ms.len() - kept - 1))
                > max_chars
        }),
{
    lemma_leading_system(ms);
    law_budget_is_kept(ms, max_chars);
    let system = leading_system(ms) as int;
    let rest = ms.skip(system);
    let budget = max_chars - total_chars(ms.take(system));
    lemma_fitting_total(rest, budget);
    let f = fitting(rest, budget) as int;
    let out = budgeted(ms, max_chars);
    assert(out.take(system) =~= ms.take(system));
    assert(out.skip(system) =~= ms.skip(ms.len() - (out.len() - system)));
    if ms.len() > out.len() {
        assert(out.len() == system + f);
        lemma_fitting_most(rest, budget);
        assert(rest.skip(rest.len() - f - 1) =~= ms.skip(ms.len() - f - 1));
        lemma_total_chars_add(ms.take(system), ms.skip(ms.len() - f - 1));
    }
}

proof fn lemma_fitting_most(ms: Seq<MessageModel>, budget: int)
    requires
        budget >= 0,
        fitting(ms, budget) < ms.len(),
    ensures
        total_chars(ms.skip(ms.len() - fitting(ms, budget) - 1)) > budget,
    decreases ms.len(),
{
    let f = fitting(ms, budget) as int;
    let kept = ms.skip(ms.len() - f - 1);
    assert(kept.last() == ms.last());
    if message_chars(ms.last()) <= budget {
        let t = ms.drop_last();
        lemma_fitting_most(t, budget - message_chars(ms.last()));
        assert(kept.drop_last() =~= t.skip(t.len() - (f - 1) - 1));
    } else {
        assert(total_chars(kept) >= message_chars(ms.last()));
    }
}

/// All system messages at the start count as such, and none behind another message does.
pub proof fn law_system_messages_at_the_start_are_kept(ms: Seq<MessageModel>, n: int)
    requires
        0 <= n <= ms.len(),
        forall|i: int| 0 <= i < n ==> (#[trigger] ms[i]) is System,
        n < ms.len() ==> !(ms[n] is System),
    ensures
        leading_system(ms) == n,
{
    lemma_leading_system(ms);
    if leading_system(ms) < n {
        assert(ms[leading_system(ms) as int] is System);
    } else if leading_system(ms) > n {
        assert(ms[n] is System);
    }
}

/// Nothing is cut that need not be: a conversation that is short enough stays as it is, and of
/// a longer one as many messages are kept as are allowed.
pub proof fn law_no_more_is_cut_than_must_be(ms: Seq<MessageModel>, max: nat)
    ensures
        ms.len() <= max ==> truncated(ms, max) == ms,
        ms.len() > max && max >= leading_system(ms) ==> truncated(ms, max).len() == max,
{
    lemma_leading_system(ms);
}

/// The size of a conversation is that of its messages, and that of a message the bytes of its
/// text and of the arguments of its calls. A token counts as four of them.
pub proof fn law_sizes_add_up(
    a: Seq<MessageModel>,
    b: Seq<MessageModel>,
    m: MessageModel,
    call: ToolCallModel,
    t: TokenBudgetTransformer,
)
    ensures
        total_chars(a + b) == total_chars(a) + total_chars(b),
        total_chars(seq![m]) == message_chars(m),
        m matches MessageModel::System { content } ==> message_chars(m) == text::byte_len(content),
        (m matches MessageModel::User { content, .. } && content is Text) ==> message_chars(m)
            == text::byte_len(m->User_content->Text_0),
        (m matches MessageModel::ToolResult { content, .. } && content is Text) ==> message_chars(m)
            == text::byte_len(m->ToolResult_content->Text_0),
        m matches MessageModel::Assistant { content, tool_calls, .. } ==> (tool_calls
            == seq![call] ==> message_chars(m) == text::byte_len(call.arguments) + (match content {
            Some(c) => text::byte_len(c),
            None => 0,
        })),
        t.max_chars() == t.max_tokens * 4,
    decreases b.len(),
{
    let none = Seq::<MessageModel>::empty();
    assert(seq![m].drop_last() =~= none);
    assert(total_chars(none) == 0);
    assert(seq![call].drop_last() =~= Seq::<ToolCallModel>::empty());
    assert(argument_chars(Seq::<ToolCallModel>::empty()) == 0);
    assert(argument_chars(seq![call]) == text::byte_len(call.arguments));
    lemma_total_chars_add(a, b);
}

/// What the user says reaches the model in the user's words, behind all that was said before.
pub proof fn law_the_user_is_heard(before: Seq<MessageModel>, text: Seq<char>)
    ensures
        ({
            let all = converted(before.push(message::user_message(text)));
            &&& all.len() == converted(before).len() + 1
            &&& all.drop_last() == converted(before)
            &&& all.last().role == "user"@
            &&& all.last().content == Some(text)
            &&& all.last().tool_calls.len() == 0
            &&& all.last().tool_call_id is None
        }),
{
    let all = before.push(message::user_message(text));
    assert(all.drop_last() =~= before);
    assert(converted(all).drop_last() =~= converted(before));
}

} // verus!
