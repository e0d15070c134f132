//! The correction and the summary of a meeting by a language model.
use vstd::prelude::*;

use crate::agent::error::AgentError;
use crate::agent::provider::Provider;
use crate::agent::request::{
    LlmMessage, LlmRequest, LlmStreamEvent, PieceModel, ThinkingConfig, ThinkingLevel,
};
use crate::storage::{AgentConfig, LlmConfig};
use crate::{agent, text, transcription};

verus! {

/// What the language model is told about correcting a transcript.
pub const CORRECTION_SYSTEM: &'static str = "你是一名专业的会议记录编辑。你的任务是对自动语音识别（ASR）产出的中文/英文会议转写文本进行轻度润色：\n\n1. 修正明显的同音/近音错别字与漏字。\n2. 补全标点、拆分长段、调整段落以提升可读性。\n3. 当判断说话人切换时，使用 “说话人A：” / “说话人B：” 等占位标签换行（仅在原文有明显切换迹象时）。\n4. 删除明显没有语义的 ASR 噪声，例如孤立的乱码、重复碎片、明显误识别且不承载语义的长数字串或字符串；如果无法确定是否为噪声，则保留原文。\n5. 严禁改写、扩写、概括、翻译或加入原文未提及的信息。\n6. 输出只包含润色后的会议正文，不要解释、不要前言、不要使用 markdown 标题。";

/// What the language model is told about summing a transcript up.
pub const SUMMARY_SYSTEM: &'static str = "你是一名会议纪要助理。基于提供的会议转写，输出一个 JSON 对象，字段固定为：\n{\n  \"title\": \"<不超过 30 字的中文标题>\",\n  \"key_points\": [\"要点1\", \"要点2\", ...],\n  \"todos\": [\"待办1\", ...],\n  \"decisions\": [\"决议1\", ...]\n}\n\n严格要求：\n- 只输出合法 JSON，不要使用 markdown 代码块包裹。\n- 列表字段如果没有内容，输出空数组 []。\n- 内容必须来自原文，不要编造。\n- title 必须能概括整场会议主题。";

// ---------------------------------------------------------------------------
// Requests
// ---------------------------------------------------------------------------

/// The settings of the provider. Where those of the agent are empty, those of the language
/// model take their place.
pub struct Resolved {
    pub provider_type: String,
    pub base_url: String,
    pub api_key: String,
    pub model: String,
}

pub open spec fn is_resolved(r: Resolved, agent: AgentConfig, llm: LlmConfig) -> bool {
    &&& r.provider_type@ == transcription::or_setting(agent.provider_type@, "openai_compatible"@)
    &&& r.base_url@ == transcription::or_setting(agent.provider_base_url@, llm.base_url@)
    &&& r.api_key@ == transcription::or_setting(agent.provider_api_key@, llm.api_key@)
    &&& r.model@ == transcription::or_setting(agent.provider_model@, llm.model@)
}

pub fn resolve(agent_config: &AgentConfig, llm_config: &LlmConfig) -> (r: Resolved)
    ensures
        is_resolved(r, *agent_config, *llm_config),
{
    Resolved {
        provider_type: transcription::setting_or(
            &agent_config.provider_type,
            "openai_compatible",
        ),
        base_url: transcription::setting_or(
            &agent_config.provider_base_url,
            llm_config.base_url.as_str(),
        ),
        api_key: transcription::setting_or(
            &agent_config.provider_api_key,
            llm_config.api_key.as_str(),
        ),
        model: transcription::setting_or(
            &agent_config.provider_model,
            llm_config.model.as_str(),
        ),
    }
}

/// A question to a language model, and the provider that it goes to.
pub struct Oneshot {
    pub provider: Provider,
    pub request: LlmRequest,
}

/// The question asks the model `model` with these prompts, for an answer of at most so many
/// tokens.
pub open spec fn asks(
    request: LlmRequest,
    model: Seq<char>,
    system_prompt: Seq<char>,
    user_prompt: Seq<char>,
    max_tokens: u32,
) -> bool {
    &&& request.model@ == model
    &&& agent::request::llm_views(request.messages@) == seq![
        agent::request::plain_message("system"@, system_prompt),
        agent::request::plain_message("user"@, user_prompt),
    ]
    &&& request.tools@.len() == 0
    &&& request.thinking == Some(ThinkingConfig { level: ThinkingLevel::Off, budget_tokens: None })
    &&& request.max_tokens == Some(max_tokens)
}

/// The outcome of preparing a question with these settings.
pub open spec fn is_oneshot(
    r: Result<Oneshot, String>,
    system_prompt: Seq<char>,
    user_prompt: Seq<char>,
    agent: AgentConfig,
    llm: LlmConfig,
    max_tokens: u32,
) -> bool {
    let base_url = transcription::or_setting(agent.provider_base_url@, llm.base_url@);
    let api_key = transcription::or_setting(agent.provider_api_key@, llm.api_key@);
    let model = transcription::or_setting(agent.provider_model@, llm.model@);
    let kind = transcription::or_setting(agent.provider_type@, "openai_compatible"@);
    if text::is_blank(base_url) || text::is_blank(api_key) || text::is_blank(model) {
        r matches Err(m) && m@ == "LLM is not configured"@
    } else if kind != "anthropic"@ && !agent::provider::speaks_openai(kind) {
        r matches Err(m) && m@
            == "failed to create LLM provider: Provider error: Unknown provider type: "@ + kind
    } else {
        &&& r matches Ok(q)
        &&& asks(q.request, model, system_prompt, user_prompt, max_tokens)
        &&& match q.provider {
            Provider::Anthropic(p) => kind == "anthropic"@ && p.is_for(base_url, api_key, model),
            Provider::OpenAi(p) => kind != "anthropic"@ && p.is_for(base_url, api_key, model),
        }
    }
}

fn prepare_oneshot(
    system_prompt: &str,
    user_prompt: &str,
    agent_config: &AgentConfig,
    llm_config: &LlmConfig,
    max_tokens: u32,
) -> (r: Result<Oneshot, String>)
    ensures
        is_oneshot(r, system_prompt@, user_prompt@, *agent_config, *llm_config, max_tokens),
{
    let s = resolve(agent_config, llm_config);
    if text::is_blank_str(s.base_url.as_str()) || text::is_blank_str(s.api_key.as_str())
        || text::is_blank_str(s.model.as_str()) {
        return Err("LLM is not configured".to_string());
    }
    let provider = match agent::provider::create_provider(
        s.provider_type.as_str(),
        s.base_url.as_str(),
        s.api_key.as_str(),
        s.model.as_str(),
    ) {
        Ok(p) => p,
        Err(e) => {
            let m = e.message();
            proof {
                reveal_strlit("failed to create LLM provider: ");
                reveal_strlit("Provider error: ");
                reveal_strlit("Unknown provider type: ");
                reveal_strlit(
                    "failed to create LLM provider: Provider error: Unknown provider type: ",
                );
                assert("failed to create LLM provider: "@ + ("Provider error: "@
                    + ("Unknown provider type: "@ + s.provider_type@))
                    =~= "failed to create LLM provider: Provider error: Unknown provider type: "@
                    + s.provider_type@);
            }
            return Err(text::concat2("failed to create LLM provider: ", m.as_str()));
        },
    };
    let mut messages: Vec<LlmMessage> = Vec::new();
    messages.push(LlmMessage::system(system_prompt));
    messages.push(LlmMessage::user(user_prompt));
    assert(agent::request::llm_views(messages@) =~= seq![
        agent::request::plain_message("system"@, system_prompt@),
        agent::request::plain_message("user"@, user_prompt@),
    ]);
    Ok(
        Oneshot {
            provider,
            request: LlmRequest {
                model: s.model,
                messages,
                tools: Vec::new(),
                thinking: Some(ThinkingConfig { level: ThinkingLevel::Off, budget_tokens: None }),
                max_tokens: Some(max_tokens),
            },
        },
    )
}

/// The question for the correction of a transcript.
pub open spec fn correction_prompt(raw_text: Seq<char>) -> Seq<char> {
    "以下是 ASR 原始转写，请按照系统指令进行润色：\n\n```\n"@ + raw_text + "\n```"@
}

/// The question for the summary of a transcript.
pub open spec fn summary_prompt(text: Seq<char>) -> Seq<char> {
    "以下是会议转写，请按照系统指令输出 JSON：\n\n```\n"@ + text + "\n```"@
}

/// Prepares the question for the correction of a transcript.
pub fn correct_transcript(
    raw_text: &str,
    agent_config: &AgentConfig,
    llm_config: &LlmConfig,
) -> (r: Result<Oneshot, String>)
    ensures
        is_oneshot(
            r,
            CORRECTION_SYSTEM@,
            correction_prompt(raw_text@),
            *agent_config,
            *llm_config,
            4096,
        ),
{
    let prompt = text::concat3("以下是 ASR 原始转写，请按照系统指令进行润色：\n\n```\n", raw_text, "\n```");
    prepare_oneshot(CORRECTION_SYSTEM, prompt.as_str(), agent_config, llm_config, 4096)
}

/// Prepares the question for the summary of a transcript.
pub fn summarise_transcript(
    text: &str,
    agent_config: &AgentConfig,
    llm_config: &LlmConfig,
) -> (r: Result<Oneshot, String>)
    ensures
        is_oneshot(r, SUMMARY_SYSTEM@, summary_prompt(text@), *agent_config, *llm_config, 2048),
{
    let prompt = text::concat3("以下是会议转写，请按照系统指令输出 JSON：\n\n```\n", text, "\n```");
    prepare_oneshot(SUMMARY_SYSTEM, prompt.as_str(), agent_config, llm_config, 2048)
}

// ---------------------------------------------------------------------------
// Answers
// ---------------------------------------------------------------------------

/// An answer as far as it has come.
pub struct Reply {
    pub text: String,
    pub done: bool,
}

/// The text of an answer: that of its pieces up to the one that ends it.
pub open spec fn reply_text(pieces: Seq<PieceModel>) -> Seq<char>
    decreases pieces.len(),
{
    if pieces.len() == 0 {
        seq![]
    } else {
        match pieces[0] {
            PieceModel::TextDelta(t) => t + reply_text(pieces.drop_first()),
            PieceModel::Done(_) => seq![],
            _ => reply_text(pieces.drop_first()),
        }
    }
}

impl Reply {
    pub fn new() -> (r: Self)
        ensures
            r.text@ == Seq::<char>::empty(),
            !r.done,
    {
        Reply { text: String::new(), done: false }
    }

    /// Takes a piece of the answer, or what went wrong.
    pub fn receive(&mut self, piece: Result<LlmStreamEvent, AgentError>) -> (r: Result<(), String>)
        requires
            !old(self).done,
        ensures
            match piece {
                Ok(e) => r is Ok && match e@ {
                    PieceModel::TextDelta(t) => final(self).text@ == old(self).text@ + t
                        && !final(self).done,
                    PieceModel::Done(_) => final(self).text@ == old(self).text@
                        && final(self).done,
                    _ => *final(self) == *old(self),
                },
                Err(e) => (r matches Err(m) && m@ == "LLM stream error: "@ + e.text())
                    && *final(self) == *old(self),
            },
    {
        match piece {
            Ok(LlmStreamEvent::TextDelta(t)) => {
                self.text.append(t.as_str());
                Ok(())
            },
            Ok(LlmStreamEvent::Done { .. }) => {
                self.done = true;
                Ok(())
            },
            Ok(_) => Ok(()),
            Err(e) => {
                let m = e.message();
                Err(text::concat2("LLM stream error: ", m.as_str()))
            },
        }
    }
}

/// The text of a complete answer.
pub fn collect_reply(pieces: Vec<LlmStreamEvent>) -> (r: String)
    ensures
        r@ == reply_text(agent::request::piece_views(pieces@)),
{
    let ghost all = agent::request::piece_views(pieces@);
    let mut rest = pieces;
    let n: usize = rest.len();
    let mut reply = Reply::new();
    let mut i: usize = 0;
    assert(all.skip(0) =~= all);
    while i < n && !reply.done
        invariant
            n == all.len(),
            i <= n,
            agent::request::piece_views(rest@) == all.skip(i as int),
            !reply.done ==> reply_text(all) == reply.text@ + reply_text(all.skip(i as int)),
            reply.done ==> reply_text(all) == reply.text@,
        decreases n - i,
    {
        let ghost before = agent::request::piece_views(rest@);
        let ghost said = reply.text@;
        assert(before.len() == rest@.len());
        let piece = rest.remove(0);
        assert(before[0] == piece@);
        assert(agent::request::piece_views(rest@) =~= before.drop_first());
        assert(before.drop_first() =~= all.skip(i + 1));
        let _ = reply.receive(Ok(piece));
        proof {
            match piece@ {
                PieceModel::TextDelta(t) => {
                    assert(said + (t + reply_text(all.skip(i + 1))) =~= (said + t) + reply_text(
                        all.skip(i + 1),
                    ));
                },
                PieceModel::Done(_) => {
                    assert(said + seq![] =~= said);
                },
                _ => {},
            }
        }
        i = i + 1;
    }
    assert(!reply.done ==> reply_text(all.skip(n as int)) =~= seq![]);
    assert(reply.text@ + Seq::<char>::empty() =~= reply.text@);
    reply.text
}

// ---------------------------------------------------------------------------
// The JSON object of an answer
// ---------------------------------------------------------------------------

/// Where the reader of an object stands: how many braces are open, and whether it is in a
/// text and behind a backslash there.
pub struct ScanModel {
    pub depth: int,
    pub in_text: bool,
    pub escaped: bool,
}

/// The state after one more character.
pub open spec fn after_char(m: ScanModel, c: char) -> ScanModel {
    if m.in_text {
        if m.escaped {
            ScanModel { escaped: false, ..m }
        } else if c == '\\' {
            ScanModel { escaped: true, ..m }
        } else if c == '"' {
            ScanModel { in_text: false, ..m }
        } else {
            m
        }
    } else if c == '"' {
        ScanModel { in_text: true, ..m }
    } else if c == '{' {
        ScanModel { depth: m.depth + 1, ..m }
    } else if c == '}' {
        ScanModel { depth: m.depth - 1, ..m }
    } else {
        m
    }
}

/// The state after a text.
pub open spec fn scanned(s: Seq<char>) -> ScanModel
    decreases s.len(),
{
    if s.len() == 0 {
        ScanModel { depth: 0, in_text: false, escaped: false }
    } else {
        after_char(scanned(s.drop_last()), s.last())
    }
}

/// The first `n` characters of `s` close what they open, the last of them for the first
/// time.
pub open spec fn closes_at(s: Seq<char>, n: int) -> bool {
    &&& 0 < n <= s.len()
    &&& s[n - 1] == '}'
    &&& !scanned(s.take(n - 1)).in_text
    &&& scanned(s.take(n)).depth == 0
}

/// The number of characters of the object that `s` begins with, if it ends.
pub open spec fn is_object_len(s: Seq<char>, n: int) -> bool {
    closes_at(s, n) && forall|k: int| 0 < k < n ==> !closes_at(s, k)
}

/// `i` is where the first brace of `s` opens.
pub open spec fn opens_at(s: Seq<char>, i: int) -> bool {
    0 <= i < s.len() && s[i] == '{' && forall|k: int| 0 <= k < i ==> s[k] != '{'
}

/// `o` is the first object of `s`: from the first brace to the one that closes it, where
/// braces in texts do not count.
pub open spec fn is_first_object(s: Seq<char>, o: Seq<char>) -> bool {
    exists|i: int, n: int|
        #![trigger opens_at(s, i), is_object_len(s.skip(i), n)]
        opens_at(s, i) && is_object_len(s.skip(i), n) && o == s.skip(i).take(n)
}

/// The first object of an answer, whatever stands before and after it.
pub fn extract_json_object<'a>(text: &'a str) -> (r: Option<&'a str>)
    ensures
        match r {
            Some(o) => is_first_object(text@, o@),
            None => forall|o: Seq<char>| !is_first_object(text@, o),
        },
{
    let v = text::chars_of(text);
    let mut start: usize = 0;
    while start < v.len() && v[start] != '{'
        invariant
            v@ == text@,
            start <= v@.len(),
            forall|k: int| 0 <= k < start ==> text@[k] != '{',
        decreases v@.len() - start,
    {
        start = start + 1;
    }
    if start == v.len() {
        return None;
    }
    let ghost s = text@.skip(start as int);
    assert(opens_at(text@, start as int));
    let mut depth: usize = 0;
    let mut in_text = false;
    let mut escaped = false;
    let mut i: usize = start;
    assert(s.take(0) =~= seq![]);
    while i < v.len()
        invariant
            v@ == text@,
            start <= i <= v@.len(),
            s == text@.skip(start as int),
            opens_at(text@, start as int),
            depth <= i - start,
            i > start ==> depth > 0,
            !in_text ==> !escaped,
            scanned(s.take(i - start)) == (ScanModel { depth: depth as int, in_text, escaped }),
            forall|k: int| 0 < k <= i - start ==> !closes_at(s, k),
        decreases v@.len() - i,
    {
        let c = v[i];
        let ghost k = i - start;
        assert(s[k] == c);
        assert(s.take(k + 1).drop_last() =~= s.take(k));
        assert(s.take(k + 1).last() == c);
        if in_text {
            if escaped {
                escaped = false;
            } else if c == '\\' {
                escaped = true;
            } else if c == '"' {
                in_text = false;
            }
        } else if c == '"' {
            in_text = true;
        } else if c == '{' {
            depth = depth + 1;
        } else if c == '}' {
            depth = depth - 1;
            if depth == 0 {
                assert(closes_at(s, k + 1));
                assert(is_object_len(s, k + 1));
                assert(text@.subrange(start as int, i + 1) =~= s.take(k + 1));
                return Some(text.substring_char(start, i + 1));
            }
        }
        i = i + 1;
    }
    assert forall|o: Seq<char>| !is_first_object(text@, o) by {
        if is_first_object(text@, o) {
            let (a, n) = choose|a: int, n: int|
                #![trigger opens_at(text@, a), is_object_len(text@.skip(a), n)]
                opens_at(text@, a) && is_object_len(text@.skip(a), n) && o == text@.skip(a).take(
                    n,
                );
            assert(a == start);
            assert(closes_at(s, n));
        }
    }
    None
}

/// An answer has at most one first object, and it is in braces.
pub proof fn law_first_object_is_unique(s: Seq<char>, a: Seq<char>, b: Seq<char>)
    requires
        is_first_object(s, a),
        is_first_object(s, b),
    ensures
        a == b,
        a.len() >= 2,
        a.first() == '{',
        a.last() == '}',
        scanned(a).depth == 0,
{
    let (i, m) = choose|i: int, m: int|
        #![trigger opens_at(s, i), is_object_len(s.skip(i), m)]
        opens_at(s, i) && is_object_len(s.skip(i), m) && a == s.skip(i).take(m);
    let (j, n) = choose|j: int, n: int|
        #![trigger opens_at(s, j), is_object_len(s.skip(j), n)]
        opens_at(s, j) && is_object_len(s.skip(j), n) && b == s.skip(j).take(n);
    assert(i == j);
    assert(closes_at(s.skip(i), m) && closes_at(s.skip(i), n));
    assert(m == n);
    assert(s.skip(i)[0] == '{');
    assert(a.len() == m);
    if m == 1 {
        assert(s.skip(i)[0] == '}');
    }
}

/// What stands before the first brace and after the object makes no difference.
pub proof fn law_noise_is_skipped(before: Seq<char>, o: Seq<char>, after: Seq<char>)
    requires
        forall|k: int| 0 <= k < before.len() ==> before[k] != '{',
        is_first_object(o, o),
    ensures
        is_first_object(before + o + after, o),
{
    lemma_whole_object(o);
    lemma_object_in_prefix(o, after);
    lemma_object_after_noise(before, o, after);
}

/// An object that a text begins with is the first one behind noise.
proof fn lemma_object_after_noise(before: Seq<char>, o: Seq<char>, after: Seq<char>)
    requires
        forall|k: int| 0 <= k < before.len() ==> before[k] != '{',
        o.len() > 0,
        o[0] == '{',
        is_object_len(o + after, o.len() as int),
    ensures
        is_first_object(before + o + after, o),
{
    let s = before + o + after;
    let j = before.len() as int;
    assert(opens_at(s, j)) by {
        assert(s[j] == o[0]);
        assert forall|k: int| 0 <= k < j implies s[k] != '{' by {
            assert(s[k] == before[k]);
        }
    }
    assert(s.skip(j) =~= o + after);
    assert((o + after).take(o.len() as int) =~= o);
}

/// A text that is its own first object begins and ends with it.
proof fn lemma_whole_object(o: Seq<char>)
    requires
        is_first_object(o, o),
    ensures
        opens_at(o, 0),
        is_object_len(o, o.len() as int),
{
    let (i, n) = choose|i: int, n: int|
        #![trigger opens_at(o, i), is_object_len(o.skip(i), n)]
        opens_at(o, i) && is_object_len(o.skip(i), n) && o == o.skip(i).take(n);
    assert(closes_at(o.skip(i), n));
    assert(o.skip(i).take(n).len() == n);
    assert(i == 0);
    assert(o.skip(0) =~= o);
}

proof fn lemma_object_in_prefix(o: Seq<char>, after: Seq<char>)
    requires
        is_object_len(o, o.len() as int),
    ensures
        is_object_len(o + after, o.len() as int),
{
    let n = o.len() as int;
    assert(closes_at(o, n));
    lemma_closes_in_prefix(o, after, n);
    assert forall|k: int| 0 < k < n implies !closes_at(o + after, k) by {
        lemma_closes_in_prefix(o, after, k);
        assert(!closes_at(o, k));
    }
}

/// Whether a text closes within its beginning depends on that beginning alone.
proof fn lemma_closes_in_prefix(o: Seq<char>, after: Seq<char>, k: int)
    requires
        0 < k <= o.len(),
    ensures
        closes_at(o + after, k) == closes_at(o, k),
{
    let t = o + after;
    assert(t.take(k) =~= o.take(k));
    assert(t.take(k - 1) =~= o.take(k - 1));
    assert(t[k - 1] == o[k - 1]);
}

/// The JSON text of a summary that a language model answered with.
pub fn summary_json(raw: &str) -> (r: Result<&str, String>)
    ensures
        match r {
            Ok(o) => is_first_object(raw@, o@),
            Err(m) => (forall|o: Seq<char>| !is_first_object(raw@, o)) && m@
                == "LLM did not return a JSON object"@,
        },
{
    match extract_json_object(raw) {
        Some(o) => Ok(o),
        None => Err("LLM did not return a JSON object".to_string()),
    }
}

/// Why a summary could not be read.
pub fn summary_error(cause: &str, json_text: &str) -> (r: String)
    ensures
        r@ == "failed to parse summary JSON: "@ + cause@ + "; raw: "@ + json_text@,
{
    let head = text::concat3("failed to parse summary JSON: ", cause, "; raw: ");
    text::concat2(head.as_str(), json_text)
}

/// The model is asked about the whole transcript, and about nothing else.
pub proof fn law_the_whole_transcript_is_asked_about(a: Seq<char>, b: Seq<char>)
    ensures
        text::contains(correction_prompt(a), a),
        text::contains(summary_prompt(a), a),
        correction_prompt(a) == correction_prompt(b) ==> a == b,
        summary_prompt(a) == summary_prompt(b) ==> a == b,
{
    let p = "以下是 ASR 原始转写，请按照系统指令进行润色：\n\n```\n"@;
    let q = "以下是会议转写，请按照系统指令输出 JSON：\n\n```\n"@;
    let end = "\n```"@;
    text::lemma_contains_self(a);
    text::lemma_contains_within(p, a, end, a);
    text::lemma_contains_within(q, a, end, a);
    if correction_prompt(a) == correction_prompt(b) {
        text::lemma_framed(p, a, b, end);
    }
    if summary_prompt(a) == summary_prompt(b) {
        text::lemma_framed(q, a, b, end);
    }
}

/// A question goes out as two messages: the instructions from the system, and the prompt from
/// the user. No tools are offered and no thinking is asked for.
pub proof fn law_a_question_holds_both_prompts(
    request: LlmRequest,
    model: Seq<char>,
    system_prompt: Seq<char>,
    user_prompt: Seq<char>,
    max_tokens: u32,
)
    requires
        asks(request, model, system_prompt, user_prompt, max_tokens),
    ensures
        request.model@ == model,
        request.messages@.len() == 2,
        request.messages@[0].role@ == "system"@,
        text::opt_text(request.messages@[0].content) == Some(system_prompt),
        request.messages@[1].role@ == "user"@,
        text::opt_text(request.messages@[1].content) == Some(user_prompt),
        request.tools@.len() == 0,
        request.max_tokens == Some(max_tokens),
{
    let views = agent::request::llm_views(request.messages@);
    assert(views.len() == 2);
    assert(views[0] == request.messages@[0]@);
    assert(views[1] == request.messages@[1]@);
}

/// A question is asked wherever an address, a key and a model are set for the agent or for the
/// language model, of the provider that is set, and never without them.
pub proof fn law_a_question_needs_its_settings(
    r: Result<Oneshot, String>,
    system_prompt: Seq<char>,
    user_prompt: Seq<char>,
    agent: AgentConfig,
    llm: LlmConfig,
    max_tokens: u32,
)
    requires
        is_oneshot(r, system_prompt, user_prompt, agent, llm, max_tokens),
    ensures
        r is Ok ==> agent.provider_base_url@.len() > 0 || !text::is_blank(llm.base_url@),
        r is Ok ==> agent.provider_api_key@.len() > 0 || !text::is_blank(llm.api_key@),
        r is Ok ==> agent.provider_model@.len() > 0 || !text::is_blank(llm.model@),
        r matches Ok(q) ==> (q.provider is Anthropic <==> agent.provider_type@ == "anthropic"@),
        r matches Ok(q) ==> (agent.provider_model@.len() > 0 ==> q.request.model@
            == agent.provider_model@),
        agent.provider_type@ == "anthropic"@ && !text::is_blank(agent.provider_base_url@)
            && !text::is_blank(agent.provider_api_key@) && !text::is_blank(agent.provider_model@)
            ==> r is Ok,
{
    reveal_strlit("anthropic");
    reveal_strlit("openai_compatible");
    assert("anthropic"@.len() == 9);
    assert("openai_compatible"@.len() == 17);
}

/// An answer is put together from its texts in their order, up to its end; what comes behind
/// that does not count.
pub proof fn law_an_answer_is_put_together(
    a: Seq<PieceModel>,
    t: Seq<char>,
    stop: PieceModel,
    b: Seq<PieceModel>,
)
    requires
        forall|i: int| 0 <= i < a.len() ==> !((#[trigger] a[i]) is Done),
        stop is Done,
    ensures
        reply_text(a + b) == reply_text(a) + reply_text(b),
        reply_text(a.push(PieceModel::TextDelta(t))) == reply_text(a) + t,
        reply_text(a.push(stop) + b) == reply_text(a),
    decreases a.len(),
{
    let none = Seq::<PieceModel>::empty();
    assert(reply_text(none) =~= seq![]);
    if a.len() == 0 {
        assert(a + b =~= b);
        assert(reply_text(a) + reply_text(b) =~= reply_text(b));
        let one = a.push(PieceModel::TextDelta(t));
        assert(one.drop_first() =~= none);
        assert(reply_text(one) =~= t);
        assert(reply_text(a) + t =~= t);
        assert((a.push(stop) + b)[0] == stop);
    } else {
        let rest = a.drop_first();
        assert forall|i: int| 0 <= i < rest.len() implies !((#[trigger] rest[i]) is Done) by {
            assert(rest[i] == a[i + 1]);
        }
        law_an_answer_is_put_together(rest, t, stop, b);
        assert(!(a[0] is Done));
        let one = a.push(PieceModel::TextDelta(t));
        let ended = a.push(stop) + b;
        assert((a + b).drop_first() =~= rest + b);
        assert((a + b)[0] == a[0]);
        assert(one.drop_first() =~= rest.push(PieceModel::TextDelta(t)));
        assert(one[0] == a[0]);
        assert(ended.drop_first() =~= rest.push(stop) + b);
        assert(ended[0] == a[0]);
        assert(reply_text(a + b) =~= reply_text(a) + reply_text(b));
        assert(reply_text(one) =~= reply_text(a) + t);
    }
}

/// Braces count outside of texts only, and a quotation mark behind a backslash does not end a
/// text.
pub proof fn law_braces_in_texts_do_not_count(s: Seq<char>, c: char)
    ensures
        scanned(s).in_text ==> scanned(s.push(c)).depth == scanned(s).depth,
        scanned(s).in_text && (c != '"' || scanned(s).escaped) ==> scanned(s.push(c)).in_text,
        scanned(s).in_text && c == '"' && !scanned(s).escaped ==> !scanned(s.push(c)).in_text,
        !scanned(s).in_text ==> (scanned(s.push(c)).in_text <==> c == '"'),
        !scanned(s).in_text && c == '{' ==> scanned(s.push(c)).depth == scanned(s).depth + 1,
        !scanned(s).in_text && c == '}' ==> scanned(s.push(c)).depth == scanned(s).depth - 1,
        c != '{' && c != '}' ==> scanned(s.push(c)).depth == scanned(s).depth,
        scanned(s.push(c)).escaped <==> scanned(s).in_text && c == '\\' && !scanned(s).escaped
            || (!scanned(s).in_text && scanned(s).escaped),
{
    assert(s.push(c).drop_last() =~= s);
}

} // verus!
