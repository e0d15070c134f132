//! From a finished transcript to output: plain, polished, or through the agent.
use vstd::prelude::*;

use crate::agent::error::AgentError;
use crate::agent::history;
use crate::agent::history::AgentHistoryEntry;
use crate::agent::message;
use crate::agent::message::{ActionSummary, AgentResult};
use crate::agent::request::{ThinkingConfig, ThinkingLevel};
use crate::agent::tool::ExecutionMode;
use crate::storage::{AgentConfig, LlmConfig};
use crate::text;

verus! {

// ---------------------------------------------------------------------------
// Dictation
// ---------------------------------------------------------------------------

/// What is done with a transcript.
#[derive(Clone, Copy, PartialEq, Eq, Structural)]
pub enum TranscriptionPlan {
    /// There is nothing in it.
    Skip,
    /// The language model polishes it.
    Polish,
    /// It is put out as it is.
    Plain,
}

/// What is done with a transcript, given whether polishing is switched on and whether it was
/// asked for. To ask for it does not switch it on: while it is off, no text goes to the
/// language model.
pub open spec fn transcription_plan(
    text: Seq<char>,
    polish_enabled: bool,
    polish_requested: bool,
) -> TranscriptionPlan {
    if text::is_blank(text) {
        TranscriptionPlan::Skip
    } else if polish_enabled {
        TranscriptionPlan::Polish
    } else {
        TranscriptionPlan::Plain
    }
}

#[allow(unused_variables)]
pub fn plan_transcription(text: &str, polish_enabled: bool, polish_requested: bool) -> (r:
    TranscriptionPlan)
    ensures
        r == transcription_plan(text@, polish_enabled, polish_requested),
{
    if text::is_blank_str(text) {
        TranscriptionPlan::Skip
    } else if polish_enabled {
        TranscriptionPlan::Polish
    } else {
        TranscriptionPlan::Plain
    }
}

/// What came of polishing.
pub enum PolishOutcome {
    Corrected { final_text: String, fallback_reason: Option<String> },
    Failed(String),
    Cancelled,
}

/// What is put out, and what the user is told went wrong.
pub struct TranscriptionOutput {
    pub text: Option<String>,
    pub error: Option<String>,
}

/// A text that is put out, unless there is nothing in it.
pub open spec fn worth_output(text: String) -> Option<String> {
    if text::is_blank(text@) {
        None
    } else {
        Some(text)
    }
}

fn unless_blank(text: String) -> (r: Option<String>)
    ensures
        r == worth_output(text),
{
    if text::is_blank_str(text.as_str()) {
        None
    } else {
        Some(text)
    }
}

/// What is put out of a transcript that was polished: the polished text; the transcript
/// itself where polishing failed; nothing where it was cancelled or nothing is left.
pub open spec fn polish_output(text: String, outcome: PolishOutcome) -> TranscriptionOutput {
    match outcome {
        PolishOutcome::Corrected { final_text, fallback_reason } => TranscriptionOutput {
            text: worth_output(final_text),
            error: fallback_reason,
        },
        PolishOutcome::Failed(e) => TranscriptionOutput {
            text: worth_output(text),
            error: Some(e),
        },
        PolishOutcome::Cancelled => TranscriptionOutput { text: None, error: None },
    }
}

pub fn finish_polish(text: String, outcome: PolishOutcome) -> (r: TranscriptionOutput)
    ensures
        r == polish_output(text, outcome),
{
    match outcome {
        PolishOutcome::Corrected { final_text, fallback_reason } => TranscriptionOutput {
            text: unless_blank(final_text),
            error: fallback_reason,
        },
        PolishOutcome::Failed(e) => TranscriptionOutput {
            text: unless_blank(text),
            error: Some(e),
        },
        PolishOutcome::Cancelled => TranscriptionOutput { text: None, error: None },
    }
}

/// What is put out of a transcript that was not to be polished.
pub fn finish_plain(text: String) -> (r: TranscriptionOutput)
    ensures
        r.text == worth_output(text),
        r.error is None,
{
    TranscriptionOutput { text: unless_blank(text), error: None }
}

/// A transcript goes to the language model only where polishing is switched on.
pub proof fn law_text_is_sent_only_for_polishing(
    text: Seq<char>,
    polish_enabled: bool,
    polish_requested: bool,
)
    ensures
        transcription_plan(text, polish_enabled, polish_requested) is Polish ==> polish_enabled,
{
}

/// While polishing is off, a transcript in which something was said is put out as it is,
/// whether or not polishing was asked for.
pub proof fn law_unpolished_transcript_is_put_out_as_it_is(text: String, polish_requested: bool)
    requires
        !text::is_blank(text@),
    ensures
        transcription_plan(text@, false, polish_requested) is Plain,
        worth_output(text) == Some(text),
{
}

/// A transcript in which something was said is not lost where polishing fails, and nothing is
/// put out once it was cancelled.
pub proof fn law_failed_polishing_keeps_the_transcript(text: String, error: String)
    requires
        !text::is_blank(text@),
    ensures
        polish_output(text, PolishOutcome::Failed(error)).text == Some(text),
        polish_output(text, PolishOutcome::Cancelled).text is None,
{
}

// ---------------------------------------------------------------------------
// The agent
// ---------------------------------------------------------------------------

/// How an agent is set up for a transcript.
pub struct AgentSetup {
    pub provider_type: String,
    pub base_url: String,
    pub api_key: String,
    pub model: String,
    pub max_iterations: u32,
    pub thinking: ThinkingConfig,
    pub execution_mode: ExecutionMode,
}

/// What is done with a transcript for the agent.
pub enum AgentPlan {
    /// There is nothing in it.
    Skip,
    /// The language model is not set up; the transcript is put out as it is.
    PasteText,
    Run(AgentSetup),
}

/// `own`, or `fallback` where it is empty.
pub open spec fn or_setting(own: Seq<char>, fallback: Seq<char>) -> Seq<char> {
    if own.len() == 0 {
        fallback
    } else {
        own
    }
}

pub(crate) fn setting_or(own: &String, fallback: &str) -> (r: String)
    ensures
        r@ == or_setting(own@, fallback@),
{
    if own.as_str().is_empty() {
        fallback.to_string()
    } else {
        own.clone()
    }
}

/// The mode that a setting names. Anything but `parallel` is one after the other.
pub open spec fn named_mode(s: Seq<char>) -> ExecutionMode {
    if s == "parallel"@ {
        ExecutionMode::Parallel
    } else {
        ExecutionMode::Sequential
    }
}

/// `setup` is what the settings ask for: the agent's own, and where these are empty those
/// of the language model. No limit on the turns stands for ten.
pub open spec fn is_agent_setup(agent: AgentConfig, llm: LlmConfig, setup: AgentSetup) -> bool {
    &&& setup.provider_type@ == or_setting(agent.provider_type@, "openai_compatible"@)
    &&& setup.base_url@ == or_setting(agent.provider_base_url@, llm.base_url@)
    &&& setup.api_key@ == or_setting(agent.provider_api_key@, llm.api_key@)
    &&& setup.model@ == or_setting(agent.provider_model@, llm.model@)
    &&& setup.max_iterations == (if agent.max_iterations == 0 {
        10
    } else {
        agent.max_iterations as u32
    })
    &&& setup.thinking == (ThinkingConfig {
        level: ThinkingLevel::named(text::lowercase(agent.thinking_level@)),
        budget_tokens: None,
    })
    &&& setup.execution_mode == named_mode(agent.execution_mode@)
}

/// What is done with a transcript for the agent.
pub fn plan_agent_run(text: &str, agent: &AgentConfig, llm: &LlmConfig) -> (r: AgentPlan)
    ensures
        if text::is_blank(text@) {
            r is Skip
        } else if text::is_blank(llm.base_url@) || text::is_blank(llm.api_key@) {
            r is PasteText
        } else {
            r matches AgentPlan::Run(setup) && is_agent_setup(*agent, *llm, setup)
        },
{
    if text::is_blank_str(text) {
        return AgentPlan::Skip;
    }
    if text::is_blank_str(llm.base_url.as_str()) || text::is_blank_str(llm.api_key.as_str()) {
        return AgentPlan::PasteText;
    }
    let max_iterations: u32 = if agent.max_iterations == 0 {
        10
    } else {
        #[verifier::truncate]
        (agent.max_iterations as u32)
    };
    let execution_mode = if text::str_eq(agent.execution_mode.as_str(), "parallel") {
        ExecutionMode::Parallel
    } else {
        ExecutionMode::Sequential
    };
    AgentPlan::Run(
        AgentSetup {
            provider_type: setting_or(&agent.provider_type, "openai_compatible"),
            base_url: setting_or(&agent.provider_base_url, llm.base_url.as_str()),
            api_key: setting_or(&agent.provider_api_key, llm.api_key.as_str()),
            model: setting_or(&agent.provider_model, llm.model.as_str()),
            max_iterations,
            thinking: ThinkingConfig {
                level: ThinkingLevel::from_str_lossy(agent.thinking_level.as_str()),
                budget_tokens: None,
            },
            execution_mode,
        },
    )
}

/// The parts that follow the base of the system prompt.
pub open spec fn prompt_parts(
    selected_text: Seq<char>,
    persistent_context: Seq<char>,
    history_context: Seq<char>,
) -> Seq<Seq<char>> {
    let selected = if selected_text.len() == 0 {
        seq![]
    } else {
        seq![
            "\n## Selected Text Context\nThe user has currently selected the following text:\n```\n"@
                + selected_text
                + "\n```\nPlease use this context appropriately if it relates to the user's request."@,
        ]
    };
    let persistent = if text::is_blank(persistent_context) {
        seq![]
    } else {
        seq!["\n## Persistent Context\n"@ + text::trim(persistent_context)]
    };
    let history = if history_context.len() == 0 {
        seq![]
    } else {
        seq![history_context]
    };
    selected + persistent + history
}

/// The system prompt for a request: the user's own or the default one, and after it what
/// is known of the situation.
pub open spec fn assembled_prompt(
    own_prompt: Seq<char>,
    selected_text: Seq<char>,
    persistent_context: Seq<char>,
    history_context: Seq<char>,
) -> Seq<char> {
    let base = if text::is_blank(own_prompt) {
        message::default_prompt()
    } else {
        text::trim(own_prompt)
    };
    base + text::joined(
        prompt_parts(selected_text, persistent_context, history_context),
        "\n"@,
    )
}

/// Assembles the system prompt. The history counts only where the settings ask for it;
/// `recent` holds as much of it as they ask for.
pub fn assemble_system_prompt(
    agent: &AgentConfig,
    selected_text: &str,
    recent: &Vec<AgentHistoryEntry>,
) -> (r: String)
    ensures
        r@ == assembled_prompt(
            agent.system_prompt@,
            selected_text@,
            agent.persistent_context@,
            if agent.context_history_count > 0 {
                history::context_text(recent@)
            } else {
                seq![]
            },
        ),
{
    let mut prompt = if text::is_blank_str(agent.system_prompt.as_str()) {
        message::default_system_prompt().to_string()
    } else {
        text::trim_str(agent.system_prompt.as_str()).to_string()
    };
    let ghost base = prompt@;
    let mut parts: Vec<String> = Vec::new();
    assert(text::views(parts@) =~= seq![]);
    if !selected_text.is_empty() {
        parts.push(
            text::concat3(
                "\n## Selected Text Context\nThe user has currently selected the following text:\n```\n",
                selected_text,
                "\n```\nPlease use this context appropriately if it relates to the user's request.",
            ),
        );
    }
    let ghost p1 = text::views(parts@);
    if !text::is_blank_str(agent.persistent_context.as_str()) {
        parts.push(
            text::concat2(
                "\n## Persistent Context\n",
                text::trim_str(agent.persistent_context.as_str()),
            ),
        );
    }
    let ghost p2 = text::views(parts@);
    let ctx = if agent.context_history_count > 0 {
        history::format_as_context(recent)
    } else {
        String::new()
    };
    let ghost context = ctx@;
    if !ctx.as_str().is_empty() {
        parts.push(ctx);
    }
    assert(text::views(parts@) =~= prompt_parts(
        selected_text@,
        agent.persistent_context@,
        context,
    ));
    let tail = text::join(&parts, "\n");
    prompt.append(tail.as_str());
    prompt
}

/// What is done once the agent has come to an end.
pub struct AgentFinish {
    /// The answer to be kept in the history of what was put out.
    pub history_text: Option<String>,
    /// The names of the tools that were called, for the history of the agent.
    pub tool_names: Vec<String>,
    /// What is put out.
    pub paste: Option<String>,
    /// What the user is told went wrong.
    pub error: Option<String>,
}

/// The names of the tools of the actions.
pub open spec fn action_names(actions: Seq<ActionSummary>) -> Seq<Seq<char>> {
    actions.map_values(|a: ActionSummary| a.tool_name@)
}

/// `r` is what is done once the agent has come to an end. An answer is kept, and it is put out
/// unless the agent has acted. Where the agent failed, the transcript is put out in its
/// place, unless the user cancelled.
pub open spec fn is_agent_finish(
    text: String,
    outcome: Result<AgentResult, AgentError>,
    r: AgentFinish,
) -> bool {
    match outcome {
        Ok(result) => {
            &&& r.error is None
            &&& text::views(r.tool_names@) == action_names(result.actions@)
            &&& if text::is_blank(result.text@) {
                r.history_text is None && r.paste is None
            } else {
                &&& r.history_text matches Some(t) && t@ == result.text@
                &&& match r.paste {
                    Some(t) => t@ == result.text@ && result.actions@.len() == 0,
                    None => result.actions@.len() > 0,
                }
            }
        },
        Err(e) => {
            &&& r.history_text is None
            &&& r.tool_names@.len() == 0
            &&& r.error matches Some(m) && m@ == e.text()
            &&& r.paste == (if e is Cancelled {
                None
            } else {
                Some(text)
            })
        },
    }
}

/// What is done once the agent has come to an end.
pub fn finish_agent_run(text: String, outcome: Result<AgentResult, AgentError>) -> (r: AgentFinish)
    ensures
        is_agent_finish(text, outcome, r),
{
    match outcome {
        Ok(result) => {
            let mut tool_names: Vec<String> = Vec::new();
            for i in 0..result.actions.len()
                invariant
                    tool_names@.len() == i,
                    forall|j: int|
                        0 <= j < i ==> (#[trigger] tool_names@[j])@ == result.actions@[j].tool_name@,
            {
                tool_names.push(result.actions[i].tool_name.clone());
            }
            assert(text::views(tool_names@) =~= action_names(result.actions@));
            if text::is_blank_str(result.text.as_str()) {
                return AgentFinish { history_text: None, tool_names, paste: None, error: None };
            }
            let paste = if result.actions.len() == 0 {
                Some(result.text.clone())
            } else {
                None
            };
            AgentFinish { history_text: Some(result.text), tool_names, paste, error: None }
        },
        Err(e) => {
            let error = e.message();
            let paste = match e {
                AgentError::Cancelled => None,
                _ => Some(text),
            };
            AgentFinish { history_text: None, tool_names: Vec::new(), paste, error: Some(error) }
        },
    }
}

/// Something that was said is never passed over, and nothing is made of silence.
pub proof fn law_what_was_said_is_dealt_with(text: Seq<char>, enabled: bool, requested: bool)
    ensures
        transcription_plan(text, enabled, requested) is Skip <==> forall|i: int|
            0 <= i < text.len() ==> text::is_whitespace(#[trigger] text[i]),
        transcription_plan(text, enabled, requested) is Polish || transcription_plan(
            text,
            enabled,
            requested,
        ) is Plain ==> (transcription_plan(text, enabled, requested) is Polish <==> enabled),
{
}

/// The polished text is put out in place of the transcript, and what went wrong with it is
/// told.
pub proof fn law_the_polished_text_is_put_out(
    text: String,
    final_text: String,
    reason: Option<String>,
    error: String,
)
    ensures
        ({
            let out = polish_output(
                text,
                PolishOutcome::Corrected { final_text, fallback_reason: reason },
            );
            &&& out.error == reason
            &&& !text::is_blank(final_text@) ==> out.text == Some(final_text)
            &&& text::is_blank(final_text@) ==> out.text is None
        }),
        polish_output(text, PolishOutcome::Failed(error)).error == Some(error),
        polish_output(text, PolishOutcome::Cancelled).error is None,
{
}

/// What is set for the agent itself counts; what is not is taken from the settings of the
/// language model. An agent always has at least one turn, unless the setting wraps around.
pub proof fn law_settings_of_the_agent_count(agent: AgentConfig, llm: LlmConfig, setup: AgentSetup)
    requires
        is_agent_setup(agent, llm, setup),
    ensures
        agent.provider_base_url@.len() > 0 ==> setup.base_url@ == agent.provider_base_url@,
        agent.provider_base_url@.len() == 0 ==> setup.base_url@ == llm.base_url@,
        agent.provider_api_key@.len() > 0 ==> setup.api_key@ == agent.provider_api_key@,
        agent.provider_api_key@.len() == 0 ==> setup.api_key@ == llm.api_key@,
        agent.provider_model@.len() > 0 ==> setup.model@ == agent.provider_model@,
        agent.provider_model@.len() == 0 ==> setup.model@ == llm.model@,
        agent.provider_type@.len() > 0 ==> setup.provider_type@ == agent.provider_type@,
        agent.provider_type@.len() == 0 ==> setup.provider_type@ == "openai_compatible"@,
        0 < agent.max_iterations <= u32::MAX ==> setup.max_iterations == agent.max_iterations,
        agent.max_iterations == 0 ==> setup.max_iterations == 10,
        agent.execution_mode@ == "parallel"@ <==> setup.execution_mode == ExecutionMode::Parallel,
{
}

/// The system prompt begins with the user's own words where there are any. The selected text,
/// the lasting context and the history stand in it, and without them it holds nothing but its
/// beginning.
pub proof fn law_the_prompt_holds_what_is_known(
    own_prompt: Seq<char>,
    selected_text: Seq<char>,
    persistent_context: Seq<char>,
    history_context: Seq<char>,
)
    ensures
        ({
            let prompt = assembled_prompt(
                own_prompt,
                selected_text,
                persistent_context,
                history_context,
            );
            &&& !text::is_blank(own_prompt) ==> text::trim(own_prompt).is_prefix_of(prompt)
            &&& text::is_blank(own_prompt) ==> message::default_prompt().is_prefix_of(prompt)
            &&& text::contains(prompt, selected_text)
            &&& text::contains(prompt, history_context)
            &&& !text::is_blank(persistent_context) ==> text::contains(
                prompt,
                text::trim(persistent_context),
            )
            &&& !text::is_blank(own_prompt) && selected_text.len() == 0 && text::is_blank(
                persistent_context,
            ) && history_context.len() == 0 ==> prompt == text::trim(own_prompt)
        }),
{
    let prompt = assembled_prompt(own_prompt, selected_text, persistent_context, history_context);
    let parts = prompt_parts(selected_text, persistent_context, history_context);
    let base = if text::is_blank(own_prompt) {
        message::default_prompt()
    } else {
        text::trim(own_prompt)
    };
    let tail = text::joined(parts, "\n"@);
    let none = Seq::<char>::empty();
    assert(prompt =~= base + tail);
    assert(base.is_prefix_of(prompt));
    assert forall|p: Seq<char>| p.len() == 0 implies #[trigger] text::contains(prompt, p) by {
        assert(prompt.subrange(0, 0) =~= p);
        assert(text::occurs_at(prompt, p, 0));
    }
    let s: int = if selected_text.len() == 0 {
        0
    } else {
        1
    };
    let c: int = if text::is_blank(persistent_context) {
        s
    } else {
        s + 1
    };
    if selected_text.len() > 0 {
        let head = "\n## Selected Text Context\nThe user has currently selected the following text:\n```\n"@;
        let foot = "\n```\nPlease use this context appropriately if it relates to the user's request."@;
        assert(parts[0] == head + selected_text + foot);
        text::lemma_contains_self(selected_text);
        text::lemma_contains_within(head, selected_text, foot, selected_text);
        lemma_part_stands_in_prompt(base, parts, 0, selected_text);
    }
    if !text::is_blank(persistent_context) {
        let head = "\n## Persistent Context\n"@;
        let held = text::trim(persistent_context);
        assert(parts[s] == head + held);
        text::lemma_contains_self(held);
        text::lemma_contains_within(head, held, none, held);
        assert(head + held + none =~= parts[s]);
        lemma_part_stands_in_prompt(base, parts, s, held);
    }
    if history_context.len() > 0 {
        assert(parts[c] == history_context);
        text::lemma_contains_self(history_context);
        lemma_part_stands_in_prompt(base, parts, c, history_context);
    }
    if parts.len() == 0 {
        assert(prompt =~= base);
    }
}

proof fn lemma_part_stands_in_prompt(
    base: Seq<char>,
    parts: Seq<Seq<char>>,
    i: int,
    held: Seq<char>,
)
    requires
        0 <= i < parts.len(),
        text::contains(parts[i], held),
    ensures
        text::contains(base + text::joined(parts, "\n"@), held),
{
    let sep = "\n"@;
    let tail = text::joined(parts, sep);
    text::law_joined_texts_are_all_there(parts, sep, i);
    let j = choose|j: int| text::occurs_at(tail, parts[i], j);
    let k = choose|k: int| text::occurs_at(parts[i], held, k);
    let whole = base + tail;
    let at = base.len() + j + k;
    assert(tail.subrange(j, j + parts[i].len()) =~= parts[i]);
    assert(parts[i].subrange(k, k + held.len()) =~= tail.subrange(j + k, j + k + held.len()));
    assert(whole.subrange(at, at + held.len()) =~= tail.subrange(j + k, j + k + held.len()));
    assert(text::occurs_at(whole, held, at));
}

/// Nothing that was said or answered is lost: an answer is kept and, unless the agent has
/// acted, put out; after a failure the transcript is put out, and the user is told why. What
/// was cancelled is not put out. The tools that were called are kept in their order.
pub proof fn law_what_the_agent_comes_to_is_put_out(
    text: String,
    outcome: Result<AgentResult, AgentError>,
    r: AgentFinish,
)
    requires
        is_agent_finish(text, outcome, r),
    ensures
        outcome matches Ok(result) ==> r.error is None && r.tool_names@.len()
            == result.actions@.len() && forall|i: int|
            0 <= i < result.actions@.len() ==> (#[trigger] r.tool_names@[i])@
                == result.actions@[i].tool_name@,
        outcome matches Ok(result) ==> (!text::is_blank(result.text@) ==> text::opt_text(
            r.history_text,
        ) == Some(result.text@)),
        outcome matches Ok(result) ==> (!text::is_blank(result.text@) && result.actions@.len() == 0
            ==> text::opt_text(r.paste) == Some(result.text@)),
        outcome matches Ok(result) ==> (result.actions@.len() > 0 || text::is_blank(result.text@)
            ==> r.paste is None),
        outcome matches Err(e) ==> r.history_text is None && text::opt_text(r.error) == Some(
            e.text(),
        ),
        outcome matches Err(e) ==> (e is Cancelled ==> r.paste is None),
        outcome matches Err(e) ==> (!(e is Cancelled) ==> r.paste == Some(text)),
{
    if let Ok(result) = outcome {
        let names = text::views(r.tool_names@);
        assert(names.len() == r.tool_names@.len());
        assert forall|i: int| 0 <= i < result.actions@.len() implies (#[trigger] r.tool_names@[i])@
            == result.actions@[i].tool_name@ by {
            assert(names[i] == r.tool_names@[i]@);
        }
    }
}

} // verus!
