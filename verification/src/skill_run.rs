//! One pass over a transcript: which skill actions are carried out, in which
//! order, and what counts as worked off afterwards.
//!
//! A pass takes turns with the application. The pass names what is to be looked up
//! or carried out; the application does it and reports back.
use vstd::prelude::*;

use crate::skill_engine;
use crate::skill_engine::SessionModel;
use crate::skills;
use crate::skills::{
    BrowserAction, BrowserActionPlan, BrowserPlanResult, SkillMatch, WindowsAction,
    WindowsActionPlan, WindowsPlanResult,
};
use crate::state::SkillExecutionState;
use crate::text;

verus! {

// ---------------------------------------------------------------------------
// Clauses
// ---------------------------------------------------------------------------

/// The clause that a pass works on.
pub struct Clause {
    pub text: String,
    /// The byte of the transcript at which the clause starts.
    pub offset: usize,
    /// The number of bytes that the clause takes up with what separates it from the
    /// next one.
    pub consumed_end: usize,
    /// Nothing follows the clause.
    pub is_last: bool,
}

#[verifier::ext_equal]
pub struct ClauseModel {
    pub text: Seq<char>,
    pub offset: nat,
    pub consumed_end: nat,
    pub is_last: bool,
}

impl View for Clause {
    type V = ClauseModel;

    open spec fn view(&self) -> ClauseModel {
        ClauseModel {
            text: self.text@,
            offset: self.offset as nat,
            consumed_end: self.consumed_end as nat,
            is_last: self.is_last,
        }
    }
}

/// The number of characters that are left to work off.
pub open spec fn left_over(s: Option<SessionModel>, id: u64, transcript: Seq<char>) -> nat {
    match skill_engine::remaining_text(s, id, transcript) {
        Some((rest, _)) => rest.len(),
        None => 0,
    }
}

/// The clause at the front of what is left of a transcript.
pub open spec fn clause_of(rest: Seq<char>, offset: nat) -> ClauseModel {
    let end = skill_engine::first_clause_end(rest);
    ClauseModel {
        text: text::trim(skill_engine::first_clause(rest)),
        offset,
        consumed_end: text::byte_len(rest.take(end)),
        is_last: end >= rest.len(),
    }
}

/// The next clause with anything in it, and the session once the empty ones before
/// it have been passed over.
pub open spec fn next_clause(s: Option<SessionModel>, id: u64, transcript: Seq<char>) -> (
    Option<SessionModel>,
    Option<ClauseModel>,
)
    decreases left_over(s, id, transcript),
    via next_clause_decreases
{
    let p = skill_engine::prepared(s, id, transcript);
    match skill_engine::remaining_text(s, id, transcript) {
        None => (p, None),
        Some((rest, offset)) => {
            let clause = clause_of(rest, offset);
            if clause.text.len() == 0 {
                next_clause(
                    skill_engine::advanced(p, id, transcript, offset + clause.consumed_end),
                    id,
                    transcript,
                )
            } else {
                (p, Some(clause))
            }
        },
    }
}

/// Where a clause ends in the transcript, in characters and in bytes.
proof fn lemma_clause_end(s: Option<SessionModel>, id: u64, transcript: Seq<char>)
    requires
        skill_engine::remaining_text(s, id, transcript) is Some,
    ensures
        ({
            let start = skill_engine::remaining_start(s->0.consumed, transcript);
            let (rest, offset) = skill_engine::remaining_text(s, id, transcript)->0;
            let end = skill_engine::first_clause_end(rest);
            &&& skill_engine::is_current(s, id)
            &&& 0 <= start < start + end <= transcript.len()
            &&& rest == transcript.skip(start)
            &&& 0 < end <= rest.len()
            &&& offset + clause_of(rest, offset).consumed_end == text::byte_len(
                transcript.take(start + end),
            )
            &&& text::byte_len(transcript.take(start + end)) <= text::byte_len(transcript)
        }),
{
    let consumed = s->0.consumed;
    let c = text::common_len(consumed, transcript) as int;
    text::lemma_common_len(consumed, transcript);
    text::lemma_leading(transcript.skip(c), text::CharClass::TranscriptLead);
    let start = skill_engine::remaining_start(consumed, transcript);
    let rest = transcript.skip(start);
    assert(rest.len() > 0);
    skill_engine::law_clause_makes_progress(rest);
    let end = skill_engine::first_clause_end(rest);
    assert(transcript.take(start + end) =~= transcript.take(start) + rest.take(end));
    text::lemma_encode_add(transcript.take(start), rest.take(end));
    text::lemma_byte_len_prefix(transcript, start + end, start + end);
}

#[via_fn]
proof fn next_clause_decreases(s: Option<SessionModel>, id: u64, transcript: Seq<char>) {
    if skill_engine::remaining_text(s, id, transcript) is Some {
        lemma_skip_shortens(s, id, transcript);
    }
}

proof fn lemma_skip_shortens(s: Option<SessionModel>, id: u64, transcript: Seq<char>)
    requires
        skill_engine::remaining_text(s, id, transcript) is Some,
    ensures
        ({
            let p = skill_engine::prepared(s, id, transcript);
            let (rest, offset) = skill_engine::remaining_text(s, id, transcript)->0;
            let t = skill_engine::advanced(
                p,
                id,
                transcript,
                offset + clause_of(rest, offset).consumed_end,
            );
            left_over(t, id, transcript) < left_over(s, id, transcript)
        }),
{
    lemma_clause_end(s, id, transcript);
    let p = skill_engine::prepared(s, id, transcript);
    let (rest, offset) = skill_engine::remaining_text(s, id, transcript)->0;
    let start = skill_engine::remaining_start(s->0.consumed, transcript);
    let end = skill_engine::first_clause_end(rest);
    skill_engine::law_advance_is_remembered(p, id, transcript, start + end);
    let t = skill_engine::advanced(
        p,
        id,
        transcript,
        offset + clause_of(rest, offset).consumed_end,
    );
    let c = t->0.consumed;
    text::lemma_common_len(c, transcript);
    text::lemma_leading(
        transcript.skip(text::common_len(c, transcript) as int),
        text::CharClass::TranscriptLead,
    );
}

/// The clause that the pass works on next, if there is one.
fn take_next_clause(state: &mut SkillExecutionState, session_id: u64, transcript: &str) -> (r:
    Option<Clause>)
    ensures
        ({
            let n = next_clause(skill_engine::session(*old(state)), session_id, transcript@);
            &&& skill_engine::session(*final(state)) == n.0
            &&& r is Some <==> n.1 is Some
            &&& r matches Some(clause) ==> n.1 == Some(clause@) && clause.offset
                + clause.consumed_end <= usize::MAX
        }),
{
    let ghost s0 = skill_engine::session(*state);
    loop
        invariant
            s0 == skill_engine::session(*old(state)),
            next_clause(skill_engine::session(*state), session_id, transcript@) == next_clause(
                s0,
                session_id,
                transcript@,
            ),
        decreases left_over(skill_engine::session(*state), session_id, transcript@),
    {
        let ghost s = skill_engine::session(*state);
        let (rest, offset) = match skill_engine::prepare_skill_transcript(
            state,
            session_id,
            transcript,
        ) {
            Some(p) => p,
            None => return None,
        };
        proof {
            lemma_clause_end(s, session_id, transcript@);
            lemma_skip_shortens(s, session_id, transcript@);
        }
        let total: usize = text::byte_count(transcript);
        let (front, consumed_end) = skill_engine::split_skill_clause(rest.as_str());
        let clause_text = text::trim_str(front);
        proof {
            let end = skill_engine::first_clause_end(rest@);
            text::lemma_byte_len_prefix(rest@, end, rest@.len() as int);
            assert(rest@.take(rest@.len() as int) =~= rest@);
            assert(offset + consumed_end <= total);
        }
        if clause_text.is_empty() {
            skill_engine::advance_skill_transcript_consumed(
                state,
                session_id,
                transcript,
                offset + consumed_end,
            );
        } else {
            let is_last = consumed_end >= text::byte_count(rest.as_str());
            let clause = Clause { text: clause_text.to_string(), offset, consumed_end, is_last };
            assert(clause@ =~= clause_of(rest@, offset as nat));
            return Some(clause);
        }
    }
}

// ---------------------------------------------------------------------------
// What is known of a clause
// ---------------------------------------------------------------------------

/// What the clause asks of the desktop.
pub struct WindowsFacts {
    pub planned: WindowsPlanResult,
    /// The name in the plan stands for a known target.
    pub target_known: bool,
}

/// What the clause asks of the browser.
pub struct BrowserFacts {
    pub planned: BrowserPlanResult,
    /// The name in the plan is an address.
    pub is_url: bool,
    /// The name in the plan is that of a known site.
    pub is_site: bool,
}

/// A skill whose keyword stands in the clause.
pub struct MatchedSkill {
    pub skill_match: SkillMatch,
    /// Filled in for the desktop skill, if it is configured.
    pub windows: Option<WindowsFacts>,
    /// Filled in for the browser skill, if it is configured.
    pub browser: Option<BrowserFacts>,
}

/// What was looked up about a clause.
pub struct ClauseFacts {
    pub matches: Vec<MatchedSkill>,
    /// The normalized clause stands for a known desktop target.
    pub direct_target_known: bool,
    /// What the clause asks of the desktop without a keyword. `None` where the skill
    /// is not configured.
    pub windows: Option<WindowsFacts>,
    /// What the clause asks of the browser without a keyword. `None` where the skill
    /// is not configured.
    pub browser: Option<BrowserFacts>,
}

// ---------------------------------------------------------------------------
// Decisions
// ---------------------------------------------------------------------------

/// Whether a plan may be carried out.
#[derive(Clone, Copy, PartialEq, Eq, Structural)]
pub enum Gate {
    /// The name is too short to mean anything yet.
    Unready,
    /// The name may still grow; the next update decides.
    Wait,
    Go,
}

/// Whether a plan for the desktop may be carried out. An open action whose target is
/// not known waits for a second update, unless the transcript is final.
pub open spec fn windows_gate(
    s: Option<SessionModel>,
    id: u64,
    is_final: bool,
    plan: WindowsActionPlan,
    target_known: bool,
) -> (Option<SessionModel>, Gate) {
    match plan.action {
        WindowsAction::OpenTarget { query } => {
            let key = skill_engine::windows_key(plan.action);
            if !skill_engine::windows_query_ready(query@, target_known) {
                (s, Gate::Unready)
            } else if is_final || target_known {
                (s, Gate::Go)
            } else if skill_engine::is_confirmed(s, id, key) {
                (skill_engine::confirmed(s, id, key), Gate::Go)
            } else {
                (skill_engine::confirmed(s, id, key), Gate::Wait)
            }
        },
        _ => (skill_engine::cleared(s, id), Gate::Go),
    }
}

fn pass_windows_gate(
    state: &mut SkillExecutionState,
    session_id: u64,
    is_final: bool,
    plan: &WindowsActionPlan,
    target_known: bool,
) -> (r: Gate)
    ensures
        (skill_engine::session(*final(state)), r) == windows_gate(
            skill_engine::session(*old(state)),
            session_id,
            is_final,
            *plan,
            target_known,
        ),
{
    match &plan.action {
        WindowsAction::OpenTarget { query } => {
            if !skill_engine::is_windows_open_query_ready(query.as_str(), target_known) {
                return Gate::Unready;
            }
            if is_final || target_known {
                return Gate::Go;
            }
            let key = skill_engine::windows_action_key(&plan.action);
            if skill_engine::confirm_streaming_browser_open_action(
                state,
                session_id,
                key.as_str(),
            ) {
                Gate::Go
            } else {
                Gate::Wait
            }
        },
        _ => {
            skill_engine::clear_streaming_browser_open_action_candidate(state, session_id);
            Gate::Go
        },
    }
}

/// Whether a plan for the browser may be carried out. An open action waits for a
/// second update, unless the transcript is final.
pub open spec fn browser_gate(
    s: Option<SessionModel>,
    id: u64,
    is_final: bool,
    plan: BrowserActionPlan,
    is_url: bool,
    is_site: bool,
) -> (Option<SessionModel>, Gate) {
    match plan.action {
        BrowserAction::OpenTarget { query } => {
            let key = skill_engine::browser_key(plan.action);
            if !skill_engine::browser_query_ready(query@, is_url, is_site) {
                (s, Gate::Unready)
            } else if is_final {
                (s, Gate::Go)
            } else if skill_engine::is_confirmed(s, id, key) {
                (skill_engine::confirmed(s, id, key), Gate::Go)
            } else {
                (skill_engine::confirmed(s, id, key), Gate::Wait)
            }
        },
        _ => (skill_engine::cleared(s, id), Gate::Go),
    }
}

fn pass_browser_gate(
    state: &mut SkillExecutionState,
    session_id: u64,
    is_final: bool,
    plan: &BrowserActionPlan,
    is_url: bool,
    is_site: bool,
) -> (r: Gate)
    ensures
        (skill_engine::session(*final(state)), r) == browser_gate(
            skill_engine::session(*old(state)),
            session_id,
            is_final,
            *plan,
            is_url,
            is_site,
        ),
{
    match &plan.action {
        BrowserAction::OpenTarget { query } => {
            if !skill_engine::is_browser_open_query_ready(query.as_str(), is_url, is_site) {
                return Gate::Unready;
            }
            if is_final {
                return Gate::Go;
            }
            let key = skill_engine::browser_action_key(&plan.action);
            if skill_engine::confirm_streaming_browser_open_action(
                state,
                session_id,
                key.as_str(),
            ) {
                Gate::Go
            } else {
                Gate::Wait
            }
        },
        _ => {
            skill_engine::clear_streaming_browser_open_action_candidate(state, session_id);
            Gate::Go
        },
    }
}

/// What happens next with a keyword match or without one.
#[verifier::ext_equal]
pub enum Decision {
    /// On to the next possibility.
    Skip,
    /// Tell the user what is wrong, then on to the next possibility.
    Tell(Seq<char>),
    /// The pass ends here.
    Stop,
    /// Carry out the action that was reserved under `key`; `end` is the number of
    /// bytes of the clause that it uses up.
    Run { key: Seq<char>, end: nat },
}

/// Reserves the action and runs it, or skips it where it cannot be reserved.
pub open spec fn run_or_skip(s: Option<SessionModel>, id: u64, key: Seq<char>, end: nat) -> (
    Option<SessionModel>,
    Decision,
) {
    if skill_engine::can_reserve(s, id, key) {
        (skill_engine::reserved(s, id, key), Decision::Run { key, end })
    } else {
        (s, Decision::Skip)
    }
}

/// The kinds of skill that a keyword can belong to.
#[derive(Clone, Copy, PartialEq, Eq, Structural)]
pub enum SkillKind {
    Config,
    Windows,
    Browser,
    Other,
}

pub open spec fn kind_of(id: Seq<char>) -> SkillKind {
    if skills::is_config_id(id) {
        SkillKind::Config
    } else if id == skills::OPEN_WINDOWS_SKILL_ID@ {
        SkillKind::Windows
    } else if id == skills::OPEN_BROWSER_SKILL_ID@ {
        SkillKind::Browser
    } else {
        SkillKind::Other
    }
}

fn skill_kind(id: &str) -> (r: SkillKind)
    ensures
        r == kind_of(id@),
{
    if skills::is_config_skill(id) {
        SkillKind::Config
    } else if text::str_eq(id, skills::OPEN_WINDOWS_SKILL_ID) {
        SkillKind::Windows
    } else if text::str_eq(id, skills::OPEN_BROWSER_SKILL_ID) {
        SkillKind::Browser
    } else {
        SkillKind::Other
    }
}

/// What happens with a keyword match. `local_end` is where the words that belong to
/// the match end. Settings change only once the transcript is final.
pub open spec fn match_decision(
    s: Option<SessionModel>,
    id: u64,
    is_final: bool,
    m: MatchedSkill,
    local_end: nat,
) -> (Option<SessionModel>, Decision) {
    let skill_id = m.skill_match.skill_id@;
    match kind_of(skill_id) {
        SkillKind::Config => if is_final {
            run_or_skip(s, id, "config:"@ + skill_id, local_end)
        } else {
            (s, Decision::Stop)
        },
        SkillKind::Windows => match m.windows {
            None => (s, Decision::Tell("Windows skill missing"@)),
            Some(facts) => match facts.planned {
                WindowsPlanResult::Unmatched => (s, Decision::Skip),
                WindowsPlanResult::Feedback(message) => (s, Decision::Tell(message@)),
                WindowsPlanResult::Action(plan) => {
                    let (t, gate) = windows_gate(s, id, is_final, plan, facts.target_known);
                    match gate {
                        Gate::Unready => (t, Decision::Skip),
                        Gate::Wait => (t, Decision::Stop),
                        Gate::Go => run_or_skip(
                            t,
                            id,
                            skill_engine::windows_key(plan.action),
                            plan.consumed_end as nat,
                        ),
                    }
                },
            },
        },
        SkillKind::Browser => match m.browser {
            None => (s, Decision::Tell("浏览器技能未配置"@)),
            Some(facts) => match facts.planned {
                BrowserPlanResult::Unmatched => (s, Decision::Skip),
                BrowserPlanResult::Feedback(message) => (s, Decision::Tell(message@)),
                BrowserPlanResult::Action(plan) => {
                    let (t, gate) = browser_gate(
                        s,
                        id,
                        is_final,
                        plan,
                        facts.is_url,
                        facts.is_site,
                    );
                    match gate {
                        Gate::Unready => (t, Decision::Skip),
                        Gate::Wait => (t, Decision::Stop),
                        Gate::Go => run_or_skip(
                            t,
                            id,
                            skill_engine::browser_key(plan.action),
                            plan.consumed_end as nat,
                        ),
                    }
                },
            },
        },
        SkillKind::Other => run_or_skip(s, id, "skill:"@ + skill_id, local_end),
    }
}

/// A decision as it is taken.
pub enum Verdict {
    Skip,
    Tell(String),
    Stop,
    Run { key: String, end: usize },
}

impl View for Verdict {
    type V = Decision;

    open spec fn view(&self) -> Decision {
        match self {
            Verdict::Skip => Decision::Skip,
            Verdict::Tell(m) => Decision::Tell(m@),
            Verdict::Stop => Decision::Stop,
            Verdict::Run { key, end } => Decision::Run { key: key@, end: *end as nat },
        }
    }
}

fn reserve_or_skip(
    state: &mut SkillExecutionState,
    session_id: u64,
    key: String,
    end: usize,
) -> (r: Verdict)
    ensures
        (skill_engine::session(*final(state)), r@) == run_or_skip(
            skill_engine::session(*old(state)),
            session_id,
            key@,
            end as nat,
        ),
{
    if skill_engine::reserve_skill_action(state, session_id, key.as_str()) {
        Verdict::Run { key, end }
    } else {
        Verdict::Skip
    }
}

fn decide_match(
    state: &mut SkillExecutionState,
    session_id: u64,
    is_final: bool,
    m: &MatchedSkill,
    local_end: usize,
) -> (r: Verdict)
    ensures
        (skill_engine::session(*final(state)), r@) == match_decision(
            skill_engine::session(*old(state)),
            session_id,
            is_final,
            *m,
            local_end as nat,
        ),
{
    let skill_id = m.skill_match.skill_id.as_str();
    match skill_kind(skill_id) {
        SkillKind::Config => if is_final {
            reserve_or_skip(state, session_id, text::concat2("config:", skill_id), local_end)
        } else {
            Verdict::Stop
        },
        SkillKind::Windows => match &m.windows {
            None => Verdict::Tell("Windows skill missing".to_string()),
            Some(facts) => match &facts.planned {
                WindowsPlanResult::Unmatched => Verdict::Skip,
                WindowsPlanResult::Feedback(message) => Verdict::Tell(message.clone()),
                WindowsPlanResult::Action(plan) => match pass_windows_gate(
                    state,
                    session_id,
                    is_final,
                    plan,
                    facts.target_known,
                ) {
                    Gate::Unready => Verdict::Skip,
                    Gate::Wait => Verdict::Stop,
                    Gate::Go => {
                        let key = skill_engine::windows_action_key(&plan.action);
                        reserve_or_skip(state, session_id, key, plan.consumed_end)
                    },
                },
            },
        },
        SkillKind::Browser => match &m.browser {
            None => Verdict::Tell("浏览器技能未配置".to_string()),
            Some(facts) => match &facts.planned {
                BrowserPlanResult::Unmatched => Verdict::Skip,
                BrowserPlanResult::Feedback(message) => Verdict::Tell(message.clone()),
                BrowserPlanResult::Action(plan) => match pass_browser_gate(
                    state,
                    session_id,
                    is_final,
                    plan,
                    facts.is_url,
                    facts.is_site,
                ) {
                    Gate::Unready => Verdict::Skip,
                    Gate::Wait => Verdict::Stop,
                    Gate::Go => {
                        let key = skill_engine::browser_action_key(&plan.action);
                        reserve_or_skip(state, session_id, key, plan.consumed_end)
                    },
                },
            },
        },
        SkillKind::Other => reserve_or_skip(
            state,
            session_id,
            text::concat2("skill:", skill_id),
            local_end,
        ),
    }
}

/// The ways in which a clause without a keyword is tried, in order.
#[derive(Clone, Copy, PartialEq, Eq, Structural)]
pub enum Stage {
    /// The whole clause names a desktop target.
    Direct,
    /// The clause asks something of the desktop.
    Windows,
    /// The clause asks something of the browser.
    Browser,
    /// Nothing was found in the clause.
    Exhausted,
}

pub open spec fn lesser(a: nat, b: nat) -> nat {
    if a <= b {
        a
    } else {
        b
    }
}

/// What happens with a clause without a keyword in one stage. A `Tell` never comes.
pub open spec fn stage_decision(
    s: Option<SessionModel>,
    id: u64,
    is_final: bool,
    facts: ClauseFacts,
    clause: ClauseModel,
    stage: Stage,
) -> (Option<SessionModel>, Decision) {
    match stage {
        Stage::Direct => {
            let name = skill_engine::normalized_query(clause.text);
            if facts.windows is Some && name.len() > 0 && facts.direct_target_known {
                run_or_skip(
                    s,
                    id,
                    "windows:open_target:"@ + text::lowercase(text::trim(name)),
                    clause.consumed_end,
                )
            } else {
                (s, Decision::Skip)
            }
        },
        Stage::Windows => match facts.windows {
            Some(WindowsFacts { planned: WindowsPlanResult::Action(plan), target_known }) => {
                let (t, gate) = windows_gate(s, id, is_final, plan, target_known);
                match gate {
                    Gate::Go => run_or_skip(
                        t,
                        id,
                        skill_engine::windows_key(plan.action),
                        lesser(plan.consumed_end as nat, clause.consumed_end),
                    ),
                    _ => (t, Decision::Stop),
                }
            },
            _ => (s, Decision::Skip),
        },
        Stage::Browser => match facts.browser {
            Some(
                BrowserFacts { planned: BrowserPlanResult::Action(plan), is_url, is_site },
            ) => {
                let (t, gate) = browser_gate(s, id, is_final, plan, is_url, is_site);
                match gate {
                    Gate::Go => run_or_skip(
                        t,
                        id,
                        skill_engine::browser_key(plan.action),
                        lesser(plan.consumed_end as nat, clause.consumed_end),
                    ),
                    _ => (t, Decision::Stop),
                }
            },
            Some(BrowserFacts { planned: BrowserPlanResult::Unmatched, .. }) => (
                skill_engine::cleared(s, id),
                Decision::Skip,
            ),
            _ => (s, Decision::Skip),
        },
        Stage::Exhausted => (s, Decision::Stop),
    }
}

fn min_usize(a: usize, b: usize) -> (r: usize)
    ensures
        r == lesser(a as nat, b as nat),
{
    if a <= b {
        a
    } else {
        b
    }
}

fn decide_stage(
    state: &mut SkillExecutionState,
    session_id: u64,
    is_final: bool,
    facts: &ClauseFacts,
    clause: &Clause,
    stage: Stage,
) -> (r: Verdict)
    ensures
        (skill_engine::session(*final(state)), r@) == stage_decision(
            skill_engine::session(*old(state)),
            session_id,
            is_final,
            *facts,
            clause@,
            stage,
        ),
{
    match stage {
        Stage::Direct => {
            if facts.windows.is_none() {
                return Verdict::Skip;
            }
            match skill_engine::plan_direct_windows_target(
                clause.text.as_str(),
                facts.direct_target_known,
            ) {
                Some(plan) => {
                    let key = skill_engine::windows_action_key(&plan.action);
                    reserve_or_skip(state, session_id, key, clause.consumed_end)
                },
                None => Verdict::Skip,
            }
        },
        Stage::Windows => match &facts.windows {
            Some(w) => match &w.planned {
                WindowsPlanResult::Action(plan) => match pass_windows_gate(
                    state,
                    session_id,
                    is_final,
                    plan,
                    w.target_known,
                ) {
                    Gate::Go => {
                        let key = skill_engine::windows_action_key(&plan.action);
                        let end: usize = min_usize(plan.consumed_end, clause.consumed_end);
                        reserve_or_skip(state, session_id, key, end)
                    },
                    _ => Verdict::Stop,
                },
                _ => Verdict::Skip,
            },
            None => Verdict::Skip,
        },
        Stage::Browser => match &facts.browser {
            Some(b) => match &b.planned {
                BrowserPlanResult::Action(plan) => match pass_browser_gate(
                    state,
                    session_id,
                    is_final,
                    plan,
                    b.is_url,
                    b.is_site,
                ) {
                    Gate::Go => {
                        let key = skill_engine::browser_action_key(&plan.action);
                        let end: usize = min_usize(plan.consumed_end, clause.consumed_end);
                        reserve_or_skip(state, session_id, key, end)
                    },
                    _ => Verdict::Stop,
                },
                BrowserPlanResult::Unmatched => {
                    skill_engine::clear_streaming_browser_open_action_candidate(state, session_id);
                    Verdict::Skip
                },
                BrowserPlanResult::Feedback(_) => Verdict::Skip,
            },
            None => Verdict::Skip,
        },
        Stage::Exhausted => Verdict::Stop,
    }
}

// ---------------------------------------------------------------------------
// The pass
// ---------------------------------------------------------------------------

/// Where a pass stands.
pub enum Phase {
    Finished,
    /// Waits for the facts about the clause.
    Examining { clause: Clause },
    /// Waits for the outcome of the match `index`.
    Matching {
        clause: Clause,
        facts: ClauseFacts,
        index: usize,
        /// The number of bytes of the clause that the matches so far have used up.
        consumed: usize,
        key: String,
        end: usize,
    },
    /// Waits for the outcome of the stage.
    Falling { clause: Clause, facts: ClauseFacts, stage: Stage, key: String, end: usize },
}

#[verifier::ext_equal]
pub enum PhaseModel {
    Finished,
    Examining { clause: ClauseModel },
    Matching {
        clause: ClauseModel,
        facts: ClauseFacts,
        index: nat,
        consumed: nat,
        key: Seq<char>,
        end: nat,
    },
    Falling { clause: ClauseModel, facts: ClauseFacts, stage: Stage, key: Seq<char>, end: nat },
}

impl View for Phase {
    type V = PhaseModel;

    open spec fn view(&self) -> PhaseModel {
        match self {
            Phase::Finished => PhaseModel::Finished,
            Phase::Examining { clause } => PhaseModel::Examining { clause: clause@ },
            Phase::Matching { clause, facts, index, consumed, key, end } => PhaseModel::Matching {
                clause: clause@,
                facts: *facts,
                index: *index as nat,
                consumed: *consumed as nat,
                key: key@,
                end: *end as nat,
            },
            Phase::Falling { clause, facts, stage, key, end } => PhaseModel::Falling {
                clause: clause@,
                facts: *facts,
                stage: *stage,
                key: key@,
                end: *end as nat,
            },
        }
    }
}

/// Offsets of the phase stay within what can be counted, and it waits for
/// something that there is.
pub open spec fn phase_wf(phase: PhaseModel) -> bool {
    match phase {
        PhaseModel::Finished => true,
        PhaseModel::Examining { clause } => clause.offset + clause.consumed_end <= usize::MAX,
        PhaseModel::Matching { clause, facts, index, consumed, key, end } => {
            &&& clause.offset + clause.consumed_end <= usize::MAX
            &&& index < facts.matches@.len()
        },
        PhaseModel::Falling { clause, facts, stage, key, end } => {
            &&& clause.offset + clause.consumed_end <= usize::MAX
            &&& end <= clause.consumed_end
            &&& stage != Stage::Exhausted
        },
    }
}

/// What a pass is about.
#[verifier::ext_equal]
pub struct PassModel {
    pub session_id: u64,
    pub text: Seq<char>,
    pub is_final: bool,
}

/// The state of affairs after a turn of the pass: the session, the phase, and what
/// the user has been told.
#[verifier::ext_equal]
pub struct Turn {
    pub session: Option<SessionModel>,
    pub phase: PhaseModel,
    pub told: Seq<Seq<char>>,
}

/// On to the next clause.
pub open spec fn open_clause(s: Option<SessionModel>, pass: PassModel, told: Seq<Seq<char>>) -> Turn {
    let (t, clause) = next_clause(s, pass.session_id, pass.text);
    match clause {
        Some(clause) => Turn { session: t, phase: PhaseModel::Examining { clause }, told },
        None => Turn { session: t, phase: PhaseModel::Finished, told },
    }
}

/// The turn with which a pass starts. A blank transcript asks for nothing.
pub open spec fn at_start(s: Option<SessionModel>, pass: PassModel) -> Turn {
    if text::is_blank(pass.text) {
        Turn { session: s, phase: PhaseModel::Finished, told: seq![] }
    } else {
        open_clause(s, pass, seq![])
    }
}

/// Where the words that belong to the match `index` end.
pub open spec fn local_end(clause: ClauseModel, facts: ClauseFacts, index: int) -> nat {
    if index + 1 < facts.matches@.len() {
        facts.matches@[index + 1].skill_match.start as nat
    } else {
        text::byte_len(clause.text)
    }
}

/// The matches from `index` on, `consumed` bytes of the clause being used up by
/// those before. Where the matches have used up something the pass goes on after
/// it, and otherwise it ends.
pub open spec fn go_matching(
    s: Option<SessionModel>,
    pass: PassModel,
    clause: ClauseModel,
    facts: ClauseFacts,
    index: nat,
    consumed: nat,
    told: Seq<Seq<char>>,
) -> Turn
    decreases facts.matches@.len() - index,
{
    if index >= facts.matches@.len() {
        if consumed > 0 {
            open_clause(
                skill_engine::advanced(
                    s,
                    pass.session_id,
                    pass.text,
                    clause.offset + lesser(consumed, clause.consumed_end),
                ),
                pass,
                told,
            )
        } else {
            Turn { session: s, phase: PhaseModel::Finished, told }
        }
    } else {
        let (t, decision) = match_decision(
            s,
            pass.session_id,
            pass.is_final,
            facts.matches@[index as int],
            local_end(clause, facts, index as int),
        );
        match decision {
            Decision::Skip => go_matching(t, pass, clause, facts, index + 1, consumed, told),
            Decision::Tell(m) => go_matching(
                t,
                pass,
                clause,
                facts,
                index + 1,
                consumed,
                told.push(m),
            ),
            Decision::Stop => Turn { session: t, phase: PhaseModel::Finished, told },
            Decision::Run { key, end } => Turn {
                session: t,
                phase: PhaseModel::Matching { clause, facts, index, consumed, key, end },
                told,
            },
        }
    }
}

pub open spec fn next_stage(stage: Stage) -> Stage {
    match stage {
        Stage::Direct => Stage::Windows,
        Stage::Windows => Stage::Browser,
        _ => Stage::Exhausted,
    }
}

pub open spec fn stages_left(stage: Stage) -> nat {
    match stage {
        Stage::Direct => 3,
        Stage::Windows => 2,
        Stage::Browser => 1,
        Stage::Exhausted => 0,
    }
}

/// The stages from `stage` on. A clause in which nothing was found is passed over,
/// unless it is the last one, which may still grow.
pub open spec fn go_falling(
    s: Option<SessionModel>,
    pass: PassModel,
    clause: ClauseModel,
    facts: ClauseFacts,
    stage: Stage,
    told: Seq<Seq<char>>,
) -> Turn
    decreases stages_left(stage),
{
    if stage == Stage::Exhausted {
        if clause.is_last {
            Turn { session: s, phase: PhaseModel::Finished, told }
        } else {
            open_clause(
                skill_engine::advanced(
                    s,
                    pass.session_id,
                    pass.text,
                    clause.offset + clause.consumed_end,
                ),
                pass,
                told,
            )
        }
    } else {
        let (t, decision) = stage_decision(
            s,
            pass.session_id,
            pass.is_final,
            facts,
            clause,
            stage,
        );
        match decision {
            Decision::Stop => Turn { session: t, phase: PhaseModel::Finished, told },
            Decision::Run { key, end } => Turn {
                session: t,
                phase: PhaseModel::Falling { clause, facts, stage, key, end },
                told,
            },
            _ => go_falling(t, pass, clause, facts, next_stage(stage), told),
        }
    }
}

/// The turn after the facts about a clause have come in.
pub open spec fn after_facts(
    s: Option<SessionModel>,
    pass: PassModel,
    clause: ClauseModel,
    facts: ClauseFacts,
) -> Turn {
    if facts.matches@.len() > 0 {
        go_matching(s, pass, clause, facts, 0, 0, seq![])
    } else {
        go_falling(s, pass, clause, facts, Stage::Direct, seq![])
    }
}

/// What the user is told about a failed action of a match.
pub open spec fn failure_text(kind: SkillKind, error: Seq<char>) -> Seq<char> {
    if kind == SkillKind::Config {
        "配置更新失败: "@ + error
    } else {
        error
    }
}

/// The turn after an action has been carried out, or has failed. Either way the
/// action counts as executed.
pub open spec fn after_outcome(
    s: Option<SessionModel>,
    pass: PassModel,
    phase: PhaseModel,
    outcome: Result<(), String>,
) -> Turn {
    match phase {
        PhaseModel::Matching { clause, facts, index, consumed, key, end } => {
            let t = skill_engine::completed(s, pass.session_id, key, true);
            match outcome {
                Ok(_) => go_matching(
                    t,
                    pass,
                    clause,
                    facts,
                    index + 1,
                    if consumed <= end {
                        end
                    } else {
                        consumed
                    },
                    seq![],
                ),
                Err(e) => go_matching(
                    t,
                    pass,
                    clause,
                    facts,
                    index + 1,
                    consumed,
                    seq![
                        failure_text(
                            kind_of(facts.matches@[index as int].skill_match.skill_id@),
                            e@,
                        ),
                    ],
                ),
            }
        },
        PhaseModel::Falling { clause, facts, stage, key, end } => {
            let t = skill_engine::completed(s, pass.session_id, key, true);
            match outcome {
                Ok(_) => open_clause(
                    skill_engine::cleared(
                        skill_engine::advanced(
                            t,
                            pass.session_id,
                            pass.text,
                            clause.offset + end,
                        ),
                        pass.session_id,
                    ),
                    pass,
                    seq![],
                ),
                Err(e) => go_falling(t, pass, clause, facts, next_stage(stage), seq![e@]),
            }
        },
        _ => Turn { session: s, phase, told: seq![] },
    }
}

/// What the application is to do next.
#[allow(inconsistent_fields)]
pub enum SkillAction {
    /// Nothing; the pass is over.
    Done,
    /// Look up what is known of the clause, and report it with `examined`.
    Examine { clause: String },
    /// Change the settings as the match `index` asks, and report with `finished`.
    RunConfig { index: usize },
    /// Act on the desktop, and report with `finished`.
    RunWindows { plan: WindowsActionPlan },
    /// Act on the browser, and report with `finished`.
    RunBrowser { plan: BrowserActionPlan },
    /// Carry out the skill of the match `index`, and report with `finished`.
    RunSkill { index: usize },
}

/// `plan` opens the target that the whole clause names.
pub open spec fn is_direct_plan(plan: WindowsActionPlan, clause: ClauseModel) -> bool {
    &&& plan.action matches WindowsAction::OpenTarget { query } && query@
        == skill_engine::normalized_query(clause.text)
    &&& plan.action_name@ == "Open Windows Target"@
    &&& plan.note is None
    &&& plan.consumed_end == text::byte_len(clause.text)
}

/// `action` carries out the match `index`.
pub open spec fn is_match_action(facts: ClauseFacts, index: int, action: SkillAction) -> bool {
    let m = facts.matches@[index];
    match kind_of(m.skill_match.skill_id@) {
        SkillKind::Config => action == SkillAction::RunConfig { index: index as usize },
        SkillKind::Other => action == SkillAction::RunSkill { index: index as usize },
        SkillKind::Windows => action matches SkillAction::RunWindows { plan } && m.windows is Some
            && m.windows->0.planned == WindowsPlanResult::Action(plan),
        SkillKind::Browser => action matches SkillAction::RunBrowser { plan } && m.browser is Some
            && m.browser->0.planned == BrowserPlanResult::Action(plan),
    }
}

/// `action` carries out what the stage found in the clause.
pub open spec fn is_stage_action(
    facts: ClauseFacts,
    clause: ClauseModel,
    stage: Stage,
    action: SkillAction,
) -> bool {
    match stage {
        Stage::Direct => action matches SkillAction::RunWindows { plan } && is_direct_plan(
            plan,
            clause,
        ),
        Stage::Windows => action matches SkillAction::RunWindows { plan } && facts.windows is Some
            && facts.windows->0.planned == WindowsPlanResult::Action(plan),
        Stage::Browser => action matches SkillAction::RunBrowser { plan } && facts.browser is Some
            && facts.browser->0.planned == BrowserPlanResult::Action(plan),
        Stage::Exhausted => false,
    }
}

/// `action` is what the phase waits for.
pub open spec fn is_awaited(phase: PhaseModel, action: SkillAction) -> bool {
    match phase {
        PhaseModel::Finished => action is Done,
        PhaseModel::Examining { clause } => action matches SkillAction::Examine { clause: c }
            && c@ == clause.text,
        PhaseModel::Matching { facts, index, .. } => is_match_action(facts, index as int, action),
        PhaseModel::Falling { clause, facts, stage, .. } => is_stage_action(
            facts,
            clause,
            stage,
            action,
        ),
    }
}

/// One pass over a transcript.
pub struct SkillRun {
    pub session_id: u64,
    pub text: String,
    pub is_final: bool,
    pub phase: Phase,
}

impl SkillRun {
    pub open spec fn pass(self) -> PassModel {
        PassModel { session_id: self.session_id, text: self.text@, is_final: self.is_final }
    }

    pub open spec fn wf(self) -> bool {
        phase_wf(self.phase@)
    }

    /// Starts a pass over `text`. A blank transcript asks for nothing.
    pub fn start(
        state: &mut SkillExecutionState,
        session_id: u64,
        text: String,
        is_final: bool,
    ) -> (r: (SkillRun, SkillAction))
        ensures
            r.0.wf(),
            r.0.pass() == (PassModel { session_id, text: text@, is_final }),
            is_awaited(r.0.phase@, r.1),
            (Turn {
                session: skill_engine::session(*final(state)),
                phase: r.0.phase@,
                told: seq![],
            }) == at_start(skill_engine::session(*old(state)), r.0.pass()),
    {
        if text::is_blank_str(text.as_str()) {
            return (
                SkillRun { session_id, text, is_final, phase: Phase::Finished },
                SkillAction::Done,
            );
        }
        let (phase, action) = next_phase(state, session_id, text.as_str());
        (SkillRun { session_id, text, is_final, phase }, action)
    }

    /// Takes in the facts about the clause that the pass asked for.
    pub fn examined(&mut self, state: &mut SkillExecutionState, facts: ClauseFacts) -> (r: (
        SkillAction,
        Vec<String>,
    ))
        requires
            old(self).wf(),
            old(self).phase is Examining,
        ensures
            final(self).wf(),
            final(self).pass() == old(self).pass(),
            is_awaited(final(self).phase@, r.0),
            (Turn {
                session: skill_engine::session(*final(state)),
                phase: final(self).phase@,
                told: text::views(r.1@),
            }) == after_facts(
                skill_engine::session(*old(state)),
                old(self).pass(),
                old(self).phase@->Examining_clause,
                facts,
            ),
    {
        let mut phase = Phase::Finished;
        std::mem::swap(&mut phase, &mut self.phase);
        let mut told: Vec<String> = Vec::new();
        assert(text::views(told@) =~= seq![]);
        match phase {
            Phase::Examining { clause } => {
                let (next, action) = if facts.matches.len() > 0 {
                    self.run_matches(state, clause, facts, 0, 0, &mut told)
                } else {
                    self.run_stages(state, clause, facts, Stage::Direct, &mut told)
                };
                self.phase = next;
                (action, told)
            },
            _ => (SkillAction::Done, told),
        }
    }

    /// Takes in the outcome of the action that the pass asked for.
    pub fn finished(
        &mut self,
        state: &mut SkillExecutionState,
        outcome: Result<(), String>,
    ) -> (r: (SkillAction, Vec<String>))
        requires
            old(self).wf(),
            old(self).phase is Matching || old(self).phase is Falling,
        ensures
            final(self).wf(),
            final(self).pass() == old(self).pass(),
            is_awaited(final(self).phase@, r.0),
            (Turn {
                session: skill_engine::session(*final(state)),
                phase: final(self).phase@,
                told: text::views(r.1@),
            }) == after_outcome(
                skill_engine::session(*old(state)),
                old(self).pass(),
                old(self).phase@,
                outcome,
            ),
    {
        let mut phase = Phase::Finished;
        std::mem::swap(&mut phase, &mut self.phase);
        let mut told: Vec<String> = Vec::new();
        assert(text::views(told@) =~= seq![]);
        match phase {
            Phase::Matching { clause, facts, index, consumed, key, end } => {
                skill_engine::complete_skill_action(state, self.session_id, key.as_str(), true);
                let count: usize = facts.matches.len();
                assert(index < count);
                let used: usize = match outcome {
                    Ok(_) => if consumed <= end {
                        end
                    } else {
                        consumed
                    },
                    Err(error) => {
                        let kind = skill_kind(facts.matches[index].skill_match.skill_id.as_str());
                        let message = match kind {
                            SkillKind::Config => text::concat2(
                                "配置更新失败: ",
                                error.as_str(),
                            ),
                            _ => error,
                        };
                        told.push(message);
                        assert(text::views(told@) =~= seq![message@]);
                        consumed
                    },
                };
                let (next, action) = self.run_matches(
                    state,
                    clause,
                    facts,
                    index + 1,
                    used,
                    &mut told,
                );
                self.phase = next;
                (action, told)
            },
            Phase::Falling { clause, facts, stage, key, end } => {
                skill_engine::complete_skill_action(state, self.session_id, key.as_str(), true);
                let (next, action) = match outcome {
                    Ok(_) => {
                        skill_engine::advance_skill_transcript_consumed(
                            state,
                            self.session_id,
                            self.text.as_str(),
                            clause.offset + end,
                        );
                        skill_engine::clear_streaming_browser_open_action_candidate(
                            state,
                            self.session_id,
                        );
                        next_phase(state, self.session_id, self.text.as_str())
                    },
                    Err(error) => {
                        told.push(error);
                        assert(text::views(told@) =~= seq![error@]);
                        let later = match stage {
                            Stage::Direct => Stage::Windows,
                            Stage::Windows => Stage::Browser,
                            _ => Stage::Exhausted,
                        };
                        self.run_stages(state, clause, facts, later, &mut told)
                    },
                };
                self.phase = next;
                (action, told)
            },
            _ => (SkillAction::Done, told),
        }
    }

    fn run_matches(
        &self,
        state: &mut SkillExecutionState,
        clause: Clause,
        facts: ClauseFacts,
        from: usize,
        consumed: usize,
        told: &mut Vec<String>,
    ) -> (r: (Phase, SkillAction))
        requires
            clause.offset + clause.consumed_end <= usize::MAX,
            from <= facts.matches@.len(),
        ensures
            phase_wf(r.0@),
            is_awaited(r.0@, r.1),
            (Turn {
                session: skill_engine::session(*final(state)),
                phase: r.0@,
                told: text::views(final(told)@),
            }) == go_matching(
                skill_engine::session(*old(state)),
                self.pass(),
                clause@,
                facts,
                from as nat,
                consumed as nat,
                text::views(old(told)@),
            ),
    {
        let ghost goal = go_matching(
            skill_engine::session(*state),
            self.pass(),
            clause@,
            facts,
            from as nat,
            consumed as nat,
            text::views(told@),
        );
        let mut i: usize = from;
        while i < facts.matches.len()
            invariant
                i <= facts.matches@.len(),
                clause.offset + clause.consumed_end <= usize::MAX,
                goal == go_matching(
                    skill_engine::session(*old(state)),
                    self.pass(),
                    clause@,
                    facts,
                    from as nat,
                    consumed as nat,
                    text::views(old(told)@),
                ),
                goal == go_matching(
                    skill_engine::session(*state),
                    self.pass(),
                    clause@,
                    facts,
                    i as nat,
                    consumed as nat,
                    text::views(told@),
                ),
            decreases facts.matches@.len() - i,
        {
            let end: usize = if i + 1 < facts.matches.len() {
                facts.matches[i + 1].skill_match.start
            } else {
                text::byte_count(clause.text.as_str())
            };
            match decide_match(state, self.session_id, self.is_final, &facts.matches[i], end) {
                Verdict::Skip => {},
                Verdict::Tell(message) => {
                    let ghost before = text::views(told@);
                    told.push(message);
                    assert(text::views(told@) =~= before.push(message@));
                },
                Verdict::Stop => {
                    return (Phase::Finished, SkillAction::Done);
                },
                Verdict::Run { key, end } => {
                    let action = match_action(&facts, i);
                    let phase = Phase::Matching { clause, facts, index: i, consumed, key, end };
                    return (phase, action);
                },
            }
            i += 1;
        }
        if consumed > 0 {
            let used: usize = min_usize(consumed, clause.consumed_end);
            skill_engine::advance_skill_transcript_consumed(
                state,
                self.session_id,
                self.text.as_str(),
                clause.offset + used,
            );
            next_phase(state, self.session_id, self.text.as_str())
        } else {
            (Phase::Finished, SkillAction::Done)
        }
    }

    fn run_stages(
        &self,
        state: &mut SkillExecutionState,
        clause: Clause,
        facts: ClauseFacts,
        from: Stage,
        told: &mut Vec<String>,
    ) -> (r: (Phase, SkillAction))
        requires
            clause.offset + clause.consumed_end <= usize::MAX,
        ensures
            phase_wf(r.0@),
            is_awaited(r.0@, r.1),
            final(told)@ == old(told)@,
            (Turn {
                session: skill_engine::session(*final(state)),
                phase: r.0@,
                told: text::views(final(told)@),
            }) == go_falling(
                skill_engine::session(*old(state)),
                self.pass(),
                clause@,
                facts,
                from,
                text::views(old(told)@),
            ),
    {
        let ghost goal = go_falling(
            skill_engine::session(*state),
            self.pass(),
            clause@,
            facts,
            from,
            text::views(told@),
        );
        let mut stage = from;
        loop
            invariant
                clause.offset + clause.consumed_end <= usize::MAX,
                told@ == old(told)@,
                goal == go_falling(
                    skill_engine::session(*old(state)),
                    self.pass(),
                    clause@,
                    facts,
                    from,
                    text::views(old(told)@),
                ),
                goal == go_falling(
                    skill_engine::session(*state),
                    self.pass(),
                    clause@,
                    facts,
                    stage,
                    text::views(told@),
                ),
            decreases stages_left(stage),
        {
            if stage == Stage::Exhausted {
                if clause.is_last {
                    return (Phase::Finished, SkillAction::Done);
                }
                skill_engine::advance_skill_transcript_consumed(
                    state,
                    self.session_id,
                    self.text.as_str(),
                    clause.offset + clause.consumed_end,
                );
                return next_phase(state, self.session_id, self.text.as_str());
            }
            match decide_stage(state, self.session_id, self.is_final, &facts, &clause, stage) {
                Verdict::Stop => {
                    return (Phase::Finished, SkillAction::Done);
                },
                Verdict::Run { key, end } => {
                    let action = stage_action(&facts, &clause, stage);
                    let phase = Phase::Falling { clause, facts, stage, key, end };
                    return (phase, action);
                },
                _ => {},
            }
            stage = match stage {
                Stage::Direct => Stage::Windows,
                Stage::Windows => Stage::Browser,
                _ => Stage::Exhausted,
            };
        }
    }
}

fn next_phase(state: &mut SkillExecutionState, session_id: u64, text: &str) -> (r: (
    Phase,
    SkillAction,
))
    ensures
        phase_wf(r.0@),
        is_awaited(r.0@, r.1),
        ({
            let n = next_clause(skill_engine::session(*old(state)), session_id, text@);
            &&& skill_engine::session(*final(state)) == n.0
            &&& r.0@ == (match n.1 {
                Some(clause) => PhaseModel::Examining { clause },
                None => PhaseModel::Finished,
            })
        }),
{
    match take_next_clause(state, session_id, text) {
        Some(clause) => {
            let action = SkillAction::Examine { clause: clause.text.clone() };
            (Phase::Examining { clause }, action)
        },
        None => (Phase::Finished, SkillAction::Done),
    }
}

/// The match has an action that can be carried out.
spec fn match_is_runnable(m: MatchedSkill) -> bool {
    match kind_of(m.skill_match.skill_id@) {
        SkillKind::Windows => m.windows is Some && m.windows->0.planned is Action,
        SkillKind::Browser => m.browser is Some && m.browser->0.planned is Action,
        _ => true,
    }
}

fn match_action(facts: &ClauseFacts, index: usize) -> (r: SkillAction)
    requires
        index < facts.matches@.len(),
        match_is_runnable(facts.matches@[index as int]),
    ensures
        is_match_action(*facts, index as int, r),
{
    let m = &facts.matches[index];
    match skill_kind(m.skill_match.skill_id.as_str()) {
        SkillKind::Config => SkillAction::RunConfig { index },
        SkillKind::Other => SkillAction::RunSkill { index },
        SkillKind::Windows => match &m.windows {
            Some(facts) => match &facts.planned {
                WindowsPlanResult::Action(plan) => SkillAction::RunWindows { plan: plan.clone() },
                _ => SkillAction::Done,
            },
            None => SkillAction::Done,
        },
        SkillKind::Browser => match &m.browser {
            Some(facts) => match &facts.planned {
                BrowserPlanResult::Action(plan) => SkillAction::RunBrowser { plan: plan.clone() },
                _ => SkillAction::Done,
            },
            None => SkillAction::Done,
        },
    }
}

/// The stage has an action that can be carried out.
spec fn stage_is_runnable(facts: ClauseFacts, clause: ClauseModel, stage: Stage) -> bool {
    match stage {
        Stage::Direct => skill_engine::normalized_query(clause.text).len() > 0
            && facts.direct_target_known,
        Stage::Windows => facts.windows is Some && facts.windows->0.planned is Action,
        Stage::Browser => facts.browser is Some && facts.browser->0.planned is Action,
        Stage::Exhausted => false,
    }
}

fn stage_action(facts: &ClauseFacts, clause: &Clause, stage: Stage) -> (r: SkillAction)
    requires
        stage_is_runnable(*facts, clause@, stage),
    ensures
        is_stage_action(*facts, clause@, stage, r),
{
    match stage {
        Stage::Direct => match skill_engine::plan_direct_windows_target(
            clause.text.as_str(),
            facts.direct_target_known,
        ) {
            Some(plan) => SkillAction::RunWindows { plan },
            None => SkillAction::Done,
        },
        Stage::Windows => match &facts.windows {
            Some(w) => match &w.planned {
                WindowsPlanResult::Action(plan) => SkillAction::RunWindows { plan: plan.clone() },
                _ => SkillAction::Done,
            },
            None => SkillAction::Done,
        },
        Stage::Browser => match &facts.browser {
            Some(b) => match &b.planned {
                BrowserPlanResult::Action(plan) => SkillAction::RunBrowser { plan: plan.clone() },
                _ => SkillAction::Done,
            },
            None => SkillAction::Done,
        },
        Stage::Exhausted => SkillAction::Done,
    }
}

// ---------------------------------------------------------------------------
// Laws of a pass
// ---------------------------------------------------------------------------

/// The action that the phase waits for has been reserved.
pub open spec fn holds_reservation(s: Option<SessionModel>, id: u64, phase: PhaseModel) -> bool {
    match phase {
        PhaseModel::Matching { key, .. } => skill_engine::is_current(s, id)
            && s->0.pending.contains(key),
        PhaseModel::Falling { key, .. } => skill_engine::is_current(s, id)
            && s->0.pending.contains(key),
        _ => true,
    }
}

/// The phase does not wait for a change of settings.
pub open spec fn leaves_settings_alone(phase: PhaseModel) -> bool {
    match phase {
        PhaseModel::Matching { facts, index, .. } => kind_of(
            facts.matches@[index as int].skill_match.skill_id@,
        ) != SkillKind::Config,
        _ => true,
    }
}

proof fn lemma_matching_turn(
    s: Option<SessionModel>,
    pass: PassModel,
    clause: ClauseModel,
    facts: ClauseFacts,
    index: nat,
    consumed: nat,
    told: Seq<Seq<char>>,
)
    ensures
        ({
            let turn = go_matching(s, pass, clause, facts, index, consumed, told);
            &&& holds_reservation(turn.session, pass.session_id, turn.phase)
            &&& pass.is_final || leaves_settings_alone(turn.phase)
        }),
    decreases facts.matches@.len() - index,
{
    if index < facts.matches@.len() {
        let (t, decision) = match_decision(
            s,
            pass.session_id,
            pass.is_final,
            facts.matches@[index as int],
            local_end(clause, facts, index as int),
        );
        match decision {
            Decision::Skip => lemma_matching_turn(
                t,
                pass,
                clause,
                facts,
                index + 1,
                consumed,
                told,
            ),
            Decision::Tell(m) => lemma_matching_turn(
                t,
                pass,
                clause,
                facts,
                index + 1,
                consumed,
                told.push(m),
            ),
            _ => {},
        }
    }
}

proof fn lemma_falling_turn(
    s: Option<SessionModel>,
    pass: PassModel,
    clause: ClauseModel,
    facts: ClauseFacts,
    stage: Stage,
    told: Seq<Seq<char>>,
)
    ensures
        ({
            let turn = go_falling(s, pass, clause, facts, stage, told);
            &&& holds_reservation(turn.session, pass.session_id, turn.phase)
            &&& leaves_settings_alone(turn.phase)
        }),
    decreases stages_left(stage),
{
    if stage != Stage::Exhausted {
        let (t, decision) = stage_decision(
            s,
            pass.session_id,
            pass.is_final,
            facts,
            clause,
            stage,
        );
        match decision {
            Decision::Stop => {},
            Decision::Run { .. } => {},
            _ => lemma_falling_turn(t, pass, clause, facts, next_stage(stage), told),
        }
    }
}

/// Whatever a pass asks the application to carry out, it has reserved in the
/// session before; and it asks for a change of settings only where the transcript
/// is final.
pub proof fn law_only_reserved_actions_run(
    s: Option<SessionModel>,
    pass: PassModel,
    clause: ClauseModel,
    facts: ClauseFacts,
    phase: PhaseModel,
    outcome: Result<(), String>,
)
    requires
        phase is Matching || phase is Falling,
    ensures
        ({
            let turn = after_facts(s, pass, clause, facts);
            &&& holds_reservation(turn.session, pass.session_id, turn.phase)
            &&& pass.is_final || leaves_settings_alone(turn.phase)
        }),
        ({
            let turn = after_outcome(s, pass, phase, outcome);
            &&& holds_reservation(turn.session, pass.session_id, turn.phase)
            &&& pass.is_final || leaves_settings_alone(turn.phase)
        }),
{
    if facts.matches@.len() > 0 {
        lemma_matching_turn(s, pass, clause, facts, 0, 0, seq![]);
    } else {
        lemma_falling_turn(s, pass, clause, facts, Stage::Direct, seq![]);
    }
    match phase {
        PhaseModel::Matching { clause, facts, index, consumed, key, end } => {
            let t = skill_engine::completed(s, pass.session_id, key, true);
            match outcome {
                Ok(_) => lemma_matching_turn(
                    t,
                    pass,
                    clause,
                    facts,
                    index + 1,
                    if consumed <= end {
                        end
                    } else {
                        consumed
                    },
                    seq![],
                ),
                Err(e) => lemma_matching_turn(
                    t,
                    pass,
                    clause,
                    facts,
                    index + 1,
                    consumed,
                    seq![
                        failure_text(
                            kind_of(facts.matches@[index as int].skill_match.skill_id@),
                            e@,
                        ),
                    ],
                ),
            }
        },
        PhaseModel::Falling { clause, facts, stage, key, end } => {
            let t = skill_engine::completed(s, pass.session_id, key, true);
            if let Err(e) = outcome {
                lemma_falling_turn(t, pass, clause, facts, next_stage(stage), seq![e@]);
            }
        },
        _ => {},
    }
}

/// The action that the phase waits for, by its key.
pub open spec fn awaited_key(phase: PhaseModel) -> Option<Seq<char>> {
    match phase {
        PhaseModel::Matching { key, .. } => Some(key),
        PhaseModel::Falling { key, .. } => Some(key),
        _ => None,
    }
}

/// The action has run in the session, or it is running.
pub open spec fn is_taken(s: Option<SessionModel>, key: Seq<char>) -> bool {
    s->0.executed.contains(key) || s->0.pending.contains(key)
}

/// The session has gone on from `s` to `t`: what has run or is running stays so.
pub open spec fn goes_on(s: Option<SessionModel>, t: Option<SessionModel>, id: u64) -> bool {
    &&& skill_engine::is_current(t, id)
    &&& forall|key: Seq<char>| #[trigger]
        s->0.executed.contains(key) ==> t->0.executed.contains(key)
    &&& forall|key: Seq<char>| #[trigger] is_taken(s, key) ==> is_taken(t, key)
}

/// The turn goes on from `s`, and the action that it asks for is a new one.
pub open spec fn is_next_turn(s: Option<SessionModel>, turn: Turn, id: u64) -> bool {
    &&& goes_on(s, turn.session, id)
    &&& awaited_key(turn.phase) matches Some(key) ==> !is_taken(s, key) && is_taken(
        turn.session,
        key,
    )
}

proof fn lemma_clause_goes_on(s: Option<SessionModel>, id: u64, transcript: Seq<char>)
    requires
        skill_engine::is_current(s, id),
    ensures
        goes_on(s, next_clause(s, id, transcript).0, id),
    decreases left_over(s, id, transcript),
{
    if let Some((rest, offset)) = skill_engine::remaining_text(s, id, transcript) {
        let clause = clause_of(rest, offset);
        if clause.text.len() == 0 {
            lemma_skip_shortens(s, id, transcript);
            let p = skill_engine::prepared(s, id, transcript);
            let t = skill_engine::advanced(p, id, transcript, offset + clause.consumed_end);
            assert(goes_on(s, t, id));
            lemma_clause_goes_on(t, id, transcript);
        }
    }
}

proof fn lemma_matching_goes_on(
    s: Option<SessionModel>,
    pass: PassModel,
    clause: ClauseModel,
    facts: ClauseFacts,
    index: nat,
    consumed: nat,
    told: Seq<Seq<char>>,
)
    requires
        skill_engine::is_current(s, pass.session_id),
    ensures
        is_next_turn(
            s,
            go_matching(s, pass, clause, facts, index, consumed, told),
            pass.session_id,
        ),
    decreases facts.matches@.len() - index,
{
    let id = pass.session_id;
    if index < facts.matches@.len() {
        let (t, decision) = match_decision(
            s,
            id,
            pass.is_final,
            facts.matches@[index as int],
            local_end(clause, facts, index as int),
        );
        assert(goes_on(s, t, id));
        match decision {
            Decision::Skip => lemma_matching_goes_on(
                t,
                pass,
                clause,
                facts,
                index + 1,
                consumed,
                told,
            ),
            Decision::Tell(m) => lemma_matching_goes_on(
                t,
                pass,
                clause,
                facts,
                index + 1,
                consumed,
                told.push(m),
            ),
            _ => {},
        }
    } else if consumed > 0 {
        let t = skill_engine::advanced(
            s,
            id,
            pass.text,
            clause.offset + lesser(consumed, clause.consumed_end),
        );
        assert(goes_on(s, t, id));
        lemma_clause_goes_on(t, id, pass.text);
    }
}

proof fn lemma_falling_goes_on(
    s: Option<SessionModel>,
    pass: PassModel,
    clause: ClauseModel,
    facts: ClauseFacts,
    stage: Stage,
    told: Seq<Seq<char>>,
)
    requires
        skill_engine::is_current(s, pass.session_id),
    ensures
        is_next_turn(s, go_falling(s, pass, clause, facts, stage, told), pass.session_id),
    decreases stages_left(stage),
{
    let id = pass.session_id;
    if stage == Stage::Exhausted {
        if !clause.is_last {
            let t = skill_engine::advanced(
                s,
                id,
                pass.text,
                clause.offset + clause.consumed_end,
            );
            assert(goes_on(s, t, id));
            lemma_clause_goes_on(t, id, pass.text);
        }
    } else {
        let (t, decision) = stage_decision(s, id, pass.is_final, facts, clause, stage);
        assert(goes_on(s, t, id));
        match decision {
            Decision::Stop => {},
            Decision::Run { .. } => {},
            _ => lemma_falling_goes_on(t, pass, clause, facts, next_stage(stage), told),
        }
    }
}

proof fn lemma_outcome_goes_on(
    s: Option<SessionModel>,
    pass: PassModel,
    phase: PhaseModel,
    outcome: Result<(), String>,
)
    requires
        skill_engine::is_current(s, pass.session_id),
    ensures
        is_next_turn(s, after_outcome(s, pass, phase, outcome), pass.session_id),
        awaited_key(phase) matches Some(key) ==> after_outcome(
            s,
            pass,
            phase,
            outcome,
        ).session->0.executed.contains(key),
{
    let id = pass.session_id;
    match phase {
        PhaseModel::Matching { clause, facts, index, consumed, key, end } => {
            let t = skill_engine::completed(s, id, key, true);
            assert(goes_on(s, t, id));
            assert(t->0.executed.contains(key));
            match outcome {
                Ok(_) => lemma_matching_goes_on(
                    t,
                    pass,
                    clause,
                    facts,
                    index + 1,
                    if consumed <= end {
                        end
                    } else {
                        consumed
                    },
                    seq![],
                ),
                Err(e) => lemma_matching_goes_on(
                    t,
                    pass,
                    clause,
                    facts,
                    index + 1,
                    consumed,
                    seq![
                        failure_text(
                            kind_of(facts.matches@[index as int].skill_match.skill_id@),
                            e@,
                        ),
                    ],
                ),
            }
        },
        PhaseModel::Falling { clause, facts, stage, key, end } => {
            let t = skill_engine::completed(s, id, key, true);
            assert(goes_on(s, t, id));
            assert(t->0.executed.contains(key));
            match outcome {
                Ok(_) => {
                    let u = skill_engine::cleared(
                        skill_engine::advanced(t, id, pass.text, clause.offset + end),
                        id,
                    );
                    assert(goes_on(t, u, id));
                    lemma_clause_goes_on(u, id, pass.text);
                },
                Err(e) => lemma_falling_goes_on(
                    t,
                    pass,
                    clause,
                    facts,
                    next_stage(stage),
                    seq![e@],
                ),
            }
        },
        _ => {},
    }
}

/// Once an action has been carried out or has failed, it counts as executed.
pub proof fn law_finished_action_is_executed(
    s: Option<SessionModel>,
    pass: PassModel,
    phase: PhaseModel,
    outcome: Result<(), String>,
)
    requires
        skill_engine::is_current(s, pass.session_id),
        phase is Matching || phase is Falling,
    ensures
        ({
            let turn = after_outcome(s, pass, phase, outcome);
            turn.session is Some && turn.session->0.executed.contains(awaited_key(phase)->0)
        }),
{
    lemma_outcome_goes_on(s, pass, phase, outcome);
}

// ---------------------------------------------------------------------------
// Laws of the passes of a session
// ---------------------------------------------------------------------------

/// What can happen to the passes of a session. They may follow one another or overlap: each
/// event says which pass it belongs to.
#[verifier::ext_equal]
pub enum PassEvent {
    /// A pass starts.
    Started { pass: PassModel },
    /// The facts about a clause come in.
    Examined { pass: PassModel, clause: ClauseModel, facts: ClauseFacts },
    /// An action has been carried out, or has failed.
    Finished { pass: PassModel, phase: PhaseModel, outcome: Result<(), String> },
}

pub open spec fn pass_of(event: PassEvent) -> PassModel {
    match event {
        PassEvent::Started { pass } => pass,
        PassEvent::Examined { pass, .. } => pass,
        PassEvent::Finished { pass, .. } => pass,
    }
}

/// The turn that an event leads to.
pub open spec fn turn_of(s: Option<SessionModel>, event: PassEvent) -> Turn {
    match event {
        PassEvent::Started { pass } => at_start(s, pass),
        PassEvent::Examined { pass, clause, facts } => after_facts(s, pass, clause, facts),
        PassEvent::Finished { pass, phase, outcome } => after_outcome(s, pass, phase, outcome),
    }
}

/// The session after a run of events.
pub open spec fn after_events(s: Option<SessionModel>, events: Seq<PassEvent>) -> Option<
    SessionModel,
>
    decreases events.len(),
{
    if events.len() == 0 {
        s
    } else {
        turn_of(after_events(s, events.drop_last()), events.last()).session
    }
}

/// The action that is asked for in answer to the event `n`, by its key.
pub open spec fn asked_for(
    s: Option<SessionModel>,
    events: Seq<PassEvent>,
    n: int,
) -> Option<Seq<char>> {
    awaited_key(turn_of(after_events(s, events.take(n)), events[n]).phase)
}

/// All events belong to passes of the session `id`.
pub open spec fn all_of_session(events: Seq<PassEvent>, id: u64) -> bool {
    forall|n: int| 0 <= n < events.len() ==> pass_of(#[trigger] events[n]).session_id == id
}

/// An action that has run stays run through every turn of every pass, and none asks for it
/// again; nor does any ask for one that is running.
pub proof fn law_no_turn_repeats_an_action(
    s: Option<SessionModel>,
    event: PassEvent,
    key: Seq<char>,
)
    requires
        skill_engine::is_current(s, pass_of(event).session_id),
        is_taken(s, key),
    ensures
        ({
            let turn = turn_of(s, event);
            &&& skill_engine::is_current(turn.session, pass_of(event).session_id)
            &&& s->0.executed.contains(key) ==> turn.session->0.executed.contains(key)
            &&& is_taken(turn.session, key)
            &&& awaited_key(turn.phase) != Some(key)
        }),
{
    lemma_turn_goes_on(s, event);
}

proof fn lemma_turn_goes_on(s: Option<SessionModel>, event: PassEvent)
    requires
        skill_engine::is_current(s, pass_of(event).session_id),
    ensures
        is_next_turn(s, turn_of(s, event), pass_of(event).session_id),
{
    match event {
        PassEvent::Started { pass } => lemma_clause_goes_on(s, pass.session_id, pass.text),
        PassEvent::Examined { pass, clause, facts } => {
            if facts.matches@.len() > 0 {
                lemma_matching_goes_on(s, pass, clause, facts, 0, 0, seq![]);
            } else {
                lemma_falling_goes_on(s, pass, clause, facts, Stage::Direct, seq![]);
            }
        },
        PassEvent::Finished { pass, phase, outcome } => lemma_outcome_goes_on(
            s,
            pass,
            phase,
            outcome,
        ),
    }
}

proof fn lemma_events_go_on(s: Option<SessionModel>, id: u64, events: Seq<PassEvent>, n: int)
    requires
        skill_engine::is_current(s, id),
        all_of_session(events, id),
        0 <= n <= events.len(),
    ensures
        skill_engine::is_current(after_events(s, events.take(n)), id),
    decreases n,
{
    if n > 0 {
        lemma_events_go_on(s, id, events, n - 1);
        assert(events.take(n).drop_last() =~= events.take(n - 1));
        assert(pass_of(events[n - 1]).session_id == id);
        lemma_turn_goes_on(after_events(s, events.take(n - 1)), events[n - 1]);
    }
}

proof fn lemma_stays_taken(
    s: Option<SessionModel>,
    id: u64,
    events: Seq<PassEvent>,
    i: int,
    j: int,
)
    requires
        skill_engine::is_current(s, id),
        all_of_session(events, id),
        0 <= i < j <= events.len(),
        asked_for(s, events, i) is Some,
    ensures
        is_taken(after_events(s, events.take(j)), asked_for(s, events, i)->0),
    decreases j,
{
    lemma_events_go_on(s, id, events, j - 1);
    assert(events.take(j).drop_last() =~= events.take(j - 1));
    assert(pass_of(events[j - 1]).session_id == id);
    lemma_turn_goes_on(after_events(s, events.take(j - 1)), events[j - 1]);
    if i < j - 1 {
        lemma_stays_taken(s, id, events, i, j - 1);
    }
}

/// However the passes of a session come, each action is asked for at most once in it.
pub proof fn law_each_action_runs_at_most_once(
    s: Option<SessionModel>,
    id: u64,
    events: Seq<PassEvent>,
    i: int,
    j: int,
)
    requires
        skill_engine::is_current(s, id),
        all_of_session(events, id),
        0 <= i < j < events.len(),
        asked_for(s, events, i) is Some,
    ensures
        asked_for(s, events, j) != asked_for(s, events, i),
{
    lemma_stays_taken(s, id, events, i, j);
    lemma_events_go_on(s, id, events, j);
    assert(pass_of(events[j]).session_id == id);
    lemma_turn_goes_on(after_events(s, events.take(j)), events[j]);
}

/// While the transcript is not final, no turn changes the settings.
pub proof fn law_drafts_leave_settings_alone(s: Option<SessionModel>, event: PassEvent)
    requires
        !pass_of(event).is_final,
        event matches PassEvent::Finished { phase, .. } ==> phase is Matching || phase is Falling,
    ensures
        leaves_settings_alone(turn_of(s, event).phase),
{
    match event {
        PassEvent::Started { .. } => {},
        PassEvent::Examined { pass, clause, facts } => law_only_reserved_actions_run(
            s,
            pass,
            clause,
            facts,
            PhaseModel::Falling {
                clause,
                facts,
                stage: Stage::Direct,
                key: seq![],
                end: 0,
            },
            Ok(()),
        ),
        PassEvent::Finished { pass, phase, outcome } => match phase {
            PhaseModel::Matching { clause, facts, .. } => law_only_reserved_actions_run(
                s,
                pass,
                clause,
                facts,
                phase,
                outcome,
            ),
            PhaseModel::Falling { clause, facts, .. } => law_only_reserved_actions_run(
                s,
                pass,
                clause,
                facts,
                phase,
                outcome,
            ),
            _ => {},
        },
    }
}

/// A blank transcript asks for nothing and leaves the session as it is.
pub proof fn law_blank_transcript_does_nothing(s: Option<SessionModel>, pass: PassModel)
    requires
        text::is_blank(pass.text),
    ensures
        at_start(s, pass) == (Turn {
            session: s,
            phase: PhaseModel::Finished,
            told: Seq::<Seq<char>>::empty(),
        }),
{
}

// ---------------------------------------------------------------------------
// Laws of what is carried out
// ---------------------------------------------------------------------------

proof fn lemma_skill_ids()
    ensures
        skills::SWITCH_POLISH_SCENE_SKILL_ID@ == "switch_polish_scene"@,
        skills::OPEN_WINDOWS_SKILL_ID@ == "open_windows"@,
        skills::OPEN_BROWSER_SKILL_ID@ == "open_browser"@,
        "switch_polish_scene"@ != "open_windows"@,
        "switch_polish_scene"@ != "open_browser"@,
        "open_windows"@ != "open_browser"@,
{
    reveal_strlit("switch_polish_scene");
    reveal_strlit("open_browser");
    reveal_strlit("open_windows");
    assert("switch_polish_scene"@.len() == 19);
    assert("open_browser"@.len() == 12);
    assert("open_windows"@.len() == 12);
    assert("open_browser"@[5] == 'b');
    assert("open_windows"@[5] == 'w');
}

/// The skill is carried out by itself: it is no change of settings, and neither the skill of
/// the desktop nor that of the browser.
pub open spec fn is_plain_skill(id: Seq<char>) -> bool {
    &&& id != "switch_polish_scene"@
    &&& id != "open_windows"@
    &&& id != "open_browser"@
}

/// A keyword match can make the pass end before those behind it are reached: it asks for a
/// change of settings, or for something to be opened whose name may still grow.
pub open spec fn may_end_pass(m: MatchedSkill) -> bool {
    let id = m.skill_match.skill_id@;
    ||| id == "switch_polish_scene"@
    ||| id == "open_windows"@
    ||| id == "open_browser"@
}

/// The turn asks for the match `k` to be carried out, under the key `key`.
pub open spec fn asks_for_match(turn: Turn, k: int, key: Seq<char>) -> bool {
    turn.phase matches PhaseModel::Matching { index, key: reserved, .. } && index == k && reserved
        == key
}

/// A spoken skill is carried out: where the first keyword of a clause is that of a skill that
/// is carried out by itself, and this has neither run in the session nor is running, the
/// answer to the facts is to carry out just this one, with nothing told and nothing but its
/// reservation changed in the session.
pub proof fn law_a_spoken_skill_is_carried_out(
    s: Option<SessionModel>,
    pass: PassModel,
    clause: ClauseModel,
    facts: ClauseFacts,
    action: SkillAction,
)
    requires
        s is Some && s->0.id == pass.session_id,
        facts.matches@.len() > 0,
        is_plain_skill(facts.matches@[0].skill_match.skill_id@),
        !s->0.executed.contains("skill:"@ + facts.matches@[0].skill_match.skill_id@),
        !s->0.pending.contains("skill:"@ + facts.matches@[0].skill_match.skill_id@),
    ensures
        ({
            let key = "skill:"@ + facts.matches@[0].skill_match.skill_id@;
            let turn = after_facts(s, pass, clause, facts);
            &&& asks_for_match(turn, 0, key)
            &&& turn.told.len() == 0
            &&& turn.session == Some(
                SessionModel { pending: s->0.pending.insert(key), ..s->0 },
            )
            &&& is_awaited(turn.phase, action) ==> action == SkillAction::RunSkill { index: 0 }
        }),
{
    lemma_skill_ids();
}

/// No keyword is passed over: each match of a skill that is carried out by itself, and that
/// can be reserved, is come to. While the matches from `index` on are gone through, the next
/// thing that is carried out is this one or one before it, unless the pass ends before on a
/// match whose words may still change; and it does not end there once the transcript is final.
pub proof fn law_no_spoken_skill_is_passed_over(
    s: Option<SessionModel>,
    pass: PassModel,
    clause: ClauseModel,
    facts: ClauseFacts,
    index: nat,
    consumed: nat,
    told: Seq<Seq<char>>,
    k: int,
)
    requires
        s is Some && s->0.id == pass.session_id,
        index <= k < facts.matches@.len(),
        is_plain_skill(facts.matches@[k].skill_match.skill_id@),
        !s->0.executed.contains("skill:"@ + facts.matches@[k].skill_match.skill_id@),
        !s->0.pending.contains("skill:"@ + facts.matches@[k].skill_match.skill_id@),
        pass.is_final || forall|j: int|
            index <= j < k ==> !may_end_pass(#[trigger] facts.matches@[j]),
    ensures
        ({
            let turn = go_matching(s, pass, clause, facts, index, consumed, told);
            turn.phase matches PhaseModel::Matching { index: i, .. } && index <= i <= k
        }),
    decreases k - index,
{
    lemma_skill_ids();
    let id = pass.session_id;
    let m = facts.matches@[index as int];
    let (t, decision) = match_decision(
        s,
        id,
        pass.is_final,
        m,
        local_end(clause, facts, index as int),
    );
    if index < k {
        assert(pass.is_final || !may_end_pass(facts.matches@[index as int]));
        assert(!(decision is Stop));
        match decision {
            Decision::Skip => law_no_spoken_skill_is_passed_over(
                t,
                pass,
                clause,
                facts,
                index + 1,
                consumed,
                told,
                k,
            ),
            Decision::Tell(message) => law_no_spoken_skill_is_passed_over(
                t,
                pass,
                clause,
                facts,
                index + 1,
                consumed,
                told.push(message),
                k,
            ),
            _ => {},
        }
    }
}

/// A change of settings that was asked for is made once the transcript is final, and not
/// before: until then the pass ends at it and leaves the session as it is.
pub proof fn law_settings_change_with_the_final_transcript(
    s: Option<SessionModel>,
    pass: PassModel,
    clause: ClauseModel,
    facts: ClauseFacts,
    action: SkillAction,
)
    requires
        s is Some && s->0.id == pass.session_id,
        facts.matches@.len() > 0,
        facts.matches@[0].skill_match.skill_id@ == "switch_polish_scene"@,
        !s->0.executed.contains("config:"@ + facts.matches@[0].skill_match.skill_id@),
        !s->0.pending.contains("config:"@ + facts.matches@[0].skill_match.skill_id@),
    ensures
        ({
            let key = "config:"@ + facts.matches@[0].skill_match.skill_id@;
            let turn = after_facts(s, pass, clause, facts);
            &&& turn.told.len() == 0
            &&& pass.is_final ==> asks_for_match(turn, 0, key)
            &&& pass.is_final && is_awaited(turn.phase, action) ==> action
                == SkillAction::RunConfig { index: 0 }
            &&& !pass.is_final ==> turn.phase is Finished && turn.session == s
        }),
{
    lemma_skill_ids();
}

/// What the plan asks of the browser can be done at once, or it opens something that was
/// named; nothing is opened by a name that is blank.
pub open spec fn names_a_page(plan: BrowserActionPlan) -> bool {
    plan.action matches BrowserAction::OpenTarget { query } ==> !text::is_blank(query@)
}

/// The same for the desktop.
pub open spec fn names_a_target(plan: WindowsActionPlan) -> bool {
    plan.action matches WindowsAction::OpenTarget { query } ==> !text::is_blank(query@)
}

/// What was asked of the browser is carried out, as it was planned: at once, or, where a page
/// is to be opened, once the transcript is final or a second update has asked for the same.
/// The first such update only leaves its mark, and the pass ends.
pub proof fn law_the_browser_does_what_was_asked(
    s: Option<SessionModel>,
    pass: PassModel,
    clause: ClauseModel,
    facts: ClauseFacts,
    plan: BrowserActionPlan,
    action: SkillAction,
)
    requires
        s is Some && s->0.id == pass.session_id,
        facts.matches@.len() > 0,
        facts.matches@[0].skill_match.skill_id@ == "open_browser"@,
        facts.matches@[0].browser matches Some(b) && b.planned == BrowserPlanResult::Action(plan)
            && (b.is_url || b.is_site),
        names_a_page(plan),
        !is_taken(s, skill_engine::browser_key(plan.action)),
    ensures
        ({
            let key = skill_engine::browser_key(plan.action);
            let turn = after_facts(s, pass, clause, facts);
            if !(plan.action is OpenTarget) || pass.is_final || s->0.candidate == Some(key) {
                &&& asks_for_match(turn, 0, key)
                &&& turn.told.len() == 0
                &&& is_awaited(turn.phase, action) ==> action == SkillAction::RunBrowser { plan }
            } else {
                &&& turn.phase is Finished
                &&& turn.told.len() == 0
                &&& turn.session == Some(SessionModel { candidate: Some(key), ..s->0 })
            }
        }),
{
    lemma_skill_ids();
    if let BrowserAction::OpenTarget { query } = plan.action {
        text::lemma_trim_blank(query@);
    }
}

/// What was asked of the desktop is carried out, as it was planned: at once, or, where
/// something is to be opened that is not known, once the transcript is final or a second
/// update has asked for the same.
pub proof fn law_the_desktop_does_what_was_asked(
    s: Option<SessionModel>,
    pass: PassModel,
    clause: ClauseModel,
    facts: ClauseFacts,
    plan: WindowsActionPlan,
    action: SkillAction,
)
    requires
        s is Some && s->0.id == pass.session_id,
        facts.matches@.len() > 0,
        facts.matches@[0].skill_match.skill_id@ == "open_windows"@,
        facts.matches@[0].windows matches Some(w) && w.planned == WindowsPlanResult::Action(plan)
            && w.target_known,
        names_a_target(plan),
        !is_taken(s, skill_engine::windows_key(plan.action)),
    ensures
        ({
            let turn = after_facts(s, pass, clause, facts);
            &&& asks_for_match(turn, 0, skill_engine::windows_key(plan.action))
            &&& turn.told.len() == 0
            &&& is_awaited(turn.phase, action) ==> action == SkillAction::RunWindows { plan }
        }),
{
    lemma_skill_ids();
    if let WindowsAction::OpenTarget { query } = plan.action {
        text::lemma_trim_blank(query@);
    }
}

/// A clause without a keyword is looked at for the desktop, then for the browser. What is
/// planned there, and known, is carried out as it was planned; a clause in which nothing is
/// found asks for nothing, and the pass goes on behind it, unless it is the last one.
pub proof fn law_a_clause_without_keyword_is_tried(
    s: Option<SessionModel>,
    pass: PassModel,
    clause: ClauseModel,
    facts: ClauseFacts,
    action: SkillAction,
)
    requires
        s is Some && s->0.id == pass.session_id,
        facts.matches@.len() == 0,
        !facts.direct_target_known,
    ensures
        ({
            let turn = after_facts(s, pass, clause, facts);
            &&& (facts.windows matches Some(w) && w.planned matches WindowsPlanResult::Action(plan)
                && w.target_known && names_a_target(plan) && !is_taken(s, skill_engine::windows_key(plan.action))) ==> {
                let plan = facts.windows->0.planned->Action_0;
                &&& awaited_key(turn.phase) == Some(skill_engine::windows_key(plan.action))
                &&& is_awaited(turn.phase, action) ==> action == SkillAction::RunWindows { plan }
            }
            &&& (facts.windows matches Some(w) ==> !(w.planned is Action)) && (
            facts.browser matches Some(b) && b.planned matches BrowserPlanResult::Action(plan) && (
            b.is_url || b.is_site) && names_a_page(plan) && (
            pass.is_final || !(plan.action is OpenTarget)) && !is_taken(
                s,
                skill_engine::browser_key(plan.action),
            )) ==> {
                let plan = facts.browser->0.planned->Action_0;
                &&& awaited_key(turn.phase) == Some(skill_engine::browser_key(plan.action))
                &&& is_awaited(turn.phase, action) ==> action == SkillAction::RunBrowser { plan }
            }
            &&& facts.windows is None && facts.browser is None ==> if clause.is_last {
                turn.phase is Finished && turn.session == s
            } else {
                turn == open_clause(
                    skill_engine::advanced(
                        s,
                        pass.session_id,
                        pass.text,
                        clause.offset + clause.consumed_end,
                    ),
                    pass,
                    Seq::<Seq<char>>::empty(),
                )
            }
        }),
{
    reveal_with_fuel(go_falling, 4);
    if let Some(w) = facts.windows {
        if let WindowsPlanResult::Action(plan) = w.planned {
            if let WindowsAction::OpenTarget { query } = plan.action {
                text::lemma_trim_blank(query@);
            }
        }
    }
    if let Some(b) = facts.browser {
        if let BrowserPlanResult::Action(plan) = b.planned {
            if let BrowserAction::OpenTarget { query } = plan.action {
                text::lemma_trim_blank(query@);
            }
        }
    }
}

/// What cannot be planned is told to the user: the message of the planner, or that the skill
/// is not set up.
pub proof fn law_what_cannot_be_planned_is_told(
    s: Option<SessionModel>,
    pass: PassModel,
    clause: ClauseModel,
    facts: ClauseFacts,
)
    requires
        facts.matches@.len() == 1,
    ensures
        ({
            let m = facts.matches@[0];
            let id = m.skill_match.skill_id@;
            let turn = after_facts(s, pass, clause, facts);
            &&& id == "open_browser"@ ==> {
                &&& m.browser is None ==> turn.told.len() == 1 && turn.phase is Finished
                &&& (m.browser matches Some(b) && b.planned matches BrowserPlanResult::Feedback(f))
                    ==> turn.told == seq![m.browser->0.planned->Feedback_0@] && turn.phase is Finished
                &&& (m.browser matches Some(b) && b.planned is Unmatched) ==> turn.told.len() == 0
                    && turn.phase is Finished
            }
            &&& id == "open_windows"@ ==> {
                &&& m.windows is None ==> turn.told.len() == 1 && turn.phase is Finished
                &&& (m.windows matches Some(w) && w.planned matches WindowsPlanResult::Feedback(f))
                    ==> turn.told == seq![m.windows->0.planned->Feedback_0@] && turn.phase is Finished
                &&& (m.windows matches Some(w) && w.planned is Unmatched) ==> turn.told.len() == 0
                    && turn.phase is Finished
            }
        }),
{
    lemma_skill_ids();
    reveal_with_fuel(go_matching, 2);
    assert(Seq::<Seq<char>>::empty().push(Seq::<char>::empty()).len() == 1);
    let m = facts.matches@[0];
    if let Some(b) = m.browser {
        if let BrowserPlanResult::Feedback(f) = b.planned {
            assert(Seq::<Seq<char>>::empty().push(f@) =~= seq![f@]);
        }
    }
    if let Some(w) = m.windows {
        if let WindowsPlanResult::Feedback(f) = w.planned {
            assert(Seq::<Seq<char>>::empty().push(f@) =~= seq![f@]);
        }
    }
}

/// A failure is told to the user, with what went wrong in it, and the pass goes on behind it
/// as if the action had not been asked for.
pub proof fn law_failures_are_told(
    s: Option<SessionModel>,
    pass: PassModel,
    phase: PhaseModel,
    error: String,
)
    requires
        phase is Matching || phase is Falling,
    ensures
        ({
            let turn = after_outcome(s, pass, phase, Err(error));
            &&& turn.told.len() > 0
            &&& error@.is_suffix_of(turn.told[0])
            &&& !(phase matches PhaseModel::Matching { facts, index, .. } && facts.matches@[index as int].skill_match.skill_id@ == "switch_polish_scene"@) ==> turn.told[0] == error@
        }),
{
    match phase {
        PhaseModel::Matching { clause, facts, index, consumed, key, end } => {
            let kind = kind_of(facts.matches@[index as int].skill_match.skill_id@);
            let said = seq![failure_text(kind, error@)];
            let t = skill_engine::completed(s, pass.session_id, key, true);
            lemma_matching_told(t, pass, clause, facts, index + 1, consumed, said);
            let turn = after_outcome(s, pass, phase, Err(error));
            assert(said =~= turn.told.take(said.len() as int));
            assert(turn.told[0] == said[0]);
            lemma_skill_ids();
            let head = "配置更新失败: "@;
            assert((head + error@).skip(head.len() as int) =~= error@);
            assert(error@.skip(0) =~= error@);
        },
        PhaseModel::Falling { clause, facts, stage, key, end } => {
            let t = skill_engine::completed(s, pass.session_id, key, true);
            lemma_falling_told(t, pass, clause, facts, next_stage(stage), seq![error@]);
            assert(error@.skip(0) =~= error@);
        },
        _ => {},
    }
}

proof fn lemma_matching_told(
    s: Option<SessionModel>,
    pass: PassModel,
    clause: ClauseModel,
    facts: ClauseFacts,
    index: nat,
    consumed: nat,
    told: Seq<Seq<char>>,
)
    ensures
        told.is_prefix_of(go_matching(s, pass, clause, facts, index, consumed, told).told),
    decreases facts.matches@.len() - index,
{
    assert(told =~= told.take(told.len() as int));
    if index < facts.matches@.len() {
        let (t, decision) = match_decision(
            s,
            pass.session_id,
            pass.is_final,
            facts.matches@[index as int],
            local_end(clause, facts, index as int),
        );
        match decision {
            Decision::Skip => lemma_matching_told(
                t,
                pass,
                clause,
                facts,
                index + 1,
                consumed,
                told,
            ),
            Decision::Tell(m) => {
                lemma_matching_told(t, pass, clause, facts, index + 1, consumed, told.push(m));
                let out = go_matching(s, pass, clause, facts, index, consumed, told).told;
                assert(told =~= out.take(told.len() as int)) by {
                    assert(told.push(m) =~= out.take(told.len() + 1 as int));
                    assert(told.push(m).take(told.len() as int) =~= told);
                }
            },
            _ => {},
        }
    }
}

proof fn lemma_falling_told(
    s: Option<SessionModel>,
    pass: PassModel,
    clause: ClauseModel,
    facts: ClauseFacts,
    stage: Stage,
    told: Seq<Seq<char>>,
)
    ensures
        go_falling(s, pass, clause, facts, stage, told).told == told,
    decreases stages_left(stage),
{
    if stage != Stage::Exhausted {
        let (t, decision) = stage_decision(
            s,
            pass.session_id,
            pass.is_final,
            facts,
            clause,
            stage,
        );
        match decision {
            Decision::Stop => {},
            Decision::Run { .. } => {},
            _ => lemma_falling_told(t, pass, clause, facts, next_stage(stage), told),
        }
    }
}

/// A pass begins with the first clause that has not been worked off, in the words in which it
/// was said.
pub proof fn law_the_next_clause_is_examined(
    s: Option<SessionModel>,
    pass: PassModel,
    rest: Seq<char>,
    offset: nat,
)
    requires
        !text::is_blank(pass.text),
        skill_engine::remaining_text(s, pass.session_id, pass.text) == Some((rest, offset)),
        !text::is_blank(skill_engine::first_clause(rest)),
    ensures
        ({
            let turn = at_start(s, pass);
            &&& turn.phase matches PhaseModel::Examining { clause }
            &&& clause.text == text::trim(skill_engine::first_clause(rest))
            &&& clause.offset == offset
            &&& clause.offset + clause.consumed_end <= text::byte_len(pass.text)
            &&& clause.consumed_end > 0
            &&& clause.is_last <==> skill_engine::first_clause_end(rest) == rest.len()
            &&& turn.told.len() == 0
        }),
{
    lemma_clause_end(s, pass.session_id, pass.text);
    text::lemma_trim_blank(skill_engine::first_clause(rest));
    let end = skill_engine::first_clause_end(rest);
    text::lemma_byte_len_bounds(rest.take(end));
}

/// Where nothing is left to work off, a pass asks for nothing.
pub proof fn law_nothing_left_asks_for_nothing(s: Option<SessionModel>, pass: PassModel)
    requires
        skill_engine::remaining_text(s, pass.session_id, pass.text) is None,
    ensures
        at_start(s, pass).phase is Finished,
        at_start(s, pass).told.len() == 0,
{
}

/// What has been worked off of a transcript stays so while the next clause is looked for.
proof fn lemma_next_clause_goes_on(s: Option<SessionModel>, id: u64, transcript: Seq<char>)
    requires
        skill_engine::is_current(s, id),
        s->0.consumed.is_prefix_of(transcript),
    ensures
        ({
            let t = next_clause(s, id, transcript).0;
            &&& skill_engine::is_current(t, id)
            &&& s->0.consumed.is_prefix_of(t->0.consumed)
        }),
    decreases left_over(s, id, transcript),
{
    let consumed = s->0.consumed;
    let p = skill_engine::prepared(s, id, transcript);
    assert(transcript.take(consumed.len() as int) =~= consumed);
    text::lemma_common_len_is(consumed, transcript, consumed.len());
    assert(consumed.take(consumed.len() as int) =~= consumed);
    assert(p->0.consumed == consumed);
    if let Some((rest, offset)) = skill_engine::remaining_text(s, id, transcript) {
        let clause = clause_of(rest, offset);
        if clause.text.len() == 0 {
            lemma_clause_end(s, id, transcript);
            lemma_skip_shortens(s, id, transcript);
            let at = skill_engine::remaining_start(consumed, transcript)
                + skill_engine::first_clause_end(rest);
            text::lemma_leading(
                transcript.skip(consumed.len() as int),
                text::CharClass::TranscriptLead,
            );
            assert(consumed.len() <= at <= transcript.len());
            skill_engine::law_advance_is_remembered(p, id, transcript, at);
            let t = skill_engine::advanced(p, id, transcript, offset + clause.consumed_end);
            assert(t->0.consumed == transcript.take(at));
            assert(transcript.take(at).is_prefix_of(transcript)) by {
                assert(transcript.subrange(0, at) =~= transcript.take(at));
            }
            lemma_next_clause_goes_on(t, id, transcript);
            let last = next_clause(t, id, transcript).0->0.consumed;
            assert(last.take(at) =~= transcript.take(at));
            assert(last.take(consumed.len() as int) =~= consumed) by {
                assert(last.take(at).take(consumed.len() as int) =~= last.take(
                    consumed.len() as int,
                ));
                assert(transcript.take(at).take(consumed.len() as int) =~= consumed);
            }
            assert(last.subrange(0, consumed.len() as int) =~= consumed);
        } else {
            assert(consumed.subrange(0, consumed.len() as int) =~= consumed);
        }
    } else {
        assert(consumed.subrange(0, consumed.len() as int) =~= consumed);
    }
}

/// What was carried out is worked off: once the last action of a clause has succeeded, the
/// transcript counts as consumed up to the end of what the action used, and nothing is told.
pub proof fn law_what_was_carried_out_is_worked_off(
    s: Option<SessionModel>,
    pass: PassModel,
    phase: PhaseModel,
    i: int,
)
    requires
        skill_engine::is_current(s, pass.session_id),
        0 <= i <= pass.text.len(),
        match phase {
            PhaseModel::Matching { clause, facts, index, consumed, key, end } => {
                &&& index + 1 == facts.matches@.len()
                &&& consumed <= end
                &&& 0 < end <= clause.consumed_end
                &&& clause.offset + end == text::byte_len(pass.text.take(i))
            },
            PhaseModel::Falling { clause, facts, stage, key, end } => clause.offset + end
                == text::byte_len(pass.text.take(i)),
            _ => false,
        },
    ensures
        ({
            let turn = after_outcome(s, pass, phase, Ok(()));
            &&& skill_engine::is_current(turn.session, pass.session_id)
            &&& pass.text.take(i).is_prefix_of(turn.session->0.consumed)
            &&& turn.told.len() == 0
            &&& turn.phase is Examining || turn.phase is Finished
        }),
{
    let id = pass.session_id;
    let done = pass.text.take(i);
    let key = match phase {
        PhaseModel::Matching { key, .. } => key,
        PhaseModel::Falling { key, .. } => key,
        _ => seq![],
    };
    let t = skill_engine::completed(s, id, key, true);
    skill_engine::law_advance_is_remembered(t, id, pass.text, i);
    let a = skill_engine::advanced(t, id, pass.text, text::byte_len(done));
    assert(done.is_prefix_of(pass.text)) by {
        assert(pass.text.subrange(0, i) =~= done);
    }
    lemma_next_clause_goes_on(a, id, pass.text);
    lemma_next_clause_goes_on(skill_engine::cleared(a, id), id, pass.text);
}

/// The words that belong to a keyword end where the next keyword begins, and those of the last
/// one with the clause.
pub proof fn law_words_belong_to_the_keyword_before_them(
    clause: ClauseModel,
    facts: ClauseFacts,
    i: int,
)
    requires
        0 <= i < facts.matches@.len(),
    ensures
        i + 1 < facts.matches@.len() ==> local_end(clause, facts, i)
            == facts.matches@[i + 1].skill_match.start,
        i + 1 == facts.matches@.len() ==> local_end(clause, facts, i) == text::byte_len(
            clause.text,
        ),
{
}

/// A target that is known is opened where it is named without a keyword: the name is what is
/// said behind the verb, and the clause is used up.
pub proof fn law_a_target_that_is_named_is_opened(
    s: Option<SessionModel>,
    pass: PassModel,
    clause: ClauseModel,
    facts: ClauseFacts,
    name: Seq<char>,
    action: SkillAction,
)
    requires
        facts.matches@.len() == 0,
        facts.windows is Some,
        facts.direct_target_known,
        clause.text == "打开"@ + name,
        name.len() > 0,
        !text::in_class(text::CharClass::ClauseEdge, name[0]),
        !text::in_class(text::CharClass::ClauseEdge, name.last()),
        forall|w: int|
            0 <= w < skill_engine::page_words().len()
                ==> !(#[trigger] skill_engine::page_words()[w]).is_suffix_of(name),
        skill_engine::is_current(s, pass.session_id),
        !s->0.executed.contains("windows:open_target:"@ + text::lowercase(text::trim(name))),
        !s->0.pending.contains("windows:open_target:"@ + text::lowercase(text::trim(name))),
    ensures
        ({
            let turn = after_facts(s, pass, clause, facts);
            &&& turn.phase matches PhaseModel::Falling { key, end, .. }
            &&& key == "windows:open_target:"@ + text::lowercase(text::trim(name))
            &&& end == clause.consumed_end
            &&& turn.told.len() == 0
            &&& is_awaited(turn.phase, action) ==> (action matches SkillAction::RunWindows { plan }
                && plan.action matches WindowsAction::OpenTarget { query } && query@ == name)
        }),
{
    skill_engine::law_the_verb_is_no_part_of_the_name(name);
}

} // verus!
