//! The dictation loop: from clicks and transcripts to recordings and output.
//!
//! The loop takes turns with the application. It is handed an event, together with
//! what can only be known at that moment, and names what is to be done; where that
//! can fail, the application reports how it went.
use vstd::prelude::*;

use crate::state::{
    DictationIntent, DictationState, PendingFinalizeState, DOUBLE_CLICK_WINDOW_MS,
};
use crate::text;

verus! {

/// What is known at the moment of an event.
#[derive(Clone, Copy)]
pub struct Moment {
    /// A dictation or an agent task is still being processed.
    pub processing: bool,
    /// What was being processed has been cancelled on account of this very event.
    pub cancelled: bool,
    /// Every dictation is polished.
    pub forced_polish: bool,
    /// The skill trigger runs the agent.
    pub agent_mode: bool,
    /// Milliseconds on a monotonic clock.
    pub now: u64,
}

/// What the application is to do next.
pub enum DictationAction {
    Ignore,
    /// Cancel what is being processed, wait a moment, and hand in the event again.
    CancelPending,
    /// Start a recording and report with `recording_begun`.
    BeginRecording { intent: DictationIntent, skill_mode: bool },
    /// Announce the intent.
    Announce(DictationIntent),
    /// Processing has begun. Stop the recording, open the double-click window, ask for
    /// the transcript, and report with `recording_stopped`.
    StopRecording { session_id: u64, intent: DictationIntent },
    /// Stop the recording and hand its transcript to the agent.
    StopAgent,
    /// Stop the recording and carry out the skills in its transcript.
    StopSkill,
}

/// What becomes of a finished dictation.
pub enum Finalize {
    /// Process the transcript, polished or not.
    Dispatch { text: String, polish: bool },
    /// Report the error; processing has ended.
    Fail { error: String },
}

/// What the arrival of a transcript leads to.
pub struct AsrTurn {
    /// The text to show.
    pub stream_update: Option<String>,
    /// Recognition has ended.
    pub recognition_done: bool,
    pub finalize: Option<Finalize>,
}

/// The intent with which a recording starts.
pub open spec fn starting_intent(forced_polish: bool) -> DictationIntent {
    if forced_polish {
        DictationIntent::Polish
    } else {
        DictationIntent::Raw
    }
}

/// The second click comes soon enough after the first.
pub open spec fn is_double_click(started_at: u64, now: u64) -> bool {
    now - started_at <= DOUBLE_CLICK_WINDOW_MS
}

/// The state and the action that a click leads to. `next_session` is the number of
/// the next recording to be stopped.
pub open spec fn after_click(state: DictationState, next_session: u64, m: Moment) -> (
    DictationState,
    DictationAction,
) {
    match state {
        DictationState::Idle => if m.processing {
            if m.cancelled {
                (state, DictationAction::Ignore)
            } else {
                (state, DictationAction::CancelPending)
            }
        } else {
            (
                state,
                DictationAction::BeginRecording {
                    intent: starting_intent(m.forced_polish),
                    skill_mode: false,
                },
            )
        },
        DictationState::Recording { intent, started_at } => if is_double_click(started_at, m.now) {
            if !m.forced_polish && intent == DictationIntent::Raw {
                (
                    DictationState::Recording { intent: DictationIntent::Polish, started_at },
                    DictationAction::Announce(DictationIntent::Polish),
                )
            } else {
                (state, DictationAction::Ignore)
            }
        } else if m.processing {
            (state, DictationAction::Ignore)
        } else {
            (
                state,
                DictationAction::StopRecording {
                    session_id: next_session,
                    intent: if m.forced_polish {
                        DictationIntent::Polish
                    } else {
                        intent
                    },
                },
            )
        },
        DictationState::PendingFinalize(pending) => if !pending.window_elapsed && !m.forced_polish
            && pending.intent == DictationIntent::Raw {
            (
                DictationState::PendingFinalize(
                    PendingFinalizeState { intent: DictationIntent::Polish, ..pending },
                ),
                DictationAction::Announce(DictationIntent::Polish),
            )
        } else {
            (state, DictationAction::Ignore)
        },
    }
}

/// The action that pressing the skill trigger leads to.
pub open spec fn after_start_skill(state: DictationState, m: Moment) -> DictationAction {
    if !(state is Idle) {
        DictationAction::Ignore
    } else if m.processing {
        if m.cancelled {
            DictationAction::Ignore
        } else {
            DictationAction::CancelPending
        }
    } else {
        DictationAction::BeginRecording {
            intent: if m.agent_mode {
                DictationIntent::Agent
            } else {
                DictationIntent::Skill
            },
            skill_mode: true,
        }
    }
}

/// The state and the action that letting go of the skill trigger leads to.
pub open spec fn after_stop_skill(state: DictationState) -> (DictationState, DictationAction) {
    match state {
        DictationState::Recording { intent, .. } => (
            DictationState::Idle,
            if intent == DictationIntent::Agent {
                DictationAction::StopAgent
            } else {
                DictationAction::StopSkill
            },
        ),
        _ => (state, DictationAction::Ignore),
    }
}

/// What a pending dictation is finished with, once its window has closed and its
/// transcript is there.
pub open spec fn finalized(p: PendingFinalizeState) -> Option<Finalize> {
    match p.asr_result {
        Some(result) => if p.window_elapsed {
            match result {
                Ok(text) => Some(
                    Finalize::Dispatch { text, polish: p.intent == DictationIntent::Polish },
                ),
                Err(error) => Some(Finalize::Fail { error }),
            }
        } else {
            None
        },
        None => None,
    }
}

/// The state after a pending dictation has had its chance to finish.
pub open spec fn settled(p: PendingFinalizeState) -> DictationState {
    if finalized(p) is Some {
        DictationState::Idle
    } else {
        DictationState::PendingFinalize(p)
    }
}

/// The state and the finished dictation that the closing of the window after the
/// recording `session_id` leads to.
pub open spec fn after_window(state: DictationState, session_id: u64) -> (
    DictationState,
    Option<Finalize>,
) {
    match state {
        DictationState::PendingFinalize(p) => if p.session_id == session_id {
            let q = PendingFinalizeState { window_elapsed: true, ..p };
            (settled(q), finalized(q))
        } else {
            (state, None)
        },
        _ => (state, None),
    }
}

/// The recording `session_id` waits for its transcript.
pub open spec fn awaits(state: DictationState, session_id: u64) -> bool {
    match state {
        DictationState::PendingFinalize(p) => p.session_id == session_id,
        _ => false,
    }
}

/// The state and the finished dictation that the transcript of the recording
/// `session_id` leads to.
pub open spec fn after_asr(
    state: DictationState,
    session_id: u64,
    result: Result<String, String>,
) -> (DictationState, Option<Finalize>) {
    match state {
        DictationState::PendingFinalize(p) => if p.session_id == session_id {
            let q = PendingFinalizeState { asr_result: Some(result), ..p };
            (settled(q), finalized(q))
        } else {
            (state, None)
        },
        _ => (state, None),
    }
}

/// Finishes the pending dictation, if its window has closed and its transcript is
/// there.
pub fn maybe_finalize_pending_dictation(pending: &mut PendingFinalizeState) -> (r: Option<Finalize>)
    ensures
        r == finalized(*old(pending)),
        r is None ==> *final(pending) == *old(pending),
        r is Some ==> *final(pending) == (PendingFinalizeState {
            asr_result: None,
            ..*old(pending)
        }),
{
    if !pending.window_elapsed {
        return None;
    }
    match pending.asr_result.take() {
        None => None,
        Some(Ok(text)) => Some(
            Finalize::Dispatch { text, polish: pending.intent == DictationIntent::Polish },
        ),
        Some(Err(error)) => Some(Finalize::Fail { error }),
    }
}

/// The dictation loop.
pub struct Dictation {
    pub state: DictationState,
    /// The number of the next recording to be stopped.
    pub next_session: u64,
}

pub open spec fn successor(n: u64) -> u64 {
    if n == u64::MAX {
        0
    } else {
        (n + 1) as u64
    }
}

impl Dictation {
    pub fn new() -> (r: Self)
        ensures
            r.state is Idle,
            r.next_session == 1,
    {
        Dictation { state: DictationState::Idle, next_session: 1 }
    }

    /// The dictation trigger was clicked.
    pub fn click(&mut self, m: Moment) -> (r: DictationAction)
        ensures
            (final(self).state, r) == after_click(old(self).state, old(self).next_session, m),
            final(self).next_session == (if r is StopRecording {
                successor(old(self).next_session)
            } else {
                old(self).next_session
            }),
    {
        match &mut self.state {
            DictationState::Idle => {
                if m.processing {
                    return if m.cancelled {
                        DictationAction::Ignore
                    } else {
                        DictationAction::CancelPending
                    };
                }
                let intent = if m.forced_polish {
                    DictationIntent::Polish
                } else {
                    DictationIntent::Raw
                };
                DictationAction::BeginRecording { intent, skill_mode: false }
            },
            DictationState::Recording { intent, started_at } => {
                let elapsed: u64 = if m.now >= *started_at {
                    m.now - *started_at
                } else {
                    0
                };
                if elapsed <= DOUBLE_CLICK_WINDOW_MS {
                    if !m.forced_polish && *intent == DictationIntent::Raw {
                        *intent = DictationIntent::Polish;
                        return DictationAction::Announce(DictationIntent::Polish);
                    }
                    return DictationAction::Ignore;
                }
                if m.processing {
                    return DictationAction::Ignore;
                }
                let final_intent = if m.forced_polish {
                    DictationIntent::Polish
                } else {
                    *intent
                };
                let session_id: u64 = self.next_session;
                self.next_session = if session_id == u64::MAX {
                    0
                } else {
                    session_id + 1
                };
                DictationAction::StopRecording { session_id, intent: final_intent }
            },
            DictationState::PendingFinalize(pending) => {
                if !pending.window_elapsed && !m.forced_polish && pending.intent
                    == DictationIntent::Raw {
                    pending.intent = DictationIntent::Polish;
                    return DictationAction::Announce(DictationIntent::Polish);
                }
                DictationAction::Ignore
            },
        }
    }

    /// The skill trigger went down.
    pub fn start_skill(&self, m: Moment) -> (r: DictationAction)
        ensures
            r == after_start_skill(self.state, m),
    {
        match &self.state {
            DictationState::Idle => {
                if m.processing {
                    return if m.cancelled {
                        DictationAction::Ignore
                    } else {
                        DictationAction::CancelPending
                    };
                }
                let intent = if m.agent_mode {
                    DictationIntent::Agent
                } else {
                    DictationIntent::Skill
                };
                DictationAction::BeginRecording { intent, skill_mode: true }
            },
            _ => DictationAction::Ignore,
        }
    }

    /// The skill trigger was let go.
    pub fn stop_skill(&mut self) -> (r: DictationAction)
        ensures
            (final(self).state, r) == after_stop_skill(old(self).state),
            final(self).next_session == old(self).next_session,
    {
        let intent = match &self.state {
            DictationState::Recording { intent, .. } => *intent,
            _ => return DictationAction::Ignore,
        };
        self.state = DictationState::Idle;
        if intent == DictationIntent::Agent {
            DictationAction::StopAgent
        } else {
            DictationAction::StopSkill
        }
    }

    /// A recording was asked for; `ok` says whether it runs.
    pub fn recording_begun(&mut self, intent: DictationIntent, ok: bool, now: u64)
        ensures
            final(self).state == (if ok {
                DictationState::Recording { intent, started_at: now }
            } else {
                old(self).state
            }),
            final(self).next_session == old(self).next_session,
    {
        if ok {
            self.state = DictationState::Recording { intent, started_at: now };
        }
    }

    /// A recording was to be stopped; `ok` says whether its transcript is under way.
    /// Where it is not, processing has ended.
    pub fn recording_stopped(&mut self, session_id: u64, intent: DictationIntent, ok: bool)
        ensures
            final(self).state == (if ok {
                DictationState::PendingFinalize(
                    PendingFinalizeState {
                        session_id,
                        intent,
                        window_elapsed: false,
                        asr_result: None,
                    },
                )
            } else {
                DictationState::Idle
            }),
            final(self).next_session == old(self).next_session,
    {
        self.state = if ok {
            DictationState::PendingFinalize(
                PendingFinalizeState {
                    session_id,
                    intent,
                    window_elapsed: false,
                    asr_result: None,
                },
            )
        } else {
            DictationState::Idle
        };
    }

    /// The double-click window after the recording `session_id` has closed.
    pub fn window_elapsed(&mut self, session_id: u64) -> (r: Option<Finalize>)
        ensures
            final(self).next_session == old(self).next_session,
            (final(self).state, r) == after_window(old(self).state, session_id),
    {
        let finalize = match &mut self.state {
            DictationState::PendingFinalize(pending) => {
                if pending.session_id != session_id {
                    None
                } else {
                    pending.window_elapsed = true;
                    maybe_finalize_pending_dictation(pending)
                }
            },
            _ => None,
        };
        if finalize.is_some() {
            self.state = DictationState::Idle;
        }
        finalize
    }

    /// The transcript of the recording `session_id` has come in.
    pub fn asr_finished(&mut self, session_id: u64, result: Result<String, String>) -> (r: AsrTurn)
        ensures
            final(self).next_session == old(self).next_session,
            (final(self).state, r.finalize) == after_asr(old(self).state, session_id, result),
            r.recognition_done == awaits(old(self).state, session_id),
            r.stream_update == (match result {
                Ok(text) => if awaits(old(self).state, session_id) {
                    Some(text)
                } else {
                    None
                },
                Err(_) => None,
            }),
    {
        let mut stream_update: Option<String> = None;
        let mut recognition_done = false;
        let finalize = match &mut self.state {
            DictationState::PendingFinalize(pending) => {
                if pending.session_id != session_id {
                    None
                } else {
                    if let Ok(text) = &result {
                        stream_update = Some(text.clone());
                    }
                    recognition_done = true;
                    pending.asr_result = Some(result);
                    maybe_finalize_pending_dictation(pending)
                }
            },
            _ => None,
        };
        if finalize.is_some() {
            self.state = DictationState::Idle;
        }
        AsrTurn { stream_update, recognition_done, finalize }
    }
}

// ---------------------------------------------------------------------------
// Laws of the loop
// ---------------------------------------------------------------------------

/// It makes no difference whether the transcript arrives before the double-click
/// window closes or after: the dictation is finished with the second of the two,
/// and in the same way.
pub proof fn law_window_and_transcript_commute(
    p: PendingFinalizeState,
    result: Result<String, String>,
)
    requires
        !p.window_elapsed,
        p.asr_result is None,
    ensures
        ({
            let start = DictationState::PendingFinalize(p);
            let (window, none1) = after_window(start, p.session_id);
            let (first, done1) = after_asr(window, p.session_id, result);
            let (asr, none2) = after_asr(start, p.session_id, result);
            let (second, done2) = after_window(asr, p.session_id);
            &&& none1 is None
            &&& none2 is None
            &&& first is Idle
            &&& second is Idle
            &&& done1 is Some
            &&& done1 == done2
        }),
{
}

/// A finished dictation leaves the loop idle, and nothing that arrives for it later
/// has any effect: it is finished once.
pub proof fn law_dictation_is_finished_once(
    state: DictationState,
    session_id: u64,
    result: Result<String, String>,
    late: Result<String, String>,
)
    ensures
        after_window(state, session_id).1 is Some ==> {
            let s = after_window(state, session_id).0;
            s is Idle && after_window(s, session_id) == (s, None::<Finalize>) && after_asr(
                s,
                session_id,
                late,
            ) == (s, None::<Finalize>)
        },
        after_asr(state, session_id, result).1 is Some ==> {
            let s = after_asr(state, session_id, result).0;
            s is Idle && after_window(s, session_id) == (s, None::<Finalize>) && after_asr(
                s,
                session_id,
                late,
            ) == (s, None::<Finalize>)
        },
{
}

/// What is being recorded or waits to be finished is dictation to be polished.
pub open spec fn is_polish(state: DictationState) -> bool {
    match state {
        DictationState::Idle => false,
        DictationState::Recording { intent, .. } => intent == DictationIntent::Polish,
        DictationState::PendingFinalize(p) => p.intent == DictationIntent::Polish,
    }
}

/// A dictation of one click at each end is not polished, unless every dictation is.
pub proof fn law_plain_clicks_do_not_polish(
    started_at: u64,
    next_session: u64,
    m: Moment,
    text: String,
)
    requires
        !m.forced_polish,
        !m.processing,
        !is_double_click(started_at, m.now),
    ensures
        ({
            let started = after_click(DictationState::Idle, next_session, m).1;
            let recording = DictationState::Recording {
                intent: DictationIntent::Raw,
                started_at,
            };
            let stopped = after_click(recording, next_session, m).1;
            let pending = PendingFinalizeState {
                session_id: next_session,
                intent: DictationIntent::Raw,
                window_elapsed: true,
                asr_result: Some(Ok(text)),
            };
            &&& started == DictationAction::BeginRecording {
                intent: DictationIntent::Raw,
                skill_mode: false,
            }
            &&& stopped == DictationAction::StopRecording {
                session_id: next_session,
                intent: DictationIntent::Raw,
            }
            &&& finalized(pending) == Some(Finalize::Dispatch { text, polish: false })
        }),
{
}

/// A click never takes polishing back, and a second click within the window asks
/// for it.
pub proof fn law_clicks_only_add_polish(state: DictationState, next_session: u64, m: Moment)
    ensures
        is_polish(state) ==> is_polish(after_click(state, next_session, m).0),
        is_polish(state) ==> match after_click(state, next_session, m).1 {
            DictationAction::StopRecording { intent, .. } => intent == DictationIntent::Polish,
            _ => true,
        },
        match state {
            DictationState::Recording { intent, started_at } => intent == DictationIntent::Raw
                && is_double_click(started_at, m.now) && !m.forced_polish ==> is_polish(
                after_click(state, next_session, m).0,
            ),
            _ => true,
        },
{
}

/// What is being recorded is meant for the agent.
pub open spec fn is_for_agent(state: DictationState) -> bool {
    state matches DictationState::Recording { intent, .. } && intent == DictationIntent::Agent
}

/// A transcript goes to the agent only where the recording was begun for it, which only the
/// skill trigger does, and only in agent mode.
pub proof fn law_agent_hears_only_in_agent_mode(
    state: DictationState,
    next_session: u64,
    m: Moment,
)
    ensures
        match after_start_skill(state, m) {
            DictationAction::BeginRecording { intent, .. } => intent == DictationIntent::Agent
                ==> m.agent_mode,
            _ => true,
        },
        match after_click(state, next_session, m).1 {
            DictationAction::BeginRecording { intent, .. } => intent != DictationIntent::Agent,
            _ => true,
        },
        is_for_agent(after_click(state, next_session, m).0) ==> is_for_agent(state),
        after_stop_skill(state).1 is StopAgent ==> is_for_agent(state),
{
}

/// A second click within the double-click window asks for polishing, and the dictation is
/// polished in the end; the time at which the recording began stays as it is. Later clicks
/// stop the recording.
pub proof fn law_a_second_click_asks_for_polishing(
    started_at: u64,
    next_session: u64,
    m: Moment,
    later: Moment,
    text: String,
)
    requires
        !m.forced_polish,
        !later.forced_polish,
        !later.processing,
        m.now <= started_at + 280,
        later.now > started_at + 280,
    ensures
        ({
            let raw = DictationState::Recording { intent: DictationIntent::Raw, started_at };
            let (state, told) = after_click(raw, next_session, m);
            let (kept, stop) = after_click(state, next_session, later);
            &&& told == DictationAction::Announce(DictationIntent::Polish)
            &&& state matches DictationState::Recording { intent, started_at: at }
            &&& intent == DictationIntent::Polish && at == started_at
            &&& kept == state
            &&& stop matches DictationAction::StopRecording { session_id, intent: last }
            &&& session_id == next_session
            &&& finalized(
                PendingFinalizeState {
                    session_id,
                    intent: last,
                    window_elapsed: true,
                    asr_result: Some(Ok(text)),
                },
            ) == Some(Finalize::Dispatch { text, polish: true })
        }),
{
}

/// A click after the recording was stopped still asks for polishing, until the window closes;
/// from then on it changes nothing.
pub proof fn law_polishing_can_be_asked_for_until_the_window_closes(
    p: PendingFinalizeState,
    next_session: u64,
    m: Moment,
)
    requires
        !m.forced_polish,
        p.intent == DictationIntent::Raw,
    ensures
        ({
            let (state, told) = after_click(
                DictationState::PendingFinalize(p),
                next_session,
                m,
            );
            if p.window_elapsed {
                told is Ignore && state == DictationState::PendingFinalize(p)
            } else {
                &&& told == DictationAction::Announce(DictationIntent::Polish)
                &&& is_polish(state)
                &&& state matches DictationState::PendingFinalize(q)
                &&& q.session_id == p.session_id && q.asr_result == p.asr_result
                &&& !q.window_elapsed
            }
        }),
{
}

/// What was recognised is what is put out, and what went wrong is what is told; neither comes
/// before the window has closed, and neither comes for another recording.
pub proof fn law_the_transcript_is_put_out(
    p: PendingFinalizeState,
    session_id: u64,
    result: Result<String, String>,
)
    requires
        p.asr_result is None,
    ensures
        ({
            let state = DictationState::PendingFinalize(p);
            let (next, done) = after_asr(state, session_id, result);
            if session_id != p.session_id {
                done is None && next == state
            } else if !p.window_elapsed {
                done is None && awaits(next, session_id)
            } else {
                match result {
                    Ok(text) => done == Some(
                        Finalize::Dispatch { text, polish: is_polish(state) },
                    ),
                    Err(error) => done == Some(Finalize::Fail { error }),
                }
            }
        }),
        ({
            let state = DictationState::PendingFinalize(p);
            after_window(state, session_id).1 is None
        }),
{
}

/// Where every dictation is polished, a recording begins and ends as one to be polished.
pub proof fn law_forced_polishing_holds_throughout(
    intent: DictationIntent,
    started_at: u64,
    next_session: u64,
    m: Moment,
)
    requires
        m.forced_polish,
        !m.processing,
        m.now > started_at + 280,
    ensures
        after_click(DictationState::Idle, next_session, m).1 == (DictationAction::BeginRecording {
            intent: DictationIntent::Polish,
            skill_mode: false,
        }),
        after_click(DictationState::Recording { intent, started_at }, next_session, m).1 == (
        DictationAction::StopRecording {
            session_id: next_session,
            intent: DictationIntent::Polish,
        }),
{
}

/// While something is being processed, no recording begins: a trigger cancels it, once.
pub proof fn law_a_trigger_cancels_what_is_processed(next_session: u64, m: Moment)
    requires
        m.processing,
    ensures
        after_click(DictationState::Idle, next_session, m).0 is Idle,
        after_click(DictationState::Idle, next_session, m).1 is CancelPending <==> !m.cancelled,
        after_click(DictationState::Idle, next_session, m).1 is Ignore <==> m.cancelled,
        after_start_skill(DictationState::Idle, m) is CancelPending <==> !m.cancelled,
        after_start_skill(DictationState::Idle, m) is Ignore <==> m.cancelled,
{
}

/// What is said while the skill trigger is down goes to the agent in agent mode and to the
/// skills otherwise.
pub proof fn law_the_skill_trigger_records_for_agent_or_skills(m: Moment, started_at: u64)
    requires
        !m.processing,
    ensures
        ({
            let begun = after_start_skill(DictationState::Idle, m);
            &&& begun matches DictationAction::BeginRecording { intent, skill_mode }
            &&& skill_mode
            &&& after_stop_skill(DictationState::Recording { intent, started_at }) == (
                DictationState::Idle,
                if m.agent_mode {
                    DictationAction::StopAgent
                } else {
                    DictationAction::StopSkill
                },
            )
        }),
        after_stop_skill(DictationState::Idle).1 is Ignore,
{
}

} // verus!
