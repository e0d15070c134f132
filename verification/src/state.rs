//! Shared state of the voice pipeline: dictation states, the skill execution
//! session, and feedback records.
use vstd::hash_set::StringHashSet;
use vstd::prelude::*;

use crate::storage::AppConfig;
use crate::text;

verus! {

/// Two clicks closer together than this belong to one double click.
pub const DOUBLE_CLICK_WINDOW_MS: u64 = 280;

/// What a recording is for.
#[derive(Clone, Copy, Debug, PartialEq, Eq, Structural)]
pub enum DictationIntent {
    Raw,
    Polish,
    Skill,
    Agent,
    Unset,
}

impl DictationIntent {
    pub open spec fn event_name(self) -> Seq<char> {
        match self {
            DictationIntent::Raw => "raw"@,
            DictationIntent::Polish => "polish"@,
            DictationIntent::Skill => "skill"@,
            DictationIntent::Agent => "agent"@,
            DictationIntent::Unset => "none"@,
        }
    }

    /// The name under which the intent is announced.
    pub fn as_event(self) -> (r: &'static str)
        ensures
            r@ == self.event_name(),
    {
        match self {
            DictationIntent::Raw => "raw",
            DictationIntent::Polish => "polish",
            DictationIntent::Skill => "skill",
            DictationIntent::Agent => "agent",
            DictationIntent::Unset => "none",
        }
    }
}

/// A stopped recording that waits for its transcript and for the double-click
/// window to close.
pub struct PendingFinalizeState {
    pub session_id: u64,
    pub intent: DictationIntent,
    pub window_elapsed: bool,
    pub asr_result: Option<Result<String, String>>,
}

/// Where the dictation loop stands. Times are milliseconds on one monotonic
/// clock.
pub enum DictationState {
    Idle,
    Recording { intent: DictationIntent, started_at: u64 },
    PendingFinalize(PendingFinalizeState),
}

/// One press-and-speak skill session.
pub struct SkillExecutionSession {
    pub id: u64,
    /// Keys of the actions that have run.
    pub executed: StringHashSet,
    /// Keys of the actions that are running.
    pub pending: StringHashSet,
    /// The part of the transcript that has been acted upon.
    pub consumed_prefix: String,
    /// The open action that the previous transcript update asked for.
    pub last_streaming_browser_open_action: Option<String>,
}

impl SkillExecutionSession {
    pub fn new(id: u64) -> (r: Self)
        ensures
            r.id == id,
            r.executed@ == Set::<Seq<char>>::empty(),
            r.pending@ == Set::<Seq<char>>::empty(),
            r.consumed_prefix@ == Seq::<char>::empty(),
            r.last_streaming_browser_open_action is None,
    {
        SkillExecutionSession {
            id,
            executed: StringHashSet::new(),
            pending: StringHashSet::new(),
            consumed_prefix: String::new(),
            last_streaming_browser_open_action: None,
        }
    }
}

/// The current skill session, if there is one.
pub type SkillExecutionState = Option<SkillExecutionSession>;

/// Whether speech recognition can be used.
pub struct AsrStatus {
    pub configured: bool,
}

/// A message for the user about a spoken command.
pub struct VoiceCommandFeedback {
    pub level: String,
    pub message: String,
}

/// What a spoken configuration command leads to.
pub enum ConfigSkillPlan {
    Save { config: Box<AppConfig>, feedback: VoiceCommandFeedback },
    Feedback(VoiceCommandFeedback),
}

/// One character of a preview: line breaks and tabs become spaces.
pub open spec fn preview_char(c: char) -> char {
    if c == '\n' || c == '\r' || c == '\t' {
        ' '
    } else {
        c
    }
}

/// The single-line preview of `s` with at most `max` characters.
pub open spec fn preview(s: Seq<char>, max: nat) -> Seq<char> {
    let head = if s.len() <= max {
        s
    } else {
        s.take(max as int)
    };
    head.map_values(|c: char| preview_char(c))
}

/// Keep logs readable: single-line preview with a hard cap.
pub fn preview_text(s: &str, max_chars: usize) -> (r: String)
    ensures
        r@ == preview(s@, max_chars as nat),
{
    let v = text::chars_of(s);
    let mut out = String::new();
    let mut i: usize = 0;
    while i < v.len() && i < max_chars
        invariant
            v@ == s@,
            i <= v@.len(),
            i <= max_chars,
            out@ == s@.take(i as int).map_values(|c: char| preview_char(c)),
        decreases v@.len() - i,
    {
        let c = v[i];
        let ghost before = s@.take(i as int);
        if c == '\n' || c == '\r' || c == '\t' {
            out.push(' ');
        } else {
            out.push(c);
        }
        i += 1;
        assert(s@.take(i as int) =~= before.push(c));
        assert(out@ =~= s@.take(i as int).map_values(|c: char| preview_char(c)));
    }
    assert(s@.take(s@.len() as int) =~= s@);
    out
}

/// A preview is on one line, it shows no more than was asked for and no less where there is
/// more, and character by character it shows what stands there.
pub proof fn law_a_preview_shows_the_beginning(s: Seq<char>, max: nat, i: int)
    requires
        0 <= i < s.len(),
        i < max,
    ensures
        preview(s, max).len() <= max,
        preview(s, max).len() <= s.len(),
        i < preview(s, max).len(),
        s[i] != '\n' && s[i] != '\r' && s[i] != '\t' ==> preview(s, max)[i] == s[i],
        s[i] == '\n' || s[i] == '\r' || s[i] == '\t' ==> preview(s, max)[i] == ' ',
        !preview(s, max).contains('\n'),
        !preview(s, max).contains('\r'),
{
}

/// No two intents are announced under the same name.
pub proof fn law_intents_are_told_apart(a: DictationIntent, b: DictationIntent)
    requires
        a.event_name() == b.event_name(),
    ensures
        a == b,
{
    reveal_strlit("raw");
    reveal_strlit("polish");
    reveal_strlit("skill");
    reveal_strlit("agent");
    reveal_strlit("none");
    assert("raw"@.len() == 3);
    assert("polish"@.len() == 6);
    assert("skill"@.len() == 5);
    assert("agent"@.len() == 5);
    assert("none"@.len() == 4);
    assert("skill"@[0] == 's');
    assert("agent"@[0] == 'a');
}

} // verus!
