//! What goes on around a recording: the reports, the end of a skill recording, and the
//! steps by which text gets into and out of other programs.
use vstd::prelude::*;

use crate::keyboard::Key;
use crate::skill_engine;
use crate::state::{DictationIntent, SkillExecutionState};
use crate::text;

verus! {

/// A report to the user interface.
#[derive(Clone, Copy, Debug, PartialEq, Eq, Structural)]
pub enum Report {
    /// A recording is going on, or not any more.
    RecordingStatus(bool),
    /// What the recording is for.
    Intent(DictationIntent),
    /// The indicator is to be shown.
    ShowIndicator,
    /// A transcript is being waited for, or not any more.
    RecognitionProcessing(bool),
    SessionComplete,
}

/// The reports when a recording has begun.
pub fn begun_reports(intent: DictationIntent) -> (r: Vec<Report>)
    ensures
        r@ == seq![Report::RecordingStatus(true), Report::Intent(intent), Report::ShowIndicator],
{
    let mut out: Vec<Report> = Vec::new();
    out.push(Report::RecordingStatus(true));
    out.push(Report::Intent(intent));
    out.push(Report::ShowIndicator);
    out
}

/// The reports when the recognition of a recording that has begun could not be started. The
/// recording is then stopped.
pub fn not_recognised_reports() -> (r: Vec<Report>)
    ensures
        r@ == seq![
            Report::RecordingStatus(false),
            Report::Intent(DictationIntent::Unset),
            Report::SessionComplete,
        ],
{
    let mut out: Vec<Report> = Vec::new();
    out.push(Report::RecordingStatus(false));
    out.push(Report::Intent(DictationIntent::Unset));
    out.push(Report::SessionComplete);
    out
}

/// The reports when a transcript could not be had.
pub fn failed_transcript_reports() -> (r: Vec<Report>)
    ensures
        r@ == seq![
            Report::RecognitionProcessing(false),
            Report::Intent(DictationIntent::Unset),
            Report::SessionComplete,
        ],
{
    let mut out: Vec<Report> = Vec::new();
    out.push(Report::RecognitionProcessing(false));
    out.push(Report::Intent(DictationIntent::Unset));
    out.push(Report::SessionComplete);
    out
}

// ---------------------------------------------------------------------------
// The end of a skill recording
// ---------------------------------------------------------------------------

/// What follows when a skill recording stops.
#[derive(Clone, Copy, Debug, PartialEq, Eq, Structural)]
pub enum SkillStop {
    /// There is nothing to be done.
    Nothing,
    /// The transcript is to be waited for, in this session.
    Wait(u64),
}

/// A skill recording stops. Without a recognition under way the session ends at once.
pub fn stop_skill_recording(state: &mut SkillExecutionState, is_recognising: bool) -> (r: SkillStop)
    ensures
        match *old(state) {
            Some(s) => if is_recognising {
                r == SkillStop::Wait(s.id) && *final(state) == *old(state)
            } else {
                r == SkillStop::Nothing && *final(state) is None
            },
            None => r == SkillStop::Nothing && *final(state) is None,
        },
{
    match skill_engine::current_skill_execution_session_id(state) {
        Some(id) => {
            if is_recognising {
                SkillStop::Wait(id)
            } else {
                skill_engine::finish_skill_execution_session(state, id);
                SkillStop::Nothing
            }
        },
        None => SkillStop::Nothing,
    }
}

/// Whether an update of a transcript is acted upon while it is being spoken.
pub fn acts_on_update(text: &str) -> (r: bool)
    ensures
        r == !text::is_blank(text@),
{
    !text::is_blank_str(text)
}

// ---------------------------------------------------------------------------
// The clipboard
// ---------------------------------------------------------------------------

/// A step by which text gets into or out of another program.
#[derive(Clone, Copy, Debug, PartialEq, Eq, Structural)]
pub enum ClipboardStep {
    SleepMs(u64),
    /// Remember what is in the clipboard.
    Remember,
    /// Put the text that is to be put out into the clipboard.
    SetText,
    /// Empty the clipboard.
    Clear,
    Press(Key),
    Click(Key),
    Release(Key),
    /// Take the text out of the clipboard.
    Take,
    /// Put what was remembered back, if it was text.
    Restore,
}

/// The steps by which text is put out to the program that has the focus.
pub open spec fn putting_out() -> Seq<ClipboardStep> {
    seq![
        ClipboardStep::SleepMs(80),
        ClipboardStep::Remember,
        ClipboardStep::SetText,
        ClipboardStep::SleepMs(10),
        ClipboardStep::Press(Key::Control),
        ClipboardStep::SleepMs(5),
        ClipboardStep::Click(Key::Unicode('v')),
        ClipboardStep::SleepMs(5),
        ClipboardStep::Release(Key::Control),
        ClipboardStep::SleepMs(100),
        ClipboardStep::Restore,
    ]
}

/// The steps that put text out.
pub fn output_steps() -> (r: Vec<ClipboardStep>)
    ensures
        r@ == putting_out(),
{
    let mut out: Vec<ClipboardStep> = Vec::new();
    out.push(ClipboardStep::SleepMs(80));
    out.push(ClipboardStep::Remember);
    out.push(ClipboardStep::SetText);
    out.push(ClipboardStep::SleepMs(10));
    out.push(ClipboardStep::Press(Key::Control));
    out.push(ClipboardStep::SleepMs(5));
    out.push(ClipboardStep::Click(Key::Unicode('v')));
    out.push(ClipboardStep::SleepMs(5));
    out.push(ClipboardStep::Release(Key::Control));
    out.push(ClipboardStep::SleepMs(100));
    out.push(ClipboardStep::Restore);
    out
}

/// The steps by which the selected text is taken from the program that has the focus.
pub open spec fn taking_the_selection() -> Seq<ClipboardStep> {
    seq![
        ClipboardStep::Remember,
        ClipboardStep::Clear,
        ClipboardStep::SleepMs(10),
        ClipboardStep::Press(Key::Control),
        ClipboardStep::SleepMs(5),
        ClipboardStep::Click(Key::Unicode('c')),
        ClipboardStep::SleepMs(5),
        ClipboardStep::Release(Key::Control),
        ClipboardStep::SleepMs(50),
        ClipboardStep::Take,
    ]
}

/// The steps that take the selected text.
pub fn selection_steps() -> (r: Vec<ClipboardStep>)
    ensures
        r@ == taking_the_selection(),
{
    let mut out: Vec<ClipboardStep> = Vec::new();
    out.push(ClipboardStep::Remember);
    out.push(ClipboardStep::Clear);
    out.push(ClipboardStep::SleepMs(10));
    out.push(ClipboardStep::Press(Key::Control));
    out.push(ClipboardStep::SleepMs(5));
    out.push(ClipboardStep::Click(Key::Unicode('c')));
    out.push(ClipboardStep::SleepMs(5));
    out.push(ClipboardStep::Release(Key::Control));
    out.push(ClipboardStep::SleepMs(50));
    out.push(ClipboardStep::Take);
    out
}

/// The steps after the selected text was taken, by what was in the clipboard before.
pub fn selection_cleanup(original: &str) -> (r: Vec<ClipboardStep>)
    ensures
        r@ == if original@.len() > 0 {
            seq![ClipboardStep::SleepMs(10), ClipboardStep::Restore]
        } else {
            seq![ClipboardStep::Clear]
        },
{
    let mut out: Vec<ClipboardStep> = Vec::new();
    if original.is_empty() {
        out.push(ClipboardStep::Clear);
    } else {
        out.push(ClipboardStep::SleepMs(10));
        out.push(ClipboardStep::Restore);
    }
    out
}

/// The selected text, from what was taken out of the clipboard.
pub fn selected_text(taken: Option<String>) -> (r: String)
    ensures
        r@ == (match taken {
            Some(t) => text::trim(t@),
            None => Seq::<char>::empty(),
        }),
{
    match taken {
        Some(t) => text::trim_str(t.as_str()).to_string(),
        None => String::new(),
    }
}

/// Step `a` is taken, and step `b` after it.
pub open spec fn comes_before(steps: Seq<ClipboardStep>, a: ClipboardStep, b: ClipboardStep) -> bool {
    exists|i: int, j: int|
        #![trigger steps[i], steps[j]]
        0 <= i < j < steps.len() && steps[i] == a && steps[j] == b
}

/// What was in the clipboard is remembered before the text takes its place, the text is pasted
/// after it was put there, and what was there is put back in the end. A key that goes down
/// comes up.
pub proof fn law_text_is_pasted_and_the_clipboard_put_back()
    ensures
        comes_before(putting_out(), ClipboardStep::Remember, ClipboardStep::SetText),
        comes_before(
            putting_out(),
            ClipboardStep::SetText,
            ClipboardStep::Click(Key::Unicode('v')),
        ),
        comes_before(
            putting_out(),
            ClipboardStep::Press(Key::Control),
            ClipboardStep::Click(Key::Unicode('v')),
        ),
        comes_before(
            putting_out(),
            ClipboardStep::Click(Key::Unicode('v')),
            ClipboardStep::Release(Key::Control),
        ),
        putting_out().last() == ClipboardStep::Restore,
{
    let s = putting_out();
    assert(s[1] == ClipboardStep::Remember && s[2] == ClipboardStep::SetText);
    assert(s[4] == ClipboardStep::Press(Key::Control));
    assert(s[6] == ClipboardStep::Click(Key::Unicode('v')));
    assert(s[8] == ClipboardStep::Release(Key::Control));
}

/// What was in the clipboard is remembered before it is emptied, and the selection is taken
/// from it after it was copied there.
pub proof fn law_the_selection_is_copied_and_taken()
    ensures
        comes_before(taking_the_selection(), ClipboardStep::Remember, ClipboardStep::Clear),
        comes_before(
            taking_the_selection(),
            ClipboardStep::Clear,
            ClipboardStep::Click(Key::Unicode('c')),
        ),
        comes_before(
            taking_the_selection(),
            ClipboardStep::Press(Key::Control),
            ClipboardStep::Click(Key::Unicode('c')),
        ),
        comes_before(
            taking_the_selection(),
            ClipboardStep::Click(Key::Unicode('c')),
            ClipboardStep::Release(Key::Control),
        ),
        taking_the_selection().last() == ClipboardStep::Take,
{
    let s = taking_the_selection();
    assert(s[0] == ClipboardStep::Remember && s[1] == ClipboardStep::Clear);
    assert(s[3] == ClipboardStep::Press(Key::Control));
    assert(s[5] == ClipboardStep::Click(Key::Unicode('c')));
    assert(s[7] == ClipboardStep::Release(Key::Control));
}

} // verus!
