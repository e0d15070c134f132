//! Meetings, as the user interface asks for them.
use vstd::prelude::*;

use crate::meeting::session::{ActiveMeeting, MeetingFinalizedEvent, MeetingStatusEvent};
use crate::storage::{
    HistoryItem, MeetingAudioSource, MeetingModel, MeetingRecord, MeetingStatus, MeetingSummary,
    StorageOp, StorageService, SummaryModel,
};
use crate::text;

verus! {

/// The meeting that is going on, if there is one.
pub type MeetingState = Option<ActiveMeeting>;

/// What is told about the meeting that is going on.
pub struct MeetingActiveInfo {
    pub session_id: String,
    pub started_at: String,
    pub asr_provider: String,
    pub include_system_audio: bool,
}

/// The state in which there is no meeting.
pub fn init_meeting_state() -> (r: MeetingState)
    ensures
        r is None,
{
    None
}

/// `info` tells about `m`.
pub open spec fn tells_about(info: MeetingActiveInfo, m: ActiveMeeting) -> bool {
    &&& info.session_id@ == m.id@
    &&& info.started_at@ == m.started_at_iso@
    &&& info.asr_provider@ == m.asr_provider_name@
    &&& info.include_system_audio == (m.audio_source != MeetingAudioSource::MicOnly)
}

fn active_info(m: &ActiveMeeting) -> (r: MeetingActiveInfo)
    ensures
        tells_about(r, *m),
{
    MeetingActiveInfo {
        session_id: m.id.clone(),
        started_at: m.started_at_iso.clone(),
        asr_provider: m.asr_provider_name.clone(),
        include_system_audio: match m.audio_source {
            MeetingAudioSource::MicOnly => false,
            _ => true,
        },
    }
}

/// Whether a meeting can begin: not while one is going on.
pub fn may_start(state: &MeetingState) -> (r: Result<(), String>)
    ensures
        match r {
            Ok(_) => state is None,
            Err(m) => state is Some && m@ == "a meeting is already in progress"@,
        },
{
    if state.is_some() {
        Err("a meeting is already in progress".to_string())
    } else {
        Ok(())
    }
}

/// Takes what beginning a meeting came to. A meeting that began is the one that goes on.
pub fn meeting_started(
    state: &mut MeetingState,
    outcome: Result<ActiveMeeting, String>,
) -> (r: Result<MeetingActiveInfo, String>)
    requires
        *old(state) is None,
    ensures
        match outcome {
            Ok(m) => *final(state) == Some(m) && (r matches Ok(info) && tells_about(info, m)),
            Err(e) => *final(state) is None && (r matches Err(t) && t@ == "start meeting failed: "@
                + e@),
        },
{
    match outcome {
        Ok(m) => {
            let info = active_info(&m);
            *state = Some(m);
            Ok(info)
        },
        Err(e) => Err(text::concat2("start meeting failed: ", e.as_str())),
    }
}

/// Ends the meeting that is going on: it is handed out, with the report.
pub fn stop_meeting(state: &mut MeetingState) -> (r: Result<
    (ActiveMeeting, MeetingStatusEvent),
    String,
>)
    ensures
        *final(state) is None,
        match *old(state) {
            Some(m) => r matches Ok(v) && v.0 == m && v.1.state@ == "finalizing"@
                && text::opt_text(v.1.session_id) == Some(m.id@),
            None => r matches Err(e) && e@ == "no meeting in progress"@,
        },
{
    match state.take() {
        Some(m) => {
            let event = MeetingStatusEvent {
                state: "finalizing".to_string(),
                session_id: Some(m.id.clone()),
            };
            Ok((m, event))
        },
        None => Err("no meeting in progress".to_string()),
    }
}

/// Saves the record of a meeting that has ended, and gives the reports.
pub fn meeting_stopped(store: &mut StorageService, record: &MeetingRecord) -> (r: (
    MeetingStatusEvent,
    MeetingFinalizedEvent,
))
    ensures
        saved(*old(store), *final(store), record@),
        r.0.state@ == "idle"@,
        r.0.session_id is None,
        r.1.id@ == record.id@,
{
    save(store, record);
    (
        MeetingStatusEvent { state: "idle".to_string(), session_id: None },
        MeetingFinalizedEvent { id: record.id.clone() },
    )
}

pub fn get_active_meeting(state: &MeetingState) -> (r: Option<MeetingActiveInfo>)
    ensures
        match *state {
            Some(m) => r matches Some(info) && tells_about(info, m),
            None => r is None,
        },
{
    match state {
        Some(m) => Some(active_info(m)),
        None => None,
    }
}

/// One change more is to be written: the record `record`.
pub open spec fn saved(before: StorageService, after: StorageService, record: MeetingModel) -> bool {
    &&& after.queue@.len() == before.queue@.len() + 1
    &&& after.queue@.drop_last() == before.queue@
    &&& after.queue@.last() matches StorageOp::SaveMeeting(r) && r@ == record
    &&& after == StorageService { queue: after.queue, ..before }
}

fn save(store: &mut StorageService, record: &MeetingRecord)
    ensures
        saved(*old(store), *final(store), record@),
{
    store.save_meeting(record.clone());
    assert(store.queue@.drop_last() =~= old(store).queue@);
}

// ---------------------------------------------------------------------------
// Correction and summary
// ---------------------------------------------------------------------------

/// The report on the correction and summary of a meeting.
pub struct MeetingLlmProgressEvent {
    pub id: String,
    pub stage: String,
    pub error: Option<String>,
}

/// What a report holds.
#[verifier::ext_equal]
pub struct ProgressModel {
    pub id: Seq<char>,
    pub stage: Seq<char>,
    pub error: Option<Seq<char>>,
}

impl View for MeetingLlmProgressEvent {
    type V = ProgressModel;

    open spec fn view(&self) -> ProgressModel {
        ProgressModel { id: self.id@, stage: self.stage@, error: text::opt_text(self.error) }
    }
}

/// The report that a stage has been reached.
pub open spec fn reached(id: Seq<char>, stage: Seq<char>) -> ProgressModel {
    ProgressModel { id, stage, error: None }
}

/// The report that the work failed.
pub open spec fn failed(id: Seq<char>, error: Seq<char>) -> ProgressModel {
    ProgressModel { id, stage: "failed"@, error: Some(error) }
}

fn progress(id: &str, stage: &str) -> (r: MeetingLlmProgressEvent)
    ensures
        r@ == reached(id@, stage@),
{
    MeetingLlmProgressEvent { id: id.to_string(), stage: stage.to_string(), error: None }
}

/// The date of a time: what stands before its first `T`.
pub open spec fn short_date(iso: Seq<char>) -> Seq<char>
    decreases iso.len(),
{
    if iso.len() == 0 || iso[0] == 'T' {
        seq![]
    } else {
        seq![iso[0]] + short_date(iso.drop_first())
    }
}

pub fn format_short_date(iso: &str) -> (r: String)
    ensures
        r@ == short_date(iso@),
{
    let v = text::chars_of(iso);
    let mut i: usize = 0;
    assert(iso@.skip(0) =~= iso@);
    assert(iso@.take(0) + short_date(iso@) =~= short_date(iso@));
    while i < v.len() && v[i] != 'T'
        invariant
            v@ == iso@,
            i <= v@.len(),
            short_date(iso@) == iso@.take(i as int) + short_date(iso@.skip(i as int)),
        decreases v@.len() - i,
    {
        proof {
            let rest = iso@.skip(i as int);
            assert(rest[0] == v@[i as int]);
            assert(rest.drop_first() =~= iso@.skip(i + 1));
            assert(iso@.take(i + 1) =~= iso@.take(i as int) + seq![rest[0]]);
            assert(iso@.take(i as int) + (seq![rest[0]] + short_date(iso@.skip(i + 1))) =~= (
            iso@.take(i as int) + seq![rest[0]]) + short_date(iso@.skip(i + 1)));
        }
        i = i + 1;
    }
    proof {
        let rest = iso@.skip(i as int);
        if i < v@.len() {
            assert(rest[0] == 'T');
        }
        assert(short_date(rest) =~= seq![]);
        assert(iso@.take(i as int) + seq![] =~= iso@.take(i as int));
        assert(v@.subrange(0, i as int) =~= iso@.take(i as int));
    }
    text::collect_chars(&v, 0, i)
}

/// How the list of dictations shows a meeting with this start and this summary.
pub open spec fn history_label(started_at: Seq<char>, title: Seq<char>) -> Seq<char> {
    "[会议] "@ + short_date(started_at) + " — "@ + if text::is_blank(title) {
        "未命名会议"@
    } else {
        title
    }
}

/// The record of a meeting that is being worked on.
pub open spec fn finalizing(m: MeetingModel) -> MeetingModel {
    MeetingModel { status: MeetingStatus::Finalizing, last_error: None, ..m }
}

/// The record after its text was corrected.
pub open spec fn corrected_record(m: MeetingModel, text: Seq<char>) -> MeetingModel {
    MeetingModel { corrected_text: Some(text), status: MeetingStatus::Corrected, ..m }
}

/// The record after a step failed. What was done before is kept.
pub open spec fn failed_record(m: MeetingModel, error: Seq<char>) -> MeetingModel {
    MeetingModel { status: MeetingStatus::Failed, last_error: Some(error), ..m }
}

/// The record after it was summed up.
pub open spec fn summarized(m: MeetingModel, summary: SummaryModel) -> MeetingModel {
    MeetingModel {
        summary: Some(summary),
        status: MeetingStatus::Summarized,
        last_error: None,
        ..m
    }
}

/// A failure: the report, and the message.
pub struct PolishFailure {
    pub event: MeetingLlmProgressEvent,
    pub message: String,
}

/// The correction and summary of a meeting by a language model, step by step.
pub struct PolishMeeting {
    pub id: String,
    pub record: MeetingRecord,
}

impl PolishMeeting {
    /// Begins with the record of the meeting, if it was found. Its text is then to be
    /// corrected.
    pub fn start(id: &str, found: Option<MeetingRecord>, store: &mut StorageService) -> (r: Result<
        (Self, MeetingLlmProgressEvent),
        String,
    >)
        ensures
            match found {
                None => (r matches Err(m) && m@ == "meeting "@ + id@ + " not found"@)
                    && *final(store) == *old(store),
                Some(record) => if text::is_blank(record.raw_text@) {
                    (r matches Err(m) && m@ == "meeting has no transcript to polish"@)
                        && *final(store) == *old(store)
                } else {
                    &&& r matches Ok(v)
                    &&& v.0.id@ == id@
                    &&& v.0.record@ == finalizing(record@)
                    &&& v.1@ == reached(id@, "correcting"@)
                    &&& saved(*old(store), *final(store), finalizing(record@))
                },
            },
    {
        match found {
            None => Err(text::concat3("meeting ", id, " not found")),
            Some(record) => {
                if text::is_blank_str(record.raw_text.as_str()) {
                    return Err("meeting has no transcript to polish".to_string());
                }
                let mut record = record;
                record.status = MeetingStatus::Finalizing;
                record.last_error = None;
                save(store, &record);
                let event = progress(id, "correcting");
                Ok((PolishMeeting { id: id.to_string(), record }, event))
            },
        }
    }

    /// Takes what the correction came to. A corrected text is then to be summed up.
    pub fn corrected(
        &mut self,
        outcome: Result<String, String>,
        store: &mut StorageService,
    ) -> (r: Result<(MeetingLlmProgressEvent, MeetingLlmProgressEvent), PolishFailure>)
        ensures
            final(self).id == old(self).id,
            saved(*old(store), *final(store), final(self).record@),
            match outcome {
                Ok(t) => {
                    &&& final(self).record@ == corrected_record(old(self).record@, t@)
                    &&& r matches Ok(v) && v.0@ == reached(old(self).id@, "correction_done"@)
                        && v.1@ == reached(old(self).id@, "summarising"@)
                },
                Err(e) => {
                    let m = "correction failed: "@ + e@;
                    &&& final(self).record@ == failed_record(old(self).record@, m)
                    &&& r matches Err(f) && f.message@ == m && f.event@ == failed(old(self).id@, m)
                },
            },
    {
        match outcome {
            Ok(t) => {
                self.record.corrected_text = Some(t);
                self.record.status = MeetingStatus::Corrected;
                save(store, &self.record);
                Ok(
                    (
                        progress(self.id.as_str(), "correction_done"),
                        progress(self.id.as_str(), "summarising"),
                    ),
                )
            },
            Err(e) => Err(self.fail("correction failed: ", e.as_str(), store)),
        }
    }

    /// Takes what the summary came to. A meeting that was summed up is listed with the
    /// dictations.
    pub fn summarised(
        &mut self,
        outcome: Result<MeetingSummary, String>,
        store: &mut StorageService,
    ) -> (r: Result<MeetingLlmProgressEvent, PolishFailure>)
        ensures
            final(self).id == old(self).id,
            match outcome {
                Ok(s) => {
                    &&& final(self).record@ == summarized(old(self).record@, s@)
                    &&& r matches Ok(event) && event@ == reached(old(self).id@, "done"@)
                    &&& final(store).queue@.len() == old(store).queue@.len() + 2
                    &&& final(store).queue@.take(old(store).queue@.len() as int)
                        == old(store).queue@
                    &&& final(store).queue@[old(store).queue@.len() as int]
                        matches StorageOp::AddHistory(item) && item.id@ == "history-meeting-"@
                        + old(self).record.id@ && item.timestamp@ == old(self).record.started_at@
                        && item.text@ == history_label(old(self).record.started_at@, s.title@)
                        && item.duration_ms == old(self).record.duration_ms
                    &&& final(store).queue@.last() matches StorageOp::SaveMeeting(d) && d@
                        == final(self).record@
                    &&& *final(store) == (StorageService {
                        queue: final(store).queue,
                        ..*old(store)
                    })
                },
                Err(e) => {
                    let m = "summary failed: "@ + e@;
                    &&& final(self).record@ == failed_record(old(self).record@, m)
                    &&& saved(*old(store), *final(store), final(self).record@)
                    &&& r matches Err(f) && f.message@ == m && f.event@ == failed(old(self).id@, m)
                },
            },
    {
        match outcome {
            Ok(summary) => {
                let date = format_short_date(self.record.started_at.as_str());
                let head = text::concat3("[会议] ", date.as_str(), " — ");
                let title = if text::is_blank_str(summary.title.as_str()) {
                    "未命名会议".to_string()
                } else {
                    summary.title.clone()
                };
                let item = HistoryItem {
                    id: text::concat2("history-meeting-", self.record.id.as_str()),
                    timestamp: self.record.started_at.clone(),
                    text: text::concat2(head.as_str(), title.as_str()),
                    duration_ms: self.record.duration_ms,
                };
                store.add_history_item(item);
                let ghost with_item = store.queue@;
                self.record.summary = Some(summary);
                self.record.status = MeetingStatus::Summarized;
                self.record.last_error = None;
                save(store, &self.record);
                proof {
                    let n = old(store).queue@.len() as int;
                    assert(store.queue@.drop_last() == with_item);
                    assert(store.queue@.take(n) =~= old(store).queue@) by {
                        assert forall|i: int| 0 <= i < n implies store.queue@[i]
                            == old(store).queue@[i] by {
                            assert(store.queue@.drop_last()[i] == with_item[i]);
                        }
                    }
                    assert(store.queue@[n] == store.queue@.drop_last()[n]);
                }
                Ok(progress(self.id.as_str(), "done"))
            },
            Err(e) => Err(self.fail("summary failed: ", e.as_str(), store)),
        }
    }

    fn fail(&mut self, what: &str, cause: &str, store: &mut StorageService) -> (r: PolishFailure)
        ensures
            final(self).id == old(self).id,
            final(self).record@ == failed_record(old(self).record@, what@ + cause@),
            saved(*old(store), *final(store), final(self).record@),
            r.message@ == what@ + cause@,
            r.event@ == failed(old(self).id@, what@ + cause@),
    {
        let message = text::concat2(what, cause);
        self.record.status = MeetingStatus::Failed;
        self.record.last_error = Some(message.clone());
        save(store, &self.record);
        PolishFailure {
            event: MeetingLlmProgressEvent {
                id: self.id.clone(),
                stage: "failed".to_string(),
                error: Some(message.clone()),
            },
            message,
        }
    }
}

/// Whatever happens to a meeting while it is corrected and summed up, what was recognised
/// stays; and a failed summary leaves the corrected text.
pub proof fn law_polishing_keeps_the_transcript(
    m: MeetingModel,
    corrected: Seq<char>,
    summary: SummaryModel,
    error: Seq<char>,
)
    ensures
        ({
            let c = corrected_record(finalizing(m), corrected);
            &&& failed_record(finalizing(m), error).raw_text == m.raw_text
            &&& failed_record(finalizing(m), error).segments == m.segments
            &&& failed_record(c, error).raw_text == m.raw_text
            &&& failed_record(c, error).corrected_text == Some(corrected)
            &&& summarized(c, summary).raw_text == m.raw_text
            &&& summarized(c, summary).segments == m.segments
            &&& summarized(c, summary).corrected_text == Some(corrected)
            &&& summarized(c, summary).last_error is None
        }),
{
}

/// A record tells how far the work on it has come: it is being worked on, its text is
/// corrected, it is summed up, or the work failed and why. Which meeting it is of never
/// changes.
pub proof fn law_a_record_tells_how_far_it_has_come(
    m: MeetingModel,
    text: Seq<char>,
    summary: SummaryModel,
    error: Seq<char>,
)
    ensures
        finalizing(m).status is Finalizing && finalizing(m).last_error is None,
        corrected_record(m, text).status is Corrected,
        corrected_record(m, text).corrected_text == Some(text),
        failed_record(m, error).status is Failed,
        failed_record(m, error).last_error == Some(error),
        failed_record(m, error).summary == m.summary,
        summarized(m, summary).status is Summarized,
        summarized(m, summary).summary == Some(summary),
        finalizing(m).id == m.id && corrected_record(m, text).id == m.id,
        failed_record(m, error).id == m.id && summarized(m, summary).id == m.id,
        finalizing(m).started_at == m.started_at && summarized(m, summary).started_at
            == m.started_at,
        finalizing(m).ended_at == m.ended_at && summarized(m, summary).duration_ms
            == m.duration_ms,
{
}

/// The date is what stands before the first `T`, whole.
pub proof fn law_the_date_stands_before_the_time(date: Seq<char>, rest: Seq<char>)
    requires
        forall|i: int| 0 <= i < date.len() ==> #[trigger] date[i] != 'T',
    ensures
        short_date(date + seq!['T'] + rest) == date,
        short_date(date) == date,
    decreases date.len(),
{
    let all = date + seq!['T'] + rest;
    if date.len() == 0 {
        assert(all[0] == 'T');
    } else {
        let later = date.drop_first();
        assert forall|i: int| 0 <= i < later.len() implies #[trigger] later[i] != 'T' by {
            assert(later[i] == date[i + 1]);
        }
        law_the_date_stands_before_the_time(later, rest);
        assert(all.drop_first() =~= later + seq!['T'] + rest);
        assert(all[0] == date[0]);
        assert(seq![date[0]] + later =~= date);
    }
}

/// A meeting is shown with its date and its title.
pub proof fn law_a_meeting_is_shown_with_date_and_title(started_at: Seq<char>, title: Seq<char>)
    ensures
        text::contains(history_label(started_at, title), short_date(started_at)),
        !text::is_blank(title) ==> title.is_suffix_of(history_label(started_at, title)),
        "[会议] "@.is_prefix_of(history_label(started_at, title)),
{
    let label = history_label(started_at, title);
    let name = if text::is_blank(title) {
        "未命名会议"@
    } else {
        title
    };
    let date = short_date(started_at);
    text::lemma_contains_self(date);
    text::lemma_contains_within("[会议] "@, date, " — "@ + name, date);
    assert("[会议] "@ + date + (" — "@ + name) =~= label);
    assert(label.subrange(label.len() - name.len(), label.len() as int) =~= name);
    assert(label.subrange(0, "[会议] "@.len() as int) =~= "[会议] "@);
}

/// The reports are about the meeting that they name, and only a failure has an error.
pub proof fn law_reports_are_about_their_meeting(
    info: MeetingActiveInfo,
    m: ActiveMeeting,
    id: Seq<char>,
    stage: Seq<char>,
    error: Seq<char>,
)
    ensures
        tells_about(info, m) ==> info.session_id@ == m.id@ && info.started_at@
            == m.started_at_iso@ && info.asr_provider@ == m.asr_provider_name@,
        tells_about(info, m) ==> (info.include_system_audio <==> !(m.audio_source is MicOnly)),
        reached(id, stage).id == id && reached(id, stage).stage == stage,
        reached(id, stage).error is None,
        failed(id, error).id == id && failed(id, error).error == Some(error),
        failed(id, error).stage == "failed"@,
{
}

} // verus!
