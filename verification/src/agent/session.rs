//! Session logs: append-only files from which a conversation can be resumed.
//!
//! The first line of a log is its header; every other line is an entry. Entries are
//! linked: each one names the entry before it.
use vstd::prelude::*;

use crate::json::Json;
use crate::lists;
use crate::paths;
use crate::text;

use super::message;
use super::message::{AgentMessage, ContentModel, MessageModel, UserContent};

verus! {

/// The version of the file format.
pub const SESSION_FORMAT_VERSION: u32 = 1;

pub struct SessionHeader {
    pub version: u32,
    pub session_id: String,
    pub created_at: String,
    /// The working directory at creation.
    pub cwd: Option<String>,
    /// The session that this one branched off.
    pub parent_session: Option<String>,
}

pub enum SessionEntryKind {
    Message { message: AgentMessage },
    ThinkingLevelChange { level: String },
    ModelChange { provider: String, model: String },
    Compaction {
        summary: String,
        first_kept_id: Option<String>,
        tokens_before: Option<u64>,
        details: Option<Json>,
    },
    BranchSummary { from_id: String, summary: String },
    Custom { custom_type: String, data: Json },
}

pub struct SessionEntry {
    pub id: String,
    pub parent_id: Option<String>,
    pub timestamp: String,
    pub kind: SessionEntryKind,
}

pub open spec fn is_lower_hex(c: char) -> bool {
    '0' <= c <= '9' || 'a' <= c <= 'f'
}

/// The text of a random id: 32 hexadecimal digits with hyphens between the groups, of which
/// one digit tells that the id is random and another the layout of its bits.
pub open spec fn is_random_id(s: Seq<char>) -> bool {
    &&& s.len() == 36
    &&& s[8] == '-' && s[13] == '-' && s[18] == '-' && s[23] == '-'
    &&& s[14] == '4'
    &&& s[19] == '8' || s[19] == '9' || s[19] == 'a' || s[19] == 'b'
    &&& forall|i: int|
        0 <= i < 36 && i != 8 && i != 13 && i != 18 && i != 23 ==> is_lower_hex(#[trigger] s[i])
}

/// A moment as it is written in the logs: a date and a time of day with no offset from UTC.
pub open spec fn is_utc_time(s: Seq<char>) -> bool {
    &&& s.len() >= 25
    &&& s.skip(s.len() - 6) == seq!['+', '0', '0', ':', '0', '0']
    &&& s.contains('T')
}

/// `uuid::Uuid::new_v4` as text. Which id comes is left to chance; every one is written in
/// lower case with hyphens, and marked as a random id of the usual variant. A machine whose
/// source of chance fails makes the outside function panic.
#[verifier::external_body]
fn random_id() -> (r: String)
    ensures
        is_random_id(r@),
{
    uuid::Uuid::new_v4().to_string()
}

/// The id is one that was drawn at random.
pub closed spec fn is_drawn(id: Seq<char>) -> bool {
    exists|t: String| #[trigger] call_ensures(random_id, (), t) && t@ == id
}

/// `chrono::Utc::now` in the format of RFC 3339. Which moment comes depends on the clock;
/// every one ends with the offset of UTC. A clock that stands before 1970 makes the outside
/// function panic.
#[verifier::external_body]
fn current_time() -> (r: String)
    ensures
        is_utc_time(r@),
{
    chrono::Utc::now().to_rfc3339()
}

/// The moment is one that was read from the clock.
pub closed spec fn is_clock_time(moment: Seq<char>) -> bool {
    exists|t: String| #[trigger] call_ensures(current_time, (), t) && t@ == moment
}

impl SessionEntry {
    /// An entry under the given id and time.
    pub fn stamped(
        id: String,
        timestamp: String,
        parent_id: Option<String>,
        kind: SessionEntryKind,
    ) -> (r: Self)
        ensures
            r == (SessionEntry { id, parent_id, timestamp, kind }),
    {
        SessionEntry { id, parent_id, timestamp, kind }
    }

    /// An entry under a fresh id and the current time.
    pub fn new(parent_id: Option<String>, kind: SessionEntryKind) -> (r: Self)
        ensures
            is_drawn(r.id@),
            is_random_id(r.id@),
            is_clock_time(r.timestamp@),
            is_utc_time(r.timestamp@),
            r.parent_id == parent_id,
            r.kind == kind,
    {
        SessionEntry::stamped(random_id(), current_time(), parent_id, kind)
    }
}

/// The directory of the session logs.
pub open spec fn sessions_dir(data_dir: Seq<char>) -> Seq<char> {
    paths::joined_path(data_dir, "sessions"@)
}

/// The log of a session.
pub open spec fn session_file(data_dir: Seq<char>, session_id: Seq<char>) -> Seq<char> {
    paths::joined_path(sessions_dir(data_dir), session_id + ".jsonl"@)
}

fn session_path(data_dir: &str, session_id: &str) -> (r: String)
    ensures
        r@ == session_file(data_dir@, session_id@),
{
    let dir = paths::join(data_dir, "sessions");
    let name = text::concat2(session_id, ".jsonl");
    paths::join(dir.as_str(), name.as_str())
}

/// A line of a log after its header.
pub enum LogLine {
    Entry(SessionEntry),
    /// A blank line, or one that cannot be read.
    Other,
}

/// A log as it is read.
pub struct SessionLog {
    /// What the first line holds, unless it cannot be read.
    pub header: Option<SessionHeader>,
    /// The lines after the first.
    pub lines: Vec<LogLine>,
}

/// The first line of the text of a log, which holds its header, and those after it that may
/// hold entries.
pub fn split_log(content: &str) -> (r: (Option<String>, Vec<String>))
    ensures
        ({
            let all = text::lines_of(content@);
            if all.len() == 0 {
                r.0 is None && r.1@.len() == 0
            } else {
                &&& text::opt_text(r.0) == Some(all[0])
                &&& text::views(r.1@) == text::not_blank(all.skip(1))
            }
        }),
{
    let lines = text::lines(content);
    assert(text::views(lines@).len() == lines@.len());
    if lines.len() == 0 {
        return (None, Vec::new());
    }
    (Some(lines[0].clone()), text::filled_lines(&lines, 1))
}

/// An entry that is added to a log is read back as its last, and those before it stay as they
/// are.
pub proof fn law_added_entry_is_read_back(content: Seq<char>, line: Seq<char>)
    requires
        content.len() > 0,
        text::is_complete(content),
        text::is_line(line),
        !text::is_blank(line),
    ensures
        ({
            let before = text::lines_of(content);
            let after = text::lines_of(content + line + "\n"@);
            &&& before.len() > 0 && after.len() > 0 && after[0] == before[0]
            &&& text::not_blank(after.skip(1)) == text::not_blank(before.skip(1)).push(line)
            &&& text::is_complete(content + line + "\n"@)
        }),
{
    text::lemma_added_line(content, line);
    let before = text::lines_of(content);
    let after = before.push(line);
    assert(after.skip(1).drop_last() =~= before.skip(1));
    assert(after.skip(1).last() == line);
}

/// The id of the last entry.
pub open spec fn last_entry(lines: Seq<LogLine>) -> Option<Seq<char>>
    decreases lines.len(),
{
    if lines.len() == 0 {
        None
    } else {
        match lines.last() {
            LogLine::Entry(e) => Some(e.id@),
            LogLine::Other => last_entry(lines.drop_last()),
        }
    }
}

/// What a line adds to the conversation.
pub open spec fn line_message(line: LogLine) -> Seq<MessageModel> {
    match line {
        LogLine::Entry(e) => match e.kind {
            SessionEntryKind::Message { message } => seq![message@],
            _ => seq![],
        },
        LogLine::Other => seq![],
    }
}

/// The conversation that the lines hold.
pub open spec fn replayed(lines: Seq<LogLine>) -> Seq<MessageModel>
    decreases lines.len(),
{
    if lines.len() == 0 {
        seq![]
    } else {
        replayed(lines.drop_last()) + line_message(lines.last())
    }
}

/// Reads and extends a session log.
pub struct SessionStore {
    pub session_id: String,
    pub data_dir: String,
    /// The id of the last entry.
    pub last_entry_id: Option<String>,
}

impl SessionStore {
    /// A new session under the given id and time, and the header of its log.
    pub fn create_stamped(
        session_id: String,
        created_at: String,
        data_dir: &str,
        cwd: Option<String>,
        parent_session: Option<String>,
    ) -> (r: (Self, SessionHeader))
        ensures
            r.0.session_id == session_id,
            r.0.data_dir@ == data_dir@,
            r.0.last_entry_id is None,
            r.1.version == SESSION_FORMAT_VERSION,
            r.1.session_id@ == session_id@,
            r.1.created_at == created_at,
            r.1.cwd == cwd,
            r.1.parent_session == parent_session,
    {
        let header = SessionHeader {
            version: SESSION_FORMAT_VERSION,
            session_id: session_id.clone(),
            created_at,
            cwd,
            parent_session,
        };
        (
            SessionStore { session_id, data_dir: data_dir.to_string(), last_entry_id: None },
            header,
        )
    }

    /// A new session, and the header of its log.
    pub fn create(data_dir: &str, cwd: Option<String>, parent_session: Option<String>) -> (r: (
        Self,
        SessionHeader,
    ))
        ensures
            is_drawn(r.0.session_id@),
            is_random_id(r.0.session_id@),
            r.0.data_dir@ == data_dir@,
            r.0.last_entry_id is None,
            r.1.version == SESSION_FORMAT_VERSION,
            r.1.session_id@ == r.0.session_id@,
            is_clock_time(r.1.created_at@),
            is_utc_time(r.1.created_at@),
            r.1.cwd == cwd,
            r.1.parent_session == parent_session,
    {
        SessionStore::create_stamped(random_id(), current_time(), data_dir, cwd, parent_session)
    }

    /// An earlier session, with its log as it was read.
    pub fn open(data_dir: &str, session_id: &str, log: &SessionLog) -> (r: Self)
        ensures
            r.session_id@ == session_id@,
            r.data_dir@ == data_dir@,
            text::opt_text(r.last_entry_id) == last_entry(log.lines@),
    {
        let mut last: Option<String> = None;
        for i in 0..log.lines.len()
            invariant
                text::opt_text(last) == last_entry(log.lines@.take(i as int)),
        {
            assert(log.lines@.take(i + 1).drop_last() =~= log.lines@.take(i as int));
            match &log.lines[i] {
                LogLine::Entry(e) => {
                    last = Some(e.id.clone());
                },
                LogLine::Other => {},
            }
        }
        assert(log.lines@.take(log.lines@.len() as int) =~= log.lines@);
        SessionStore {
            session_id: session_id.to_string(),
            data_dir: data_dir.to_string(),
            last_entry_id: last,
        }
    }

    /// The file of the log.
    pub fn path(&self) -> (r: String)
        ensures
            r@ == session_file(self.data_dir@, self.session_id@),
    {
        session_path(self.data_dir.as_str(), self.session_id.as_str())
    }

    /// The next entry of the log; it names the last one.
    pub fn next_entry(&self, kind: SessionEntryKind) -> (r: SessionEntry)
        ensures
            is_drawn(r.id@),
            is_random_id(r.id@),
            is_clock_time(r.timestamp@),
            is_utc_time(r.timestamp@),
            text::opt_text(r.parent_id) == text::opt_text(self.last_entry_id),
            r.kind == kind,
    {
        SessionEntry::new(self.last_entry_id.clone(), kind)
    }

    /// The entry has been written to the log.
    pub fn append(&mut self, entry: &SessionEntry)
        ensures
            final(self).session_id == old(self).session_id,
            final(self).data_dir == old(self).data_dir,
            text::opt_text(final(self).last_entry_id) == Some(entry.id@),
    {
        self.last_entry_id = Some(entry.id.clone());
    }

    /// The conversation that the log of the session holds, in its order.
    pub fn replay_messages(&self, log: &SessionLog) -> (r: Vec<AgentMessage>)
        ensures
            message::message_views(r@) == replayed(log.lines@),
    {
        let mut out: Vec<AgentMessage> = Vec::new();
        assert(message::message_views(out@) =~= replayed(log.lines@.take(0)));
        for i in 0..log.lines.len()
            invariant
                message::message_views(out@) == replayed(log.lines@.take(i as int)),
        {
            let ghost before = message::message_views(out@);
            assert(log.lines@.take(i + 1).drop_last() =~= log.lines@.take(i as int));
            assert(log.lines@.take(i + 1).last() == log.lines@[i as int]);
            match &log.lines[i] {
                LogLine::Entry(e) => match &e.kind {
                    SessionEntryKind::Message { message } => {
                        let copy = message.clone();
                        out.push(copy);
                        assert(message::message_views(out@) =~= before + seq![message@]);
                    },
                    _ => {
                        assert(before + line_message(log.lines@[i as int]) =~= before);
                    },
                },
                LogLine::Other => {
                    assert(before + line_message(log.lines@[i as int]) =~= before);
                },
            }
        }
        assert(log.lines@.take(log.lines@.len() as int) =~= log.lines@);
        out
    }
}

/// What a log holds after an entry was appended: the conversation with the message of the
/// entry at its end, and the entry as the last one.
pub proof fn law_append_then_replay(lines: Seq<LogLine>, entry: SessionEntry)
    ensures
        replayed(lines.push(LogLine::Entry(entry))) == replayed(lines) + line_message(
            LogLine::Entry(entry),
        ),
        last_entry(lines.push(LogLine::Entry(entry))) == Some(entry.id@),
{
    assert(lines.push(LogLine::Entry(entry)).drop_last() =~= lines);
}

/// Lines that hold no entry change neither the conversation nor the last entry.
pub proof fn law_unreadable_lines_are_passed_over(lines: Seq<LogLine>)
    ensures
        replayed(lines.push(LogLine::Other)) == replayed(lines),
        last_entry(lines.push(LogLine::Other)) == last_entry(lines),
{
    assert(lines.push(LogLine::Other).drop_last() =~= lines);
    assert(replayed(lines) + line_message(LogLine::Other) =~= replayed(lines));
}

// ---------------------------------------------------------------------------
// The list of sessions
// ---------------------------------------------------------------------------

pub struct SessionSummary {
    pub session_id: String,
    pub created_at: String,
    pub entry_count: usize,
    pub last_user_text: Option<String>,
    pub last_assistant_text: Option<String>,
}

impl Clone for SessionSummary {
    fn clone(&self) -> (r: Self)
        ensures
            r == *self,
    {
        SessionSummary {
            session_id: self.session_id.clone(),
            created_at: self.created_at.clone(),
            entry_count: self.entry_count,
            last_user_text: self.last_user_text.clone(),
            last_assistant_text: self.last_assistant_text.clone(),
        }
    }
}

/// The number of entries.
pub open spec fn entry_count(lines: Seq<LogLine>) -> nat
    decreases lines.len(),
{
    if lines.len() == 0 {
        0
    } else {
        entry_count(lines.drop_last()) + (if lines.last() is Entry {
            1nat
        } else {
            0
        })
    }
}

/// The last text that the user said.
pub open spec fn last_user(ms: Seq<MessageModel>) -> Option<Seq<char>>
    decreases ms.len(),
{
    if ms.len() == 0 {
        None
    } else {
        match ms.last() {
            MessageModel::User { content: ContentModel::Text(t), .. } => Some(t),
            _ => last_user(ms.drop_last()),
        }
    }
}

/// The last text that the model said.
pub open spec fn last_assistant(ms: Seq<MessageModel>) -> Option<Seq<char>>
    decreases ms.len(),
{
    if ms.len() == 0 {
        None
    } else {
        match ms.last() {
            MessageModel::Assistant { content: Some(t), .. } => Some(t),
            _ => last_assistant(ms.drop_last()),
        }
    }
}

/// The summary of a log, unless its header cannot be read.
pub fn read_summary(log: &SessionLog) -> (r: Option<SessionSummary>)
    ensures
        r is Some <==> log.header is Some,
        r matches Some(s) ==> {
            &&& s.session_id == log.header->0.session_id
            &&& s.created_at == log.header->0.created_at
            &&& s.entry_count == entry_count(log.lines@)
            &&& text::opt_text(s.last_user_text) == last_user(replayed(log.lines@))
            &&& text::opt_text(s.last_assistant_text) == last_assistant(replayed(log.lines@))
        },
{
    let header = match &log.header {
        Some(h) => h,
        None => return None,
    };
    let mut count: usize = 0;
    let mut user: Option<String> = None;
    let mut assistant: Option<String> = None;
    for i in 0..log.lines.len()
        invariant
            count == entry_count(log.lines@.take(i as int)),
            count <= i,
            text::opt_text(user) == last_user(replayed(log.lines@.take(i as int))),
            text::opt_text(assistant) == last_assistant(replayed(log.lines@.take(i as int))),
    {
        let ghost before = replayed(log.lines@.take(i as int));
        let ghost after = replayed(log.lines@.take(i + 1));
        assert(log.lines@.take(i + 1).drop_last() =~= log.lines@.take(i as int));
        assert(log.lines@.take(i + 1).last() == log.lines@[i as int]);
        match &log.lines[i] {
            LogLine::Entry(e) => {
                count += 1;
                match &e.kind {
                    SessionEntryKind::Message { message } => {
                        assert(after =~= before.push(message@));
                        assert(after.drop_last() =~= before);
                        match message {
                            AgentMessage::User { content, .. } => match content {
                                UserContent::Text(t) => {
                                    user = Some(t.clone());
                                },
                                UserContent::Image { .. } => {},
                            },
                            AgentMessage::Assistant { content, .. } => match content {
                                Some(t) => {
                                    assistant = Some(t.clone());
                                },
                                None => {},
                            },
                            _ => {},
                        }
                    },
                    _ => {
                        assert(after =~= before);
                    },
                }
            },
            LogLine::Other => {
                assert(after =~= before);
            },
        }
    }
    assert(log.lines@.take(log.lines@.len() as int) =~= log.lines@);
    Some(
        SessionSummary {
            session_id: header.session_id.clone(),
            created_at: header.created_at.clone(),
            entry_count: count,
            last_user_text: user,
            last_assistant_text: assistant,
        },
    )
}

/// The times of creation.
pub open spec fn creation_keys(s: Seq<SessionSummary>) -> Seq<Seq<char>> {
    s.map_values(|x: SessionSummary| x.created_at@)
}

/// The summaries, the newest session first, and sessions of the same time in the order in
/// which they were found.
pub fn list_sessions(summaries: &Vec<SessionSummary>) -> (r: Vec<SessionSummary>)
    ensures
        exists|order: Seq<usize>|
            lists::is_descending(creation_keys(summaries@), order, summaries@.len() as int)
                && r@.len() == order.len() && forall|i: int|
                0 <= i < r@.len() ==> #[trigger] r@[i] == summaries@[order[i] as int],
{
    let mut keys: Vec<String> = Vec::new();
    for i in 0..summaries.len()
        invariant
            keys@.len() == i,
            forall|j: int| 0 <= j < i ==> (#[trigger] keys@[j])@ == summaries@[j].created_at@,
    {
        keys.push(summaries[i].created_at.clone());
    }
    assert(text::views(keys@) =~= creation_keys(summaries@));
    let order = lists::descending_order(&keys);
    let mut out: Vec<SessionSummary> = Vec::new();
    for i in 0..order.len()
        invariant
            lists::is_descending(creation_keys(summaries@), order@, summaries@.len() as int),
            out@.len() == i,
            forall|j: int| 0 <= j < i ==> #[trigger] out@[j] == summaries@[order@[j] as int],
    {
        out.push(summaries[order[i]].clone());
    }
    assert(lists::is_descending(creation_keys(summaries@), order@, summaries@.len() as int));
    out
}

proof fn lemma_replayed_add(a: Seq<LogLine>, b: Seq<LogLine>)
    ensures
        replayed(a + b) == replayed(a) + replayed(b),
    decreases b.len(),
{
    if b.len() == 0 {
        assert(a + b =~= a);
        assert(replayed(a) + replayed(b) =~= replayed(a));
    } else {
        lemma_replayed_add(a, b.drop_last());
        assert((a + b).drop_last() =~= a + b.drop_last());
        assert(replayed(a + b) =~= replayed(a) + replayed(b));
    }
}

/// A conversation is replayed in the order of its log. An entry that holds a message adds just
/// that message; a line that holds none adds nothing.
pub proof fn law_the_conversation_is_replayed_in_order(
    a: Seq<LogLine>,
    line: LogLine,
    b: Seq<LogLine>,
)
    ensures
        ({
            let all = replayed(a + seq![line] + b);
            match line {
                LogLine::Entry(e) => match e.kind {
                    SessionEntryKind::Message { message } => all == replayed(a).push(message@)
                        + replayed(b),
                    _ => all == replayed(a) + replayed(b),
                },
                LogLine::Other => all == replayed(a) + replayed(b),
            }
        }),
        replayed(Seq::<LogLine>::empty()).len() == 0,
{
    lemma_replayed_add(a, seq![line]);
    lemma_replayed_add(a + seq![line], b);
    let one = seq![line];
    assert(one.drop_last() =~= Seq::<LogLine>::empty());
    assert(replayed(Seq::<LogLine>::empty()) =~= seq![]);
    assert(replayed(one) =~= line_message(line));
    match line {
        LogLine::Entry(e) => match e.kind {
            SessionEntryKind::Message { message } => {
                assert(replayed(a) + seq![message@] =~= replayed(a).push(message@));
            },
            _ => {
                assert(replayed(a) + line_message(line) =~= replayed(a));
            },
        },
        LogLine::Other => {
            assert(replayed(a) + line_message(line) =~= replayed(a));
        },
    }
}

/// A new entry follows the last one of the log, whatever cannot be read in between.
pub proof fn law_the_last_entry_is_found(lines: Seq<LogLine>, e: SessionEntry, rest: Seq<LogLine>)
    requires
        forall|i: int| 0 <= i < rest.len() ==> (#[trigger] rest[i]) is Other,
    ensures
        last_entry(lines.push(LogLine::Entry(e)) + rest) == Some(e.id@),
        entry_count(lines.push(LogLine::Entry(e)) + rest) == entry_count(lines) + 1,
        last_entry(rest) is None,
        entry_count(rest) == 0,
    decreases rest.len(),
{
    let head = lines.push(LogLine::Entry(e));
    if rest.len() == 0 {
        assert(head + rest =~= head);
        assert(head.drop_last() =~= lines);
    } else {
        law_the_last_entry_is_found(lines, e, rest.drop_last());
        assert((head + rest).drop_last() =~= head + rest.drop_last());
        assert((head + rest).last() == rest.last());
        assert(rest[rest.len() - 1] is Other);
    }
}

/// The last text of each side is that which no text of the same side follows.
pub proof fn law_the_last_texts_are_found(ms: Seq<MessageModel>, text: Seq<char>, m: MessageModel)
    ensures
        ms.len() == 0 ==> last_user(ms) is None && last_assistant(ms) is None,
        (m matches MessageModel::User { content, .. } && content == ContentModel::Text(text))
            ==> last_user(ms.push(m)) == Some(text) && last_assistant(ms.push(m))
            == last_assistant(ms),
        (m matches MessageModel::Assistant { content, .. } && content == Some(text))
            ==> last_assistant(ms.push(m)) == Some(text) && last_user(ms.push(m)) == last_user(ms),
        !(m is User) ==> last_user(ms.push(m)) == last_user(ms),
        !(m is Assistant) ==> last_assistant(ms.push(m)) == last_assistant(ms),
{
    assert(ms.push(m).drop_last() =~= ms);
}

/// Each session has a log of its own, in the directory of the logs.
pub proof fn law_each_session_has_its_own_log(data_dir: Seq<char>, a: Seq<char>, b: Seq<char>)
    requires
        is_random_id(a),
        is_random_id(b),
        data_dir.len() > 0,
        !paths::has_drive(data_dir) || data_dir.len() > 2,
    ensures
        session_file(data_dir, a) == session_file(data_dir, b) ==> a == b,
        sessions_dir(data_dir).is_prefix_of(session_file(data_dir, a)),
        data_dir.is_prefix_of(sessions_dir(data_dir)),
        ".jsonl"@.is_suffix_of(session_file(data_dir, a)),
{
    reveal_strlit("sessions");
    assert("sessions"@[0] == 's' && "sessions"@[1] == 'e' && "sessions"@.len() == 8);
    let dir = sessions_dir(data_dir);
    lemma_name_below(data_dir, "sessions"@);
    assert(dir.subrange(dir.len() - 8, dir.len() as int) =~= "sessions"@);
    assert(dir.last() == 's');
    lemma_log_name(dir, a);
    lemma_log_name(dir, b);
    let f = session_file(data_dir, a);
    let g = session_file(data_dir, b);
    let n = dir.len() as int;
    if f == g {
        assert(f.subrange(n + 1, n + 37) =~= g.subrange(n + 1, n + 37));
    }
}

/// A name that is neither rooted nor on a drive of its own lies below its directory.
proof fn lemma_name_below(dir: Seq<char>, name: Seq<char>)
    requires
        dir.len() > 0,
        name.len() > 1,
        !paths::is_separator(name[0]),
        name[1] != ':',
    ensures
        dir.is_prefix_of(paths::joined_path(dir, name)),
        name.is_suffix_of(paths::joined_path(dir, name)),
{
    paths::law_a_name_lies_below_its_directory(dir, name);
}

/// The path of a log below the directory of the logs.
proof fn lemma_log_name(dir: Seq<char>, id: Seq<char>)
    requires
        is_random_id(id),
        dir.len() > 2,
        dir.last() == 's',
    ensures
        ({
            let path = paths::joined_path(dir, id + ".jsonl"@);
            &&& dir.is_prefix_of(path)
            &&& ".jsonl"@.is_suffix_of(path)
            &&& path.len() == dir.len() + 37 + ".jsonl"@.len()
            &&& path.subrange(dir.len() as int + 1, dir.len() as int + 37) == id
        }),
{
    let name = id + ".jsonl"@;
    assert(is_lower_hex(id[0]) && is_lower_hex(id[1]));
    assert(name[0] == id[0] && name[1] == id[1]);
    paths::law_a_name_lies_below_its_directory(dir, name);
    let path = paths::joined_path(dir, name);
    assert(path == dir + seq!['/'] + name);
    assert(path.subrange(dir.len() as int + 1, dir.len() as int + 37) =~= id);
    let end = ".jsonl"@;
    assert(path.subrange(path.len() - end.len(), path.len() as int) =~= end);
}

} // verus!
