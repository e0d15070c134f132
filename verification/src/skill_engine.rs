//! Turning a growing transcript into skill actions.
//!
//! A transcript is worked off clause by clause. What has been acted upon is
//! remembered as a prefix of the transcript, and every action has a key under
//! which it is carried out at most once in a session.
use vstd::prelude::*;
use vstd::utf8::*;

use crate::skills;
use crate::skills::{
    BrowserAction, BrowserActionPlan, BrowserOptions, BrowserPlanResult, SceneResolveResult,
    SkillMatch, WindowsAction, WindowsActionPlan, WindowsOptions, WindowsPlanResult,
};
use crate::state::{
    ConfigSkillPlan, SkillExecutionSession, SkillExecutionState, VoiceCommandFeedback,
};
use crate::storage;
use crate::storage::AppConfig;
use crate::text;
use crate::text::CharClass;

verus! {

// ---------------------------------------------------------------------------
// Skill session management
// ---------------------------------------------------------------------------

/// What a session holds.
#[verifier::ext_equal]
pub struct SessionModel {
    pub id: u64,
    pub executed: Set<Seq<char>>,
    pub pending: Set<Seq<char>>,
    pub consumed: Seq<char>,
    pub candidate: Option<Seq<char>>,
}

impl View for SkillExecutionSession {
    type V = SessionModel;

    open spec fn view(&self) -> SessionModel {
        SessionModel {
            id: self.id,
            executed: self.executed@,
            pending: self.pending@,
            consumed: self.consumed_prefix@,
            candidate: text::opt_text(self.last_streaming_browser_open_action),
        }
    }
}

/// What the current session holds, if there is one.
pub open spec fn session(state: SkillExecutionState) -> Option<SessionModel> {
    match state {
        Some(s) => Some(s@),
        None => None,
    }
}

/// The current session is the one called `id`.
pub open spec fn is_current(s: Option<SessionModel>, id: u64) -> bool {
    s is Some && s->0.id == id
}

/// The action has neither run nor is it running.
pub open spec fn can_reserve(s: Option<SessionModel>, id: u64, key: Seq<char>) -> bool {
    is_current(s, id) && !s->0.executed.contains(key) && !s->0.pending.contains(key)
}

/// The session after an attempt to reserve the action.
pub open spec fn reserved(s: Option<SessionModel>, id: u64, key: Seq<char>) -> Option<
    SessionModel,
> {
    if can_reserve(s, id, key) {
        Some(SessionModel { pending: s->0.pending.insert(key), ..s->0 })
    } else {
        s
    }
}

/// The session after the action has come to its end.
pub open spec fn completed(
    s: Option<SessionModel>,
    id: u64,
    key: Seq<char>,
    mark_executed: bool,
) -> Option<SessionModel> {
    if is_current(s, id) {
        Some(
            SessionModel {
                pending: s->0.pending.remove(key),
                executed: if mark_executed {
                    s->0.executed.insert(key)
                } else {
                    s->0.executed
                },
                ..s->0
            },
        )
    } else {
        s
    }
}

/// Claims an action for the session `session_id`. Fails where the action has run,
/// is running, or the session is not the current one.
pub fn reserve_skill_action(
    state: &mut SkillExecutionState,
    session_id: u64,
    action_key: &str,
) -> (r: bool)
    ensures
        r == can_reserve(session(*old(state)), session_id, action_key@),
        session(*final(state)) == reserved(session(*old(state)), session_id, action_key@),
{
    match state {
        Some(s) => {
            if s.id != session_id {
                return false;
            }
            if s.executed.contains(action_key) || s.pending.contains(action_key) {
                return false;
            }
            s.pending.insert(action_key.to_string());
            true
        },
        None => false,
    }
}

/// Ends the run of a reserved action.
pub fn complete_skill_action(
    state: &mut SkillExecutionState,
    session_id: u64,
    action_key: &str,
    mark_executed: bool,
)
    ensures
        session(*final(state)) == completed(
            session(*old(state)),
            session_id,
            action_key@,
            mark_executed,
        ),
{
    if let Some(s) = state {
        if s.id == session_id {
            s.pending.remove(action_key);
            if mark_executed {
                s.executed.insert(action_key.to_string());
            }
        }
    }
}

/// A session in which nothing has happened yet.
pub open spec fn fresh_session(id: u64) -> SessionModel {
    SessionModel {
        id,
        executed: Set::empty(),
        pending: Set::empty(),
        consumed: seq![],
        candidate: None,
    }
}

/// Starts a session under the next number of `sequence`.
pub fn start_skill_execution_session(state: &mut SkillExecutionState, sequence: &mut u64) -> (r:
    u64)
    ensures
        r == *old(sequence),
        *final(sequence) == (if *old(sequence) == u64::MAX {
            0
        } else {
            (*old(sequence) + 1) as u64
        }),
        session(*final(state)) == Some(fresh_session(r)),
{
    let id: u64 = *sequence;
    *sequence = if id == u64::MAX {
        0
    } else {
        id + 1
    };
    *state = Some(SkillExecutionSession::new(id));
    id
}

/// Ends the session `session_id`, if it is the current one.
pub fn finish_skill_execution_session(state: &mut SkillExecutionState, session_id: u64)
    ensures
        session(*final(state)) == (if is_current(session(*old(state)), session_id) {
            None
        } else {
            session(*old(state))
        }),
{
    let ends = match state {
        Some(s) => s.id == session_id,
        None => false,
    };
    if ends {
        *state = None;
    }
}

pub fn current_skill_execution_session_id(state: &SkillExecutionState) -> (r: Option<u64>)
    ensures
        r == (match session(*state) {
            Some(s) => Some(s.id),
            None => None,
        }),
{
    match state {
        Some(s) => Some(s.id),
        None => None,
    }
}

// ---------------------------------------------------------------------------
// Action keys
// ---------------------------------------------------------------------------

/// The key of an action on the browser. Actions that differ only in the case of a
/// name, or in the white space around it, have the same key.
pub open spec fn browser_key(action: BrowserAction) -> Seq<char> {
    match action {
        BrowserAction::OpenTarget { query } => "browser:open_target:"@ + text::lowercase(
            text::trim(query@),
        ),
        BrowserAction::SwitchTabIndex { index } => "browser:switch_tab:"@ + text::decimal(
            index as nat,
        ),
        BrowserAction::Find { query } => "browser:find:"@ + text::lowercase(
            text::trim(
                match query {
                    Some(q) => q@,
                    None => ""@,
                },
            ),
        ),
        _ => "browser:"@ + action.variant_text(),
    }
}

pub fn browser_action_key(action: &BrowserAction) -> (r: String)
    ensures
        r@ == browser_key(*action),
{
    match action {
        BrowserAction::OpenTarget { query } => {
            let name = text::to_lowercase(text::trim_str(query.as_str()));
            text::concat2("browser:open_target:", name.as_str())
        },
        BrowserAction::SwitchTabIndex { index } => {
            let number = text::to_decimal(*index as u64);
            text::concat2("browser:switch_tab:", number.as_str())
        },
        BrowserAction::Find { query } => {
            let q = match query {
                Some(q) => q.as_str(),
                None => "",
            };
            let name = text::to_lowercase(text::trim_str(q));
            text::concat2("browser:find:", name.as_str())
        },
        other => text::concat2("browser:", other.variant_name()),
    }
}

/// The key of an action on the desktop.
pub open spec fn windows_key(action: WindowsAction) -> Seq<char> {
    match action {
        WindowsAction::OpenTarget { query } => "windows:open_target:"@ + text::lowercase(
            text::trim(query@),
        ),
        _ => "windows:"@ + action.variant_text(),
    }
}

pub fn windows_action_key(action: &WindowsAction) -> (r: String)
    ensures
        r@ == windows_key(*action),
{
    match action {
        WindowsAction::OpenTarget { query } => {
            let name = text::to_lowercase(text::trim_str(query.as_str()));
            text::concat2("windows:open_target:", name.as_str())
        },
        other => text::concat2("windows:", other.variant_name()),
    }
}

// ---------------------------------------------------------------------------
// Names of desktop targets
// ---------------------------------------------------------------------------

/// The words that ask for a target to be opened.
pub open spec fn open_verbs() -> Seq<Seq<char>> {
    seq!["打开"@, "启动"@, "运行"@, "open"@, "launch"@, "start"@, "run"@]
}

/// The words for a page or a panel that may follow the name of a target.
pub open spec fn page_words() -> Seq<Seq<char>> {
    seq!["页面"@, "界面"@, "面板"@, " page"@, " panel"@]
}

/// `s` without the first of the words that it starts with.
pub open spec fn without_prefix(s: Seq<char>, words: Seq<Seq<char>>) -> Seq<char>
    decreases words.len(),
{
    if words.len() == 0 {
        s
    } else if words[0].is_prefix_of(s) {
        text::trim(s.skip(words[0].len() as int))
    } else {
        without_prefix(s, words.drop_first())
    }
}

/// `s` without the first of the words that it ends with.
pub open spec fn without_suffix(s: Seq<char>, words: Seq<Seq<char>>) -> Seq<char>
    decreases words.len(),
{
    if words.len() == 0 {
        s
    } else if words[0].is_suffix_of(s) {
        text::trim(s.take(s.len() - words[0].len()))
    } else {
        without_suffix(s, words.drop_first())
    }
}

/// The name of a target in a spoken request: without punctuation around it, the
/// verb before it and the word for a page after it.
pub open spec fn normalized_query(query: Seq<char>) -> Seq<char> {
    without_suffix(
        without_prefix(text::trim(text::trim_class(query, CharClass::ClauseEdge)), open_verbs()),
        page_words(),
    )
}

fn strip_first_prefix(s: &str, words: &Vec<&'static str>) -> (r: String)
    ensures
        r@ == without_prefix(s@, words@.map_values(|w: &'static str| w@)),
{
    let ghost all = words@.map_values(|w: &'static str| w@);
    assert(all.skip(0) =~= all);
    for i in 0..words.len()
        invariant
            all == words@.map_values(|w: &'static str| w@),
            without_prefix(s@, all) == without_prefix(s@, all.skip(i as int)),
    {
        assert(all.skip(i as int)[0] == words@[i as int]@);
        assert(all.skip(i as int).drop_first() =~= all.skip(i + 1));
        if let Some(rest) = text::strip_prefix(s, words[i]) {
            return text::trim_str(rest).to_string();
        }
    }
    s.to_string()
}

fn strip_first_suffix(s: &str, words: &Vec<&'static str>) -> (r: String)
    ensures
        r@ == without_suffix(s@, words@.map_values(|w: &'static str| w@)),
{
    let ghost all = words@.map_values(|w: &'static str| w@);
    assert(all.skip(0) =~= all);
    for i in 0..words.len()
        invariant
            all == words@.map_values(|w: &'static str| w@),
            without_suffix(s@, all) == without_suffix(s@, all.skip(i as int)),
    {
        assert(all.skip(i as int)[0] == words@[i as int]@);
        assert(all.skip(i as int).drop_first() =~= all.skip(i + 1));
        if let Some(rest) = text::strip_suffix(s, words[i]) {
            return text::trim_str(rest).to_string();
        }
    }
    s.to_string()
}

pub fn normalize_direct_windows_query(query: &str) -> (r: String)
    ensures
        r@ == normalized_query(query@),
{
    let base = text::trim_str(text::trim_class_str(query, CharClass::ClauseEdge));
    let verbs: Vec<&'static str> = vec!["打开", "启动", "运行", "open", "launch", "start", "run"];
    assert(verbs@.map_values(|w: &'static str| w@) =~= open_verbs());
    let name = strip_first_prefix(base, &verbs);
    let pages: Vec<&'static str> = vec!["页面", "界面", "面板", " page", " panel"];
    assert(pages@.map_values(|w: &'static str| w@) =~= page_words());
    strip_first_suffix(name.as_str(), &pages)
}

/// The target that a spoken request stands for, given what a lookup finds under
/// the words as they are (`direct`) and under the normalized name (`normalized`).
/// The second counts only where the first found nothing and the normalized name
/// says something new.
pub fn resolve_windows_target_candidate<T>(
    query: &str,
    direct: Option<T>,
    normalized: Option<T>,
) -> (r: Option<T>)
    ensures
        r == (if direct is Some {
            direct
        } else if normalized_query(query@).len() == 0 || normalized_query(query@) == text::trim(
            query@,
        ) {
            None
        } else {
            normalized
        }),
{
    if direct.is_some() {
        return direct;
    }
    let name = normalize_direct_windows_query(query);
    if name.as_str().is_empty() || text::str_eq(name.as_str(), text::trim_str(query)) {
        None
    } else {
        normalized
    }
}

/// A plan to open the target that a whole transcript names. `target_known` says
/// whether the normalized name stands for a target.
pub fn plan_direct_windows_target(transcript: &str, target_known: bool) -> (r: Option<
    WindowsActionPlan,
>)
    ensures
        r is Some <==> normalized_query(transcript@).len() > 0 && target_known,
        r matches Some(plan) ==> {
            &&& plan.action matches WindowsAction::OpenTarget { query } && query@
                == normalized_query(transcript@)
            &&& plan.action_name@ == "Open Windows Target"@
            &&& plan.note is None
            &&& plan.consumed_end == text::byte_len(transcript@)
        },
{
    let query = normalize_direct_windows_query(transcript);
    if query.as_str().is_empty() || !target_known {
        return None;
    }
    Some(
        WindowsActionPlan {
            action: WindowsAction::OpenTarget { query },
            action_name: "Open Windows Target".to_string(),
            note: None,
            consumed_end: text::byte_count(transcript),
        },
    )
}

// ---------------------------------------------------------------------------
// Streaming readiness
// ---------------------------------------------------------------------------

/// A character of a plain address: an ASCII letter or digit, or one of `.-_/`.
pub open spec fn is_address_char(c: char) -> bool {
    ||| 'a' <= c <= 'z'
    ||| 'A' <= c <= 'Z'
    ||| '0' <= c <= '9'
    ||| c == '.' || c == '-' || c == '_' || c == '/'
}

/// The number of characters that are not white space.
pub open spec fn visible_len(s: Seq<char>) -> nat {
    s.filter(|c: char| !text::is_whitespace(c)).len()
}

/// A name long enough to be acted upon although nothing is known by it: at least
/// `ascii_min` visible characters of a plain address, or two of any kind.
pub open spec fn is_long_enough(s: Seq<char>, ascii_min: nat) -> bool {
    if forall|i: int| 0 <= i < s.len() ==> is_address_char(#[trigger] s[i]) {
        visible_len(s) >= ascii_min
    } else {
        visible_len(s) >= 2
    }
}

fn long_enough(s: &str, ascii_min: usize) -> (r: bool)
    ensures
        r == is_long_enough(s@, ascii_min as nat),
{
    let v = text::chars_of(s);
    let mut visible: usize = 0;
    let mut plain = true;
    let ghost keep = |c: char| !text::is_whitespace(c);
    proof {
        reveal(Seq::filter);
    }
    for i in 0..v.len()
        invariant
            v@ == s@,
            keep == (|c: char| !text::is_whitespace(c)),
            visible == v@.take(i as int).filter(keep).len(),
            visible <= i,
            plain == (forall|j: int| 0 <= j < i ==> is_address_char(#[trigger] s@[j])),
    {
        proof {
            reveal(Seq::filter);
            assert(v@.take(i + 1).drop_last() =~= v@.take(i as int));
        }
        let c = v[i];
        if !text::is_space(c) {
            visible += 1;
        }
        let address = ('a' <= c && c <= 'z') || ('A' <= c && c <= 'Z') || ('0' <= c && c <= '9')
            || c == '.' || c == '-' || c == '_' || c == '/';
        assert(address == is_address_char(s@[i as int]));
        plain = plain && address;
    }
    assert(v@.take(v@.len() as int) =~= s@);
    if plain {
        visible >= ascii_min
    } else {
        visible >= 2
    }
}

/// A spoken name of a page can be acted upon.
pub open spec fn browser_query_ready(query: Seq<char>, is_url: bool, is_site: bool) -> bool {
    &&& text::trim(query).len() > 0
    &&& is_url || is_site || is_long_enough(text::trim(query), 4)
}

/// Whether a spoken name of a page can be acted upon before the transcript is
/// final. `is_url` says whether the name is an address, `is_site` whether it names
/// a known site.
pub fn is_browser_open_query_ready(query: &str, is_url: bool, is_site: bool) -> (r: bool)
    ensures
        r == browser_query_ready(query@, is_url, is_site),
{
    let trimmed = text::trim_str(query);
    if trimmed.is_empty() {
        return false;
    }
    is_url || is_site || long_enough(trimmed, 4)
}

/// A spoken name of a desktop target can be acted upon.
pub open spec fn windows_query_ready(query: Seq<char>, target_known: bool) -> bool {
    &&& text::trim(query).len() > 0
    &&& target_known || is_long_enough(text::trim(query), 3)
}

/// Whether a spoken name of a desktop target can be acted upon before the
/// transcript is final. `target_known` says whether the name stands for a target.
pub fn is_windows_open_query_ready(query: &str, target_known: bool) -> (r: bool)
    ensures
        r == windows_query_ready(query@, target_known),
{
    let trimmed = text::trim_str(query);
    if trimmed.is_empty() {
        return false;
    }
    target_known || long_enough(trimmed, 3)
}

// ---------------------------------------------------------------------------
// Transcript manipulation
// ---------------------------------------------------------------------------

/// A character that ends a clause.
pub open spec fn is_separator(c: char) -> bool {
    c == ',' || c == ';' || c == '\n' || c == '\r' || c == '\u{ff0c}' || c == '\u{ff1b}' || c
        == '\u{3002}'
}

/// The number of characters of the clause boundary that stands in `s` at `i`: a
/// separator, or one of the words for `then`, `and` and `next`. Zero where none
/// does.
pub open spec fn boundary_width(s: Seq<char>, i: int) -> nat {
    if 0 <= i < s.len() && is_separator(s[i]) {
        1
    } else if text::occurs_at(s, "然后"@, i) || text::occurs_at(s, "并且"@, i)
        || text::occurs_at(s, "接着"@, i) {
        2
    } else {
        0
    }
}

/// The first clause boundary of `s` stands at `i`.
pub open spec fn is_first_boundary(s: Seq<char>, i: int) -> bool {
    &&& 0 <= i < s.len()
    &&& boundary_width(s, i) > 0
    &&& forall|j: int| 0 <= j < i ==> boundary_width(s, j) == 0
}

/// There is a clause boundary in `s`.
pub open spec fn has_boundary(s: Seq<char>) -> bool {
    exists|i: int| is_first_boundary(s, i)
}

/// Where the first clause boundary stands.
pub open spec fn boundary_at(s: Seq<char>) -> int {
    choose|i: int| is_first_boundary(s, i)
}

/// The first clause of `s`, without the punctuation at its end.
pub open spec fn first_clause(s: Seq<char>) -> Seq<char> {
    if has_boundary(s) {
        text::trim_end(s.take(boundary_at(s)), CharClass::ClauseEdge)
    } else {
        text::trim_end(s, CharClass::Space)
    }
}

/// The number of characters that the first clause takes up together with the
/// boundary and the punctuation after it.
pub open spec fn first_clause_end(s: Seq<char>) -> int {
    if has_boundary(s) {
        let after = boundary_at(s) + boundary_width(s, boundary_at(s));
        after + text::leading(s.skip(after), CharClass::ClauseEdge)
    } else {
        s.len() as int
    }
}

/// Splitting off a clause uses up something of every text, and no more than there
/// is.
pub proof fn law_clause_makes_progress(s: Seq<char>)
    requires
        s.len() > 0,
    ensures
        0 < first_clause_end(s) <= s.len(),
        first_clause(s).len() <= first_clause_end(s),
{
    reveal_strlit("然后");
    reveal_strlit("并且");
    reveal_strlit("接着");
    if has_boundary(s) {
        let i = boundary_at(s);
        let after = i + boundary_width(s, i);
        text::lemma_leading(s.skip(after), CharClass::ClauseEdge);
        text::lemma_trailing(s.take(i), CharClass::ClauseEdge);
    } else {
        text::lemma_trailing(s, CharClass::Space);
    }
}

fn boundary_width_at(v: &Vec<char>, i: usize) -> (r: usize)
    requires
        i < v@.len(),
    ensures
        r == boundary_width(v@, i as int),
        i + r <= v@.len(),
{
    proof {
        reveal_strlit("然后");
        reveal_strlit("并且");
        reveal_strlit("接着");
    }
    let c = v[i];
    if c == ',' || c == ';' || c == '\n' || c == '\r' || c == '\u{ff0c}' || c == '\u{ff1b}' || c
        == '\u{3002}' {
        return 1;
    }
    if v.len() - i < 2 {
        return 0;
    }
    let d = v[i + 1];
    let ghost pair = v@.subrange(i as int, i + 2);
    assert(pair =~= seq![c, d]);
    if (c == '然' && d == '后') || (c == '并' && d == '且') || (c == '接' && d == '着') {
        assert("然后"@ =~= seq!['然', '后']);
        assert("并且"@ =~= seq!['并', '且']);
        assert("接着"@ =~= seq!['接', '着']);
        2
    } else {
        assert(pair[0] == c && pair[1] == d);
        assert("然后"@[0] == '然' && "然后"@[1] == '后');
        assert("并且"@[0] == '并' && "并且"@[1] == '且');
        assert("接着"@[0] == '接' && "接着"@[1] == '着');
        0
    }
}

/// Splits the first clause off `text`, and says how many bytes it takes up together
/// with the boundary and the punctuation after it.
pub fn split_skill_clause<'a>(text: &'a str) -> (r: (&'a str, usize))
    ensures
        r.0@ == first_clause(text@),
        r.1 == text::byte_len(text@.take(first_clause_end(text@))),
        r.1 <= text::byte_len(text@),
{
    let v = text::chars_of(text);
    let n: usize = v.len();
    let total: usize = text::byte_count(text);
    let mut i: usize = 0;
    let mut width: usize = 0;
    let mut bytes: usize = 0;
    proof {
        assert(text@.take(0) =~= Seq::<char>::empty());
        text::lemma_byte_len_bounds(text@.take(0));
    }
    while i < n && width == 0
        invariant
            v@ == text@,
            n == v@.len(),
            total == text::byte_len(text@),
            i <= n,
            bytes == text::byte_len(text@.take(i as int)),
            i + width <= n,
            forall|j: int| 0 <= j < i ==> #[trigger] boundary_width(v@, j) == 0,
            width > 0 ==> i < n && width == boundary_width(v@, i as int),
        decreases
            n - i + (if width == 0 {
                1int
            } else {
                0
            }),
    {
        width = boundary_width_at(&v, i);
        if width == 0 {
            proof {
                text::lemma_byte_len_push(text@.take(i as int), text@[i as int]);
                assert(text@.take(i + 1) =~= text@.take(i as int).push(text@[i as int]));
                text::lemma_byte_len_prefix(text@, i + 1, n as int);
            }
            bytes += text::width_of(v[i]);
            i += 1;
        }
    }
    if width == 0 {
        proof {
            if has_boundary(text@) {
                let b = boundary_at(text@);
                assert(boundary_width(v@, b) == 0);
            }
            assert(text@.take(n as int) =~= text@);
        }
        return (text::trim_end_str(text, CharClass::Space), total);
    }
    proof {
        assert(is_first_boundary(text@, i as int));
        let b = boundary_at(text@);
        assert(is_first_boundary(text@, b));
        assert(b == i) by {
            if b < i {
                assert(boundary_width(v@, b) == 0);
            } else if i < b {
                assert(boundary_width(text@, i as int) == 0);
            }
        }
    }
    let clause = text::trim_end_str(text.substring_char(0, i), CharClass::ClauseEdge);
    assert(text@.subrange(0, i as int) =~= text@.take(i as int));

    let start: usize = i + width;
    let mut end: usize = i;
    while end < n && (end < start || text::is_in_class(CharClass::ClauseEdge, v[end]))
        invariant
            v@ == text@,
            n == v@.len(),
            total == text::byte_len(text@),
            i <= end <= n,
            i < start <= n,
            bytes == text::byte_len(text@.take(end as int)),
            forall|j: int|
                start <= j < end ==> text::in_class(CharClass::ClauseEdge, #[trigger] v@[j]),
        decreases n - end,
    {
        proof {
            text::lemma_byte_len_push(text@.take(end as int), text@[end as int]);
            assert(text@.take(end + 1) =~= text@.take(end as int).push(text@[end as int]));
            text::lemma_byte_len_prefix(text@, end + 1, n as int);
        }
        bytes += text::width_of(v[end]);
        end += 1;
    }
    proof {
        let tail = text@.skip(start as int);
        assert forall|j: int| 0 <= j < end - start implies text::in_class(
            CharClass::ClauseEdge,
            #[trigger] tail[j],
        ) by {
            assert(tail[j] == v@[start + j]);
        }
        text::lemma_leading_is(tail, CharClass::ClauseEdge, (end - start) as nat);
        text::lemma_byte_len_prefix(text@, end as int, n as int);
        assert(text@.take(n as int) =~= text@);
    }
    (clause, bytes)
}

/// The session after a transcript update: where the recogniser has rewritten what
/// was consumed, only the part that still stands counts as consumed.
pub open spec fn prepared(s: Option<SessionModel>, id: u64, transcript: Seq<char>) -> Option<
    SessionModel,
> {
    if is_current(s, id) {
        Some(
            SessionModel {
                consumed: s->0.consumed.take(
                    text::common_len(s->0.consumed, transcript) as int,
                ),
                ..s->0
            },
        )
    } else {
        s
    }
}

/// The number of characters of the transcript before what is left to work off:
/// what was consumed, and the punctuation after it.
pub open spec fn remaining_start(consumed: Seq<char>, transcript: Seq<char>) -> int {
    let c = text::common_len(consumed, transcript) as int;
    c + text::leading(transcript.skip(c), CharClass::TranscriptLead)
}

/// What is left to work off, and the byte at which it starts. Nothing where the
/// rest is blank.
pub open spec fn remaining_text(
    s: Option<SessionModel>,
    id: u64,
    transcript: Seq<char>,
) -> Option<(Seq<char>, nat)> {
    if is_current(s, id) {
        let start = remaining_start(s->0.consumed, transcript);
        if text::is_blank(transcript.skip(start)) {
            None
        } else {
            Some((transcript.skip(start), text::byte_len(transcript.take(start))))
        }
    } else {
        None
    }
}

fn shared_prefix_chars(left: &Vec<char>, right: &Vec<char>) -> (r: usize)
    ensures
        r == text::common_len(left@, right@),
        r <= left@.len(),
        r <= right@.len(),
{
    let mut i: usize = 0;
    while i < left.len() && i < right.len() && left[i] == right[i]
        invariant
            i <= left@.len(),
            i <= right@.len(),
            forall|j: int| 0 <= j < i ==> left@[j] == right@[j],
        decreases left@.len() - i,
    {
        i += 1;
    }
    proof {
        text::lemma_common_len_is(left@, right@, i as nat);
    }
    i
}

/// What is left of the transcript to work off, and the byte at which it starts.
pub fn prepare_skill_transcript(
    state: &mut SkillExecutionState,
    session_id: u64,
    transcript: &str,
) -> (r: Option<(String, usize)>)
    ensures
        session(*final(state)) == prepared(session(*old(state)), session_id, transcript@),
        r is Some <==> remaining_text(session(*old(state)), session_id, transcript@) is Some,
        r matches Some((rest, offset)) ==> remaining_text(
            session(*old(state)),
            session_id,
            transcript@,
        ) == Some((rest@, offset as nat)),
{
    let ghost before = session(*state);
    match state {
        Some(s) => {
            if s.id != session_id {
                return None;
            }
            let consumed = text::chars_of(s.consumed_prefix.as_str());
            let all = text::chars_of(transcript);
            let common: usize = shared_prefix_chars(&consumed, &all);
            if common < consumed.len() {
                s.consumed_prefix = text::collect_chars(&consumed, 0, common);
            }
            proof {
                assert(consumed@.subrange(0, common as int) =~= consumed@.take(common as int));
                assert(consumed@.take(consumed@.len() as int) =~= consumed@);
                text::lemma_leading(transcript@.skip(common as int), CharClass::TranscriptLead);
            }
            let rest = transcript.substring_char(common, all.len());
            assert(rest@ =~= transcript@.skip(common as int));
            let trimmed = text::trim_start_str(rest, CharClass::TranscriptLead);
            let ghost start = remaining_start(before->0.consumed, transcript@);
            assert(trimmed@ =~= transcript@.skip(start));
            if text::is_blank_str(trimmed) {
                return None;
            }
            proof {
                assert(transcript@ =~= transcript@.take(start) + transcript@.skip(start));
                text::lemma_encode_add(transcript@.take(start), transcript@.skip(start));
            }
            let offset: usize = text::byte_count(transcript) - text::byte_count(trimmed);
            Some((trimmed.to_string(), offset))
        },
        None => None,
    }
}

/// The session after the transcript has been worked off up to byte `consumed_end`.
/// An offset inside a character changes nothing.
pub open spec fn advanced(
    s: Option<SessionModel>,
    id: u64,
    transcript: Seq<char>,
    consumed_end: nat,
) -> Option<SessionModel> {
    let end = if consumed_end <= text::byte_len(transcript) {
        consumed_end
    } else {
        text::byte_len(transcript)
    };
    if is_current(s, id) && text::is_boundary(transcript, end) {
        Some(
            SessionModel {
                consumed: transcript.take(text::char_index(transcript, end)),
                candidate: None,
                ..s->0
            },
        )
    } else {
        s
    }
}

/// Remembers that the transcript has been worked off up to byte `consumed_end`.
pub fn advance_skill_transcript_consumed(
    state: &mut SkillExecutionState,
    session_id: u64,
    transcript: &str,
    consumed_end: usize,
)
    ensures
        session(*final(state)) == advanced(
            session(*old(state)),
            session_id,
            transcript@,
            consumed_end as nat,
        ),
{
    if let Some(s) = state {
        if s.id != session_id {
            return ;
        }
        let total: usize = text::byte_count(transcript);
        let end: usize = if consumed_end <= total {
            consumed_end
        } else {
            total
        };
        if let Some(i) = text::char_position(transcript, end) {
            s.consumed_prefix = transcript.substring_char(0, i).to_string();
            s.last_streaming_browser_open_action = None;
            assert(transcript@.subrange(0, i as int) =~= transcript@.take(i as int));
        }
    }
}

/// The session without an open action that waits for confirmation.
pub open spec fn cleared(s: Option<SessionModel>, id: u64) -> Option<SessionModel> {
    if is_current(s, id) {
        Some(SessionModel { candidate: None, ..s->0 })
    } else {
        s
    }
}

pub fn clear_streaming_browser_open_action_candidate(
    state: &mut SkillExecutionState,
    session_id: u64,
)
    ensures
        session(*final(state)) == cleared(session(*old(state)), session_id),
{
    if let Some(s) = state {
        if s.id == session_id {
            s.last_streaming_browser_open_action = None;
        }
    }
}

/// The previous update asked for the same open action.
pub open spec fn is_confirmed(s: Option<SessionModel>, id: u64, key: Seq<char>) -> bool {
    is_current(s, id) && s->0.candidate == Some(key)
}

/// The session after an update asked for an open action.
pub open spec fn confirmed(s: Option<SessionModel>, id: u64, key: Seq<char>) -> Option<
    SessionModel,
> {
    if is_current(s, id) {
        Some(
            SessionModel {
                candidate: if s->0.candidate == Some(key) {
                    None
                } else {
                    Some(key)
                },
                ..s->0
            },
        )
    } else {
        s
    }
}

/// Whether two updates in a row have asked for the same open action; the first
/// only leaves its mark.
pub fn confirm_streaming_browser_open_action(
    state: &mut SkillExecutionState,
    session_id: u64,
    action_key: &str,
) -> (r: bool)
    ensures
        r == is_confirmed(session(*old(state)), session_id, action_key@),
        session(*final(state)) == confirmed(session(*old(state)), session_id, action_key@),
{
    match state {
        Some(s) => {
            if s.id != session_id {
                return false;
            }
            let repeated = match &s.last_streaming_browser_open_action {
                Some(last) => text::str_eq(last.as_str(), action_key),
                None => false,
            };
            if repeated {
                s.last_streaming_browser_open_action = None;
                true
            } else {
                s.last_streaming_browser_open_action = Some(action_key.to_string());
                false
            }
        },
        None => false,
    }
}

// ---------------------------------------------------------------------------
// Laws of a session
// ---------------------------------------------------------------------------

/// The things that happen to a session while it lasts.
pub enum SessionStep {
    Reserve(Seq<char>),
    Complete(Seq<char>, bool),
    Prepare(Seq<char>),
    Advance(Seq<char>, nat),
    Clear,
    Confirm(Seq<char>),
}

/// The session after one step.
pub open spec fn stepped(s: Option<SessionModel>, id: u64, step: SessionStep) -> Option<
    SessionModel,
> {
    match step {
        SessionStep::Reserve(key) => reserved(s, id, key),
        SessionStep::Complete(key, mark) => completed(s, id, key, mark),
        SessionStep::Prepare(transcript) => prepared(s, id, transcript),
        SessionStep::Advance(transcript, end) => advanced(s, id, transcript, end),
        SessionStep::Clear => cleared(s, id),
        SessionStep::Confirm(key) => confirmed(s, id, key),
    }
}

/// The session after a run of steps.
pub open spec fn after_steps(s: Option<SessionModel>, id: u64, steps: Seq<SessionStep>) -> Option<
    SessionModel,
>
    decreases steps.len(),
{
    if steps.len() == 0 {
        s
    } else {
        stepped(after_steps(s, id, steps.drop_last()), id, steps.last())
    }
}

/// Within a session an action that has run stays run, whatever happens, and so
/// cannot be reserved again.
pub proof fn law_executed_action_never_runs_again(
    s: Option<SessionModel>,
    id: u64,
    key: Seq<char>,
    steps: Seq<SessionStep>,
)
    requires
        is_current(s, id),
        s->0.executed.contains(key),
    ensures
        is_current(after_steps(s, id, steps), id),
        after_steps(s, id, steps)->0.executed.contains(key),
        !can_reserve(after_steps(s, id, steps), id, key),
    decreases steps.len(),
{
    if steps.len() > 0 {
        law_executed_action_never_runs_again(s, id, key, steps.drop_last());
    }
}

/// A reserved action cannot be reserved again until it has come to its end.
pub proof fn law_running_action_is_not_started_twice(
    s: Option<SessionModel>,
    id: u64,
    key: Seq<char>,
    steps: Seq<SessionStep>,
)
    requires
        can_reserve(s, id, key),
        forall|i: int|
            0 <= i < steps.len() ==> match #[trigger] steps[i] {
                SessionStep::Complete(other, _) => other != key,
                _ => true,
            },
    ensures
        is_current(after_steps(reserved(s, id, key), id, steps), id),
        after_steps(reserved(s, id, key), id, steps)->0.pending.contains(key),
        !can_reserve(after_steps(reserved(s, id, key), id, steps), id, key),
    decreases steps.len(),
{
    let t = reserved(s, id, key);
    if steps.len() > 0 {
        let shorter = steps.drop_last();
        assert forall|i: int| 0 <= i < shorter.len() implies match #[trigger] shorter[i] {
            SessionStep::Complete(other, _) => other != key,
            _ => true,
        } by {
            assert(shorter[i] == steps[i]);
        }
        law_running_action_is_not_started_twice(s, id, key, shorter);
        assert(steps.last() == steps[steps.len() - 1]);
        lemma_step_keeps_pending(after_steps(t, id, shorter), id, key, steps.last());
    }
}

proof fn lemma_step_keeps_pending(
    s: Option<SessionModel>,
    id: u64,
    key: Seq<char>,
    step: SessionStep,
)
    requires
        is_current(s, id),
        s->0.pending.contains(key),
        match step {
            SessionStep::Complete(other, _) => other != key,
            _ => true,
        },
    ensures
        is_current(stepped(s, id, step), id),
        stepped(s, id, step)->0.pending.contains(key),
{
}

/// After a transcript update what counts as consumed is the longest prefix of what
/// was consumed that the new transcript still starts with.
pub proof fn law_consumed_is_a_prefix(s: Option<SessionModel>, id: u64, transcript: Seq<char>)
    requires
        is_current(s, id),
    ensures
        prepared(s, id, transcript)->0.consumed.is_prefix_of(transcript),
        prepared(s, id, transcript)->0.consumed.is_prefix_of(s->0.consumed),
        forall|p: Seq<char>|
            #![trigger p.is_prefix_of(transcript)]
            p.is_prefix_of(transcript) && p.is_prefix_of(s->0.consumed) ==> p.len() <= prepared(
                s,
                id,
                transcript,
            )->0.consumed.len(),
{
    let c = s->0.consumed;
    text::lemma_common_len(c, transcript);
    let n = text::common_len(c, transcript) as int;
    assert(c.take(n) =~= transcript.take(n));
    assert(transcript.take(n).is_prefix_of(transcript)) by {
        assert(transcript.subrange(0, n) =~= transcript.take(n));
    }
    assert(c.subrange(0, n) =~= c.take(n));
    assert forall|p: Seq<char>|
        p.is_prefix_of(transcript) && p.is_prefix_of(c) implies p.len() <= n by {
        if p.len() > n {
            assert(p[n] == c[n]);
            assert(p[n] == transcript[n]);
        }
    }
}

/// What was worked off is not worked off again: after advancing to the end of a
/// number of characters, the same transcript goes on after them.
pub proof fn law_advance_is_remembered(
    s: Option<SessionModel>,
    id: u64,
    transcript: Seq<char>,
    i: int,
)
    requires
        is_current(s, id),
        0 <= i <= transcript.len(),
    ensures
        ({
            let t = advanced(s, id, transcript, text::byte_len(transcript.take(i)));
            &&& t->0.consumed == transcript.take(i)
            &&& prepared(t, id, transcript) == t
            &&& remaining_start(t->0.consumed, transcript) >= i
        }),
{
    text::lemma_char_index(transcript, i);
    text::lemma_byte_len_prefix(transcript, i, i);
    let t = advanced(s, id, transcript, text::byte_len(transcript.take(i)));
    let c = t->0.consumed;
    text::lemma_common_len_is(c, transcript, i as nat);
    assert(c.take(i) =~= c);
    assert(prepared(t, id, transcript)->0 =~= t->0);
}

/// An open action that streaming updates ask for runs at the second of two equal
/// updates in a row: the first is not confirmed, the second is, and the one after
/// that starts over.
pub proof fn law_open_needs_two_equal_updates(s: Option<SessionModel>, id: u64, key: Seq<char>)
    requires
        is_current(s, id),
        s->0.candidate != Some(key),
    ensures
        !is_confirmed(s, id, key),
        is_confirmed(confirmed(s, id, key), id, key),
        !is_confirmed(confirmed(confirmed(s, id, key), id, key), id, key),
        forall|other: Seq<char>| other != key ==> !is_confirmed(confirmed(s, id, key), id, other),
{
}

// ---------------------------------------------------------------------------
// Plans
// ---------------------------------------------------------------------------

/// A plan for the desktop, nothing, or what to tell the user.
pub fn plan_windows_command(planned: WindowsPlanResult) -> (r: Result<
    Option<WindowsActionPlan>,
    String,
>)
    ensures
        r == (match planned {
            WindowsPlanResult::Unmatched => Ok(None),
            WindowsPlanResult::Feedback(message) => Err(message),
            WindowsPlanResult::Action(plan) => Ok(Some(plan)),
        }),
{
    match planned {
        WindowsPlanResult::Unmatched => Ok(None),
        WindowsPlanResult::Feedback(message) => Err(message),
        WindowsPlanResult::Action(plan) => Ok(Some(plan)),
    }
}

/// A plan for the browser, nothing, or what to tell the user.
pub fn plan_browser_command(planned: BrowserPlanResult) -> (r: Result<
    Option<BrowserActionPlan>,
    String,
>)
    ensures
        r == (match planned {
            BrowserPlanResult::Unmatched => Ok(None),
            BrowserPlanResult::Feedback(message) => Err(message),
            BrowserPlanResult::Action(plan) => Ok(Some(plan)),
        }),
{
    match planned {
        BrowserPlanResult::Unmatched => Ok(None),
        BrowserPlanResult::Feedback(message) => Err(message),
        BrowserPlanResult::Action(plan) => Ok(Some(plan)),
    }
}

/// How the search for the page of a spoken name begins.
pub enum NavigationStart {
    /// The page is known: its address, and what to tell the user.
    Open { url: String, message: String },
    /// The language model is to be asked.
    AskModel,
    /// The model is not to be asked; the search goes on without it.
    Fallback,
    Fail(String),
}

/// `r` is how the search for the page of a spoken name begins: an address opens itself, a
/// known site its own page. `url` is the address that the name is, `site` the page
/// of the site that it names.
pub open spec fn is_navigation_start(
    query: Seq<char>,
    url: Option<String>,
    site: Option<String>,
    options: Option<&BrowserOptions>,
    r: NavigationStart,
) -> bool {
    match (url, site, options) {
        (Some(u), _, _) => r matches NavigationStart::Open { url, message } && url == u
            && message@ == "已打开网址："@ + text::trim(query),
        (None, Some(u), _) => r matches NavigationStart::Open { url, message } && url == u
            && message@ == "已打开站点："@ + text::trim(query),
        (None, None, None) => r matches NavigationStart::Fail(m) && m@ == "浏览器技能配置缺失"@,
        (None, None, Some(o)) => if o.llm_site_resolution_enabled {
            r is AskModel
        } else {
            r is Fallback
        },
    }
}

/// Begins the search for the page of a spoken name.
pub fn begin_browser_navigation(
    query: &str,
    url: Option<String>,
    site: Option<String>,
    options: Option<&BrowserOptions>,
) -> (r: NavigationStart)
    ensures
        is_navigation_start(query@, url, site, options, r),
{
    if let Some(url) = url {
        let message = text::concat2("已打开网址：", text::trim_str(query));
        return NavigationStart::Open { url, message };
    }
    if let Some(url) = site {
        let message = text::concat2("已打开站点：", text::trim_str(query));
        return NavigationStart::Open { url, message };
    }
    match options {
        Some(options) => if options.llm_site_resolution_enabled {
            NavigationStart::AskModel
        } else {
            NavigationStart::Fallback
        },
        None => NavigationStart::Fail("浏览器技能配置缺失".to_string()),
    }
}

/// What came of asking the language model for a page.
pub enum SiteAnswer {
    NotAsked,
    Cancelled,
    Failed(String),
    Answered { resolved_url: Option<String>, fallback_reason: Option<String> },
}

/// Why the model did not come up with a page.
pub open spec fn site_reason(answer: SiteAnswer) -> Option<Seq<char>> {
    match answer {
        SiteAnswer::Failed(e) => Some(e@),
        SiteAnswer::Answered { resolved_url, fallback_reason } => text::opt_text(
            fallback_reason,
        ),
        _ => None,
    }
}

/// `r` is how the search for the page of a spoken name ends: the page that the model found,
/// else a web search, else a failure with the best reason there is. `search_url` is
/// the address of the web search.
pub open spec fn is_navigation_end(
    query: Seq<char>,
    options: BrowserOptions,
    answer: SiteAnswer,
    search_url: Result<String, String>,
    r: Result<(String, String), String>,
) -> bool {
    match answer {
        SiteAnswer::Cancelled => r matches Err(e) && e@ == "浏览器网址解析已取消"@,
        SiteAnswer::Answered { resolved_url: Some(u), .. } => r matches Ok((url, message)) && url
            == u && message@ == "已解析并打开："@ + text::trim(query),
        _ => if options.search_fallback_enabled {
            match search_url {
                Err(e) => r == Err::<(String, String), String>(e),
                Ok(u) => r matches Ok((url, message)) && url == u && message@ == (
                match site_reason(answer) {
                    Some(reason) => "未识别到精确网址，已改为搜索："@ + text::trim(query) + "（"@
                        + reason + "）"@,
                    None => "未识别到精确网址，已改为搜索："@ + text::trim(query),
                }),
            }
        } else {
            r matches Err(e) && e@ == (match site_reason(answer) {
                Some(reason) => reason,
                None => "未识别到可打开的网址："@ + text::trim(query),
            })
        },
    }
}

/// Ends the search for the page of a spoken name.
pub fn finish_browser_navigation(
    query: &str,
    options: &BrowserOptions,
    answer: SiteAnswer,
    search_url: Result<String, String>,
) -> (r: Result<(String, String), String>)
    ensures
        is_navigation_end(query@, *options, answer, search_url, r),
{
    let name = text::trim_str(query);
    let reason: Option<String> = match answer {
        SiteAnswer::NotAsked => None,
        SiteAnswer::Cancelled => return Err("浏览器网址解析已取消".to_string()),
        SiteAnswer::Failed(error) => Some(error),
        SiteAnswer::Answered { resolved_url, fallback_reason } => {
            if let Some(url) = resolved_url {
                return Ok((url, text::concat2("已解析并打开：", name)));
            }
            fallback_reason
        },
    };
    if options.search_fallback_enabled {
        let url = match search_url {
            Ok(url) => url,
            Err(error) => return Err(error),
        };
        let mut message = text::concat2("未识别到精确网址，已改为搜索：", name);
        if let Some(reason) = reason {
            message.append("（");
            message.append(reason.as_str());
            message.append("）");
        }
        return Ok((url, message));
    }
    match reason {
        Some(reason) => Err(reason),
        None => Err(text::concat2("未识别到可打开的网址：", name)),
    }
}

/// How the search for the desktop target of a spoken name begins.
pub enum TargetStart<T> {
    /// The target is known; the message is for the user.
    Open { target: T, message: String },
    /// The language model is to be asked.
    AskModel,
    Fail(String),
}

/// `r` is how the search for the desktop target of a spoken name begins. `candidate` is the
/// target that the name stands for.
pub open spec fn is_target_start<T>(
    query: Seq<char>,
    candidate: Option<T>,
    options: Option<&WindowsOptions>,
    r: TargetStart<T>,
) -> bool {
    match (candidate, options) {
        (Some(t), _) => r matches TargetStart::Open { target, message } && target == t && message@
            == "Opened Windows target: "@ + text::trim(query),
        (None, None) => r matches TargetStart::Fail(m) && m@
            == "Windows skill configuration is missing"@,
        (None, Some(o)) => if o.llm_target_resolution_enabled {
            r is AskModel
        } else {
            r matches TargetStart::Fail(m) && m@ == "No Windows target matched: "@ + text::trim(
                query,
            )
        },
    }
}

/// Begins the search for the desktop target of a spoken name.
pub fn begin_windows_target<T>(
    query: &str,
    candidate: Option<T>,
    options: Option<&WindowsOptions>,
) -> (r: TargetStart<T>)
    ensures
        is_target_start(query@, candidate, options, r),
{
    let name = text::trim_str(query);
    match candidate {
        Some(target) => TargetStart::Open {
            target,
            message: text::concat2("Opened Windows target: ", name),
        },
        None => match options {
            None => TargetStart::Fail("Windows skill configuration is missing".to_string()),
            Some(options) => if options.llm_target_resolution_enabled {
                TargetStart::AskModel
            } else {
                TargetStart::Fail(text::concat2("No Windows target matched: ", name))
            },
        },
    }
}

/// What came of asking the language model for a desktop target. `target` is the
/// target with the id that the model named.
pub enum TargetAnswer<T> {
    Cancelled,
    Failed(String),
    Answered { target: Option<T>, fallback_reason: Option<String> },
}

/// `r` is how the search for the desktop target of a spoken name ends.
pub open spec fn is_target_end<T>(
    query: Seq<char>,
    answer: TargetAnswer<T>,
    r: Result<(T, String), String>,
) -> bool {
    match answer {
        TargetAnswer::Cancelled => r matches Err(e) && e@
            == "Windows target resolution was cancelled"@,
        TargetAnswer::Failed(error) => r == Err::<(T, String), String>(error),
        TargetAnswer::Answered { target: Some(t), .. } => r matches Ok((target, message)) && target
            == t && message@ == "Resolved and opened Windows target: "@ + text::trim(query),
        TargetAnswer::Answered { target: None, fallback_reason } => r matches Err(e) && e@ == (
        match fallback_reason {
            Some(reason) => reason@,
            None => "No Windows target matched: "@ + text::trim(query),
        }),
    }
}

/// Ends the search for the desktop target of a spoken name.
pub fn finish_windows_target<T>(query: &str, answer: TargetAnswer<T>) -> (r: Result<
    (T, String),
    String,
>)
    ensures
        is_target_end(query@, answer, r),
{
    let name = text::trim_str(query);
    match answer {
        TargetAnswer::Cancelled => Err("Windows target resolution was cancelled".to_string()),
        TargetAnswer::Failed(error) => Err(error),
        TargetAnswer::Answered { target, fallback_reason } => match target {
            Some(target) => Ok(
                (target, text::concat2("Resolved and opened Windows target: ", name)),
            ),
            None => match fallback_reason {
                Some(reason) => Err(reason),
                None => Err(text::concat2("No Windows target matched: ", name)),
            },
        },
    }
}

/// `f` tells the user `message` at the given level.
pub open spec fn tells(f: VoiceCommandFeedback, level: Seq<char>, message: Seq<char>) -> bool {
    f.level@ == level && f.message@ == message
}

fn feedback(level: &str, message: String) -> (r: VoiceCommandFeedback)
    ensures
        tells(r, level@, message@),
{
    VoiceCommandFeedback { level: level.to_string(), message }
}

/// What the user is told once a plan has been carried out: the success, and then
/// the note of the plan.
pub fn plan_done_feedback(message: String, note: Option<String>) -> (r: Vec<VoiceCommandFeedback>)
    ensures
        r@.len() == (if note is Some {
            2int
        } else {
            1
        }),
        tells(r@[0], "success"@, message@),
        note matches Some(n) ==> tells(r@[1], "info"@, n@),
{
    let mut out: Vec<VoiceCommandFeedback> = Vec::new();
    out.push(feedback("success", message));
    if let Some(note) = note {
        out.push(feedback("info", note));
    }
    out
}

// ---------------------------------------------------------------------------
// Settings by voice
// ---------------------------------------------------------------------------

/// The match behind an optional reference.
pub open spec fn behind(m: Option<&SkillMatch>) -> Option<SkillMatch> {
    match m {
        Some(n) => Some(*n),
        None => None,
    }
}

/// Whether a spoken settings command still lacks its argument.
pub fn config_skill_requires_more_input(
    transcript: &str,
    skill_match: &SkillMatch,
    next_match: Option<&SkillMatch>,
) -> (r: bool)
    ensures
        r == (skill_match.skill_id@ == skills::SWITCH_POLISH_SCENE_SKILL_ID@
            && skills::scene_query(transcript@, *skill_match, behind(next_match)).len() == 0),
{
    if text::str_eq(skill_match.skill_id.as_str(), skills::SWITCH_POLISH_SCENE_SKILL_ID) {
        skills::extract_scene_query(transcript, skill_match, next_match).as_str().is_empty()
    } else {
        false
    }
}

/// `plan` is what switching to the scene called `query` leads to.
pub open spec fn is_switch_plan(
    config: AppConfig,
    query: Seq<char>,
    plan: ConfigSkillPlan,
) -> bool {
    let m = config@.llm_config;
    let found = skills::scene_candidates(m.profiles, query);
    if query.len() == 0 {
        plan matches ConfigSkillPlan::Feedback(f) && tells(
            f,
            "error"@,
            "未识别到要切换的润色场景"@,
        )
    } else if found.len() == 0 {
        plan matches ConfigSkillPlan::Feedback(f) && tells(
            f,
            "error"@,
            "未找到匹配场景："@ + query,
        )
    } else if found.len() > 1 {
        plan matches ConfigSkillPlan::Feedback(f) && tells(
            f,
            "error"@,
            "匹配到多个场景："@ + text::joined(
                found.map_values(|p: storage::ProfileModel| p.name),
                "、"@,
            ),
        )
    } else if m.active_profile_id == found[0].id {
        plan matches ConfigSkillPlan::Feedback(f) && tells(
            f,
            "info"@,
            "当前已经是场景“"@ + found[0].name + "”"@,
        )
    } else {
        plan matches ConfigSkillPlan::Save { config: next, feedback } && tells(
            feedback,
            "success"@,
            "已切换到场景“"@ + found[0].name + "”"@,
        ) && next@ == (storage::AppModel {
            llm_config: storage::LlmModel { active_profile_id: found[0].id, ..m },
            ..config@
        })
    }
}

/// What a spoken settings command leads to.
pub fn plan_config_skill_update(
    transcript: &str,
    skill_match: &SkillMatch,
    next_match: Option<&SkillMatch>,
    config: &AppConfig,
) -> (r: Result<ConfigSkillPlan, String>)
    ensures
        r is Ok <==> skill_match.skill_id@ == skills::SWITCH_POLISH_SCENE_SKILL_ID@,
        r matches Ok(plan) ==> is_switch_plan(
            *config,
            skills::scene_query(transcript@, *skill_match, behind(next_match)),
            plan,
        ),
        r matches Err(e) ==> e@ == "Unsupported config skill: "@ + skill_match.skill_id@,
{
    if !text::str_eq(skill_match.skill_id.as_str(), skills::SWITCH_POLISH_SCENE_SKILL_ID) {
        return Err(text::concat2("Unsupported config skill: ", skill_match.skill_id.as_str()));
    }
    let query = skills::extract_scene_query(transcript, skill_match, next_match);
    if query.as_str().is_empty() {
        return Ok(
            ConfigSkillPlan::Feedback(
                feedback("error", "未识别到要切换的润色场景".to_string()),
            ),
        );
    }
    match skills::resolve_scene(&config.llm_config.profiles, query.as_str()) {
        SceneResolveResult::Unique { profile_id, profile_name } => {
            if text::str_eq(config.llm_config.active_profile_id.as_str(), profile_id.as_str()) {
                let message = text::concat3(
                    "当前已经是场景“",
                    profile_name.as_str(),
                    "”",
                );
                return Ok(ConfigSkillPlan::Feedback(feedback("info", message)));
            }
            let mut next_config = config.clone();
            next_config.llm_config.active_profile_id = profile_id;
            let message = text::concat3("已切换到场景“", profile_name.as_str(), "”");
            Ok(
                ConfigSkillPlan::Save {
                    config: Box::new(next_config),
                    feedback: feedback("success", message),
                },
            )
        },
        SceneResolveResult::Unknown => {
            let message = text::concat2("未找到匹配场景：", query.as_str());
            Ok(ConfigSkillPlan::Feedback(feedback("error", message)))
        },
        SceneResolveResult::Ambiguous(names) => {
            let all = text::join(&names, "、");
            let message = text::concat2("匹配到多个场景：", all.as_str());
            Ok(ConfigSkillPlan::Feedback(feedback("error", message)))
        },
    }
}

// ---------------------------------------------------------------------------
// Laws of clauses and keys
// ---------------------------------------------------------------------------

/// A mark that ends a clause stands in `s` at `i`, or a word that links it to the next one.
pub open spec fn clause_ends_at(s: Seq<char>, i: int) -> bool {
    &&& 0 <= i < s.len()
    &&& {
        ||| s[i] == ',' || s[i] == ';' || s[i] == '\n' || s[i] == '\r'
        ||| s[i] == '\u{ff0c}' || s[i] == '\u{ff1b}' || s[i] == '\u{3002}'
        ||| i + 1 < s.len() && s[i] == '然' && s[i + 1] == '后'
        ||| i + 1 < s.len() && s[i] == '并' && s[i + 1] == '且'
        ||| i + 1 < s.len() && s[i] == '接' && s[i + 1] == '着'
    }
}

proof fn lemma_clause_ends_at(s: Seq<char>, i: int)
    requires
        0 <= i < s.len(),
    ensures
        boundary_width(s, i) > 0 <==> clause_ends_at(s, i),
{
    reveal_strlit("然后");
    reveal_strlit("并且");
    reveal_strlit("接着");
    if i + 1 < s.len() {
        let pair = s.subrange(i, i + 2);
        assert(pair =~= seq![s[i], s[i + 1]]);
        assert(pair[0] == s[i] && pair[1] == s[i + 1]);
        assert("然后"@ =~= seq!['然', '后']);
        assert("并且"@ =~= seq!['并', '且']);
        assert("接着"@ =~= seq!['接', '着']);
        assert(seq!['然', '后'][0] == '然' && seq!['然', '后'][1] == '后');
        assert(seq!['并', '且'][0] == '并' && seq!['并', '且'][1] == '且');
        assert(seq!['接', '着'][0] == '接' && seq!['接', '着'][1] == '着');
    }
}

proof fn lemma_boundary_is(s: Seq<char>, i: int)
    requires
        clause_ends_at(s, i),
        forall|j: int| 0 <= j < i ==> !#[trigger] clause_ends_at(s, j),
    ensures
        has_boundary(s),
        boundary_at(s) == i,
{
    lemma_clause_ends_at(s, i);
    assert forall|j: int| 0 <= j < i implies boundary_width(s, j) == 0 by {
        lemma_clause_ends_at(s, j);
        assert(!clause_ends_at(s, j));
    }
    assert(is_first_boundary(s, i));
    let k = boundary_at(s);
    assert(is_first_boundary(s, k));
}

/// The first clause of a text is its beginning up to the first mark or linking word, all of
/// it but the punctuation at its end; and a text without any is one clause. What is used up
/// beyond the clause is the mark or the word, and punctuation.
pub proof fn law_a_clause_ends_at_the_first_mark(s: Seq<char>)
    ensures
        ({
            let clause = first_clause(s);
            let end = first_clause_end(s);
            &&& clause.is_prefix_of(s)
            &&& forall|i: int| 0 <= i < clause.len() - 1 ==> !#[trigger] clause_ends_at(s, i)
            &&& (forall|i: int| 0 <= i < s.len() ==> !#[trigger] clause_ends_at(s, i)) ==> end
                == s.len() && forall|i: int|
                clause.len() <= i < s.len() ==> text::is_whitespace(#[trigger] s[i])
            &&& forall|b: int|
                (#[trigger] clause_ends_at(s, b) && forall|j: int|
                    0 <= j < b ==> !#[trigger] clause_ends_at(s, j)) ==> {
                    &&& clause.len() <= b < end <= s.len()
                    &&& forall|i: int|
                        clause.len() <= i < b ==> text::in_class(
                            CharClass::ClauseEdge,
                            #[trigger] s[i],
                        )
                    &&& forall|i: int|
                        b + 2 <= i < end ==> text::in_class(CharClass::ClauseEdge, #[trigger] s[i])
                    &&& end < s.len() ==> !text::in_class(CharClass::ClauseEdge, s[end])
                }
        }),
{
    let clause = first_clause(s);
    let end = first_clause_end(s);
    if has_boundary(s) {
        let b = boundary_at(s);
        assert(is_first_boundary(s, b));
        lemma_clause_ends_at(s, b);
        text::lemma_trailing(s.take(b), CharClass::ClauseEdge);
        let after = b + boundary_width(s, b);
        reveal_strlit("然后");
        reveal_strlit("并且");
        reveal_strlit("接着");
        assert(after <= s.len());
        text::lemma_leading(s.skip(after), CharClass::ClauseEdge);
        assert forall|j: int| 0 <= j < b implies !#[trigger] clause_ends_at(s, j) by {
            lemma_clause_ends_at(s, j);
        }
        assert(clause =~= s.take(clause.len() as int));
        assert forall|i: int| clause.len() <= i < b implies text::in_class(
            CharClass::ClauseEdge,
            #[trigger] s[i],
        ) by {
            assert(s.take(b)[i] == s[i]);
        }
        assert forall|i: int| b + 2 <= i < end implies text::in_class(
            CharClass::ClauseEdge,
            #[trigger] s[i],
        ) by {
            assert(s.skip(after)[i - after] == s[i]);
        }
        if end < s.len() {
            assert(s.skip(after)[end - after] == s[end]);
        }
        assert forall|c: int|
            (#[trigger] clause_ends_at(s, c) && forall|j: int|
                0 <= j < c ==> !#[trigger] clause_ends_at(s, j)) implies c == b by {
            if c < b {
                assert(!clause_ends_at(s, c));
            } else if b < c {
                assert(!clause_ends_at(s, b));
            }
        }
        assert(clause_ends_at(s, b));
    } else {
        text::lemma_trailing(s, CharClass::Space);
        assert(clause =~= s.take(clause.len() as int));
        if exists|i: int| clause_ends_at(s, i) {
            let i = choose|i: int| clause_ends_at(s, i);
            lemma_some_first(s, i);
            assert(false);
        }
        assert forall|i: int| clause.len() <= i < s.len() implies text::is_whitespace(
            #[trigger] s[i],
        ) by {
            assert(text::in_class(CharClass::Space, s[i]));
        }
    }
}

proof fn lemma_some_first(s: Seq<char>, i: int)
    requires
        clause_ends_at(s, i),
    ensures
        has_boundary(s),
    decreases i,
{
    if forall|j: int| 0 <= j < i ==> !#[trigger] clause_ends_at(s, j) {
        lemma_boundary_is(s, i);
    } else {
        let j = choose|j: int| 0 <= j < i && #[trigger] clause_ends_at(s, j);
        lemma_some_first(s, j);
    }
}

/// Two clauses with a comma between them are two clauses: the first is the whole text before
/// the comma, and what is left for later is the whole text after it.
pub proof fn law_a_comma_separates_two_clauses(a: Seq<char>, b: Seq<char>, comma: char)
    requires
        comma == ',' || comma == ';' || comma == '\u{ff0c}' || comma == '\u{ff1b}' || comma
            == '\u{3002}',
        a.len() > 0 && b.len() > 0,
        forall|i: int| 0 <= i < a.len() ==> !#[trigger] clause_ends_at(a, i),
        !text::in_class(CharClass::ClauseEdge, a.last()),
        !text::in_class(CharClass::ClauseEdge, b[0]),
    ensures
        ({
            let s = a.push(comma) + b;
            first_clause(s) == a && s.skip(first_clause_end(s)) == b
        }),
{
    let s = a.push(comma) + b;
    let n = a.len() as int;
    assert(s[n] == comma);
    assert(clause_ends_at(s, n));
    assert forall|j: int| 0 <= j < n implies !#[trigger] clause_ends_at(s, j) by {
        assert(!clause_ends_at(a, j));
        assert(s[j] == a[j]);
        if j + 1 < n {
            assert(s[j + 1] == a[j + 1]);
        } else {
            assert(s[j + 1] == comma);
        }
    }
    lemma_boundary_is(s, n);
    assert(s.take(n) =~= a);
    text::lemma_trailing_is(a, CharClass::ClauseEdge, 0);
    assert(a.take(n) =~= a);
    assert(boundary_width(s, n) == 1);
    assert(s.skip(n + 1) =~= b);
    text::lemma_leading_is(b, CharClass::ClauseEdge, 0);
    assert(b.skip(0) =~= b);
    assert(s.skip(first_clause_end(s)) =~= b);
}

/// What is left to work off of a transcript is its end, from the first place where it differs
/// from what was consumed, without the punctuation there; nothing else of it is skipped, and
/// there is nothing left only where all the rest is blank.
pub proof fn law_the_rest_is_left_to_work_off(
    s: Option<SessionModel>,
    id: u64,
    transcript: Seq<char>,
)
    requires
        is_current(s, id),
    ensures
        exists|k: int|
            #![trigger transcript.skip(k)]
            {
                let c = prepared(s, id, transcript)->0.consumed.len();
                &&& c <= k <= transcript.len()
                &&& forall|i: int|
                    c <= i < k ==> text::in_class(CharClass::TranscriptLead, #[trigger] transcript[i])
                &&& k < transcript.len() ==> !text::in_class(
                    CharClass::TranscriptLead,
                    transcript[k],
                )
                &&& match remaining_text(s, id, transcript) {
                    Some((rest, offset)) => rest == transcript.skip(k) && offset == text::byte_len(
                        transcript.take(k),
                    ) && !text::is_blank(rest),
                    None => text::is_blank(transcript.skip(k)),
                }
            },
        remaining_text(None, id, transcript) is None,
{
    let consumed = s->0.consumed;
    text::lemma_common_len(consumed, transcript);
    let c = text::common_len(consumed, transcript) as int;
    text::lemma_leading(transcript.skip(c), CharClass::TranscriptLead);
    let k = remaining_start(consumed, transcript);
    assert forall|i: int| c <= i < k implies text::in_class(
        CharClass::TranscriptLead,
        #[trigger] transcript[i],
    ) by {
        assert(transcript.skip(c)[i - c] == transcript[i]);
    }
    if k < transcript.len() {
        assert(transcript.skip(c)[k - c] == transcript[k]);
    }
    assert(transcript.skip(k).len() == transcript.len() - k);
}

/// Different things that can be asked of the browser have different keys, so that the one is
/// not taken for the other; two requests to open a page have the same key exactly where they
/// name the same page but for case and the white space round it.
pub proof fn law_browser_keys_tell_actions_apart(a: BrowserAction, b: BrowserAction)
    ensures
        browser_key(a) == browser_key(b) <==> match (a, b) {
            (
                BrowserAction::OpenTarget { query: p },
                BrowserAction::OpenTarget { query: q },
            ) => text::lowercase(text::trim(p@)) == text::lowercase(text::trim(q@)),
            (
                BrowserAction::SwitchTabIndex { index: i },
                BrowserAction::SwitchTabIndex { index: j },
            ) => i == j,
            (BrowserAction::Find { query: p }, BrowserAction::Find { query: q }) => text::lowercase(
                text::trim(spoken_or_empty(p)),
            ) == text::lowercase(text::trim(spoken_or_empty(q))),
            _ => a == b && !(a is OpenTarget) && !(a is SwitchTabIndex) && !(a is Find),
        },
{
    reveal_strlit("browser:open_target:");
    reveal_strlit("browser:switch_tab:");
    reveal_strlit("browser:find:");
    reveal_strlit("browser:");
    reveal_strlit("");
    assert(""@ =~= seq![]);
    let open = "browser:open_target:"@;
    let tab = "browser:switch_tab:"@;
    let find = "browser:find:"@;
    let other = "browser:"@;
    assert(open[8] == 'o');
    assert(tab[8] == 's');
    assert(find[8] == 'f');
    assert(other.len() == 8);
    skills::lemma_browser_names(a, b);
    skills::lemma_browser_names(b, a);
    let x = browser_key(a);
    let y = browser_key(b);
    lemma_key_head(a);
    lemma_key_head(b);
    if x == y {
        assert(x[8] == y[8]);
        match (a, b) {
            (BrowserAction::OpenTarget { query: p }, BrowserAction::OpenTarget { query: q }) => {
                assert(x.skip(20) =~= text::lowercase(text::trim(p@)));
                assert(y.skip(20) =~= text::lowercase(text::trim(q@)));
            },
            (
                BrowserAction::SwitchTabIndex { index: i },
                BrowserAction::SwitchTabIndex { index: j },
            ) => {
                assert(x.skip(19) =~= text::decimal(i as nat));
                assert(y.skip(19) =~= text::decimal(j as nat));
                text::lemma_decimal_injective(i as nat, j as nat);
            },
            (BrowserAction::Find { query: p }, BrowserAction::Find { query: q }) => {
                assert(x.skip(13) =~= text::lowercase(text::trim(spoken_or_empty(p))));
                assert(y.skip(13) =~= text::lowercase(text::trim(spoken_or_empty(q))));
            },
            _ => {
                if !(a is OpenTarget) && !(a is SwitchTabIndex) && !(a is Find) && !(b is OpenTarget)
                    && !(b is SwitchTabIndex) && !(b is Find) {
                    assert(x.skip(8) =~= a.variant_text());
                    assert(y.skip(8) =~= b.variant_text());
                }
            },
        }
    }
}

/// A spoken text, or the empty text where none was spoken.
pub open spec fn spoken_or_empty(query: Option<String>) -> Seq<char> {
    match query {
        Some(q) => q@,
        None => Seq::empty(),
    }
}

proof fn lemma_key_head(a: BrowserAction)
    ensures
        browser_key(a).len() > 8,
        a is OpenTarget ==> browser_key(a)[8] == 'o',
        a is SwitchTabIndex ==> browser_key(a)[8] == 's',
        a is Find ==> browser_key(a)[8] == 'f',
        !(a is OpenTarget) && !(a is SwitchTabIndex) && !(a is Find) ==> 'A' <= browser_key(a)[8]
            <= 'Z',
{
    reveal_strlit("browser:open_target:");
    reveal_strlit("browser:switch_tab:");
    reveal_strlit("browser:find:");
    reveal_strlit("browser:");
    assert("browser:open_target:"@[8] == 'o');
    assert("browser:switch_tab:"@[8] == 's');
    assert("browser:find:"@[8] == 'f');
    assert("browser:"@.len() == 8);
    skills::lemma_browser_names(a, a);
    if !(a is OpenTarget) && !(a is SwitchTabIndex) && !(a is Find) {
        assert(browser_key(a)[8] == a.variant_text()[0]);
    }
}

/// Different things that can be asked of the desktop have different keys, and no key of the
/// desktop is one of the browser.
pub proof fn law_desktop_keys_tell_actions_apart(
    a: WindowsAction,
    b: WindowsAction,
    c: BrowserAction,
)
    ensures
        windows_key(a) == windows_key(b) <==> match (a, b) {
            (
                WindowsAction::OpenTarget { query: p },
                WindowsAction::OpenTarget { query: q },
            ) => text::lowercase(text::trim(p@)) == text::lowercase(text::trim(q@)),
            _ => a == b && !(a is OpenTarget),
        },
        windows_key(a) != browser_key(c),
{
    reveal_strlit("windows:open_target:");
    reveal_strlit("windows:");
    reveal_strlit("browser:open_target:");
    reveal_strlit("browser:switch_tab:");
    reveal_strlit("browser:find:");
    reveal_strlit("browser:");
    assert("windows:open_target:"@[8] == 'o');
    assert("windows:open_target:"@[0] == 'w');
    assert("windows:"@[0] == 'w');
    assert("windows:"@.len() == 8);
    assert("browser:open_target:"@[0] == 'b');
    assert("browser:switch_tab:"@[0] == 'b');
    assert("browser:find:"@[0] == 'b');
    assert("browser:"@[0] == 'b');
    skills::lemma_windows_names(a, b);
    skills::lemma_windows_names(b, a);
    let x = windows_key(a);
    let y = windows_key(b);
    assert(x[0] == 'w');
    assert(browser_key(c)[0] == 'b');
    if a is OpenTarget {
        assert(x[8] == 'o');
    } else {
        assert(x[8] == a.variant_text()[0]);
    }
    if b is OpenTarget {
        assert(y[8] == 'o');
    } else {
        assert(y[8] == b.variant_text()[0]);
    }
    if x == y {
        match (a, b) {
            (WindowsAction::OpenTarget { query: p }, WindowsAction::OpenTarget { query: q }) => {
                assert(x.skip(20) =~= text::lowercase(text::trim(p@)));
                assert(y.skip(20) =~= text::lowercase(text::trim(q@)));
            },
            _ => {
                if !(a is OpenTarget) && !(b is OpenTarget) {
                    assert(x.skip(8) =~= a.variant_text());
                    assert(y.skip(8) =~= b.variant_text());
                }
            },
        }
    }
}

/// The verb before the name of a target is no part of it, whichever of them is said, and
/// neither is a word for a page behind it: a name that has neither is found as it was said.
pub proof fn law_the_verb_is_no_part_of_the_name(name: Seq<char>)
    requires
        name.len() > 0,
        !text::in_class(CharClass::ClauseEdge, name[0]),
        !text::in_class(CharClass::ClauseEdge, name.last()),
        forall|w: int| 0 <= w < page_words().len() ==> !(#[trigger] page_words()[w]).is_suffix_of(
            name,
        ),
    ensures
        normalized_query("打开"@ + name) == name,
        normalized_query("启动"@ + name) == name,
        normalized_query("运行"@ + name) == name,
        normalized_query("open "@ + name) == name,
        normalized_query("launch "@ + name) == name,
        normalized_query("start "@ + name) == name,
        normalized_query("run "@ + name) == name,
{
    lemma_verb_goes("打开"@, "打开"@, name, 0);
    lemma_verb_goes("启动"@, "启动"@, name, 1);
    lemma_verb_goes("运行"@, "运行"@, name, 2);
    lemma_verb_goes("open"@, "open "@, name, 3);
    lemma_verb_goes("launch"@, "launch "@, name, 4);
    lemma_verb_goes("start"@, "start "@, name, 5);
    lemma_verb_goes("run"@, "run "@, name, 6);
}

proof fn lemma_verb_goes(verb: Seq<char>, spoken: Seq<char>, name: Seq<char>, k: int)
    requires
        0 <= k < 7,
        verb == open_verbs()[k],
        k == 0 ==> spoken == "打开"@,
        k == 1 ==> spoken == "启动"@,
        k == 2 ==> spoken == "运行"@,
        k == 3 ==> spoken == "open "@,
        k == 4 ==> spoken == "launch "@,
        k == 5 ==> spoken == "start "@,
        k == 6 ==> spoken == "run "@,
        name.len() > 0,
        !text::in_class(CharClass::ClauseEdge, name[0]),
        !text::in_class(CharClass::ClauseEdge, name.last()),
        forall|w: int| 0 <= w < page_words().len() ==> !(#[trigger] page_words()[w]).is_suffix_of(
            name,
        ),
    ensures
        normalized_query(spoken + name) == name,
{
    lemma_verbs();
    let s = spoken + name;
    let first = verb[0];
    assert(s[0] == first);
    assert(s.last() == name.last());
    text::lemma_leading_is(s, CharClass::ClauseEdge, 0);
    assert(s.skip(0) =~= s);
    text::lemma_trailing_is(s, CharClass::ClauseEdge, 0);
    assert(s.take(s.len() as int) =~= s);
    assert(text::trim_class(s, CharClass::ClauseEdge) == s);
    lemma_trimmed(s);
    let verbs = open_verbs();
    assert forall|j: int| 0 <= j < k implies !(#[trigger] verbs[j]).is_prefix_of(s) by {
        assert(verbs[j][0] != first);
    }
    assert(verb.is_prefix_of(s)) by {
        assert(s.take(verb.len() as int) =~= verb);
    }
    lemma_prefix_found(s, verbs, k);
    let rest = s.skip(verb.len() as int);
    lemma_trimmed(name);
    if k < 3 {
        assert(rest =~= name);
    } else {
        assert(rest =~= seq![' '] + name);
        text::lemma_leading_is(rest, CharClass::Space, 1);
        assert(rest.skip(1) =~= name);
        text::lemma_trailing_is(name, CharClass::Space, 0);
        assert(name.take(name.len() as int) =~= name);
    }
    assert(text::trim(rest) == name);
    lemma_suffix_none(name, page_words());
}

proof fn lemma_verbs()
    ensures
        open_verbs().len() == 7,
        page_words().len() == 5,
        forall|j: int, k: int|
            0 <= j < k < 7 ==> (#[trigger] open_verbs()[j])[0] != (#[trigger] open_verbs()[k])[0],
        forall|k: int| 0 <= k < 7 ==> (#[trigger] open_verbs()[k]).len() > 0,
        forall|k: int|
            0 <= k < 7 ==> !text::in_class(
                CharClass::ClauseEdge,
                (#[trigger] open_verbs()[k])[0],
            ),
        "打开"@ == open_verbs()[0],
        "启动"@ == open_verbs()[1],
        "运行"@ == open_verbs()[2],
        "open "@ == open_verbs()[3].push(' '),
        "launch "@ == open_verbs()[4].push(' '),
        "start "@ == open_verbs()[5].push(' '),
        "run "@ == open_verbs()[6].push(' '),
{
    reveal_strlit("打开");
    reveal_strlit("启动");
    reveal_strlit("运行");
    reveal_strlit("open");
    reveal_strlit("launch");
    reveal_strlit("start");
    reveal_strlit("run");
    reveal_strlit("open ");
    reveal_strlit("launch ");
    reveal_strlit("start ");
    reveal_strlit("run ");
    assert("open "@ =~= "open"@.push(' '));
    assert("launch "@ =~= "launch"@.push(' '));
    assert("start "@ =~= "start"@.push(' '));
    assert("run "@ =~= "run"@.push(' '));
    let v = open_verbs();
    assert(v[0][0] == '打');
    assert(v[1][0] == '启');
    assert(v[2][0] == '运');
    assert(v[3][0] == 'o');
    assert(v[4][0] == 'l');
    assert(v[5][0] == 's');
    assert(v[6][0] == 'r');
}

proof fn lemma_trimmed(s: Seq<char>)
    requires
        s.len() > 0,
        !text::in_class(CharClass::ClauseEdge, s[0]),
        !text::in_class(CharClass::ClauseEdge, s.last()),
    ensures
        text::trim(s) == s,
{
    text::lemma_leading_is(s, CharClass::Space, 0);
    assert(s.skip(0) =~= s);
    text::lemma_trailing_is(s, CharClass::Space, 0);
    assert(s.take(s.len() as int) =~= s);
}

proof fn lemma_prefix_found(s: Seq<char>, words: Seq<Seq<char>>, k: int)
    requires
        0 <= k < words.len(),
        forall|j: int| 0 <= j < k ==> !(#[trigger] words[j]).is_prefix_of(s),
        words[k].is_prefix_of(s),
    ensures
        without_prefix(s, words) == text::trim(s.skip(words[k].len() as int)),
    decreases k,
{
    if k > 0 {
        let rest = words.drop_first();
        assert(!words[0].is_prefix_of(s));
        assert forall|j: int| 0 <= j < k - 1 implies !(#[trigger] rest[j]).is_prefix_of(s) by {
            assert(rest[j] == words[j + 1]);
        }
        lemma_prefix_found(s, rest, k - 1);
    }
}

proof fn lemma_suffix_none(s: Seq<char>, words: Seq<Seq<char>>)
    requires
        forall|j: int| 0 <= j < words.len() ==> !(#[trigger] words[j]).is_suffix_of(s),
    ensures
        without_suffix(s, words) == s,
    decreases words.len(),
{
    if words.len() > 0 {
        let rest = words.drop_first();
        assert(!words[0].is_suffix_of(s));
        assert forall|j: int| 0 <= j < rest.len() implies !(#[trigger] rest[j]).is_suffix_of(s) by {
            assert(rest[j] == words[j + 1]);
        }
        lemma_suffix_none(s, rest);
    }
}

/// A name that is not known is acted upon while it may still grow only where it is long enough:
/// never where it is blank, and never a single character; at least four characters of a plain
/// address for a page, and three for a target of the desktop. A name that is known is acted
/// upon however short it is.
pub proof fn law_short_names_wait(name: Seq<char>)
    requires
        name.len() > 0,
        forall|i: int| 0 <= i < name.len() ==> 'a' <= #[trigger] name[i] <= 'z',
    ensures
        browser_query_ready(name, true, false),
        browser_query_ready(name, false, true),
        windows_query_ready(name, true),
        browser_query_ready(name, false, false) <==> name.len() >= 4,
        windows_query_ready(name, false) <==> name.len() >= 3,
{
    assert('a' <= name[0] <= 'z');
    assert('a' <= name[name.len() - 1] <= 'z');
    lemma_trimmed(name);
    lemma_all_kept(name);
}

proof fn lemma_all_kept(s: Seq<char>)
    requires
        forall|i: int| 0 <= i < s.len() ==> 'a' <= #[trigger] s[i] <= 'z',
    ensures
        visible_len(s) == s.len(),
    decreases s.len(),
{
    reveal(Seq::filter);
    if s.len() > 0 {
        let t = s.drop_last();
        assert forall|i: int| 0 <= i < t.len() implies 'a' <= #[trigger] t[i] <= 'z' by {
            assert(t[i] == s[i]);
        }
        lemma_all_kept(t);
        assert('a' <= s[s.len() - 1] <= 'z');
    }
}

/// In a new session nothing has run: every action can be claimed, and only in this session.
pub proof fn law_a_new_session_is_open_to_all_actions(id: u64, other: u64, key: Seq<char>)
    ensures
        can_reserve(Some(fresh_session(id)), id, key),
        other != id ==> !can_reserve(Some(fresh_session(id)), other, key),
        !can_reserve(None, id, key),
        fresh_session(id).consumed.len() == 0,
        fresh_session(id).candidate is None,
{
}

/// An action that is claimed cannot be claimed by another, and one that has not been carried
/// out is free again. Claiming it leaves everything else in the session as it is.
pub proof fn law_a_claim_ends_with_its_action(
    s: Option<SessionModel>,
    id: u64,
    key: Seq<char>,
    other: Seq<char>,
)
    requires
        is_current(s, id),
        !s->0.executed.contains(key),
        !s->0.pending.contains(key),
    ensures
        !can_reserve(reserved(s, id, key), id, key),
        can_reserve(completed(reserved(s, id, key), id, key, false), id, key),
        !can_reserve(completed(reserved(s, id, key), id, key, true), id, key),
        other != key ==> can_reserve(reserved(s, id, key), id, other) == can_reserve(s, id, other),
        other != key ==> can_reserve(completed(reserved(s, id, key), id, key, true), id, other)
            == can_reserve(s, id, other),
        reserved(s, id, key)->0.consumed == s->0.consumed,
        reserved(s, id, key)->0.executed == s->0.executed,
        completed(s, id, key, true)->0.consumed == s->0.consumed,
{
}

/// To switch the scene makes the scene that was named the active one, and changes nothing else
/// in the settings.
pub proof fn law_switching_changes_only_the_active_scene(
    config: AppConfig,
    query: Seq<char>,
    plan: ConfigSkillPlan,
)
    requires
        is_switch_plan(config, query, plan),
    ensures
        plan matches ConfigSkillPlan::Save { config: next, .. } ==> {
            let scenes = config@.llm_config.profiles;
            &&& exists|i: int|
                0 <= i < scenes.len() && #[trigger] scenes[i].id
                    == next@.llm_config.active_profile_id && (scenes[i].voice_aliases.contains(
                    query,
                ) || scenes[i].name == query)
            &&& next@.llm_config.profiles == scenes
            &&& next@.llm_config.active_profile_id != config@.llm_config.active_profile_id
            &&& next@ == (storage::AppModel {
                llm_config: storage::LlmModel {
                    active_profile_id: next@.llm_config.active_profile_id,
                    ..config@.llm_config
                },
                ..config@
            })
        },
        query.len() == 0 ==> plan is Feedback,
{
    let scenes = config@.llm_config.profiles;
    let found = skills::scene_candidates(scenes, query);
    if plan is Save {
        skills::law_scenes_are_found_by_what_they_are_called(scenes, query, 0);
        let i = choose|i: int| 0 <= i < scenes.len() && scenes[i] == found[0];
        assert(scenes[i].id == found[0].id);
    }
}

/// The word for a page behind the name of a target is no part of it, whichever of them is said.
pub proof fn law_the_word_for_a_page_is_no_part_of_the_name(name: Seq<char>)
    requires
        name.len() > 0,
        !text::in_class(CharClass::ClauseEdge, name[0]),
        !text::in_class(CharClass::ClauseEdge, name.last()),
        forall|v: int| 0 <= v < open_verbs().len() ==> (#[trigger] open_verbs()[v])[0] != name[0],
    ensures
        normalized_query(name) == name || exists|w: int|
            0 <= w < page_words().len() && (#[trigger] page_words()[w]).is_suffix_of(name),
        normalized_query(name + "页面"@) == name,
        normalized_query(name + "界面"@) == name,
        normalized_query(name + "面板"@) == name,
        normalized_query(name + " page"@) == name,
        normalized_query(name + " panel"@) == name,
{
    lemma_verbs();
    lemma_page_words();
    lemma_page_word_goes(name, 0);
    lemma_page_word_goes(name, 1);
    lemma_page_word_goes(name, 2);
    lemma_page_word_goes(name, 3);
    lemma_page_word_goes(name, 4);
    lemma_no_verb(name);
    if forall|w: int| 0 <= w < page_words().len() ==> !(#[trigger] page_words()[w]).is_suffix_of(
        name,
    ) {
        lemma_suffix_none(name, page_words());
    }
}

/// A request that no verb stands at the front of is taken as it is up to here.
proof fn lemma_no_verb(s: Seq<char>)
    requires
        s.len() > 0,
        !text::in_class(CharClass::ClauseEdge, s[0]),
        !text::in_class(CharClass::ClauseEdge, s.last()),
        forall|v: int| 0 <= v < open_verbs().len() ==> (#[trigger] open_verbs()[v])[0] != s[0],
    ensures
        normalized_query(s) == without_suffix(s, page_words()),
{
    lemma_verbs();
    text::lemma_leading_is(s, CharClass::ClauseEdge, 0);
    assert(s.skip(0) =~= s);
    text::lemma_trailing_is(s, CharClass::ClauseEdge, 0);
    assert(s.take(s.len() as int) =~= s);
    assert(text::trim_class(s, CharClass::ClauseEdge) == s);
    lemma_trimmed(s);
    let verbs = open_verbs();
    assert forall|j: int| 0 <= j < verbs.len() implies !(#[trigger] verbs[j]).is_prefix_of(s) by {
        assert(verbs[j].len() > 0);
        assert(verbs[j][0] != s[0]);
    }
    lemma_prefix_none(s, verbs);
}

proof fn lemma_prefix_none(s: Seq<char>, words: Seq<Seq<char>>)
    requires
        forall|j: int| 0 <= j < words.len() ==> !(#[trigger] words[j]).is_prefix_of(s),
    ensures
        without_prefix(s, words) == s,
    decreases words.len(),
{
    if words.len() > 0 {
        let rest = words.drop_first();
        assert(!words[0].is_prefix_of(s));
        assert forall|j: int| 0 <= j < rest.len() implies !(#[trigger] rest[j]).is_prefix_of(s) by {
            assert(rest[j] == words[j + 1]);
        }
        lemma_prefix_none(s, rest);
    }
}

proof fn lemma_page_words()
    ensures
        page_words().len() == 5,
        page_words()[0] == seq!['页', '面'],
        page_words()[1] == seq!['界', '面'],
        page_words()[2] == seq!['面', '板'],
        page_words()[3] == seq![' ', 'p', 'a', 'g', 'e'],
        page_words()[4] == seq![' ', 'p', 'a', 'n', 'e', 'l'],
        "页面"@ == page_words()[0],
        "界面"@ == page_words()[1],
        "面板"@ == page_words()[2],
        " page"@ == page_words()[3],
        " panel"@ == page_words()[4],
{
    reveal_strlit("页面");
    reveal_strlit("界面");
    reveal_strlit("面板");
    reveal_strlit(" page");
    reveal_strlit(" panel");
    assert("页面"@ =~= seq!['页', '面']);
    assert("界面"@ =~= seq!['界', '面']);
    assert("面板"@ =~= seq!['面', '板']);
    assert(" page"@ =~= seq![' ', 'p', 'a', 'g', 'e']);
    assert(" panel"@ =~= seq![' ', 'p', 'a', 'n', 'e', 'l']);
}

proof fn lemma_page_word_goes(name: Seq<char>, k: int)
    requires
        0 <= k < 5,
        name.len() > 0,
        !text::in_class(CharClass::ClauseEdge, name[0]),
        !text::in_class(CharClass::ClauseEdge, name.last()),
        forall|v: int| 0 <= v < open_verbs().len() ==> (#[trigger] open_verbs()[v])[0] != name[0],
    ensures
        normalized_query(name + page_words()[k]) == name,
{
    lemma_page_words();
    let words = page_words();
    let word = words[k];
    let s = name + word;
    let n = s.len() as int;
    assert(s[0] == name[0]);
    assert(s.last() == word.last());
    assert(!text::in_class(CharClass::ClauseEdge, word.last()));
    lemma_no_verb(s);
    assert(s[n - 1] == word[word.len() - 1]);
    assert(s[n - 2] == word[word.len() - 2]);
    assert forall|j: int| 0 <= j < k implies !(#[trigger] words[j]).is_suffix_of(s) by {
        if words[j].is_suffix_of(s) {
            let w = words[j];
            assert(s.subrange(n - w.len(), n) =~= w);
            assert(w[w.len() - 1] == s.subrange(n - w.len(), n)[w.len() - 1]);
            assert(w[w.len() - 2] == s.subrange(n - w.len(), n)[w.len() - 2]);
        }
    }
    assert(word.is_suffix_of(s)) by {
        assert(s.subrange(n - word.len(), n) =~= word);
    }
    lemma_suffix_found(s, words, k);
    assert(s.take(n - word.len()) =~= name);
    lemma_trimmed(name);
}

proof fn lemma_suffix_found(s: Seq<char>, words: Seq<Seq<char>>, k: int)
    requires
        0 <= k < words.len(),
        forall|j: int| 0 <= j < k ==> !(#[trigger] words[j]).is_suffix_of(s),
        words[k].is_suffix_of(s),
    ensures
        without_suffix(s, words) == text::trim(s.take(s.len() - words[k].len())),
    decreases k,
{
    if k > 0 {
        let rest = words.drop_first();
        assert(!words[0].is_suffix_of(s));
        assert forall|j: int| 0 <= j < k - 1 implies !(#[trigger] rest[j]).is_suffix_of(s) by {
            assert(rest[j] == words[j + 1]);
        }
        lemma_suffix_found(s, rest, k - 1);
    }
}

/// A page that is known is opened without asking the language model: the address that was
/// spoken before the page of a site. The model is asked only where that is allowed.
pub proof fn law_known_pages_are_opened_at_once(
    query: Seq<char>,
    url: Option<String>,
    site: Option<String>,
    options: Option<&BrowserOptions>,
    r: NavigationStart,
)
    requires
        is_navigation_start(query, url, site, options, r),
    ensures
        url matches Some(u) ==> (r matches NavigationStart::Open { url: opened, message }
            && opened@ == u@ && text::trim(query).is_suffix_of(message@)),
        url is None ==> (site matches Some(u) ==> (r matches NavigationStart::Open {
            url: opened,
            message,
        } && opened@ == u@ && text::trim(query).is_suffix_of(message@))),
        r is AskModel ==> url is None && site is None && options is Some
            && options->0.llm_site_resolution_enabled,
        url is None && site is None && options is None ==> r is Fail,
{
    let name = text::trim(query);
    if let NavigationStart::Open { url: _, message } = r {
        let m = message@;
        assert(m.subrange(m.len() - name.len(), m.len() as int) =~= name);
    }
}

/// The page that the model found is opened; where it found none a search for the name is, if
/// that is allowed, and otherwise the user is told why not. What was cancelled opens nothing.
pub proof fn law_a_page_or_a_search_is_opened(
    query: Seq<char>,
    options: BrowserOptions,
    answer: SiteAnswer,
    search_url: Result<String, String>,
    r: Result<(String, String), String>,
)
    requires
        is_navigation_end(query, options, answer, search_url, r),
    ensures
        answer is Cancelled ==> r is Err,
        answer matches SiteAnswer::Answered { resolved_url, .. } ==> (resolved_url matches Some(u)
            ==> (r matches Ok((url, _)) && url@ == u@)),
        !(answer is Cancelled) && !(answer matches SiteAnswer::Answered { resolved_url, .. }
            && resolved_url is Some) && options.search_fallback_enabled ==> (match search_url {
            Ok(u) => r matches Ok((url, _)) && url@ == u@,
            Err(e) => r matches Err(m) && m@ == e@,
        }),
        !(answer is Cancelled) && !(answer matches SiteAnswer::Answered { resolved_url, .. }
            && resolved_url is Some) && !options.search_fallback_enabled ==> r is Err,
        answer matches SiteAnswer::Failed(e) ==> (!options.search_fallback_enabled ==> (
        r matches Err(m) && m@ == e@)),
{
}

/// A target of the desktop that is known is opened at once, and one that the model found is
/// opened; nothing else is, and the user is told why.
pub proof fn law_only_a_target_that_was_found_is_opened<T>(
    query: Seq<char>,
    candidate: Option<T>,
    options: Option<&WindowsOptions>,
    start: TargetStart<T>,
    answer: TargetAnswer<T>,
    end: Result<(T, String), String>,
)
    requires
        is_target_start(query, candidate, options, start),
        is_target_end(query, answer, end),
    ensures
        candidate matches Some(t) ==> (start matches TargetStart::Open { target, .. } && target
            == t),
        candidate is None ==> !(start is Open),
        start is AskModel ==> options is Some && options->0.llm_target_resolution_enabled,
        answer matches TargetAnswer::Answered { target, .. } ==> (target matches Some(t) ==> (
        end matches Ok((opened, _)) && opened == t)),
        answer matches TargetAnswer::Answered { target, .. } ==> (target is None ==> end is Err),
        answer is Cancelled ==> end is Err,
        answer matches TargetAnswer::Failed(e) ==> (end matches Err(m) && m@ == e@),
{
}

/// A single character that is no letter of an address is not acted upon while it may still
/// grow, and two are.
pub proof fn law_a_single_character_waits(a: char, b: char)
    requires
        is_cjk_name(a),
        is_cjk_name(b),
    ensures
        !browser_query_ready(seq![a], false, false),
        !windows_query_ready(seq![a], false),
        browser_query_ready(seq![a, b], false, false),
        windows_query_ready(seq![a, b], false),
{
    let keep = |c: char| !text::is_whitespace(c);
    reveal_with_fuel(Seq::<_>::filter, 3);
    let one = seq![a];
    let two = seq![a, b];
    lemma_trimmed(one);
    lemma_trimmed(two);
    assert(one.drop_last() =~= Seq::<char>::empty());
    assert(two.drop_last() =~= one);
    assert(one.filter(keep) =~= one);
    assert(two.filter(keep) =~= two);
    assert(!is_address_char(one[0]));
    assert(!is_address_char(two[0]));
}

/// A Chinese character of the common block.
pub open spec fn is_cjk_name(c: char) -> bool {
    '\u{4E00}' <= c <= '\u{9FFF}'
}

} // verus!
