//! What the agent was asked before, as a context for what it is asked next.
use vstd::prelude::*;

use crate::paths;
use crate::text;

verus! {

/// The number of entries that are kept.
pub const MAX_ENTRIES: usize = 50;

/// One request to the agent, and what came of it.
pub struct AgentHistoryEntry {
    pub timestamp: String,
    pub user_input: String,
    pub agent_output: String,
    pub tool_summaries: Vec<String>,
}

/// The file that holds the history.
pub fn history_path(data_dir: &str) -> (r: String)
    ensures
        r@ == paths::joined_path(data_dir@, "agent_history.jsonl"@),
{
    paths::join(data_dir, "agent_history.jsonl")
}

/// The entries that the text of the file holds, one to a line.
pub fn stored_lines(content: &str) -> (r: Vec<String>)
    ensures
        text::views(r@) == text::not_blank(text::lines_of(content@)),
{
    let lines = text::lines(content);
    assert(text::views(lines@).skip(0) =~= text::views(lines@));
    text::filled_lines(&lines, 0)
}

/// The text of the file for entries, one to a line.
pub fn stored_text(lines: &Vec<String>) -> (r: String)
    ensures
        r@ == text::line_by_line(text::views(lines@)),
{
    let ghost all = text::views(lines@);
    let mut out = String::new();
    for i in 0..lines.len()
        invariant
            all == text::views(lines@),
            out@ == text::line_by_line(all.take(i as int)),
    {
        assert(all.take(i + 1).drop_last() =~= all.take(i as int));
        out = text::concat3(out.as_str(), lines[i].as_str(), "\n");
    }
    assert(all.take(all.len() as int) =~= all);
    out
}

/// What was written is read back: the lines of the file are the entries that were put in it.
pub proof fn law_stored_entries_are_read_back(lines: Seq<Seq<char>>)
    requires
        forall|i: int|
            0 <= i < lines.len() ==> text::is_line(#[trigger] lines[i]) && !text::is_blank(
                lines[i],
            ),
    ensures
        text::not_blank(text::lines_of(text::line_by_line(lines))) == lines,
        text::is_complete(text::line_by_line(lines)),
    decreases lines.len(),
{
    if lines.len() > 0 {
        let earlier = lines.drop_last();
        assert forall|i: int| 0 <= i < earlier.len() implies text::is_line(#[trigger] earlier[i])
            && !text::is_blank(earlier[i]) by {
            assert(earlier[i] == lines[i]);
        }
        law_stored_entries_are_read_back(earlier);
        let line = lines[lines.len() - 1];
        text::lemma_added_line(text::line_by_line(earlier), line);
        let all = text::lines_of(text::line_by_line(earlier));
        assert(all.push(line).drop_last() =~= all);
        assert(earlier.push(line) =~= lines);
    } else {
        assert(text::lines_of(text::line_by_line(lines)) =~= seq![]);
    }
}

/// The last `count` of a sequence.
pub open spec fn last_of<A>(s: Seq<A>, count: nat) -> Seq<A> {
    if s.len() > count {
        s.skip(s.len() - count)
    } else {
        s
    }
}

/// The last `count` entries.
pub fn read_recent(entries: Vec<AgentHistoryEntry>, count: usize) -> (r: Vec<AgentHistoryEntry>)
    ensures
        r@ == last_of(entries@, count as nat),
{
    let mut entries = entries;
    if entries.len() > count {
        let at: usize = entries.len() - count;
        let tail = entries.split_off(at);
        tail
    } else {
        entries
    }
}

/// The entries with one more, without the oldest where they are too many.
pub fn append_entry(entries: Vec<AgentHistoryEntry>, entry: AgentHistoryEntry) -> (r: Vec<
    AgentHistoryEntry,
>)
    ensures
        r@ == last_of(entries@.push(entry), MAX_ENTRIES as nat),
{
    let mut entries = entries;
    entries.push(entry);
    read_recent(entries, MAX_ENTRIES)
}

/// The history never holds more than the limit, and always holds the newest entry.
pub proof fn law_history_is_bounded(entries: Seq<AgentHistoryEntry>, entry: AgentHistoryEntry)
    ensures
        last_of(entries.push(entry), MAX_ENTRIES as nat).len() <= MAX_ENTRIES,
        last_of(entries.push(entry), MAX_ENTRIES as nat).last() == entry,
{
}

/// The first 100 characters.
pub open spec fn head(s: Seq<char>) -> Seq<char> {
    if s.len() <= 100 {
        s
    } else {
        s.take(100)
    }
}

/// An entry as the model is told about it, under the number `n`.
pub open spec fn entry_line(n: nat, e: AgentHistoryEntry) -> Seq<char> {
    text::decimal(n) + ". ["@ + e.timestamp@ + "] User: \""@ + head(e.user_input@)
        + "\" → Agent: \""@ + head(e.agent_output@) + "\"\n"@
}

/// The lines of the entries.
pub open spec fn entry_lines(entries: Seq<AgentHistoryEntry>) -> Seq<char>
    decreases entries.len(),
{
    if entries.len() == 0 {
        seq![]
    } else {
        entry_lines(entries.drop_last()) + entry_line(entries.len(), entries.last())
    }
}

/// The entries as a part of the system prompt. Nothing where there are none.
pub open spec fn context_text(entries: Seq<AgentHistoryEntry>) -> Seq<char> {
    if entries.len() == 0 {
        seq![]
    } else {
        "\n## Recent Conversations\n"@ + entry_lines(entries)
    }
}

pub fn format_as_context(entries: &Vec<AgentHistoryEntry>) -> (r: String)
    ensures
        r@ == context_text(entries@),
{
    if entries.len() == 0 {
        return String::new();
    }
    let mut ctx = "\n## Recent Conversations\n".to_string();
    let ghost title = ctx@;
    assert(ctx@ =~= title + entry_lines(entries@.take(0)));
    for i in 0..entries.len()
        invariant
            title == "\n## Recent Conversations\n"@,
            ctx@ == title + entry_lines(entries@.take(i as int)),
    {
        let ghost before = ctx@;
        let e = &entries[i];
        let number = text::to_decimal(i as u64 + 1);
        let asked = text::take_chars(e.user_input.as_str(), 100);
        let answered = text::take_chars(e.agent_output.as_str(), 100);
        ctx.append(number.as_str());
        ctx.append(". [");
        ctx.append(e.timestamp.as_str());
        ctx.append("] User: \"");
        ctx.append(asked.as_str());
        ctx.append("\" → Agent: \"");
        ctx.append(answered.as_str());
        ctx.append("\"\n");
        proof {
            let t = entries@.take(i + 1);
            assert(t.drop_last() =~= entries@.take(i as int));
            assert(ctx@ =~= before + entry_line((i + 1) as nat, *e));
            assert(ctx@ =~= title + entry_lines(t));
        }
    }
    assert(entries@.take(entries@.len() as int) =~= entries@);
    ctx
}

/// The last entries are the newest ones, in their order, as many as were asked for.
pub proof fn law_the_newest_entries_are_kept<A>(s: Seq<A>, count: nat, i: int)
    ensures
        last_of(s, count).len() <= count,
        s.len() >= count ==> last_of(s, count).len() == count,
        s.len() < count ==> last_of(s, count).len() == s.len(),
        0 <= i < last_of(s, count).len() ==> last_of(s, count)[last_of(s, count).len() - 1 - i]
            == s[s.len() - 1 - i],
{
}

proof fn lemma_entry_is_told(entries: Seq<AgentHistoryEntry>, i: int)
    requires
        0 <= i < entries.len(),
    ensures
        text::contains(entry_lines(entries), entry_line((i + 1) as nat, entries[i])),
    decreases entries.len(),
{
    let none = Seq::<char>::empty();
    let line = entry_line(entries.len(), entries.last());
    let before = entry_lines(entries.drop_last());
    if i == entries.len() - 1 {
        text::lemma_contains_self(line);
        text::lemma_contains_within(before, line, none, line);
        assert(before + line + none =~= entry_lines(entries));
    } else {
        lemma_entry_is_told(entries.drop_last(), i);
        text::lemma_contains_within(none, before, line, entry_line((i + 1) as nat, entries[i]));
        assert(none + before + line =~= entry_lines(entries));
    }
}

/// The model is told of each entry, numbered from one in their order: when it was, what the
/// user asked and what the agent answered, each as far as it is not too long.
pub proof fn law_the_model_is_told_of_each_entry(entries: Seq<AgentHistoryEntry>, i: int)
    requires
        0 <= i < entries.len(),
        entries[i].user_input@.len() <= 100,
        entries[i].agent_output@.len() <= 100,
    ensures
        text::contains(
            context_text(entries),
            text::decimal((i + 1) as nat) + ". ["@ + entries[i].timestamp@ + "] User: \""@
                + entries[i].user_input@ + "\" → Agent: \""@ + entries[i].agent_output@ + "\"\n"@,
        ),
        context_text(Seq::<AgentHistoryEntry>::empty()).len() == 0,
{
    let none = Seq::<char>::empty();
    let title = "\n## Recent Conversations\n"@;
    let line = entry_line((i + 1) as nat, entries[i]);
    lemma_entry_is_told(entries, i);
    text::lemma_contains_within(title, entry_lines(entries), none, line);
    assert(title + entry_lines(entries) + none =~= context_text(entries));
}

/// Of a long text the first hundred characters are told.
pub proof fn law_long_texts_are_cut(s: Seq<char>)
    ensures
        head(s).is_prefix_of(s),
        s.len() >= 100 ==> head(s).len() == 100,
        s.len() <= 100 ==> head(s) == s,
{
}

} // verus!
