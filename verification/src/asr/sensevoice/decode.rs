//! The token table of the recognition model, and what its output stands for.
use std::collections::HashSet;
use vstd::prelude::*;

use crate::json::{Json, JsonModel};
use crate::{json, text};

verus! {

broadcast use vstd::std_specs::hash::group_hash_axioms;

// ---------------------------------------------------------------------------
// Repetitions
// ---------------------------------------------------------------------------

/// A Chinese character.
pub open spec fn is_cjk(c: char) -> bool {
    ||| '\u{4E00}' <= c <= '\u{9FFF}'
    ||| '\u{3400}' <= c <= '\u{4DBF}'
    ||| '\u{F900}' <= c <= '\u{FAFF}'
}

fn is_cjk_char(c: char) -> (r: bool)
    ensures
        r == is_cjk(c),
{
    ('\u{4E00}' <= c && c <= '\u{9FFF}') || ('\u{3400}' <= c && c <= '\u{4DBF}') || ('\u{F900}'
        <= c && c <= '\u{FAFF}')
}

/// How often a character may stand in a row.
pub open spec fn run_limit(c: char) -> nat {
    if is_cjk(c) {
        3
    } else {
        2
    }
}

/// How often the last character of `s` stands in a row at its end.
pub open spec fn last_run(s: Seq<char>) -> nat
    decreases s.len(),
{
    if s.len() == 0 {
        0
    } else if s.len() >= 2 && s[s.len() - 2] == s.last() {
        last_run(s.drop_last()) + 1
    } else {
        1
    }
}

/// `s` without the characters that repeat the one before them too often.
pub open spec fn collapsed(s: Seq<char>) -> Seq<char>
    decreases s.len(),
{
    if s.len() == 0 {
        s
    } else if last_run(s) <= run_limit(s.last()) {
        collapsed(s.drop_last()).push(s.last())
    } else {
        collapsed(s.drop_last())
    }
}

/// No character of `s` stands in a row more often than it may.
pub open spec fn has_short_runs(s: Seq<char>) -> bool {
    forall|i: int| 0 < i <= s.len() ==> last_run(#[trigger] s.take(i)) <= run_limit(s[i - 1])
}

/// The collapsed text ends as the text does, with the same repetition up to the limit.
proof fn lemma_collapsed_end(s: Seq<char>)
    ensures
        s.len() > 0 <==> collapsed(s).len() > 0,
        s.len() > 0 ==> collapsed(s).last() == s.last(),
        s.len() > 0 ==> last_run(collapsed(s)) == (if last_run(s) <= run_limit(s.last()) {
            last_run(s)
        } else {
            run_limit(s.last())
        }),
    decreases s.len(),
{
    if s.len() > 0 {
        let t = s.drop_last();
        lemma_collapsed_end(t);
        let c = collapsed(t);
        if t.len() > 0 {
            assert(s[s.len() - 2] == t.last());
        }
        if last_run(s) <= run_limit(s.last()) {
            assert(c.push(s.last()).drop_last() =~= c);
            if c.len() > 0 {
                assert(c.push(s.last())[c.len() - 1] == c.last());
            }
        }
    }
}

proof fn lemma_collapsed_runs(s: Seq<char>)
    ensures
        has_short_runs(collapsed(s)),
    decreases s.len(),
{
    if s.len() > 0 {
        let t = s.drop_last();
        lemma_collapsed_runs(t);
        if last_run(s) <= run_limit(s.last()) {
            let c = collapsed(t);
            let d = c.push(s.last());
            lemma_collapsed_end(s);
            assert forall|i: int| 0 < i <= d.len() implies last_run(#[trigger] d.take(i))
                <= run_limit(d[i - 1]) by {
                if i < d.len() {
                    assert(d.take(i) =~= c.take(i));
                } else {
                    assert(d.take(i) =~= d);
                }
            }
        }
    }
}

proof fn lemma_short_runs_collapse(s: Seq<char>)
    requires
        has_short_runs(s),
    ensures
        collapsed(s) == s,
    decreases s.len(),
{
    if s.len() > 0 {
        let t = s.drop_last();
        assert forall|i: int| 0 < i <= t.len() implies last_run(#[trigger] t.take(i)) <= run_limit(
            t[i - 1],
        ) by {
            assert(t.take(i) =~= s.take(i));
        }
        lemma_short_runs_collapse(t);
        assert(s.take(s.len() as int) =~= s);
        assert(t.push(s.last()) =~= s);
    }
}

/// In a collapsed text no Chinese character stands more than three times in a row and no
/// other character more than twice, a text in which none does is left as it is, and
/// collapsing again changes nothing.
pub proof fn law_collapsing_settles(s: Seq<char>)
    ensures
        has_short_runs(collapsed(s)),
        has_short_runs(s) ==> collapsed(s) == s,
        collapsed(collapsed(s)) == collapsed(s),
        collapsed(s).len() <= s.len(),
{
    lemma_collapsed_runs(s);
    lemma_short_runs_collapse(collapsed(s));
    if has_short_runs(s) {
        lemma_short_runs_collapse(s);
    }
    lemma_collapsed_len(s);
}

proof fn lemma_collapsed_len(s: Seq<char>)
    ensures
        collapsed(s).len() <= s.len(),
    decreases s.len(),
{
    if s.len() > 0 {
        lemma_collapsed_len(s.drop_last());
    }
}

/// The text without excessive repetitions, as the recognition model produces them on
/// rapid speech.
pub fn collapse_excessive_repeats(s: &str) -> (r: String)
    ensures
        r@ == collapsed(s@),
{
    let v = text::chars_of(s);
    let mut out = String::new();
    let mut run: usize = 0;
    assert(s@.take(0) =~= seq![]);
    assert(collapsed(s@.take(0)) =~= seq![]);
    for i in 0..v.len()
        invariant
            v@ == s@,
            out@ == collapsed(s@.take(i as int)),
            run == last_run(s@.take(i as int)),
            run <= i,
    {
        let c = v[i];
        let ghost t = s@.take(i + 1);
        assert(t.drop_last() =~= s@.take(i as int));
        assert(t.last() == c);
        if i > 0 && v[i - 1] == c {
            assert(t[t.len() - 2] == c);
            run = run + 1;
        } else {
            run = 1;
        }
        let limit: usize = if is_cjk_char(c) {
            3
        } else {
            2
        };
        if run <= limit {
            out.push(c);
        }
    }
    assert(s@.take(s@.len() as int) =~= s@);
    out
}

// ---------------------------------------------------------------------------
// The token table
// ---------------------------------------------------------------------------

/// Tokens in `<|` and `|>` say something about the speech and are no part of it.
pub open spec fn is_special(token: Seq<char>) -> bool {
    "<|"@.is_prefix_of(text::trim(token)) && "|>"@.is_suffix_of(text::trim(token))
}

fn is_special_token(token: &str) -> (r: bool)
    ensures
        r == is_special(token@),
{
    let trimmed = text::trim_str(token);
    text::starts_with(trimmed, "<|") && text::ends_with(trimmed, "|>")
}

/// Tokens that stand for nothing.
pub open spec fn is_void(token: Seq<char>) -> bool {
    ||| token.len() == 0
    ||| token == "<blank>"@
    ||| token == "<unk>"@
    ||| token == "<s>"@
    ||| token == "</s>"@
}

fn is_void_token(token: &str) -> (r: bool)
    ensures
        r == is_void(token@),
{
    token.is_empty() || text::str_eq(token, "<blank>") || text::str_eq(token, "<unk>")
        || text::str_eq(token, "<s>") || text::str_eq(token, "</s>")
}

/// The table of tokens: the token of each id, and the ids of the special ones.
pub struct TokenVocab {
    tokens: Vec<String>,
    special_ids: HashSet<u32>,
}

/// Why a token table cannot be used.
#[derive(Clone, Copy, Debug, PartialEq, Eq, Structural)]
pub enum VocabError {
    NotAnArray,
    PairWithoutText,
    UnexpectedEntry,
}

impl VocabError {
    pub open spec fn text(self) -> Seq<char> {
        match self {
            VocabError::NotAnArray => "tokens.json must be a JSON array"@,
            VocabError::PairWithoutText => "tokens.json: pair[0] not a string"@,
            VocabError::UnexpectedEntry => "tokens.json: unexpected entry shape"@,
        }
    }

    pub fn message(self) -> (r: &'static str)
        ensures
            r@ == self.text(),
    {
        match self {
            VocabError::NotAnArray => "tokens.json must be a JSON array",
            VocabError::PairWithoutText => "tokens.json: pair[0] not a string",
            VocabError::UnexpectedEntry => "tokens.json: unexpected entry shape",
        }
    }
}

/// The token of an entry of the table: a text, or the first of a list.
pub open spec fn entry_token(entry: JsonModel) -> Result<Seq<char>, VocabError> {
    match entry {
        JsonModel::Text(t) => Ok(t),
        JsonModel::List(pair) => if pair.len() == 0 {
            Err(VocabError::UnexpectedEntry)
        } else {
            match pair[0] {
                JsonModel::Text(t) => Ok(t),
                _ => Err(VocabError::PairWithoutText),
            }
        },
        _ => Err(VocabError::UnexpectedEntry),
    }
}

/// The tokens of the entries of the table, or what is wrong with the first bad one.
pub open spec fn entry_tokens(entries: Seq<JsonModel>) -> Result<Seq<Seq<char>>, VocabError>
    decreases entries.len(),
{
    if entries.len() == 0 {
        Ok(seq![])
    } else {
        match entry_tokens(entries.drop_last()) {
            Ok(before) => match entry_token(entries.last()) {
                Ok(t) => Ok(before.push(t)),
                Err(e) => Err(e),
            },
            Err(e) => Err(e),
        }
    }
}

/// The tokens of a table, or what is wrong with it.
pub open spec fn table_tokens(table: JsonModel) -> Result<Seq<Seq<char>>, VocabError> {
    match table {
        JsonModel::List(entries) => entry_tokens(entries),
        _ => Err(VocabError::NotAnArray),
    }
}

proof fn lemma_bad_entry(entries: Seq<JsonModel>, i: int)
    requires
        0 <= i <= entries.len(),
        entry_tokens(entries.take(i)) is Err,
    ensures
        entry_tokens(entries) == entry_tokens(entries.take(i)),
    decreases entries.len() - i,
{
    if i < entries.len() {
        assert(entries.take(i + 1).drop_last() =~= entries.take(i));
        lemma_bad_entry(entries, i + 1);
    } else {
        assert(entries.take(i) =~= entries);
    }
}

fn read_entry(entry: &Json) -> (r: Result<String, VocabError>)
    ensures
        match r {
            Ok(t) => entry_token(entry@) == Ok::<Seq<char>, VocabError>(t@),
            Err(e) => entry_token(entry@) == Err::<Seq<char>, VocabError>(e),
        },
{
    match entry {
        Json::Text(t) => Ok(t.clone()),
        Json::List(pair) => if pair.len() == 0 {
            Err(VocabError::UnexpectedEntry)
        } else {
            assert(entry@->List_0[0] == pair@[0]@);
            match pair[0].as_str() {
                Some(t) => Ok(t.to_string()),
                None => Err(VocabError::PairWithoutText),
            }
        },
        _ => Err(VocabError::UnexpectedEntry),
    }
}

/// What the tokens `ids` of a table add to a text: a word boundary becomes a space, unless
/// one stands there already, and special, void and unknown tokens add nothing.
pub open spec fn spelled(tokens: Seq<Seq<char>>, ids: Seq<u32>) -> Seq<char>
    decreases ids.len(),
{
    if ids.len() == 0 {
        seq![]
    } else {
        let before = spelled(tokens, ids.drop_last());
        let id = ids.last() as int;
        if id < tokens.len() && !is_special(tokens[id]) && !is_void(tokens[id]) {
            with_token(before, tokens[id])
        } else {
            before
        }
    }
}

/// A text followed by a token.
pub open spec fn with_token(before: Seq<char>, token: Seq<char>) -> Seq<char>
    decreases token.len(),
{
    if token.len() == 0 {
        before
    } else {
        with_char(with_token(before, token.drop_last()), token.last())
    }
}

/// A text followed by a character of a token.
pub open spec fn with_char(before: Seq<char>, c: char) -> Seq<char> {
    if c != '\u{2581}' {
        before.push(c)
    } else if before.len() > 0 && before.last() != ' ' {
        before.push(' ')
    } else {
        before
    }
}

/// Adds a token to a text of which `spaced` says whether it ends with a space.
fn add_token(out: &mut String, spaced: &mut bool, token: &str)
    requires
        *old(spaced) == (old(out)@.len() > 0 && old(out)@.last() == ' '),
    ensures
        final(out)@ == with_token(old(out)@, token@),
        *final(spaced) == (final(out)@.len() > 0 && final(out)@.last() == ' '),
{
    let ghost before = out@;
    let chars = text::chars_of(token);
    assert(token@.take(0) =~= seq![]);
    for k in 0..chars.len()
        invariant
            chars@ == token@,
            out@ == with_token(before, token@.take(k as int)),
            *spaced == (out@.len() > 0 && out@.last() == ' '),
    {
        let c = chars[k];
        assert(token@.take(k + 1).drop_last() =~= token@.take(k as int));
        if c != '\u{2581}' {
            out.push(c);
            *spaced = c == ' ';
        } else if !out.as_str().is_empty() && !*spaced {
            out.push(' ');
            *spaced = true;
        }
    }
    assert(token@.take(token@.len() as int) =~= token@);
}

impl TokenVocab {
    pub closed spec fn tokens(self) -> Seq<Seq<char>> {
        text::views(self.tokens@)
    }

    /// The special ids are those of the special tokens.
    pub closed spec fn well_formed(self) -> bool {
        &&& self.tokens@.len() <= 0x1_0000_0000
        &&& forall|id: u32| #[trigger]
            self.special_ids@.contains(id) <==> id < self.tokens@.len() && is_special(
                self.tokens@[id as int]@,
            )
    }

    /// The table that a JSON value holds.
    pub fn from_json(table: &Json) -> (r: Result<Self, VocabError>)
        requires
            json::items(table@).len() <= 0x1_0000_0000,
        ensures
            match r {
                Ok(v) => v.well_formed() && table_tokens(table@) == Ok::<
                    Seq<Seq<char>>,
                    VocabError,
                >(v.tokens()),
                Err(e) => table_tokens(table@) == Err::<Seq<Seq<char>>, VocabError>(e),
            },
    {
        let entries = match table {
            Json::List(entries) => entries,
            _ => return Err(VocabError::NotAnArray),
        };
        let ghost all = table@->List_0;
        let mut tokens: Vec<String> = Vec::new();
        let mut special_ids: HashSet<u32> = HashSet::new();
        assert(all.take(0) =~= seq![]);
        assert(text::views(tokens@) =~= seq![]);
        for i in 0..entries.len()
            invariant
                table@ == JsonModel::List(all),
                all.len() == entries@.len(),
                *table == Json::List(*entries),
                all.len() <= 0x1_0000_0000,
                tokens@.len() == i,
                entry_tokens(all.take(i as int)) == Ok::<Seq<Seq<char>>, VocabError>(
                    text::views(tokens@),
                ),
                forall|id: u32| #[trigger]
                    special_ids@.contains(id) <==> id < tokens@.len() && is_special(
                        tokens@[id as int]@,
                    ),
        {
            assert(all[i as int] == entries@[i as int]@);
            assert(all.take(i + 1).drop_last() =~= all.take(i as int));
            match read_entry(&entries[i]) {
                Ok(t) => {
                    let ghost before = tokens@;
                    let special = is_special_token(t.as_str());
                    if special {
                        special_ids.insert(i as u32);
                    }
                    tokens.push(t);
                    assert(text::views(tokens@) =~= text::views(before).push(t@));
                    assert forall|id: u32| #[trigger]
                        special_ids@.contains(id) <==> id < tokens@.len() && is_special(
                            tokens@[id as int]@,
                        ) by {
                        if id < i {
                            assert(tokens@[id as int] == before[id as int]);
                        }
                    }
                },
                Err(e) => {
                    proof {
                        lemma_bad_entry(all, i + 1);
                    }
                    return Err(e);
                },
            }
        }
        assert(all.take(all.len() as int) =~= all);
        Ok(TokenVocab { tokens, special_ids })
    }

    /// The table that a JSON text holds. A table with more entries than there are ids is
    /// refused.
    pub fn parse(source: &str) -> (r: Result<Self, String>)
        ensures
            match json::parsed(source@) {
                Some(table) => if json::items(table).len() > 0x1_0000_0000 {
                    r matches Err(m) && m@ == "tokens.json: too many entries"@
                } else {
                    match table_tokens(table) {
                        Ok(tokens) => r matches Ok(v) && v.well_formed() && v.tokens() == tokens,
                        Err(e) => r matches Err(m) && m@ == e.text(),
                    }
                },
                None => r matches Err(m) && exists|e: Seq<char>| #[trigger]
                    json::is_parse_message(source, e) && m@ == "parse tokens.json failed: "@ + e,
            },
    {
        match json::parse(source) {
            Ok(table) => {
                if table.item_count() as u64 > 0x1_0000_0000 {
                    return Err("tokens.json: too many entries".to_string());
                }
                match TokenVocab::from_json(&table) {
                    Ok(v) => Ok(v),
                    Err(e) => Err(e.message().to_string()),
                }
            },
            Err(e) => {
                let why = json::error_message(&e);
                assert(json::is_parse_message(source, why@));
                Err(text::concat2("parse tokens.json failed: ", why.as_str()))
            },
        }
    }

    pub fn len(&self) -> (r: usize)
        ensures
            r == self.tokens().len(),
    {
        self.tokens.len()
    }

    /// The first id of a token.
    pub fn token_id(&self, token: &str) -> (r: Option<u32>)
        requires
            self.well_formed(),
        ensures
            match r {
                Some(id) => id < self.tokens().len() && self.tokens()[id as int] == token@
                    && forall|j: int| 0 <= j < id ==> #[trigger] self.tokens()[j] != token@,
                None => !self.tokens().contains(token@),
            },
    {
        for i in 0..self.tokens.len()
            invariant
                self.well_formed(),
                forall|j: int| 0 <= j < i ==> (#[trigger] self.tokens@[j])@ != token@,
        {
            if text::str_eq(self.tokens[i].as_str(), token) {
                return Some(i as u32);
            }
        }
        None
    }

    /// The text that the ids of an output stand for.
    pub fn decode_ids(&self, ids: &Vec<u32>) -> (r: String)
        requires
            self.well_formed(),
        ensures
            r@ == collapsed(text::trim(spelled(self.tokens(), ids@))),
    {
        let mut out = String::new();
        let mut spaced = false;
        assert(ids@.take(0) =~= seq![]);
        for i in 0..ids.len()
            invariant
                self.well_formed(),
                out@ == spelled(self.tokens(), ids@.take(i as int)),
                spaced == (out@.len() > 0 && out@.last() == ' '),
        {
            let id: u32 = ids[i];
            assert(ids@.take(i + 1).drop_last() =~= ids@.take(i as int));
            assert(ids@.take(i + 1).last() == id);
            if !self.special_ids.contains(&id) && (id as usize) < self.tokens.len() {
                let token = &self.tokens[id as usize];
                assert(self.tokens()[id as int] == token@);
                if !is_void_token(token.as_str()) {
                    add_token(&mut out, &mut spaced, token.as_str());
                }
            }
        }
        assert(ids@.take(ids@.len() as int) =~= ids@);
        collapse_excessive_repeats(text::trim_str(out.as_str()))
    }
}

// ---------------------------------------------------------------------------
// The output
// ---------------------------------------------------------------------------

/// The ids that the best guesses for the frames of an output stand for: a repeated guess
/// counts once, and blanks count for nothing but the end of a repetition.
pub open spec fn greedy(best: Seq<u32>, blank_id: u32) -> Seq<u32>
    decreases best.len(),
{
    if best.len() == 0 {
        seq![]
    } else {
        let before = greedy(best.drop_last(), blank_id);
        let repeats = best.len() > 1 && best[best.len() - 2] == best.last();
        if best.last() != blank_id && !repeats {
            before.push(best.last())
        } else {
            before
        }
    }
}

/// The ids that the best guesses for the frames of an output stand for.
pub fn ctc_greedy(best: &Vec<u32>, blank_id: u32) -> (r: Vec<u32>)
    ensures
        r@ == greedy(best@, blank_id),
{
    let mut out: Vec<u32> = Vec::new();
    assert(best@.take(0) =~= seq![]);
    for t in 0..best.len()
        invariant
            out@ == greedy(best@.take(t as int), blank_id),
    {
        let id: u32 = best[t];
        let ghost s = best@.take(t + 1);
        assert(s.drop_last() =~= best@.take(t as int));
        assert(t > 0 ==> s[s.len() - 2] == best@[t - 1]);
        if id != blank_id && !(t > 0 && best[t - 1] == id) {
            out.push(id);
        }
    }
    assert(best@.take(best@.len() as int) =~= best@);
    out
}

/// Blanks never come out, and nothing comes out of frames that are all blank.
pub proof fn law_blanks_are_dropped(best: Seq<u32>, blank_id: u32)
    ensures
        !greedy(best, blank_id).contains(blank_id),
        (forall|i: int| 0 <= i < best.len() ==> best[i] == blank_id) ==> greedy(best, blank_id)
            == Seq::<u32>::empty(),
    decreases best.len(),
{
    if best.len() > 0 {
        let t = best.drop_last();
        law_blanks_are_dropped(t, blank_id);
        if forall|i: int| 0 <= i < best.len() ==> best[i] == blank_id {
            assert forall|i: int| 0 <= i < t.len() implies t[i] == blank_id by {
                assert(t[i] == best[i]);
            }
        }
        let out = greedy(best, blank_id);
        if out.contains(blank_id) {
            let i = choose|i: int| 0 <= i < out.len() && out[i] == blank_id;
            assert(greedy(t, blank_id)[i] == blank_id);
        }
    }
}

proof fn lemma_greedy_push(best: Seq<u32>, blank_id: u32, id: u32)
    ensures
        greedy(best.push(id), blank_id) == if id == blank_id || (best.len() > 0 && best.last()
            == id) {
            greedy(best, blank_id)
        } else {
            greedy(best, blank_id).push(id)
        },
{
    assert(best.push(id).drop_last() =~= best);
}

/// `places` are the places where a run of equal guesses begins that are not blank: these and
/// no others, in their order.
pub open spec fn are_run_starts(best: Seq<u32>, blank_id: u32, places: Seq<int>) -> bool {
    &&& forall|k: int|
        0 <= k < places.len() ==> {
            &&& 0 <= #[trigger] places[k] < best.len()
            &&& best[places[k]] != blank_id
            &&& places[k] == 0 || best[places[k] - 1] != best[places[k]]
        }
    &&& forall|j: int, k: int|
        0 <= j < k < places.len() ==> #[trigger] places[j] < #[trigger] places[k]
    &&& forall|i: int|
        0 <= i < best.len() && #[trigger] best[i] != blank_id && (i == 0 || best[i - 1] != best[i])
            ==> places.contains(i)
}

/// Every run of equal guesses, however long, gives its id once, and a run of blanks gives
/// nothing: the ids that come out are the guesses at the places where a run begins that is not
/// blank, all of these, in their order.
pub proof fn law_each_run_gives_one_id(best: Seq<u32>, blank_id: u32)
    ensures
        exists|places: Seq<int>| #[trigger]
            are_run_starts(best, blank_id, places) && greedy(best, blank_id) == places.map_values(
                |i: int| best[i],
            ),
    decreases best.len(),
{
    if best.len() == 0 {
        let none = Seq::<int>::empty();
        assert(are_run_starts(best, blank_id, none));
        assert(greedy(best, blank_id) =~= none.map_values(|i: int| best[i]));
    } else {
        let t = best.drop_last();
        let id = best.last();
        law_each_run_gives_one_id(t, blank_id);
        let before = choose|places: Seq<int>| #[trigger]
            are_run_starts(t, blank_id, places) && greedy(t, blank_id) == places.map_values(
                |i: int| t[i],
            );
        assert(best =~= t.push(id));
        lemma_greedy_push(t, blank_id, id);
        let n = t.len() as int;
        let begins = id != blank_id && (n == 0 || t.last() != id);
        let places = if begins {
            before.push(n)
        } else {
            before
        };
        assert forall|k: int| 0 <= k < places.len() implies {
            &&& 0 <= #[trigger] places[k] < best.len()
            &&& best[places[k]] != blank_id
            &&& places[k] == 0 || best[places[k] - 1] != best[places[k]]
        } by {
            if k < before.len() {
                assert(places[k] == before[k]);
            }
        }
        assert forall|j: int, k: int| 0 <= j < k < places.len() implies #[trigger] places[j]
            < #[trigger] places[k] by {
            assert(places[j] == before[j]);
            if k < before.len() {
                assert(places[k] == before[k]);
            }
        }
        assert forall|i: int|
            0 <= i < best.len() && #[trigger] best[i] != blank_id && (i == 0 || best[i - 1]
                != best[i]) implies places.contains(i) by {
            if i < n {
                assert(t[i] == best[i]);
                assert(before.contains(i));
                let k = choose|k: int| 0 <= k < before.len() && before[k] == i;
                assert(places[k] == i);
            } else {
                assert(places[before.len() as int] == i);
            }
        }
        assert(are_run_starts(best, blank_id, places));
        let out = places.map_values(|i: int| best[i]);
        let earlier = before.map_values(|i: int| t[i]);
        assert forall|k: int| 0 <= k < before.len() implies out[k] == earlier[k] by {
            assert(places[k] == before[k]);
        }
        assert(greedy(best, blank_id) =~= out);
    }
}

/// A frame more or less of the same guess makes no difference: to repeat the guess at some
/// place leaves what comes out as it is.
pub proof fn law_repeating_a_frame_changes_nothing(best: Seq<u32>, blank_id: u32, i: int)
    requires
        0 <= i < best.len(),
    ensures
        greedy(best.insert(i, best[i]), blank_id) == greedy(best, blank_id),
    decreases best.len(),
{
    let t = best.drop_last();
    let longer = best.insert(i, best[i]);
    if i == best.len() - 1 {
        assert(longer =~= best.push(best.last()));
        lemma_greedy_push(best, blank_id, best.last());
    } else {
        law_repeating_a_frame_changes_nothing(t, blank_id, i);
        let longer_t = t.insert(i, t[i]);
        assert(longer =~= longer_t.push(best.last()));
        assert(best =~= t.push(best.last()));
        assert(longer_t.last() == t.last());
        lemma_greedy_push(longer_t, blank_id, best.last());
        lemma_greedy_push(t, blank_id, best.last());
    }
}

/// An output can be read in two parts wherever its guess changes or is blank, and a single
/// guess that is not blank comes out as it is. So what was said twice, with a blank between,
/// comes out twice.
pub proof fn law_output_is_read_part_by_part(a: Seq<u32>, b: Seq<u32>, blank_id: u32, id: u32)
    requires
        a.len() > 0 && b.len() > 0 ==> a.last() != b[0] || a.last() == blank_id,
    ensures
        greedy(a + b, blank_id) == greedy(a, blank_id) + greedy(b, blank_id),
        greedy(seq![id], blank_id) == if id == blank_id {
            Seq::<u32>::empty()
        } else {
            seq![id]
        },
        greedy(seq![id, blank_id, id], blank_id) == greedy(seq![id], blank_id) + greedy(
            seq![id],
            blank_id,
        ),
    decreases b.len(),
{
    let none = Seq::<u32>::empty();
    assert(none.push(id) =~= seq![id]);
    lemma_greedy_push(none, blank_id, id);
    assert(none.push(id) =~= seq![id]);
    lemma_greedy_push(seq![id], blank_id, blank_id);
    lemma_greedy_push(seq![id].push(blank_id), blank_id, id);
    assert(seq![id].push(blank_id).push(id) =~= seq![id, blank_id, id]);
    assert(greedy(none, blank_id) =~= none);
    if id != blank_id {
        assert(greedy(seq![id], blank_id) =~= seq![id]);
        assert(seq![id].push(id) =~= seq![id] + seq![id]);
    } else {
        assert(none + none =~= none);
    }
    if b.len() == 0 {
        assert(a + b =~= a);
        assert(greedy(a, blank_id) + greedy(b, blank_id) =~= greedy(a, blank_id));
    } else {
        let t = b.drop_last();
        law_output_is_read_part_by_part(a, t, blank_id, id);
        let last = b.last();
        assert(b =~= t.push(last));
        assert(a + b =~= (a + t).push(last));
        lemma_greedy_push(a + t, blank_id, last);
        lemma_greedy_push(t, blank_id, last);
        if t.len() > 0 {
            assert((a + t).last() == t.last());
        } else {
            assert(a + t =~= a);
        }
        assert(greedy(a + b, blank_id) =~= greedy(a, blank_id) + greedy(b, blank_id));
    }
}

/// The place `i` of a text repeats what stands before it too often: a Chinese character for
/// the fourth time in a row, another one for the third time.
pub open spec fn is_excess(s: Seq<char>, i: int) -> bool {
    &&& 2 <= i < s.len()
    &&& s[i - 1] == s[i]
    &&& s[i - 2] == s[i]
    &&& if '\u{4E00}' <= s[i] <= '\u{9FFF}' || '\u{3400}' <= s[i] <= '\u{4DBF}' || '\u{F900}'
        <= s[i] <= '\u{FAFF}' {
        3 <= i && s[i - 3] == s[i]
    } else {
        true
    }
}

proof fn lemma_last_run(s: Seq<char>)
    requires
        s.len() > 0,
    ensures
        1 <= last_run(s) <= s.len(),
        forall|k: int| s.len() - last_run(s) <= k < s.len() ==> #[trigger] s[k] == s.last(),
        last_run(s) < s.len() ==> s[s.len() - last_run(s) - 1] != s.last(),
    decreases s.len(),
{
    if s.len() >= 2 && s[s.len() - 2] == s.last() {
        let t = s.drop_last();
        lemma_last_run(t);
        assert forall|k: int| s.len() - last_run(s) <= k < s.len() implies #[trigger] s[k]
            == s.last() by {
            if k < t.len() {
                assert(t[k] == s[k]);
            }
        }
    }
}

proof fn lemma_excess(s: Seq<char>)
    requires
        s.len() > 0,
    ensures
        is_excess(s, s.len() - 1) <==> last_run(s) > run_limit(s.last()),
{
    lemma_last_run(s);
    let n = s.len() as int;
    let r = last_run(s) as int;
    if r >= 2 {
        assert(s[n - 2] == s.last());
    }
    if r >= 3 {
        assert(s[n - 3] == s.last());
    }
    if r >= 4 {
        assert(s[n - 4] == s.last());
    }
}

/// What repeats too often is left out and nothing else: a text in which nothing does is left
/// as it is, a collapsed text holds nothing that does, and to take out such a character
/// beforehand makes no difference.
pub proof fn law_only_excess_is_left_out(s: Seq<char>, i: int)
    ensures
        (forall|k: int| 0 <= k < s.len() ==> !#[trigger] is_excess(s, k)) ==> collapsed(s) == s,
        forall|k: int|
            0 <= k < collapsed(s).len() ==> !#[trigger] is_excess(collapsed(s), k),
        0 <= i < s.len() && is_excess(s, i) ==> collapsed(s) == collapsed(s.remove(i)),
{
    law_collapsing_settles(s);
    if forall|k: int| 0 <= k < s.len() ==> !#[trigger] is_excess(s, k) {
        assert forall|k: int| 0 < k <= s.len() implies last_run(#[trigger] s.take(k)) <= run_limit(
            s[k - 1],
        ) by {
            lemma_excess(s.take(k));
            assert(!is_excess(s, k - 1));
        }
        lemma_short_runs_collapse(s);
    }
    let c = collapsed(s);
    assert forall|k: int| 0 <= k < c.len() implies !#[trigger] is_excess(c, k) by {
        assert(last_run(c.take(k + 1)) <= run_limit(c[k]));
        lemma_excess(c.take(k + 1));
    }
    if 0 <= i < s.len() && is_excess(s, i) {
        lemma_remove_excess(s, i);
    }
}

proof fn lemma_remove_excess(s: Seq<char>, i: int)
    requires
        0 <= i < s.len(),
        is_excess(s, i),
    ensures
        collapsed(s) == collapsed(s.remove(i)),
        i == s.len() - 1 || s.remove(i).last() == s.last(),
        last_run(s) <= run_limit(s.last()) <==> i < s.len() - 1 && last_run(s.remove(i))
            <= run_limit(s.last()),
        last_run(s) > run_limit(s.last()) || (last_run(s) == last_run(s.remove(i))),
        i < s.len() - 1 && last_run(s) > run_limit(s.last()) ==> last_run(s.remove(i)) >= run_limit(
            s.last(),
        ),
    decreases s.len(),
{
    lemma_excess(s.take(i + 1));
    if i == s.len() - 1 {
        assert(s.take(i + 1) =~= s);
        assert(s.remove(i) =~= s.drop_last());
    } else {
        let t = s.drop_last();
        assert(is_excess(t, i));
        lemma_remove_excess(t, i);
        let u = s.remove(i);
        assert(u.drop_last() =~= t.remove(i));
        assert(u.last() == s.last());
        assert(s[s.len() - 2] == t.last());
        assert(t.remove(i).len() > 0);
        if i == t.len() - 1 {
            assert(t.take(i + 1) =~= t);
            assert(t.remove(i) =~= t.drop_last());
            assert(t.drop_last().last() == t.last());
            assert(u[u.len() - 2] == t.last());
            lemma_last_run(t.drop_last());
            lemma_last_run(t);
        } else {
            assert(u[u.len() - 2] == t.remove(i).last());
        }
    }
}

/// Each entry of a table gives its token, in the order of the entries: a text is its own, a
/// list begins with it. One entry that is neither makes the table unusable.
pub proof fn law_each_entry_gives_its_token(entries: Seq<JsonModel>)
    ensures
        match table_tokens(JsonModel::List(entries)) {
            Ok(tokens) => {
                &&& tokens.len() == entries.len()
                &&& forall|i: int|
                    0 <= i < entries.len() ==> #[trigger] entries[i] == JsonModel::Text(tokens[i])
                        || (entries[i] matches JsonModel::List(pair) && pair.len() > 0 && pair[0]
                        == JsonModel::Text(tokens[i]))
            },
            Err(_) => exists|i: int|
                0 <= i < entries.len() && !((#[trigger] entries[i]) is Text) && !(
                entries[i] matches JsonModel::List(pair) && pair.len() > 0 && pair[0] is Text),
        },
    decreases entries.len(),
{
    if entries.len() > 0 {
        let t = entries.drop_last();
        law_each_entry_gives_its_token(t);
        let n = entries.len() - 1;
        match table_tokens(JsonModel::List(entries)) {
            Ok(tokens) => {
                let before = entry_tokens(t)->Ok_0;
                assert forall|i: int| 0 <= i < entries.len() implies #[trigger] entries[i]
                    == JsonModel::Text(tokens[i]) || (entries[i] matches JsonModel::List(pair)
                    && pair.len() > 0 && pair[0] == JsonModel::Text(tokens[i])) by {
                    if i < n {
                        assert(t[i] == entries[i]);
                        assert(tokens[i] == before[i]);
                    }
                }
            },
            Err(_) => {
                if entry_tokens(t) is Err {
                    let i = choose|i: int|
                        0 <= i < t.len() && !((#[trigger] t[i]) is Text) && !(
                        t[i] matches JsonModel::List(pair) && pair.len() > 0 && pair[0] is Text);
                    assert(entries[i] == t[i]);
                } else {
                    assert(!(entries[n] is Text));
                }
            },
        }
    }
}

proof fn lemma_plain_token(before: Seq<char>, token: Seq<char>)
    requires
        forall|i: int| 0 <= i < token.len() ==> #[trigger] token[i] != '\u{2581}',
    ensures
        with_token(before, token) == before + token,
    decreases token.len(),
{
    if token.len() > 0 {
        let t = token.drop_last();
        assert forall|i: int| 0 <= i < t.len() implies #[trigger] t[i] != '\u{2581}' by {
            assert(t[i] == token[i]);
        }
        lemma_plain_token(before, t);
        assert(token.last() == token[token.len() - 1]);
        assert((before + t).push(token.last()) =~= before + token);
    } else {
        assert(before + token =~= before);
    }
}

proof fn lemma_marked_token(before: Seq<char>, word: Seq<char>)
    requires
        forall|i: int| 0 <= i < word.len() ==> #[trigger] word[i] != '\u{2581}',
    ensures
        with_token(before, seq!['\u{2581}'] + word) == if before.len() > 0 && before.last() != ' ' {
            before.push(' ') + word
        } else {
            before + word
        },
    decreases word.len(),
{
    let mark = seq!['\u{2581}'];
    if word.len() == 0 {
        assert(mark + word =~= mark);
        assert(mark.drop_last() =~= seq![]);
        assert(with_token(before, mark.drop_last()) =~= before);
        assert(before.push(' ') + word =~= before.push(' '));
        assert(before + word =~= before);
    } else {
        let w = word.drop_last();
        assert forall|i: int| 0 <= i < w.len() implies #[trigger] w[i] != '\u{2581}' by {
            assert(w[i] == word[i]);
        }
        lemma_marked_token(before, w);
        assert((mark + word).drop_last() =~= mark + w);
        assert((mark + word).last() == word[word.len() - 1]);
        assert((before.push(' ') + w).push(word.last()) =~= before.push(' ') + word);
        assert((before + w).push(word.last()) =~= before + word);
    }
}

/// Tokens are put one after the other in the order of their ids. A token adds its text as it
/// stands; with a word mark in front it begins a new word, one space after what stands before.
/// What is no part of the speech adds nothing: an id that the table has not, a token in `<|`
/// and `|>`, and the tokens for blanks, unknown words and the ends of sentences.
pub proof fn law_tokens_spell_the_text(
    tokens: Seq<Seq<char>>,
    ids: Seq<u32>,
    id: u32,
    word: Seq<char>,
)
    requires
        forall|i: int| 0 <= i < word.len() ==> #[trigger] word[i] != '\u{2581}',
    ensures
        ({
            let before = spelled(tokens, ids);
            let after = spelled(tokens, ids.push(id));
            let token = tokens[id as int];
            let spoken = text::trim(token);
            let marked = seq!['\u{2581}'] + word;
            &&& spelled(tokens, Seq::<u32>::empty()) == Seq::<char>::empty()
            &&& id >= tokens.len() ==> after == before
            &&& id < tokens.len() && (token.len() == 0 || token == "<blank>"@ || token == "<unk>"@
                || token == "<s>"@ || token == "</s>"@) ==> after == before
            &&& id < tokens.len() && "<|"@.is_prefix_of(spoken) && "|>"@.is_suffix_of(spoken)
                ==> after == before
            &&& id < tokens.len() && token == word && word.len() > 0 && word[0] != '<' && !(
            "<|"@.is_prefix_of(spoken)) ==> after == before + word
            &&& id < tokens.len() && token == marked ==> after == if before.len() > 0
                && before.last() != ' ' {
                before.push(' ') + word
            } else {
                before + word
            }
        }),
{
    reveal_strlit("<|");
    reveal_strlit("|>");
    reveal_strlit("<blank>");
    reveal_strlit("<unk>");
    reveal_strlit("<s>");
    reveal_strlit("</s>");
    let before = spelled(tokens, ids);
    assert(ids.push(id).drop_last() =~= ids);
    assert(ids.push(id).last() == id);
    assert(spelled(tokens, Seq::<u32>::empty()) =~= seq![]);
    lemma_plain_token(before, word);
    lemma_marked_token(before, word);
    let marked = seq!['\u{2581}'] + word;
    if id < tokens.len() && tokens[id as int] == marked {
        assert(marked[0] == '\u{2581}');
        lemma_trim_keeps_mark(marked);
    }
}

proof fn lemma_trim_keeps_mark(s: Seq<char>)
    requires
        s.len() > 0,
        s[0] == '\u{2581}',
    ensures
        text::trim(s).len() > 0,
        text::trim(s)[0] == '\u{2581}',
        !("<|"@.is_prefix_of(text::trim(s))),
{
    reveal_strlit("<|");
    text::lemma_trim_keeps_first(s);
    assert("<|"@[0] == '<');
    assert("<|"@.is_prefix_of(text::trim(s)) ==> text::trim(s)[0] == "<|"@[0]);
}

/// Tokens that stand in marks at both ends say something about the speech and are left out of
/// the text; one that lacks a mark at either end is part of it.
pub proof fn law_only_tokens_in_marks_are_left_out(inner: Seq<char>, token: Seq<char>)
    requires
        token.len() > 0,
        !text::is_whitespace(token[0]),
        !text::is_whitespace(token.last()),
    ensures
        is_special("<|"@ + inner + "|>"@),
        token[0] != '<' ==> !is_special(token),
        token.last() != '>' ==> !is_special(token),
        spelled(seq!["<|"@ + inner + "|>"@], seq![0u32]).len() == 0,
{
    reveal_strlit("<|");
    reveal_strlit("|>");
    let marked = "<|"@ + inner + "|>"@;
    assert(marked[0] == '<');
    assert(marked.last() == '>');
    lemma_untrimmed(marked);
    lemma_untrimmed(token);
    assert(marked.subrange(0, 2) =~= "<|"@);
    assert(marked.subrange(marked.len() - 2, marked.len() as int) =~= "|>"@);
    assert("<|"@[0] == '<');
    assert("|>"@[1] == '>');
    let ids = seq![0u32];
    assert(ids.drop_last() =~= Seq::<u32>::empty());
    assert(spelled(seq![marked], Seq::<u32>::empty()) =~= seq![]);
    assert(spelled(seq![marked], ids) =~= seq![]);
}

/// A text without white space at its ends is not trimmed.
proof fn lemma_untrimmed(s: Seq<char>)
    requires
        s.len() > 0,
        !text::is_whitespace(s[0]),
        !text::is_whitespace(s.last()),
    ensures
        text::trim(s) == s,
{
    text::lemma_leading_is(s, text::CharClass::Space, 0);
    assert(s.skip(0) =~= s);
    text::lemma_trailing_is(s, text::CharClass::Space, 0);
    assert(s.take(s.len() as int) =~= s);
}

} // verus!
