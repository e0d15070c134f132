//! Character-level text operations.
//!
//! A string is modelled by its sequence of characters. Offsets that callers
//! exchange in bytes are stated through the UTF-8 encoding of that sequence.
use vstd::prelude::*;
use vstd::utf8::*;

verus! {

broadcast use vstd::utf8::group_utf8_lib;

// ---------------------------------------------------------------------------
// Model
// ---------------------------------------------------------------------------

/// The characters with the Unicode `White_Space` property.
pub open spec fn is_whitespace(c: char) -> bool {
    ||| '\u{9}' <= c <= '\u{d}'
    ||| c == '\u{20}'
    ||| c == '\u{85}'
    ||| c == '\u{a0}'
    ||| c == '\u{1680}'
    ||| '\u{2000}' <= c <= '\u{200a}'
    ||| c == '\u{2028}'
    ||| c == '\u{2029}'
    ||| c == '\u{202f}'
    ||| c == '\u{205f}'
    ||| c == '\u{3000}'
}

/// Families of characters that are stripped from the edges of a text.
#[derive(Clone, Copy)]
pub enum CharClass {
    /// White space.
    Space,
    /// White space and the punctuation around a clause or a spoken name.
    ClauseEdge,
    /// White space and the punctuation that may precede a transcript.
    TranscriptLead,
    /// The path separator `/`.
    Slash,
}

pub open spec fn in_class(class: CharClass, c: char) -> bool {
    match class {
        CharClass::Space => is_whitespace(c),
        CharClass::ClauseEdge => {
            ||| is_whitespace(c)
            ||| c == ',' || c == ';' || c == '.' || c == ':'
            ||| c == '\u{ff0c}' || c == '\u{ff1b}' || c == '\u{3002}'
        },
        CharClass::TranscriptLead => {
            ||| is_whitespace(c)
            ||| c == ',' || c == ';' || c == '.' || c == ':'
            ||| c == '\u{ff0c}' || c == '\u{ff1b}' || c == '\u{3002}'
            ||| c == '\u{3001}' || c == '\u{ff1a}'
        },
        CharClass::Slash => c == '/',
    }
}

/// Number of characters at the front of `s` that belong to `class`.
pub open spec fn leading(s: Seq<char>, class: CharClass) -> nat
    decreases s.len(),
{
    if s.len() > 0 && in_class(class, s.first()) {
        1 + leading(s.drop_first(), class)
    } else {
        0
    }
}

/// Number of characters at the back of `s` that belong to `class`.
pub open spec fn trailing(s: Seq<char>, class: CharClass) -> nat
    decreases s.len(),
{
    if s.len() > 0 && in_class(class, s.last()) {
        1 + trailing(s.drop_last(), class)
    } else {
        0
    }
}

pub open spec fn trim_start(s: Seq<char>, class: CharClass) -> Seq<char> {
    s.skip(leading(s, class) as int)
}

pub open spec fn trim_end(s: Seq<char>, class: CharClass) -> Seq<char> {
    s.take(s.len() - trailing(s, class))
}

pub open spec fn trim_class(s: Seq<char>, class: CharClass) -> Seq<char> {
    trim_end(trim_start(s, class), class)
}

/// The text without the white space at its two ends.
pub open spec fn trim(s: Seq<char>) -> Seq<char> {
    trim_class(s, CharClass::Space)
}

/// Nothing but white space.
pub open spec fn is_blank(s: Seq<char>) -> bool {
    forall|i: int| 0 <= i < s.len() ==> is_whitespace(#[trigger] s[i])
}

/// `p` stands in `s` at character position `i`.
pub open spec fn occurs_at(s: Seq<char>, p: Seq<char>, i: int) -> bool {
    0 <= i && i + p.len() <= s.len() && s.subrange(i, i + p.len()) =~= p
}

/// `p` stands somewhere in `s`.
pub open spec fn contains(s: Seq<char>, p: Seq<char>) -> bool {
    exists|i: int| occurs_at(s, p, i)
}

/// `i` is the first position at which `p` stands in `s`.
pub open spec fn first_at(s: Seq<char>, p: Seq<char>, i: int) -> bool {
    occurs_at(s, p, i) && forall|j: int| 0 <= j < i ==> !occurs_at(s, p, j)
}

/// Number of bytes of the UTF-8 form of `s`.
pub open spec fn byte_len(s: Seq<char>) -> nat {
    encode_utf8(s).len()
}

/// Number of bytes of the UTF-8 form of `c`.
pub open spec fn char_width(c: char) -> nat {
    if c <= '\u{7f}' {
        1
    } else if c <= '\u{7ff}' {
        2
    } else if c <= '\u{ffff}' {
        3
    } else {
        4
    }
}

/// Byte `n` of the UTF-8 form of `s` is where a character starts, or the end.
pub open spec fn is_boundary(s: Seq<char>, n: nat) -> bool {
    exists|i: int| 0 <= i <= s.len() && byte_len(#[trigger] s.take(i)) == n
}

/// The number of characters before byte `n`.
pub open spec fn char_index(s: Seq<char>, n: nat) -> int {
    choose|i: int| 0 <= i <= s.len() && byte_len(#[trigger] s.take(i)) == n
}

/// The decimal digits of `n`, most significant first.
pub open spec fn decimal(n: nat) -> Seq<char>
    decreases n,
{
    if n < 10 {
        seq![digit(n)]
    } else {
        decimal(n / 10).push(digit(n % 10))
    }
}

pub open spec fn digit(d: nat) -> char {
    (('0' as u32) + d) as char
}

/// `a` comes before `b` in the order of their characters, the first difference
/// deciding, and a text before its extensions.
pub open spec fn precedes(a: Seq<char>, b: Seq<char>) -> bool
    decreases a.len(),
{
    if b.len() == 0 {
        false
    } else if a.len() == 0 {
        true
    } else if a[0] != b[0] {
        a[0] < b[0]
    } else {
        precedes(a.drop_first(), b.drop_first())
    }
}

/// The length of the longest common prefix of `a` and `b`.
pub open spec fn common_len(a: Seq<char>, b: Seq<char>) -> nat
    decreases a.len(),
{
    if a.len() > 0 && b.len() > 0 && a[0] == b[0] {
        1 + common_len(a.drop_first(), b.drop_first())
    } else {
        0
    }
}

/// The longest beginning of `s` whose UTF-8 form has at most `n` bytes.
pub open spec fn fitting(s: Seq<char>, n: nat) -> Seq<char>
    decreases s.len(),
{
    if s.len() == 0 || byte_len(s) <= n {
        s
    } else {
        fitting(s.drop_last(), n)
    }
}

/// `s` with `new` in place of each occurrence of `old`, from the front, where none overlaps
/// the one before. The empty text occurs before each character and at the end.
pub open spec fn replaced(s: Seq<char>, old: Seq<char>, new: Seq<char>) -> Seq<char>
    decreases s.len(),
{
    if s.len() == 0 {
        if old.len() == 0 {
            new
        } else {
            s
        }
    } else if old.len() == 0 {
        new + seq![s[0]] + replaced(s.drop_first(), old, new)
    } else if occurs_at(s, old, 0) {
        new + replaced(s.skip(old.len() as int), old, new)
    } else {
        seq![s[0]] + replaced(s.drop_first(), old, new)
    }
}

/// The number of these occurrences.
pub open spec fn match_count(s: Seq<char>, old: Seq<char>) -> nat
    decreases s.len(),
{
    if s.len() == 0 {
        if old.len() == 0 {
            1
        } else {
            0
        }
    } else if old.len() == 0 {
        1 + match_count(s.drop_first(), old)
    } else if occurs_at(s, old, 0) {
        1 + match_count(s.skip(old.len() as int), old)
    } else {
        match_count(s.drop_first(), old)
    }
}

/// `s` with `new` in place of the first occurrence of `old`.
pub open spec fn replaced_once(s: Seq<char>, old: Seq<char>, new: Seq<char>) -> Seq<char>
    decreases s.len(),
{
    if occurs_at(s, old, 0) {
        new + s.skip(old.len() as int)
    } else if s.len() == 0 {
        s
    } else {
        seq![s[0]] + replaced_once(s.drop_first(), old, new)
    }
}

/// The text that there is, if any.
pub open spec fn opt_text(s: Option<String>) -> Option<Seq<char>> {
    match s {
        Some(v) => Some(v@),
        None => None,
    }
}

/// The texts that there are at each place, if any.
pub open spec fn opt_texts(s: Seq<Option<String>>) -> Seq<Option<Seq<char>>> {
    s.map_values(|x: Option<String>| opt_text(x))
}

/// The decimal digits of a number, with its sign where it is negative.
pub open spec fn signed_decimal(n: int) -> Seq<char> {
    if n < 0 {
        "-"@ + decimal((-n) as nat)
    } else {
        decimal(n as nat)
    }
}

/// The lines of a text: what stands before, between and after its line feeds. A carriage
/// return before a line feed belongs to it, and there is no line after a final line feed.
pub open spec fn lines_of(s: Seq<char>) -> Seq<Seq<char>>
    decreases s.len(),
{
    if s.len() == 0 {
        seq![]
    } else {
        let n = line_len(s);
        if n >= s.len() {
            seq![s]
        } else {
            seq![without_return(s.take(n as int))] + lines_of(s.skip(n as int + 1))
        }
    }
}

/// The number of characters before the first line feed.
pub open spec fn line_len(s: Seq<char>) -> nat
    decreases s.len(),
{
    if s.len() == 0 || s[0] == '\n' {
        0
    } else {
        1 + line_len(s.drop_first())
    }
}

/// A line without the carriage return at its end.
pub open spec fn without_return(line: Seq<char>) -> Seq<char> {
    if line.len() > 0 && line.last() == '\r' {
        line.drop_last()
    } else {
        line
    }
}

/// The texts in order, with `sep` between each two neighbours.
pub open spec fn joined(parts: Seq<Seq<char>>, sep: Seq<char>) -> Seq<char>
    decreases parts.len(),
{
    if parts.len() == 0 {
        seq![]
    } else if parts.len() == 1 {
        parts[0]
    } else {
        joined(parts.drop_last(), sep) + sep + parts.last()
    }
}

/// The texts that a list of strings holds.
pub open spec fn views(parts: Seq<String>) -> Seq<Seq<char>> {
    parts.map_values(|p: String| p@)
}

// ---------------------------------------------------------------------------
// Facts about the model
// ---------------------------------------------------------------------------

pub proof fn lemma_leading(s: Seq<char>, class: CharClass)
    ensures
        leading(s, class) <= s.len(),
        forall|i: int| 0 <= i < leading(s, class) ==> in_class(class, #[trigger] s[i]),
        leading(s, class) < s.len() ==> !in_class(class, s[leading(s, class) as int]),
    decreases s.len(),
{
    if s.len() > 0 && in_class(class, s.first()) {
        lemma_leading(s.drop_first(), class);
        assert forall|i: int| 0 <= i < leading(s, class) implies in_class(class, #[trigger] s[i]) by {
            if i > 0 {
                assert(s.drop_first()[i - 1] == s[i]);
            }
        }
    }
}

pub proof fn lemma_leading_is(s: Seq<char>, class: CharClass, n: nat)
    requires
        n <= s.len(),
        forall|i: int| 0 <= i < n ==> in_class(class, #[trigger] s[i]),
        n < s.len() ==> !in_class(class, s[n as int]),
    ensures
        leading(s, class) == n,
{
    lemma_leading(s, class);
    let l = leading(s, class);
    if l < n {
        assert(in_class(class, s[l as int]));
    } else if n < l {
        assert(in_class(class, s[n as int]));
    }
}

pub proof fn lemma_trailing(s: Seq<char>, class: CharClass)
    ensures
        trailing(s, class) <= s.len(),
        forall|i: int|
            s.len() - trailing(s, class) <= i < s.len() ==> in_class(class, #[trigger] s[i]),
        trailing(s, class) < s.len() ==> !in_class(class, s[s.len() - trailing(s, class) - 1]),
    decreases s.len(),
{
    if s.len() > 0 && in_class(class, s.last()) {
        lemma_trailing(s.drop_last(), class);
        assert forall|i: int| s.len() - trailing(s, class) <= i < s.len() implies in_class(
            class,
            #[trigger] s[i],
        ) by {
            if i < s.len() - 1 {
                assert(s.drop_last()[i] == s[i]);
            }
        }
    }
}

pub proof fn lemma_trailing_is(s: Seq<char>, class: CharClass, n: nat)
    requires
        n <= s.len(),
        forall|i: int| s.len() - n <= i < s.len() ==> in_class(class, #[trigger] s[i]),
        n < s.len() ==> !in_class(class, s[s.len() - n - 1]),
    ensures
        trailing(s, class) == n,
{
    lemma_trailing(s, class);
    let t = trailing(s, class);
    if t < n {
        assert(in_class(class, s[s.len() - t - 1]));
    } else if n < t {
        assert(in_class(class, s[s.len() - n - 1]));
    }
}

/// Trimming leaves nothing exactly when there was nothing but white space.
pub proof fn lemma_trim_blank(s: Seq<char>)
    ensures
        trim(s).len() == 0 <==> is_blank(s),
        is_blank(s) <==> trim_start(s, CharClass::Space).len() == 0,
{
    let class = CharClass::Space;
    lemma_leading(s, class);
    let t = trim_start(s, class);
    lemma_trailing(t, class);
    if is_blank(s) {
        if leading(s, class) < s.len() {
            assert(is_whitespace(s[leading(s, class) as int]));
        }
    } else {
        let i = choose|i: int| 0 <= i < s.len() && !is_whitespace(s[i]);
        assert(!in_class(class, s[i]));
        if leading(s, class) == s.len() {
            assert(in_class(class, s[i]));
        }
        assert(t.len() > 0);
        assert(t[0] == s[leading(s, class) as int]);
        if trailing(t, class) == t.len() {
            assert(in_class(class, t[0]));
        }
    }
}

/// A text keeps its first character when it is trimmed, unless that is white space.
pub proof fn lemma_trim_keeps_first(s: Seq<char>)
    requires
        s.len() > 0,
        !is_whitespace(s[0]),
    ensures
        trim(s).len() > 0,
        trim(s)[0] == s[0],
{
    lemma_trim_blank(s);
    let class = CharClass::Space;
    assert(!in_class(class, s[0]));
    assert(leading(s, class) == 0);
    assert(trim_start(s, class) =~= s);
    lemma_trailing(s, class);
    assert(trim(s) =~= s.take(trim(s).len() as int));
    assert(s.take(trim(s).len() as int)[0] == s[0]);
}

/// Trimming takes away the white space at the two ends of a text and nothing else: what is
/// left is one part of the text, with white space alone before and behind it, and begins and
/// ends with something else.
pub proof fn law_trimming_takes_only_white_space(s: Seq<char>)
    ensures
        exists|from: int, to: int|
            #![trigger s.subrange(from, to)]
            {
                &&& 0 <= from <= to <= s.len()
                &&& trim(s) == s.subrange(from, to)
                &&& forall|i: int|
                    0 <= i < from || to <= i < s.len() ==> is_whitespace(#[trigger] s[i])
                &&& from < to ==> !is_whitespace(s[from]) && !is_whitespace(s[to - 1])
            },
        is_blank(s) <==> trim(s).len() == 0,
{
    lemma_trim_blank(s);
    let class = CharClass::Space;
    lemma_leading(s, class);
    let from = leading(s, class) as int;
    let t = trim_start(s, class);
    lemma_trailing(t, class);
    let to = s.len() - trailing(t, class);
    assert(trim(s) =~= s.subrange(from, to));
    assert forall|i: int| 0 <= i < from || to <= i < s.len() implies is_whitespace(
        #[trigger] s[i],
    ) by {
        if i < from {
            assert(in_class(class, s[i]));
        } else {
            assert(in_class(class, t[i - from]));
        }
    }
    if from < to {
        assert(!in_class(class, s[from]));
        assert(!in_class(class, t[t.len() - trailing(t, class) - 1]));
        assert(s[to - 1] == t[t.len() - trailing(t, class) - 1]);
    }
}

/// The longest common prefix is one of both texts, and they differ after it.
pub proof fn lemma_common_len(a: Seq<char>, b: Seq<char>)
    ensures
        common_len(a, b) <= a.len(),
        common_len(a, b) <= b.len(),
        a.take(common_len(a, b) as int) == b.take(common_len(a, b) as int),
        common_len(a, b) < a.len() && common_len(a, b) < b.len() ==> a[common_len(a, b) as int]
            != b[common_len(a, b) as int],
    decreases a.len(),
{
    let n = common_len(a, b) as int;
    if a.len() > 0 && b.len() > 0 && a[0] == b[0] {
        let x = a.drop_first();
        let y = b.drop_first();
        lemma_common_len(x, y);
        assert(a.take(n) =~= seq![a[0]] + x.take(n - 1));
        assert(b.take(n) =~= seq![b[0]] + y.take(n - 1));
    } else {
        assert(a.take(0) =~= b.take(0));
    }
}

/// The length of the common prefix is the one number of equal leading characters
/// after which the texts differ or one of them ends.
pub proof fn lemma_common_len_is(a: Seq<char>, b: Seq<char>, n: nat)
    requires
        n <= a.len(),
        n <= b.len(),
        forall|i: int| 0 <= i < n ==> a[i] == b[i],
        n < a.len() && n < b.len() ==> a[n as int] != b[n as int],
    ensures
        common_len(a, b) == n,
{
    lemma_common_len(a, b);
    let m = common_len(a, b) as int;
    if m < n {
        assert(a[m] == b[m]);
    } else if n < m {
        assert(a.take(m)[n as int] == b.take(m)[n as int]);
    }
}

pub proof fn lemma_line_len(s: Seq<char>)
    ensures
        line_len(s) <= s.len(),
        forall|i: int| 0 <= i < line_len(s) ==> s[i] != '\n',
        line_len(s) < s.len() ==> s[line_len(s) as int] == '\n',
    decreases s.len(),
{
    if s.len() > 0 && s[0] != '\n' {
        lemma_line_len(s.drop_first());
        assert forall|i: int| 0 <= i < line_len(s) implies s[i] != '\n' by {
            if i > 0 {
                assert(s[i] == s.drop_first()[i - 1]);
            }
        }
    }
}

/// Replacing a text by itself changes nothing.
pub proof fn lemma_replaced_by_itself(s: Seq<char>, old: Seq<char>)
    ensures
        replaced(s, old, old) == s,
        replaced_once(s, old, old) == s,
    decreases s.len(),
{
    if s.len() == 0 {
        if occurs_at(s, old, 0) {
            assert(old + s.skip(0) =~= s);
        }
    } else {
        lemma_replaced_by_itself(s.drop_first(), old);
        assert(seq![s[0]] + s.drop_first() =~= s);
        if occurs_at(s, old, 0) {
            assert(s.subrange(0, old.len() as int) =~= old);
            assert(old + s.skip(old.len() as int) =~= s);
        }
        if old.len() == 0 {
            assert(old + seq![s[0]] + s.drop_first() =~= s);
        } else if occurs_at(s, old, 0) {
            lemma_replaced_by_itself(s.skip(old.len() as int), old);
        }
    }
}

/// A text occurs in another exactly where it is found at least once.
pub proof fn lemma_match_count(s: Seq<char>, old: Seq<char>)
    ensures
        match_count(s, old) > 0 <==> contains(s, old),
        match_count(s, old) <= s.len() + 1,
        old.len() > 0 ==> match_count(s, old) <= s.len(),
    decreases s.len(),
{
    if s.len() == 0 {
        if old.len() == 0 {
            assert(occurs_at(s, old, 0));
        }
    } else {
        let t = s.drop_first();
        lemma_match_count(t, old);
        if old.len() == 0 {
            assert(occurs_at(s, old, 0));
        } else if occurs_at(s, old, 0) {
            lemma_match_count(s.skip(old.len() as int), old);
        } else {
            if contains(t, old) {
                let i = choose|i: int| occurs_at(t, old, i);
                assert(s.subrange(i + 1, i + 1 + old.len()) =~= t.subrange(i, i + old.len()));
                assert(occurs_at(s, old, i + 1));
            }
            if contains(s, old) {
                let i = choose|i: int| occurs_at(s, old, i);
                assert(s.subrange(i, i + old.len()) =~= t.subrange(i - 1, i - 1 + old.len()));
                assert(occurs_at(t, old, i - 1));
            }
        }
    }
}

/// The digits of a number begin with no zero, unless they are nothing but one.
pub proof fn lemma_decimal_first(n: nat)
    ensures
        decimal(n).len() > 0,
        n > 0 ==> decimal(n)[0] != '0',
        n == 0 ==> decimal(n).len() == 1,
    decreases n,
{
    if n >= 10 {
        lemma_decimal_first(n / 10);
    }
}

/// A number is written with digits alone.
pub proof fn lemma_decimal_digits(n: nat)
    ensures
        forall|i: int| 0 <= i < decimal(n).len() ==> '0' <= #[trigger] decimal(n)[i] <= '9',
    decreases n,
{
    let d = decimal(n);
    if n >= 10 {
        lemma_decimal_digits(n / 10);
        assert forall|i: int| 0 <= i < d.len() implies '0' <= #[trigger] d[i] <= '9' by {
            if i < d.len() - 1 {
                assert(d[i] == decimal(n / 10)[i]);
            } else {
                assert(d[i] == digit(n % 10));
            }
        }
    } else {
        assert(d[0] == digit(n));
    }
}

/// Different numbers have different digits.
pub proof fn lemma_decimal_injective(m: nat, n: nat)
    requires
        decimal(m) == decimal(n),
    ensures
        m == n,
    decreases m,
{
    lemma_decimal_first(m / 10);
    lemma_decimal_first(n / 10);
    let a = decimal(m);
    let b = decimal(n);
    assert(a.last() == digit(m % 10));
    assert(b.last() == digit(n % 10));
    if m >= 10 && n >= 10 {
        assert(a.drop_last() =~= decimal(m / 10));
        assert(b.drop_last() =~= decimal(n / 10));
        lemma_decimal_injective(m / 10, n / 10);
    }
}

/// Joining texts none of which is empty gives an empty text only where there are none.
pub proof fn lemma_joined_not_empty(parts: Seq<Seq<char>>, sep: Seq<char>)
    requires
        parts.len() > 0,
        parts.last().len() > 0,
    ensures
        joined(parts, sep).len() > 0,
{
}

/// The UTF-8 form of a concatenation is the concatenation of the UTF-8 forms.
pub proof fn lemma_encode_add(a: Seq<char>, b: Seq<char>)
    ensures
        encode_utf8(a + b) == encode_utf8(a) + encode_utf8(b),
        byte_len(a + b) == byte_len(a) + byte_len(b),
    decreases a.len(),
{
    if a.len() == 0 {
        assert(a + b =~= b);
        assert(encode_utf8(a) + encode_utf8(b) =~= encode_utf8(b));
    } else {
        lemma_encode_add(a.drop_first(), b);
        assert((a + b).drop_first() =~= a.drop_first() + b);
        assert((a + b).first() == a.first());
        assert(encode_utf8(a + b) =~= encode_utf8(a) + encode_utf8(b));
    }
}

pub proof fn lemma_byte_len_single(c: char)
    ensures
        byte_len(seq![c]) == char_width(c),
{
    let s = seq![c];
    assert(s.drop_first() =~= Seq::<char>::empty());
    assert(encode_utf8(Seq::<char>::empty()) =~= Seq::<u8>::empty());
    assert(encode_utf8(s) =~= encode_scalar(c as u32) + encode_utf8(s.drop_first()));
}

pub proof fn lemma_byte_len_push(s: Seq<char>, c: char)
    ensures
        byte_len(s.push(c)) == byte_len(s) + char_width(c),
{
    lemma_encode_add(s, seq![c]);
    lemma_byte_len_single(c);
    assert(s.push(c) =~= s + seq![c]);
}

pub proof fn lemma_byte_len_bounds(s: Seq<char>)
    ensures
        s.len() <= byte_len(s) <= 4 * s.len(),
    decreases s.len(),
{
    if s.len() > 0 {
        lemma_byte_len_bounds(s.drop_last());
        lemma_byte_len_push(s.drop_last(), s.last());
        assert(s.drop_last().push(s.last()) =~= s);
    } else {
        assert(encode_utf8(s) =~= Seq::<u8>::empty());
    }
}

/// A longer prefix has a longer UTF-8 form.
pub proof fn lemma_byte_len_prefix(s: Seq<char>, i: int, j: int)
    requires
        0 <= i <= j <= s.len(),
    ensures
        byte_len(s.take(i)) <= byte_len(s.take(j)),
        i < j ==> byte_len(s.take(i)) < byte_len(s.take(j)),
        byte_len(s.take(j)) <= byte_len(s),
{
    assert(s.take(j) =~= s.take(i) + s.subrange(i, j));
    lemma_encode_add(s.take(i), s.subrange(i, j));
    lemma_byte_len_bounds(s.subrange(i, j));
    assert(s =~= s.take(j) + s.skip(j));
    lemma_encode_add(s.take(j), s.skip(j));
}

pub proof fn lemma_fitting_is(s: Seq<char>, n: nat, i: int)
    requires
        0 <= i <= s.len(),
        byte_len(s.take(i)) <= n,
        i < s.len() ==> byte_len(s.take(i + 1)) > n,
    ensures
        fitting(s, n) == s.take(i),
    decreases s.len(),
{
    if i == s.len() {
        assert(s.take(i) =~= s);
    } else {
        lemma_byte_len_prefix(s, i + 1, s.len() as int);
        assert(s.take(s.len() as int) =~= s);
        let t = s.drop_last();
        assert(t.take(i) =~= s.take(i));
        if i < t.len() {
            assert(t.take(i + 1) =~= s.take(i + 1));
        }
        lemma_fitting_is(t, n, i);
    }
}

/// Each number of characters has its own number of bytes.
pub proof fn lemma_char_index(s: Seq<char>, i: int)
    requires
        0 <= i <= s.len(),
    ensures
        is_boundary(s, byte_len(s.take(i))),
        char_index(s, byte_len(s.take(i))) == i,
{
    let n = byte_len(s.take(i));
    let j = char_index(s, n);
    assert(0 <= j <= s.len() && byte_len(s.take(j)) == n);
    if i < j {
        lemma_byte_len_prefix(s, i, j);
    } else if j < i {
        lemma_byte_len_prefix(s, j, i);
    }
}

/// Equal UTF-8 forms come from equal texts.
pub proof fn lemma_encode_injective(a: Seq<char>, b: Seq<char>)
    requires
        encode_utf8(a) == encode_utf8(b),
    ensures
        a == b,
{
    encode_utf8_decode_utf8(a);
    encode_utf8_decode_utf8(b);
}

/// The order of texts is strict and total.
pub proof fn lemma_precedes_total(a: Seq<char>, b: Seq<char>)
    ensures
        !precedes(a, a),
        a != b ==> precedes(a, b) || precedes(b, a),
        !(precedes(a, b) && precedes(b, a)),
    decreases a.len(),
{
    if a.len() > 0 {
        lemma_precedes_total(a.drop_first(), a.drop_first());
        if b.len() > 0 {
            lemma_precedes_total(a.drop_first(), b.drop_first());
            if a != b && a[0] == b[0] {
                if a.drop_first() == b.drop_first() {
                    assert(a =~= seq![a[0]] + a.drop_first());
                    assert(b =~= seq![b[0]] + b.drop_first());
                }
            }
        }
    } else if b.len() == 0 {
        assert(a =~= b);
    }
}

/// The order of texts is transitive.
pub proof fn lemma_precedes_transitive(a: Seq<char>, b: Seq<char>, c: Seq<char>)
    requires
        precedes(a, b),
        precedes(b, c),
    ensures
        precedes(a, c),
    decreases a.len(),
{
    if a.len() > 0 && a[0] == b[0] && b[0] == c[0] {
        lemma_precedes_transitive(a.drop_first(), b.drop_first(), c.drop_first());
    }
}

// ---------------------------------------------------------------------------
// Operations
// ---------------------------------------------------------------------------

/// `String::push` appends one character.
pub assume_specification[ String::push ](s: &mut String, c: char)
    ensures
        final(s)@ == old(s)@.push(c),
;

/// The lower-case form of `s`, as Unicode defines it.
pub uninterp spec fn lowercase(s: Seq<char>) -> Seq<char>;

/// `str::to_lowercase`: the lower-case form of the text, which depends on the text
/// alone. Nothing is said of which characters it holds.
#[verifier::external_body]
pub(crate) fn to_lowercase(s: &str) -> (r: String)
    ensures
        r@ == lowercase(s@),
{
    s.to_lowercase()
}

pub fn is_space(c: char) -> (r: bool)
    ensures
        r == is_whitespace(c),
{
    ('\u{9}' <= c && c <= '\u{d}') || c == '\u{20}' || c == '\u{85}' || c == '\u{a0}' || c
        == '\u{1680}' || ('\u{2000}' <= c && c <= '\u{200a}') || c == '\u{2028}' || c == '\u{2029}'
        || c == '\u{202f}' || c == '\u{205f}' || c == '\u{3000}'
}

pub fn is_in_class(class: CharClass, c: char) -> (r: bool)
    ensures
        r == in_class(class, c),
{
    match class {
        CharClass::Space => is_space(c),
        CharClass::ClauseEdge => is_space(c) || c == ',' || c == ';' || c == '.' || c == ':' || c
            == '\u{ff0c}' || c == '\u{ff1b}' || c == '\u{3002}',
        CharClass::TranscriptLead => is_space(c) || c == ',' || c == ';' || c == '.' || c == ':'
            || c == '\u{ff0c}' || c == '\u{ff1b}' || c == '\u{3002}' || c == '\u{3001}' || c
            == '\u{ff1a}',
        CharClass::Slash => c == '/',
    }
}

pub fn width_of(c: char) -> (r: usize)
    ensures
        r == char_width(c),
{
    if c <= '\u{7f}' {
        1
    } else if c <= '\u{7ff}' {
        2
    } else if c <= '\u{ffff}' {
        3
    } else {
        4
    }
}

pub fn byte_count(s: &str) -> (r: usize)
    ensures
        r == byte_len(s@),
{
    s.as_bytes().len()
}

/// The number of characters before byte `n`, where a character starts there or
/// the text ends.
pub fn char_position(s: &str, n: usize) -> (r: Option<usize>)
    ensures
        r is Some <==> is_boundary(s@, n as nat),
        r matches Some(i) ==> i <= s@.len() && byte_len(s@.take(i as int)) == n && i == char_index(
            s@,
            n as nat,
        ),
{
    let v = chars_of(s);
    let total: usize = byte_count(s);
    let mut bytes: usize = 0;
    let mut i: usize = 0;
    proof {
        assert(s@.take(0) =~= Seq::<char>::empty());
        lemma_byte_len_bounds(s@.take(0));
        assert(s@.take(s@.len() as int) =~= s@);
    }
    while i < v.len() && bytes < n
        invariant
            v@ == s@,
            total == byte_len(s@),
            s@.take(s@.len() as int) == s@,
            i <= v@.len(),
            bytes == byte_len(s@.take(i as int)),
            forall|j: int| 0 <= j < i ==> byte_len(#[trigger] s@.take(j)) < n,
        decreases v@.len() - i,
    {
        proof {
            lemma_byte_len_push(s@.take(i as int), s@[i as int]);
            assert(s@.take(i + 1) =~= s@.take(i as int).push(s@[i as int]));
            lemma_byte_len_prefix(s@, i + 1, s@.len() as int);
        }
        bytes += width_of(v[i]);
        i += 1;
    }
    if bytes == n {
        proof {
            lemma_char_index(s@, i as int);
        }
        Some(i)
    } else {
        proof {
            if is_boundary(s@, n as nat) {
                let j = char_index(s@, n as nat);
                assert(byte_len(s@.take(j)) == n);
                if j > i {
                    lemma_byte_len_prefix(s@, i as int, j);
                }
            }
        }
        None
    }
}

pub fn str_eq(a: &str, b: &str) -> (r: bool)
    ensures
        r == (a@ == b@),
{
    let x = a.as_bytes();
    let y = b.as_bytes();
    if x.len() != y.len() {
        return false;
    }
    let n: usize = x.len();
    for i in 0..n
        invariant
            n == x@.len() == y@.len(),
            x@ == encode_utf8(a@),
            y@ == encode_utf8(b@),
            forall|j: int| 0 <= j < i ==> x@[j] == y@[j],
    {
        if x[i] != y[i] {
            return false;
        }
    }
    proof {
        assert(x@ =~= y@);
        lemma_encode_injective(a@, b@);
    }
    true
}

/// Whether `a` comes before `b` in the order of texts.
pub fn str_precedes(a: &str, b: &str) -> (r: bool)
    ensures
        r == precedes(a@, b@),
{
    let x = chars_of(a);
    let y = chars_of(b);
    let mut i: usize = 0;
    assert(x@.skip(0) =~= x@);
    assert(y@.skip(0) =~= y@);
    while i < x.len() && i < y.len()
        invariant
            x@ == a@,
            y@ == b@,
            i <= x@.len(),
            i <= y@.len(),
            precedes(a@, b@) == precedes(x@.skip(i as int), y@.skip(i as int)),
        decreases x@.len() - i,
    {
        assert(x@.skip(i as int)[0] == x@[i as int]);
        assert(y@.skip(i as int)[0] == y@[i as int]);
        if x[i] != y[i] {
            return x[i] < y[i];
        }
        assert(x@.skip(i as int).drop_first() =~= x@.skip(i + 1));
        assert(y@.skip(i as int).drop_first() =~= y@.skip(i + 1));
        i += 1;
    }
    i < y.len()
}

pub fn chars_of(s: &str) -> (r: Vec<char>)
    ensures
        r@ == s@,
{
    let mut out: Vec<char> = Vec::new();
    for c in it: s.chars()
        invariant
            out@ == it.seq().take(it.index()),
            it.seq() == s@,
    {
        out.push(c);
    }
    out
}

/// The characters `from..to` as a string.
pub fn collect_chars(v: &Vec<char>, from: usize, to: usize) -> (r: String)
    requires
        from <= to <= v@.len(),
    ensures
        r@ == v@.subrange(from as int, to as int),
{
    let mut out = String::new();
    for i in from..to
        invariant
            from <= to <= v@.len(),
            out@ == v@.subrange(from as int, i as int),
    {
        out.push(v[i]);
        assert(v@.subrange(from as int, i as int).push(v@[i as int]) =~= v@.subrange(
            from as int,
            i + 1,
        ));
    }
    out
}

fn count_leading(v: &Vec<char>, class: CharClass) -> (r: usize)
    ensures
        r == leading(v@, class),
{
    let mut i: usize = 0;
    while i < v.len() && is_in_class(class, v[i])
        invariant
            i <= v@.len(),
            forall|j: int| 0 <= j < i ==> in_class(class, #[trigger] v@[j]),
        decreases v@.len() - i,
    {
        i += 1;
    }
    proof {
        lemma_leading_is(v@, class, i as nat);
    }
    i
}

/// Number of characters of the prefix `v[..end]` that are left once the
/// trailing characters of `class` are dropped.
fn end_without_trailing(v: &Vec<char>, class: CharClass, start: usize) -> (r: usize)
    requires
        start <= v@.len(),
    ensures
        start <= r <= v@.len(),
        r - start == v@.skip(start as int).len() - trailing(v@.skip(start as int), class),
{
    let mut i: usize = v.len();
    let ghost t = v@.skip(start as int);
    while i > start && is_in_class(class, v[i - 1])
        invariant
            start <= i <= v@.len(),
            t == v@.skip(start as int),
            forall|j: int| i - start <= j < t.len() ==> in_class(class, #[trigger] t[j]),
        decreases i,
    {
        i -= 1;
    }
    proof {
        lemma_trailing_is(t, class, (v@.len() - i) as nat);
    }
    i
}

pub fn trim_start_str<'a>(s: &'a str, class: CharClass) -> (r: &'a str)
    ensures
        r@ == trim_start(s@, class),
{
    let v = chars_of(s);
    let i: usize = count_leading(&v, class);
    proof {
        lemma_leading(s@, class);
        assert(s@.subrange(i as int, s@.len() as int) =~= s@.skip(i as int));
    }
    s.substring_char(i, v.len())
}

pub fn trim_end_str<'a>(s: &'a str, class: CharClass) -> (r: &'a str)
    ensures
        r@ == trim_end(s@, class),
{
    let v = chars_of(s);
    let e: usize = end_without_trailing(&v, class, 0);
    proof {
        assert(v@.skip(0) =~= v@);
        assert(s@.subrange(0, e as int) =~= s@.take(e as int));
    }
    s.substring_char(0, e)
}

pub fn trim_class_str<'a>(s: &'a str, class: CharClass) -> (r: &'a str)
    ensures
        r@ == trim_class(s@, class),
{
    trim_end_str(trim_start_str(s, class), class)
}

pub fn trim_str<'a>(s: &'a str) -> (r: &'a str)
    ensures
        r@ == trim(s@),
{
    trim_class_str(s, CharClass::Space)
}

/// Whether `s` holds nothing but white space.
pub fn is_blank_str(s: &str) -> (r: bool)
    ensures
        r == is_blank(s@),
        r == (trim(s@).len() == 0),
{
    proof {
        lemma_trim_blank(s@);
    }
    trim_str(s).is_empty()
}

fn stands_at(v: &Vec<char>, p: &Vec<char>, i: usize) -> (r: bool)
    requires
        i + p@.len() <= v@.len(),
    ensures
        r == occurs_at(v@, p@, i as int),
{
    let n: usize = v.len();
    for k in 0..p.len()
        invariant
            n == v@.len(),
            i + p@.len() <= n,
            forall|j: int| 0 <= j < k ==> v@[i + j] == p@[j],
    {
        if v[i + k] != p[k] {
            assert(v@.subrange(i as int, i + p@.len())[k as int] != p@[k as int]);
            return false;
        }
    }
    assert(v@.subrange(i as int, i + p@.len()) =~= p@);
    true
}

pub fn starts_with(s: &str, p: &str) -> (r: bool)
    ensures
        r == p@.is_prefix_of(s@),
        r == occurs_at(s@, p@, 0),
{
    let v = chars_of(s);
    let q = chars_of(p);
    proof {
        if p@.len() <= s@.len() {
            assert(s@.subrange(0, p@.len() as int) =~= s@.take(p@.len() as int));
        }
        assert(p@.is_prefix_of(s@) == occurs_at(s@, p@, 0));
    }
    q.len() <= v.len() && stands_at(&v, &q, 0)
}

pub fn ends_with(s: &str, p: &str) -> (r: bool)
    ensures
        r == p@.is_suffix_of(s@),
{
    let v = chars_of(s);
    let q = chars_of(p);
    if q.len() > v.len() {
        return false;
    }
    proof {
        let k = s@.len() - p@.len();
        assert(s@.subrange(k, k + p@.len()) =~= s@.skip(k));
    }
    stands_at(&v, &q, v.len() - q.len())
}

/// What follows the prefix `p`, where `s` starts with it.
pub fn strip_prefix<'a>(s: &'a str, p: &str) -> (r: Option<&'a str>)
    ensures
        r is Some <==> p@.is_prefix_of(s@),
        r matches Some(rest) ==> rest@ == s@.skip(p@.len() as int) && s@ == p@ + rest@,
{
    if starts_with(s, p) {
        let n: usize = p.unicode_len();
        let m: usize = s.unicode_len();
        proof {
            assert(s@.subrange(n as int, m as int) =~= s@.skip(n as int));
            assert(s@ =~= p@ + s@.skip(n as int)) by {
                assert(s@.take(n as int) =~= p@);
            }
        }
        Some(s.substring_char(n, m))
    } else {
        None
    }
}

/// What precedes the suffix `p`, where `s` ends with it.
pub fn strip_suffix<'a>(s: &'a str, p: &str) -> (r: Option<&'a str>)
    ensures
        r is Some <==> p@.is_suffix_of(s@),
        r matches Some(rest) ==> rest@ == s@.take(s@.len() - p@.len()) && s@ == rest@ + p@,
{
    if ends_with(s, p) {
        let k: usize = s.unicode_len() - p.unicode_len();
        proof {
            assert(s@.subrange(0, k as int) =~= s@.take(k as int));
            assert(s@ =~= s@.take(k as int) + p@) by {
                assert(s@.skip(k as int) =~= p@);
            }
        }
        Some(s.substring_char(0, k))
    } else {
        None
    }
}

/// First character position at or after `from` at which `p` stands in `v`.
pub fn find_chars(v: &Vec<char>, p: &Vec<char>, from: usize) -> (r: Option<usize>)
    requires
        from <= v@.len(),
    ensures
        r matches Some(i) ==> from <= i && occurs_at(v@, p@, i as int) && forall|j: int|
            from <= j < i ==> !occurs_at(v@, p@, j),
        r is None ==> forall|j: int| from <= j ==> !occurs_at(v@, p@, j),
{
    if p.len() > v.len() {
        return None;
    }
    let last: usize = v.len() - p.len();
    let mut i: usize = from;
    while i <= last
        invariant
            last == v@.len() - p@.len(),
            from <= i,
            forall|j: int| from <= j < i ==> !occurs_at(v@, p@, j),
        decreases last + 1 - i,
    {
        if stands_at(v, p, i) {
            return Some(i);
        }
        if i == last {
            return None;
        }
        i += 1;
    }
    None
}

/// First character position at which `p` stands in `s`.
pub fn find(s: &str, p: &str) -> (r: Option<usize>)
    ensures
        r matches Some(i) ==> first_at(s@, p@, i as int),
        r is None <==> !contains(s@, p@),
{
    let v = chars_of(s);
    let q = chars_of(p);
    find_chars(&v, &q, 0)
}

pub fn contains_str(s: &str, p: &str) -> (r: bool)
    ensures
        r == contains(s@, p@),
{
    find(s, p).is_some()
}

/// The first `n` characters, or all of them where there are fewer.
pub fn take_chars(s: &str, n: usize) -> (r: String)
    ensures
        r@ == (if s@.len() <= n {
            s@
        } else {
            s@.take(n as int)
        }),
{
    let v = chars_of(s);
    let e: usize = if v.len() <= n {
        v.len()
    } else {
        n
    };
    proof {
        assert(v@.subrange(0, e as int) =~= v@.take(e as int));
        assert(v@.take(v@.len() as int) =~= v@);
    }
    collect_chars(&v, 0, e)
}

/// The longest beginning of `s` that has at most `n` bytes.
pub fn take_bytes(s: &str, n: usize) -> (r: String)
    ensures
        r@ == fitting(s@, n as nat),
{
    let v = chars_of(s);
    let mut bytes: usize = 0;
    let mut i: usize = 0;
    assert(s@.take(0) =~= seq![]);
    assert(byte_len(s@.take(0)) == 0) by {
        lemma_byte_len_bounds(s@.take(0));
    }
    while i < v.len() && width_of(v[i]) <= n - bytes
        invariant
            v@ == s@,
            i <= v@.len(),
            bytes == byte_len(s@.take(i as int)),
            bytes <= n,
        decreases v@.len() - i,
    {
        proof {
            lemma_byte_len_push(s@.take(i as int), s@[i as int]);
            assert(s@.take(i as int).push(s@[i as int]) =~= s@.take(i + 1));
        }
        bytes = bytes + width_of(v[i]);
        i = i + 1;
    }
    proof {
        if i < v@.len() {
            lemma_byte_len_push(s@.take(i as int), s@[i as int]);
            assert(s@.take(i as int).push(s@[i as int]) =~= s@.take(i + 1));
        }
        lemma_fitting_is(s@, n as nat, i as int);
        assert(s@.subrange(0, i as int) =~= s@.take(i as int));
    }
    collect_chars(&v, 0, i)
}

/// The decimal form of `n`.
pub fn to_decimal(n: u64) -> (r: String)
    ensures
        r@ == decimal(n as nat),
    decreases n,
{
    let d: u8 = (n % 10) as u8;
    let c: char = ('0' as u8 + d) as char;
    assert(c == digit((n % 10) as nat));
    if n < 10 {
        let mut out = String::new();
        out.push(c);
        assert(out@ =~= decimal(n as nat));
        out
    } else {
        let mut out = to_decimal(n / 10);
        out.push(c);
        out
    }
}

/// The decimal digits of a number, with its sign where it is negative.
pub fn to_signed_decimal(n: i32) -> (r: String)
    ensures
        r@ == signed_decimal(n as int),
{
    if n < 0 {
        let m: i64 = -(n as i64);
        let digits = to_decimal(m as u64);
        concat2("-", digits.as_str())
    } else {
        to_decimal(n as u64)
    }
}

/// Whether `p` stands at position `i`.
fn found_at(v: &Vec<char>, p: &Vec<char>, i: usize) -> (r: bool)
    requires
        i <= v@.len(),
    ensures
        r == occurs_at(v@.skip(i as int), p@, 0),
        r == occurs_at(v@, p@, i as int),
{
    proof {
        if i + p@.len() <= v@.len() {
            assert(v@.skip(i as int).subrange(0, p@.len() as int) =~= v@.subrange(
                i as int,
                i + p@.len(),
            ));
        }
    }
    p.len() <= v.len() - i && stands_at(v, p, i)
}

/// `s` with `new` in place of each occurrence of `old`.
pub fn replace_all(s: &str, old: &str, new: &str) -> (r: String)
    ensures
        r@ == replaced(s@, old@, new@),
{
    let v = chars_of(s);
    let p = chars_of(old);
    let mut out = String::new();
    let mut i: usize = 0;
    assert(s@.skip(0) =~= s@);
    assert(seq![] + replaced(s@, old@, new@) =~= replaced(s@, old@, new@));
    while i < v.len()
        invariant
            v@ == s@,
            p@ == old@,
            i <= v@.len(),
            replaced(s@, old@, new@) == out@ + replaced(s@.skip(i as int), old@, new@),
        decreases v@.len() - i,
    {
        let ghost rest = s@.skip(i as int);
        let ghost before = out@;
        let c = v[i];
        assert(rest[0] == c);
        assert(rest.drop_first() =~= s@.skip(i + 1));
        if p.len() == 0 {
            out.append(new);
            out.push(c);
            i = i + 1;
            assert(before + (new@ + seq![c] + replaced(s@.skip(i as int), old@, new@)) =~= out@
                + replaced(s@.skip(i as int), old@, new@));
        } else if found_at(&v, &p, i) {
            out.append(new);
            i = i + p.len();
            assert(rest.skip(old@.len() as int) =~= s@.skip(i as int));
            assert(before + (new@ + replaced(s@.skip(i as int), old@, new@)) =~= out@ + replaced(
                s@.skip(i as int),
                old@,
                new@,
            ));
        } else {
            out.push(c);
            i = i + 1;
            assert(before + (seq![c] + replaced(s@.skip(i as int), old@, new@)) =~= out@
                + replaced(s@.skip(i as int), old@, new@));
        }
    }
    let ghost done = out@;
    assert(s@.skip(i as int).len() == 0);
    if p.len() == 0 {
        out.append(new);
    } else {
        assert(done + s@.skip(i as int) =~= done);
    }
    out
}

/// The number of occurrences of `old` that do not overlap.
pub fn count_matches(s: &str, old: &str) -> (r: u64)
    requires
        s@.len() < usize::MAX,
    ensures
        r == match_count(s@, old@),
{
    let v = chars_of(s);
    let p = chars_of(old);
    let total: usize = v.len();
    let mut n: u64 = 0;
    let mut i: usize = 0;
    assert(s@.skip(0) =~= s@);
    while i < v.len()
        invariant
            v@ == s@,
            p@ == old@,
            total == v@.len(),
            total < usize::MAX,
            i <= v@.len(),
            n <= i,
            match_count(s@, old@) == n + match_count(s@.skip(i as int), old@),
        decreases v@.len() - i,
    {
        let ghost rest = s@.skip(i as int);
        assert(rest.drop_first() =~= s@.skip(i + 1));
        if p.len() == 0 {
            n = n + 1;
            i = i + 1;
        } else if found_at(&v, &p, i) {
            n = n + 1;
            i = i + p.len();
            assert(rest.skip(old@.len() as int) =~= s@.skip(i as int));
        } else {
            i = i + 1;
        }
    }
    assert(s@.skip(i as int).len() == 0);
    if p.len() == 0 {
        n = n + 1;
    }
    n
}

/// `s` with `new` in place of the first occurrence of `old`.
pub fn replace_once(s: &str, old: &str, new: &str) -> (r: String)
    ensures
        r@ == replaced_once(s@, old@, new@),
{
    let v = chars_of(s);
    let p = chars_of(old);
    let mut i: usize = 0;
    assert(s@.skip(0) =~= s@);
    assert(s@.take(0) + replaced_once(s@, old@, new@) =~= replaced_once(s@, old@, new@));
    loop
        invariant
            v@ == s@,
            p@ == old@,
            i <= v@.len(),
            replaced_once(s@, old@, new@) == s@.take(i as int) + replaced_once(
                s@.skip(i as int),
                old@,
                new@,
            ),
        decreases v@.len() - i,
    {
        let ghost rest = s@.skip(i as int);
        if found_at(&v, &p, i) {
            let total: usize = v.len();
            let mut out = collect_chars(&v, 0, i);
            out.append(new);
            let tail = collect_chars(&v, i + p.len(), total);
            out.append(tail.as_str());
            proof {
                assert(v@.subrange(0, i as int) =~= s@.take(i as int));
                assert(tail@ =~= rest.skip(old@.len() as int));
                assert(out@ =~= s@.take(i as int) + (new@ + rest.skip(old@.len() as int)));
            }
            return out;
        }
        if i == v.len() {
            assert(s@.take(i as int) + rest =~= s@);
            return s.to_string();
        }
        assert(rest[0] == s@[i as int]);
        assert(rest.drop_first() =~= s@.skip(i + 1));
        assert(s@.take(i as int) + (seq![rest[0]] + replaced_once(s@.skip(i + 1), old@, new@))
            =~= s@.take(i + 1) + replaced_once(s@.skip(i + 1), old@, new@));
        i = i + 1;
    }
}

/// The words read so far with one more, unless there is nothing in it.
pub open spec fn with_word(words: Seq<Seq<char>>, word: Seq<char>) -> Seq<Seq<char>> {
    if word.len() == 0 {
        words
    } else {
        words.push(word)
    }
}

/// The words of a text up to its last white space, and what stands behind that.
pub open spec fn read_words(s: Seq<char>) -> (Seq<Seq<char>>, Seq<char>)
    decreases s.len(),
{
    if s.len() == 0 {
        (seq![], seq![])
    } else {
        let (words, word) = read_words(s.drop_last());
        if is_whitespace(s.last()) {
            (with_word(words, word), seq![])
        } else {
            (words, word.push(s.last()))
        }
    }
}

/// The words of a text: what its white space divides it into.
pub open spec fn words_of(s: Seq<char>) -> Seq<Seq<char>> {
    let (words, word) = read_words(s);
    with_word(words, word)
}

fn add_word(words: &mut Vec<String>, word: String)
    ensures
        views(final(words)@) == with_word(views(old(words)@), word@),
{
    if !word.as_str().is_empty() {
        words.push(word);
        assert(views(words@) =~= views(old(words)@).push(word@));
    }
}

/// The words of a text.
pub fn words(s: &str) -> (r: Vec<String>)
    ensures
        views(r@) == words_of(s@),
{
    let chars = chars_of(s);
    let mut out: Vec<String> = Vec::new();
    let mut word = String::new();
    assert(views(out@) =~= seq![]);
    for i in 0..chars.len()
        invariant
            chars@ == s@,
            (views(out@), word@) == read_words(s@.take(i as int)),
    {
        assert(s@.take(i + 1).drop_last() =~= s@.take(i as int));
        if is_space(chars[i]) {
            add_word(&mut out, word);
            word = String::new();
        } else {
            word.push(chars[i]);
        }
    }
    assert(s@.take(s@.len() as int) =~= s@);
    add_word(&mut out, word);
    out
}

/// Those of the lines that are not blank.
pub open spec fn not_blank(lines: Seq<Seq<char>>) -> Seq<Seq<char>>
    decreases lines.len(),
{
    if lines.len() == 0 {
        seq![]
    } else if is_blank(lines.last()) {
        not_blank(lines.drop_last())
    } else {
        not_blank(lines.drop_last()).push(lines.last())
    }
}

/// `line` can stand in a text as a line: it has no line feed in it, and no carriage return at
/// its end.
pub open spec fn is_line(line: Seq<char>) -> bool {
    &&& forall|i: int| 0 <= i < line.len() ==> #[trigger] line[i] != '\n'
    &&& line.len() > 0 ==> line.last() != '\r'
}

/// A text of complete lines, to which another can be added.
pub open spec fn is_complete(s: Seq<char>) -> bool {
    s.len() == 0 || s.last() == '\n'
}

proof fn lemma_line_before(line: Seq<char>, rest: Seq<char>)
    requires
        forall|i: int| 0 <= i < line.len() ==> #[trigger] line[i] != '\n',
        rest.len() > 0,
        rest[0] == '\n',
    ensures
        line_len(line + rest) == line.len(),
    decreases line.len(),
{
    if line.len() > 0 {
        let shorter = line.drop_first();
        assert forall|i: int| 0 <= i < shorter.len() implies #[trigger] shorter[i] != '\n' by {
            assert(shorter[i] == line[i + 1]);
        }
        lemma_line_before(shorter, rest);
        assert((line + rest).drop_first() =~= shorter + rest);
        assert((line + rest)[0] == line[0]);
    } else {
        assert(line + rest =~= rest);
    }
}

/// A line that is added to a text of complete lines is its last line, and those before it
/// stay as they are.
pub proof fn lemma_added_line(s: Seq<char>, line: Seq<char>)
    requires
        is_complete(s),
        is_line(line),
    ensures
        lines_of(s + line + "\n"@) == lines_of(s).push(line),
        is_complete(s + line + "\n"@),
    decreases s.len(),
{
    reveal_strlit("\n");
    let end = "\n"@;
    let whole = s + line + end;
    if s.len() == 0 {
        assert(whole =~= line + end);
        lemma_line_before(line, end);
        assert(whole.take(line.len() as int) =~= line);
        assert(whole.skip(line.len() as int + 1) =~= seq![]);
        assert(lines_of(whole.skip(line.len() as int + 1)) =~= seq![]);
        assert(lines_of(whole) =~= seq![line]);
    } else {
        lemma_line_len(s);
        let n = line_len(s) as int;
        let first = s.take(n);
        let rest = s.skip(n);
        assert(s =~= first + rest);
        assert(whole =~= first + (rest + line + end));
        assert forall|i: int| 0 <= i < first.len() implies #[trigger] first[i] != '\n' by {
            assert(first[i] == s[i]);
        }
        lemma_line_before(first, rest + line + end);
        let later = s.skip(n + 1);
        assert(later.len() > 0 ==> later.last() == s.last());
        lemma_added_line(later, line);
        assert(whole.take(n) =~= first);
        assert(whole.skip(n + 1) =~= later + line + end);
        assert(lines_of(whole) =~= lines_of(s).push(line));
    }
}

/// Takes out the lines from `from` on that are not blank.
pub fn filled_lines(lines: &Vec<String>, from: usize) -> (r: Vec<String>)
    requires
        from <= lines@.len(),
    ensures
        views(r@) == not_blank(views(lines@).skip(from as int)),
{
    let ghost all = views(lines@).skip(from as int);
    let mut out: Vec<String> = Vec::new();
    assert(views(out@) =~= not_blank(all.take(0)));
    for i in from..lines.len()
        invariant
            from <= lines@.len(),
            all == views(lines@).skip(from as int),
            views(out@) == not_blank(all.take(i - from)),
    {
        assert(all.take(i - from + 1).drop_last() =~= all.take(i - from));
        assert(all.take(i - from + 1).last() == lines@[i as int]@);
        if !is_blank_str(lines[i].as_str()) {
            let ghost before = views(out@);
            out.push(lines[i].clone());
            assert(views(out@) =~= before.push(lines@[i as int]@));
        }
    }
    assert(all.take(all.len() as int) =~= all);
    out
}

/// The lines, each with a line feed behind it.
pub open spec fn line_by_line(lines: Seq<Seq<char>>) -> Seq<char>
    decreases lines.len(),
{
    if lines.len() == 0 {
        seq![]
    } else {
        line_by_line(lines.drop_last()) + lines.last() + "\n"@
    }
}

/// The lines of a text.
pub fn lines(s: &str) -> (r: Vec<String>)
    ensures
        views(r@) == lines_of(s@),
{
    let v = chars_of(s);
    let n: usize = v.len();
    let mut out: Vec<String> = Vec::new();
    let mut start: usize = 0;
    assert(s@.skip(0) =~= s@);
    assert(views(out@) + lines_of(s@) =~= lines_of(s@));
    while start < n
        invariant
            v@ == s@,
            n == v@.len(),
            start <= n,
            lines_of(s@) == views(out@) + lines_of(s@.skip(start as int)),
        decreases n - start,
    {
        let ghost rest = s@.skip(start as int);
        let ghost before = views(out@);
        let mut end: usize = start;
        while end < n && v[end] != '\n'
            invariant
                v@ == s@,
                n == v@.len(),
                start <= end <= n,
                forall|k: int| start <= k < end ==> s@[k] != '\n',
            decreases n - end,
        {
            end = end + 1;
        }
        proof {
            lemma_line_len(rest);
            let len = line_len(rest) as int;
            if len < end - start {
                assert(rest[len] == s@[start + len]);
            } else if end - start < len {
                assert(rest[end - start] == s@[end as int]);
            }
            assert(len == end - start);
            assert(rest.take(len) =~= s@.subrange(start as int, end as int));
        }
        if end == n {
            let line = collect_chars(&v, start, end);
            assert(line@ =~= rest);
            out.push(line);
            assert(views(out@) =~= before.push(rest));
            assert(s@.skip(n as int) =~= seq![]);
            assert(before + seq![rest] =~= views(out@) + lines_of(s@.skip(n as int)));
            start = n;
        } else {
            let stop: usize = if end > start && v[end - 1] == '\r' {
                end - 1
            } else {
                end
            };
            let line = collect_chars(&v, start, stop);
            assert(line@ =~= without_return(rest.take(end - start)));
            out.push(line);
            assert(views(out@) =~= before.push(line@));
            assert(rest.skip(end - start + 1) =~= s@.skip(end + 1));
            assert(before + (seq![line@] + lines_of(s@.skip(end + 1))) =~= views(out@) + lines_of(
                s@.skip(end + 1),
            ));
            start = end + 1;
        }
    }
    assert(s@.skip(start as int) =~= seq![]);
    assert(views(out@) + Seq::<Seq<char>>::empty() =~= views(out@));
    out
}

/// The parts in order, with `sep` between each two neighbours.
pub fn join(parts: &Vec<String>, sep: &str) -> (r: String)
    ensures
        r@ == joined(views(parts@), sep@),
{
    let mut out = String::new();
    let ghost all = views(parts@);
    assert(out@ =~= joined(all.take(0), sep@));
    for i in 0..parts.len()
        invariant
            all == views(parts@),
            out@ == joined(all.take(i as int), sep@),
    {
        if i > 0 {
            out.append(sep);
        }
        out.append(parts[i].as_str());
        proof {
            let t = all.take(i + 1);
            assert(t.drop_last() =~= all.take(i as int));
            assert(t.last() == parts@[i as int]@);
            if i == 0 {
                assert(out@ =~= t[0]);
            }
        }
    }
    assert(all.take(all.len() as int) =~= all);
    out
}

/// The list of two texts.
pub fn strings2(a: &str, b: &str) -> (r: Vec<String>)
    ensures
        views(r@) == seq![a@, b@],
{
    let mut out: Vec<String> = Vec::new();
    out.push(a.to_string());
    out.push(b.to_string());
    assert(views(out@) =~= seq![a@, b@]);
    out
}

/// The list of three texts.
pub fn strings3(a: &str, b: &str, c: &str) -> (r: Vec<String>)
    ensures
        views(r@) == seq![a@, b@, c@],
{
    let mut out = strings2(a, b);
    let ghost before = out@;
    out.push(c.to_string());
    assert(views(out@) =~= views(before).push(c@));
    assert(views(out@) =~= seq![a@, b@, c@]);
    out
}

/// `a` followed by `b`.
pub fn concat2(a: &str, b: &str) -> (r: String)
    ensures
        r@ == a@ + b@,
{
    let mut out = a.to_owned();
    out.append(b);
    out
}

/// `a`, `b` and `c` in a row.
pub fn concat3(a: &str, b: &str, c: &str) -> (r: String)
    ensures
        r@ == a@ + b@ + c@,
{
    let mut out = a.to_owned();
    out.append(b);
    out.append(c);
    out
}

// ---------------------------------------------------------------------------
// Laws of texts
// ---------------------------------------------------------------------------

/// The number that digits stand for.
pub open spec fn number_of(digits: Seq<char>) -> int
    decreases digits.len(),
{
    if digits.len() == 0 {
        0
    } else {
        10 * number_of(digits.drop_last()) + (digits.last() as int - '0' as int)
    }
}

/// The digits of a number stand for the number, and none too many are written.
pub proof fn law_digits_stand_for_the_number(n: nat)
    ensures
        number_of(decimal(n)) == n,
        decimal(n).len() > 0,
        decimal(n).len() > 1 ==> decimal(n)[0] != '0',
        forall|i: int| 0 <= i < decimal(n).len() ==> '0' <= #[trigger] decimal(n)[i] <= '9',
    decreases n,
{
    lemma_decimal_first(n);
    lemma_decimal_digits(n);
    if n >= 10 {
        law_digits_stand_for_the_number(n / 10);
        assert(decimal(n).drop_last() =~= decimal(n / 10));
    } else {
        assert(decimal(n).drop_last() =~= seq![]);
        assert(number_of(decimal(n).drop_last()) == 0);
    }
}

/// Joined texts stand one after the other in their order, with the separator between each two
/// and nowhere else.
pub proof fn law_joined_texts_stand_in_a_row(
    a: Seq<Seq<char>>,
    b: Seq<Seq<char>>,
    sep: Seq<char>,
    part: Seq<char>,
)
    requires
        a.len() > 0,
        b.len() > 0,
    ensures
        joined(a + b, sep) == joined(a, sep) + sep + joined(b, sep),
        joined(seq![part], sep) == part,
        joined(Seq::<Seq<char>>::empty(), sep).len() == 0,
    decreases b.len(),
{
    if b.len() == 1 {
        assert((a + b).drop_last() =~= a);
        assert((a + b).last() == b[0]);
    } else {
        law_joined_texts_stand_in_a_row(a, b.drop_last(), sep, part);
        assert((a + b).drop_last() =~= a + b.drop_last());
        assert((a + b).last() == b.last());
        assert(joined(a + b, sep) =~= joined(a, sep) + sep + joined(b, sep));
    }
}

/// A text is replaced at the first place where it stands, and nothing before or behind that
/// place changes; to replace it everywhere is to go on behind that place. Where it does not
/// stand, nothing changes.
pub proof fn law_a_text_is_replaced_where_it_stands(
    s: Seq<char>,
    old: Seq<char>,
    new: Seq<char>,
    i: int,
)
    requires
        old.len() > 0,
    ensures
        first_at(s, old, i) ==> {
            &&& replaced_once(s, old, new) == s.take(i) + new + s.skip(i + old.len())
            &&& replaced(s, old, new) == s.take(i) + new + replaced(
                s.skip(i + old.len()),
                old,
                new,
            )
            &&& match_count(s, old) == 1 + match_count(s.skip(i + old.len()), old)
        },
        !contains(s, old) ==> {
            &&& replaced(s, old, new) == s
            &&& replaced_once(s, old, new) == s
            &&& match_count(s, old) == 0
        },
    decreases s.len(),
{
    if first_at(s, old, i) {
        if i == 0 {
            assert(s.take(0) =~= seq![]);
            assert(s.take(0) + new =~= new);
        } else {
            let t = s.drop_first();
            assert(!occurs_at(s, old, 0));
            assert(t.subrange(i - 1, i - 1 + old.len()) =~= s.subrange(i, i + old.len()));
            assert forall|j: int| 0 <= j < i - 1 implies !occurs_at(t, old, j) by {
                if occurs_at(t, old, j) {
                    assert(s.subrange(j + 1, j + 1 + old.len()) =~= t.subrange(j, j + old.len()));
                    assert(occurs_at(s, old, j + 1));
                }
            }
            assert(first_at(t, old, i - 1));
            law_a_text_is_replaced_where_it_stands(t, old, new, i - 1);
            assert(t.skip(i - 1 + old.len()) =~= s.skip(i + old.len()));
            assert(s.take(i) =~= seq![s[0]] + t.take(i - 1));
            assert(seq![s[0]] + (t.take(i - 1) + new + s.skip(i + old.len())) =~= s.take(i) + new
                + s.skip(i + old.len()));
            let rest = replaced(s.skip(i + old.len()), old, new);
            assert(seq![s[0]] + (t.take(i - 1) + new + rest) =~= s.take(i) + new + rest);
        }
    }
    if !contains(s, old) {
        if s.len() > 0 {
            let t = s.drop_first();
            assert(!occurs_at(s, old, 0));
            if contains(t, old) {
                let j = choose|j: int| occurs_at(t, old, j);
                assert(s.subrange(j + 1, j + 1 + old.len()) =~= t.subrange(j, j + old.len()));
                assert(occurs_at(s, old, j + 1));
            }
            law_a_text_is_replaced_where_it_stands(t, old, new, i);
            assert(seq![s[0]] + t =~= s);
        } else {
            assert(!occurs_at(s, old, 0));
        }
    }
}

/// Two texts with white space between them have the words of both, and a text without any is
/// one word.
pub proof fn law_words_stand_between_white_space(a: Seq<char>, c: char, b: Seq<char>)
    requires
        is_whitespace(c),
    ensures
        words_of(a.push(c) + b) == words_of(a) + words_of(b),
        a.len() > 0 && (forall|i: int| 0 <= i < a.len() ==> !is_whitespace(#[trigger] a[i]))
            ==> words_of(a) == seq![a],
        words_of(Seq::<char>::empty()).len() == 0,
{
    lemma_read_words(a, c, b);
    let (words, word) = read_words(a.push(c) + b);
    let (own, last) = read_words(b);
    assert(words == words_of(a) + own);
    assert(words_of(a.push(c) + b) =~= words_of(a) + words_of(b));
    if forall|i: int| 0 <= i < a.len() ==> !is_whitespace(#[trigger] a[i]) {
        lemma_one_word(a);
        if a.len() > 0 {
            assert(words_of(a) =~= seq![a]);
        }
    }
}

proof fn lemma_read_words(a: Seq<char>, c: char, b: Seq<char>)
    requires
        is_whitespace(c),
    ensures
        read_words(a.push(c) + b) == (words_of(a) + read_words(b).0, read_words(b).1),
    decreases b.len(),
{
    let s = a.push(c) + b;
    if b.len() == 0 {
        assert(s =~= a.push(c));
        assert(a.push(c).drop_last() =~= a);
        assert(words_of(a) + read_words(b).0 =~= words_of(a));
    } else {
        let t = b.drop_last();
        lemma_read_words(a, c, t);
        assert(s.drop_last() =~= a.push(c) + t);
        assert(s.last() == b.last());
        assert(with_word(words_of(a) + read_words(t).0, read_words(t).1) =~= words_of(a)
            + with_word(read_words(t).0, read_words(t).1));
    }
}

proof fn lemma_one_word(a: Seq<char>)
    requires
        forall|i: int| 0 <= i < a.len() ==> !is_whitespace(#[trigger] a[i]),
    ensures
        read_words(a) == (Seq::<Seq<char>>::empty(), a),
    decreases a.len(),
{
    if a.len() > 0 {
        let t = a.drop_last();
        assert forall|i: int| 0 <= i < t.len() implies !is_whitespace(#[trigger] t[i]) by {
            assert(t[i] == a[i]);
        }
        lemma_one_word(t);
        assert(!is_whitespace(a[a.len() - 1]));
        assert(t.push(a.last()) =~= a);
    } else {
        assert(read_words(a).1 =~= a);
    }
}

/// A line feed ends a line: before it stands the first line, without a carriage return at its
/// end, and behind it the others, as they are.
pub proof fn law_a_line_feed_ends_a_line(line: Seq<char>, rest: Seq<char>)
    requires
        forall|i: int| 0 <= i < line.len() ==> #[trigger] line[i] != '\n',
    ensures
        line.len() == 0 || line.last() != '\r' ==> lines_of(line.push('\n') + rest) == seq![line]
            + lines_of(rest),
        lines_of(line.push('\r').push('\n') + rest) == seq![line] + lines_of(rest),
        line.len() > 0 ==> lines_of(line) == seq![line],
        lines_of(Seq::<char>::empty()).len() == 0,
{
    let feed = seq!['\n'] + rest;
    let s = line.push('\n') + rest;
    assert(s =~= line + feed);
    lemma_line_before(line, feed);
    assert(s.take(line.len() as int) =~= line);
    assert(s.skip(line.len() as int + 1) =~= rest);
    let back = line.push('\r');
    assert forall|i: int| 0 <= i < back.len() implies #[trigger] back[i] != '\n' by {
        if i < line.len() {
            assert(back[i] == line[i]);
        }
    }
    let t = back.push('\n') + rest;
    assert(t =~= back + feed);
    lemma_line_before(back, feed);
    assert(t.take(back.len() as int) =~= back);
    assert(back.drop_last() =~= line);
    assert(t.skip(back.len() as int + 1) =~= rest);
    lemma_line_len(line);
    if line.len() > 0 && line_len(line) < line.len() {
        assert(line[line_len(line) as int] != '\n');
    }
}

/// What stands in a part stands in the whole.
pub proof fn lemma_contains_within(a: Seq<char>, b: Seq<char>, c: Seq<char>, p: Seq<char>)
    requires
        contains(b, p),
    ensures
        contains(a + b + c, p),
{
    let i = choose|i: int| occurs_at(b, p, i);
    let s = a + b + c;
    let j = a.len() + i;
    assert(s.subrange(j, j + p.len()) =~= b.subrange(i, i + p.len()));
    assert(occurs_at(s, p, j));
}

pub proof fn lemma_contains_self(p: Seq<char>)
    ensures
        contains(p, p),
{
    assert(p.subrange(0, p.len() as int) =~= p);
    assert(occurs_at(p, p, 0));
}

/// Each of the joined texts stands in the whole.
pub proof fn law_joined_texts_are_all_there(parts: Seq<Seq<char>>, sep: Seq<char>, i: int)
    requires
        0 <= i < parts.len(),
    ensures
        contains(joined(parts, sep), parts[i]),
    decreases parts.len(),
{
    let none = Seq::<char>::empty();
    lemma_contains_self(parts[i]);
    if parts.len() == 1 {
        assert(joined(parts, sep) =~= parts[0]);
    } else if i == parts.len() - 1 {
        let head = joined(parts.drop_last(), sep) + sep;
        lemma_contains_within(head, parts[i], none, parts[i]);
        assert(head + parts[i] + none =~= joined(parts, sep));
    } else {
        law_joined_texts_are_all_there(parts.drop_last(), sep, i);
        let rest = sep + parts.last();
        lemma_contains_within(none, joined(parts.drop_last(), sep), rest, parts[i]);
        assert(none + joined(parts.drop_last(), sep) + rest =~= joined(parts, sep));
    }
}

/// The first difference decides the order of two texts, and a text comes before its extensions.
pub proof fn law_the_first_difference_decides(
    p: Seq<char>,
    a: char,
    b: char,
    x: Seq<char>,
    y: Seq<char>,
)
    ensures
        a != b ==> (precedes(p + seq![a] + x, p + seq![b] + y) <==> a < b),
        precedes(p, p + seq![a] + x),
        !precedes(p + seq![a] + x, p),
    decreases p.len(),
{
    let s = p + seq![a] + x;
    let t = p + seq![b] + y;
    if p.len() == 0 {
        assert(s[0] == a && t[0] == b);
    } else {
        law_the_first_difference_decides(p.drop_first(), a, b, x, y);
        assert(s[0] == p[0] && t[0] == p[0]);
        assert(s.drop_first() =~= p.drop_first() + seq![a] + x);
        assert(t.drop_first() =~= p.drop_first() + seq![b] + y);
    }
}

/// What fits is the longest beginning that does: it is no longer than allowed, and one
/// character more would be.
pub proof fn law_as_much_as_fits_is_kept(s: Seq<char>, n: nat)
    ensures
        fitting(s, n).is_prefix_of(s),
        byte_len(fitting(s, n)) <= n,
        fitting(s, n).len() < s.len() ==> byte_len(s.take(fitting(s, n).len() as int + 1)) > n,
    decreases s.len(),
{
    lemma_byte_len_bounds(s);
    if s.len() == 0 || byte_len(s) <= n {
        assert(s.subrange(0, s.len() as int) =~= s);
    } else {
        let t = s.drop_last();
        law_as_much_as_fits_is_kept(t, n);
        let f = fitting(t, n);
        assert(fitting(s, n) == f);
        assert(t.take(f.len() as int) =~= f);
        assert(s.subrange(0, f.len() as int) =~= f);
        if f.len() < t.len() {
            assert(s.take(f.len() as int + 1) =~= t.take(f.len() as int + 1));
        } else {
            assert(s.take(f.len() as int + 1) =~= s);
        }
    }
}

/// What stands between two texts can be read back.
pub proof fn lemma_framed(head: Seq<char>, a: Seq<char>, b: Seq<char>, end: Seq<char>)
    requires
        head + a + end == head + b + end,
    ensures
        a == b,
{
    let x = head + a + end;
    let y = head + b + end;
    assert(x.len() == y.len());
    assert(a.len() == b.len());
    assert forall|i: int| 0 <= i < a.len() implies a[i] == b[i] by {
        assert(x[head.len() + i] == a[i]);
        assert(y[head.len() + i] == b[i]);
    }
    assert(a =~= b);
}

/// A number below zero is written with a sign in front of its digits, and no other is.
pub proof fn law_signs_stand_before_the_digits(n: nat)
    ensures
        signed_decimal(n as int) == decimal(n),
        n > 0 ==> signed_decimal(-(n as int)) == seq!['-'] + decimal(n),
        number_of(signed_decimal(n as int)) == n,
{
    reveal_strlit("-");
    assert("-"@ =~= seq!['-']);
    law_digits_stand_for_the_number(n);
}

} // verus!
