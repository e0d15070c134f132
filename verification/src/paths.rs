//! Paths as text. Both separators of Windows are understood; the one that is
//! written is `/`.
use vstd::prelude::*;

use crate::text;

verus! {

/// `dir` ends with a separator.
pub open spec fn ends_with_separator(dir: Seq<char>) -> bool {
    dir.len() > 0 && (dir.last() == '/' || dir.last() == '\\')
}

pub open spec fn is_separator(c: char) -> bool {
    c == '/' || c == '\\'
}

/// `path` begins with the letter of a drive.
pub open spec fn has_drive(path: Seq<char>) -> bool {
    path.len() >= 2 && path[1] == ':' && ('a' <= path[0] <= 'z' || 'A' <= path[0] <= 'Z')
}

/// `path` begins with a separator.
pub open spec fn is_rooted(path: Seq<char>) -> bool {
    path.len() > 0 && is_separator(path[0])
}

/// `path` begins with two separators, as that of another machine does.
pub open spec fn is_remote(path: Seq<char>) -> bool {
    path.len() > 1 && is_separator(path[0]) && is_separator(path[1])
}

/// The path of `name` below `dir`. A name that is absolute takes the place of the directory;
/// one that begins with a separator stays on the directory's drive.
pub open spec fn joined_path(dir: Seq<char>, name: Seq<char>) -> Seq<char> {
    if has_drive(name) || is_remote(name) {
        name
    } else if is_rooted(name) {
        if has_drive(dir) {
            dir.take(2) + name
        } else {
            name
        }
    } else if dir.len() == 0 {
        name
    } else if ends_with_separator(dir) || (has_drive(dir) && dir.len() == 2) {
        dir + name
    } else {
        dir + "/"@ + name
    }
}

fn separates(c: char) -> (r: bool)
    ensures
        r == is_separator(c),
{
    c == '/' || c == '\\'
}

fn drive_of(path: &Vec<char>) -> (r: bool)
    ensures
        r == has_drive(path@),
{
    path.len() >= 2 && path[1] == ':' && (('a' <= path[0] && path[0] <= 'z') || ('A' <= path[0]
        && path[0] <= 'Z'))
}

pub fn join(dir: &str, name: &str) -> (r: String)
    ensures
        r@ == joined_path(dir@, name@),
{
    let d = text::chars_of(dir);
    let n = text::chars_of(name);
    if drive_of(&n) || (n.len() > 1 && separates(n[0]) && separates(n[1])) {
        return name.to_string();
    }
    if n.len() > 0 && separates(n[0]) {
        if drive_of(&d) {
            let drive = text::collect_chars(&d, 0, 2);
            assert(drive@ =~= dir@.take(2));
            return text::concat2(drive.as_str(), name);
        }
        return name.to_string();
    }
    if d.len() == 0 {
        return name.to_string();
    }
    if separates(d[d.len() - 1]) || (drive_of(&d) && d.len() == 2) {
        text::concat2(dir, name)
    } else {
        text::concat3(dir, "/", name)
    }
}

// ---------------------------------------------------------------------------
// The order of paths
// ---------------------------------------------------------------------------

/// The parts read so far with one more: nothing between two separators is no part, nor is a
/// dot but at the start.
pub open spec fn with_part(parts: Seq<Seq<char>>, part: Seq<char>) -> Seq<Seq<char>> {
    if part.len() == 0 || (part == "."@ && parts.len() > 0) {
        parts
    } else {
        parts.push(part)
    }
}

/// The parts of a path up to its last separator, and what stands behind that. A separator at
/// the start is an empty part of its own.
pub open spec fn read_parts(path: Seq<char>) -> (Seq<Seq<char>>, Seq<char>)
    decreases path.len(),
{
    if path.len() == 0 {
        (seq![], seq![])
    } else {
        let (parts, part) = read_parts(path.drop_last());
        if !is_separator(path.last()) {
            (parts, part.push(path.last()))
        } else if path.len() == 1 {
            (seq![seq![]], seq![])
        } else {
            (with_part(parts, part), seq![])
        }
    }
}

/// The parts of a path, as its separators divide it.
pub open spec fn path_parts(path: Seq<char>) -> Seq<Seq<char>> {
    let (parts, part) = read_parts(path);
    with_part(parts, part)
}

/// The root comes before the directory itself, that before the one above, and that before
/// the names.
pub open spec fn part_rank(part: Seq<char>) -> int {
    if part.len() == 0 {
        0
    } else if part == "."@ {
        1
    } else if part == ".."@ {
        2
    } else {
        3
    }
}

pub open spec fn part_precedes(a: Seq<char>, b: Seq<char>) -> bool {
    if part_rank(a) != part_rank(b) {
        part_rank(a) < part_rank(b)
    } else {
        text::precedes(a, b)
    }
}

/// The first part that differs decides, and a list of parts comes before its extensions.
pub open spec fn parts_precede(a: Seq<Seq<char>>, b: Seq<Seq<char>>) -> bool
    decreases a.len(),
{
    if b.len() == 0 {
        false
    } else if a.len() == 0 {
        true
    } else if a[0] != b[0] {
        part_precedes(a[0], b[0])
    } else {
        parts_precede(a.drop_first(), b.drop_first())
    }
}

/// `a` comes before `b` in the order of paths, part by part.
pub open spec fn path_precedes(a: Seq<char>, b: Seq<char>) -> bool {
    parts_precede(path_parts(a), path_parts(b))
}

/// The order of the parts of paths is strict and total.
pub proof fn lemma_parts_total(a: Seq<Seq<char>>, b: Seq<Seq<char>>)
    ensures
        !parts_precede(a, a),
        a != b ==> parts_precede(a, b) || parts_precede(b, a),
        !(parts_precede(a, b) && parts_precede(b, a)),
    decreases a.len(),
{
    if a.len() > 0 {
        lemma_parts_total(a.drop_first(), a.drop_first());
        if b.len() > 0 {
            text::lemma_precedes_total(a[0], b[0]);
            lemma_parts_total(a.drop_first(), b.drop_first());
            if a != b && a[0] == b[0] {
                if a.drop_first() == b.drop_first() {
                    assert(a =~= seq![a[0]] + a.drop_first());
                    assert(b =~= seq![b[0]] + b.drop_first());
                }
            }
        }
    } else if b.len() == 0 {
        assert(a =~= b);
    }
}

/// The order of the parts of paths is transitive.
pub proof fn lemma_parts_transitive(
    a: Seq<Seq<char>>,
    b: Seq<Seq<char>>,
    c: Seq<Seq<char>>,
)
    requires
        parts_precede(a, b),
        parts_precede(b, c),
    ensures
        parts_precede(a, c),
    decreases a.len(),
{
    if a.len() > 0 {
        if a[0] == b[0] && b[0] == c[0] {
            lemma_parts_transitive(a.drop_first(), b.drop_first(), c.drop_first());
        } else if a[0] != b[0] && b[0] != c[0] {
            text::lemma_precedes_total(a[0], b[0]);
            if text::precedes(a[0], b[0]) && text::precedes(b[0], c[0]) {
                text::lemma_precedes_transitive(a[0], b[0], c[0]);
            }
            text::lemma_precedes_total(a[0], c[0]);
        }
    }
}

fn add_part(parts: &mut Vec<String>, part: String)
    ensures
        text::views(final(parts)@) == with_part(text::views(old(parts)@), part@),
{
    let ghost before = text::views(parts@);
    if part.as_str().is_empty() || (parts.len() > 0 && text::str_eq(part.as_str(), ".")) {
        return;
    }
    parts.push(part);
    assert(text::views(parts@) =~= before.push(part@));
}

fn parts_of(path: &str) -> (r: Vec<String>)
    ensures
        text::views(r@) == path_parts(path@),
{
    let chars = text::chars_of(path);
    let mut parts: Vec<String> = Vec::new();
    let mut part = String::new();
    assert(text::views(parts@) =~= seq![]);
    for i in 0..chars.len()
        invariant
            chars@ == path@,
            (text::views(parts@), part@) == read_parts(path@.take(i as int)),
    {
        assert(path@.take(i + 1).drop_last() =~= path@.take(i as int));
        if !separates(chars[i]) {
            part.push(chars[i]);
        } else if i == 0 {
            parts.push(String::new());
            part = String::new();
            assert(text::views(parts@) =~= seq![seq![]]);
        } else {
            add_part(&mut parts, part);
            part = String::new();
        }
    }
    assert(path@.take(path@.len() as int) =~= path@);
    add_part(&mut parts, part);
    parts
}

fn rank_of(part: &str) -> (r: u8)
    ensures
        r == part_rank(part@),
{
    if part.is_empty() {
        0
    } else if text::str_eq(part, ".") {
        1
    } else if text::str_eq(part, "..") {
        2
    } else {
        3
    }
}

/// Whether `a` comes before `b` in the order of paths.
pub fn precedes(a: &str, b: &str) -> (r: bool)
    ensures
        r == path_precedes(a@, b@),
{
    let x = parts_of(a);
    let y = parts_of(b);
    let ghost p = text::views(x@);
    let ghost q = text::views(y@);
    let mut i: usize = 0;
    assert(p.skip(0) =~= p);
    assert(q.skip(0) =~= q);
    while i < x.len() && i < y.len()
        invariant
            p == text::views(x@),
            q == text::views(y@),
            p == path_parts(a@),
            q == path_parts(b@),
            i <= x@.len(),
            i <= y@.len(),
            parts_precede(p, q) == parts_precede(p.skip(i as int), q.skip(i as int)),
        decreases x@.len() - i,
    {
        assert(p.skip(i as int)[0] == x@[i as int]@);
        assert(q.skip(i as int)[0] == y@[i as int]@);
        let s = x[i].as_str();
        let t = y[i].as_str();
        if !text::str_eq(s, t) {
            let in_x: u8 = rank_of(s);
            let in_y: u8 = rank_of(t);
            return if in_x != in_y {
                in_x < in_y
            } else {
                text::str_precedes(s, t)
            };
        }
        assert(p.skip(i as int).drop_first() =~= p.skip(i + 1));
        assert(q.skip(i as int).drop_first() =~= q.skip(i + 1));
        i += 1;
    }
    i < y.len()
}

/// A name below a directory is found behind it, with one separator between them; a name with a
/// drive or of another machine stands for itself.
pub proof fn law_a_name_lies_below_its_directory(dir: Seq<char>, name: Seq<char>)
    ensures
        name.is_suffix_of(joined_path(dir, name)),
        has_drive(name) || is_remote(name) ==> joined_path(dir, name) == name,
        is_rooted(name) && !is_remote(name) && has_drive(dir) ==> joined_path(dir, name)
            == dir.take(2) + name,
        !has_drive(name) && !is_rooted(name) ==> dir.is_prefix_of(joined_path(dir, name)),
        !has_drive(name) && !is_rooted(name) && dir.len() > 0 && !is_separator(dir.last()) && !(
        has_drive(dir) && dir.len() == 2) ==> joined_path(dir, name) == dir + seq!['/'] + name,
        !has_drive(name) && !is_rooted(name) && dir.len() > 0 && is_separator(dir.last())
            ==> joined_path(dir, name) == dir + name,
{
    reveal_strlit("/");
    assert("/"@ =~= seq!['/']);
    let path = joined_path(dir, name);
    assert(path.skip(path.len() - name.len()) =~= name);
    assert(name.is_suffix_of(path)) by {
        assert(path.subrange(path.len() - name.len(), path.len() as int) =~= name);
    }
    if !has_drive(name) && !is_rooted(name) {
        assert(path.subrange(0, dir.len() as int) =~= dir);
    }
}

proof fn lemma_read_part(path: Seq<char>, part: Seq<char>)
    requires
        path.len() > 0,
        is_separator(path.last()),
        forall|i: int| 0 <= i < part.len() ==> !is_separator(#[trigger] part[i]),
    ensures
        read_parts(path + part) == (read_parts(path).0, part),
        read_parts(path).1.len() == 0,
    decreases part.len(),
{
    if part.len() == 0 {
        assert(path + part =~= path);
        assert(read_parts(path).1 =~= part);
    } else {
        lemma_read_part(path, part.drop_last());
        assert((path + part).drop_last() =~= path + part.drop_last());
        assert(part.drop_last().push(part.last()) =~= part);
    }
}

/// A separator divides a path: the part behind it comes after the parts before it. Either
/// separator does, and so do several in a row.
pub proof fn law_separators_divide_a_path(path: Seq<char>, separator: char, part: Seq<char>)
    requires
        path.len() > 0,
        is_separator(separator),
        part.len() > 0,
        part != "."@,
        forall|i: int| 0 <= i < part.len() ==> !is_separator(#[trigger] part[i]),
    ensures
        path_parts(path.push(separator) + part) == path_parts(path).push(part),
        path_parts(path.push(separator)) == path_parts(path),
{
    let dir = path.push(separator);
    lemma_read_part(dir, part);
    assert(dir.drop_last() =~= path);
    let none = Seq::<char>::empty();
    assert(read_parts(dir).1 =~= none);
    assert(read_parts(dir).0 == path_parts(path));
}

/// Paths are ordered by their first parts that differ, and a directory comes before what lies
/// below it.
pub proof fn law_a_directory_comes_before_what_lies_below(
    dir: Seq<Seq<char>>,
    below: Seq<Seq<char>>,
    other: Seq<Seq<char>>,
)
    requires
        below.len() > 0,
    ensures
        parts_precede(dir, dir + below),
        !parts_precede(dir + below, dir),
        parts_precede(dir + below, dir + other) == parts_precede(below, other),
    decreases dir.len(),
{
    if dir.len() == 0 {
        assert(dir + below =~= below);
        assert(dir + other =~= other);
    } else {
        law_a_directory_comes_before_what_lies_below(dir.drop_first(), below, other);
        assert((dir + below).drop_first() =~= dir.drop_first() + below);
        assert((dir + other).drop_first() =~= dir.drop_first() + other);
    }
}

} // verus!
