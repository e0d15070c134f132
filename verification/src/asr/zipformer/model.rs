//! The files of the streaming model. Which names they have depends on the release; they are
//! found by what their names contain.
use vstd::prelude::*;

use crate::{paths, text};

verus! {

/// The file of the tokens.
pub const TOKENS_FILE: &'static str = "tokens.txt";

/// A file of this name is the part of the model that `keyword` names.
pub open spec fn names_part(name: Seq<char>, keyword: Seq<char>) -> bool {
    text::contains(text::lowercase(name), keyword) && ".onnx"@.is_suffix_of(text::lowercase(name))
}

/// The first of the names that names the part `keyword` of the model.
pub open spec fn first_part(names: Seq<Seq<char>>, keyword: Seq<char>) -> Option<Seq<char>>
    decreases names.len(),
{
    if names.len() == 0 {
        None
    } else if names_part(names[0], keyword) {
        Some(names[0])
    } else {
        first_part(names.drop_first(), keyword)
    }
}

/// The part `keyword` of the model in `dir`, which holds files of these names.
pub open spec fn part_path(dir: Seq<char>, names: Seq<Seq<char>>, keyword: Seq<char>) -> Option<
    Seq<char>,
> {
    match first_part(names, keyword) {
        Some(name) => Some(paths::joined_path(dir, name)),
        None => None,
    }
}

/// Whether the lower-case form of a name is that of the part `keyword`.
pub fn is_part(lowercase_name: &str, keyword: &str) -> (r: bool)
    ensures
        r == (text::contains(lowercase_name@, keyword@) && ".onnx"@.is_suffix_of(
            lowercase_name@,
        )),
{
    text::contains_str(lowercase_name, keyword) && text::ends_with(lowercase_name, ".onnx")
}

fn find_onnx(dir: &str, names: &Vec<String>, keyword: &str) -> (r: Option<String>)
    ensures
        crate::text::opt_text(r) == part_path(dir@, text::views(names@), keyword@),
{
    let ghost all = text::views(names@);
    assert(all.skip(0) =~= all);
    for i in 0..names.len()
        invariant
            all == text::views(names@),
            first_part(all, keyword@) == first_part(all.skip(i as int), keyword@),
    {
        assert(all.skip(i as int)[0] == names@[i as int]@);
        assert(all.skip(i as int).drop_first() =~= all.skip(i + 1));
        let lower = text::to_lowercase(names[i].as_str());
        if is_part(lower.as_str(), keyword) {
            return Some(paths::join(dir, names[i].as_str()));
        }
    }
    None
}

pub fn encoder_file(dir: &str, names: &Vec<String>) -> (r: Option<String>)
    ensures
        crate::text::opt_text(r) == part_path(dir@, text::views(names@), "encoder"@),
{
    find_onnx(dir, names, "encoder")
}

pub fn decoder_file(dir: &str, names: &Vec<String>) -> (r: Option<String>)
    ensures
        crate::text::opt_text(r) == part_path(dir@, text::views(names@), "decoder"@),
{
    find_onnx(dir, names, "decoder")
}

pub fn joiner_file(dir: &str, names: &Vec<String>) -> (r: Option<String>)
    ensures
        crate::text::opt_text(r) == part_path(dir@, text::views(names@), "joiner"@),
{
    find_onnx(dir, names, "joiner")
}

pub fn tokens_file(dir: &str) -> (r: String)
    ensures
        r@ == paths::joined_path(dir@, "tokens.txt"@),
{
    paths::join(dir, TOKENS_FILE)
}

/// What is missing in a directory with files of these names; `has_tokens` says whether the
/// file of the tokens is one of them.
pub open spec fn missing_from(names: Seq<Seq<char>>, has_tokens: bool) -> Seq<Seq<char>> {
    lacking(first_part(names, "encoder"@) is None, "encoder*.onnx"@) + lacking(
        first_part(names, "decoder"@) is None,
        "decoder*.onnx"@,
    ) + lacking(first_part(names, "joiner"@) is None, "joiner*.onnx"@) + lacking(
        !has_tokens,
        "tokens.txt"@,
    )
}

pub open spec fn lacking(absent: bool, name: Seq<char>) -> Seq<Seq<char>> {
    if absent {
        seq![name]
    } else {
        seq![]
    }
}

/// Whether all four files of the model are there.
pub fn is_present(names: &Vec<String>, has_tokens: bool) -> (r: bool)
    ensures
        r <==> missing_from(text::views(names@), has_tokens).len() == 0,
{
    encoder_file("", names).is_some() && decoder_file("", names).is_some() && joiner_file(
        "",
        names,
    ).is_some() && has_tokens
}

fn add_lacking(out: &mut Vec<String>, absent: bool, name: &str)
    ensures
        text::views(final(out)@) == text::views(old(out)@) + lacking(absent, name@),
{
    let ghost before = text::views(out@);
    if absent {
        out.push(name.to_string());
    }
    assert(text::views(out@) =~= before + lacking(absent, name@));
}

/// The files of the model that are missing.
pub fn missing_files(names: &Vec<String>, has_tokens: bool) -> (r: Vec<String>)
    ensures
        text::views(r@) == missing_from(text::views(names@), has_tokens),
{
    let mut missing: Vec<String> = Vec::new();
    add_lacking(&mut missing, encoder_file("", names).is_none(), "encoder*.onnx");
    add_lacking(&mut missing, decoder_file("", names).is_none(), "decoder*.onnx");
    add_lacking(&mut missing, joiner_file("", names).is_none(), "joiner*.onnx");
    add_lacking(&mut missing, !has_tokens, "tokens.txt");
    assert(text::views(missing@) =~= missing_from(text::views(names@), has_tokens));
    missing
}

/// The model is present exactly where nothing is missing.
pub proof fn law_present_means_nothing_missing(names: Seq<Seq<char>>, has_tokens: bool)
    ensures
        missing_from(names, has_tokens).len() == 0 <==> (first_part(names, "encoder"@) is Some
            && first_part(names, "decoder"@) is Some && first_part(names, "joiner"@) is Some
            && has_tokens),
{
}

/// A part of the model is the first file that is named after it, and it is missing only where
/// no file is.
pub proof fn law_parts_are_found_by_their_names(names: Seq<Seq<char>>, keyword: Seq<char>, i: int)
    ensures
        first_part(names, keyword) matches Some(name) ==> names.contains(name) && names_part(
            name,
            keyword,
        ),
        0 <= i < names.len() && names_part(names[i], keyword) ==> first_part(names, keyword) is Some,
        0 <= i < names.len() && names_part(names[i], keyword) && (forall|k: int|
            0 <= k < i ==> !names_part(#[trigger] names[k], keyword)) ==> first_part(
            names,
            keyword,
        ) == Some(names[i]),
    decreases names.len(),
{
    if names.len() > 0 {
        let rest = names.drop_first();
        law_parts_are_found_by_their_names(rest, keyword, i - 1);
        if !names_part(names[0], keyword) {
            if let Some(name) = first_part(rest, keyword) {
                let k = choose|k: int| 0 <= k < rest.len() && rest[k] == name;
                assert(names[k + 1] == name);
            }
            if i > 0 && i < names.len() {
                assert(rest[i - 1] == names[i]);
                if forall|k: int| 0 <= k < i ==> !names_part(#[trigger] names[k], keyword) {
                    assert forall|k: int| 0 <= k < i - 1 implies !names_part(
                        #[trigger] rest[k],
                        keyword,
                    ) by {
                        assert(rest[k] == names[k + 1]);
                    }
                }
            }
        } else {
            assert(names[0] == first_part(names, keyword)->0);
        }
    }
}

/// A file is a part of the model only where its name says so and it is a model at all.
pub proof fn law_parts_are_model_files(name: Seq<char>, keyword: Seq<char>)
    ensures
        names_part(name, keyword) ==> ".onnx"@.is_suffix_of(text::lowercase(name)),
        names_part(name, keyword) ==> text::contains(text::lowercase(name), keyword),
{
}

} // verus!
