//! The files of the recognition model.
use vstd::prelude::*;

use crate::paths;

verus! {

/// The file of the model that detects speech.
pub const VAD_MODEL_FILE: &'static str = "silero_vad.onnx";

/// The number of files that the model consists of.
pub const REQUIRED_COUNT: usize = 5;

/// The names of the files that the model consists of.
pub open spec fn required_names() -> Seq<Seq<char>> {
    seq!["model_quant.onnx"@, "tokens.json"@, "config.yaml"@, "am.mvn"@, "configuration.json"@]
}

/// Their sizes in bytes.
pub open spec fn required_sizes() -> Seq<u64> {
    seq![241_216_270, 352_064, 1_855, 11_203, 56]
}

/// The name of a file that the model consists of.
pub fn required_name(i: usize) -> (r: &'static str)
    requires
        i < REQUIRED_COUNT,
    ensures
        r@ == required_names()[i as int],
{
    if i == 0 {
        "model_quant.onnx"
    } else if i == 1 {
        "tokens.json"
    } else if i == 2 {
        "config.yaml"
    } else if i == 3 {
        "am.mvn"
    } else {
        "configuration.json"
    }
}

/// The size of a file that the model consists of.
pub fn required_size(i: usize) -> (r: u64)
    requires
        i < REQUIRED_COUNT,
    ensures
        r == required_sizes()[i as int],
        r > 0,
{
    if i == 0 {
        241_216_270
    } else if i == 1 {
        352_064
    } else if i == 2 {
        1_855
    } else if i == 3 {
        11_203
    } else {
        56
    }
}

/// A size that is within one percent of the expected one.
pub open spec fn is_about(actual: u64, expected: u64) -> bool {
    expected - expected / 100 <= actual <= expected + expected / 100
}

/// The model lies in a directory: every required file is there, and the model itself is about
/// as large as expected. `found` holds the size of each required file, or nothing where there
/// is no such file.
pub open spec fn lies_in(is_dir: bool, found: Seq<Option<u64>>) -> bool {
    &&& is_dir
    &&& forall|i: int| 0 <= i < REQUIRED_COUNT ==> #[trigger] found[i] is Some
    &&& is_about(found[0]->0, required_sizes()[0])
}

/// Whether the model lies in a directory.
pub fn is_present(is_dir: bool, found: &Vec<Option<u64>>) -> (r: bool)
    requires
        found@.len() == REQUIRED_COUNT,
    ensures
        r == lies_in(is_dir, found@),
{
    if !is_dir {
        return false;
    }
    for i in 0..REQUIRED_COUNT
        invariant
            found@.len() == REQUIRED_COUNT,
            forall|j: int| 0 <= j < i ==> #[trigger] found@[j] is Some,
    {
        if found[i].is_none() {
            return false;
        }
    }
    match found[0] {
        Some(actual) => {
            let expected: u64 = required_size(0);
            let slack: u64 = expected / 100;
            expected - slack <= actual && actual <= expected + slack
        },
        None => false,
    }
}

pub fn model_file(dir: &str) -> (r: String)
    ensures
        r@ == paths::joined_path(dir@, "model_quant.onnx"@),
{
    paths::join(dir, "model_quant.onnx")
}

pub fn tokens_file(dir: &str) -> (r: String)
    ensures
        r@ == paths::joined_path(dir@, "tokens.json"@),
{
    paths::join(dir, "tokens.json")
}

/// The directory of the model that detects speech, below that of the recognition model.
pub fn vad_subdir(sensevoice_dir: &str) -> (r: String)
    ensures
        r@ == paths::joined_path(sensevoice_dir@, "vad"@),
{
    paths::join(sensevoice_dir, "vad")
}

pub fn vad_model_file(sensevoice_dir: &str) -> (r: String)
    ensures
        r@ == paths::joined_path(
            paths::joined_path(sensevoice_dir@, "vad"@),
            "silero_vad.onnx"@,
        ),
{
    let dir = vad_subdir(sensevoice_dir);
    paths::join(dir.as_str(), VAD_MODEL_FILE)
}

/// Whether the model that detects speech is there: its file is more than a fragment.
/// `found` is the size of the file, if there is one.
pub fn is_vad_present(found: Option<u64>) -> (r: bool)
    ensures
        r <==> found is Some && found->0 > 100_000,
{
    match found {
        Some(size) => size > 100_000,
        None => false,
    }
}

/// A model file counts as whole where its size is within one percent of what is expected, and
/// not otherwise.
pub proof fn law_sizes_may_differ_by_a_percent(actual: u64, expected: u64)
    ensures
        is_about(actual, expected) <==> 99 * expected <= 100 * actual <= 101 * expected,
        is_about(expected, expected),
{
}

} // verus!
