//! The recognition engine as a provider.
use vstd::prelude::*;

use crate::asr::AsrCapabilities;
use crate::{paths, text};

use super::fbank;

verus! {

/// The sample rate that the engine works at.
pub const TARGET_SR: u32 = 16_000;

/// The number by which the model knows the normalisation of text.
pub const TEXT_NORM_WITH_ITN_ID: i32 = 14;

/// The number by which the model knows a language.
pub open spec fn control_id(code: Seq<char>) -> Option<i32> {
    if code == "auto"@ || code == ""@ {
        Some(0)
    } else if code == "zh"@ {
        Some(3)
    } else if code == "en"@ {
        Some(4)
    } else if code == "yue"@ {
        Some(7)
    } else if code == "ja"@ {
        Some(11)
    } else if code == "ko"@ {
        Some(12)
    } else if code == "nospeech"@ {
        Some(13)
    } else {
        None
    }
}

pub fn language_control_id(code: &str) -> (r: Option<i32>)
    ensures
        r == control_id(code@),
{
    if text::str_eq(code, "auto") || text::str_eq(code, "") {
        Some(0)
    } else if text::str_eq(code, "zh") {
        Some(3)
    } else if text::str_eq(code, "en") {
        Some(4)
    } else if text::str_eq(code, "yue") {
        Some(7)
    } else if text::str_eq(code, "ja") {
        Some(11)
    } else if text::str_eq(code, "ko") {
        Some(12)
    } else if text::str_eq(code, "nospeech") {
        Some(13)
    } else {
        None
    }
}

/// What has to be right before the engine can run: the files are there, the normalisation
/// values have the length of the features, and the language is one that the model knows.
/// Gives the number of the language.
pub fn check_setup(
    model_dir: &str,
    files_present: bool,
    value_count: usize,
    language: &str,
) -> (r: Result<i32, String>)
    ensures
        if !files_present {
            r matches Err(m) && m@ == "SenseVoice model files missing at "@ + model_dir@
                + " (use the Settings → 模型 → 下载模型 button)"@
        } else if value_count != fbank::FEAT_DIM {
            r matches Err(m) && m@ == "am.mvn dim "@ + text::decimal(value_count as nat)
                + " != expected 560"@
        } else {
            match control_id(language@) {
                Some(id) => r == Ok::<i32, String>(id),
                None => r matches Err(m) && m@ == "unsupported SenseVoice language: "@ + language@,
            }
        },
{
    if !files_present {
        return Err(
            text::concat3(
                "SenseVoice model files missing at ",
                model_dir,
                " (use the Settings → 模型 → 下载模型 button)",
            ),
        );
    }
    if value_count != fbank::FEAT_DIM {
        let n = text::to_decimal(value_count as u64);
        return Err(text::concat3("am.mvn dim ", n.as_str(), " != expected 560"));
    }
    match language_control_id(language) {
        Some(id) => Ok(id),
        None => Err(text::concat2("unsupported SenseVoice language: ", language)),
    }
}

pub fn name() -> (r: &'static str)
    ensures
        r@ == "sensevoice_onnx"@,
{
    "sensevoice_onnx"
}

pub fn capabilities() -> (r: AsrCapabilities)
    ensures
        !r.streaming,
        r.offline,
        text::views(r.languages@) == seq!["auto"@, "zh"@, "en"@, "ja"@, "ko"@, "yue"@],
        !r.supports_diarization,
{
    let mut languages = text::strings3("auto", "zh", "en");
    let mut more = text::strings3("ja", "ko", "yue");
    let ghost a = languages@;
    let ghost b = more@;
    languages.append(&mut more);
    assert(text::views(languages@) =~= text::views(a) + text::views(b));
    assert(text::views(languages@) =~= seq!["auto"@, "zh"@, "en"@, "ja"@, "ko"@, "yue"@]);
    AsrCapabilities { streaming: false, offline: true, languages, supports_diarization: false }
}

/// Whether samples have to be brought to the rate that the engine works at.
pub fn needs_resampling(sample_rate: u32) -> (r: bool)
    ensures
        r == (sample_rate != TARGET_SR),
{
    sample_rate != TARGET_SR
}

/// The number of frames and the size of the vocabulary that the shape of an output tells.
pub fn output_shape(shape: &Vec<usize>) -> (r: Result<(usize, usize), String>)
    ensures
        if shape@.len() == 3 {
            r == Ok::<(usize, usize), String>((shape@[1], shape@[2]))
        } else {
            r matches Err(m) && m@ == "unexpected logits shape: ["@ + text::joined(
                shape@.map_values(|n: usize| text::decimal(n as nat)),
                ", "@,
            ) + "]"@
        },
{
    if shape.len() == 3 {
        return Ok((shape[1], shape[2]));
    }
    let mut parts: Vec<String> = Vec::new();
    for i in 0..shape.len()
        invariant
            parts@.len() == i,
            forall|k: int|
                0 <= k < i ==> (#[trigger] parts@[k])@ == text::decimal(shape@[k] as nat),
    {
        parts.push(text::to_decimal(shape[i] as u64));
    }
    assert(text::views(parts@) =~= shape@.map_values(|n: usize| text::decimal(n as nat)));
    let list = text::join(&parts, ", ");
    Err(text::concat3("unexpected logits shape: [", list.as_str(), "]"))
}

/// The number of threads that inference gets: half of those that the machine has, where
/// that is known.
pub fn inference_threads(available: Option<usize>) -> (r: usize)
    ensures
        r == (match available {
            Some(n) => if n / 2 >= 1 {
                (n / 2) as int
            } else {
                1
            },
            None => 2,
        }),
{
    match available {
        Some(n) => if n / 2 >= 1 {
            n / 2
        } else {
            1
        },
        None => 2,
    }
}

// ---------------------------------------------------------------------------
// The library that runs the model
// ---------------------------------------------------------------------------

/// Where the library beside the executable may lie.
pub fn beside_executable(exe_dir: &str) -> (r: Vec<String>)
    ensures
        text::views(r@) == seq![
            paths::joined_path(exe_dir@, "onnxruntime.dll"@),
            paths::joined_path(paths::joined_path(exe_dir@, "lib"@), "onnxruntime.dll"@),
        ],
{
    let lib = paths::join(exe_dir, "lib");
    let first = paths::join(exe_dir, "onnxruntime.dll");
    let second = paths::join(lib.as_str(), "onnxruntime.dll");
    text::strings2(first.as_str(), second.as_str())
}

/// Where the library lies below an installation of Python.
pub fn in_python(python_dir: &str) -> (r: String)
    ensures
        r@ == paths::joined_path(
            python_dir@,
            "Lib/site-packages/onnxruntime/capi/onnxruntime.dll"@,
        ),
{
    paths::join(python_dir, "Lib/site-packages/onnxruntime/capi/onnxruntime.dll")
}

/// The path at place `i` comes last in the order of paths, and behind those that stand equal
/// to it.
pub open spec fn is_last_path(found: Seq<String>, i: int) -> bool {
    &&& forall|j: int|
        0 <= j < found.len() ==> !paths::path_precedes(found[i]@, (#[trigger] found[j])@)
    &&& forall|j: int|
        i < j < found.len() ==> paths::path_precedes((#[trigger] found[j])@, found[i]@)
}

/// The library to load: the first that was found at a place that a setting names or beside
/// the executable, or else, of those that lie below an installation of Python, the one
/// whose path comes last in the order of paths.
pub fn choose_library(named: &Vec<String>, below_python: &Vec<String>) -> (r: Option<String>)
    ensures
        match r {
            Some(path) => if named@.len() > 0 {
                path@ == named@[0]@
            } else {
                exists|i: int|
                    0 <= i < below_python@.len() && path@ == (#[trigger] below_python@[i])@
                        && is_last_path(below_python@, i)
            },
            None => named@.len() == 0 && below_python@.len() == 0,
        },
{
    if named.len() > 0 {
        return Some(named[0].clone());
    }
    if below_python.len() == 0 {
        return None;
    }
    let mut best: usize = 0;
    proof {
        let first = paths::path_parts(below_python@[0]@);
        paths::lemma_parts_total(first, first);
        assert(below_python@.take(1)[0] == below_python@[0]);
    }
    for i in 1..below_python.len()
        invariant
            best < i <= below_python@.len(),
            is_last_path(below_python@.take(i as int), best as int),
    {
        let ghost seen = below_python@.take(i as int);
        let ghost more = below_python@.take(i + 1);
        proof {
            assert forall|j: int| 0 <= j < i implies seen[j] == more[j] by {}
        }
        if !paths::precedes(below_python[i].as_str(), below_python[best].as_str()) {
            proof {
                let a = paths::path_parts(below_python@[best as int]@);
                let b = paths::path_parts(below_python@[i as int]@);
                paths::lemma_parts_total(a, b);
                paths::lemma_parts_total(b, b);
                assert forall|j: int| 0 <= j < more.len() implies !paths::path_precedes(
                    more[i as int]@,
                    (#[trigger] more[j])@,
                ) by {
                    let c = paths::path_parts(more[j]@);
                    if j < i {
                        assert(!paths::path_precedes(seen[best as int]@, seen[j]@));
                        if paths::parts_precede(b, c) && a != b {
                            paths::lemma_parts_transitive(a, b, c);
                        }
                    }
                }
            }
            best = i;
        } else {
            proof {
                let a = paths::path_parts(below_python@[best as int]@);
                let b = paths::path_parts(below_python@[i as int]@);
                paths::lemma_parts_total(a, b);
                assert forall|j: int| 0 <= j < more.len() implies !paths::path_precedes(
                    more[best as int]@,
                    (#[trigger] more[j])@,
                ) by {
                    if j < i {
                        assert(!paths::path_precedes(seen[best as int]@, seen[j]@));
                    }
                }
                assert forall|j: int| best < j < more.len() implies paths::path_precedes(
                    (#[trigger] more[j])@,
                    more[best as int]@,
                ) by {
                    if j < i {
                        assert(paths::path_precedes(seen[j]@, seen[best as int]@));
                    }
                }
            }
        }
    }
    assert(below_python@.take(below_python@.len() as int) =~= below_python@);
    Some(below_python[best].clone())
}

/// Two languages that the model knows under the same number are the same, but that none set
/// means that the model finds out.
pub proof fn law_languages_are_told_apart(a: Seq<char>, b: Seq<char>)
    requires
        control_id(a) is Some,
        control_id(a) == control_id(b),
    ensures
        a == b || ((a == "auto"@ || a.len() == 0) && (b == "auto"@ || b.len() == 0)),
{
    reveal_strlit("");
}

} // verus!
