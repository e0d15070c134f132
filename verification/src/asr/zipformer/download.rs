//! Fetching the streaming model.
use vstd::prelude::*;

use crate::asr::sensevoice::download::{DownloadEvent, DownloadModel};
use crate::{paths, text};

verus! {

/// Where the archive of the model lies.
pub const MODEL_URL: &'static str = "https://github.com/k2-fsa/sherpa-onnx/releases/download/asr-models/sherpa-onnx-streaming-zipformer-bilingual-zh-en-2023-02-20.tar.bz2";

/// The directory that the archive unpacks to.
pub const ARCHIVE_DIR_NAME: &'static str = "sherpa-onnx-streaming-zipformer-bilingual-zh-en-2023-02-20";

/// The directory of the model below `parent_dir`.
pub fn target_dir(parent_dir: &str) -> (r: String)
    ensures
        r@ == paths::joined_path(
            parent_dir@,
            "sherpa-onnx-streaming-zipformer-bilingual-zh-en-2023-02-20"@,
        ),
{
    paths::join(parent_dir, ARCHIVE_DIR_NAME)
}

/// Where the archive is kept until it is unpacked.
pub fn archive_path(parent_dir: &str) -> (r: String)
    ensures
        r@ == paths::joined_path(parent_dir@, "zipformer-download.tar.bz2"@),
{
    paths::join(parent_dir, "zipformer-download.tar.bz2")
}

/// How far the fetching has come.
pub enum Progress {
    /// Bytes of the archive have come.
    Archive { downloaded: u64, size: Option<u64> },
    /// The archive is being unpacked.
    Unpacking,
}

/// The report on how far the fetching has come.
pub fn progress_event(progress: Progress) -> (r: DownloadEvent)
    ensures
        match progress {
            Progress::Archive { downloaded, size } => r@ == (DownloadModel::File {
                name: "zipformer-model.tar.bz2"@,
                index: 1,
                total: 1,
                downloaded,
                size,
            }),
            Progress::Unpacking => r@ == (DownloadModel::File {
                name: "解压中…"@,
                index: 1,
                total: 1,
                downloaded: 0,
                size: None,
            }),
        },
{
    match progress {
        Progress::Archive { downloaded, size } => DownloadEvent::File {
            name: "zipformer-model.tar.bz2".to_string(),
            index: 1,
            total: 1,
            downloaded,
            size,
        },
        Progress::Unpacking => DownloadEvent::File {
            name: "解压中…".to_string(),
            index: 1,
            total: 1,
            downloaded: 0,
            size: None,
        },
    }
}

/// What unpacking the archive led to, by what is still missing: the last report, and the
/// directory of the model or what went wrong.
pub fn unpacked(target_dir: &str, missing: &Vec<String>) -> (r: (
    DownloadEvent,
    Result<String, String>,
))
    ensures
        if missing@.len() == 0 {
            &&& r.0@ == (DownloadModel::Finished { dir: target_dir@ })
            &&& r.1 matches Ok(d) && d@ == target_dir@
        } else {
            let m = "解压后模型文件仍不完整，缺少: "@
                + text::joined(text::views(missing@), ", "@);
            &&& r.0@ == (DownloadModel::Failed { message: m })
            &&& r.1 matches Err(e) && e@ == m
        },
{
    if missing.len() == 0 {
        (
            DownloadEvent::Finished { dir: target_dir.to_string() },
            Ok(target_dir.to_string()),
        )
    } else {
        let list = text::join(missing, ", ");
        let message = text::concat2(
            "解压后模型文件仍不完整，缺少: ",
            list.as_str(),
        );
        (DownloadEvent::Failed { message: message.clone() }, Err(message))
    }
}

} // verus!
