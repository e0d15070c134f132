//! Fetching the files of the recognition model.
use vstd::prelude::*;
use vstd::utf8::encode_utf8;

use crate::{paths, text, urls};

use super::model;

verus! {

/// What is reported while files are fetched.
#[allow(inconsistent_fields)]
pub enum DownloadEvent {
    Started { total_files: usize },
    File { name: String, index: usize, total: usize, downloaded: u64, size: Option<u64> },
    Finished { dir: String },
    Failed { message: String },
}

/// What a report holds.
#[verifier::ext_equal]
pub enum DownloadModel {
    Started { total_files: int },
    File { name: Seq<char>, index: int, total: int, downloaded: u64, size: Option<u64> },
    Finished { dir: Seq<char> },
    Failed { message: Seq<char> },
}

impl View for DownloadEvent {
    type V = DownloadModel;

    open spec fn view(&self) -> DownloadModel {
        match self {
            DownloadEvent::Started { total_files } => DownloadModel::Started {
                total_files: *total_files as int,
            },
            DownloadEvent::File { name, index, total, downloaded, size } => DownloadModel::File {
                name: name@,
                index: *index as int,
                total: *total as int,
                downloaded: *downloaded,
                size: *size,
            },
            DownloadEvent::Finished { dir } => DownloadModel::Finished { dir: dir@ },
            DownloadEvent::Failed { message } => DownloadModel::Failed { message: message@ },
        }
    }
}

/// A file that is to be fetched.
pub struct FileJob {
    pub index: usize,
    pub url: String,
    pub dest: String,
    /// Where the file is written until it is complete.
    pub part: String,
}

/// What is to be done next.
pub enum DownloadStep {
    /// Look for the size of this file.
    Look { path: String },
    /// Fetch the file.
    Fetch(FileJob),
    /// All files are there.
    Finished,
    /// A file could not be had.
    Failed,
}

/// The address of a file of the model.
pub open spec fn file_url(name: Seq<char>) -> Seq<char> {
    "https://www.modelscope.cn/models/iic/SenseVoiceSmall-onnx/resolve/master/"@
        + urls::percent_encoded(encode_utf8(name))
}

/// The path of a file of the model.
pub open spec fn file_path(dir: Seq<char>, i: int) -> Seq<char> {
    paths::joined_path(dir, model::required_names()[i])
}

/// The report on file `i`.
pub open spec fn file_report(i: int, downloaded: u64, size: Option<u64>) -> DownloadModel {
    DownloadModel::File {
        name: model::required_names()[i],
        index: i + 1,
        total: model::REQUIRED_COUNT as int,
        downloaded,
        size,
    }
}

/// A file that is being fetched has the ending `.part` after its own.
pub open spec fn part_path(dest: Seq<char>) -> Seq<char> {
    dest + ".part"@
}

/// `step` asks for file `i` to be looked for, or says that there are no more files.
pub open spec fn is_look(step: DownloadStep, dir: Seq<char>, i: int) -> bool {
    if i < model::REQUIRED_COUNT {
        step matches DownloadStep::Look { path } && path@ == file_path(dir, i)
    } else {
        step is Finished
    }
}

/// File `i` was found with the expected size, and is not fetched again.
pub open spec fn is_kept(i: int, found: Option<u64>) -> bool {
    found == Some(model::required_sizes()[i])
}

/// The files that are fetched, by what was found of each.
pub open spec fn fetched_files(found: Seq<Option<u64>>) -> Set<int> {
    Set::new(|i: int| 0 <= i < model::REQUIRED_COUNT && !is_kept(i, found[i]))
}

/// Fetching a second time fetches nothing, and the model is then there: a file that has the
/// expected size is left.
pub proof fn law_fetching_is_idempotent(found: Seq<Option<u64>>)
    requires
        found.len() == model::REQUIRED_COUNT,
        forall|i: int| 0 <= i < model::REQUIRED_COUNT ==> is_kept(i, #[trigger] found[i]),
    ensures
        fetched_files(found) == Set::<int>::empty(),
        model::lies_in(true, found),
{
    assert(fetched_files(found) =~= Set::empty());
    assert(is_kept(0, found[0]));
}

/// The fetching of the files of the model into a directory, one after the other. Files
/// that are there with the right size are kept.
pub struct ModelDownload {
    dir: String,
    next: usize,
}

impl ModelDownload {
    /// The directory that the files go to.
    pub closed spec fn dir(self) -> Seq<char> {
        self.dir@
    }

    /// The file that is dealt with.
    pub closed spec fn next(self) -> int {
        self.next as int
    }

    /// Begins: the report, and what is to be done first.
    pub fn start(dir: &str) -> (r: (Self, DownloadEvent, DownloadStep))
        ensures
            r.0.dir() == dir@,
            r.0.next() == 0,
            r.1@ == (DownloadModel::Started { total_files: model::REQUIRED_COUNT as int }),
            is_look(r.2, dir@, 0),
    {
        let d = ModelDownload { dir: dir.to_string(), next: 0 };
        let step = d.look();
        (d, DownloadEvent::Started { total_files: model::REQUIRED_COUNT }, step)
    }

    fn look(&self) -> (r: DownloadStep)
        ensures
            is_look(r, self.dir(), self.next()),
    {
        if self.next < model::REQUIRED_COUNT {
            DownloadStep::Look {
                path: paths::join(self.dir.as_str(), model::required_name(self.next)),
            }
        } else {
            DownloadStep::Finished
        }
    }

    /// Takes the size of the file that was looked for, if there is one. A file of the right
    /// size is reported and left; any other is to be fetched.
    pub fn looked(&mut self, found: Option<u64>) -> (r: (Option<DownloadEvent>, DownloadStep))
        requires
            old(self).next() < model::REQUIRED_COUNT,
        ensures
            final(self).dir() == old(self).dir(),
            ({
                let i = old(self).next();
                let name = model::required_names()[i];
                if is_kept(i, found) {
                    &&& final(self).next() == i + 1
                    &&& r.0 matches Some(e) && e@ == file_report(i, found->0, found)
                    &&& is_look(r.1, old(self).dir(), i + 1)
                } else {
                    &&& final(self).next() == i
                    &&& r.0 is None
                    &&& r.1 matches DownloadStep::Fetch(job) && job.index == i && job.url@
                        == file_url(name) && job.dest@ == file_path(old(self).dir(), i)
                        && job.part@ == part_path(file_path(old(self).dir(), i))
                }
            }),
    {
        let i: usize = self.next;
        let name = model::required_name(i);
        if let Some(size) = found {
            if size == model::required_size(i) {
                let event = self.report(size, Some(size));
                self.next = i + 1;
                return (Some(event), self.look());
            }
        }
        let encoded = urls::percent_encode(name);
        let url = text::concat2(
            "https://www.modelscope.cn/models/iic/SenseVoiceSmall-onnx/resolve/master/",
            encoded.as_str(),
        );
        let dest = paths::join(self.dir.as_str(), name);
        let part = text::concat2(dest.as_str(), ".part");
        (None, DownloadStep::Fetch(FileJob { index: i, url, dest, part }))
    }

    /// The report on the file that is dealt with.
    pub fn report(&self, downloaded: u64, size: Option<u64>) -> (r: DownloadEvent)
        requires
            self.next() < model::REQUIRED_COUNT,
        ensures
            r@ == file_report(self.next(), downloaded, size),
    {
        DownloadEvent::File {
            name: model::required_name(self.next).to_string(),
            index: self.next + 1,
            total: model::REQUIRED_COUNT,
            downloaded,
            size,
        }
    }

    /// Takes the outcome of fetching a file: the bytes that came and the size that was
    /// announced, or what went wrong. A failure ends the fetching.
    pub fn fetched(&mut self, outcome: Result<(u64, Option<u64>), String>) -> (r: (
        DownloadEvent,
        DownloadStep,
    ))
        requires
            old(self).next() < model::REQUIRED_COUNT,
        ensures
            final(self).dir() == old(self).dir(),
            match outcome {
                Ok(v) => final(self).next() == old(self).next() + 1 && r.0@ == file_report(
                    old(self).next(),
                    v.0,
                    v.1,
                ) && is_look(r.1, old(self).dir(), old(self).next() + 1),
                Err(m) => final(self).next() == old(self).next() && r.0@ == (
                DownloadModel::Failed { message: m@ }) && r.1 is Failed,
            },
    {
        match outcome {
            Ok((downloaded, size)) => {
                let event = self.report(downloaded, size);
                self.next = self.next + 1;
                (event, self.look())
            },
            Err(message) => (DownloadEvent::Failed { message }, DownloadStep::Failed),
        }
    }

    /// The last report.
    pub fn finished(&self) -> (r: DownloadEvent)
        ensures
            r@ == (DownloadModel::Finished { dir: self.dir() }),
    {
        DownloadEvent::Finished { dir: self.dir.clone() }
    }
}

/// Why a file could not be had when the server answered with a failure.
pub fn status_error(name: &str, status: &str) -> (r: String)
    ensures
        r@ == "download "@ + name@ + " failed: HTTP "@ + status@,
{
    let head = text::concat3("download ", name, " failed: HTTP ");
    text::concat2(head.as_str(), status)
}

/// A file is fetched where none of its size is there, and only then; it is written under
/// another name until it is whole, and reported under its name and its place among the files.
pub proof fn law_files_are_fetched_where_they_are_missing(
    i: int,
    found: Seq<Option<u64>>,
    dir: Seq<char>,
    downloaded: u64,
    size: Option<u64>,
)
    requires
        0 <= i < model::REQUIRED_COUNT,
    ensures
        fetched_files(found).contains(i) <==> found[i] != Some(model::required_sizes()[i]),
        part_path(file_path(dir, i)) != file_path(dir, i),
        file_path(dir, i).is_prefix_of(part_path(file_path(dir, i))),
        model::required_names()[i].is_suffix_of(file_path(dir, i)),
        file_report(i, downloaded, size) matches DownloadModel::File {
            name,
            index,
            total,
            downloaded: d,
            size: s,
        } && name == model::required_names()[i] && 1 <= index <= total && index == i + 1 && d
            == downloaded && s == size,
{
    reveal_strlit(".part");
    assert(".part"@.len() == 5);
    let dest = file_path(dir, i);
    assert(part_path(dest).subrange(0, dest.len() as int) =~= dest);
    assert(part_path(dest).len() != dest.len());
    paths::law_a_name_lies_below_its_directory(dir, model::required_names()[i]);
}

} // verus!
