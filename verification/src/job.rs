//! The job materializer: which files a job stages for a tuple of blocks, how
//! the plotting command is called on them, and what is cleaned up afterwards.

use vstd::prelude::*;
use vstd::string::StringExecFns;
use crate::stream::entry_view;
use crate::text::{decimal, push_decimal};

verus! {

/// The plotting command that every job runs.
pub const PLOT_COMMAND: &'static str = "gnuplot";

/// One aligned tuple of blocks: an entry per stream, absent where the stream
/// is exhausted, with the two indices of the job it is meant for.
#[derive(Clone, Debug, PartialEq, Eq)]
pub struct JobTuple {
    /// Position of the tuple in the streams, the initial offset included.
    pub count: usize,
    /// Number of tuples submitted before this one.
    pub continuous_index: usize,
    /// The entries, in stream order.
    pub blocks: Vec<Option<String>>,
}

/// A temporary file that holds one block for the plotting command.
#[derive(Clone, Debug, PartialEq, Eq)]
pub struct StagedFile {
    /// The stream that the block came from.
    pub stream_index: usize,
    /// Where the file is written.
    pub path: String,
    /// What is written to it: the block, as it is.
    pub content: String,
}

/// A staged file as plain values.
pub struct StagedFileView {
    pub stream_index: nat,
    pub path: Seq<char>,
    pub content: Seq<char>,
}

impl View for StagedFile {
    type V = StagedFileView;

    open spec fn view(&self) -> StagedFileView {
        StagedFileView {
            stream_index: self.stream_index as nat,
            path: self.path@,
            content: self.content@,
        }
    }
}

impl DeepView for StagedFile {
    type V = StagedFileView;

    open spec fn deep_view(&self) -> StagedFileView {
        self@
    }
}

/// A tuple as plain values.
pub struct JobTupleView {
    pub count: nat,
    pub continuous_index: nat,
    pub blocks: Seq<Option<Seq<char>>>,
}

impl View for JobTuple {
    type V = JobTupleView;

    open spec fn view(&self) -> JobTupleView {
        JobTupleView {
            count: self.count as nat,
            continuous_index: self.continuous_index as nat,
            blocks: entries_view(self.blocks@),
        }
    }
}

/// The views of the entries of a tuple.
pub open spec fn entries_view(entries: Seq<Option<String>>) -> Seq<Option<Seq<char>>> {
    entries.map_values(|e: Option<String>| entry_view(e))
}

/// The path of the file staged for stream `stream_index` by job `count`.
pub open spec fn staged_path(folder: Seq<char>, stream_index: nat, count: nat) -> Seq<char> {
    folder + "/tmp"@ + decimal(stream_index) + "_index"@ + decimal(count)
}

/// The files staged for a tuple: one per present entry, in stream order.
pub open spec fn staged_files(
    entries: Seq<Option<Seq<char>>>,
    folder: Seq<char>,
    count: nat,
) -> Seq<StagedFileView>
    decreases entries.len(),
{
    if entries.len() == 0 {
        Seq::empty()
    } else {
        let before = staged_files(entries.drop_last(), folder, count);
        let last = (entries.len() - 1) as nat;
        match entries.last() {
            Some(content) => before.push(
                StagedFileView { stream_index: last, path: staged_path(folder, last, count), content },
            ),
            None => before,
        }
    }
}

/// The path of the file staged for stream `stream_index` by job `count`.
pub fn staged_file_path(folder: &str, stream_index: usize, count: usize) -> (path: String)
    ensures
        path@ == staged_path(folder@, stream_index as nat, count as nat),
{
    let mut path = String::from_str(folder);
    path.append("/tmp");
    push_decimal(&mut path, stream_index);
    path.append("_index");
    push_decimal(&mut path, count);
    path
}

/// Lists the files to stage for the entries of job `count`: one per present
/// entry, in stream order, each holding its block.
pub fn stage(entries: &[Option<String>], folder: &str, count: usize) -> (files: Vec<StagedFile>)
    ensures
        files.deep_view() == staged_files(entries_view(entries@), folder@, count as nat),
{
    let ghost all = entries_view(entries@);
    let mut files: Vec<StagedFile> = Vec::new();
    let mut i: usize = 0;
    assert(all.take(0) =~= Seq::<Option<Seq<char>>>::empty());
    while i < entries.len()
        invariant
            i <= entries.len(),
            all == entries_view(entries@),
            files.deep_view() == staged_files(all.take(i as int), folder@, count as nat),
        decreases entries.len() - i,
    {
        proof {
            assert(all.take(i + 1).drop_last() =~= all.take(i as int));
            assert(all.take(i + 1).last() == entry_view(entries@[i as int]));
        }
        match &entries[i] {
            Some(block) => {
                let file = StagedFile {
                    stream_index: i,
                    path: staged_file_path(folder, i, count),
                    content: block.clone(),
                };
                let ghost before = files.deep_view();
                let ghost staged = file@;
                files.push(file);
                assert(files.deep_view() =~= before.push(staged));
            },
            None => {},
        }
        i += 1;
    }
    assert(all.take(entries@.len() as int) =~= all);
    files
}

/// The binding that tells the command the job's count.
pub open spec fn index_binding(count: nat) -> Seq<char> {
    "INDEX="@ + decimal(count)
}

/// The binding that tells the command how many jobs were submitted before.
pub open spec fn continuous_index_binding(continuous_index: nat) -> Seq<char> {
    "CONTINUOUSINDEX="@ + decimal(continuous_index)
}

/// The binding that tells the command where the block of a stream is staged.
pub open spec fn datafile_binding(file: StagedFileView) -> Seq<char> {
    "DATAFILE"@ + decimal(file.stream_index) + "=\""@ + file.path + "\""@
}

/// The arguments that bind the staged files: for each file, in order, the
/// flag `-e` and the file's binding.
pub open spec fn datafile_args(files: Seq<StagedFileView>) -> Seq<Seq<char>> {
    Seq::new(
        2 * files.len(),
        |i: int|
            if i % 2 == 0 {
                "-e"@
            } else {
                datafile_binding(files[i / 2])
            },
    )
}

/// The arguments of the plotting command for one job: the two index
/// bindings, a binding per staged file, then the script.
pub open spec fn command_args(
    count: nat,
    continuous_index: nat,
    files: Seq<StagedFileView>,
    script: Seq<char>,
) -> Seq<Seq<char>> {
    seq!["-e"@, index_binding(count), "-e"@, continuous_index_binding(continuous_index)]
        + datafile_args(files) + seq![script]
}

/// The arguments of the plotting command for the job `count` that staged
/// `files`, which runs `script`.
pub fn command_line(
    count: usize,
    continuous_index: usize,
    files: &Vec<StagedFile>,
    script: &str,
) -> (args: Vec<String>)
    ensures
        args.deep_view() == command_args(
            count as nat,
            continuous_index as nat,
            files.deep_view(),
            script@,
        ),
{
    let mut args: Vec<String> = Vec::new();
    args.push(String::from_str("-e"));
    let mut index = String::from_str("INDEX=");
    push_decimal(&mut index, count);
    args.push(index);
    args.push(String::from_str("-e"));
    let mut continuous = String::from_str("CONTINUOUSINDEX=");
    push_decimal(&mut continuous, continuous_index);
    args.push(continuous);
    let ghost head = args.deep_view();
    assert(head =~= seq![
        "-e"@,
        index_binding(count as nat),
        "-e"@,
        continuous_index_binding(continuous_index as nat),
    ]);
    let mut i: usize = 0;
    assert(datafile_args(files.deep_view().take(0)) =~= Seq::<Seq<char>>::empty());
    while i < files.len()
        invariant
            i <= files.len(),
            head.len() == 4,
            args@.len() == 4 + 2 * i,
            args.deep_view() == head + datafile_args(files.deep_view().take(i as int)),
        decreases files.len() - i,
    {
        let file = &files[i];
        let mut binding = String::from_str("DATAFILE");
        push_decimal(&mut binding, file.stream_index);
        binding.append("=\"");
        binding.append(file.path.as_str());
        binding.append("\"");
        assert(binding@ == datafile_binding(file@));
        let ghost before = args.deep_view();
        args.push(String::from_str("-e"));
        args.push(binding);
        proof {
            let earlier = datafile_args(files.deep_view().take(i as int));
            let now = datafile_args(files.deep_view().take(i + 1));
            assert(args.deep_view() =~= before.push("-e"@).push(binding@));
            assert forall|j: int| 0 <= j < 6 + 2 * i implies args.deep_view()[j] == (head + now)[j] by {
                if 4 <= j < 4 + 2 * i {
                    assert(before[j] == earlier[j - 4]);
                    assert(files.deep_view().take(i as int)[(j - 4) / 2] == files.deep_view().take(
                        i + 1,
                    )[(j - 4) / 2]);
                } else if j < 4 {
                    assert(before[j] == head[j]);
                } else if j == 5 + 2 * i {
                    assert(files.deep_view().take(i + 1)[i as int] == file@);
                }
            }
            assert(args.deep_view() =~= head + now);
        }
        i += 1;
    }
    assert(files.deep_view().take(files@.len() as int) =~= files.deep_view());
    let ghost bound = args.deep_view();
    args.push(String::from_str(script));
    assert(args.deep_view() =~= bound.push(script@));
    args
}

/// All that one job does: the files it stages, the command it runs on them,
/// and whether it deletes the files afterwards.
#[derive(Clone, Debug, PartialEq, Eq)]
pub struct Job {
    /// Position of the job's tuple in the streams, the initial offset
    /// included.
    pub count: usize,
    /// Number of jobs submitted before this one.
    pub continuous_index: usize,
    /// The files to stage, in stream order.
    pub files: Vec<StagedFile>,
    /// The arguments of the plotting command, or nothing where no script is
    /// configured and the command is not run.
    pub command: Option<Vec<String>>,
    /// Whether the staged files are deleted once the command has run.
    pub cleanup: bool,
}

/// A job as plain values.
pub struct JobView {
    pub count: nat,
    pub continuous_index: nat,
    pub files: Seq<StagedFileView>,
    pub command: Option<Seq<Seq<char>>>,
    pub cleanup: bool,
}

impl View for Job {
    type V = JobView;

    open spec fn view(&self) -> JobView {
        JobView {
            count: self.count as nat,
            continuous_index: self.continuous_index as nat,
            files: self.files.deep_view(),
            command: match self.command {
                Some(args) => Some(args.deep_view()),
                None => None,
            },
            cleanup: self.cleanup,
        }
    }
}

/// The job for a tuple. Its files are staged under `folder`. With a script
/// the command is run on them, and the files are deleted afterwards where
/// `do_delete` asks for it. Without a script no command is run and the files
/// are left in place, whatever `do_delete` says.
pub open spec fn planned_job(
    tuple: JobTupleView,
    script: Option<Seq<char>>,
    folder: Seq<char>,
    do_delete: bool,
) -> JobView {
    let files = staged_files(tuple.blocks, folder, tuple.count);
    JobView {
        count: tuple.count,
        continuous_index: tuple.continuous_index,
        files,
        command: match script {
            Some(path) => Some(command_args(tuple.count, tuple.continuous_index, files, path)),
            None => None,
        },
        cleanup: do_delete && script is Some,
    }
}

/// The view of an optional script path.
pub open spec fn script_view(script: Option<String>) -> Option<Seq<char>> {
    match script {
        Some(path) => Some(path@),
        None => None,
    }
}

/// Plans the job for `tuple`.
pub fn materialize(tuple: &JobTuple, gpfilename: &Option<String>, tmpfoldername: &str, do_delete: bool) -> (job: Job)
    ensures
        job@ == planned_job(tuple@, script_view(*gpfilename), tmpfoldername@, do_delete),
{
    let files = stage(tuple.blocks.as_slice(), tmpfoldername, tuple.count);
    let (command, cleanup) = match gpfilename {
        Some(script) => (
            Some(command_line(tuple.count, tuple.continuous_index, &files, script.as_str())),
            do_delete,
        ),
        None => (None, false),
    };
    Job { count: tuple.count, continuous_index: tuple.continuous_index, files, command, cleanup }
}

} // verus!
