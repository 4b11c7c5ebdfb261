//! The decisions taken on the configuration before a run starts.

use vstd::prelude::*;
use vstd::string::StringExecFns;
use crate::error::ErrorKind;
use crate::host::{processor_count, stdin_isatty};
use crate::text::{chars_of, contains, mentions};

verus! {

/// Number of blank lines in a row that separate two blocks of a data source.
pub const GNUPLOT_SEPARATOR_NO: usize = 2;

/// The message for a folder that could not be opened.
pub open spec fn folder_failure(path: Seq<char>, cause: Seq<char>) -> Seq<char> {
    "Error opening "@ + path + ": "@ + cause
}

/// Judges the attempt to open the temporary folder `path`. `opened` is what
/// the attempt gave: nothing, or the cause of the failure.
pub fn check_folder(path: &str, opened: Result<(), String>) -> (r: Result<(), String>)
    ensures
        match opened {
            Ok(_) => r is Ok,
            Err(cause) => r matches Err(message) && message@ == folder_failure(path@, cause@),
        },
{
    match opened {
        Ok(_) => Ok(()),
        Err(cause) => {
            let mut message = String::from_str("Error opening ");
            message.append(path);
            message.append(": ");
            message.append(cause.as_str());
            Err(message)
        },
    }
}

/// Tells whether the script text mentions the variables that every job binds
/// for it: `INDEX` and `DATAFILE`.
pub open spec fn script_uses_bindings(script: Seq<char>) -> bool {
    mentions(script, "INDEX"@) && mentions(script, "DATAFILE"@)
}

/// Tells whether the script text mentions the variable `name`.
pub fn script_mentions(script: &str, name: &str) -> (found: bool)
    ensures
        found == mentions(script@, name@),
{
    let text = chars_of(script);
    let word = chars_of(name);
    contains(text.as_slice(), word.as_slice())
}

/// The variables, of `INDEX` and `DATAFILE`, that the script text does not
/// mention, in this order.
pub open spec fn unused_bindings(script: Seq<char>) -> Seq<Seq<char>> {
    seq!["INDEX"@, "DATAFILE"@].filter(|name: Seq<char>| !mentions(script, name))
}

/// Lists the variables, of `INDEX` and `DATAFILE`, that the script text does
/// not mention: each is worth a warning.
pub fn script_unused_bindings(script: &str) -> (unused: Vec<String>)
    ensures
        unused.deep_view() == unused_bindings(script@),
        (unused@.len() == 0) == script_uses_bindings(script@),
{
    let ghost skipped = |name: Seq<char>| !mentions(script@, name);
    let mut unused: Vec<String> = Vec::new();
    proof {
        reveal(Seq::filter);
        let none = Seq::<Seq<char>>::empty();
        assert(none.filter(skipped) =~= none);
        none.lemma_filter_push("INDEX"@, skipped);
        none.push("INDEX"@).lemma_filter_push("DATAFILE"@, skipped);
        assert(none.push("INDEX"@).push("DATAFILE"@) =~= seq!["INDEX"@, "DATAFILE"@]);
        assert(unused.deep_view() =~= none);
    }
    if !script_mentions(script, "INDEX") {
        let ghost before = unused.deep_view();
        unused.push(String::from_str("INDEX"));
        assert(unused.deep_view() =~= before.push("INDEX"@));
    }
    if !script_mentions(script, "DATAFILE") {
        let ghost before = unused.deep_view();
        unused.push(String::from_str("DATAFILE"));
        assert(unused.deep_view() =~= before.push("DATAFILE"@));
    }
    unused
}

/// Tells whether the script text mentions both `INDEX` and `DATAFILE`. A
/// script that does not is still run: the answer only serves as a warning.
pub fn is_gp_script_ok(script: &str) -> (ok: bool)
    ensures
        ok == script_uses_bindings(script@),
{
    let index = script_mentions(script, "INDEX");
    let datafile = script_mentions(script, "DATAFILE");
    index && datafile
}

/// The data files of a run. With a terminal on standard input the sources
/// are the files named on the command line, and one at least must be named.
/// Without one the single source is standard input, and names are not looked
/// at.
pub open spec fn datafiles_for(datas: Option<Vec<String>>, is_a_tty: bool) -> Result<
    Option<Vec<String>>,
    ErrorKind,
> {
    if !is_a_tty {
        Ok(None)
    } else if datas matches Some(names) && names@.len() > 0 {
        Ok(datas)
    } else {
        Err(ErrorKind::Configuration)
    }
}

/// The data files of a run: those named in `datas` where standard input is
/// a terminal, as `is_a_tty` tells.
pub fn get_datafilename_vec(datas: Option<Vec<String>>, is_a_tty: bool) -> (files: Result<
    Option<Vec<String>>,
    ErrorKind,
>)
    ensures
        files == datafiles_for(datas, is_a_tty),
{
    if !is_a_tty {
        return Ok(None);
    }
    match datas {
        Some(names) => {
            if names.len() > 0 {
                Ok(Some(names))
            } else {
                Err(ErrorKind::Configuration)
            }
        },
        None => Err(ErrorKind::Configuration),
    }
}

/// The data files of a run of this process: `get_datafilename_vec` with what
/// standard input is at this moment, a terminal or not.
pub fn select_datafiles(datas: Option<Vec<String>>) -> (files: Result<Option<Vec<String>>, ErrorKind>)
    ensures
        files == datafiles_for(datas, true) || files == datafiles_for(datas, false),
{
    let is_a_tty = stdin_isatty();
    get_datafilename_vec(datas, is_a_tty)
}

/// Number of streams of a run: one per data file, or the one of standard
/// input.
pub open spec fn stream_count(files: Option<Vec<String>>) -> nat {
    match files {
        Some(names) => names@.len(),
        None => 1,
    }
}

/// The stop threshold of a run: the one asked for, or, where none or zero is
/// asked for, the number of streams, so that the run ends when all of them
/// are exhausted.
pub fn stop_threshold(requested: Option<usize>, files: &Option<Vec<String>>) -> (stop_no: usize)
    ensures
        stop_no == match requested {
            Some(n) if n != 0 => n as nat,
            _ => stream_count(*files),
        },
{
    let all = match files {
        Some(names) => names.len(),
        None => 1,
    };
    match requested {
        Some(n) => if n == 0 {
            all
        } else {
            n
        },
        None => all,
    }
}

/// The comment markers of a run: those given, in order, but for the empty
/// ones.
pub fn comment_markers(given: &Vec<String>) -> (markers: Vec<String>)
    ensures
        markers.deep_view() == given.deep_view().filter(|m: Seq<char>| m.len() > 0),
{
    let ghost kept = |m: Seq<char>| m.len() > 0;
    let mut markers: Vec<String> = Vec::new();
    let mut i: usize = 0;
    proof {
        reveal(Seq::filter);
        assert(given.deep_view().take(0) =~= Seq::<Seq<char>>::empty());
        assert(markers.deep_view() =~= Seq::<Seq<char>>::empty());
    }
    while i < given.len()
        invariant
            i <= given.len(),
            kept == |m: Seq<char>| m.len() > 0,
            markers.deep_view() == given.deep_view().take(i as int).filter(kept),
        decreases given.len() - i,
    {
        proof {
            let all = given.deep_view();
            assert(all.take(i + 1) =~= all.take(i as int).push(given@[i as int]@));
            all.take(i as int).lemma_filter_push(given@[i as int]@, kept);
        }
        if !given[i].as_str().is_empty() {
            let ghost before = markers.deep_view();
            let marker = given[i].clone();
            markers.push(marker);
            assert(markers.deep_view() =~= before.push(given@[i as int]@));
        }
        i += 1;
    }
    assert(given.deep_view().take(given@.len() as int) =~= given.deep_view());
    markers
}

/// Number of workers of the pool: the number asked for, or, where none is
/// asked for, the number of processors.
pub fn worker_count(requested: Option<usize>, processors: usize) -> (workers: usize)
    ensures
        workers == match requested {
            Some(n) => n,
            None => processors,
        },
{
    match requested {
        Some(n) => n,
        None => processors,
    }
}

/// Tells whether more workers are asked for than there are processors, which
/// is allowed and worth a warning.
pub fn too_many_workers(workers: usize, processors: usize) -> (warn: bool)
    ensures
        warn == (workers > processors),
{
    workers > processors
}

/// The number of workers of the pool on a machine with `processors`
/// processors, and whether it is worth a warning.
pub open spec fn workers_for(requested: Option<usize>, processors: usize) -> (usize, bool) {
    let workers = match requested {
        Some(n) => n,
        None => processors,
    };
    (workers, workers > processors)
}

/// The number of workers of the pool on this machine, and whether it is
/// worth a warning, whatever the number of processors is found to be.
pub fn workers_on_this_machine(requested: Option<usize>) -> (chosen: (usize, bool))
    ensures
        exists|processors: usize| chosen == #[trigger] workers_for(requested, processors),
{
    let processors = processor_count();
    let workers = worker_count(requested, processors);
    let chosen = (workers, too_many_workers(workers, processors));
    assert(chosen == workers_for(requested, processors));
    chosen
}

/// Tells whether the use of the default temporary folder is worth a warning:
/// where no folder is named and staged files will be left in it.
pub fn warns_of_default_folder(folder_given: bool, keep_data: bool, has_script: bool) -> (warn: bool)
    ensures
        warn == (!folder_given && (keep_data || !has_script)),
{
    !folder_given && (keep_data || !has_script)
}

} // verus!
