//! Validation of the command-line arguments.
//!
//! Whether a path names a directory or a file is a fact about the disk, so
//! the caller probes the four argument paths and passes the answers in; the
//! decision which error, if any, aborts the run is made and checked here.

use vstd::prelude::*;

verus! {

/// The command-line arguments, as plain values.
#[derive(Debug, PartialEq, Eq)]
pub struct Args {
    pub src_directory: String,
    pub dst_directory: String,
    pub include_suffixes_file: Option<String>,
    pub exclude_paths_file: Option<String>,
    pub no_copy: bool,
}

/// What the filesystem says of the argument paths: whether the two roots
/// are directories, and whether each optional list file is a regular file.
/// The last two answers matter only where the argument is present.
#[derive(Debug, PartialEq, Eq)]
pub struct ArgProbes {
    pub src_is_directory: bool,
    pub dst_is_directory: bool,
    pub include_suffixes_is_file: bool,
    pub exclude_paths_is_file: bool,
}

/// Why a run is refused before any work is done.
#[derive(Debug, PartialEq, Eq)]
pub enum ArgsError {
    SrcNotADirectory,
    DstNotADirectory,
    SuffixesNotAFile,
    ExclusionsNotAFile,
}

/// Checks the arguments against the probed facts, in order: the source
/// directory, the destination directory, then each list file that was
/// given.  The first failing check names the error; a run is accepted if
/// and only if every check passes.
pub fn validate_args(args: &Args, probes: &ArgProbes) -> (r: Result<(), ArgsError>)
    ensures
        r is Ok <==> (probes.src_is_directory && probes.dst_is_directory
            && (args.include_suffixes_file is Some ==> probes.include_suffixes_is_file) && (
        args.exclude_paths_file is Some ==> probes.exclude_paths_is_file)),
        r == Result::<(), ArgsError>::Err(ArgsError::SrcNotADirectory) <==> !probes.src_is_directory,
        r == Result::<(), ArgsError>::Err(ArgsError::DstNotADirectory) <==> (
        probes.src_is_directory && !probes.dst_is_directory),
        r == Result::<(), ArgsError>::Err(ArgsError::SuffixesNotAFile) <==> (
        probes.src_is_directory && probes.dst_is_directory
            && args.include_suffixes_file is Some && !probes.include_suffixes_is_file),
        r == Result::<(), ArgsError>::Err(ArgsError::ExclusionsNotAFile) <==> (
        probes.src_is_directory && probes.dst_is_directory && (
        args.include_suffixes_file is Some ==> probes.include_suffixes_is_file)
            && args.exclude_paths_file is Some && !probes.exclude_paths_is_file),
{
    if !probes.src_is_directory {
        return Err(ArgsError::SrcNotADirectory);
    }
    if !probes.dst_is_directory {
        return Err(ArgsError::DstNotADirectory);
    }
    if args.include_suffixes_file.is_some() && !probes.include_suffixes_is_file {
        return Err(ArgsError::SuffixesNotAFile);
    }
    if args.exclude_paths_file.is_some() && !probes.exclude_paths_is_file {
        return Err(ArgsError::ExclusionsNotAFile);
    }
    Ok(())
}

/// Whether the destination offers room for the selected bytes; a run with
/// too little room is refused.
pub fn sufficient_space(needed: u64, available: u64) -> (r: bool)
    ensures
        r == (needed <= available),
{
    needed <= available
}

} // verus!
