//! Commit history and changes of a commit range: the arguments to run the
//! version-control tool with, and the reading of what it gave back.

use crate::text::{decode_lossy, lines_of, split_lines, texts, trim, trimmed, utf8_lossy};
use vstd::prelude::*;
use vstd::string::*;

verus! {

/// What became of one run of the version-control tool.
#[derive(Debug, PartialEq, Eq)]
pub enum ProcessOutcome {
    /// The process could not be started.
    NotStarted { reason: String },
    /// The process ran and exited.
    Exited { success: bool, stdout: Vec<u8>, stderr: Vec<u8> },
}

/// A `ProcessOutcome` as a mathematical value.
pub enum ProcessOutcomeModel {
    NotStarted { reason: Seq<char> },
    Exited { success: bool, stdout: Seq<u8>, stderr: Seq<u8> },
}

impl View for ProcessOutcome {
    type V = ProcessOutcomeModel;

    open spec fn view(&self) -> ProcessOutcomeModel {
        match self {
            ProcessOutcome::NotStarted { reason } => ProcessOutcomeModel::NotStarted {
                reason: reason@,
            },
            ProcessOutcome::Exited { success, stdout, stderr } => ProcessOutcomeModel::Exited {
                success: *success,
                stdout: stdout@,
                stderr: stderr@,
            },
        }
    }
}

/// A run of the version-control tool that failed, with the arguments that
/// were tried and what was captured.
#[derive(Debug, PartialEq, Eq)]
pub enum VcsCommandFailure {
    /// The process could not be started.
    Spawn { args: Vec<String>, reason: String },
    /// The process exited with a failure.
    Exit { args: Vec<String>, stdout: String, stderr: String },
}

/// A `VcsCommandFailure` as a mathematical value.
pub enum VcsCommandFailureModel {
    Spawn { args: Seq<Seq<char>>, reason: Seq<char> },
    Exit { args: Seq<Seq<char>>, stdout: Seq<char>, stderr: Seq<char> },
}

impl View for VcsCommandFailure {
    type V = VcsCommandFailureModel;

    open spec fn view(&self) -> VcsCommandFailureModel {
        match self {
            VcsCommandFailure::Spawn { args, reason } => VcsCommandFailureModel::Spawn {
                args: texts(args@),
                reason: reason@,
            },
            VcsCommandFailure::Exit { args, stdout, stderr } => VcsCommandFailureModel::Exit {
                args: texts(args@),
                stdout: stdout@,
                stderr: stderr@,
            },
        }
    }
}

/// The model of the result of a run that yields text.
pub open spec fn text_result(
    result: Result<String, VcsCommandFailure>,
) -> Result<Seq<char>, VcsCommandFailureModel> {
    match result {
        Ok(text) => Ok(text@),
        Err(failure) => Err(failure@),
    }
}

/// The model of the result of a run that yields lines.
pub open spec fn lines_result(
    result: Result<Vec<String>, VcsCommandFailure>,
) -> Result<Seq<Seq<char>>, VcsCommandFailureModel> {
    match result {
        Ok(lines) => Ok(texts(lines@)),
        Err(failure) => Err(failure@),
    }
}

/// What a run with `args` amounts to: the trimmed output of a run that
/// succeeded, the failure otherwise.
pub open spec fn command_result(
    args: Seq<Seq<char>>,
    outcome: ProcessOutcomeModel,
) -> Result<Seq<char>, VcsCommandFailureModel> {
    match outcome {
        ProcessOutcomeModel::NotStarted { reason } => Err(
            VcsCommandFailureModel::Spawn { args, reason },
        ),
        ProcessOutcomeModel::Exited { success, stdout, stderr } => if success {
            Ok(trimmed(utf8_lossy(stdout)))
        } else {
            Err(
                VcsCommandFailureModel::Exit {
                    args,
                    stdout: utf8_lossy(stdout),
                    stderr: utf8_lossy(stderr),
                },
            )
        },
    }
}

/// Reads the outcome of a run of the version-control tool with `args`.
pub fn run_git_command(args: Vec<String>, outcome: &ProcessOutcome) -> (result: Result<
    String,
    VcsCommandFailure,
>)
    ensures
        text_result(result) == command_result(texts(args@), outcome@),
{
    match outcome {
        ProcessOutcome::NotStarted { reason } => Err(
            VcsCommandFailure::Spawn { args, reason: reason.clone() },
        ),
        ProcessOutcome::Exited { success, stdout, stderr } => {
            let out = decode_lossy(stdout.as_slice());
            if *success {
                Ok(String::from_str(trim(out.as_str())))
            } else {
                Err(
                    VcsCommandFailure::Exit {
                        args,
                        stdout: out,
                        stderr: decode_lossy(stderr.as_slice()),
                    },
                )
            }
        },
    }
}

/// A commit range in the tool's notation: the commits reachable from
/// `end` and not from `start`.
pub open spec fn range_of(start: Seq<char>, end: Seq<char>) -> Seq<char> {
    start + ".."@ + end
}

/// The arguments that list the commits of a range, one line for each
/// commit: `- ` and its subject.
pub open spec fn log_args(start: Seq<char>, end: Seq<char>) -> Seq<Seq<char>> {
    seq!["log"@, "--pretty=format:- %s"@, range_of(start, end)]
}

/// The arguments that show the changes of a range as a unified diff, with
/// lock files, images, byte-code caches, dependency directories and the
/// tool's own directory left out.
pub open spec fn diff_args(start: Seq<char>, end: Seq<char>) -> Seq<Seq<char>> {
    seq![
        "diff"@,
        range_of(start, end),
        "--"@,
        "."@,
        ":(exclude)package-lock.json"@,
        ":(exclude)yarn.lock"@,
        ":(exclude)*.png"@,
        ":(exclude)*.jpg"@,
        ":(exclude)*.jpeg"@,
        ":(exclude)*.gif"@,
        ":(exclude)*.svg"@,
        ":(exclude)*.ico"@,
        ":(exclude)__pycache__"@,
        ":(exclude)*.pyc"@,
        ":(exclude)node_modules"@,
        ":(exclude).git"@,
    ]
}

/// The arguments that list the short names of branches and tags.
pub open spec fn refs_args() -> Seq<Seq<char>> {
    seq!["for-each-ref"@, "--format=%(refname:short)"@, "refs/heads"@, "refs/tags"@]
}

/// Writes a commit range in the tool's notation.
pub fn git_range(start: &str, end: &str) -> (range: String)
    ensures
        range@ == range_of(start@, end@),
{
    let mut range = String::from_str(start);
    range.append("..");
    range.append(end);
    range
}

/// Builds the arguments that list the commits of a range.
pub fn git_log_args(start: &str, end: &str) -> (args: Vec<String>)
    ensures
        texts(args@) == log_args(start@, end@),
{
    let mut args: Vec<String> = Vec::new();
    args.push(String::from_str("log"));
    args.push(String::from_str("--pretty=format:- %s"));
    args.push(git_range(start, end));
    args
}

/// Builds the arguments that show the changes of a range.
pub fn git_diff_args(start: &str, end: &str) -> (args: Vec<String>)
    ensures
        texts(args@) == diff_args(start@, end@),
{
    let mut args: Vec<String> = Vec::new();
    args.push(String::from_str("diff"));
    args.push(git_range(start, end));
    args.push(String::from_str("--"));
    args.push(String::from_str("."));
    args.push(String::from_str(":(exclude)package-lock.json"));
    args.push(String::from_str(":(exclude)yarn.lock"));
    args.push(String::from_str(":(exclude)*.png"));
    args.push(String::from_str(":(exclude)*.jpg"));
    args.push(String::from_str(":(exclude)*.jpeg"));
    args.push(String::from_str(":(exclude)*.gif"));
    args.push(String::from_str(":(exclude)*.svg"));
    args.push(String::from_str(":(exclude)*.ico"));
    args.push(String::from_str(":(exclude)__pycache__"));
    args.push(String::from_str(":(exclude)*.pyc"));
    args.push(String::from_str(":(exclude)node_modules"));
    args.push(String::from_str(":(exclude).git"));
    args
}

/// Builds the arguments that list branches and tags.
pub fn git_refs_args() -> (args: Vec<String>)
    ensures
        texts(args@) == refs_args(),
{
    let mut args: Vec<String> = Vec::new();
    args.push(String::from_str("for-each-ref"));
    args.push(String::from_str("--format=%(refname:short)"));
    args.push(String::from_str("refs/heads"));
    args.push(String::from_str("refs/tags"));
    args
}

/// The commit log of the range from `start` to `end`, given the outcome of
/// the run with `git_log_args(start, end)`: the trimmed output, or the
/// failure with those arguments.
pub fn get_git_log(start: &str, end: &str, outcome: &ProcessOutcome) -> (result: Result<
    String,
    VcsCommandFailure,
>)
    ensures
        text_result(result) == command_result(log_args(start@, end@), outcome@),
{
    run_git_command(git_log_args(start, end), outcome)
}

/// The changes of the range from `start` to `end`, given the outcome of
/// the run with `git_diff_args(start, end)`: the trimmed output, or the
/// failure with those arguments.
pub fn get_git_diff(start: &str, end: &str, outcome: &ProcessOutcome) -> (result: Result<
    String,
    VcsCommandFailure,
>)
    ensures
        text_result(result) == command_result(diff_args(start@, end@), outcome@),
{
    run_git_command(git_diff_args(start, end), outcome)
}

/// What a listing of branches and tags amounts to: the lines of the
/// trimmed output.
pub open spec fn refs_result(outcome: ProcessOutcomeModel) -> Result<
    Seq<Seq<char>>,
    VcsCommandFailureModel,
> {
    match command_result(refs_args(), outcome) {
        Ok(text) => Ok(lines_of(text)),
        Err(failure) => Err(failure),
    }
}

/// The branches and tags of the repository, given the outcome of the run
/// with `git_refs_args()`.
pub fn list_git_refs(outcome: &ProcessOutcome) -> (result: Result<Vec<String>, VcsCommandFailure>)
    ensures
        lines_result(result) == refs_result(outcome@),
{
    match run_git_command(git_refs_args(), outcome) {
        Ok(text) => Ok(split_lines(text.as_str())),
        Err(failure) => Err(failure),
    }
}

} // verus!
