//! The making of one release context, step by step: the caller runs the
//! version-control tool and the lookups, the job decides what comes next
//! and assembles the document.

use crate::batch::{BatchModel, FetchBatch};
use crate::context::{document, generate_context, issue_section, render_issue_section};
use crate::git::{
    command_result, diff_args, get_git_diff, get_git_log, git_diff_args, git_log_args, log_args,
    text_result, ProcessOutcome, ProcessOutcomeModel, VcsCommandFailure, VcsCommandFailureModel,
};
use crate::jira::{
    extract_issue_keys, fetch_issue, issue_keys, issue_of_reply, issue_request, opt_config,
    request_of, IssueReply, IssueRequest, JiraConfig, JiraConfigModel,
    JiraIssueModel,
};
use crate::text::{opt_text, texts};
use vstd::prelude::*;
use vstd::string::*;

verus! {

/// Where a job stands.
#[derive(Clone, Copy, Debug, PartialEq, Eq, Structural)]
pub enum JobPhase {
    /// The commit log has been asked for.
    AwaitingLog,
    /// The changes have been asked for.
    AwaitingDiff,
    /// The issues that the log mentions are being looked up.
    AwaitingIssues,
    /// The job has ended.
    Done,
}

/// What the caller does next.
#[derive(Debug, PartialEq, Eq)]
pub enum JobNext {
    /// Run the version-control tool with these arguments and report the
    /// outcome.
    RunGit(Vec<String>),
    /// Start the lookups that may start, and report each as it finishes.
    FetchIssues,
    /// Stop: this is the document, or the failure that ended the job.
    Finish(Result<String, VcsCommandFailure>),
    /// The report did not fit the phase of the job; nothing has changed.
    Idle,
}

/// A `JobNext` as a mathematical value.
pub enum JobNextModel {
    RunGit(Seq<Seq<char>>),
    FetchIssues,
    Finish(Result<Seq<char>, VcsCommandFailureModel>),
    Idle,
}

impl View for JobNext {
    type V = JobNextModel;

    open spec fn view(&self) -> JobNextModel {
        match self {
            JobNext::RunGit(args) => JobNextModel::RunGit(texts(args@)),
            JobNext::FetchIssues => JobNextModel::FetchIssues,
            JobNext::Finish(result) => JobNextModel::Finish(text_result(*result)),
            JobNext::Idle => JobNextModel::Idle,
        }
    }
}

/// The state of a job.
pub struct JobModel {
    pub phase: JobPhase,
    pub start: Seq<char>,
    pub end: Seq<char>,
    pub notes: Option<Seq<char>>,
    pub tracker: Option<JiraConfigModel>,
    pub log: Seq<char>,
    pub diff: Seq<char>,
    pub batch: BatchModel,
}

impl JobModel {
    /// A job that has just asked for the commit log.
    pub open spec fn begin(
        start: Seq<char>,
        end: Seq<char>,
        notes: Option<Seq<char>>,
        tracker: Option<JiraConfigModel>,
    ) -> JobModel {
        JobModel {
            phase: JobPhase::AwaitingLog,
            start,
            end,
            notes,
            tracker,
            log: Seq::empty(),
            diff: Seq::empty(),
            batch: BatchModel::initial(Seq::empty()),
        }
    }

    /// The lookups of the job keep within their bound.
    pub open spec fn wf(self) -> bool {
        self.batch.wf()
    }

    /// The job in another phase.
    pub open spec fn at(self, phase: JobPhase) -> JobModel {
        JobModel { phase, ..self }
    }

    /// The keys to look up once log and changes are there: those that the
    /// log mentions, if a tracker is configured.
    pub open spec fn keys_to_fetch(self) -> Seq<Seq<char>> {
        if self.tracker is Some {
            issue_keys(self.log)
        } else {
            Seq::empty()
        }
    }

    /// The job after the outcome of a run of the version-control tool. A
    /// run that failed ends the job.
    pub open spec fn after_git(self, outcome: ProcessOutcomeModel) -> JobModel {
        match self.phase {
            JobPhase::AwaitingLog => match command_result(
                log_args(self.start, self.end),
                outcome,
            ) {
                Ok(log) => JobModel { phase: JobPhase::AwaitingDiff, log, ..self },
                Err(_) => self.at(JobPhase::Done),
            },
            JobPhase::AwaitingDiff => match command_result(
                diff_args(self.start, self.end),
                outcome,
            ) {
                Ok(diff) => {
                    let with_diff = JobModel { diff, ..self };
                    if with_diff.keys_to_fetch().len() > 0 {
                        JobModel {
                            phase: JobPhase::AwaitingIssues,
                            batch: BatchModel::initial(with_diff.keys_to_fetch()),
                            ..with_diff
                        }
                    } else {
                        with_diff.at(JobPhase::Done)
                    }
                },
                Err(_) => self.at(JobPhase::Done),
            },
            _ => self,
        }
    }

    /// What the job asks for after the outcome of a run of the
    /// version-control tool.
    pub open spec fn git_answer(self, outcome: ProcessOutcomeModel) -> JobNextModel {
        match self.phase {
            JobPhase::AwaitingLog => match command_result(
                log_args(self.start, self.end),
                outcome,
            ) {
                Ok(_) => JobNextModel::RunGit(diff_args(self.start, self.end)),
                Err(failure) => JobNextModel::Finish(Err(failure)),
            },
            JobPhase::AwaitingDiff => match command_result(
                diff_args(self.start, self.end),
                outcome,
            ) {
                Ok(diff) => if self.keys_to_fetch().len() > 0 {
                    JobNextModel::FetchIssues
                } else {
                    JobNextModel::Finish(Ok(document(self.notes, Seq::empty(), self.log, diff)))
                },
                Err(failure) => JobNextModel::Finish(Err(failure)),
            },
            _ => JobNextModel::Idle,
        }
    }

    /// Whether a lookup may start.
    pub open spec fn can_fetch(self) -> bool {
        self.phase == JobPhase::AwaitingIssues && self.tracker is Some && self.batch.can_start()
    }

    /// The job after the next lookup has started, if one may start.
    pub open spec fn after_fetch_started(self) -> JobModel {
        if self.can_fetch() {
            JobModel { batch: self.batch.started(), ..self }
        } else {
            self
        }
    }

    /// The job after a lookup has been reported. When the last lookup is
    /// in, the job ends and lets go of its batch.
    pub open spec fn after_issue(self, index: int, issue: Option<JiraIssueModel>) -> JobModel {
        if self.phase == JobPhase::AwaitingIssues {
            let batch = self.batch.completed(index, issue);
            if batch.finished() {
                JobModel {
                    phase: JobPhase::Done,
                    batch: BatchModel::initial(Seq::empty()),
                    ..self
                }
            } else {
                JobModel { batch, ..self }
            }
        } else {
            self
        }
    }

    /// What the job asks for after a lookup has been reported: the
    /// document once all are in, with the issues in the order of their
    /// keys.
    pub open spec fn issue_answer(self, index: int, issue: Option<JiraIssueModel>) -> JobNextModel {
        if self.phase == JobPhase::AwaitingIssues {
            let batch = self.batch.completed(index, issue);
            if batch.finished() {
                JobNextModel::Finish(
                    Ok(document(self.notes, issue_section(batch.results()), self.log, self.diff)),
                )
            } else {
                JobNextModel::FetchIssues
            }
        } else {
            JobNextModel::Idle
        }
    }
}

/// One lookup to perform.
#[derive(Debug, PartialEq, Eq)]
pub struct IssueFetch {
    /// The index to report the reply under.
    pub index: usize,
    /// What to send.
    pub request: IssueRequest,
}

/// One job: the range, the notes, the tracker if there is one, and what
/// has been gathered so far.
pub struct ContextJob {
    phase: JobPhase,
    start: String,
    end: String,
    notes: Option<String>,
    tracker: Option<JiraConfig>,
    log: String,
    diff: String,
    batch: FetchBatch,
}

impl View for ContextJob {
    type V = JobModel;

    closed spec fn view(&self) -> JobModel {
        JobModel {
            phase: self.phase,
            start: self.start@,
            end: self.end@,
            notes: opt_text(self.notes),
            tracker: opt_config(self.tracker),
            log: self.log@,
            diff: self.diff@,
            batch: self.batch@,
        }
    }
}

impl ContextJob {
    /// Opens a job for the commits after `start` up to `end`. Returns the
    /// job and the arguments of the first run, which lists the commits.
    pub fn new(start: &str, end: &str, notes: Option<String>, tracker: Option<JiraConfig>) -> (opened:
        (ContextJob, Vec<String>))
        ensures
            opened.0@ == JobModel::begin(start@, end@, opt_text(notes), opt_config(tracker)),
            opened.0@.wf(),
            texts(opened.1@) == log_args(start@, end@),
    {
        let job = ContextJob {
            phase: JobPhase::AwaitingLog,
            start: String::from_str(start),
            end: String::from_str(end),
            notes,
            tracker,
            log: String::new(),
            diff: String::new(),
            batch: FetchBatch::empty(),
        };
        (job, git_log_args(start, end))
    }

    /// Where the job stands.
    pub fn phase(&self) -> (phase: JobPhase)
        ensures
            phase == self@.phase,
    {
        self.phase
    }

    /// Takes the outcome of the run that was asked for last and says what
    /// comes next: the run that shows the changes, the lookups, or the end
    /// of the job. A run that failed ends the job with its failure; no
    /// document is made of what was gathered before.
    pub fn on_git(&mut self, outcome: &ProcessOutcome) -> (next: JobNext)
        ensures
            final(self)@ == old(self)@.after_git(outcome@),
            next@ == old(self)@.git_answer(outcome@),
            old(self)@.wf() ==> final(self)@.wf(),
    {
        match self.phase {
            JobPhase::AwaitingLog => {
                match get_git_log(self.start.as_str(), self.end.as_str(), outcome) {
                    Ok(log) => {
                        self.log = log;
                        self.phase = JobPhase::AwaitingDiff;
                        JobNext::RunGit(git_diff_args(self.start.as_str(), self.end.as_str()))
                    },
                    Err(failure) => {
                        self.phase = JobPhase::Done;
                        JobNext::Finish(Err(failure))
                    },
                }
            },
            JobPhase::AwaitingDiff => {
                match get_git_diff(self.start.as_str(), self.end.as_str(), outcome) {
                    Ok(diff) => {
                        self.diff = diff;
                        let keys = match &self.tracker {
                            Some(_) => extract_issue_keys(self.log.as_str()),
                            None => Vec::new(),
                        };
                        if keys.len() > 0 {
                            self.batch = FetchBatch::new(keys);
                            self.phase = JobPhase::AwaitingIssues;
                            JobNext::FetchIssues
                        } else {
                            self.phase = JobPhase::Done;
                            let context = generate_context(
                                self.notes.clone(),
                                "",
                                self.log.as_str(),
                                self.diff.as_str(),
                            );
                            proof {
                                reveal_strlit("");
                            }
                            JobNext::Finish(Ok(context))
                        }
                    },
                    Err(failure) => {
                        self.phase = JobPhase::Done;
                        JobNext::Finish(Err(failure))
                    },
                }
            },
            _ => JobNext::Idle,
        }
    }

    /// Starts the next lookup, if one may start: returns the index to
    /// report it under and the request to send. Returns nothing while as
    /// many lookups are under way as may be, and when none is left to
    /// start.
    pub fn next_fetch(&mut self) -> (fetch: Option<IssueFetch>)
        ensures
            final(self)@ == old(self)@.after_fetch_started(),
            old(self)@.wf() ==> final(self)@.wf(),
            fetch is Some <==> old(self)@.can_fetch(),
            fetch is Some ==> fetch->0.index == old(self)@.batch.first_waiting(),
            fetch is Some ==> fetch->0.request@ == request_of(
                old(self)@.tracker->0,
                old(self)@.batch.keys[old(self)@.batch.first_waiting()],
            ),
    {
        if self.phase != JobPhase::AwaitingIssues {
            return None;
        }
        match &self.tracker {
            None => None,
            Some(config) => {
                match self.batch.start_next() {
                    Some(index) => {
                        match self.batch.key(index) {
                            Some(key) => Some(
                                IssueFetch { index, request: issue_request(config, key.as_str()) },
                            ),
                            None => None,
                        }
                    },
                    None => None,
                }
            },
        }
    }

    /// Takes the reply to the lookup that was started under `index` and
    /// says what comes next: more lookups, or the end of the job with the
    /// document. A lookup that yields no issue is left out of the document
    /// and ends nothing.
    pub fn on_issue(&mut self, index: usize, reply: IssueReply) -> (next: JobNext)
        ensures
            final(self)@ == old(self)@.after_issue(index as int, issue_of_reply(reply)),
            next@ == old(self)@.issue_answer(index as int, issue_of_reply(reply)),
            old(self)@.wf() ==> final(self)@.wf(),
    {
        match self.phase {
            JobPhase::AwaitingIssues => {
                self.batch.complete(index, fetch_issue(reply));
                if self.batch.is_finished() {
                    let mut batch = FetchBatch::empty();
                    core::mem::swap(&mut self.batch, &mut batch);
                    self.phase = JobPhase::Done;
                    let section = render_issue_section(&batch.into_results());
                    JobNext::Finish(
                        Ok(
                            generate_context(
                                self.notes.clone(),
                                section.as_str(),
                                self.log.as_str(),
                                self.diff.as_str(),
                            ),
                        ),
                    )
                } else {
                    JobNext::FetchIssues
                }
            },
            _ => JobNext::Idle,
        }
    }
}

} // verus!
