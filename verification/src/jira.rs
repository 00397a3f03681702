//! Issues of a tracker: the keys that a text mentions, the request for one
//! issue, the reading of the reply, and the rendering of an issue.

use crate::http::{is_success, status_is_success};
use crate::order::{
    is_sorted_set_of, lemma_sorted_set_exists, lemma_sorted_set_ignores_order,
    lemma_sorted_set_is_idempotent, same_elements, sorted_set, sorted_unique,
};
use crate::pattern::{compile, find_all, regex_finds, regex_of};
use crate::text::{opt_text, texts, trim_end_matches, without_trailing};
use vstd::prelude::*;
use vstd::string::*;

verus! {

/// Where the tracker is and the token that opens it.
#[derive(Clone, Debug, PartialEq, Eq)]
pub struct JiraConfig {
    pub url: String,
    pub pat: String,
}

/// A `JiraConfig` as a mathematical value.
pub struct JiraConfigModel {
    pub url: Seq<char>,
    pub pat: Seq<char>,
}

impl View for JiraConfig {
    type V = JiraConfigModel;

    open spec fn view(&self) -> JiraConfigModel {
        JiraConfigModel { url: self.url@, pat: self.pat@ }
    }
}

/// The model of a configuration that may be absent.
pub open spec fn opt_config(config: Option<JiraConfig>) -> Option<JiraConfigModel> {
    match config {
        Some(c) => Some(c@),
        None => None,
    }
}

/// The pattern of an issue key: an upper-case letter, upper-case letters
/// or digits, a hyphen and digits, as a word of its own.
pub const ISSUE_KEY_PATTERN: &'static str = "\\b[A-Z][A-Z0-9]+-\\d+\\b";

/// The issue keys as they occur in a text, from left to right.
pub open spec fn issue_key_matches(text: Seq<char>) -> Seq<Seq<char>> {
    match regex_of(ISSUE_KEY_PATTERN@) {
        Some(re) => regex_finds(re, text),
        None => Seq::empty(),
    }
}

/// Finds the issue keys as they occur in a text, from left to right.
pub fn find_issue_keys(text: &str) -> (matches: Vec<String>)
    ensures
        texts(matches@) == issue_key_matches(text@),
{
    match compile(ISSUE_KEY_PATTERN) {
        Ok(re) => find_all(&re, text),
        Err(_) => Vec::new(),
    }
}

/// The issue keys that a text mentions, sorted and each once.
pub open spec fn issue_keys(text: Seq<char>) -> Seq<Seq<char>> {
    sorted_set(issue_key_matches(text))
}

/// Finds the issue keys that a text mentions, sorted and each once.
pub fn extract_issue_keys(text: &str) -> (keys: Vec<String>)
    ensures
        texts(keys@) == issue_keys(text@),
        is_sorted_set_of(texts(keys@), issue_key_matches(text@)),
{
    sorted_unique(&find_issue_keys(text))
}

/// The keys of a text are sorted and without repeats, they are the keys
/// that occur in it, and sorting them and dropping repeats once more gives
/// the same keys.
pub proof fn lemma_issue_keys_are_normal(text: Seq<char>)
    ensures
        is_sorted_set_of(issue_keys(text), issue_key_matches(text)),
        sorted_set(issue_keys(text)) == issue_keys(text),
{
    lemma_sorted_set_exists(issue_key_matches(text));
    lemma_sorted_set_is_idempotent(issue_key_matches(text));
}

/// Texts that mention the same keys have the same keys, in whatever order
/// and however often each text mentions them.
pub proof fn lemma_issue_keys_ignore_order(text: Seq<char>, other: Seq<char>)
    requires
        same_elements(issue_key_matches(text), issue_key_matches(other)),
    ensures
        issue_keys(text) == issue_keys(other),
{
    lemma_sorted_set_ignores_order(issue_key_matches(text), issue_key_matches(other));
}

/// One issue as the library keeps it.
#[derive(Debug, PartialEq, Eq)]
pub struct JiraIssue {
    pub key: String,
    pub summary: String,
    pub description: Option<String>,
    pub status: String,
    pub issue_type: String,
    /// The comments in their order: the body, and when it was last changed.
    pub comments: Vec<(String, Option<String>)>,
    pub updated: String,
    pub resolution_date: Option<String>,
}

/// A `JiraIssue` as a mathematical value.
pub struct JiraIssueModel {
    pub key: Seq<char>,
    pub summary: Seq<char>,
    pub description: Option<Seq<char>>,
    pub status: Seq<char>,
    pub issue_type: Seq<char>,
    pub comments: Seq<(Seq<char>, Option<Seq<char>>)>,
    pub updated: Seq<char>,
    pub resolution_date: Option<Seq<char>>,
}

/// The model of a run of comments.
pub open spec fn comment_pairs(comments: Seq<(String, Option<String>)>) -> Seq<
    (Seq<char>, Option<Seq<char>>),
> {
    comments.map_values(|c: (String, Option<String>)| (c.0@, opt_text(c.1)))
}

impl View for JiraIssue {
    type V = JiraIssueModel;

    open spec fn view(&self) -> JiraIssueModel {
        JiraIssueModel {
            key: self.key@,
            summary: self.summary@,
            description: opt_text(self.description),
            status: self.status@,
            issue_type: self.issue_type@,
            comments: comment_pairs(self.comments@),
            updated: self.updated@,
            resolution_date: opt_text(self.resolution_date),
        }
    }
}

/// The model of an issue that may be absent.
pub open spec fn opt_issue(issue: Option<JiraIssue>) -> Option<JiraIssueModel> {
    match issue {
        Some(i) => Some(i@),
        None => None,
    }
}

/// A comment as the tracker sends it.
#[derive(Debug, PartialEq, Eq)]
pub struct JiraComment {
    pub body: String,
    pub updated: Option<String>,
}

/// The comments of an issue as the tracker sends them.
#[derive(Debug, PartialEq, Eq)]
pub struct JiraCommentContainer {
    pub comments: Vec<JiraComment>,
}

/// A status as the tracker sends it.
#[derive(Debug, PartialEq, Eq)]
pub struct JiraStatus {
    pub name: String,
}

/// An issue type as the tracker sends it.
#[derive(Debug, PartialEq, Eq)]
pub struct JiraType {
    pub name: String,
}

/// The fields of an issue as the tracker sends them.
#[derive(Debug, PartialEq, Eq)]
pub struct JiraIssueFields {
    pub summary: String,
    pub description: Option<String>,
    pub status: JiraStatus,
    pub issuetype: JiraType,
    pub comment: Option<JiraCommentContainer>,
    pub updated: String,
    pub resolutiondate: Option<String>,
}

/// An issue as the tracker sends it.
#[derive(Debug, PartialEq, Eq)]
pub struct JiraApiResponse {
    pub key: String,
    pub fields: JiraIssueFields,
}

/// The comments that were sent, as pairs of body and date.
pub open spec fn sent_comments(comments: Seq<JiraComment>) -> Seq<(Seq<char>, Option<Seq<char>>)> {
    comments.map_values(|c: JiraComment| (c.body@, opt_text(c.updated)))
}

/// The issue that a reply of the tracker describes. An issue that was sent
/// without comments has none.
pub open spec fn issue_of(response: JiraApiResponse) -> JiraIssueModel {
    JiraIssueModel {
        key: response.key@,
        summary: response.fields.summary@,
        description: opt_text(response.fields.description),
        status: response.fields.status.name@,
        issue_type: response.fields.issuetype.name@,
        comments: match response.fields.comment {
            Some(container) => sent_comments(container.comments@),
            None => Seq::empty(),
        },
        updated: response.fields.updated@,
        resolution_date: opt_text(response.fields.resolutiondate),
    }
}

/// Turns what the tracker sent into an issue.
pub fn issue_from_response(response: JiraApiResponse) -> (issue: JiraIssue)
    ensures
        issue@ == issue_of(response),
{
    let mut comments: Vec<(String, Option<String>)> = Vec::new();
    match response.fields.comment {
        Some(container) => {
            let ghost all = container.comments@;
            for comment in it: container.comments
                invariant
                    it.seq() == all,
                    it.index() <= all.len(),
                    comment_pairs(comments@) == sent_comments(all).take(it.index() as int),
            {
                let ghost i = it.index() as int;
                let ghost before = comment_pairs(comments@);
                comments.push((comment.body, comment.updated));
                proof {
                    assert(comment_pairs(comments@) =~= before.push(
                        (comment.body@, opt_text(comment.updated)),
                    ));
                    assert(sent_comments(all).take(i + 1) =~= sent_comments(all).take(i).push(
                        sent_comments(all)[i],
                    ));
                }
            }
            assert(sent_comments(all).take(all.len() as int) =~= sent_comments(all));
        },
        None => {
            assert(comment_pairs(comments@) =~= Seq::empty());
        },
    }
    JiraIssue {
        key: response.key,
        summary: response.fields.summary,
        description: response.fields.description,
        status: response.fields.status.name,
        issue_type: response.fields.issuetype.name,
        comments,
        updated: response.fields.updated,
        resolution_date: response.fields.resolutiondate,
    }
}

impl JiraConfig {
    /// The configuration that an address and a token make: one, if both
    /// are given and neither is empty; none otherwise, so that half a
    /// configuration is no configuration.
    pub fn from_parts(url: Option<String>, pat: Option<String>) -> (config: Option<JiraConfig>)
        ensures
            config is Some <==> (url is Some && pat is Some && url->0@.len() > 0 && pat->0@.len()
                > 0),
            config is Some ==> config->0.url == url->0 && config->0.pat == pat->0,
    {
        match (url, pat) {
            (Some(url), Some(pat)) => {
                if url.as_str().unicode_len() > 0 && pat.as_str().unicode_len() > 0 {
                    Some(JiraConfig { url, pat })
                } else {
                    None
                }
            },
            _ => None,
        }
    }
}

/// What is sent to read one issue: a GET of `url` with these two headers.
#[derive(Debug, PartialEq, Eq)]
pub struct IssueRequest {
    pub url: String,
    pub authorization: String,
    pub accept: String,
}

/// The address of the issue `key` at the tracker at `base`.
pub open spec fn issue_url(base: Seq<char>, key: Seq<char>) -> Seq<char> {
    without_trailing(base, '/') + "/rest/api/2/issue/"@ + key
}

/// An `IssueRequest` as a mathematical value.
pub struct IssueRequestModel {
    pub url: Seq<char>,
    pub authorization: Seq<char>,
    pub accept: Seq<char>,
}

impl View for IssueRequest {
    type V = IssueRequestModel;

    open spec fn view(&self) -> IssueRequestModel {
        IssueRequestModel {
            url: self.url@,
            authorization: self.authorization@,
            accept: self.accept@,
        }
    }
}

/// The request for the issue `key`: its address, the token as a bearer
/// credential, and JSON as the form of the answer.
pub open spec fn request_of(config: JiraConfigModel, key: Seq<char>) -> IssueRequestModel {
    IssueRequestModel {
        url: issue_url(config.url, key),
        authorization: "Bearer "@ + config.pat,
        accept: "application/json"@,
    }
}

/// Builds the request for one issue.
pub fn issue_request(config: &JiraConfig, key: &str) -> (request: IssueRequest)
    ensures
        request@ == request_of(config@, key@),
{
    let mut url = String::from_str(trim_end_matches(config.url.as_str(), '/'));
    url.append("/rest/api/2/issue/");
    url.append(key);
    let mut authorization = String::from_str("Bearer ");
    authorization.append(config.pat.as_str());
    IssueRequest { url, authorization, accept: String::from_str("application/json") }
}

/// What came back for one issue.
#[derive(Debug, PartialEq, Eq)]
pub enum IssueReply {
    /// The tracker could not be reached.
    Unreachable,
    /// The tracker answered with this status; `body` is the issue that its
    /// body describes, if it describes one.
    Answered { status: u16, body: Option<JiraApiResponse> },
}

/// The issue that a reply yields: the one it describes, if the status is a
/// success; none in every other case.
pub open spec fn issue_of_reply(reply: IssueReply) -> Option<JiraIssueModel> {
    match reply {
        IssueReply::Answered { status, body: Some(response) } => if is_success(status) {
            Some(issue_of(response))
        } else {
            None
        },
        _ => None,
    }
}

/// Reads the reply to the request for one issue. A tracker that cannot be
/// reached, a status that is no success and a body that describes no issue
/// all yield no issue; none of them is an error.
pub fn fetch_issue(reply: IssueReply) -> (issue: Option<JiraIssue>)
    ensures
        opt_issue(issue) == issue_of_reply(reply),
{
    match reply {
        IssueReply::Unreachable => None,
        IssueReply::Answered { status, body } => {
            if status_is_success(status) {
                match body {
                    Some(response) => Some(issue_from_response(response)),
                    None => None,
                }
            } else {
                None
            }
        },
    }
}

} // verus!
