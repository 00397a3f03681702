//! The release context: one document made of the notes, the linked issues,
//! the commit log and the changes, always in that order.

use crate::jira::{comment_pairs, opt_issue, JiraIssue, JiraIssueModel};
use crate::text::{indent, indented, opt_text};
use vstd::prelude::*;
use vstd::string::*;

verus! {

/// One comment as a list item.
pub open spec fn comment_line(body: Seq<char>) -> Seq<char> {
    "- "@ + indented(body)
}

/// The comments of an issue, one list item each, or a remark that there
/// are none.
pub open spec fn comments_text(comments: Seq<(Seq<char>, Option<Seq<char>>)>) -> Seq<char>
    decreases comments.len(),
{
    if comments.len() == 0 {
        "No comments."@
    } else if comments.len() == 1 {
        comment_line(comments[0].0)
    } else {
        comments_text(comments.drop_last()) + "\n"@ + comment_line(comments.last().0)
    }
}

/// The description of an issue, or a remark that it has none.
pub open spec fn description_text(description: Option<Seq<char>>) -> Seq<char> {
    match description {
        Some(text) => text,
        None => "No description provided."@,
    }
}

/// One issue: a heading with key and summary, type and status, the
/// description, the comments and a rule.
pub open spec fn issue_text(issue: JiraIssueModel) -> Seq<char> {
    "### "@ + issue.key + " "@ + issue.summary + "\n**Type:** "@ + issue.issue_type
        + " | **Status:** "@ + issue.status + "\n\n**Description:**\n"@ + description_text(
        issue.description,
    ) + "\n\n**Comments:**\n"@ + comments_text(issue.comments) + "\n\n---\n"@
}

/// Renders the comments of an issue.
pub fn render_comments(comments: &Vec<(String, Option<String>)>) -> (text: String)
    ensures
        text@ == comments_text(comment_pairs(comments@)),
{
    let ghost pairs = comment_pairs(comments@);
    if comments.len() == 0 {
        return String::from_str("No comments.");
    }
    let mut text = String::from_str("- ");
    text.append(indent(comments[0].0.as_str()).as_str());
    let mut i: usize = 1;
    while i < comments.len()
        invariant
            1 <= i <= comments.len(),
            pairs == comment_pairs(comments@),
            text@ == comments_text(pairs.take(i as int)),
        decreases comments.len() - i,
    {
        assert(pairs.take(i + 1).drop_last() =~= pairs.take(i as int));
        text.append("\n");
        text.append("- ");
        text.append(indent(comments[i].0.as_str()).as_str());
        i = i + 1;
    }
    assert(pairs.take(i as int) =~= pairs);
    text
}

/// Renders one issue.
pub fn render_issue(issue: &JiraIssue) -> (text: String)
    ensures
        text@ == issue_text(issue@),
{
    let mut text = String::from_str("### ");
    text.append(issue.key.as_str());
    text.append(" ");
    text.append(issue.summary.as_str());
    text.append("\n**Type:** ");
    text.append(issue.issue_type.as_str());
    text.append(" | **Status:** ");
    text.append(issue.status.as_str());
    text.append("\n\n**Description:**\n");
    match &issue.description {
        Some(description) => text.append(description.as_str()),
        None => text.append("No description provided."),
    }
    text.append("\n\n**Comments:**\n");
    text.append(render_comments(&issue.comments).as_str());
    text.append("\n\n---\n");
    text
}

/// The models of a run of lookups, each with its issue or without one.
pub open spec fn records(found: Seq<Option<JiraIssue>>) -> Seq<Option<JiraIssueModel>> {
    found.map_values(|r: Option<JiraIssue>| opt_issue(r))
}

/// The issues that were found, each rendered, in the order of the lookups.
/// A lookup without an issue leaves no trace.
pub open spec fn issues_text(found: Seq<Option<JiraIssueModel>>) -> Seq<char>
    decreases found.len(),
{
    if found.len() == 0 {
        Seq::empty()
    } else {
        issues_text(found.drop_last()) + match found.last() {
            Some(issue) => issue_text(issue),
            None => Seq::empty(),
        }
    }
}

/// The part of the document on linked issues: a heading and the issues,
/// or nothing at all where no issue was found.
pub open spec fn issue_section(found: Seq<Option<JiraIssueModel>>) -> Seq<char> {
    let body = issues_text(found);
    if body.len() == 0 {
        Seq::empty()
    } else {
        "\n## Linked Issues\n\n"@ + body
    }
}

/// Renders the part of the document on linked issues from the lookups, in
/// their order.
pub fn render_issue_section(found: &Vec<Option<JiraIssue>>) -> (section: String)
    ensures
        section@ == issue_section(records(found@)),
{
    let ghost all = records(found@);
    let mut body = String::new();
    let mut i: usize = 0;
    while i < found.len()
        invariant
            i <= found.len(),
            all == records(found@),
            body@ == issues_text(all.take(i as int)),
        decreases found.len() - i,
    {
        assert(all.take(i + 1).drop_last() =~= all.take(i as int));
        if let Some(issue) = &found[i] {
            body.append(render_issue(issue).as_str());
        }
        i = i + 1;
    }
    assert(all.take(i as int) =~= all);
    if body.as_str().unicode_len() == 0 {
        body
    } else {
        let mut section = String::from_str("\n## Linked Issues\n\n");
        section.append(body.as_str());
        section
    }
}

/// What stands for the notes where there are none.
pub open spec fn notes_text(notes: Option<Seq<char>>) -> Seq<char> {
    match notes {
        Some(text) => text,
        None => "No adhoc notes provided."@,
    }
}

/// The document: the notes, the part on linked issues, the commit log and
/// the changes as a fenced block, in this order.
pub open spec fn document(
    notes: Option<Seq<char>>,
    section: Seq<char>,
    log: Seq<char>,
    diff: Seq<char>,
) -> Seq<char> {
    "# Release Context\n\n## Strategic Context / Adhoc Notes\n"@ + notes_text(notes) + "\n"@
        + section + "\n## Commit History\n"@ + log + "\n\n## Code Changes\n```diff\n"@ + diff
        + "\n```"@
}

/// Assembles the document. `issue_section` is the part on linked issues,
/// empty where there is none.
pub fn generate_context(
    notes: Option<String>,
    issue_section: &str,
    log_content: &str,
    diff_content: &str,
) -> (context: String)
    ensures
        context@ == document(opt_text(notes), issue_section@, log_content@, diff_content@),
{
    let mut context = String::from_str("# Release Context\n\n## Strategic Context / Adhoc Notes\n");
    match &notes {
        Some(text) => context.append(text.as_str()),
        None => context.append("No adhoc notes provided."),
    }
    context.append("\n");
    context.append(issue_section);
    context.append("\n## Commit History\n");
    context.append(log_content);
    context.append("\n\n## Code Changes\n```diff\n");
    context.append(diff_content);
    context.append("\n```");
    context
}

/// A document with instructions before it, for a reader that takes both
/// as one text.
pub open spec fn prompted(system: Option<Seq<char>>, context: Seq<char>) -> Seq<char> {
    match system {
        Some(prompt) => prompt + "\n\n---\n**Data to Process:**\n\n"@ + context,
        None => context,
    }
}

/// Puts the instructions, if there are any, before the document.
pub fn with_system_prompt(system: Option<&String>, context: String) -> (text: String)
    ensures
        text@ == prompted(
            match system {
                Some(prompt) => Some(prompt@),
                None => None,
            },
            context@,
        ),
{
    match system {
        Some(prompt) => {
            let mut text = prompt.clone();
            text.append("\n\n---\n**Data to Process:**\n\n");
            text.append(context.as_str());
            text
        },
        None => context,
    }
}

/// No lookup found an issue.
pub open spec fn none_found(found: Seq<Option<JiraIssueModel>>) -> bool {
    forall|i: int| 0 <= i < found.len() ==> #[trigger] found[i] is None
}

/// An issue never renders as nothing.
pub proof fn lemma_issue_text_is_not_empty(issue: JiraIssueModel)
    ensures
        issue_text(issue).len() > 0,
{
    reveal_strlit("### ");
}

/// The rendered issues are empty exactly where no lookup found an issue.
pub proof fn lemma_issues_text_empty_iff_none_found(found: Seq<Option<JiraIssueModel>>)
    ensures
        issues_text(found).len() == 0 <==> none_found(found),
    decreases found.len(),
{
    if found.len() > 0 {
        let rest = found.drop_last();
        lemma_issues_text_empty_iff_none_found(rest);
        match found.last() {
            Some(issue) => {
                lemma_issue_text_is_not_empty(issue);
            },
            None => {
                if none_found(rest) {
                    assert forall|i: int| 0 <= i < found.len() implies #[trigger] found[i] is None by {
                        if i < found.len() - 1 {
                            assert(rest[i] is None);
                        }
                    }
                } else {
                    let i = choose|i: int| 0 <= i < rest.len() && !(#[trigger] rest[i] is None);
                    assert(!(found[i] is None));
                }
            },
        }
    }
}

/// The part on linked issues is left out, heading and all, exactly where
/// no lookup found an issue; the document is then the one that is made
/// without a tracker.
pub proof fn lemma_section_is_omitted_iff_none_found(
    notes: Option<Seq<char>>,
    found: Seq<Option<JiraIssueModel>>,
    log: Seq<char>,
    diff: Seq<char>,
)
    ensures
        issue_section(found).len() == 0 <==> none_found(found),
        none_found(found) ==> document(notes, issue_section(found), log, diff) == document(
            notes,
            Seq::empty(),
            log,
            diff,
        ),
        !none_found(found) ==> document(notes, issue_section(found), log, diff).len() > document(
            notes,
            Seq::empty(),
            log,
            diff,
        ).len(),
{
    lemma_issues_text_empty_iff_none_found(found);
    if !none_found(found) {
        reveal_strlit("\n## Linked Issues\n\n");
    }
}

} // verus!
