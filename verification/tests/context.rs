use gitscribe_core::context::{
    generate_context, render_comments, render_issue, render_issue_section, with_system_prompt,
};
use gitscribe_core::jira::JiraIssue;

fn issue(key: &str) -> JiraIssue {
    JiraIssue {
        key: key.to_string(),
        summary: "Login fails".to_string(),
        description: Some("Steps".to_string()),
        status: "Done".to_string(),
        issue_type: "Bug".to_string(),
        comments: vec![
            ("first\nline".to_string(), Some("2024-01-01".to_string())),
            ("second".to_string(), None),
        ],
        updated: "2024-01-02".to_string(),
        resolution_date: None,
    }
}

fn bare(key: &str) -> JiraIssue {
    JiraIssue {
        key: key.to_string(),
        summary: "S".to_string(),
        description: None,
        status: "Open".to_string(),
        issue_type: "Task".to_string(),
        comments: Vec::new(),
        updated: String::new(),
        resolution_date: None,
    }
}

#[test]
fn comments_render_as_list_items() {
    assert_eq!(render_comments(&issue("A-1").comments), "- first\n  line\n- second");
    assert_eq!(render_comments(&Vec::new()), "No comments.");
    assert_eq!(render_comments(&vec![("only".to_string(), None)]), "- only");
}

#[test]
fn issue_renders_in_full() {
    assert_eq!(
        render_issue(&issue("ABC-12")),
        "### ABC-12 Login fails\n**Type:** Bug | **Status:** Done\n\n**Description:**\nSteps\n\n**Comments:**\n- first\n  line\n- second\n\n---\n"
    );
}

#[test]
fn issue_without_description_and_comments() {
    assert_eq!(
        render_issue(&bare("X-1")),
        "### X-1 S\n**Type:** Task | **Status:** Open\n\n**Description:**\nNo description provided.\n\n**Comments:**\nNo comments.\n\n---\n"
    );
}

#[test]
fn section_lists_found_issues_in_order() {
    let found = vec![Some(bare("A-1")), None, Some(bare("B-2"))];
    let expected = format!("\n## Linked Issues\n\n{}{}", render_issue(&bare("A-1")), render_issue(&bare("B-2")));
    assert_eq!(render_issue_section(&found), expected);
}

#[test]
fn section_is_omitted_when_nothing_was_found() {
    assert_eq!(render_issue_section(&Vec::new()), "");
    assert_eq!(render_issue_section(&vec![None]), "");
    assert_eq!(render_issue_section(&vec![None, None, None]), "");
}

#[test]
fn document_without_issues() {
    assert_eq!(
        generate_context(Some("Big release".to_string()), "", "- one\n- two", "diff --git"),
        "# Release Context\n\n## Strategic Context / Adhoc Notes\nBig release\n\n## Commit History\n- one\n- two\n\n## Code Changes\n```diff\ndiff --git\n```"
    );
}

#[test]
fn document_without_notes_has_the_placeholder() {
    assert_eq!(
        generate_context(None, "", "", ""),
        "# Release Context\n\n## Strategic Context / Adhoc Notes\nNo adhoc notes provided.\n\n## Commit History\n\n\n## Code Changes\n```diff\n\n```"
    );
}

#[test]
fn document_with_issues_has_them_between_notes_and_log() {
    let section = render_issue_section(&vec![Some(bare("A-1"))]);
    let doc = generate_context(Some("N".to_string()), &section, "L", "D");
    let expected = format!(
        "# Release Context\n\n## Strategic Context / Adhoc Notes\nN\n\n## Linked Issues\n\n{}\n## Commit History\nL\n\n## Code Changes\n```diff\nD\n```",
        render_issue(&bare("A-1"))
    );
    assert_eq!(doc, expected);
    let notes = doc.find("## Strategic Context").unwrap();
    let issues = doc.find("## Linked Issues").unwrap();
    let log = doc.find("## Commit History").unwrap();
    let diff = doc.find("## Code Changes").unwrap();
    assert!(notes < issues && issues < log && log < diff);
}

#[test]
fn identical_inputs_give_identical_documents() {
    let make = || {
        let section = render_issue_section(&vec![Some(issue("A-1")), None, Some(bare("B-2"))]);
        generate_context(Some("notes".to_string()), &section, "- a\n- b", "+x\n-y")
    };
    let first = make();
    for _ in 0..5 {
        assert_eq!(make().as_bytes(), first.as_bytes());
    }
}

#[test]
fn zero_and_one_found_issue_differ_by_the_section() {
    let zero = generate_context(None, &render_issue_section(&vec![None]), "L", "D");
    let one = generate_context(None, &render_issue_section(&vec![Some(bare("A-1"))]), "L", "D");
    assert_eq!(zero, generate_context(None, "", "L", "D"));
    assert!(!zero.contains("## Linked Issues"));
    assert!(one.contains("## Linked Issues"));
    assert!(one.len() > zero.len());
}

#[test]
fn instructions_go_before_the_document() {
    let prompt = "Write notes.".to_string();
    assert_eq!(
        with_system_prompt(Some(&prompt), "DOC".to_string()),
        "Write notes.\n\n---\n**Data to Process:**\n\nDOC"
    );
    assert_eq!(with_system_prompt(None, "DOC".to_string()), "DOC");
}
