use gitscribe_core::jira::{
    extract_issue_keys, fetch_issue, issue_from_response, issue_request, IssueReply, IssueRequest,
    JiraApiResponse, JiraComment, JiraCommentContainer, JiraConfig, JiraIssue, JiraIssueFields,
    JiraStatus, JiraType, ISSUE_KEY_PATTERN,
};

fn strings(items: &[&str]) -> Vec<String> {
    items.iter().map(|s| s.to_string()).collect()
}

fn response() -> JiraApiResponse {
    JiraApiResponse {
        key: "ABC-12".to_string(),
        fields: JiraIssueFields {
            summary: "Login fails".to_string(),
            description: Some("Steps".to_string()),
            status: JiraStatus { name: "Done".to_string() },
            issuetype: JiraType { name: "Bug".to_string() },
            comment: Some(JiraCommentContainer {
                comments: vec![
                    JiraComment { body: "first".to_string(), updated: Some("2024-01-01".to_string()) },
                    JiraComment { body: "second".to_string(), updated: None },
                ],
            }),
            updated: "2024-01-02".to_string(),
            resolutiondate: Some("2024-01-03".to_string()),
        },
    }
}

fn issue() -> JiraIssue {
    JiraIssue {
        key: "ABC-12".to_string(),
        summary: "Login fails".to_string(),
        description: Some("Steps".to_string()),
        status: "Done".to_string(),
        issue_type: "Bug".to_string(),
        comments: vec![
            ("first".to_string(), Some("2024-01-01".to_string())),
            ("second".to_string(), None),
        ],
        updated: "2024-01-02".to_string(),
        resolution_date: Some("2024-01-03".to_string()),
    }
}

#[test]
fn pattern_is_the_documented_one() {
    assert_eq!(ISSUE_KEY_PATTERN, r"\b[A-Z][A-Z0-9]+-\d+\b");
}

#[test]
fn extract_of_empty_text_is_empty() {
    assert_eq!(extract_issue_keys(""), Vec::<String>::new());
}

#[test]
fn extract_finds_sorts_and_drops_repeats() {
    let log = "- Fix PROJ-123 crash\n- ARC-404: not found\n- PROJ-123 again\n- Fix ABC-12 login bug";
    assert_eq!(extract_issue_keys(log), strings(&["ABC-12", "ARC-404", "PROJ-123"]));
}

#[test]
fn extract_is_case_sensitive_and_wants_whole_words() {
    assert_eq!(extract_issue_keys("abc-12 Abc-12 aBC-12"), Vec::<String>::new());
    assert_eq!(extract_issue_keys("xABC-12 ABC-12x A-1 ABC- -12 ABC12"), Vec::<String>::new());
    assert_eq!(extract_issue_keys("(AB-1),[A2B-22]. AB-1!"), strings(&["A2B-22", "AB-1"]));
}

#[test]
fn extract_orders_by_bytes() {
    assert_eq!(extract_issue_keys("ABC-2 ABC-12 ABC-100"), strings(&["ABC-100", "ABC-12", "ABC-2"]));
}

#[test]
fn extract_of_its_own_result_is_the_same() {
    let keys = extract_issue_keys("ZZ-9 then AA-1 and ZZ-9, MM-5");
    let again = extract_issue_keys(&keys.join(" "));
    assert_eq!(keys, again);
    assert_eq!(keys, strings(&["AA-1", "MM-5", "ZZ-9"]));
}

#[test]
fn extract_ignores_order_and_repeats_of_mentions() {
    let one = extract_issue_keys("AA-1 BB-2 CC-3 AA-1");
    let other = extract_issue_keys("CC-3 CC-3 BB-2 AA-1 BB-2");
    assert_eq!(one, other);
}

#[test]
fn config_wants_both_parts() {
    let url = || Some("https://t".to_string());
    let pat = || Some("secret".to_string());
    assert_eq!(
        JiraConfig::from_parts(url(), pat()),
        Some(JiraConfig { url: "https://t".to_string(), pat: "secret".to_string() })
    );
    assert_eq!(JiraConfig::from_parts(url(), None), None);
    assert_eq!(JiraConfig::from_parts(None, pat()), None);
    assert_eq!(JiraConfig::from_parts(None, None), None);
    assert_eq!(JiraConfig::from_parts(Some(String::new()), pat()), None);
    assert_eq!(JiraConfig::from_parts(url(), Some(String::new())), None);
}

#[test]
fn request_names_address_and_headers() {
    let config = JiraConfig { url: "https://tracker.example/".to_string(), pat: "tok".to_string() };
    assert_eq!(
        issue_request(&config, "ABC-12"),
        IssueRequest {
            url: "https://tracker.example/rest/api/2/issue/ABC-12".to_string(),
            authorization: "Bearer tok".to_string(),
            accept: "application/json".to_string(),
        }
    );
    let config = JiraConfig { url: "https://tracker.example".to_string(), pat: "tok".to_string() };
    assert_eq!(issue_request(&config, "X-1").url, "https://tracker.example/rest/api/2/issue/X-1");
}

#[test]
fn response_becomes_issue() {
    assert_eq!(issue_from_response(response()), issue());
}

#[test]
fn response_without_comments_has_none() {
    let mut sent = response();
    sent.fields.comment = None;
    sent.fields.description = None;
    sent.fields.resolutiondate = None;
    let got = issue_from_response(sent);
    assert_eq!(got.comments, Vec::new());
    assert_eq!(got.description, None);
    assert_eq!(got.resolution_date, None);
    assert_eq!(got.key, "ABC-12");
}

#[test]
fn success_with_a_body_yields_the_issue() {
    assert_eq!(fetch_issue(IssueReply::Answered { status: 200, body: Some(response()) }), Some(issue()));
}

#[test]
fn every_other_reply_yields_none() {
    assert_eq!(fetch_issue(IssueReply::Unreachable), None);
    assert_eq!(fetch_issue(IssueReply::Answered { status: 200, body: None }), None);
    assert_eq!(fetch_issue(IssueReply::Answered { status: 404, body: Some(response()) }), None);
    assert_eq!(fetch_issue(IssueReply::Answered { status: 500, body: None }), None);
    assert_eq!(fetch_issue(IssueReply::Answered { status: 301, body: Some(response()) }), None);
}

#[test]
fn extract_agrees_with_the_regex_crate() {
    let re = regex::Regex::new(ISSUE_KEY_PATTERN).unwrap();
    let texts = [
        "",
        "Fix ABC-12 login bug",
        "AB-\u{0661}\u{0662} and CD-7",
        "\u{00C9}AB-1 AB-1\u{00E9} AB-1",
        "A1-2-3 X-1 XY-1Z XY_Z-1",
        "JIRA-1,JIRA-2;JIRA-1\nJIRA-10",
    ];
    for text in texts {
        let mut expected: Vec<String> = re.find_iter(text).map(|m| m.as_str().to_string()).collect();
        expected.sort();
        expected.dedup();
        assert_eq!(extract_issue_keys(text), expected, "{:?}", text);
    }
}
