use gitscribe_core::git::{
    get_git_diff, get_git_log, git_diff_args, git_log_args, git_range, git_refs_args,
    list_git_refs, run_git_command, ProcessOutcome, VcsCommandFailure,
};

fn strings(items: &[&str]) -> Vec<String> {
    items.iter().map(|s| s.to_string()).collect()
}

fn exited(success: bool, stdout: &[u8], stderr: &[u8]) -> ProcessOutcome {
    ProcessOutcome::Exited { success, stdout: stdout.to_vec(), stderr: stderr.to_vec() }
}

#[test]
fn range_has_two_dots() {
    assert_eq!(git_range("v1.0", "HEAD"), "v1.0..HEAD");
    assert_eq!(git_range("", ""), "..");
}

#[test]
fn log_args_ask_for_one_line_per_commit() {
    assert_eq!(git_log_args("a1b2", "c3d4"), strings(&["log", "--pretty=format:- %s", "a1b2..c3d4"]));
}

#[test]
fn diff_args_leave_out_the_noise() {
    assert_eq!(
        git_diff_args("a1b2", "c3d4"),
        strings(&[
            "diff",
            "a1b2..c3d4",
            "--",
            ".",
            ":(exclude)package-lock.json",
            ":(exclude)yarn.lock",
            ":(exclude)*.png",
            ":(exclude)*.jpg",
            ":(exclude)*.jpeg",
            ":(exclude)*.gif",
            ":(exclude)*.svg",
            ":(exclude)*.ico",
            ":(exclude)__pycache__",
            ":(exclude)*.pyc",
            ":(exclude)node_modules",
            ":(exclude).git",
        ])
    );
}

#[test]
fn refs_args_list_branches_and_tags() {
    assert_eq!(
        git_refs_args(),
        strings(&["for-each-ref", "--format=%(refname:short)", "refs/heads", "refs/tags"])
    );
}

#[test]
fn output_of_a_run_that_succeeded_is_trimmed() {
    let result = run_git_command(strings(&["log"]), &exited(true, b"\n- one\n- two\n\n", b"warn"));
    assert_eq!(result, Ok("- one\n- two".to_string()));
}

#[test]
fn malformed_output_is_decoded_with_replacements() {
    let result = run_git_command(strings(&["log"]), &exited(true, b" a\xFFb ", b""));
    assert_eq!(result, Ok("a\u{FFFD}b".to_string()));
}

#[test]
fn a_run_that_exited_with_failure_carries_arguments_and_output() {
    let result =
        run_git_command(strings(&["diff", "x..y"]), &exited(false, b" partial \n", b"fatal: bad\n"));
    assert_eq!(
        result,
        Err(VcsCommandFailure::Exit {
            args: strings(&["diff", "x..y"]),
            stdout: " partial \n".to_string(),
            stderr: "fatal: bad\n".to_string(),
        })
    );
}

#[test]
fn a_run_that_did_not_start_carries_arguments_and_reason() {
    let outcome = ProcessOutcome::NotStarted { reason: "No such file".to_string() };
    assert_eq!(
        run_git_command(strings(&["log"]), &outcome),
        Err(VcsCommandFailure::Spawn { args: strings(&["log"]), reason: "No such file".to_string() })
    );
}

#[test]
fn log_of_two_commits_has_two_lines() {
    let log = get_git_log("a", "b", &exited(true, b"- Fix ABC-12 login bug\n- Bump version\n", b""));
    let log = log.unwrap();
    assert_eq!(log, "- Fix ABC-12 login bug\n- Bump version");
    let lines: Vec<&str> = log.lines().collect();
    assert_eq!(lines.len(), 2);
    assert!(lines.iter().all(|l| l.starts_with("- ")));
}

#[test]
fn log_failure_names_the_log_arguments() {
    let result = get_git_log("a", "b", &exited(false, b"", b"fatal: bad revision"));
    assert_eq!(
        result,
        Err(VcsCommandFailure::Exit {
            args: strings(&["log", "--pretty=format:- %s", "a..b"]),
            stdout: String::new(),
            stderr: "fatal: bad revision".to_string(),
        })
    );
}

#[test]
fn diff_success_and_failure() {
    assert_eq!(
        get_git_diff("a", "b", &exited(true, b"diff --git a/x b/x\n", b"")),
        Ok("diff --git a/x b/x".to_string())
    );
    match get_git_diff("a", "b", &ProcessOutcome::NotStarted { reason: "gone".to_string() }) {
        Err(VcsCommandFailure::Spawn { args, reason }) => {
            assert_eq!(args, git_diff_args("a", "b"));
            assert_eq!(reason, "gone");
        }
        other => panic!("{:?}", other),
    }
}

#[test]
fn refs_are_the_lines_of_the_output() {
    assert_eq!(
        list_git_refs(&exited(true, b"main\ndev\r\nv1.0\n", b"")),
        Ok(strings(&["main", "dev", "v1.0"]))
    );
    assert_eq!(list_git_refs(&exited(true, b"\n", b"")), Ok(Vec::new()));
    assert_eq!(
        list_git_refs(&exited(false, b"", b"not a repo")),
        Err(VcsCommandFailure::Exit {
            args: git_refs_args(),
            stdout: String::new(),
            stderr: "not a repo".to_string(),
        })
    );
}
