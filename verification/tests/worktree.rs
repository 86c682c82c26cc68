use oc_outpost::worktree::{
    delete_failure_tolerated, remove_failure_tolerated, sanitize_branch_name, worktree_add_args, worktree_remove_args,
};

#[test]
fn test_sanitize_branch_name_spaces() {
    assert_eq!(sanitize_branch_name("my topic name"), "my-topic-name");
}

#[test]
fn test_sanitize_branch_name_uppercase() {
    assert_eq!(sanitize_branch_name("MyTopic"), "mytopic");
}

#[test]
fn test_sanitize_branch_name_special_chars() {
    assert_eq!(sanitize_branch_name("feat/my.topic@v2"), "feat-my-topic-v2");
}

#[test]
fn test_sanitize_branch_name_leading_trailing() {
    assert_eq!(sanitize_branch_name("--my-topic--"), "my-topic");
}

#[test]
fn test_is_git_repo_false() {
    assert!(!oc_outpost::worktree::is_git_repo("/nonexistent-directory-for-oc-outpost-tests"));
}

#[test]
fn git_arguments_and_tolerated_failures() {
    assert_eq!(worktree_add_args("/b/.worktrees/x", "wt/x"), vec!["worktree", "add", "/b/.worktrees/x", "-b", "wt/x"]);
    assert_eq!(worktree_remove_args("/w"), vec!["worktree", "remove", "--force", "/w"]);
    assert!(remove_failure_tolerated("fatal: '/w' is not a working tree"));
    assert!(!remove_failure_tolerated("fatal: other"));
    assert!(delete_failure_tolerated("error: branch 'wt/x' not found."));
}

#[test]
fn sanitized_ascii_names_are_lowercase_and_stable() {
    for name in ["My Project!", "a  b", "--Feature/X_1--", "already-ok", "ABC"] {
        let r = sanitize_branch_name(name);
        assert!(r.chars().all(|c| c.is_ascii_lowercase() || c.is_ascii_digit() || c == '-'));
        assert!(!r.starts_with('-') && !r.ends_with('-'));
        assert!(r.len() <= name.len());
        assert_eq!(sanitize_branch_name(&r), r);
    }
    assert_eq!(sanitize_branch_name("a  b"), "a--b");
}
