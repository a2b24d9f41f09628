use ccci::commands::{command_verdict, split_command};
use ccci::git_ext::GitErrorKind;
use ccci::git_utils::{
    classify_clone_failure, head_branch, judge_push, plan_checkout, setup_repo_builder,
    ssh_key_path, CheckoutAction, CheckoutError, PushError,
};

#[test]
fn key_path_is_under_the_home_directory() {
    assert_eq!(ssh_key_path("/home/bee"), "/home/bee/.ssh/id_rsa".to_string());
}

#[test]
fn transport_holds_key_path_and_passphrase() {
    let t = setup_repo_builder("/root", "sesame");
    assert_eq!(t.key_path, "/root/.ssh/id_rsa".to_string());
    assert_eq!(t.passphrase, "sesame".to_string());
}

#[test]
fn valid_probe_plans_reuse() {
    assert_eq!(plan_checkout(&Ok(()), true), Ok(CheckoutAction::OpenExisting));
}

#[test]
fn absent_path_plans_a_clone() {
    assert_eq!(plan_checkout(&Err(GitErrorKind::NotFound), false), Ok(CheckoutAction::CloneFresh));
}

#[test]
fn unopenable_path_is_corrupt_not_recloned() {
    assert_eq!(plan_checkout(&Err(GitErrorKind::Other), true), Err(CheckoutError::CorruptLocalState));
    assert_eq!(plan_checkout(&Err(GitErrorKind::Auth), true), Err(CheckoutError::CorruptLocalState));
    // A path that is on disk but reported not-found is corrupt, not re-cloned.
    assert_eq!(
        plan_checkout(&Err(GitErrorKind::NotFound), true),
        Err(CheckoutError::CorruptLocalState)
    );
}

#[test]
fn clone_failures_keep_their_class() {
    assert_eq!(classify_clone_failure(GitErrorKind::Auth), CheckoutError::AuthenticationFailed);
    assert_eq!(classify_clone_failure(GitErrorKind::Net), CheckoutError::NetworkFailure);
    assert_eq!(classify_clone_failure(GitErrorKind::NotFound), CheckoutError::NotFound);
    assert_eq!(classify_clone_failure(GitErrorKind::Other), CheckoutError::CorruptLocalState);
}

#[test]
fn head_branch_takes_the_flagged_branch() {
    let branches = vec![
        ("feature".to_string(), false),
        ("main".to_string(), true),
        ("hotfix".to_string(), false),
    ];
    assert_eq!(head_branch(&branches), Some(1));
}

#[test]
fn head_branch_without_flag_is_none() {
    let branches = vec![("feature".to_string(), false), ("hotfix".to_string(), false)];
    assert_eq!(head_branch(&branches), None);
    assert_eq!(head_branch(&Vec::new()), None);
}

#[test]
fn clean_status_is_accepted() {
    let statuses = vec![("refs/heads/main".to_string(), None)];
    assert_eq!(judge_push(&"refs/heads/main".to_string(), &statuses), Ok(()));
}

#[test]
fn push_with_no_report_for_the_ref_is_accepted() {
    let statuses: Vec<(String, Option<String>)> = Vec::new();
    assert_eq!(judge_push(&"refs/heads/main".to_string(), &statuses), Ok(()));
}

#[test]
fn rejection_reason_fails_the_push() {
    let statuses = vec![
        ("refs/heads/main".to_string(), Some("non-fast-forward".to_string())),
    ];
    let r = judge_push(&"refs/heads/main".to_string(), &statuses);
    assert_eq!(r, Err(PushError::Rejected("non-fast-forward".to_string())));
}

#[test]
fn rejection_on_another_ref_does_not_count() {
    let statuses = vec![
        ("refs/heads/other".to_string(), Some("pre-receive hook declined".to_string())),
        ("refs/heads/main".to_string(), None),
    ];
    assert_eq!(judge_push(&"refs/heads/main".to_string(), &statuses), Ok(()));
}

#[test]
fn split_command_on_single_spaces() {
    let parts = split_command(b"yarn test");
    assert_eq!(parts, vec![b"yarn".to_vec(), b"test".to_vec()]);
    let parts = split_command(b"yarn gulp build");
    assert_eq!(parts, vec![b"yarn".to_vec(), b"gulp".to_vec(), b"build".to_vec()]);
}

#[test]
fn split_command_keeps_empty_pieces() {
    let parts = split_command(b"a  b");
    assert_eq!(parts, vec![b"a".to_vec(), b"".to_vec(), b"b".to_vec()]);
    assert_eq!(split_command(b""), vec![b"".to_vec()]);
}

#[test]
fn verdict_follows_the_exit_status() {
    assert!(command_verdict("yarn test", true).is_ok());
    let f = command_verdict("yarn test", false).unwrap_err();
    assert_eq!(f.test, "yarn test".to_string());
}
