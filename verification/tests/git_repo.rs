use ccci::git_utils::{
    commit_signed_and_advance, find_origin, get_local_checkout, prepare_commit, push_to_remote,
    read_signed_commit, setup_repo_builder, signing_key_id, CommitError, PushError, UpstreamError,
};
use std::time::{SystemTime, UNIX_EPOCH};

fn fresh_path(tag: &str) -> String {
    let nanos = SystemTime::now().duration_since(UNIX_EPOCH).unwrap().as_nanos();
    format!("/tmp/ccci_{}_{}", tag, nanos)
}

fn init_repo(path: &str) -> git2::Repository {
    let mut opts = git2::RepositoryInitOptions::new();
    opts.initial_head("main");
    let repo = git2::Repository::init_opts(path, &opts).unwrap();
    {
        let mut cfg = repo.config().unwrap();
        cfg.set_str("user.name", "Bot").unwrap();
        cfg.set_str("user.email", "bot@example.invalid").unwrap();
    }
    {
        let mut index = repo.index().unwrap();
        let tree_id = index.write_tree().unwrap();
        let tree = repo.find_tree(tree_id).unwrap();
        let sig = repo.signature().unwrap();
        repo.commit(Some("HEAD"), &sig, &sig, "init", &tree, &[]).unwrap();
    }
    repo
}

fn stage_unique_file(repo: &git2::Repository, content: &str) {
    let mut index = repo.index().unwrap();
    let entry = git2::IndexEntry {
        ctime: git2::IndexTime::new(0, 0),
        mtime: git2::IndexTime::new(0, 0),
        dev: 0,
        ino: 0,
        mode: 0o100644,
        uid: 0,
        gid: 0,
        file_size: 0,
        id: git2::Oid::ZERO_SHA1,
        flags: 0,
        flags_extended: 0,
        path: b"pkg.lock".to_vec(),
    };
    index.add_frombuffer(&entry, content.as_bytes()).unwrap();
    index.write().unwrap();
    let mut co = git2::build::CheckoutBuilder::new();
    co.force();
    repo.checkout_index(Some(&mut index), Some(&mut co)).unwrap();
}

const DUMMY_SIG: &str =
    "-----BEGIN PGP SIGNATURE-----\n\nbm90IGEgcmVhbCBzaWduYXR1cmU=\n-----END PGP SIGNATURE-----";

#[test]
fn existing_checkout_is_opened_not_recloned() {
    let path = fresh_path("open");
    init_repo(&path);
    let transport = setup_repo_builder("/nonexistent-home", "unused");
    let first = get_local_checkout(&transport, &path, "ssh://invalid.invalid/never-contacted.git").0;
    assert!(first.is_ok());
    let second = get_local_checkout(&transport, &path, "ssh://invalid.invalid/never-contacted.git").0;
    assert!(second.is_ok());
    assert_eq!(
        first.unwrap().path().canonicalize().unwrap(),
        second.unwrap().path().canonicalize().unwrap()
    );
}

#[test]
fn unchanged_tree_means_no_commit_and_head_stays() {
    let path = fresh_path("nochange");
    let repo = init_repo(&path);
    let head_before = repo.head().unwrap().peel_to_commit().unwrap().id();
    let r = prepare_commit(&repo).0.unwrap();
    assert!(r.is_none());
    let head_after = repo.head().unwrap().peel_to_commit().unwrap().id();
    assert_eq!(head_before, head_after);
}

#[test]
fn signed_commit_embeds_exactly_what_was_signed() {
    let path = fresh_path("signed");
    let repo = init_repo(&path);
    let head_before = repo.head().unwrap().peel_to_commit().unwrap().id().to_string();
    stage_unique_file(&repo, &format!("content {}", head_before));

    let prepared = prepare_commit(&repo).0.unwrap().expect("a change was staged");
    assert_eq!(prepared.parent_id, head_before);
    let parent_lines: Vec<&str> =
        prepared.payload.lines().filter(|l| l.starts_with("parent ")).collect();
    assert_eq!(parent_lines, vec![format!("parent {}", head_before).as_str()]);
    assert!(prepared.payload.contains(&format!("tree {}", prepared.tree_id)));

    let id = commit_signed_and_advance(&repo, &prepared.payload, DUMMY_SIG).unwrap();
    let head_after = repo.head().unwrap().peel_to_commit().unwrap().id().to_string();
    assert_eq!(head_after, id);

    let (stored_sig, stored_payload) = read_signed_commit(&repo, &id).unwrap();
    assert_eq!(stored_payload, prepared.payload);
    assert_eq!(stored_sig, DUMMY_SIG.to_string());

    let another = prepare_commit(&repo).0.unwrap();
    assert!(another.is_none());
}

#[test]
fn missing_signing_key_is_its_own_failure() {
    let path = fresh_path("nokey");
    let repo = init_repo(&path);
    assert_eq!(signing_key_id(&repo).0, Err(CommitError::SigningKeyNotConfigured));
    repo.config().unwrap().set_str("user.signingkey", "ABCDEF0123456789").unwrap();
    assert_eq!(signing_key_id(&repo).0, Ok("ABCDEF0123456789".to_string()));
}

#[test]
fn upstream_resolves_to_origin_and_head_branch() {
    let path = fresh_path("upstream");
    let repo = init_repo(&path);
    let head_commit = repo.head().unwrap().peel_to_commit().unwrap();
    repo.branch("feature", &head_commit, false).unwrap();
    repo.remote("origin", "git@example.invalid:demo/demo.git").unwrap();
    {
        let mut cfg = repo.config().unwrap();
        cfg.set_str("branch.main.remote", "origin").unwrap();
        cfg.set_str("branch.main.merge", "refs/heads/main").unwrap();
    }
    let (remote, branch) = find_origin(&repo).0.unwrap();
    assert_eq!(remote.name().unwrap(), Some("origin"));
    assert_eq!(branch, "main".to_string());
}

#[test]
fn missing_upstream_is_reported_not_guessed() {
    let path = fresh_path("noupstream");
    let repo = init_repo(&path);
    assert!(matches!(find_origin(&repo).0, Err(UpstreamError::NoUpstreamConfigured)));
}

#[test]
fn detached_head_has_no_push_target() {
    let path = fresh_path("detached");
    let repo = init_repo(&path);
    let head_id = repo.head().unwrap().peel_to_commit().unwrap().id();
    repo.set_head_detached(head_id).unwrap();
    assert!(matches!(find_origin(&repo).0, Err(UpstreamError::NoHeadBranch)));
}

#[test]
fn push_to_local_upstream_succeeds() {
    let bare_path = fresh_path("bare");
    git2::Repository::init_bare(&bare_path).unwrap();

    let path = fresh_path("pusher");
    let repo = init_repo(&path);
    repo.remote("origin", &bare_path).unwrap();
    {
        let mut cfg = repo.config().unwrap();
        cfg.set_str("branch.main.remote", "origin").unwrap();
        cfg.set_str("branch.main.merge", "refs/heads/main").unwrap();
    }
    let head_before = repo.head().unwrap().peel_to_commit().unwrap().id().to_string();
    stage_unique_file(&repo, &format!("pushed {}", head_before));
    let prepared = prepare_commit(&repo).0.unwrap().expect("a change was staged");
    let id = commit_signed_and_advance(&repo, &prepared.payload, DUMMY_SIG).unwrap();

    let transport = setup_repo_builder("/nonexistent-home", "unused");
    push_to_remote(&repo, &transport).0.unwrap();

    let bare = git2::Repository::open(&bare_path).unwrap();
    let pushed = bare.find_reference("refs/heads/main").unwrap().peel_to_commit().unwrap();
    assert_eq!(pushed.id().to_string(), id);
}

#[test]
fn rejected_push_is_a_failure_not_a_success() {
    let bare_path = fresh_path("bare_reject");
    git2::Repository::init_bare(&bare_path).unwrap();

    let path = fresh_path("rejected");
    let repo = init_repo(&path);
    repo.remote("origin", &bare_path).unwrap();
    {
        let mut cfg = repo.config().unwrap();
        cfg.set_str("branch.main.remote", "origin").unwrap();
        cfg.set_str("branch.main.merge", "refs/heads/main").unwrap();
    }
    let transport = setup_repo_builder("/nonexistent-home", "unused");

    let base = repo.head().unwrap().peel_to_commit().unwrap().id();
    stage_unique_file(&repo, &format!("first {}", base));
    let prepared = prepare_commit(&repo).0.unwrap().expect("a change was staged");
    commit_signed_and_advance(&repo, &prepared.payload, DUMMY_SIG).unwrap();
    push_to_remote(&repo, &transport).0.unwrap();

    // Rewind the local branch and commit a diverging change: the remote is
    // now ahead, so the next push must be rejected as a non-fast-forward.
    repo.find_reference("refs/heads/main").unwrap().set_target(base, "rewind").unwrap();
    repo.reset(
        repo.find_commit(base).unwrap().as_object(),
        git2::ResetType::Hard,
        None,
    )
    .unwrap();
    stage_unique_file(&repo, &format!("second {}", base));
    let prepared2 = prepare_commit(&repo).0.unwrap().expect("a change was staged");
    commit_signed_and_advance(&repo, &prepared2.payload, DUMMY_SIG).unwrap();

    // The file transport refuses the divergence before any per-ref status is
    // reported, so this surfaces as a transport failure; either way the push
    // must never count as a success.
    let r = push_to_remote(&repo, &transport).0;
    assert!(matches!(r, Err(PushError::Rejected(_)) | Err(PushError::Transport(_))));
}
