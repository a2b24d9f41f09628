//! Trusted boundary around libgit2 (through the `git2` crate).
//!
//! Everything verified about repositories goes through the wrappers in this
//! module.  Each wrapper's contract states only what the `git2` source and
//! documentation show of the call; the orchestration and every decision taken
//! on the results live in verified code elsewhere in the crate.

use std::path::Path;
use vstd::prelude::*;

verus! {

#[verifier::external_type_specification]
#[verifier::external_body]
pub struct ExRepository(git2::Repository);

#[verifier::external_type_specification]
#[verifier::external_body]
pub struct ExIndex(git2::Index);

#[verifier::external_type_specification]
#[verifier::external_body]
pub struct ExRemote<'a>(git2::Remote<'a>);

#[verifier::external_type_specification]
#[verifier::external_body]
pub struct ExGitError(git2::Error);

/// The classes of `git2::Error` that the pipeline's decisions depend on.
#[derive(Clone, Copy, Debug, PartialEq, Eq, Structural)]
pub enum GitErrorKind {
    NotFound,
    Auth,
    Net,
    Other,
}

/// The parent commit ids that a serialized commit payload records, in order.
/// A payload is plain text in git's commit object format, so this is a
/// function of the payload alone.
pub uninterp spec fn payload_parent_ids(payload: Seq<char>) -> Seq<Seq<char>>;

/// The tree id that a serialized commit payload records; a function of the
/// payload alone, as for `payload_parent_ids`.
pub uninterp spec fn payload_tree_id(payload: Seq<char>) -> Seq<char>;

/// The unsigned payload stored in the signed commit object named by a commit
/// id.  Git object ids are content hashes, so the id determines the stored
/// content; this and `sig_of_commit` are its two projections.
pub uninterp spec fn payload_of_commit(id: Seq<char>) -> Seq<char>;

/// The detached signature embedded in the signed commit object named by a
/// commit id.
pub uninterp spec fn sig_of_commit(id: Seq<char>) -> Seq<char>;

/// A character of a canonical object id: a lowercase hexadecimal digit.
pub open spec fn is_id_char(c: char) -> bool {
    (48 <= c as int && c as int <= 57) || (97 <= c as int && c as int <= 102)
}

/// A canonical object id as libgit2 prints one: exactly forty lowercase
/// hexadecimal digits.  `Oid::from_str` also accepts other spellings of the
/// same id (uppercase, short forms), but the payloads and ids the wrappers
/// return are always in this form.
pub open spec fn is_canonical_id(s: Seq<char>) -> bool {
    s.len() == 40 && forall|k: int| 0 <= k < s.len() ==> is_id_char(#[trigger] s[k])
}

/// Whether some line of the text begins with the signature field name
/// `gpgsig`.  A commit payload carrying such a line already holds a
/// signature, and attaching a second one would not round-trip through
/// extraction, so the signing wrapper refuses such payloads.
pub open spec fn gpgsig_line_at(s: Seq<char>, i: int) -> bool {
    &&& 0 <= i
    &&& i + 6 <= s.len()
    &&& (i == 0 || s[i - 1] == '\n')
    &&& s[i] == 'g'
    &&& s[i + 1] == 'p'
    &&& s[i + 2] == 'g'
    &&& s[i + 3] == 's'
    &&& s[i + 4] == 'i'
    &&& s[i + 5] == 'g'
}

/// Whether any line of the text begins with `gpgsig`.
pub open spec fn has_gpgsig_line(s: Seq<char>) -> bool {
    exists|i: int| gpgsig_line_at(s, i)
}

/// Relies on `git2::Repository::open`: opens the repository at `path`.
#[verifier::external_body]
pub(crate) fn repo_open(path: &str) -> Result<git2::Repository, git2::Error> {
    git2::Repository::open(Path::new(path))
}

/// Relies on `git2::build::RepoBuilder::clone`, with `FetchOptions` whose
/// `RemoteCallbacks` answer credential requests through `git2::Cred::ssh_key`
/// using the given key file and passphrase.
#[verifier::external_body]
pub(crate) fn repo_clone(
    url: &str,
    path: &str,
    key_path: &str,
    passphrase: &str,
) -> Result<git2::Repository, git2::Error> {
    let key = key_path.to_string();
    let pass = passphrase.to_string();
    let mut callbacks = git2::RemoteCallbacks::new();
    callbacks.credentials(move |_url, username_from_url, _allowed| {
        git2::Cred::ssh_key(username_from_url.unwrap_or("git"), None, Path::new(&key), Some(&pass))
    });
    let mut fetch_opts = git2::FetchOptions::new();
    fetch_opts.remote_callbacks(callbacks);
    let mut builder = git2::build::RepoBuilder::new();
    builder.fetch_options(fetch_opts);
    builder.clone(url, Path::new(path))
}

/// Relies on `std::path::Path::exists`: whether anything is on disk at the
/// path.  What is on disk is outside the library, so nothing is stated of
/// the result; the caller's contract speaks of whatever came back.
#[verifier::external_body]
pub(crate) fn path_exists(path: &str) -> bool {
    Path::new(path).exists()
}

/// Relies on `git2::Error::code` and `git2::Error::class`: maps the error
/// classes the pipeline reacts to, one arm per class.
#[verifier::external_body]
pub(crate) fn error_kind(e: &git2::Error) -> GitErrorKind {
    match (e.code(), e.class()) {
        (git2::ErrorCode::NotFound, _) => GitErrorKind::NotFound,
        (git2::ErrorCode::Auth, _) => GitErrorKind::Auth,
        (_, git2::ErrorClass::Net) => GitErrorKind::Net,
        (_, git2::ErrorClass::Ssh) => GitErrorKind::Net,
        (_, git2::ErrorClass::Http) => GitErrorKind::Net,
        _ => GitErrorKind::Other,
    }
}

/// Relies on `git2::Error::message`: the error's human-readable description.
#[verifier::external_body]
pub(crate) fn error_message(e: &git2::Error) -> String {
    e.message().to_string()
}

/// Relies on `git2::Repository::index`: the repository's index.
#[verifier::external_body]
pub(crate) fn repo_index(repo: &git2::Repository) -> Result<git2::Index, git2::Error> {
    repo.index()
}

/// Relies on `git2::Index::add_all`: stages every working-tree path matching
/// `pathspec`, honouring ignore rules.
#[verifier::external_body]
pub(crate) fn index_add_all(index: &mut git2::Index, pathspec: &str) -> Result<(), git2::Error> {
    index.add_all([pathspec].iter(), git2::IndexAddOption::DEFAULT, None)
}

/// Relies on `git2::Index::write_tree`: writes the staged index as a tree
/// object and returns its id in canonical form (`Oid`'s display is forty
/// lowercase hexadecimal digits).
#[verifier::external_body]
pub(crate) fn index_write_tree(index: &mut git2::Index) -> (r: Result<String, git2::Error>)
    ensures
        r matches Ok(t) ==> is_canonical_id(t@),
{
    index.write_tree().map(|oid| oid.to_string())
}

/// Relies on `git2::Repository::head` and `git2::Reference::peel_to_commit`:
/// returns the ids of the current HEAD commit and of its tree, both in
/// canonical form (`Oid`'s display is forty lowercase hexadecimal digits).
#[verifier::external_body]
pub(crate) fn head_ids(repo: &git2::Repository) -> (r: Result<(String, String), git2::Error>)
    ensures
        r matches Ok(p) ==> is_canonical_id(p.0@) && is_canonical_id(p.1@),
{
    let commit = repo.head()?.peel_to_commit()?;
    Ok((commit.id().to_string(), commit.tree_id().to_string()))
}

/// Relies on `git2::Repository::commit_create_buffer` (with the tree and the
/// one parent looked up by `Oid::from_str`, `find_tree` and `find_commit`,
/// and the author and committer both from `Repository::signature`): the
/// returned buffer is the commit payload in git's commit object format, and
/// records exactly the given tree and the given single parent.  The ids must
/// already be canonical: `Oid::from_str` also accepts other spellings
/// (uppercase, short forms), and the buffer would then record the canonical
/// form rather than the given string.
#[verifier::external_body]
pub(crate) fn build_commit_payload(
    repo: &git2::Repository,
    tree_id: &str,
    parent_id: &str,
    message: &str,
) -> (r: Result<String, git2::Error>)
    requires
        is_canonical_id(tree_id@),
        is_canonical_id(parent_id@),
    ensures
        r matches Ok(payload) ==> payload_parent_ids(payload@) == seq![parent_id@]
            && payload_tree_id(payload@) == tree_id@,
{
    let tree = repo.find_tree(git2::Oid::from_str(tree_id)?)?;
    let parent = repo.find_commit(git2::Oid::from_str(parent_id)?)?;
    let author = repo.signature()?;
    let buf = repo.commit_create_buffer(&author, &author, message, &tree, &[&parent])?;
    Ok(String::from_utf8_lossy(&buf).into_owned())
}

/// Relies on `git2::Repository::commit_signed`: writes a commit object whose
/// content is exactly `payload` with `sig` attached under the default
/// signature field (gpgsig), and returns the new commit's id; the id is the
/// content hash of that object.  The payload must not already carry a
/// `gpgsig` line: libgit2 would accept it, and extraction would then return
/// the first signature field rather than the one attached here.
#[verifier::external_body]
pub(crate) fn commit_signed_w(
    repo: &git2::Repository,
    payload: &str,
    sig: &str,
) -> (r: Result<String, git2::Error>)
    requires
        !has_gpgsig_line(payload@),
    ensures
        r matches Ok(id) ==> payload_of_commit(id@) == payload@ && sig_of_commit(id@) == sig@,
{
    repo.commit_signed(payload, sig, None).map(|oid| oid.to_string())
}

/// Relies on `git2::Repository::extract_signature`: returns the embedded
/// signature and the signed payload of the commit named by `id`, exactly as
/// stored in the object.
#[verifier::external_body]
pub(crate) fn extract_signature_w(
    repo: &git2::Repository,
    id: &str,
) -> (r: Result<(String, String), git2::Error>)
    ensures
        r matches Ok(p) ==> p.0@ == sig_of_commit(id@) && p.1@ == payload_of_commit(id@),
{
    let oid = git2::Oid::from_str(id)?;
    let (sig, content) = repo.extract_signature(&oid, None)?;
    Ok((String::from_utf8_lossy(&sig).into_owned(), String::from_utf8_lossy(&content).into_owned()))
}

/// Relies on `git2::Reference::set_target` on `Repository::head`: advances
/// the branch that HEAD points to onto the commit named by `id`.
#[verifier::external_body]
pub(crate) fn set_head_target(
    repo: &git2::Repository,
    id: &str,
    reflog_msg: &str,
) -> Result<(), git2::Error> {
    let oid = git2::Oid::from_str(id)?;
    repo.head()?.set_target(oid, reflog_msg)?;
    Ok(())
}

/// Relies on `git2::Repository::branches` over local branches, with
/// `Branch::name` and `Branch::is_head` converting each entry to its short
/// name (empty when unreadable) and its HEAD flag.  The iteration order is
/// unspecified, so nothing is stated of the returned order.
#[verifier::external_body]
pub(crate) fn local_branches(
    repo: &git2::Repository,
) -> Result<Vec<(String, bool)>, git2::Error> {
    let mut out: Vec<(String, bool)> = Vec::new();
    for entry in repo.branches(Some(git2::BranchType::Local))? {
        let (branch, _) = entry?;
        let name = match branch.name() {
            Ok(Some(n)) => n.to_string(),
            _ => String::new(),
        };
        out.push((name, branch.is_head()));
    }
    Ok(out)
}

/// Relies on `git2::Repository::branch_upstream_remote`: the name of the
/// remote configured as upstream for the branch named by `refname`.
#[verifier::external_body]
pub(crate) fn branch_upstream_remote_w(
    repo: &git2::Repository,
    refname: &str,
) -> Result<String, git2::Error> {
    let buf = repo.branch_upstream_remote(refname)?;
    Ok(String::from_utf8_lossy(&buf).into_owned())
}

/// Relies on `git2::Repository::find_remote`: the remote of the given name.
#[verifier::external_body]
pub(crate) fn find_remote_w<'r>(
    repo: &'r git2::Repository,
    name: &str,
) -> Result<git2::Remote<'r>, git2::Error> {
    repo.find_remote(name)
}

/// Relies on `git2::Remote::push` of the one refspec, with credentials as in
/// `repo_clone` and a `push_update_reference` callback that records, per ref,
/// the name and the status message the server sent; the `git2` documentation
/// states the status is `Some` exactly when that ref was rejected.  Returns
/// the transport result together with everything the callback recorded.
#[verifier::external_body]
pub(crate) fn remote_push_w(
    remote: &mut git2::Remote,
    refspec: &str,
    key_path: &str,
    passphrase: &str,
) -> (Result<(), git2::Error>, Vec<(String, Option<String>)>) {
    let mut statuses: Vec<(String, Option<String>)> = Vec::new();
    let (key, pass) = (key_path.to_string(), passphrase.to_string());
    let res = {
        let mut callbacks = git2::RemoteCallbacks::new();
        callbacks.credentials(move |_url, user, _allowed| {
            git2::Cred::ssh_key(user.unwrap_or("git"), None, Path::new(&key), Some(&pass))
        });
        callbacks.push_update_reference(|name, status| {
            statuses.push((name.to_string(), status.map(|s| s.to_string()))); Ok(())
        });
        let mut opts = git2::PushOptions::new();
        opts.remote_callbacks(callbacks);
        remote.push(&[refspec], Some(&mut opts))
    };
    (res, statuses)
}

/// Relies on `git2::Repository::config` and `git2::Config::get_string`: the
/// string value of the configuration entry named `name`.
#[verifier::external_body]
pub(crate) fn config_string_w(
    repo: &git2::Repository,
    name: &str,
) -> Result<String, git2::Error> {
    let cfg = repo.config()?;
    cfg.get_string(name)
}

} // verus!
