//! Repository synchronization and signed-commit publishing.
//!
//! Every decision taken on the results of the git calls is verified here; the
//! calls themselves stand behind the trusted wrappers of `crate::git_ext`.

use crate::git_ext::{
    branch_upstream_remote_w, build_commit_payload, commit_signed_w, config_string_w, error_kind,
    error_message, extract_signature_w, find_remote_w, gpgsig_line_at, has_gpgsig_line, head_ids,
    index_add_all, index_write_tree, is_canonical_id, is_id_char, local_branches,
    path_exists, payload_of_commit, payload_parent_ids, payload_tree_id, remote_push_w, repo_clone,
    repo_index, repo_open, set_head_target, sig_of_commit, GitErrorKind,
};
use vstd::prelude::*;

verus! {

/// Equality of two strings, stated over their character sequences.
pub fn string_eq(a: &String, b: &String) -> (r: bool)
    ensures
        r == (a@ == b@),
{
    a.eq(b)
}

/// Reusable transport configuration: the credential material needed to answer
/// an authentication request, kept as plain values so that clone and push can
/// share it without re-deriving anything.
pub struct GitTransport {
    pub key_path: String,
    pub passphrase: String,
}

/// Joins a home directory with the conventional ssh key location.
pub fn ssh_key_path(home: &str) -> (r: String)
    ensures
        r@ == home@ + "/.ssh/id_rsa"@,
{
    let mut p = home.to_owned();
    p.append("/.ssh/id_rsa");
    p
}

/// Builds the reusable transport configuration for a passphrase and a home
/// directory: the private key is expected at the conventional path under the
/// home directory.
pub fn setup_repo_builder(home: &str, ssh_pass: &str) -> (t: GitTransport)
    ensures
        t.key_path@ == home@ + "/.ssh/id_rsa"@,
        t.passphrase@ == ssh_pass@,
{
    GitTransport { key_path: ssh_key_path(home), passphrase: ssh_pass.to_owned() }
}

/// How obtaining a checkout can fail.
#[derive(Clone, Copy, Debug, PartialEq, Eq, Structural)]
pub enum CheckoutError {
    NotFound,
    CorruptLocalState,
    AuthenticationFailed,
    NetworkFailure,
}

/// What to do after probing the local path.
#[derive(Clone, Copy, Debug, PartialEq, Eq, Structural)]
pub enum CheckoutAction {
    OpenExisting,
    CloneFresh,
}

/// The plan for a probe outcome: an existing repository is used as it is; a
/// path with nothing on disk is cloned into; a path that exists but does not
/// open as a repository — reported not-found by the open as much as by any
/// other class — is a distinct, fatal state and is never silently re-cloned.
pub open spec fn spec_plan_checkout(
    probe: Result<(), GitErrorKind>,
    on_disk: bool,
) -> Result<CheckoutAction, CheckoutError> {
    match probe {
        Ok(_) => Ok(CheckoutAction::OpenExisting),
        Err(GitErrorKind::NotFound) => if on_disk {
            Err(CheckoutError::CorruptLocalState)
        } else {
            Ok(CheckoutAction::CloneFresh)
        },
        Err(_) => Err(CheckoutError::CorruptLocalState),
    }
}

/// Decides what to do with the local path from the probe outcome and the
/// path's presence on disk alone.
pub fn plan_checkout(probe: &Result<(), GitErrorKind>, on_disk: bool) -> (r: Result<
    CheckoutAction,
    CheckoutError,
>)
    ensures
        r == spec_plan_checkout(*probe, on_disk),
{
    match probe {
        Ok(_) => Ok(CheckoutAction::OpenExisting),
        Err(GitErrorKind::NotFound) => if on_disk {
            Err(CheckoutError::CorruptLocalState)
        } else {
            Ok(CheckoutAction::CloneFresh)
        },
        Err(_) => Err(CheckoutError::CorruptLocalState),
    }
}

/// Idempotent checkout: whenever the local path holds a repository that opens,
/// the plan is to use it as it is — never to clone — and, the plan being a
/// function of the probe alone, a second call on the same outcome plans the
/// same.
pub proof fn lemma_checkout_idempotent(probe: Result<(), GitErrorKind>, on_disk: bool)
    requires
        probe is Ok,
    ensures
        spec_plan_checkout(probe, on_disk) == Ok::<CheckoutAction, CheckoutError>(
            CheckoutAction::OpenExisting,
        ),
{
}

/// The checkout error that a failed clone surfaces as, by error class.  A
/// class that names neither authentication nor the network is reported as
/// corrupt local state, since the clone target is local.
pub open spec fn spec_classify_clone_failure(k: GitErrorKind) -> CheckoutError {
    match k {
        GitErrorKind::Auth => CheckoutError::AuthenticationFailed,
        GitErrorKind::Net => CheckoutError::NetworkFailure,
        GitErrorKind::NotFound => CheckoutError::NotFound,
        GitErrorKind::Other => CheckoutError::CorruptLocalState,
    }
}

/// Maps a clone failure class to the checkout error reported for it.
pub fn classify_clone_failure(k: GitErrorKind) -> (r: CheckoutError)
    ensures
        r == spec_classify_clone_failure(k),
{
    match k {
        GitErrorKind::Auth => CheckoutError::AuthenticationFailed,
        GitErrorKind::Net => CheckoutError::NetworkFailure,
        GitErrorKind::NotFound => CheckoutError::NotFound,
        GitErrorKind::Other => CheckoutError::CorruptLocalState,
    }
}

/// What obtaining a checkout observed and did: the open probe, whether the
/// path was on disk when the open failed, and the clone, if one was run,
/// with its outcome class.
pub struct CheckoutTrace {
    pub probe: Result<(), GitErrorKind>,
    pub on_disk: bool,
    pub cloned: bool,
    pub clone_result: Result<(), GitErrorKind>,
}

/// Opens the repository at `local_path` if one is there; clones `remote_url`
/// into it when the path holds nothing; reports a path that is on disk but
/// does not open as corrupt rather than cloning over it.  The witness
/// records what was observed: the result follows `spec_plan_checkout` of the
/// probe exactly, a clone is run only when the plan says so, and a failed
/// clone surfaces as `spec_classify_clone_failure` of its class.
pub fn get_local_checkout(
    transport: &GitTransport,
    local_path: &str,
    remote_url: &str,
) -> (r: (Result<git2::Repository, CheckoutError>, Ghost<CheckoutTrace>))
    ensures
        r.1@.probe is Ok ==> r.0 is Ok && !r.1@.cloned,
        spec_plan_checkout(r.1@.probe, r.1@.on_disk) matches Err(ce) ==> (r.0 matches Err(e) && e
            == ce && !r.1@.cloned),
        r.1@.cloned ==> spec_plan_checkout(r.1@.probe, r.1@.on_disk) == Ok::<
            CheckoutAction,
            CheckoutError,
        >(CheckoutAction::CloneFresh),
        r.1@.cloned ==> (r.1@.clone_result matches Err(k) ==> (r.0 matches Err(e) && e
            == spec_classify_clone_failure(k))),
        r.0 is Ok <==> (r.1@.probe is Ok || (r.1@.cloned && r.1@.clone_result is Ok)),
{
    match repo_open(local_path) {
        Ok(repo) => (
            Ok(repo),
            Ghost(
                CheckoutTrace {
                    probe: Ok(()),
                    on_disk: true,
                    cloned: false,
                    clone_result: Ok(()),
                },
            ),
        ),
        Err(e) => {
            let kind = error_kind(&e);
            let on_disk = path_exists(local_path);
            let ghost trace = CheckoutTrace {
                probe: Err(kind),
                on_disk: on_disk,
                cloned: false,
                clone_result: Ok(()),
            };
            match plan_checkout(&Err(kind), on_disk) {
                Ok(CheckoutAction::CloneFresh) => {
                    match repo_clone(
                        remote_url,
                        local_path,
                        transport.key_path.as_str(),
                        transport.passphrase.as_str(),
                    ) {
                        Ok(repo) => (
                            Ok(repo),
                            Ghost(CheckoutTrace { probe: Err(kind), on_disk: on_disk, cloned: true, clone_result: Ok(()) }),
                        ),
                        Err(ce) => {
                            let ck = error_kind(&ce);
                            (
                                Err(classify_clone_failure(ck)),
                                Ghost(
                                    CheckoutTrace {
                                        probe: Err(kind),
                                        on_disk: on_disk,
                                        cloned: true,
                                        clone_result: Err(ck),
                                    },
                                ),
                            )
                        },
                    }
                },
                Ok(CheckoutAction::OpenExisting) => {
                    // The plan for a failed probe is never to reuse: see
                    // spec_plan_checkout.
                    proof {
                        assert(false);
                    }
                    (Err(CheckoutError::CorruptLocalState), Ghost(trace))
                },
                Err(ce) => (Err(ce), Ghost(trace)),
            }
        },
    }
}

/// How commit construction can fail.  `HeadUpdateFailed` carries the id of
/// the signed commit that was already written, so that the caller can retry
/// advancing HEAD without signing again.
#[derive(Debug, PartialEq, Eq)]
pub enum CommitError {
    SigningKeyNotConfigured,
    SigningFailed,
    ObjectWriteFailed,
    HeadUpdateFailed(String),
}

/// An unsigned commit payload ready to be signed, together with the tree and
/// parent ids it was built from.
pub struct PreparedCommit {
    pub payload: String,
    pub tree_id: String,
    pub parent_id: String,
}

impl PreparedCommit {
    /// The payload records exactly the tree it was built from and exactly one
    /// parent: the HEAD commit read when preparation began.
    pub open spec fn wf(self) -> bool {
        &&& payload_parent_ids(self.payload@) == seq![self.parent_id@]
        &&& payload_tree_id(self.payload@) == self.tree_id@
    }
}

/// Whether the string is a canonical object id: forty lowercase hexadecimal
/// digits, the one form the wrappers return and the payload records.
pub fn check_canonical_id(s: &String) -> (r: bool)
    ensures
        r == is_canonical_id(s@),
{
    let st = s.as_str();
    if st.unicode_len() != 40 {
        return false;
    }
    let mut k: usize = 0;
    while k < 40
        invariant
            st@.len() == 40,
            st@ == s@,
            k <= 40,
            forall|j: int| 0 <= j < k ==> is_id_char(#[trigger] s@[j]),
        decreases 40 - k,
    {
        let n = st.get_char(k) as u32;
        if !((48 <= n && n <= 57) || (97 <= n && n <= 102)) {
            return false;
        }
        k = k + 1;
    }
    true
}

/// Whether any line of the text begins with the signature field name
/// `gpgsig`.
pub fn check_gpgsig_line(s: &str) -> (r: bool)
    ensures
        r == has_gpgsig_line(s@),
{
    let n = s.unicode_len();
    let mut i: usize = 0;
    while i < n
        invariant
            n == s@.len(),
            i <= n,
            forall|j: int| 0 <= j < i ==> !gpgsig_line_at(s@, j),
        decreases n - i,
    {
        if n - i >= 6 {
            let prev_ok: bool = i == 0 || s.get_char(i - 1) == '\n';
            if prev_ok && s.get_char(i) == 'g' && s.get_char(i + 1) == 'p' && s.get_char(i + 2)
                == 'g' && s.get_char(i + 3) == 's' && s.get_char(i + 4) == 'i' && s.get_char(i + 5)
                == 'g' {
                proof {
                    assert(gpgsig_line_at(s@, i as int));
                }
                return true;
            }
        }
        i = i + 1;
    }
    proof {
        assert forall|j: int| !gpgsig_line_at(s@, j) by {
            if 0 <= j < n {
            }
        }
        assert(!has_gpgsig_line(s@));
    }
    false
}

/// Decides, from the freshly written tree id and the ids of the current HEAD
/// commit and its tree, whether there is anything to commit, and if so builds
/// the unsigned payload.  No file changes — the new tree equal to HEAD's —
/// means "no commit", and that is the only way "no commit" comes about; it is
/// not an error, and HEAD is not touched here.  Ids in a non-canonical
/// spelling are refused rather than passed to the payload builder, whose
/// statement holds of canonical ids only.
pub fn prepare_from_ids(
    repo: &git2::Repository,
    new_tree_id: String,
    head_tree_id: &String,
    head_commit_id: String,
) -> (r: Result<Option<PreparedCommit>, CommitError>)
    ensures
        (r matches Ok(p) && p is None) <==> new_tree_id@ == head_tree_id@,
        r matches Ok(Some(pc)) ==> {
            &&& new_tree_id@ != head_tree_id@
            &&& pc.wf()
            &&& pc.parent_id@ == head_commit_id@
            &&& pc.tree_id@ == new_tree_id@
        },
        r matches Err(e) ==> e == CommitError::ObjectWriteFailed && new_tree_id@ != head_tree_id@,
{
    if string_eq(&new_tree_id, head_tree_id) {
        return Ok(None);
    }
    if !check_canonical_id(&new_tree_id) || !check_canonical_id(&head_commit_id) {
        return Err(CommitError::ObjectWriteFailed);
    }
    match build_commit_payload(
        repo,
        new_tree_id.as_str(),
        head_commit_id.as_str(),
        "CCCD: Update dependencies",
    ) {
        Ok(payload) => Ok(
            Some(PreparedCommit { payload, tree_id: new_tree_id, parent_id: head_commit_id }),
        ),
        Err(_) => Err(CommitError::ObjectWriteFailed),
    }
}

/// What commit preparation read from the repository: the tree written from
/// the staged index and the ids of the HEAD commit and its tree.
pub struct CommitProbe {
    pub new_tree: Seq<char>,
    pub head_commit: Seq<char>,
    pub head_tree: Seq<char>,
}

/// Stages every working-tree change, writes the staged index as a tree, and
/// prepares the unsigned single-parent commit payload when — and only when —
/// that tree differs from the one HEAD already has.  The witness records the
/// ids the decision was taken on.
pub fn prepare_commit(repo: &git2::Repository) -> (r: (
    Result<Option<PreparedCommit>, CommitError>,
    Ghost<CommitProbe>,
))
    ensures
        (r.0 matches Ok(p) && p is None) ==> r.1@.new_tree == r.1@.head_tree,
        r.0 matches Ok(Some(pc)) ==> {
            &&& pc.wf()
            &&& pc.tree_id@ == r.1@.new_tree
            &&& pc.parent_id@ == r.1@.head_commit
            &&& r.1@.new_tree != r.1@.head_tree
        },
{
    let ghost nothing = CommitProbe {
        new_tree: Seq::empty(),
        head_commit: Seq::empty(),
        head_tree: Seq::empty(),
    };
    let mut index = match repo_index(repo) {
        Ok(ix) => ix,
        Err(_) => {
            return (Err(CommitError::ObjectWriteFailed), Ghost(nothing));
        },
    };
    if index_add_all(&mut index, "*").is_err() {
        return (Err(CommitError::ObjectWriteFailed), Ghost(nothing));
    }
    let new_tree_id = match index_write_tree(&mut index) {
        Ok(t) => t,
        Err(_) => {
            return (Err(CommitError::ObjectWriteFailed), Ghost(nothing));
        },
    };
    let (head_commit_id, head_tree_id) = match head_ids(repo) {
        Ok(ids) => ids,
        Err(_) => {
            return (Err(CommitError::ObjectWriteFailed), Ghost(nothing));
        },
    };
    let ghost probe = CommitProbe {
        new_tree: new_tree_id@,
        head_commit: head_commit_id@,
        head_tree: head_tree_id@,
    };
    (prepare_from_ids(repo, new_tree_id, &head_tree_id, head_commit_id), Ghost(probe))
}

/// The commit error that a failed signing-key lookup surfaces as: an absent
/// entry is the distinct "not configured" failure, anything else a failure
/// to read the object store's configuration.
pub open spec fn spec_classify_signing_lookup(k: GitErrorKind) -> CommitError {
    match k {
        GitErrorKind::NotFound => CommitError::SigningKeyNotConfigured,
        _ => CommitError::ObjectWriteFailed,
    }
}

/// Maps a failed signing-key lookup to the commit error reported for it.
pub fn classify_signing_lookup(k: GitErrorKind) -> (r: CommitError)
    ensures
        r == spec_classify_signing_lookup(k),
{
    match k {
        GitErrorKind::NotFound => CommitError::SigningKeyNotConfigured,
        _ => CommitError::ObjectWriteFailed,
    }
}

/// The configured signing identity, from the repository's configuration; an
/// absent `user.signingkey` entry is the distinct "not configured" failure.
/// The witness records the class of a failed lookup; the error is exactly
/// that class's.
pub fn signing_key_id(repo: &git2::Repository) -> (r: (
    Result<String, CommitError>,
    Ghost<Option<GitErrorKind>>,
))
    ensures
        r.1@ matches Some(k) ==> (r.0 matches Err(e) && e == spec_classify_signing_lookup(k)),
        r.1@ is None ==> r.0 is Ok,
{
    match config_string_w(repo, "user.signingkey") {
        Ok(k) => (Ok(k), Ghost(None)),
        Err(e) => {
            let kind = error_kind(&e);
            (Err(classify_signing_lookup(kind)), Ghost(Some(kind)))
        },
    }
}

/// Writes the signed commit object from the payload and its detached
/// signature, then advances HEAD's branch onto it.  The produced object
/// stores exactly the given payload and signature; if only the HEAD update
/// fails, the already-signed object's id is carried in the error so the
/// update can be retried without re-signing.
pub fn commit_signed_and_advance(repo: &git2::Repository, payload: &str, sig: &str) -> (r: Result<
    String,
    CommitError,
>)
    ensures
        r matches Ok(id) ==> payload_of_commit(id@) == payload@ && sig_of_commit(id@) == sig@,
        r matches Err(CommitError::HeadUpdateFailed(id)) ==> payload_of_commit(id@) == payload@
            && sig_of_commit(id@) == sig@,
{
    if check_gpgsig_line(payload) {
        // A payload that already carries a signature line would not
        // round-trip through extraction; refuse it rather than sign it.
        return Err(CommitError::ObjectWriteFailed);
    }
    match commit_signed_w(repo, payload, sig) {
        Err(_) => Err(CommitError::ObjectWriteFailed),
        Ok(id) => {
            match set_head_target(
                repo,
                id.as_str(),
                "CCCD: add signed commit with updated dependencies",
            ) {
                Ok(_) => Ok(id),
                Err(_) => Err(CommitError::HeadUpdateFailed(id)),
            }
        },
    }
}

/// Retries advancing HEAD onto an already-written signed commit.
pub fn advance_head(repo: &git2::Repository, id: &String) -> (r: Result<(), CommitError>)
    ensures
        r matches Err(e) ==> (e matches CommitError::HeadUpdateFailed(i) && i@ == id@),
{
    match set_head_target(repo, id.as_str(), "CCCD: add signed commit with updated dependencies") {
        Ok(_) => Ok(()),
        Err(_) => Err(CommitError::HeadUpdateFailed(id.clone())),
    }
}

/// Reads back, from the object store, the embedded signature and the stored
/// payload of the signed commit named by `id`.
pub fn read_signed_commit(repo: &git2::Repository, id: &str) -> (r: Result<
    (String, String),
    CommitError,
>)
    ensures
        r matches Ok(p) ==> p.0@ == sig_of_commit(id@) && p.1@ == payload_of_commit(id@),
{
    match extract_signature_w(repo, id) {
        Ok(p) => Ok(p),
        Err(_) => Err(CommitError::ObjectWriteFailed),
    }
}

/// Signature integrity: what the object store hands back for a produced
/// signed commit — the stored payload with the signature field excluded, and
/// the embedded signature — is byte-identical to the payload that was signed
/// and to the signature produced over it.
pub proof fn lemma_signature_integrity(
    id: Seq<char>,
    signed_payload: Seq<char>,
    produced_sig: Seq<char>,
    stored_payload: Seq<char>,
    stored_sig: Seq<char>,
)
    requires
        payload_of_commit(id) == signed_payload,
        sig_of_commit(id) == produced_sig,
        stored_payload == payload_of_commit(id),
        stored_sig == sig_of_commit(id),
    ensures
        stored_payload == signed_payload,
        stored_sig == produced_sig,
{
}

/// Single-parent linearity: the object stored under a commit id produced from
/// a well-formed prepared payload records exactly one parent — the HEAD
/// commit read when preparation began — and the tree written from the index.
pub proof fn lemma_single_parent(pc: PreparedCommit, id: Seq<char>)
    requires
        pc.wf(),
        payload_of_commit(id) == pc.payload@,
    ensures
        payload_parent_ids(payload_of_commit(id)) == seq![pc.parent_id@],
        payload_tree_id(payload_of_commit(id)) == pc.tree_id@,
{
}

/// How upstream resolution can fail; both are the "no remote configured"
/// class of failure — the bot never guesses a remote.
#[derive(Clone, Copy, Debug, PartialEq, Eq, Structural)]
pub enum UpstreamError {
    NoHeadBranch,
    NoUpstreamConfigured,
}

/// The first branch in the enumeration that carries the HEAD flag.
pub fn head_branch(branches: &Vec<(String, bool)>) -> (r: Option<usize>)
    ensures
        r matches Some(i) ==> i < branches@.len() && branches@[i as int].1 && (forall|j: int|
            0 <= j < i ==> !branches@[j].1),
        r is None ==> no_head_flag(branches@),
{
    let mut i: usize = 0;
    while i < branches.len()
        invariant
            i <= branches@.len(),
            forall|j: int| 0 <= j < i ==> !branches@[j].1,
        decreases branches@.len() - i,
    {
        if branches[i].1 {
            return Some(i);
        }
        i = i + 1;
    }
    None
}

/// No branch of the enumeration carries the HEAD flag.
pub open spec fn no_head_flag(branches: Seq<(String, bool)>) -> bool {
    forall|j: int| 0 <= j < branches.len() ==> !(#[trigger] branches[j]).1
}

/// `name` is the short name of the first HEAD-flagged branch of the
/// enumeration.
pub open spec fn first_head_is(branches: Seq<(String, bool)>, name: Seq<char>) -> bool {
    exists|i: int|
        0 <= i < branches.len() && (#[trigger] branches[i]).1 && name == branches[i].0@ && (forall|
            j: int,
        | 0 <= j < i ==> !branches[j].1)
}

/// Upstream uniqueness: when exactly one branch carries the HEAD flag, any
/// index satisfying the resolver's contract is that branch — the enumeration
/// order never matters.
pub proof fn lemma_upstream_unique(branches: Seq<(String, bool)>, i: int, k: int)
    requires
        0 <= k < branches.len(),
        branches[k].1,
        forall|j: int| 0 <= j < branches.len() && j != k ==> !branches[j].1,
        0 <= i < branches.len(),
        branches[i].1,
    ensures
        i == k,
{
}

/// What upstream resolution observed: whether the branches could be listed
/// and what the list held, and whether the upstream lookup and the remote
/// lookup, run under the resolved names, succeeded.
pub struct UpstreamTrace {
    pub listed: bool,
    pub branches: Seq<(String, bool)>,
    pub upstream_found: bool,
    pub upstream: Seq<char>,
    pub remote_found: bool,
}

/// Finds the push target: the branch HEAD points to, its configured upstream
/// remote, and the branch's short name.  The witness records the enumerated
/// branches: a returned name is the first HEAD-flagged branch of that list
/// (and by `lemma_upstream_unique` the only one, when the flag is unique),
/// paired with the remote found under the recorded upstream identifier.  A
/// repository where no local branch carries the HEAD flag (a detached HEAD)
/// has no target; so has a HEAD branch with no configured upstream.
pub fn find_origin<'r>(repo: &'r git2::Repository) -> (r: (
    Result<(git2::Remote<'r>, String), UpstreamError>,
    Ghost<UpstreamTrace>,
))
    ensures
        r.0 matches Ok(p) ==> {
            &&& r.1@.listed
            &&& first_head_is(r.1@.branches, p.1@)
            &&& r.1@.upstream_found
            &&& r.1@.remote_found
        },
        (r.0 matches Err(e) && e == UpstreamError::NoHeadBranch) <==> (!r.1@.listed
            || no_head_flag(r.1@.branches)),
        (r.0 matches Err(e) && e == UpstreamError::NoUpstreamConfigured) ==> (r.1@.listed
            && !(r.1@.upstream_found && r.1@.remote_found)),
{
    let branches = match local_branches(repo) {
        Ok(b) => b,
        Err(_) => {
            let ghost trace = UpstreamTrace {
                listed: false,
                branches: Seq::empty(),
                upstream_found: false,
                upstream: Seq::empty(),
                remote_found: false,
            };
            return (Err(UpstreamError::NoHeadBranch), Ghost(trace));
        },
    };
    let ghost listed = branches@;
    let idx = match head_branch(&branches) {
        Some(i) => i,
        None => {
            let ghost trace = UpstreamTrace {
                listed: true,
                branches: listed,
                upstream_found: false,
                upstream: Seq::empty(),
                remote_found: false,
            };
            return (Err(UpstreamError::NoHeadBranch), Ghost(trace));
        },
    };
    let name = branches[idx].0.clone();
    proof {
        assert(0 <= idx < listed.len() && listed[idx as int].1 && name@ == listed[idx as int].0@
            && (forall|j: int| 0 <= j < idx ==> !listed[j].1));
        assert(first_head_is(listed, name@));
        assert(!no_head_flag(listed));
    }
    let mut refname = "refs/heads/".to_owned();
    refname.append(name.as_str());
    let upstream = match branch_upstream_remote_w(repo, refname.as_str()) {
        Ok(u) => u,
        Err(_) => {
            let ghost trace = UpstreamTrace {
                listed: true,
                branches: listed,
                upstream_found: false,
                upstream: Seq::empty(),
                remote_found: false,
            };
            return (Err(UpstreamError::NoUpstreamConfigured), Ghost(trace));
        },
    };
    let ghost trace = UpstreamTrace {
        listed: true,
        branches: listed,
        upstream_found: true,
        upstream: upstream@,
        remote_found: false,
    };
    match find_remote_w(repo, upstream.as_str()) {
        Ok(remote) => (
            Ok((remote, name)),
            Ghost(
                UpstreamTrace {
                    listed: true,
                    branches: listed,
                    upstream_found: true,
                    upstream: upstream@,
                    remote_found: true,
                },
            ),
        ),
        Err(_) => (Err(UpstreamError::NoUpstreamConfigured), Ghost(trace)),
    }
}

/// How publishing can fail.
#[derive(Debug, PartialEq, Eq)]
pub enum PushError {
    NoRemoteConfigured,
    Transport(String),
    Rejected(String),
}

/// A transport-successful push counts as accepted only when no entry for the
/// pushed ref carries a status message.
pub open spec fn spec_push_accepted(
    statuses: Seq<(String, Option<String>)>,
    refname: Seq<char>,
) -> bool {
    forall|i: int|
        0 <= i < statuses.len() && statuses[i].0@ == refname ==> statuses[i].1 is None
}

/// Judges a push whose transport call itself succeeded: accepted only if the
/// server reported no rejection reason for the pushed ref; any reported
/// reason is surfaced as a rejection, never as success.
pub fn judge_push(refname: &String, statuses: &Vec<(String, Option<String>)>) -> (r: Result<
    (),
    PushError,
>)
    ensures
        r is Ok <==> spec_push_accepted(statuses@, refname@),
        r matches Err(e) ==> (e matches PushError::Rejected(reason) && exists|i: int|
            0 <= i < statuses@.len() && statuses@[i].0@ == refname@ && (#[trigger] statuses@[i].1
                matches Some(m) && m@ == reason@)),
{
    let mut i: usize = 0;
    while i < statuses.len()
        invariant
            i <= statuses@.len(),
            forall|j: int|
                0 <= j < i && statuses@[j].0@ == refname@ ==> statuses@[j].1 is None,
        decreases statuses@.len() - i,
    {
        let entry = &statuses[i];
        if string_eq(&entry.0, refname) {
            match &entry.1 {
                Some(m) => {
                    return Err(PushError::Rejected(m.clone()));
                },
                None => {},
            }
        }
        i = i + 1;
    }
    Ok(())
}

/// Push atomicity of judgment: a transport-successful push for which the
/// server reported any rejection reason on the pushed ref is never judged
/// accepted.
pub proof fn lemma_push_atomicity(
    statuses: Seq<(String, Option<String>)>,
    refname: Seq<char>,
    i: int,
)
    requires
        0 <= i < statuses.len(),
        statuses[i].0@ == refname,
        statuses[i].1 is Some,
    ensures
        !spec_push_accepted(statuses, refname),
{
}

/// What a push observed and did: whether the upstream resolved, the one
/// refspec handed to the transport, whether the transport call itself
/// succeeded (with its message when not), and the per-ref statuses the
/// server reported.
pub struct PushTrace {
    pub resolved: bool,
    pub branch: Seq<char>,
    pub refname: Seq<char>,
    pub transport_ok: bool,
    pub transport_msg: Seq<char>,
    pub statuses: Seq<(String, Option<String>)>,
}

/// Pushes the current HEAD branch to its configured upstream and judges the
/// outcome.  The witness records what happened: exactly the one refspec
/// `refs/heads/{branch}` is handed to the transport, a failed resolution is
/// `NoRemoteConfigured`, a failed transport call surfaces its message as
/// `Transport`, and a transport-successful push is accepted exactly when the
/// server reported no rejection reason for that refspec (`judge_push`).
pub fn push_to_remote(repo: &git2::Repository, transport: &GitTransport) -> (r: (
    Result<(), PushError>,
    Ghost<PushTrace>,
))
    ensures
        (r.0 matches Err(e) && e == PushError::NoRemoteConfigured) <==> !r.1@.resolved,
        r.1@.resolved ==> r.1@.refname == "refs/heads/"@ + r.1@.branch,
        r.0 is Ok <==> (r.1@.resolved && r.1@.transport_ok && spec_push_accepted(
            r.1@.statuses,
            r.1@.refname,
        )),
        (r.1@.resolved && !r.1@.transport_ok) ==> (r.0 matches Err(e) && e matches
            PushError::Transport(m) && m@ == r.1@.transport_msg),
        (r.1@.resolved && r.1@.transport_ok) ==> (r.0 matches Err(e) ==> (e matches
            PushError::Rejected(reason) && exists|i: int|
            0 <= i < r.1@.statuses.len() && r.1@.statuses[i].0@ == r.1@.refname && (
            #[trigger] r.1@.statuses[i].1 matches Some(m) && m@ == reason@))),
{
    let (origin, _) = find_origin(repo);
    let (mut remote, branch_name) = match origin {
        Ok(t) => t,
        Err(_) => {
            let ghost trace = PushTrace {
                resolved: false,
                branch: Seq::empty(),
                refname: Seq::empty(),
                transport_ok: false,
                transport_msg: Seq::empty(),
                statuses: Seq::empty(),
            };
            return (Err(PushError::NoRemoteConfigured), Ghost(trace));
        },
    };
    let mut refname = "refs/heads/".to_owned();
    refname.append(branch_name.as_str());
    let (res, statuses) = remote_push_w(
        &mut remote,
        refname.as_str(),
        transport.key_path.as_str(),
        transport.passphrase.as_str(),
    );
    match res {
        Err(e) => {
            let msg = error_message(&e);
            let ghost trace = PushTrace {
                resolved: true,
                branch: branch_name@,
                refname: refname@,
                transport_ok: false,
                transport_msg: msg@,
                statuses: statuses@,
            };
            (Err(PushError::Transport(msg)), Ghost(trace))
        },
        Ok(_) => {
            let ghost trace = PushTrace {
                resolved: true,
                branch: branch_name@,
                refname: refname@,
                transport_ok: true,
                transport_msg: Seq::empty(),
                statuses: statuses@,
            };
            (judge_push(&refname, &statuses), Ghost(trace))
        },
    }
}

} // verus!
