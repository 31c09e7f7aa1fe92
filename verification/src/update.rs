use vstd::prelude::*;
use vstd::string::StrSliceExecFns;

use crate::error::{concat2, lit, Error};
use crate::git::{Commit, CommitView, Ref, RefView, RemoteRefView, RemoteReference, RepositoryService};
use crate::lock::{str_eq, Node, OriginalView};

verus! {

/// What a freshness check concludes about one input.
#[derive(Debug, PartialEq, Eq)]
pub enum UpdateStatus {
    /// The pin already points at the newest commit or tag.
    AlreadyLatest,
    /// A newer commit or tag exists; the payload says what to change.
    Outdated(Update),
    /// No conclusion is possible; the reason is not an error.
    NotAvailable(String),
    /// The repository query failed.
    Error(String),
}

/// What an outdated input needs: a lock refresh onto a newer commit, or a
/// new declared reference together with its commit.
#[derive(Debug, PartialEq, Eq)]
pub enum Update {
    Lock(Commit),
    Input(Ref, Commit),
}

/// The mathematical value of an update directive.
pub enum UpdateView {
    Lock(CommitView),
    Input(RefView, CommitView),
}

impl View for Update {
    type V = UpdateView;

    open spec fn view(&self) -> UpdateView {
        match self {
            Update::Lock(c) => UpdateView::Lock(c@),
            Update::Input(r, c) => UpdateView::Input(r@, c@),
        }
    }
}

/// The mathematical value of a freshness conclusion.
pub enum UpdateStatusView {
    AlreadyLatest,
    Outdated(UpdateView),
    NotAvailable(Seq<char>),
    Error(Seq<char>),
}

impl View for UpdateStatus {
    type V = UpdateStatusView;

    open spec fn view(&self) -> UpdateStatusView {
        match self {
            UpdateStatus::AlreadyLatest => UpdateStatusView::AlreadyLatest,
            UpdateStatus::Outdated(u) => UpdateStatusView::Outdated(u@),
            UpdateStatus::NotAvailable(s) => UpdateStatusView::NotAvailable(s@),
            UpdateStatus::Error(s) => UpdateStatusView::Error(s@),
        }
    }
}

impl UpdateStatus {
    /// An inconclusive result with the given reason.
    pub fn not_available(reason: &str) -> (r: Self)
        ensures
            r@ == UpdateStatusView::NotAvailable(reason@),
    {
        Self::NotAvailable(reason.to_owned())
    }
}

/// A URL with one `git+` scheme prefix stripped, if it carries one.
pub open spec fn strip_git_plus(s: Seq<char>) -> Seq<char> {
    if s.len() >= 4 && s.subrange(0, 4) == "git+"@ {
        s.skip(4)
    } else {
        s
    }
}

/// Strips one `git+` scheme prefix from a URL, if it carries one.
fn strip_git_plus_exec(s: &str) -> (r: &str)
    ensures
        r@ == strip_git_plus(s@),
{
    let n = s.unicode_len();
    proof {
        reveal_strlit("git+");
    }
    if n >= 4 && s.get_char(0) == 'g' && s.get_char(1) == 'i' && s.get_char(2) == 't'
        && s.get_char(3) == '+' {
        let r = s.substring_char(4, n);
        proof {
            assert(s@.subrange(0, 4) =~= "git+"@);
            assert(r@ =~= s@.skip(4));
        }
        r
    } else {
        proof {
            if s@.len() >= 4 && s@.subrange(0, 4) == "git+"@ {
                assert(s@[0] == "git+"@[0] && s@[1] == "git+"@[1] && s@[2] == "git+"@[2] && s@[3]
                    == "git+"@[3]);
            }
        }
        s
    }
}

/// A declared source that the freshness check cannot map onto a remote:
/// any indirect source but the well-known package collection.
pub open spec fn unsupported_source(o: OriginalView) -> bool {
    o matches OriginalView::Indirect { id, .. } && id != "nixpkgs"@
}

/// The remote a declared source is checked against, when there is one.
pub open spec fn remote_reference_spec(o: OriginalView) -> Option<RemoteRefView> {
    match o {
        OriginalView::GitHub { owner, repo, .. } => Some(RemoteRefView::GitHub { repo, owner }),
        OriginalView::GitLab { owner, repo, .. } => Some(RemoteRefView::GitLab { repo, owner }),
        OriginalView::Git { url, .. } => Some(RemoteRefView::Url(strip_git_plus(url))),
        OriginalView::Indirect { id, .. } => if id == "nixpkgs"@ {
            Some(RemoteRefView::GitHub { repo: "nixpkgs"@, owner: "NixOS"@ })
        } else {
            None
        },
    }
}

/// Maps a declared source onto the remote to query: hosting coordinates
/// stay as they are, a git URL loses its `git+` scheme prefix, and the
/// well-known indirect id resolves to its hosting repository; any other
/// indirect source is refused.
pub fn remote_reference_of(original: &crate::lock::Original) -> (r: Result<RemoteReference, Error>)
    ensures
        match r {
            Ok(rr) => remote_reference_spec(original@) == Some(rr@),
            Err(e) => unsupported_source(original@) && (e matches Error::Error(m) && m@
                == "Source is not supported yet"@),
        },
{
    match original {
        crate::lock::Original::GitHub { owner, repo, .. } => Ok(
            RemoteReference::GitHub { repo: repo.clone(), owner: owner.clone() },
        ),
        crate::lock::Original::GitLab { owner, repo, .. } => Ok(
            RemoteReference::GitLab { repo: repo.clone(), owner: owner.clone() },
        ),
        crate::lock::Original::Git { url, .. } => Ok(
            RemoteReference::Url(strip_git_plus_exec(url.as_str()).to_owned()),
        ),
        crate::lock::Original::Indirect { id, .. } => {
            if str_eq(id.as_str(), "nixpkgs") {
                Ok(RemoteReference::GitHub { repo: lit("nixpkgs"), owner: lit("NixOS") })
            } else {
                Err(Error::Error(lit("Source is not supported yet")))
            }
        }
    }
}

/// The conclusion for a branch-tracked input, given the commit its
/// remote-tracking reference resolved to: already latest exactly when that
/// commit is the pinned one, else outdated onto that commit.
pub open spec fn branch_status_spec(locked_rev: Seq<char>, c: CommitView) -> UpdateStatusView {
    if c.sha == locked_rev {
        UpdateStatusView::AlreadyLatest
    } else {
        UpdateStatusView::Outdated(UpdateView::Lock(c))
    }
}

/// Decides the branch case of a freshness check.
pub fn branch_status(locked_rev: &str, commit: Commit) -> (r: UpdateStatus)
    ensures
        r@ == branch_status_spec(locked_rev@, commit@),
{
    if str_eq(commit.sha.as_str(), locked_rev) {
        UpdateStatus::AlreadyLatest
    } else {
        UpdateStatus::Outdated(Update::Lock(commit))
    }
}

/// The inconclusive conclusion for a reference the remote does not know: it
/// names the queried reference, and it is never an error.
pub fn missing_ref_status(original_ref: &str) -> (r: UpdateStatus)
    ensures
        r@ == UpdateStatusView::NotAvailable("Couldn't find reference: "@ + original_ref@),
{
    UpdateStatus::NotAvailable(concat2("Couldn't find reference: ", original_ref))
}

/// The branch conclusion, given what the branch's remote-tracking reference
/// resolved to: the branch pin comparison on a commit, or the exact
/// resolution error on none.
pub fn branch_resolution_status(locked_rev: &str, resolved: Option<Commit>) -> (r: Result<
    UpdateStatus,
    Error,
>)
    ensures
        match resolved {
            Some(c) => r matches Ok(s) && s@ == branch_status_spec(locked_rev@, c@),
            None => r matches Err(e) && (e matches Error::Error(m) && m@
                == "Couldn't resolve reference"@),
        },
{
    match resolved {
        Some(c) => Ok(branch_status(locked_rev, c)),
        None => Err(Error::Error(lit("Couldn't resolve reference"))),
    }
}

/// The tag conclusions that need no resolution: a remote without any
/// release tag is the exact error; a latest release tag equal to the
/// classified tag is already latest; a differing latest tag decides
/// nothing yet.
pub fn tag_query_status(current_tag: &str, latest_tag: &Option<String>) -> (r: Result<
    Option<UpdateStatus>,
    Error,
>)
    ensures
        match latest_tag {
            None => r matches Err(e) && (e matches Error::Error(m) && m@
                == "Couldn't find any tags in remote"@),
            Some(l) => if l@ == current_tag@ {
                r matches Ok(o) && (o matches Some(s) && s@ == UpdateStatusView::AlreadyLatest)
            } else {
                r matches Ok(o) && o is None
            },
        },
{
    match latest_tag {
        None => Err(Error::Error(lit("Couldn't find any tags in remote"))),
        Some(l) => if str_eq(l.as_str(), current_tag) {
            Ok(Some(UpdateStatus::AlreadyLatest))
        } else {
            Ok(None)
        },
    }
}

/// The conclusion for a strictly newer latest tag, given what that tag
/// resolved to: a declaration-level update onto the tag and its commit, or
/// the exact resolution error on none.
pub fn newer_tag_status(tag_ref: Ref, resolved: Option<Commit>) -> (r: Result<UpdateStatus, Error>)
    ensures
        match resolved {
            Some(c) => r matches Ok(s) && s@ == UpdateStatusView::Outdated(
                UpdateView::Input(tag_ref@, c@),
            ),
            None => r matches Err(e) && (e matches Error::Error(m) && m@
                == "Couldn't resolve the reference of the latest tag"@),
        },
{
    match resolved {
        Some(c) => Ok(UpdateStatus::Outdated(Update::Input(tag_ref, c))),
        None => Err(Error::Error(lit("Couldn't resolve the reference of the latest tag"))),
    }
}

/// The freshness checker: maps an input onto its remote, classifies the
/// declared reference, and compares pins.
pub struct UpdateServiceImpl<RS: RepositoryService> {
    git_repository_service: RS,
}

impl<RS: RepositoryService> UpdateServiceImpl<RS> {
    /// Builds the checker around a repository query capability.
    pub fn new(git_repository_service: RS) -> Self {
        Self { git_repository_service }
    }

    /// Checks whether a newer commit or tag exists for one input. Every
    /// repository failure is recovered into the `Error` conclusion; an
    /// explicitly pinned revision and an unmappable source are decided
    /// without touching the repository at all.
    pub fn available_update(&self, node: &Node) -> (r: UpdateStatus)
        ensures
            node@.original.rev_spec() is Some ==> r@ == UpdateStatusView::NotAvailable(
                "Exact revision is provided in input definition"@,
            ),
            node@.original.rev_spec() is None && unsupported_source(node@.original) ==> r@
                == UpdateStatusView::Error("an error happened: \"Source is not supported yet\""@),
    {
        match available_update_for_node(&self.git_repository_service, node) {
            Ok(status) => status,
            Err(e) => {
                proof {
                    reveal_strlit("an error happened: \"");
                    reveal_strlit("Source is not supported yet");
                    reveal_strlit("\"");
                    reveal_strlit("an error happened: \"Source is not supported yet\"");
                    assert("an error happened: \""@ + "Source is not supported yet"@ + "\""@
                        =~= "an error happened: \"Source is not supported yet\""@);
                }
                UpdateStatus::Error(e.message())
            }
        }
    }
}

/// One freshness check, with repository failures still explicit. If the
/// declared source carries an explicit revision the result is always
/// inconclusive, independent of any repository state; an unmappable source
/// always fails; otherwise the declared reference (or the default symbolic
/// reference) is classified and the matching pin comparison decides.
pub fn available_update_for_node<RS: RepositoryService>(service: &RS, node: &Node) -> (r: Result<
    UpdateStatus,
    Error,
>)
    ensures
        node@.original.rev_spec() is Some ==> (r matches Ok(s) && s@
            == UpdateStatusView::NotAvailable("Exact revision is provided in input definition"@)),
        node@.original.rev_spec() is None && unsupported_source(node@.original) ==> (r matches Err(
            e,
        ) && (e matches Error::Error(m) && m@ == "Source is not supported yet"@)),
{
    match node.original.rev() {
        Some(_) => {
            return Ok(UpdateStatus::not_available("Exact revision is provided in input definition"));
        }
        None => {}
    }
    let remote_ref = match remote_reference_of(&node.original) {
        Ok(rr) => rr,
        Err(e) => {
            return Err(e);
        }
    };
    let original_ref = match node.original.ref_name() {
        Some(r) => r,
        None => lit("refs/remotes/origin/HEAD"),
    };
    let git_ref = match service.find_branch_or_tag(&remote_ref, original_ref.as_str()) {
        Ok(g) => g,
        Err(e) => {
            return Err(e);
        }
    };
    match git_ref {
        Some(Ref::Head(branch)) => {
            let remote_tracking = Ref::Remote(concat2("origin/", branch.as_str()));
            let resolved = match service.resolve_ref(&remote_ref, &remote_tracking) {
                Ok(x) => x,
                Err(e) => {
                    return Err(e);
                }
            };
            match branch_resolution_status(node.locked.rev().as_str(), resolved) {
                Ok(status) => Ok(status),
                Err(e) => Err(e),
            }
        }
        Some(Ref::Tag(tag)) => {
            let latest_tag = match service.find_latest_tag(&remote_ref) {
                Ok(x) => x,
                Err(e) => {
                    return Err(e);
                }
            };
            match tag_query_status(tag.as_str(), &latest_tag) {
                Err(e) => Err(e),
                Ok(Some(status)) => Ok(status),
                Ok(None) => {
                    let latest = match latest_tag {
                        Some(t) => t,
                        None => {
                            proof {
                                assert(false);
                            }
                            vstd::pervasive::unreached()
                        }
                    };
                    let tag_ref = Ref::Tag(latest);
                    let resolved = match service.resolve_ref(&remote_ref, &tag_ref) {
                        Ok(x) => x,
                        Err(e) => {
                            return Err(e);
                        }
                    };
                    match newer_tag_status(tag_ref, resolved) {
                        Ok(status) => Ok(status),
                        Err(e) => Err(e),
                    }
                }
            }
        }
        Some(Ref::Remote(_)) => {
            // ruled out by the classification contract of the repository service
            proof {
                assert(false);
            }
            vstd::pervasive::unreached()
        }
        Some(Ref::HEAD) => {
            proof {
                assert(false);
            }
            vstd::pervasive::unreached()
        }
        None => Ok(missing_ref_status(original_ref.as_str())),
    }
}

} // verus!
