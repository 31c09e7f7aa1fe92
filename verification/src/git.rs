use vstd::prelude::*;
use vstd::string::StringExecFns;

use crate::error::{concat2, lit, Error};

verus! {

/// A resolved commit: its identifier and the time it was committed,
/// as seconds since the Unix epoch.
#[derive(Debug, PartialEq, Eq)]
pub struct Commit {
    pub sha: String,
    pub commit_time: i64,
}

/// The mathematical value of a commit.
pub struct CommitView {
    pub sha: Seq<char>,
    pub commit_time: i64,
}

impl View for Commit {
    type V = CommitView;

    open spec fn view(&self) -> CommitView {
        CommitView { sha: self.sha@, commit_time: self.commit_time }
    }
}

impl Clone for Commit {
    fn clone(&self) -> (r: Self)
        ensures
            r == *self,
    {
        Commit { sha: self.sha.clone(), commit_time: self.commit_time }
    }
}

impl Commit {
    /// Builds a commit from its identifier and its commit time in epoch seconds.
    pub fn from_raw(sha: &str, commit_date: i64) -> (r: Self)
        ensures
            r.sha@ == sha@,
            r.commit_time == commit_date,
    {
        Commit { sha: sha.to_owned(), commit_time: commit_date }
    }
}

/// A named pointer into version-control history, classified.
#[derive(Debug, PartialEq, Eq)]
pub enum Ref {
    /// The symbolic default reference of a remote.
    HEAD,
    /// A branch head.
    Head(String),
    /// A tag.
    Tag(String),
    /// A raw remote-tracking reference such as `origin/main`.
    Remote(String),
}

/// The mathematical value of a classified reference.
pub enum RefView {
    HEAD,
    Head(Seq<char>),
    Tag(Seq<char>),
    Remote(Seq<char>),
}

impl View for Ref {
    type V = RefView;

    open spec fn view(&self) -> RefView {
        match self {
            Ref::HEAD => RefView::HEAD,
            Ref::Head(b) => RefView::Head(b@),
            Ref::Tag(t) => RefView::Tag(t@),
            Ref::Remote(s) => RefView::Remote(s@),
        }
    }
}

impl Clone for Ref {
    fn clone(&self) -> (r: Self)
        ensures
            r == *self,
    {
        match self {
            Ref::HEAD => Ref::HEAD,
            Ref::Head(b) => Ref::Head(b.clone()),
            Ref::Tag(t) => Ref::Tag(t.clone()),
            Ref::Remote(s) => Ref::Remote(s.clone()),
        }
    }
}

impl Ref {
    /// A branch reference with the given name.
    pub fn head(name: &str) -> (r: Self)
        ensures
            r matches Ref::Head(b) && b@ == name@,
    {
        Ref::Head(name.to_owned())
    }

    /// A tag reference with the given name.
    pub fn tag(name: &str) -> (r: Self)
        ensures
            r matches Ref::Tag(t) && t@ == name@,
    {
        Ref::Tag(name.to_owned())
    }

    /// A raw remote-tracking reference with the given name.
    pub fn remote(name: &str) -> (r: Self)
        ensures
            r matches Ref::Remote(s) && s@ == name@,
    {
        Ref::Remote(name.to_owned())
    }

    /// The full reference path this value names in a repository.
    pub open spec fn ref_string_spec(&self) -> Seq<char> {
        match self {
            Ref::HEAD => "HEAD"@,
            Ref::Head(b) => "refs/heads/"@ + b@,
            Ref::Tag(t) => "refs/tags/"@ + t@,
            Ref::Remote(s) => "refs/remotes/"@ + s@,
        }
    }

    /// Renders the full reference path, `refs/tags/<name>` for a tag and so on.
    pub fn to_ref_string(&self) -> (r: String)
        ensures
            r@ == self.ref_string_spec(),
    {
        match self {
            Ref::HEAD => lit("HEAD"),
            Ref::Head(b) => concat2("refs/heads/", b.as_str()),
            Ref::Tag(t) => concat2("refs/tags/", t.as_str()),
            Ref::Remote(s) => concat2("refs/remotes/", s.as_str()),
        }
    }
}

/// Where a remote repository lives: a bare URL, or a repository of a
/// well-known hosting service.
#[derive(Debug, PartialEq, Eq)]
pub enum RemoteReference {
    Url(String),
    GitHub { repo: String, owner: String },
    GitLab { repo: String, owner: String },
}

/// The mathematical value of a remote location.
pub enum RemoteRefView {
    Url(Seq<char>),
    GitHub { repo: Seq<char>, owner: Seq<char> },
    GitLab { repo: Seq<char>, owner: Seq<char> },
}

impl View for RemoteReference {
    type V = RemoteRefView;

    open spec fn view(&self) -> RemoteRefView {
        match self {
            RemoteReference::Url(u) => RemoteRefView::Url(u@),
            RemoteReference::GitHub { repo, owner } => RemoteRefView::GitHub {
                repo: repo@,
                owner: owner@,
            },
            RemoteReference::GitLab { repo, owner } => RemoteRefView::GitLab {
                repo: repo@,
                owner: owner@,
            },
        }
    }
}

impl Clone for RemoteReference {
    fn clone(&self) -> (r: Self)
        ensures
            r == *self,
    {
        match self {
            RemoteReference::Url(u) => RemoteReference::Url(u.clone()),
            RemoteReference::GitHub { repo, owner } => RemoteReference::GitHub {
                repo: repo.clone(),
                owner: owner.clone(),
            },
            RemoteReference::GitLab { repo, owner } => RemoteReference::GitLab {
                repo: repo.clone(),
                owner: owner.clone(),
            },
        }
    }
}

impl RemoteReference {
    /// A remote named directly by its URL.
    pub fn url(u: &str) -> (r: Self)
        ensures
            r matches RemoteReference::Url(s) && s@ == u@,
    {
        RemoteReference::Url(u.to_owned())
    }

    /// The URL a clone of this remote is fetched from.
    pub open spec fn to_url_spec(&self) -> Seq<char> {
        match self {
            RemoteReference::Url(u) => u@,
            RemoteReference::GitHub { repo, owner } => "https://github.com/"@ + owner@ + "/"@
                + repo@,
            RemoteReference::GitLab { repo, owner } => "https://gitlab.com/"@ + owner@ + "/"@
                + repo@,
        }
    }

    /// Renders the URL a clone of this remote is fetched from.
    pub fn to_url(&self) -> (r: String)
        ensures
            r@ == self.to_url_spec(),
    {
        match self {
            RemoteReference::Url(u) => u.clone(),
            RemoteReference::GitHub { repo, owner } => {
                let mut s = lit("https://github.com/");
                s.append(owner.as_str());
                s.append("/");
                s.append(repo.as_str());
                s
            }
            RemoteReference::GitLab { repo, owner } => {
                let mut s = lit("https://gitlab.com/");
                s.append(owner.as_str());
                s.append("/");
                s.append(repo.as_str());
                s
            }
        }
    }
}

/// Query access to a remote repository: branch and tag lookup, and
/// resolution of a reference to a commit. The library only consumes this
/// capability; the transport behind it lives outside the library.
pub trait RepositoryService {
    /// Looks `name` up among the remote's branches, then among its tags.
    ///
    /// The classification contract: a successful lookup yields a branch or a
    /// tag, never the symbolic `HEAD` nor a raw remote-tracking reference;
    /// an unknown name yields `None`.
    fn find_branch_or_tag(&self, remote_ref: &RemoteReference, name: &str) -> (r: Result<
        Option<Ref>,
        Error,
    >)
        ensures
            match r {
                Ok(Some(gref)) => gref matches Ref::Head(_) || gref matches Ref::Tag(_),
                _ => true,
            },
    ;

    /// The latest release tag of the remote, if any tag parses as a
    /// semantic version.
    fn find_latest_tag(&self, remote_ref: &RemoteReference) -> Result<Option<String>, Error>;

    /// Resolves a reference to the commit it points at.
    fn resolve_ref(&self, remote_ref: &RemoteReference, git_ref: &Ref) -> Result<
        Option<Commit>,
        Error,
    >;
}


/// How the surrounding program's repository service keeps its clones: in a
/// persistent cache directory, or in throwaway temporaries.
#[derive(Debug, PartialEq, Eq)]
pub struct GitRepositoryConfig {
    pub cache: bool,
    pub cache_dir: String,
}

impl GitRepositoryConfig {
    /// Builds a clone-cache configuration.
    pub fn new(cache: bool, cache_dir: String) -> (r: Self)
        ensures
            r.cache == cache,
            r.cache_dir@ == cache_dir@,
    {
        Self { cache, cache_dir }
    }
}

} // verus!
