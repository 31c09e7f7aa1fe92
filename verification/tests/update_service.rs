use lamina::error::Error;
use lamina::git::{Commit, Ref, RemoteReference, RepositoryService};
use lamina::lock::{InputReference, Locked, Node, Original};
use lamina::update::{Update, UpdateServiceImpl, UpdateStatus};

/// A scripted repository service: each query must arrive with the expected
/// arguments and is answered with the scripted value; an unscripted query
/// fails the test.
struct StubRepo {
    branch_or_tag: Option<(RemoteReference, String, Option<Ref>)>,
    latest_tag: Option<(RemoteReference, Option<String>)>,
    resolve: Option<(RemoteReference, Ref, Option<Commit>)>,
}

impl StubRepo {
    fn empty() -> Self {
        StubRepo { branch_or_tag: None, latest_tag: None, resolve: None }
    }
}

impl RepositoryService for StubRepo {
    fn find_branch_or_tag(
        &self,
        remote_ref: &RemoteReference,
        name: &str,
    ) -> Result<Option<Ref>, Error> {
        match &self.branch_or_tag {
            Some((expected_remote, expected_name, answer)) => {
                assert_eq!(remote_ref, expected_remote);
                assert_eq!(name, expected_name.as_str());
                Ok(answer.clone())
            }
            None => panic!("unexpected find_branch_or_tag call"),
        }
    }

    fn find_latest_tag(&self, remote_ref: &RemoteReference) -> Result<Option<String>, Error> {
        match &self.latest_tag {
            Some((expected_remote, answer)) => {
                assert_eq!(remote_ref, expected_remote);
                Ok(answer.clone())
            }
            None => panic!("unexpected find_latest_tag call"),
        }
    }

    fn resolve_ref(
        &self,
        remote_ref: &RemoteReference,
        git_ref: &Ref,
    ) -> Result<Option<Commit>, Error> {
        match &self.resolve {
            Some((expected_remote, expected_ref, answer)) => {
                assert_eq!(remote_ref, expected_remote);
                assert_eq!(git_ref, expected_ref);
                Ok(answer.clone())
            }
            None => panic!("unexpected resolve_ref call"),
        }
    }
}

fn inputs(name: &str) -> Vec<(String, InputReference)> {
    vec![(String::from(name), InputReference::Alias(String::from(name)))]
}

fn git_node(url: &str, locked_rev: &str, original_rev: bool, git_ref: Option<&str>) -> Node {
    Node {
        inputs: inputs("nixpgks"),
        locked: Locked::Git {
            rev: String::from(locked_rev),
            ref_name: git_ref.map(String::from),
            url: String::from(url),
            last_modified: 1685572332,
        },
        original: Original::Git {
            url: String::from(url),
            ref_name: git_ref.map(String::from),
            rev: if original_rev { Some(String::from(locked_rev)) } else { None },
        },
    }
}

fn git_node_with_rev(url: &str, locked_rev: &str) -> Node {
    git_node(url, locked_rev, true, None)
}

fn git_node_with_ref(url: &str, locked_rev: &str, git_ref: &str) -> Node {
    git_node(url, locked_rev, false, Some(git_ref))
}

#[test]
fn test_available_update_should_return_not_available_when_original_rev_is_provided() {
    let git_repository_service = StubRepo::empty();

    let service = UpdateServiceImpl::new(git_repository_service);

    let node = git_node_with_rev("git+ssh://git@git.example.com/user/repo", "some-sha");

    let result = service.available_update(&node);

    assert_eq!(
        result,
        UpdateStatus::NotAvailable(String::from(
            "Exact revision is provided in input definition",
        ))
    );
}

#[test]
fn test_available_update_should_return_already_latest_when_branch_is_up_to_date() {
    let remote_ref = RemoteReference::url("ssh://git@git.example.com/user/repo");
    let git_repository_service = StubRepo {
        branch_or_tag: Some((remote_ref.clone(), String::from("main"), Some(Ref::head("main")))),
        latest_tag: None,
        resolve: Some((
            remote_ref,
            Ref::remote("origin/main"),
            Some(Commit::from_raw("some-sha", 1_717_539_161)),
        )),
    };

    let service = UpdateServiceImpl::new(git_repository_service);

    let node = git_node_with_ref("git+ssh://git@git.example.com/user/repo", "some-sha", "main");

    let result = service.available_update(&node);

    assert_eq!(result, UpdateStatus::AlreadyLatest);
}

#[test]
fn test_available_update_should_return_outdated_when_branch_head_points_to_different_commit() {
    let commit = Commit::from_raw("other-sha", 1_717_539_161);
    let remote_ref = RemoteReference::url("ssh://git@git.example.com/user/repo");
    let git_repository_service = StubRepo {
        branch_or_tag: Some((remote_ref.clone(), String::from("main"), Some(Ref::head("main")))),
        latest_tag: None,
        resolve: Some((remote_ref, Ref::remote("origin/main"), Some(commit.clone()))),
    };

    let service = UpdateServiceImpl::new(git_repository_service);

    let node = git_node_with_ref("git+ssh://git@git.example.com/user/repo", "some-sha", "main");

    let result = service.available_update(&node);

    assert_eq!(result, UpdateStatus::Outdated(Update::Lock(commit)));
}

#[test]
fn test_available_update_should_return_already_latest_when_tag_is_latest() {
    let remote_ref = RemoteReference::url("ssh://git@git.example.com/user/repo");
    let git_repository_service = StubRepo {
        branch_or_tag: Some((
            remote_ref.clone(),
            String::from("v0.1.0"),
            Some(Ref::tag("v0.1.0")),
        )),
        latest_tag: Some((remote_ref, Some(String::from("v0.1.0")))),
        resolve: None,
    };

    let service = UpdateServiceImpl::new(git_repository_service);

    let node = git_node_with_ref("git+ssh://git@git.example.com/user/repo", "some-sha", "v0.1.0");

    let result = service.available_update(&node);

    assert_eq!(result, UpdateStatus::AlreadyLatest);
}

#[test]
fn test_available_update_should_return_outdated_when_theres_a_newer_tag() {
    let remote_ref = RemoteReference::url("ssh://git@git.example.com/user/repo");
    let tag = String::from("v0.1.0");
    let tag_ref = Ref::Tag(tag.clone());
    let commit = Commit::from_raw("other-sha", 1_717_539_161);
    let git_repository_service = StubRepo {
        branch_or_tag: Some((
            remote_ref.clone(),
            String::from("v0.1.0"),
            Some(Ref::tag("v0.2.0")),
        )),
        latest_tag: Some((remote_ref.clone(), Some(tag.clone()))),
        resolve: Some((remote_ref, tag_ref.clone(), Some(commit.clone()))),
    };

    let service = UpdateServiceImpl::new(git_repository_service);

    let node = git_node_with_ref("git+ssh://git@git.example.com/user/repo", "some-sha", "v0.1.0");

    let result = service.available_update(&node);

    assert_eq!(result, UpdateStatus::Outdated(Update::Input(tag_ref, commit)));
}

#[test]
fn test_available_update_should_return_not_available_when_original_source_is_indirect_and_not_nixpkgs(
) {
    let git_repository_service = StubRepo::empty();

    let service = UpdateServiceImpl::new(git_repository_service);

    let node = Node {
        inputs: Vec::new(),
        locked: Locked::GitHub {
            rev: String::from("some-sha"),
            ref_name: None,
            owner: String::from("some-user"),
            repo: String::from("other-flake"),
            last_modified: 1_685_572_332,
        },
        original: Original::Indirect {
            id: String::from("some-other-flake"),
            ref_name: Some(String::from("main")),
            rev: None,
        },
    };

    let result = service.available_update(&node);

    assert_eq!(
        result,
        UpdateStatus::Error(String::from("an error happened: \"Source is not supported yet\"",))
    );
}

#[test]
fn branch_pinned_input_behind_its_remote_is_outdated_onto_that_commit() {
    let remote_ref = RemoteReference::url("https://example.com/user/repo.git");
    let new_commit = Commit::from_raw("1111111111111111111111111111111111111111", 1_700_000_000);
    let git_repository_service = StubRepo {
        branch_or_tag: Some((remote_ref.clone(), String::from("main"), Some(Ref::head("main")))),
        latest_tag: None,
        resolve: Some((remote_ref, Ref::remote("origin/main"), Some(new_commit.clone()))),
    };

    let service = UpdateServiceImpl::new(git_repository_service);

    let node = git_node_with_ref(
        "https://example.com/user/repo.git",
        "0000000000000000000000000000000000000000",
        "main",
    );

    assert_eq!(
        service.available_update(&node),
        UpdateStatus::Outdated(Update::Lock(new_commit))
    );
}

#[test]
fn unknown_reference_reports_not_available_rather_than_an_error() {
    let remote_ref = RemoteReference::url("https://example.com/user/repo.git");
    let git_repository_service = StubRepo {
        branch_or_tag: Some((remote_ref, String::from("no-such-ref"), None)),
        latest_tag: None,
        resolve: None,
    };

    let service = UpdateServiceImpl::new(git_repository_service);

    let node = git_node_with_ref("https://example.com/user/repo.git", "some-sha", "no-such-ref");

    assert_eq!(
        service.available_update(&node),
        UpdateStatus::NotAvailable(String::from("Couldn't find reference: no-such-ref"))
    );
}

#[test]
fn the_indirect_package_collection_maps_onto_its_hosting_repository() {
    let remote_ref = RemoteReference::GitHub {
        repo: String::from("nixpkgs"),
        owner: String::from("NixOS"),
    };
    let git_repository_service = StubRepo {
        branch_or_tag: Some((
            remote_ref.clone(),
            String::from("release-23.05"),
            Some(Ref::head("release-23.05")),
        )),
        latest_tag: None,
        resolve: Some((
            remote_ref,
            Ref::remote("origin/release-23.05"),
            Some(Commit::from_raw("some-sha", 1_685_572_332)),
        )),
    };

    let service = UpdateServiceImpl::new(git_repository_service);

    let node = Node {
        inputs: Vec::new(),
        locked: Locked::GitHub {
            rev: String::from("some-sha"),
            ref_name: None,
            owner: String::from("NixOS"),
            repo: String::from("nixpkgs"),
            last_modified: 1_685_572_332,
        },
        original: Original::Indirect {
            id: String::from("nixpkgs"),
            ref_name: Some(String::from("release-23.05")),
            rev: None,
        },
    };

    assert_eq!(service.available_update(&node), UpdateStatus::AlreadyLatest);
}

#[test]
fn a_missing_reference_conclusion_names_the_reference() {
    assert_eq!(
        lamina::update::missing_ref_status("refs/remotes/origin/HEAD"),
        UpdateStatus::NotAvailable(String::from(
            "Couldn't find reference: refs/remotes/origin/HEAD"
        ))
    );
}

#[test]
fn an_unresolvable_branch_is_the_exact_error() {
    let result = lamina::update::branch_resolution_status("some-sha", None);
    assert_eq!(
        result.unwrap_err(),
        Error::Error(String::from("Couldn't resolve reference"))
    );
}

#[test]
fn the_tag_query_decides_equal_latest_and_absent_tags() {
    assert_eq!(
        lamina::update::tag_query_status("v0.1.0", &Some(String::from("v0.1.0"))),
        Ok(Some(UpdateStatus::AlreadyLatest))
    );
    assert_eq!(
        lamina::update::tag_query_status("v0.1.0", &Some(String::from("v0.2.0"))),
        Ok(None)
    );
    assert_eq!(
        lamina::update::tag_query_status("v0.1.0", &None),
        Err(Error::Error(String::from("Couldn't find any tags in remote")))
    );
}

#[test]
fn a_newer_tag_resolves_to_a_declaration_update() {
    let commit = Commit::from_raw("other-sha", 1_717_539_161);
    assert_eq!(
        lamina::update::newer_tag_status(Ref::tag("v0.2.0"), Some(commit.clone())),
        Ok(UpdateStatus::Outdated(Update::Input(Ref::tag("v0.2.0"), commit)))
    );
    assert_eq!(
        lamina::update::newer_tag_status(Ref::tag("v0.2.0"), None),
        Err(Error::Error(String::from(
            "Couldn't resolve the reference of the latest tag"
        )))
    );
}
