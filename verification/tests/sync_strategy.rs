use lamina::error::Error;
use lamina::lock::{FlakeLock, InputReference, Locked, Node, Original, RootNode};
use lamina::strategy::{SyncInputNames, SyncServiceImpl, SyncStrategy};

const HASH_1: &str = "f542386b0646cf39b9475a200979adabd07d98b2";
const HASH_2: &str = "4468e5deabf5e6d0740cd1a77df56f67093ec943";

fn input_names() -> SyncInputNames {
    SyncInputNames::same(String::from("nix-rust-utils"))
}

fn inputs(name: &str) -> Vec<(String, InputReference)> {
    vec![(String::from(name), InputReference::Alias(String::from(name)))]
}

fn git_node(url: &str, locked_rev: &str, original_rev: bool, git_ref: Option<&str>) -> Node {
    Node {
        inputs: inputs("nixpgks"),
        locked: Locked::Git {
            rev: String::from(locked_rev),
            ref_name: git_ref.map(String::from),
            url: String::from(url),
            last_modified: 1685572332,
        },
        original: Original::Git {
            url: String::from(url),
            ref_name: git_ref.map(String::from),
            rev: if original_rev { Some(String::from(locked_rev)) } else { None },
        },
    }
}

fn git_node_with_url_only(url: &str, locked_rev: &str) -> Node {
    git_node(url, locked_rev, false, None)
}

fn git_node_with_rev(url: &str, locked_rev: &str) -> Node {
    git_node(url, locked_rev, true, None)
}

fn git_node_with_ref(url: &str, locked_rev: &str, git_ref: &str) -> Node {
    git_node(url, locked_rev, false, Some(git_ref))
}

fn github_node(
    owner: &str,
    repo: &str,
    locked_rev: &str,
    original_rev: bool,
    git_ref: Option<&str>,
) -> Node {
    Node {
        inputs: inputs("nixpkgs"),
        locked: Locked::GitHub {
            rev: String::from(locked_rev),
            ref_name: git_ref.map(String::from),
            owner: String::from(owner),
            repo: String::from(repo),
            last_modified: 1685572332,
        },
        original: Original::GitHub {
            owner: String::from(owner),
            repo: String::from(repo),
            ref_name: git_ref.map(String::from),
            rev: if original_rev { Some(String::from(locked_rev)) } else { None },
        },
    }
}

fn github_node_with_owner_and_repo_only(owner: &str, repo: &str, locked_rev: &str) -> Node {
    github_node(owner, repo, locked_rev, false, None)
}

fn github_node_with_ref(owner: &str, repo: &str, locked_rev: &str, git_ref: &str) -> Node {
    github_node(owner, repo, locked_rev, false, Some(git_ref))
}

fn nixpkgs_node_with_ref(indirect_ref: &str, locked_rev: &str) -> Node {
    Node {
        inputs: inputs("nixpkgs"),
        locked: Locked::GitHub {
            rev: String::from(locked_rev),
            ref_name: Some(String::from(indirect_ref)),
            owner: String::from("NixOS"),
            repo: String::from("nixpgks"),
            last_modified: 1685572332,
        },
        original: Original::Indirect {
            id: String::from("nixpkgs"),
            ref_name: Some(String::from(indirect_ref)),
            rev: None,
        },
    }
}

fn nixpkgs_background_node() -> Node {
    Node {
        inputs: Vec::new(),
        locked: Locked::GitHub {
            rev: String::from("a08e061a4ee8329747d54ddf1566d34c55c895eb"),
            ref_name: None,
            owner: String::from("NixOS"),
            repo: String::from("nixpkgs"),
            last_modified: 1683627095,
        },
        original: Original::Indirect {
            id: String::from("nixpkgs"),
            ref_name: None,
            rev: None,
        },
    }
}

fn flake_lock_with_node(name: &str, node: Node) -> FlakeLock {
    FlakeLock {
        root: RootNode { inputs: inputs("nix-rust-utils") },
        nodes: vec![
            (String::from(name), node),
            (String::from("nixpkgs"), nixpkgs_background_node()),
        ],
    }
}

fn strategy_of(source_node: Node, destination_node: Node) -> Result<SyncStrategy, Error> {
    let service = SyncServiceImpl {};
    let names = input_names();
    service.sync_strategy(
        &flake_lock_with_node("nix-rust-utils", source_node),
        &flake_lock_with_node("nix-rust-utils", destination_node),
        &names,
    )
}

#[test]
fn git_url_to_git_url_gives_lock_only() {
    assert_eq!(
        strategy_of(
            git_node_with_url_only("https://example.com/user/repo.git", HASH_2),
            git_node_with_url_only("https://example.com/user/repo.git", HASH_1),
        ),
        Ok(SyncStrategy::lock_only(
            format!("git+https://example.com/user/repo.git?rev={HASH_2}"),
            &input_names()
        ))
    );
}

#[test]
fn git_ref_to_git_url_rewrites_declaration() {
    assert_eq!(
        strategy_of(
            git_node_with_ref("https://example.com/user/repo.git", HASH_2, "refs/tags/v0.2.0"),
            git_node_with_url_only("https://example.com/user/repo.git", HASH_1),
        ),
        Ok(SyncStrategy::flake_nix_and_lock(
            format!("git+https://example.com/user/repo.git?ref=refs/tags/v0.2.0&rev={HASH_2}"),
            &input_names()
        ))
    );
}

#[test]
fn git_differing_refs_rewrite_declaration() {
    assert_eq!(
        strategy_of(
            git_node_with_ref("https://example.com/user/repo.git", HASH_2, "refs/tags/v0.2.0"),
            git_node_with_ref("https://example.com/user/repo.git", HASH_1, "refs/tags/v0.1.0"),
        ),
        Ok(SyncStrategy::flake_nix_and_lock(
            format!("git+https://example.com/user/repo.git?ref=refs/tags/v0.2.0&rev={HASH_2}"),
            &input_names()
        ))
    );
}

#[test]
fn git_equal_refs_give_lock_only() {
    assert_eq!(
        strategy_of(
            git_node_with_ref("https://example.com/user/repo.git", HASH_2, "refs/tags/v0.2.0"),
            git_node_with_ref("https://example.com/user/repo.git", HASH_1, "refs/tags/v0.2.0"),
        ),
        Ok(SyncStrategy::lock_only(
            format!("git+https://example.com/user/repo.git?ref=refs/tags/v0.2.0&rev={HASH_2}"),
            &input_names()
        ))
    );
}

#[test]
fn git_equal_revs_still_give_lock_only() {
    assert_eq!(
        strategy_of(
            git_node_with_rev("https://example.com/user/repo.git", HASH_1),
            git_node_with_rev("https://example.com/user/repo.git", HASH_1),
        ),
        Ok(SyncStrategy::lock_only(
            format!("git+https://example.com/user/repo.git?rev={HASH_1}"),
            &input_names()
        ))
    );
}

#[test]
fn git_differing_revs_rewrite_declaration() {
    assert_eq!(
        strategy_of(
            git_node_with_rev("https://example.com/user/repo.git", HASH_2),
            git_node_with_rev("https://example.com/user/repo.git", HASH_1),
        ),
        Ok(SyncStrategy::flake_nix_and_lock(
            format!("git+https://example.com/user/repo.git?rev={HASH_2}"),
            &input_names()
        ))
    );
}

#[test]
fn github_to_github_gives_lock_only() {
    assert_eq!(
        strategy_of(
            github_node_with_owner_and_repo_only("owner", "repo", HASH_2),
            github_node_with_owner_and_repo_only("owner", "repo", HASH_1),
        ),
        Ok(SyncStrategy::lock_only(format!("github:owner/repo/{HASH_2}"), &input_names()))
    );
}

#[test]
fn github_equal_refs_give_lock_only() {
    assert_eq!(
        strategy_of(
            github_node_with_ref("owner", "repo", HASH_2, "main"),
            github_node_with_ref("owner", "repo", HASH_1, "main"),
        ),
        Ok(SyncStrategy::lock_only(format!("github:owner/repo/{HASH_2}"), &input_names()))
    );
}

#[test]
fn github_differing_refs_rewrite_declaration() {
    assert_eq!(
        strategy_of(
            github_node_with_ref("owner", "repo", HASH_2, "feature-branch"),
            github_node_with_ref("owner", "repo", HASH_1, "main"),
        ),
        Ok(SyncStrategy::flake_nix_and_lock(
            format!("github:owner/repo/{HASH_2}"),
            &input_names()
        ))
    );
}

#[test]
fn indirect_equal_refs_give_lock_only() {
    assert_eq!(
        strategy_of(
            nixpkgs_node_with_ref("release-23.05", HASH_2),
            nixpkgs_node_with_ref("release-23.05", HASH_1),
        ),
        Ok(SyncStrategy::lock_only(format!("nixpkgs/{HASH_2}"), &input_names()))
    );
}

#[test]
fn differing_sources_are_incompatible() {
    assert_eq!(
        strategy_of(
            github_node_with_ref("owner", "repo", HASH_1, "main"),
            git_node_with_url_only("https://example.com/user/repo.git", HASH_1),
        ),
        Err(Error::IncompatibleSources)
    );
}

#[test]
fn unpinned_source_to_ref_pinned_destination_rewrites_declaration() {
    assert_eq!(
        strategy_of(
            git_node_with_url_only("https://example.com/a.git", "1111111"),
            git_node_with_ref("https://example.com/a.git", "2222222", "refs/heads/main"),
        ),
        Ok(SyncStrategy::flake_nix_and_lock(
            String::from("git+https://example.com/a.git?rev=1111111"),
            &input_names()
        ))
    );
}

#[test]
fn gitlab_pinned_source_is_unsupported() {
    let source = Node {
        inputs: Vec::new(),
        locked: Locked::GitLab {
            rev: String::from(HASH_1),
            ref_name: None,
            owner: String::from("owner"),
            repo: String::from("repo"),
            last_modified: 1685572332,
        },
        original: Original::GitLab {
            owner: String::from("owner"),
            repo: String::from("repo"),
            ref_name: None,
            rev: None,
        },
    };
    let destination = Node {
        inputs: Vec::new(),
        locked: Locked::GitLab {
            rev: String::from(HASH_2),
            ref_name: None,
            owner: String::from("owner"),
            repo: String::from("repo"),
            last_modified: 1685572332,
        },
        original: Original::GitLab {
            owner: String::from("owner"),
            repo: String::from("repo"),
            ref_name: None,
            rev: None,
        },
    };
    assert_eq!(
        strategy_of(source, destination),
        Err(Error::UnsupportedSourceKind { kind: String::from("gitlab") })
    );
}

#[test]
fn unknown_input_names_the_missing_side() {
    let service = SyncServiceImpl {};
    let names = SyncInputNames::same(String::from("absent"));
    let result = service.sync_strategy(
        &flake_lock_with_node(
            "nix-rust-utils",
            git_node_with_url_only("https://example.com/a.git", HASH_1),
        ),
        &flake_lock_with_node(
            "nix-rust-utils",
            git_node_with_url_only("https://example.com/a.git", HASH_2),
        ),
        &names,
    );
    assert_eq!(
        result,
        Err(Error::MissingOriginalOrLocked {
            side: lamina::error::Side::Source,
            name: String::from("absent"),
        })
    );
}
