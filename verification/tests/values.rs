use lamina::error::{Error, Side};
use lamina::fs::{ensure_file, ensure_flake_nix_path};
use lamina::git::{Commit, GitRepositoryConfig, Ref, RemoteReference};
use lamina::lock::{Locked, Original};
use lamina::strategy::{override_url, SyncInputNames, SyncStrategy};
use lamina::update::UpdateStatus;

#[test]
fn equal_names_collapse_to_the_symmetric_pairing() {
    let names =
        SyncInputNames::source_and_destination(String::from("dep"), String::from("dep"));
    assert_eq!(names, SyncInputNames::same(String::from("dep")));
    assert_eq!(names.source(), &String::from("dep"));
    assert_eq!(names.destination(), &String::from("dep"));
}

#[test]
fn differing_names_keep_both_sides() {
    let names =
        SyncInputNames::source_and_destination(String::from("a"), String::from("b"));
    assert_eq!(names.source(), &String::from("a"));
    assert_eq!(names.destination(), &String::from("b"));
}

#[test]
fn strategy_constructors_carry_url_and_names() {
    let names = SyncInputNames::same(String::from("dep"));
    let lock_only = SyncStrategy::lock_only(String::from("github:o/r/123"), &names);
    assert_eq!(
        lock_only,
        SyncStrategy::LockOnly {
            lock_url: String::from("github:o/r/123"),
            input_names: SyncInputNames::same(String::from("dep")),
        }
    );
    let both = SyncStrategy::flake_nix_and_lock(String::from("github:o/r/123"), &names);
    assert_eq!(
        both,
        SyncStrategy::FlakeNixAndLock {
            lock_url: String::from("github:o/r/123"),
            input_names: SyncInputNames::same(String::from("dep")),
        }
    );
}

#[test]
fn override_url_of_indirect_source_is_id_slash_rev() {
    let original = Original::Indirect {
        id: String::from("nixpkgs"),
        ref_name: Some(String::from("release-23.05")),
        rev: None,
    };
    let locked = Locked::GitHub {
        rev: String::from("abc123"),
        ref_name: None,
        owner: String::from("NixOS"),
        repo: String::from("nixpkgs"),
        last_modified: 0,
    };
    assert_eq!(override_url(&original, &locked), Ok(String::from("nixpkgs/abc123")));
}

#[test]
fn override_url_of_git_pin_includes_ref_exactly_when_present() {
    let original = Original::Git {
        url: String::from("https://example.com/a.git"),
        ref_name: None,
        rev: None,
    };
    let with_ref = Locked::Git {
        rev: String::from("abc"),
        ref_name: Some(String::from("refs/heads/main")),
        url: String::from("https://example.com/a.git"),
        last_modified: 0,
    };
    let without_ref = Locked::Git {
        rev: String::from("abc"),
        ref_name: None,
        url: String::from("https://example.com/a.git"),
        last_modified: 0,
    };
    assert_eq!(
        override_url(&original, &with_ref),
        Ok(String::from("git+https://example.com/a.git?ref=refs/heads/main&rev=abc"))
    );
    assert_eq!(
        override_url(&original, &without_ref),
        Ok(String::from("git+https://example.com/a.git?rev=abc"))
    );
}

#[test]
fn override_url_is_pure_across_repeated_calls() {
    let original = Original::GitHub {
        owner: String::from("owner"),
        repo: String::from("repo"),
        ref_name: None,
        rev: None,
    };
    let locked = Locked::GitHub {
        rev: String::from("abc"),
        ref_name: None,
        owner: String::from("owner"),
        repo: String::from("repo"),
        last_modified: 0,
    };
    let first = override_url(&original, &locked);
    let second = override_url(&original, &locked);
    assert_eq!(first, second);
    assert_eq!(first, Ok(String::from("github:owner/repo/abc")));
}

#[test]
fn base_identities_render_by_source_kind() {
    assert_eq!(
        Original::Git { url: String::from("https://x/y.git"), ref_name: None, rev: None }.base(),
        String::from("https://x/y.git")
    );
    assert_eq!(
        Original::GitHub {
            owner: String::from("o"),
            repo: String::from("r"),
            ref_name: None,
            rev: None
        }
        .base(),
        String::from("github:o/r")
    );
    assert_eq!(
        Original::GitLab {
            owner: String::from("o"),
            repo: String::from("r"),
            ref_name: None,
            rev: None
        }
        .base(),
        String::from("gitlab:o/r")
    );
    assert_eq!(
        Original::Indirect { id: String::from("nixpkgs"), ref_name: None, rev: None }.base(),
        String::from("nixpkgs")
    );
}

#[test]
fn refs_render_their_full_reference_paths() {
    assert_eq!(Ref::HEAD.to_ref_string(), String::from("HEAD"));
    assert_eq!(Ref::head("main").to_ref_string(), String::from("refs/heads/main"));
    assert_eq!(Ref::tag("v1.0.0").to_ref_string(), String::from("refs/tags/v1.0.0"));
    assert_eq!(
        Ref::remote("origin/main").to_ref_string(),
        String::from("refs/remotes/origin/main")
    );
}

#[test]
fn remote_references_render_their_clone_urls() {
    assert_eq!(
        RemoteReference::url("ssh://git@example.com/a.git").to_url(),
        String::from("ssh://git@example.com/a.git")
    );
    assert_eq!(
        RemoteReference::GitHub { repo: String::from("r"), owner: String::from("o") }.to_url(),
        String::from("https://github.com/o/r")
    );
    assert_eq!(
        RemoteReference::GitLab { repo: String::from("r"), owner: String::from("o") }.to_url(),
        String::from("https://gitlab.com/o/r")
    );
}

#[test]
fn commits_keep_their_raw_parts() {
    let c = Commit::from_raw("abc", 1_717_539_161);
    assert_eq!(c.sha, String::from("abc"));
    assert_eq!(c.commit_time, 1_717_539_161);
}

#[test]
fn error_messages_name_their_cause() {
    assert_eq!(
        Error::Error(String::from("Source is not supported yet")).message(),
        String::from("an error happened: \"Source is not supported yet\"")
    );
    assert_eq!(
        Error::InvalidFlakeLock { reason: String::from("bad json") }.message(),
        String::from("flake.lock invalid: bad json")
    );
    assert_eq!(
        Error::MissingOriginalOrLocked { side: Side::Source, name: String::from("dep") }
            .message(),
        String::from("Couldn't find dep's Original or Locked at source.")
    );
    assert_eq!(
        Error::UnsupportedSourceKind { kind: String::from("gitlab") }.message(),
        String::from("an error happened: \"gitlab is not supported yet\"")
    );
}

#[test]
fn not_available_keeps_its_reason() {
    assert_eq!(
        UpdateStatus::not_available("Exact revision is provided in input definition"),
        UpdateStatus::NotAvailable(String::from(
            "Exact revision is provided in input definition"
        ))
    );
}

#[test]
fn ensure_file_pushes_onto_a_directory_and_checks_the_name() {
    assert_eq!(
        ensure_file("/tmp/project", "flake.lock", true),
        Ok(String::from("/tmp/project/flake.lock"))
    );
    assert_eq!(
        ensure_file("/tmp/project/flake.lock", "flake.lock", false),
        Ok(String::from("/tmp/project/flake.lock"))
    );
    assert!(matches!(
        ensure_file("/tmp/project/flake.nix", "flake.lock", false),
        Err(Error::Error(_))
    ));
}

#[test]
fn ensure_flake_nix_path_only_pushes() {
    assert_eq!(
        ensure_flake_nix_path("/tmp/project", true),
        String::from("/tmp/project/flake.nix")
    );
    assert_eq!(
        ensure_flake_nix_path("/tmp/project/flake.nix", false),
        String::from("/tmp/project/flake.nix")
    );
}

#[test]
fn the_repository_config_keeps_its_parts() {
    let config = GitRepositoryConfig::new(true, String::from("/home/user/.cache/repos"));
    assert!(config.cache);
    assert_eq!(config.cache_dir, String::from("/home/user/.cache/repos"));
}
