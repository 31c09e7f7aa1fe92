use lamina::commands::{apply_strategies, sync_strategies};
use lamina::error::Error;
use lamina::lock::{FlakeLock, InputReference, Locked, Node, Original, RootNode};
use lamina::strategy::{SyncInputNames, SyncStrategy};

fn node(url: &str, locked_rev: &str, git_ref: Option<&str>) -> Node {
    Node {
        inputs: Vec::new(),
        locked: Locked::Git {
            rev: String::from(locked_rev),
            ref_name: git_ref.map(String::from),
            url: String::from(url),
            last_modified: 1685572332,
        },
        original: Original::Git {
            url: String::from(url),
            ref_name: git_ref.map(String::from),
            rev: None,
        },
    }
}

fn lock_with(entries: Vec<(&str, Node)>) -> FlakeLock {
    FlakeLock {
        root: RootNode {
            inputs: entries
                .iter()
                .map(|(name, _)| {
                    (String::from(*name), InputReference::Alias(String::from(*name)))
                })
                .collect(),
        },
        nodes: entries.into_iter().map(|(name, n)| (String::from(name), n)).collect(),
    }
}

#[test]
fn batch_planning_decides_every_input_before_any_side_effect() {
    let source = lock_with(vec![
        ("a", node("https://example.com/a.git", "rev-a2", None)),
        ("b", node("https://example.com/b.git", "rev-b2", Some("refs/heads/dev"))),
    ]);
    let destination = lock_with(vec![
        ("a", node("https://example.com/a.git", "rev-a1", None)),
        ("b", node("https://example.com/b.git", "rev-b1", None)),
    ]);
    let inputs = vec![
        SyncInputNames::same(String::from("a")),
        SyncInputNames::same(String::from("b")),
    ];

    let strategies = sync_strategies(&source, &destination, &inputs).unwrap();

    assert_eq!(
        strategies,
        vec![
            SyncStrategy::lock_only(
                String::from("git+https://example.com/a.git?rev=rev-a2"),
                &inputs[0]
            ),
            SyncStrategy::flake_nix_and_lock(
                String::from("git+https://example.com/b.git?ref=refs/heads/dev&rev=rev-b2"),
                &inputs[1]
            ),
        ]
    );
}

#[test]
fn batch_planning_fails_fast_on_the_first_incompatible_input() {
    let source = lock_with(vec![
        ("a", node("https://example.com/a.git", "rev-a2", None)),
    ]);
    let destination = lock_with(vec![
        ("a", node("https://example.com/other.git", "rev-a1", None)),
    ]);
    let inputs = vec![SyncInputNames::same(String::from("a"))];

    assert_eq!(
        sync_strategies(&source, &destination, &inputs),
        Err(Error::IncompatibleSources)
    );
}

#[test]
fn lock_only_plans_leave_the_destination_text_alone() {
    let destination_text = "{ inputs.a.url = \"git+https://example.com/a.git\"; }";
    let strategies = vec![SyncStrategy::lock_only(
        String::from("git+https://example.com/a.git?rev=rev-a2"),
        &SyncInputNames::same(String::from("a")),
    )];
    let out = apply_strategies("{ }", destination_text, &strategies).unwrap();
    assert_eq!(out, String::from(destination_text));
}

#[test]
fn declaration_strategies_rewrite_their_input_only() {
    let source_text = "{\n  inputs.a.url = \"git+https://example.com/a.git?ref=refs/tags/v2\";\n  inputs.b.url = \"git+https://example.com/b.git\";\n}";
    let destination_text = "{\n  inputs.a.url = \"git+https://example.com/a.git\";\n  inputs.b.url = \"git+https://example.com/b.git\";\n}";
    let strategies = vec![SyncStrategy::flake_nix_and_lock(
        String::from("git+https://example.com/a.git?ref=refs/tags/v2&rev=123"),
        &SyncInputNames::same(String::from("a")),
    )];
    let out = apply_strategies(source_text, destination_text, &strategies).unwrap();
    assert_eq!(
        out,
        "{\n  inputs.a.url = \"git+https://example.com/a.git?ref=refs/tags/v2\";\n  inputs.b.url = \"git+https://example.com/b.git\";\n}"
    );
}
