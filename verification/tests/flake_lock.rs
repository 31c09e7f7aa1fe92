use lamina::error::Error;
use lamina::lock::{FlakeLock, InputReference, Locked, Node, Original, RootNode};
use lamina::lock_load::{DocNode, FlakeLockMapperImpl, InputValue, LockDocument};

fn inputs(name: &str) -> Vec<(String, InputReference)> {
    vec![(String::from(name), InputReference::Alias(String::from(name)))]
}

fn git_node_with_url_only(url: &str, locked_rev: &str) -> Node {
    Node {
        inputs: inputs("nixpgks"),
        locked: Locked::Git {
            rev: String::from(locked_rev),
            ref_name: None,
            url: String::from(url),
            last_modified: 1685572332,
        },
        original: Original::Git {
            url: String::from(url),
            ref_name: None,
            rev: None,
        },
    }
}

fn github_node_with_ref(owner: &str, repo: &str, locked_rev: &str, git_ref: &str) -> Node {
    Node {
        inputs: inputs("nixpkgs"),
        locked: Locked::GitHub {
            rev: String::from(locked_rev),
            ref_name: Some(String::from(git_ref)),
            owner: String::from(owner),
            repo: String::from(repo),
            last_modified: 1685572332,
        },
        original: Original::GitHub {
            owner: String::from(owner),
            repo: String::from(repo),
            ref_name: Some(String::from(git_ref)),
            rev: None,
        },
    }
}

fn nixpkgs_node() -> Node {
    Node {
        inputs: Vec::new(),
        locked: Locked::GitHub {
            rev: String::from("a08e061a4ee8329747d54ddf1566d34c55c895eb"),
            ref_name: None,
            owner: String::from("NixOS"),
            repo: String::from("nixpkgs"),
            last_modified: 1683627095,
        },
        original: Original::Indirect {
            id: String::from("nixpkgs"),
            ref_name: None,
            rev: None,
        },
    }
}

fn flake_lock_with_node(name: &str, node: Node) -> FlakeLock {
    FlakeLock {
        root: RootNode { inputs: inputs("nix-rust-utils") },
        nodes: vec![
            (String::from(name), node),
            (String::from("nixpkgs"), nixpkgs_node()),
        ],
    }
}

#[test]
fn top_level_nodes_should_return_root_nodes() {
    let node = git_node_with_url_only(
        "https://git.vdx.hu/voidcontext/nix-rust-utils.git",
        "3892194d7b3293de8b30f1d19e2af45ba41ba8fd",
    );
    let name = "nix-rust-utils";
    let top_level_nodes = flake_lock_with_node(name, node.clone()).input_nodes();

    assert_eq!(top_level_nodes, vec![(String::from(name), node)]);
}

#[test]
fn locked_rev_of_should_return_locked_revision() {
    let node = git_node_with_url_only(
        "https://git.vdx.hu/voidcontext/nix-rust-utils.git",
        "3892194d7b3293de8b30f1d19e2af45ba41ba8fd",
    );
    let name = "nix-rust-utils";
    assert_eq!(
        flake_lock_with_node(name, node).locked_rev_of("nix-rust-utils"),
        Some(String::from("3892194d7b3293de8b30f1d19e2af45ba41ba8fd"))
    );
}

#[test]
fn original_of_should_return_original_definition_of_input() {
    let node = github_node_with_ref(
        "voidcontext",
        "nix-rust-utils",
        "3892194d7b3293de8b30f1d19e2af45ba41ba8fd",
        "refs/heads/main",
    );
    let name = "nix-rust-utils";
    let original = Original::GitHub {
        owner: String::from("voidcontext"),
        repo: String::from("nix-rust-utils"),
        ref_name: Some(String::from("refs/heads/main")),
        rev: None,
    };

    assert_eq!(flake_lock_with_node(name, node).original_of(name), Some(original));
}

#[test]
fn locked_of_unknown_input_is_empty() {
    let node = git_node_with_url_only("https://example.com/a.git", "1234");
    let lock = flake_lock_with_node("nix-rust-utils", node);
    assert_eq!(lock.locked_of("unknown"), None);
    assert_eq!(lock.original_of("unknown"), None);
    assert_eq!(lock.locked_rev_of("unknown"), None);
}

fn doc_node(
    node_inputs: Option<Vec<(String, InputValue)>>,
    locked: Option<Locked>,
    original: Option<Original>,
) -> DocNode {
    DocNode { flake: None, inputs: node_inputs, locked, original }
}

fn simple_document() -> LockDocument {
    let target = git_node_with_url_only("https://example.com/a.git", "1234");
    LockDocument {
        root: String::from("root"),
        nodes: vec![
            (
                String::from("root"),
                doc_node(
                    Some(vec![(
                        String::from("dep"),
                        InputValue::Scalar(String::from("dep-node")),
                    )]),
                    None,
                    None,
                ),
            ),
            (
                String::from("dep-node"),
                doc_node(None, Some(target.locked), Some(target.original)),
            ),
        ],
    }
}

#[test]
fn a_document_with_both_descriptors_loads() {
    let mapper = FlakeLockMapperImpl {};
    let graph = mapper.to_domain(&simple_document()).unwrap();
    assert_eq!(
        graph.root.inputs,
        vec![(String::from("dep"), InputReference::Alias(String::from("dep-node")))]
    );
    assert_eq!(graph.nodes.len(), 1);
    assert_eq!(graph.nodes[0].0, String::from("dep-node"));
    assert_eq!(
        graph.locked_rev_of("dep"),
        Some(String::from("1234"))
    );
}

#[test]
fn a_node_without_locked_is_a_load_error() {
    let mut doc = simple_document();
    doc.nodes[1].1.locked = None;
    let mapper = FlakeLockMapperImpl {};
    assert!(matches!(
        mapper.to_domain(&doc),
        Err(Error::InvalidFlakeLock { .. })
    ));
}

#[test]
fn a_node_without_original_is_a_load_error() {
    let mut doc = simple_document();
    doc.nodes[1].1.original = None;
    let mapper = FlakeLockMapperImpl {};
    assert!(matches!(
        mapper.to_domain(&doc),
        Err(Error::InvalidFlakeLock { .. })
    ));
}

#[test]
fn a_multi_segment_root_reference_is_refused_explicitly() {
    let mut doc = simple_document();
    doc.nodes[0].1.inputs = Some(vec![(
        String::from("dep"),
        InputValue::List(vec![String::from("dep-node"), String::from("inner")]),
    )]);
    let mapper = FlakeLockMapperImpl {};
    assert!(matches!(
        mapper.to_domain(&doc),
        Err(Error::InvalidFlakeLock { .. })
    ));
}

#[test]
fn a_document_without_its_root_node_is_a_load_error() {
    let mut doc = simple_document();
    doc.root = String::from("elsewhere");
    let mapper = FlakeLockMapperImpl {};
    assert!(matches!(
        mapper.to_domain(&doc),
        Err(Error::InvalidFlakeLock { .. })
    ));
}

#[test]
fn a_non_root_follows_path_is_carried_through() {
    let mut doc = simple_document();
    doc.nodes[1].1.inputs = Some(vec![(
        String::from("nixpkgs"),
        InputValue::List(vec![String::from("other"), String::from("nixpkgs")]),
    )]);
    let mapper = FlakeLockMapperImpl {};
    let graph = mapper.to_domain(&doc).unwrap();
    assert_eq!(
        graph.nodes[0].1.inputs,
        vec![(
            String::from("nixpkgs"),
            InputReference::Path(vec![String::from("other"), String::from("nixpkgs")])
        )]
    );
}

#[test]
fn duplicate_node_names_are_a_load_error() {
    let mut doc = simple_document();
    let target = git_node_with_url_only("https://example.com/a.git", "1234");
    doc.nodes.push((
        String::from("dep-node"),
        doc_node(None, Some(target.locked), Some(target.original)),
    ));
    let mapper = FlakeLockMapperImpl {};
    assert!(matches!(
        mapper.to_domain(&doc),
        Err(Error::InvalidFlakeLock { .. })
    ));
}
