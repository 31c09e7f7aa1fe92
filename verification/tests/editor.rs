use lamina::error::Error;
use lamina::flake_nix::{find_input_url, override_input_url, sync, FlakeNix};
use lamina::strategy::{SyncInputNames, SyncServiceImpl};

fn oneline(url: &str) -> String {
    format!(
        "{{
  inputs.nix-rust-utils.url = \"{url}\";
  outputs = {{nix-rust-utils, ...}}:
    nix-rust-utils.lib.mkOutputs ({{...}}: {{crate.src = ./. ;}});
}}"
    )
}

fn input_attrset(url: &str) -> String {
    format!(
        "{{
  inputs = {{
    nix-rust-utils.url = \"{url}\";
  }};
  outputs = {{nix-rust-utils, ...}}:
    nix-rust-utils.lib.mkOutputs ({{...}}: {{crate.src = ./. ;}});
}}"
    )
}

fn all_attrset(url: &str) -> String {
    format!(
        "{{
  inputs = {{
    nix-rust-utils = {{
      url = \"{url}\";
    }};
  }};
  outputs = {{nix-rust-utils, ...}}:
    nix-rust-utils.lib.mkOutputs ({{...}}: {{crate.src = ./. ;}});
}}"
    )
}

const OLD_URL: &str = "git+https://git.vdx.hu/voidcontext/nix-rust-utils.git";
const NEW_URL: &str = "git+https://git.vdx.hu/voidcontext/nix-rust-utils.git?ref=refs/tags/v0.5.0";

fn run_sync(input: &str, source: String, destination: String) -> Result<String, Error> {
    sync(&source, &destination, &SyncInputNames::same(input.to_string()))
}

#[test]
fn sync_oneline_to_oneline() {
    assert_eq!(
        run_sync("nix-rust-utils", oneline(NEW_URL), oneline(OLD_URL)).unwrap(),
        oneline(NEW_URL)
    );
}

#[test]
fn sync_input_attrset_to_oneline() {
    assert_eq!(
        run_sync("nix-rust-utils", input_attrset(NEW_URL), oneline(OLD_URL)).unwrap(),
        oneline(NEW_URL)
    );
}

#[test]
fn sync_all_attrset_to_oneline() {
    assert_eq!(
        run_sync("nix-rust-utils", all_attrset(NEW_URL), oneline(OLD_URL)).unwrap(),
        oneline(NEW_URL)
    );
}

#[test]
fn sync_all_attrset_to_input_attrset() {
    assert_eq!(
        run_sync("nix-rust-utils", all_attrset(NEW_URL), input_attrset(OLD_URL)).unwrap(),
        input_attrset(NEW_URL)
    );
}

#[test]
fn sync_oneline_to_all_attrset() {
    assert_eq!(
        run_sync("nix-rust-utils", oneline(NEW_URL), all_attrset(OLD_URL)).unwrap(),
        all_attrset(NEW_URL)
    );
}

#[test]
fn sync_through_the_service_wraps_the_text() {
    let service = SyncServiceImpl {};
    let result = service
        .sync(
            &FlakeNix::new(oneline(NEW_URL)),
            &FlakeNix::new(oneline(OLD_URL)),
            &SyncInputNames::same(String::from("nix-rust-utils")),
        )
        .unwrap();
    assert_eq!(result.as_string(), oneline(NEW_URL));
}

#[test]
fn rewrite_changes_no_byte_outside_the_literal() {
    let text = "{ inputs.x.url = \"A\"; };";
    let rewritten = override_input_url(text, "x", "B").unwrap();
    assert_eq!(rewritten, "{ inputs.x.url = \"B\"; };");
}

#[test]
fn rewrite_keeps_comments_and_formatting() {
    let text = "{\n  # the pinned input\n  inputs = {\n    x = {\n      url = \"old\"; /* pin */\n    };\n  };\n}\n";
    let rewritten = override_input_url(text, "x", "new").unwrap();
    assert_eq!(
        rewritten,
        "{\n  # the pinned input\n  inputs = {\n    x = {\n      url = \"new\"; /* pin */\n    };\n  };\n}\n"
    );
}

#[test]
fn extract_reads_the_declared_url() {
    assert_eq!(
        find_input_url(&oneline(OLD_URL), "nix-rust-utils").unwrap(),
        String::from(OLD_URL)
    );
    assert_eq!(
        find_input_url(&input_attrset(OLD_URL), "nix-rust-utils").unwrap(),
        String::from(OLD_URL)
    );
    assert_eq!(
        find_input_url(&all_attrset(OLD_URL), "nix-rust-utils").unwrap(),
        String::from(OLD_URL)
    );
}

#[test]
fn rewrite_then_extract_round_trips_all_three_shapes() {
    let url = "github:owner/repo/1234567890abcdef";
    for text in [oneline(OLD_URL), input_attrset(OLD_URL), all_attrset(OLD_URL)] {
        let rewritten = override_input_url(&text, "nix-rust-utils", url).unwrap();
        assert_eq!(find_input_url(&rewritten, "nix-rust-utils").unwrap(), String::from(url));
    }
}

#[test]
fn a_missing_input_reports_path_not_found() {
    assert_eq!(
        find_input_url(&oneline(OLD_URL), "no-such-input"),
        Err(Error::PathNotFound)
    );
}

#[test]
fn an_interpolated_url_is_no_plain_literal() {
    let text = "{ inputs.x.url = \"git+${base}/repo\"; }";
    assert_eq!(find_input_url(text, "x"), Err(Error::NotAStringLiteral));
}

#[test]
fn a_nested_set_value_where_the_literal_should_stand_is_refused() {
    let text = "{ inputs.x.url = { nested = 1; }; }";
    assert_eq!(find_input_url(text, "x"), Err(Error::NotAStringLiteral));
}

#[test]
fn text_whose_root_is_no_attribute_set_is_refused() {
    let result = find_input_url("let x = 1; in x", "x");
    assert!(matches!(result, Err(Error::NixParserError(_))));
}

#[test]
fn a_quote_in_the_replacement_url_is_refused() {
    let text = oneline(OLD_URL);
    let result = override_input_url(&text, "nix-rust-utils", "bad\"url");
    assert!(matches!(result, Err(Error::SyncError(_))));
}

#[test]
fn indented_strings_elsewhere_do_not_disturb_the_edit() {
    let text = "{\n  inputs.x.url = \"old\";\n  script = ''\n    echo \"no } brace trouble\";\n  '';\n}\n";
    let rewritten = override_input_url(text, "x", "new").unwrap();
    assert_eq!(
        rewritten,
        "{\n  inputs.x.url = \"new\";\n  script = ''\n    echo \"no } brace trouble\";\n  '';\n}\n"
    );
}

#[test]
fn sync_with_differing_source_and_destination_names() {
    let source = "{ inputs.upstream.url = \"github:o/r/v2\"; }";
    let destination = "{ inputs.local.url = \"github:o/r/v1\"; }";
    let names =
        SyncInputNames::source_and_destination(String::from("upstream"), String::from("local"));
    assert_eq!(
        sync(source, destination, &names).unwrap(),
        "{ inputs.local.url = \"github:o/r/v2\"; }"
    );
}
