use lamina::version::latest_semver_tag;

fn tags(names: &[&str]) -> Vec<String> {
    names.iter().map(|s| String::from(*s)).collect()
}

#[test]
fn the_numerically_greatest_release_tag_wins() {
    assert_eq!(
        latest_semver_tag(&tags(&["v0.1.0", "v0.10.0", "v0.2.0"])),
        Some(String::from("v0.10.0"))
    );
}

#[test]
fn a_leading_v_is_optional() {
    assert_eq!(
        latest_semver_tag(&tags(&["1.2.3", "v1.2.4"])),
        Some(String::from("v1.2.4"))
    );
}

#[test]
fn prerelease_tags_are_ignored_for_latest() {
    assert_eq!(
        latest_semver_tag(&tags(&["v0.1.0", "v0.2.0-alpha.1", "v0.2.0-rc.1"])),
        Some(String::from("v0.1.0"))
    );
}

#[test]
fn build_metadata_tags_are_ignored_for_latest() {
    assert_eq!(
        latest_semver_tag(&tags(&["v0.1.0", "v0.2.0+build.5"])),
        Some(String::from("v0.1.0"))
    );
}

#[test]
fn tags_that_are_no_semantic_version_are_ignored() {
    assert_eq!(
        latest_semver_tag(&tags(&["release", "v1.0", "v0.3.0", "nightly-2024"])),
        Some(String::from("v0.3.0"))
    );
}

#[test]
fn no_release_tag_gives_no_latest() {
    assert_eq!(latest_semver_tag(&tags(&["v0.2.0-alpha.1", "main", "v1.0"])), None);
    assert_eq!(latest_semver_tag(&tags(&[])), None);
}

#[test]
fn major_minor_patch_order_is_numeric_not_textual() {
    assert_eq!(
        latest_semver_tag(&tags(&["v2.0.0", "v10.0.0", "v9.9.9"])),
        Some(String::from("v10.0.0"))
    );
    assert_eq!(
        latest_semver_tag(&tags(&["v1.1.10", "v1.1.9"])),
        Some(String::from("v1.1.10"))
    );
}

#[test]
fn the_first_of_two_equal_release_keys_is_kept() {
    assert_eq!(
        latest_semver_tag(&tags(&["v1.2.3", "1.2.3"])),
        Some(String::from("v1.2.3"))
    );
}
