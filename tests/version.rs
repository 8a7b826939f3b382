use ppm::version::{bump_semantic_version, parse_bump_kind, parse_spec, BumpKind, VersionError};

#[test]
fn bump_major_resets_minor_and_patch() {
    assert_eq!(bump_semantic_version("1.2.3", "major"), Ok("2.0.0".to_string()));
}

#[test]
fn bump_minor_resets_patch() {
    assert_eq!(bump_semantic_version("1.2.3", "minor"), Ok("1.3.0".to_string()));
}

#[test]
fn bump_patch_drops_suffix() {
    assert_eq!(bump_semantic_version("1.2.3-beta", "patch"), Ok("1.2.4".to_string()));
}

#[test]
fn bump_patch_keeps_major_and_minor() {
    assert_eq!(bump_semantic_version("10.20.99", "patch"), Ok("10.20.100".to_string()));
    assert_eq!(bump_semantic_version("0.0.0-rc.1", "patch"), Ok("0.0.1".to_string()));
}

#[test]
fn bump_reads_leading_zeros_as_numbers() {
    assert_eq!(bump_semantic_version("01.002.9", "patch"), Ok("1.2.10".to_string()));
}

#[test]
fn bump_largest_component() {
    assert_eq!(bump_semantic_version("4294967295.0.0", "major"), Ok("4294967296.0.0".to_string()));
    assert_eq!(bump_semantic_version("4294967296.0.0", "major"), Err(VersionError::InvalidVersionFormat));
}

#[test]
fn bump_two_components_fails() {
    assert_eq!(bump_semantic_version("1.2", "patch"), Err(VersionError::InvalidVersionFormat));
}

#[test]
fn bump_non_numeric_component_fails() {
    assert_eq!(bump_semantic_version("1.2.x", "patch"), Err(VersionError::InvalidVersionFormat));
    assert_eq!(bump_semantic_version("1..3", "patch"), Err(VersionError::InvalidVersionFormat));
    assert_eq!(bump_semantic_version("", "patch"), Err(VersionError::InvalidVersionFormat));
    assert_eq!(bump_semantic_version("1.2.3.4", "patch"), Err(VersionError::InvalidVersionFormat));
}

#[test]
fn bump_unknown_kind_fails() {
    assert_eq!(bump_semantic_version("1.2.3", "build"), Err(VersionError::UnknownBumpType));
    assert_eq!(bump_semantic_version("1.2", "build"), Err(VersionError::InvalidVersionFormat));
}

#[test]
fn bump_kind_names() {
    assert_eq!(parse_bump_kind("major"), Some(BumpKind::Major));
    assert_eq!(parse_bump_kind("minor"), Some(BumpKind::Minor));
    assert_eq!(parse_bump_kind("patch"), Some(BumpKind::Patch));
    assert_eq!(parse_bump_kind("Patch"), None);
}

#[test]
fn parse_spec_with_version() {
    assert_eq!(parse_spec("foo==1.0.0"), ("foo".to_string(), Some("1.0.0".to_string())));
}

#[test]
fn parse_spec_without_version() {
    assert_eq!(parse_spec("foo"), ("foo".to_string(), None));
}

#[test]
fn parse_spec_trims_name_and_splits_at_first_eqeq() {
    assert_eq!(parse_spec("  foo \t==1==2"), ("foo".to_string(), Some("1==2".to_string())));
    assert_eq!(parse_spec("foo=="), ("foo".to_string(), None));
    assert_eq!(parse_spec(" bar "), ("bar".to_string(), None));
    assert_eq!(parse_spec("a=b==c"), ("a=b".to_string(), Some("c".to_string())));
}

#[test]
fn parse_spec_unicode_name_and_space() {
    assert_eq!(parse_spec("\u{3000}ñame\u{a0}==1.0"), ("ñame".to_string(), Some("1.0".to_string())));
}

#[test]
fn bump_accepts_leading_plus() {
    assert_eq!(bump_semantic_version("+1.2.3", "patch"), Ok("1.2.4".to_string()));
    assert_eq!(bump_semantic_version("1.+2.3-rc", "minor"), Ok("1.3.0".to_string()));
    assert_eq!(bump_semantic_version("+.2.3", "patch"), Err(VersionError::InvalidVersionFormat));
    assert_eq!(bump_semantic_version("++1.2.3", "patch"), Err(VersionError::InvalidVersionFormat));
}
