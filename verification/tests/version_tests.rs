use sisr::version::{parse_version, release_version_label, Version};

fn v(major: u64, minor: u64, patch: u64, commits: u64) -> Version {
    Version { major, minor, patch, commits }
}

#[test]
fn parses_plain_and_prefixed_versions() {
    assert_eq!(parse_version("1.2.3"), Some(v(1, 2, 3, 0)));
    assert_eq!(parse_version("v1.2.3"), Some(v(1, 2, 3, 0)));
    assert_eq!(parse_version("  v1.2.3  "), Some(v(1, 2, 3, 0)));
}

#[test]
fn missing_minor_and_patch_count_as_zero() {
    assert_eq!(parse_version("v2"), Some(v(2, 0, 0, 0)));
    assert_eq!(parse_version("2.5"), Some(v(2, 5, 0, 0)));
}

#[test]
fn commit_count_follows_the_first_dash() {
    assert_eq!(parse_version("v1.2.3-45-g0abc"), Some(v(1, 2, 3, 45)));
    assert_eq!(parse_version("v1.2.3-rc1"), Some(v(1, 2, 3, 0)));
    assert_eq!(parse_version("1.2.3-"), Some(v(1, 2, 3, 0)));
}

#[test]
fn extra_dotted_fields_are_ignored() {
    assert_eq!(parse_version("1.2.3.4"), Some(v(1, 2, 3, 0)));
}

#[test]
fn malformed_versions_do_not_parse() {
    assert_eq!(parse_version(""), None);
    assert_eq!(parse_version("dev"), None);
    assert_eq!(parse_version("v"), None);
    assert_eq!(parse_version("1..2"), None);
    assert_eq!(parse_version("1.x"), None);
    assert_eq!(parse_version("18446744073709551616"), None);
}

#[test]
fn untrimmed_text_without_v_is_read_as_given() {
    // Without a leading `v` the untrimmed text is read, so surrounding
    // whitespace spoils the major number.
    assert_eq!(parse_version(" 1.2 "), None);
}

#[test]
fn plus_sign_is_accepted_as_parse_accepts_it() {
    assert_eq!(parse_version("+1.+2"), Some(v(1, 2, 0, 0)));
    assert_eq!(parse_version("18446744073709551615"), Some(v(u64::MAX, 0, 0, 0)));
}

#[test]
fn newer_compares_fields_in_order() {
    assert!(v(1, 0, 0, 0).is_newer_than(&v(0, 9, 9, 9)));
    assert!(v(1, 2, 0, 0).is_newer_than(&v(1, 1, 9, 9)));
    assert!(v(1, 2, 3, 0).is_newer_than(&v(1, 2, 2, 9)));
    assert!(v(1, 2, 3, 4).is_newer_than(&v(1, 2, 3, 3)));
    assert!(!v(1, 2, 3, 4).is_newer_than(&v(1, 2, 3, 4)));
    assert!(!v(1, 2, 3, 3).is_newer_than(&v(1, 2, 3, 4)));
}

#[test]
fn release_labels_get_one_v() {
    assert_eq!(release_version_label("v1.2.3"), "v1.2.3");
    assert_eq!(release_version_label("1.2.3"), "v1.2.3");
    assert_eq!(release_version_label("  v1.2.3 \n"), "v1.2.3");
    assert_eq!(release_version_label("vv1"), "vv1");
}

#[test]
fn labelling_twice_changes_nothing() {
    for s in ["v1.2", " 1.2 ", "vv3", "", "  "] {
        let once = release_version_label(s);
        assert_eq!(release_version_label(&once), once);
    }
}

#[test]
fn label_reparses_to_the_release_version() {
    for s in ["v1.2.3-4", "1.2", "v7"] {
        assert_eq!(parse_version(&release_version_label(s)), parse_version(s));
    }
}
