use cargo_v::{
    get_version, get_version_as_tuple, update_version, update_version_by_label, VersionError,
    VersionLabel,
};

fn manifest(version: &str) -> String {
    format!("[package]\n name = \"cargo-v\"\n version = \"{version}\"\n edition = \"2021\"\n# See more keys and their definitions at https://doc.rust-lang.org/cargo/reference/manifest.html\n[dependencies]\n")
}

#[test]
fn should_get_version() {
    let input = String::from("[package]\n name = \"cargo-v\"\n version = \"0.0.1\"\n edition = \"2021\"\n# See more keys and their definitions at https://doc.rust-lang.org/cargo/reference/manifest.html\n[dependencies]\n");
    let version = get_version(&input).unwrap();
    assert_eq!(version, String::from("0.0.1"));
}

#[test]
fn should_get_version_tuple() {
    let input = String::from("[package]\n name = \"cargo-v\"\n version = \"0.0.1\"\n edition = \"2021\"\n# See more keys and their definitions at https://doc.rust-lang.org/cargo/reference/manifest.html\n[dependencies]\n");
    let version_string = get_version(&input).unwrap();
    let version = get_version_as_tuple(&version_string).unwrap();
    assert_eq!(
        version,
        (String::from("0"), String::from("0"), String::from("1"))
    );
}

#[test]
fn should_update_project_version_by_hand() {
    let input = String::from("[package]\n name = \"cargo-v\"\n version = \"0.0.1\"\n edition = \"2021\"\n# See more keys and their definitions at https://doc.rust-lang.org/cargo/reference/manifest.html\n[dependencies]\n");
    let expected = String::from("[package]\n name = \"cargo-v\"\n version = \"0.0.2\"\n edition = \"2021\"\n# See more keys and their definitions at https://doc.rust-lang.org/cargo/reference/manifest.html\n[dependencies]\n");
    let version_expected = String::from("0.0.2");
    assert_eq!(
        update_version(input, version_expected.clone()).unwrap(),
        (expected, version_expected)
    );
}

#[test]
fn should_update_project_version_patch() {
    let input = String::from("[package]\n name = \"cargo-v\"\n version = \"0.0.1\"\n edition = \"2021\"\n# See more keys and their definitions at https://doc.rust-lang.org/cargo/reference/manifest.html\n[dependencies]\n");
    let expected = String::from("[package]\n name = \"cargo-v\"\n version = \"0.0.2\"\n edition = \"2021\"\n# See more keys and their definitions at https://doc.rust-lang.org/cargo/reference/manifest.html\n[dependencies]\n");
    let version_expected = String::from("0.0.2");
    assert_eq!(
        update_version_by_label(input, VersionLabel::Patch).unwrap(),
        (expected, version_expected)
    );
}

#[test]
fn should_update_project_version_minor() {
    let input = String::from("[package]\n name = \"cargo-v\"\n version = \"0.0.1\"\n edition = \"2021\"\n# See more keys and their definitions at https://doc.rust-lang.org/cargo/reference/manifest.html\n[dependencies]\n");
    let expected = String::from("[package]\n name = \"cargo-v\"\n version = \"0.1.0\"\n edition = \"2021\"\n# See more keys and their definitions at https://doc.rust-lang.org/cargo/reference/manifest.html\n[dependencies]\n");
    let version_expected = String::from("0.1.0");
    assert_eq!(
        update_version_by_label(input, VersionLabel::Minor).unwrap(),
        (expected, version_expected)
    )
}

#[test]
fn should_update_project_version_major() {
    let input = String::from("[package]\n name = \"cargo-v\"\n version = \"0.0.1\"\n edition = \"2021\"\n# See more keys and their definitions at https://doc.rust-lang.org/cargo/reference/manifest.html\n[dependencies]\n");
    let expected = String::from("[package]\n name = \"cargo-v\"\n version = \"1.0.0\"\n edition = \"2021\"\n# See more keys and their definitions at https://doc.rust-lang.org/cargo/reference/manifest.html\n[dependencies]\n");
    let version_expected = String::from("1.0.0");
    assert_eq!(
        update_version_by_label(input, VersionLabel::Major).unwrap(),
        (expected, version_expected)
    )
}

#[test]
fn should_panic_on_version_patch_passed_lower_than_current() {
    let input = String::from("[package]\n name = \"cargo-v\"\n version = \"0.0.2\"\n edition = \"2021\"\n# See more keys and their definitions at https://doc.rust-lang.org/cargo/reference/manifest.html\n[dependencies]\n");
    match update_version(input, "0.0.1".into()) {
        Ok(_) => assert!(false),
        Err(error) => assert_eq!(
            error.to_string(),
            "You can not set a version lower than the current version"
        ),
    };
}

#[test]
fn should_panic_on_version_minor_passed_lower_than_current() {
    let input = String::from("[package]\n name = \"cargo-v\"\n version = \"0.2.2\"\n edition = \"2021\"\n# See more keys and their definitions at https://doc.rust-lang.org/cargo/reference/manifest.html\n[dependencies]\n");
    match update_version(input, "0.1.0".into()) {
        Ok(_) => assert!(false),
        Err(error) => assert_eq!(
            error.to_string(),
            "You can not set a version lower than the current version"
        ),
    };
}

#[test]
fn should_panic_on_version_major_passed_lower_than_current() {
    let input = String::from("[package]\n name = \"cargo-v\"\n version = \"2.0.2\"\n edition = \"2021\"\n# See more keys and their definitions at https://doc.rust-lang.org/cargo/reference/manifest.html\n[dependencies]\n");
    match update_version(input, "1.0.0".into()) {
        Ok(_) => assert!(false),
        Err(error) => assert_eq!(
            error.to_string(),
            "You can not set a version lower than the current version"
        ),
    };
}

#[test]
fn should_panic_on_version_passed_had_negative_number() {
    let input = String::from("[package]\n name = \"cargo-v\"\n version = \"2.0.2\"\n edition = \"2021\"\n# See more keys and their definitions at https://doc.rust-lang.org/cargo/reference/manifest.html\n[dependencies]\n");
    match update_version(input, "-2.1.0".into()) {
        Ok(_) => assert!(false),
        Err(error) => assert_eq!(error.to_string(), "invalid digit found in string"),
    };
}

#[test]
fn should_acept_v_prefix() {
    let input = String::from("[package]\n name = \"cargo-v\"\n version = \"0.0.1\"\n edition = \"2021\"\n# See more keys and their definitions at https://doc.rust-lang.org/cargo/reference/manifest.html\n[dependencies]\n");
    let expected = String::from("[package]\n name = \"cargo-v\"\n version = \"0.0.2\"\n edition = \"2021\"\n# See more keys and their definitions at https://doc.rust-lang.org/cargo/reference/manifest.html\n[dependencies]\n");
    let version_expected = String::from("0.0.2");
    assert_eq!(
        update_version(input, "v0.0.2".into()).unwrap(),
        (expected, version_expected)
    )
}

#[test]
fn bump_labels_from_a_mid_version() {
    let cases = [
        (VersionLabel::Patch, "1.2.4"),
        (VersionLabel::Minor, "1.3.0"),
        (VersionLabel::Major, "2.0.0"),
    ];
    for (label, next) in cases {
        let (doc, version) = update_version_by_label(manifest("1.2.3"), label).unwrap();
        assert_eq!(version, next);
        assert_eq!(doc, manifest(next));
    }
}

#[test]
fn bump_carries_into_more_digits() {
    let (doc, version) = update_version_by_label(manifest("9.99.9"), VersionLabel::Patch).unwrap();
    assert_eq!(version, "9.99.10");
    assert_eq!(doc, manifest("9.99.10"));
    let (_, version) = update_version_by_label(manifest("9.99.9"), VersionLabel::Minor).unwrap();
    assert_eq!(version, "9.100.0");
}

#[test]
fn explicit_equal_version_is_rejected() {
    assert_eq!(
        update_version(manifest("1.2.3"), "1.2.3".into()),
        Err(VersionError::VersionNotGreater)
    );
}

#[test]
fn explicit_lower_versions_are_rejected() {
    for request in ["0.9.9", "1.1.9", "1.2.2", "0.3.0"] {
        assert_eq!(
            update_version(manifest("1.2.3"), request.into()),
            Err(VersionError::VersionNotGreater),
            "{request}"
        );
    }
}

#[test]
fn explicit_bumps_that_keep_lower_parts_are_rejected() {
    for request in ["1.3.1", "2.0.1", "2.1.0", "2.2.3"] {
        assert_eq!(
            update_version(manifest("1.2.3"), request.into()),
            Err(VersionError::VersionNotGreater),
            "{request}"
        );
    }
}

#[test]
fn explicit_next_versions_are_accepted() {
    for request in ["1.2.4", "1.2.9", "1.3.0", "1.7.0", "2.0.0", "5.0.0"] {
        let (doc, version) = update_version(manifest("1.2.3"), request.into()).unwrap();
        assert_eq!(version, request);
        assert_eq!(doc, manifest(request));
    }
}

#[test]
fn manifest_without_version_line_is_reported() {
    let doc = String::from("[package]\nname = \"demo\"\nedition = \"2021\"\n");
    assert_eq!(get_version(&doc), Err(VersionError::ManifestMissingVersion));
    assert_eq!(
        update_version_by_label(doc.clone(), VersionLabel::Patch),
        Err(VersionError::ManifestMissingVersion)
    );
    assert_eq!(
        update_version(doc, "1.0.0".into()),
        Err(VersionError::ManifestMissingVersion)
    );
    assert_eq!(get_version(""), Err(VersionError::ManifestMissingVersion));
}

#[test]
fn first_version_line_is_used() {
    let doc = String::from("[package]\nversion = \"0.3.1\"\n[dependencies]\nother = { version = \"0.3.9\" }\n");
    assert_eq!(get_version(&doc).unwrap(), "0.3.1");
}

#[test]
fn version_line_without_equals_is_invalid_format() {
    let doc = String::from("# version 1.2.3\nversion = \"1.2.3\"\n");
    assert_eq!(get_version(&doc), Err(VersionError::InvalidFormat));
}

#[test]
fn version_with_two_parts_is_invalid_format() {
    assert_eq!(
        update_version_by_label(manifest("1.2"), VersionLabel::Patch),
        Err(VersionError::InvalidFormat)
    );
    assert_eq!(
        update_version(manifest("1.2.3"), "1.3".into()),
        Err(VersionError::InvalidFormat)
    );
}

#[test]
fn missing_parts_are_reported_before_bad_digits() {
    assert_eq!(
        update_version(manifest("a.0.0"), "1.0".into()),
        Err(VersionError::InvalidFormat)
    );
    assert_eq!(
        update_version(manifest("a.0.0"), "1.0.0".into()),
        Err(VersionError::InvalidDigit)
    );
}

#[test]
fn only_one_leading_v_is_stripped() {
    assert_eq!(
        update_version(manifest("0.0.1"), "vv0.0.2".into()),
        Err(VersionError::InvalidDigit)
    );
    assert_eq!(
        update_version(manifest("0.0.1"), "0.v0.2".into()),
        Err(VersionError::InvalidDigit)
    );
}

#[test]
fn every_occurrence_of_the_old_version_is_rewritten() {
    let doc = String::from("[package]\nversion = \"0.4.0\"\n[dependencies]\nhelper = \"0.4.0\"\n");
    let (new_doc, version) = update_version_by_label(doc, VersionLabel::Minor).unwrap();
    assert_eq!(version, "0.5.0");
    assert_eq!(
        new_doc,
        "[package]\nversion = \"0.5.0\"\n[dependencies]\nhelper = \"0.5.0\"\n"
    );
}

#[test]
fn unquoted_and_tightly_written_versions_are_read() {
    assert_eq!(get_version("version=\"3.1.4\"").unwrap(), "3.1.4");
    assert_eq!(get_version("version = 3.1.4   \n").unwrap(), "3.1.4");
    assert_eq!(get_version("version = \"3.1.4\"\r\nname = \"x\"\r\n").unwrap(), "3.1.4");
    assert_eq!(get_version("version =\u{3000}\"3.1.4\"\u{a0}").unwrap(), "3.1.4");
}

#[test]
fn crlf_manifest_is_bumped() {
    let doc = String::from("[package]\r\nversion = \"0.0.9\"\r\n");
    let (new_doc, version) = update_version_by_label(doc, VersionLabel::Patch).unwrap();
    assert_eq!(version, "0.0.10");
    assert_eq!(new_doc, "[package]\r\nversion = \"0.0.10\"\r\n");
}

#[test]
fn parts_after_the_third_are_ignored() {
    let (doc, version) =
        update_version_by_label(manifest("1.2.3.4"), VersionLabel::Patch).unwrap();
    assert_eq!(version, "1.2.4");
    assert_eq!(doc, manifest("1.2.4"));
}

#[test]
fn largest_part_cannot_be_bumped() {
    let top = usize::MAX.to_string();
    let current = format!("{top}.0.0");
    assert_eq!(
        update_version_by_label(manifest(&current), VersionLabel::Major),
        Err(VersionError::Overflow)
    );
    let (_, version) =
        update_version_by_label(manifest(&current), VersionLabel::Minor).unwrap();
    assert_eq!(version, format!("{top}.1.0"));
}

#[test]
fn too_large_part_is_overflow() {
    assert_eq!(
        update_version(manifest("1.0.0"), "1.0.99999999999999999999999".into()),
        Err(VersionError::Overflow)
    );
}

#[test]
fn error_messages() {
    assert_eq!(
        VersionError::ManifestMissingVersion.to_string(),
        "Cargo.toml don't have a version tag"
    );
    assert_eq!(
        VersionError::InvalidFormat.to_string(),
        "version must have three parts separated by '.'"
    );
    assert_eq!(
        VersionError::InvalidDigit.to_string(),
        "invalid digit found in string"
    );
    assert_eq!(
        VersionError::Overflow.to_string(),
        "number too large to fit in target type"
    );
    assert_eq!(
        VersionError::VersionNotGreater.to_string(),
        "You can not set a version lower than the current version"
    );
}
