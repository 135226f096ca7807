use javetas::update::{
    check_update, confirms, eq_ignore_ascii_case, extract_tag, parse_version, release_asset,
    install_after_answer, release_urls, strip_trailing_slashes, update_action, version_not_newer,
    UpdateAction, UpdateCheck,
};

#[test]
fn versions() {
    assert_eq!(parse_version("v1.2.3"), Some((1, 2, 3)));
    assert_eq!(parse_version("1.2.3"), Some((1, 2, 3)));
    assert_eq!(parse_version("v10.20.30-beta.4"), Some((10, 20, 30)));
    assert_eq!(parse_version("1.2.3.4"), Some((1, 2, 3)));
    assert_eq!(parse_version("release 0.0.7"), Some((0, 0, 7)));
    assert_eq!(parse_version("vv1.2.3"), Some((1, 2, 3)));
    assert_eq!(parse_version("1.2"), None);
    assert_eq!(parse_version(""), None);
    assert_eq!(parse_version("v"), None);
    assert_eq!(parse_version("007.08.09"), Some((7, 8, 9)));
}

#[test]
fn version_overflow() {
    assert_eq!(parse_version("18446744073709551615.0.1"), Some((u64::MAX, 0, 1)));
    assert_eq!(parse_version("18446744073709551616.0.1"), None);
    assert_eq!(parse_version("1.2.99999999999999999999"), None);
    assert_eq!(parse_version("1.2.3.99999999999999999999"), Some((1, 2, 3)));
}

#[test]
fn version_order() {
    assert!(version_not_newer((1, 2, 3), (1, 2, 3)));
    assert!(version_not_newer((1, 2, 3), (1, 3, 0)));
    assert!(version_not_newer((0, 9, 9), (1, 0, 0)));
    assert!(!version_not_newer((1, 2, 4), (1, 2, 3)));
    assert!(!version_not_newer((2, 0, 0), (1, 9, 9)));
}

#[test]
fn tags() {
    let json = r#"{"url": "x", "tag_name": "v1.4.0", "name": "Release"}"#;
    assert_eq!(extract_tag(json), Some("v1.4.0"));
    assert_eq!(extract_tag("{\"tag_name\":\n  \"v2\"}"), Some("v2"));
    assert_eq!(extract_tag(r#"{"tag_name":"v1.0.0"#), Some("v1.0.0"));
    assert_eq!(extract_tag(r#"{"name": "x"}"#), None);
    assert_eq!(extract_tag(r#"{"tag_name" "v1"}"#), None);
    assert_eq!(extract_tag(r#"{"tag_name": v1}"#), None);
    assert_eq!(extract_tag(r#""tag_name": "a", "tag_name": "b""#), Some("a"));
    assert_eq!(extract_tag(r#""tag_name"x"tag_name": "b""#), None);
}

#[test]
fn assets() {
    assert_eq!(release_asset("linux", "x86_64"), Ok("javetas-linux-x86_64.tar.gz".to_string()));
    assert_eq!(release_asset("macos", "x86_64"), Ok("javetas-macos-x86_64.tar.gz".to_string()));
    assert_eq!(release_asset("macos", "aarch64"), Ok("javetas-macos-arm64.tar.gz".to_string()));
    assert_eq!(
        release_asset("linux", "aarch64"),
        Err("no release available for linux/aarch64".to_string())
    );
}

#[test]
fn urls() {
    assert_eq!(
        release_urls(None, "a.tar.gz"),
        (
            "https://api.github.com/repos/YuriRiegaAlva/javetas/releases/latest".to_string(),
            "https://github.com/YuriRiegaAlva/javetas/releases/latest/download/a.tar.gz".to_string()
        )
    );
    assert_eq!(
        release_urls(Some("http://localhost:8000//"), "a.tar.gz"),
        (
            "http://localhost:8000/releases/latest".to_string(),
            "http://localhost:8000/releases/latest/download/a.tar.gz".to_string()
        )
    );
    assert_eq!(strip_trailing_slashes("///"), "");
    assert_eq!(strip_trailing_slashes("a/b"), "a/b");
}

#[test]
fn update_decisions() {
    let json = r#"{"tag_name": "v1.4.0"}"#;
    assert_eq!(check_update("1.3.9", json), Ok(UpdateCheck::Newer { tag: "v1.4.0".to_string() }));
    assert_eq!(check_update("1.4.0", json), Ok(UpdateCheck::UpToDate));
    assert_eq!(check_update("2.0.0", json), Ok(UpdateCheck::UpToDate));
    assert_eq!(check_update("dev", json), Ok(UpdateCheck::Newer { tag: "v1.4.0".to_string() }));
    assert_eq!(
        check_update("1.0.0", "{}"),
        Err("cannot find the latest version in the release info".to_string())
    );
    assert_eq!(
        check_update("1.0.0", r#"{"tag_name": "latest"}"#),
        Err("cannot parse latest version tag `latest`".to_string())
    );
}

#[test]
fn confirmations() {
    for yes in ["y", "Y", "yes", "YES", "yEs"] {
        assert!(confirms(yes), "{yes}");
    }
    for no in ["", "n", "no", "ye", "yess", " y", "ý"] {
        assert!(!confirms(no), "{no}");
    }
    assert!(eq_ignore_ascii_case("AbC", "aBc"));
    assert!(!eq_ignore_ascii_case("[", "{"));
}

#[test]
fn update_steps() {
    assert_eq!(update_action(UpdateCheck::UpToDate, false), UpdateAction::UpToDate);
    assert_eq!(update_action(UpdateCheck::UpToDate, true), UpdateAction::UpToDate);
    let newer = || UpdateCheck::Newer { tag: "v2.0.0".to_string() };
    assert_eq!(update_action(newer(), true), UpdateAction::Install { tag: "v2.0.0".to_string() });
    assert_eq!(update_action(newer(), false), UpdateAction::Ask { tag: "v2.0.0".to_string() });
    assert!(install_after_answer(Some("Yes")));
    assert!(!install_after_answer(Some("")));
    assert!(!install_after_answer(None));
}
