use femboylose::release::{git_metadata_from_releases, GithubAsset, GithubRelease};

fn release(tag: &str, name: Option<&str>, prerelease: bool, draft: bool) -> GithubRelease {
    GithubRelease {
        tag_name: tag.to_string(),
        name: name.map(|s| s.to_string()),
        body: None,
        prerelease,
        draft,
        published_at: None,
        updated_at: format!("updated-{tag}"),
        html_url: format!("https://example.invalid/{tag}"),
        assets: vec![GithubAsset {
            name: "injector.exe".to_string(),
            browser_download_url: format!("https://example.invalid/{tag}/injector.exe"),
            size: 42,
        }],
    }
}

#[test]
fn sorts_releases_and_drops_drafts() {
    let mut with_body = release("1.2.0", Some("Big update"), false, false);
    with_body.body = Some("notes".to_string());
    with_body.published_at = Some("2024-01-01".to_string());
    let releases = vec![
        with_body,
        release("1.3.0-nightly", None, true, false),
        release("draft", None, false, true),
        release("1.1.0", None, false, false),
    ];
    let m = git_metadata_from_releases(&releases);
    let stable: Vec<&str> = m.releases.iter().map(|v| v.tag.as_str()).collect();
    let nightly: Vec<&str> = m.nightlies.iter().map(|v| v.tag.as_str()).collect();
    assert_eq!(stable, vec!["1.2.0", "1.1.0"]);
    assert_eq!(nightly, vec!["1.3.0-nightly"]);

    let first = &m.releases[0];
    assert_eq!(first.name, "Big update");
    assert_eq!(first.changelog, "notes");
    assert_eq!(first.updated_at, "2024-01-01");
    assert_eq!(first.url, "https://example.invalid/1.2.0");
    assert_eq!(first.assets.len(), 1);
    assert_eq!(first.assets[0].name, "injector.exe");
    assert_eq!(first.assets[0].url, "https://example.invalid/1.2.0/injector.exe");
    assert_eq!(first.assets[0].size, 42);

    let second = &m.releases[1];
    assert_eq!(second.name, "1.1.0");
    assert_eq!(second.changelog, "");
    assert_eq!(second.updated_at, "updated-1.1.0");
}

#[test]
fn no_releases_no_versions() {
    let m = git_metadata_from_releases(&vec![]);
    assert!(m.releases.is_empty());
    assert!(m.nightlies.is_empty());
}
